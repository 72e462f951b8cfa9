//! How the allow-list is resolved at start-up: from a list given as JSON, or
//! else from the names in a file that the runtime also reports.
use vstd::prelude::*;
use crate::containers::{bare_name, ListedContainer, ListedView, listed_views};
use crate::text::{contains_name, has_name, text_of, texts_of, trim_start_char, views};

verus! {

/// The list of strings that a JSON text spells, if it spells one.
pub uninterp spec fn json_string_list(text: Seq<char>) -> Option<Seq<Seq<char>>>;

/// Reads a JSON array of strings.
///
/// Calls `serde_json::from_str` at `Vec<String>`; the result is named by
/// `json_string_list`, with a parse error mapped to `None`. Nothing is claimed
/// about which texts parse.
#[verifier::external_body]
fn parse_string_list(json: &str) -> (r: Option<Vec<String>>)
    ensures
        texts_of(r) == json_string_list(json@),
{
    serde_json::from_str::<Vec<String>>(json).ok()
}

/// The allow-list given on the command line, if one was given and it parses.
pub open spec fn spec_cli_containers(arg: Option<Seq<char>>) -> Option<Seq<Seq<char>>> {
    match arg {
        Some(json) => json_string_list(json),
        None => None,
    }
}

/// The allow-list given on the command line, if one was given and it parses.
pub fn cli_containers(arg: Option<&str>) -> (r: Option<Vec<String>>)
    ensures
        texts_of(r) == spec_cli_containers(text_of(arg)),
{
    match arg {
        Some(json) => parse_string_list(json),
        None => None,
    }
}

/// The entries of `file` that also occur in `system`, in file order and as
/// often as the file holds them.
pub open spec fn known(file: Seq<Seq<char>>, system: Seq<Seq<char>>) -> Seq<Seq<char>> {
    file.filter(|name: Seq<char>| has_name(system, name))
}

/// The entries of `file` that also occur in `system`.
pub fn known_containers(file: &Vec<String>, system: &Vec<String>) -> (r: Vec<String>)
    ensures
        views(r@) == known(views(file@), views(system@)),
{
    let ghost keep = |name: Seq<char>| has_name(views(system@), name);
    let mut out: Vec<String> = Vec::new();
    let mut i: usize = 0;
    while i < file.len()
        invariant
            i <= file.len(),
            keep == |name: Seq<char>| has_name(views(system@), name),
            views(out@) == views(file@).take(i as int).filter(keep),
        decreases file.len() - i,
    {
        let ghost l = views(file@).take(i + 1);
        assert(l.drop_last() =~= views(file@).take(i as int));
        proof {
            reveal(Seq::filter);
        }
        if contains_name(system, file[i].as_str()) {
            out.push(file[i].clone());
        }
        i += 1;
    }
    assert(views(file@).take(i as int) =~= views(file@));
    out
}

/// The bare names of one listing entry; none where the entry has no names.
pub open spec fn entry_names(e: ListedView) -> Seq<Seq<char>> {
    match e.names {
        Some(names) => Seq::new(names.len(), |i: int| bare_name(names[i])),
        None => Seq::empty(),
    }
}

/// Every bare name of a listing: entry by entry, each entry's names in order.
pub open spec fn all_names(l: Seq<ListedView>) -> Seq<Seq<char>>
    decreases l.len(),
{
    if l.len() == 0 {
        Seq::empty()
    } else {
        all_names(l.drop_last()) + entry_names(l.last())
    }
}

/// Every name that the runtime reports, without the leading `/`.
pub fn get_container_names(listing: &Vec<ListedContainer>) -> (r: Vec<String>)
    ensures
        views(r@) == all_names(listed_views(listing@)),
{
    let mut out: Vec<String> = Vec::new();
    let mut i: usize = 0;
    while i < listing.len()
        invariant
            i <= listing.len(),
            views(out@) == all_names(listed_views(listing@).take(i as int)),
        decreases listing.len() - i,
    {
        let ghost done = views(out@);
        let ghost l = listed_views(listing@).take(i + 1);
        assert(l.drop_last() =~= listed_views(listing@).take(i as int));
        match &listing[i].names {
            Some(names) => {
                let mut j: usize = 0;
                while j < names.len()
                    invariant
                        j <= names.len(),
                        l.last().names == Some(views(names@)),
                        views(out@) == done + entry_names(l.last()).take(j as int),
                    decreases names.len() - j,
                {
                    let ghost before = views(out@);
                    let name = trim_start_char(names[j].as_str(), '/');
                    out.push(name);
                    assert(views(out@) =~= before.push(bare_name(names@[j as int]@)));
                    assert(entry_names(l.last()).take(j + 1) =~= entry_names(l.last()).take(
                        j as int,
                    ).push(bare_name(names@[j as int]@)));
                    j += 1;
                }
            },
            None => {},
        }
        i += 1;
    }
    assert(listed_views(listing@).take(i as int) =~= listed_views(listing@));
    out
}

/// The allow-list: the command-line list where there is one, else the known
/// entries of the file.
pub open spec fn allowed_from(
    cli: Option<Seq<Seq<char>>>,
    file: Seq<Seq<char>>,
    system: Seq<Seq<char>>,
) -> Seq<Seq<char>> {
    match cli {
        Some(list) => list,
        None => known(file, system),
    }
}

/// Resolves the allow-list from its three sources.
pub fn init_allowed_containers(
    cli: Option<Vec<String>>,
    file: &Vec<String>,
    system: &Vec<String>,
) -> (r: Vec<String>)
    ensures
        views(r@) == allowed_from(texts_of(cli), views(file@), views(system@)),
{
    match cli {
        Some(containers) => containers,
        None => known_containers(file, system),
    }
}

} // verus!
