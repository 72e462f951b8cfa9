//! Which containers a refresh cycle collects.
use vstd::prelude::*;
use crate::text::{contains_name, has_name, views};

verus! {

/// `out` with `name` at its end, unless `out` holds it already.
pub open spec fn add_unique(out: Seq<Seq<char>>, name: Seq<char>) -> Seq<Seq<char>> {
    if has_name(out, name) {
        out
    } else {
        out.push(name)
    }
}

/// `out` with, in order, those of `names` added that `other` holds
/// (`present`) or does not hold (`!present`), none twice.
pub open spec fn add_all(
    out: Seq<Seq<char>>,
    names: Seq<Seq<char>>,
    other: Seq<Seq<char>>,
    present: bool,
) -> Seq<Seq<char>>
    decreases names.len(),
{
    if names.len() == 0 {
        out
    } else {
        let rest = add_all(out, names.drop_last(), other, present);
        if has_name(other, names.last()) == present {
            add_unique(rest, names.last())
        } else {
            rest
        }
    }
}

/// The names to collect: the listed names that are allowed, in listing
/// order, then the allowed names that the listing lacks, none twice.
pub open spec fn targets_of(listed: Seq<Seq<char>>, allowed: Seq<Seq<char>>) -> Seq<Seq<char>> {
    add_all(add_all(Seq::empty(), listed, allowed, true), allowed, listed, false)
}

/// Whether no name stands twice in `s`.
pub open spec fn distinct(s: Seq<Seq<char>>) -> bool {
    forall|i: int, j: int| 0 <= i < j < s.len() ==> s[i] != s[j]
}

/// What adding names does: the result holds what `out` held and the names
/// added, and nothing twice if `out` held nothing twice.
pub proof fn lemma_add_all(
    out: Seq<Seq<char>>,
    names: Seq<Seq<char>>,
    other: Seq<Seq<char>>,
    present: bool,
)
    ensures
        forall|n: Seq<char>|
            has_name(add_all(out, names, other, present), n) <==> (has_name(out, n) || (has_name(
                names,
                n,
            ) && has_name(other, n) == present)),
        distinct(out) ==> distinct(add_all(out, names, other, present)),
    decreases names.len(),
{
    if names.len() > 0 {
        let t = names.drop_last();
        let rest = add_all(out, t, other, present);
        let r = add_all(out, names, other, present);
        lemma_add_all(out, t, other, present);
        assert forall|n: Seq<char>|
            has_name(r, n) <==> (has_name(out, n) || (has_name(names, n) && has_name(other, n)
                == present)) by {
            if has_name(rest, n) {
                let k = choose|k: int| 0 <= k < rest.len() && rest[k] == n;
                assert(r[k] == n);
            }
            if has_name(names, n) && has_name(other, n) == present {
                let j = choose|j: int| 0 <= j < names.len() && names[j] == n;
                if j < t.len() {
                    assert(t[j] == n);
                } else if !has_name(rest, n) {
                    assert(r[r.len() - 1] == n);
                }
            }
        }
    }
}

/// Every allowed name is collected, once, and no other name is.
pub proof fn lemma_targets(listed: Seq<Seq<char>>, allowed: Seq<Seq<char>>)
    ensures
        forall|n: Seq<char>| has_name(targets_of(listed, allowed), n) <==> has_name(allowed, n),
        distinct(targets_of(listed, allowed)),
{
    let first = add_all(Seq::empty(), listed, allowed, true);
    lemma_add_all(Seq::empty(), listed, allowed, true);
    lemma_add_all(first, allowed, listed, false);
}

fn push_unique(out: &mut Vec<String>, name: &String)
    ensures
        views(final(out)@) == add_unique(views(old(out)@), name@),
{
    if !contains_name(out, name.as_str()) {
        out.push(name.clone());
    }
}

fn push_all(out: &mut Vec<String>, names: &Vec<String>, other: &Vec<String>, present: bool)
    ensures
        views(final(out)@) == add_all(views(old(out)@), views(names@), views(other@), present),
{
    let ghost start = views(out@);
    let mut i: usize = 0;
    while i < names.len()
        invariant
            i <= names.len(),
            views(out@) == add_all(start, views(names@).take(i as int), views(other@), present),
        decreases names.len() - i,
    {
        let ghost head = views(names@).take(i + 1);
        assert(head.drop_last() =~= views(names@).take(i as int));
        if contains_name(other, names[i].as_str()) == present {
            push_unique(out, &names[i]);
        }
        i += 1;
    }
    assert(views(names@).take(i as int) =~= views(names@));
}

/// The names to collect in a cycle, given the names that the runtime lists.
pub fn resolve_targets(listed: &Vec<String>, allowed: &Vec<String>) -> (r: Vec<String>)
    ensures
        views(r@) == targets_of(views(listed@), views(allowed@)),
{
    let mut out: Vec<String> = Vec::new();
    assert(views(out@) =~= Seq::<Seq<char>>::empty());
    push_all(&mut out, listed, allowed, true);
    push_all(&mut out, allowed, listed, false);
    out
}

} // verus!
