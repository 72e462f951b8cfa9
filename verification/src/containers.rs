//! Container records and the selection of the records that may be shown.
use vstd::prelude::*;
use crate::text::{contains_name, has_name, push_char, trim_start, trim_start_char, views};

verus! {

/// One container as shown to clients.
#[derive(Debug)]
pub struct Container {
    pub name: String,
    pub status: String,
    pub state: String,
}

/// What a `Container` holds, as character sequences.
pub struct ContainerView {
    pub name: Seq<char>,
    pub status: Seq<char>,
    pub state: Seq<char>,
}

impl View for Container {
    type V = ContainerView;

    open spec fn view(&self) -> ContainerView {
        ContainerView { name: self.name@, status: self.status@, state: self.state@ }
    }
}

impl Clone for Container {
    fn clone(&self) -> (r: Self)
        ensures
            r@ == self@,
    {
        Container {
            name: self.name.clone(),
            status: self.status.clone(),
            state: self.state.clone(),
        }
    }
}

/// The line that stands for a container in a log or a list: its name and its
/// status.
pub open spec fn label_of(c: ContainerView) -> Seq<char> {
    c.name + seq![' ', '-', ' '] + c.status
}

impl Container {
    /// The line that stands for this container in a log or a list.
    pub fn label(&self) -> (r: String)
        ensures
            r@ == label_of(self@),
    {
        let mut r: String = self.name.clone();
        push_char(&mut r, ' ');
        push_char(&mut r, '-');
        push_char(&mut r, ' ');
        r.append(self.status.as_str());
        r
    }
}

/// The page model: the containers to show and the port the server listens on.
#[derive(Debug)]
pub struct ContainersTemplate {
    pub containers: Vec<Container>,
    pub port: u64,
}

pub struct ContainersTemplateView {
    pub containers: Seq<ContainerView>,
    pub port: u64,
}

impl View for ContainersTemplate {
    type V = ContainersTemplateView;

    open spec fn view(&self) -> ContainersTemplateView {
        ContainersTemplateView { containers: container_views(self.containers@), port: self.port }
    }
}

impl Clone for ContainersTemplate {
    fn clone(&self) -> (r: Self)
        ensures
            r@ == self@,
    {
        let mut containers: Vec<Container> = Vec::new();
        let mut i: usize = 0;
        while i < self.containers.len()
            invariant
                i <= self.containers.len(),
                containers.len() == i,
                forall|j: int| 0 <= j < i ==> containers@[j]@ == self.containers@[j]@,
            decreases self.containers.len() - i,
        {
            containers.push(self.containers[i].clone());
            i += 1;
        }
        assert(container_views(containers@) =~= container_views(self.containers@));
        ContainersTemplate { containers, port: self.port }
    }
}

/// The query of a start or stop request.
#[derive(Debug)]
pub struct ContainerName {
    pub name: String,
}

/// One entry of the runtime's container listing, with the fields that the
/// selection reads. Each may be missing.
#[derive(Debug)]
pub struct ListedContainer {
    pub names: Option<Vec<String>>,
    pub status: Option<String>,
    pub state: Option<String>,
}

/// What a `ListedContainer` holds, as character sequences.
pub struct ListedView {
    pub names: Option<Seq<Seq<char>>>,
    pub status: Option<Seq<char>>,
    pub state: Option<Seq<char>>,
}

impl View for ListedContainer {
    type V = ListedView;

    open spec fn view(&self) -> ListedView {
        ListedView {
            names: match self.names {
                Some(n) => Some(views(n@)),
                None => None,
            },
            status: match self.status {
                Some(s) => Some(s@),
                None => None,
            },
            state: match self.state {
                Some(s) => Some(s@),
                None => None,
            },
        }
    }
}

/// The views of a sequence of containers.
pub open spec fn container_views(v: Seq<Container>) -> Seq<ContainerView> {
    Seq::new(v.len(), |i: int| v[i]@)
}

/// The views of a listing.
pub open spec fn listed_views(v: Seq<ListedContainer>) -> Seq<ListedView> {
    Seq::new(v.len(), |i: int| v[i]@)
}

/// The runtime prefixes names with `/`; the bare name is what follows.
pub open spec fn bare_name(name: Seq<char>) -> Seq<char> {
    trim_start(name, '/')
}

/// The record that a listing entry yields: it needs a first name, a status
/// and a state, and its bare first name must be on the allow-list.
pub open spec fn shown(e: ListedView, allowed: Seq<Seq<char>>) -> Option<ContainerView> {
    if e.names is Some && e.names->0.len() > 0 && e.status is Some && e.state is Some
        && has_name(allowed, bare_name(e.names->0[0])) {
        Some(
            ContainerView {
                name: bare_name(e.names->0[0]),
                status: e.status->0,
                state: e.state->0,
            },
        )
    } else {
        None
    }
}

/// The records of a whole listing, in listing order.
pub open spec fn shown_all(l: Seq<ListedView>, allowed: Seq<Seq<char>>) -> Seq<ContainerView>
    decreases l.len(),
{
    if l.len() == 0 {
        Seq::empty()
    } else {
        let rest = shown_all(l.drop_last(), allowed);
        match shown(l.last(), allowed) {
            Some(c) => rest.push(c),
            None => rest,
        }
    }
}

/// Whether `container_name`, with or without the runtime's leading `/`, is on
/// the allow-list.
pub fn is_container_allowed(allowed: &Vec<String>, container_name: &str) -> (r: bool)
    ensures
        r == has_name(views(allowed@), bare_name(container_name@)),
{
    let clean_name = trim_start_char(container_name, '/');
    contains_name(allowed, clean_name.as_str())
}

/// The record for one listing entry, if it has one.
pub fn show_container(e: &ListedContainer, allowed: &Vec<String>) -> (r: Option<Container>)
    ensures
        match r {
            Some(c) => shown(e@, views(allowed@)) == Some(c@),
            None => shown(e@, views(allowed@)) is None,
        },
{
    match (&e.names, &e.status, &e.state) {
        (Some(names), Some(status), Some(state)) => {
            if names.len() == 0 {
                return None;
            }
            let name = trim_start_char(names[0].as_str(), '/');
            if contains_name(allowed, name.as_str()) {
                Some(Container { name, status: status.clone(), state: state.clone() })
            } else {
                None
            }
        },
        _ => None,
    }
}

/// The allowed containers of a listing, in listing order.
pub fn list_containers(listing: &Vec<ListedContainer>, allowed: &Vec<String>) -> (r: Vec<
    Container,
>)
    ensures
        container_views(r@) == shown_all(listed_views(listing@), views(allowed@)),
{
    let mut out: Vec<Container> = Vec::new();
    let mut i: usize = 0;
    while i < listing.len()
        invariant
            i <= listing.len(),
            container_views(out@) == shown_all(
                listed_views(listing@).take(i as int),
                views(allowed@),
            ),
        decreases listing.len() - i,
    {
        let ghost l = listed_views(listing@).take(i + 1);
        assert(l.drop_last() =~= listed_views(listing@).take(i as int));
        match show_container(&listing[i], allowed) {
            Some(c) => {
                out.push(c);
            },
            None => {},
        }
        i += 1;
    }
    assert(listed_views(listing@).take(i as int) =~= listed_views(listing@));
    out
}

/// The most containers asked of the runtime in one listing.
pub const LIST_LIMIT: u64 = 200;

/// The health states that a listing asks for: all of them.
pub open spec fn health_states() -> Seq<Seq<char>> {
    seq!["starting"@, "healthy"@, "unhealthy"@, "none"@]
}

/// The statuses that a listing asks for: all of them.
pub open spec fn statuses() -> Seq<Seq<char>> {
    seq!["created"@, "restarting"@, "running"@, "removing"@, "paused"@, "exited"@, "dead"@]
}

/// The health states that a listing asks for.
pub fn health_filter() -> (r: Vec<String>)
    ensures
        views(r@) == health_states(),
{
    let mut r: Vec<String> = Vec::new();
    r.push("starting".to_owned());
    r.push("healthy".to_owned());
    r.push("unhealthy".to_owned());
    r.push("none".to_owned());
    r
}

/// The statuses that a listing asks for.
pub fn status_filter() -> (r: Vec<String>)
    ensures
        views(r@) == statuses(),
{
    let mut r: Vec<String> = Vec::new();
    r.push("created".to_owned());
    r.push("restarting".to_owned());
    r.push("running".to_owned());
    r.push("removing".to_owned());
    r.push("paused".to_owned());
    r.push("exited".to_owned());
    r.push("dead".to_owned());
    r
}

} // verus!
