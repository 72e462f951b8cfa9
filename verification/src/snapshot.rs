//! The published state: a list of records under a generation number, and the
//! tag by which clients ask whether it changed.
use vstd::prelude::*;
use crate::decimal::{decimal, lemma_decimal_round_trip, push_decimal};
use crate::model::{ContainerInfo, ContainerInfoView, info_views};
use crate::records::{lemma_sorted_by_name, sort_records, sorted_by_name, strictly_sorted};
use crate::text::{push_char, same_text};

verus! {

/// One publication of all current records. It is never changed once made:
/// the next publication is a new value with the next generation.
#[derive(Debug)]
pub struct Snapshot {
    records: Vec<ContainerInfo>,
    generation: u64,
}

pub struct SnapshotView {
    pub records: Seq<ContainerInfoView>,
    pub generation: u64,
}

impl View for Snapshot {
    type V = SnapshotView;

    closed spec fn view(&self) -> SnapshotView {
        SnapshotView { records: info_views(self.records@), generation: self.generation }
    }
}

/// The snapshot that follows `s`: the given records, in name order and one
/// per name, under the next generation.
pub open spec fn published(s: SnapshotView, records: Seq<ContainerInfoView>) -> SnapshotView {
    SnapshotView { records: sorted_by_name(records), generation: (s.generation + 1) as u64 }
}

/// A record as clients may see it: without the remote-console secret.
pub open spec fn redacted(r: ContainerInfoView) -> ContainerInfoView {
    ContainerInfoView { secret: Seq::empty(), ..r }
}

/// The records as clients may see them.
pub open spec fn redacted_all(s: Seq<ContainerInfoView>) -> Seq<ContainerInfoView> {
    Seq::new(s.len(), |i: int| redacted(s[i]))
}

impl Clone for Snapshot {
    fn clone(&self) -> (r: Self)
        ensures
            r@ == self@,
    {
        let mut records: Vec<ContainerInfo> = Vec::new();
        let mut i: usize = 0;
        while i < self.records.len()
            invariant
                i <= self.records.len(),
                records.len() == i,
                forall|j: int| 0 <= j < i ==> records@[j]@ == self.records@[j]@,
            decreases self.records.len() - i,
        {
            records.push(self.records[i].clone());
            i += 1;
        }
        assert(info_views(records@) =~= info_views(self.records@));
        Snapshot { records, generation: self.generation }
    }
}

impl Snapshot {
    /// A snapshot's invariant: its records stand in name order, one per
    /// name.
    pub open spec fn wf(&self) -> bool {
        strictly_sorted(self@.records)
    }

    /// The state before the first publication: no records, generation zero.
    pub fn new() -> (r: Snapshot)
        ensures
            r.wf(),
            r@.records == Seq::<ContainerInfoView>::empty(),
            r@.generation == 0,
    {
        let r = Snapshot { records: Vec::new(), generation: 0 };
        r
    }

    /// The generation of this publication.
    pub fn generation(&self) -> (r: u64)
        ensures
            r == self@.generation,
    {
        self.generation
    }

    /// The records of this publication, secrets included: for the scheduler's
    /// own use.
    pub fn records(&self) -> (r: &Vec<ContainerInfo>)
        ensures
            info_views(r@) == self@.records,
    {
        &self.records
    }

    /// The records of this publication as clients may see them: each with an
    /// empty secret.
    pub fn public_records(&self) -> (r: Vec<ContainerInfo>)
        ensures
            info_views(r@) == redacted_all(self@.records),
    {
        let mut out: Vec<ContainerInfo> = Vec::new();
        let mut i: usize = 0;
        while i < self.records.len()
            invariant
                i <= self.records.len(),
                out.len() == i,
                forall|j: int| 0 <= j < i ==> out@[j]@ == redacted(self.records@[j]@),
            decreases self.records.len() - i,
        {
            let mut record = self.records[i].clone();
            record.secret = String::new();
            out.push(record);
            i += 1;
        }
        out
    }

    /// The publication that follows this one: the given records, put in
    /// name order, under the next generation. Of several records with one
    /// name the first is kept.
    pub fn publish(&self, records: Vec<ContainerInfo>) -> (r: Snapshot)
        requires
            self@.generation < u64::MAX,
        ensures
            r.wf(),
            r@ == published(self@, info_views(records@)),
    {
        proof {
            lemma_sorted_by_name(info_views(records@));
        }
        Snapshot { records: sort_records(&records), generation: self.generation + 1 }
    }
}

/// No record that clients may see bears a secret.
pub proof fn lemma_public_records_hide_secret(s: Seq<ContainerInfoView>, i: int)
    requires
        0 <= i < s.len(),
    ensures
        redacted_all(s)[i].secret == Seq::<char>::empty(),
        redacted_all(s)[i].name == s[i].name,
{
}

/// The tag of a generation: its decimal numeral between double quotes.
pub open spec fn tag_of(generation: u64) -> Seq<char> {
    seq!['"'] + decimal(generation as nat) + seq!['"']
}

/// Each generation has a tag of its own, so a client's tag tells its
/// generation.
pub proof fn lemma_tag_tells_generation(a: u64, b: u64)
    requires
        tag_of(a) == tag_of(b),
    ensures
        a == b,
{
    lemma_decimal_round_trip(a as nat);
    lemma_decimal_round_trip(b as nat);
    let x = decimal(a as nat);
    let y = decimal(b as nat);
    assert(tag_of(a).subrange(1, tag_of(a).len() - 1) =~= x);
    assert(tag_of(b).subrange(1, tag_of(b).len() - 1) =~= y);
}

/// The tag under which a generation is served.
pub fn etag(generation: u64) -> (r: String)
    ensures
        r@ == tag_of(generation),
{
    let mut r = String::new();
    push_char(&mut r, '"');
    push_decimal(&mut r, generation);
    push_char(&mut r, '"');
    r
}

/// Whether a client that holds `client_tag` already has the given
/// generation, so that the body need not be sent again.
pub fn is_current(client_tag: &str, generation: u64) -> (r: bool)
    ensures
        r == (client_tag@ == tag_of(generation)),
{
    let tag = etag(generation);
    same_text(client_tag, tag.as_str())
}

} // verus!
