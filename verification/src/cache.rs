//! The probe cache: what the last successful probe told of each game server.
use vstd::prelude::*;
use crate::model::{GameServerInfo, GameServerView};

verus! {

/// One entry of the cache.
#[derive(Debug)]
pub struct CacheEntry {
    pub name: String,
    pub info: GameServerInfo,
}

/// The map that a sequence of entries spells, a later entry replacing an
/// earlier one of the same name.
pub open spec fn map_of(entries: Seq<CacheEntry>) -> Map<Seq<char>, GameServerView>
    decreases entries.len(),
{
    if entries.len() == 0 {
        Map::empty()
    } else {
        map_of(entries.drop_last()).insert(entries.last().name@, entries.last().info@)
    }
}

/// Whether no two entries share a name.
pub open spec fn distinct_names(entries: Seq<CacheEntry>) -> bool {
    forall|i: int, j: int|
        0 <= i < j < entries.len() ==> (#[trigger] entries[i]).name@ != (
        #[trigger] entries[j]).name@
}

/// The names of a map of entries are the names of the entries.
pub proof fn lemma_map_of_keys(entries: Seq<CacheEntry>, key: Seq<char>)
    ensures
        map_of(entries).contains_key(key) <==> exists|i: int|
            0 <= i < entries.len() && (#[trigger] entries[i]).name@ == key,
    decreases entries.len(),
{
    if entries.len() > 0 {
        let rest = entries.drop_last();
        lemma_map_of_keys(rest, key);
        if exists|i: int| 0 <= i < entries.len() && (#[trigger] entries[i]).name@ == key {
            let i = choose|i: int| 0 <= i < entries.len() && (#[trigger] entries[i]).name@ == key;
            if i < rest.len() {
                assert(rest[i].name@ == key);
            }
        }
    }
}

/// Among entries of distinct names, each name maps to its own entry.
pub proof fn lemma_map_of_value(entries: Seq<CacheEntry>, i: int)
    requires
        distinct_names(entries),
        0 <= i < entries.len(),
    ensures
        map_of(entries).contains_key(entries[i].name@),
        map_of(entries)[entries[i].name@] == entries[i].info@,
    decreases entries.len(),
{
    let rest = entries.drop_last();
    if i < entries.len() - 1 {
        lemma_map_of_value(rest, i);
    }
}

/// Replacing one of several entries of distinct names by another of the same
/// name replaces that name's value.
pub proof fn lemma_map_of_update(entries: Seq<CacheEntry>, i: int, e: CacheEntry)
    requires
        distinct_names(entries),
        0 <= i < entries.len(),
        e.name@ == entries[i].name@,
    ensures
        distinct_names(entries.update(i, e)),
        map_of(entries.update(i, e)) == map_of(entries).insert(e.name@, e.info@),
    decreases entries.len(),
{
    let updated = entries.update(i, e);
    let rest = entries.drop_last();
    if i == entries.len() - 1 {
        assert(updated.drop_last() =~= rest);
    } else {
        lemma_map_of_update(rest, i, e);
        assert(updated.drop_last() =~= rest.update(i, e));
    }
}

/// For each game server probed so far, by container name, what its last
/// successful probe told.
#[derive(Debug)]
pub struct ProbeCache {
    entries: Vec<CacheEntry>,
}

impl View for ProbeCache {
    type V = Map<Seq<char>, GameServerView>;

    closed spec fn view(&self) -> Map<Seq<char>, GameServerView> {
        map_of(self.entries@)
    }
}

impl ProbeCache {
    /// The cache's invariant: no name is held twice.
    pub closed spec fn wf(&self) -> bool {
        distinct_names(self.entries@)
    }

    /// The cache of a process that has probed nothing yet.
    pub fn new() -> (r: ProbeCache)
        ensures
            r.wf(),
            r@ == Map::<Seq<char>, GameServerView>::empty(),
    {
        ProbeCache { entries: Vec::new() }
    }

    fn position(&self, name: &str) -> (r: Option<usize>)
        ensures
            match r {
                Some(i) => i < self.entries.len() && self.entries@[i as int].name@ == name@,
                None => forall|i: int|
                    0 <= i < self.entries.len() ==> (#[trigger] self.entries@[i]).name@ != name@,
            },
    {
        let wanted: String = name.to_owned();
        let mut i: usize = 0;
        while i < self.entries.len()
            invariant
                i <= self.entries.len(),
                wanted@ == name@,
                forall|j: int| 0 <= j < i ==> (#[trigger] self.entries@[j]).name@ != name@,
            decreases self.entries.len() - i,
        {
            if self.entries[i].name == wanted {
                return Some(i);
            }
            i += 1;
        }
        None
    }

    /// What the last successful probe of `name` told, if there was one.
    pub fn get(&self, name: &str) -> (r: Option<&GameServerInfo>)
        requires
            self.wf(),
        ensures
            match r {
                Some(info) => self@.contains_key(name@) && self@[name@] == info@,
                None => !self@.contains_key(name@),
            },
    {
        proof {
            lemma_map_of_keys(self.entries@, name@);
        }
        match self.position(name) {
            Some(i) => {
                proof {
                    lemma_map_of_value(self.entries@, i as int);
                }
                Some(&self.entries[i].info)
            },
            None => None,
        }
    }

    /// Records what a successful probe of `name` told, in place of what was
    /// known of it before.
    pub fn insert(&mut self, name: String, info: GameServerInfo)
        requires
            old(self).wf(),
        ensures
            final(self).wf(),
            final(self)@ == old(self)@.insert(name@, info@),
    {
        match self.position(name.as_str()) {
            Some(i) => {
                let e = CacheEntry { name, info };
                proof {
                    lemma_map_of_update(self.entries@, i as int, e);
                }
                self.entries.set(i, e);
            },
            None => {
                let ghost before = self.entries@;
                self.entries.push(CacheEntry { name, info });
                assert(self.entries@.drop_last() =~= before);
            },
        }
    }
}

} // verus!
