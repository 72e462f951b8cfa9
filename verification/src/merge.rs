//! Laying what the probes last told over freshly collected records, and
//! choosing the containers to probe.
use vstd::prelude::*;
use crate::cache::ProbeCache;
use crate::collector::{is_running, running_text};
use crate::model::{
    ContainerInfo, ContainerInfoView, GameServerInfo, GameServerView, info_views,
};
use crate::records::{has_record, strictly_sorted};

verus! {

/// The cached record of a game server with the seed of the collected one.
pub open spec fn with_seed(cached: GameServerView, seed: Seq<char>) -> GameServerView {
    GameServerView { seed: seed, ..cached }
}

/// A collected record with what the cache knows laid over it. Only the record
/// of a game server is touched, and only where the cache knows its name; its
/// own seed stays.
pub open spec fn merged(
    base: ContainerInfoView,
    cache: Map<Seq<char>, GameServerView>,
) -> ContainerInfoView {
    if base.game_server is Some && cache.contains_key(base.name) {
        ContainerInfoView {
            game_server: Some(with_seed(cache[base.name], base.game_server->0.seed)),
            ..base
        }
    } else {
        base
    }
}

/// All records with what the cache knows laid over them.
pub open spec fn merged_all(
    s: Seq<ContainerInfoView>,
    cache: Map<Seq<char>, GameServerView>,
) -> Seq<ContainerInfoView> {
    Seq::new(s.len(), |i: int| merged(s[i], cache))
}

/// Merging never changes a seed: the merged record of a game server bears the
/// seed of the collected record, whatever the cache holds.
pub proof fn lemma_merge_preserves_seed(
    base: ContainerInfoView,
    cache: Map<Seq<char>, GameServerView>,
)
    ensures
        merged(base, cache).game_server is Some <==> base.game_server is Some,
        base.game_server is Some ==> merged(base, cache).game_server->0.seed
            == base.game_server->0.seed,
        merged(base, cache).name == base.name,
        merged(base, cache).secret == base.secret,
{
}

/// Merging keeps every name in its place, so a list in name order stays in
/// name order and holds the same names.
pub proof fn lemma_merged_all_names(
    s: Seq<ContainerInfoView>,
    cache: Map<Seq<char>, GameServerView>,
)
    ensures
        merged_all(s, cache).len() == s.len(),
        forall|i: int| 0 <= i < s.len() ==> (#[trigger] merged_all(s, cache)[i]).name == s[i].name,
        strictly_sorted(s) ==> strictly_sorted(merged_all(s, cache)),
        forall|name: Seq<char>| has_record(merged_all(s, cache), name) <==> has_record(s, name),
{
    let m = merged_all(s, cache);
    assert forall|name: Seq<char>| has_record(m, name) <==> has_record(s, name) by {
        if has_record(s, name) {
            let i = choose|i: int| 0 <= i < s.len() && (#[trigger] s[i]).name == name;
            assert(m[i].name == name);
        }
    }
}

/// A collected record with what the cache knows laid over it.
pub fn merge(base: ContainerInfo, cache: &ProbeCache) -> (r: ContainerInfo)
    requires
        cache.wf(),
    ensures
        r@ == merged(base@, cache@),
{
    let mut base = base;
    let seed = match &base.game_server {
        Some(own) => own.seed.clone(),
        None => {
            return base;
        },
    };
    match cache.get(base.name.as_str()) {
        Some(cached) => {
            let mut overlay: GameServerInfo = cached.clone();
            overlay.seed = seed;
            base.game_server = Some(overlay);
            base
        },
        None => base,
    }
}

/// All records with what the cache knows laid over them.
pub fn merge_all(records: &Vec<ContainerInfo>, cache: &ProbeCache) -> (r: Vec<ContainerInfo>)
    requires
        cache.wf(),
    ensures
        info_views(r@) == merged_all(info_views(records@), cache@),
{
    let mut out: Vec<ContainerInfo> = Vec::new();
    let mut i: usize = 0;
    while i < records.len()
        invariant
            i <= records.len(),
            cache.wf(),
            out.len() == i,
            forall|j: int| 0 <= j < i ==> out@[j]@ == merged(records@[j]@, cache@),
        decreases records.len() - i,
    {
        out.push(merge(records[i].clone(), cache));
        i += 1;
    }
    out
}

/// Whether a container is probed in a probing round: it runs, it is a game
/// server, and it was never probed or had a player connected when last
/// probed.
pub open spec fn eligible(
    record: ContainerInfoView,
    cache: Map<Seq<char>, GameServerView>,
) -> bool {
    record.runtime_state == running_text() && record.game_server is Some && (!cache.contains_key(
        record.name,
    ) || cache[record.name].player_count > 0)
}

/// An idle server is left alone: a container whose cached player count is
/// zero is not probed, and a running game server with a cached player count
/// above zero is probed in every probing round.
pub proof fn lemma_probe_backoff(record: ContainerInfoView, cache: Map<Seq<char>, GameServerView>)
    requires
        cache.contains_key(record.name),
    ensures
        cache[record.name].player_count == 0 ==> !eligible(record, cache),
        cache[record.name].player_count > 0 && record.runtime_state == running_text()
            && record.game_server is Some ==> eligible(record, cache),
{
}

/// Whether a container is probed in a probing round.
pub fn is_eligible(record: &ContainerInfo, cache: &ProbeCache) -> (r: bool)
    requires
        cache.wf(),
    ensures
        r == eligible(record@, cache@),
{
    if !is_running(record.runtime_state.as_str()) {
        return false;
    }
    if record.game_server.is_none() {
        return false;
    }
    match cache.get(record.name.as_str()) {
        Some(cached) => cached.player_count > 0,
        None => true,
    }
}

} // verus!
