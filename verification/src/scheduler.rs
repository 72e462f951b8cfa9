//! The refresh scheduler: one perpetual cycle of listing, collecting, probing
//! where due, merging, publishing and sleeping. The scheduler decides; its
//! caller does the outside work that each action names and hands back what
//! came of it as the next event.
use vstd::prelude::*;
use crate::cache::ProbeCache;
use crate::merge::{eligible, is_eligible, merge_all, merged_all, with_seed, lemma_merged_all_names};
use crate::model::{
    ContainerInfo, ContainerInfoView, GameServerInfo, GameServerView, info_views, port_views,
    PortMapping, PortMappingView,
};
use crate::ports::{CONSOLE_PORT, GAME_SERVER_PORT};
use crate::records::{
    collected_views, gather, gathered, lemma_gathered_allowed, lemma_sorted_fixed,
    strictly_sorted,
};
use crate::snapshot::{published, Snapshot, SnapshotView};
use crate::targets::{resolve_targets, targets_of};
use crate::text::{has_name, views};

verus! {

/// Seconds between two cycles, and before a failed listing is tried again.
pub const TICK_SECONDS: u64 = 5;

/// Probing is due on every tick that this number divides, the first
/// included.
pub const PROBE_EVERY: u64 = 6;

/// Where in its cycle the scheduler stands: what it waits for.
#[derive(Clone, Copy, Debug, PartialEq, Eq, Structural)]
pub enum Phase {
    /// Waiting for the runtime's container listing.
    Listing,
    /// Waiting out the pause after a failed listing.
    Retrying,
    /// Waiting for the records of the containers to collect.
    Collecting,
    /// Waiting for the probe of one container.
    Probing,
    /// Waiting for the new snapshot to be put in place.
    Publishing,
    /// Waiting out the pause between two cycles.
    Sleeping,
}

/// The container to probe next.
#[derive(Debug)]
pub struct ProbeTarget {
    pub name: String,
    /// The host port that leads to the game server; `None` where the record
    /// shows none.
    pub host_port: Option<u16>,
    /// The host port that leads to the remote console; `None` where the
    /// record shows none.
    pub console_port: Option<u16>,
    /// The remote-console secret; empty where none is declared.
    pub secret: String,
}

pub struct ProbeTargetView {
    pub name: Seq<char>,
    pub host_port: Option<u16>,
    pub console_port: Option<u16>,
    pub secret: Seq<char>,
}

impl View for ProbeTarget {
    type V = ProbeTargetView;

    open spec fn view(&self) -> ProbeTargetView {
        ProbeTargetView {
            name: self.name@,
            host_port: self.host_port,
            console_port: self.console_port,
            secret: self.secret@,
        }
    }
}

/// What came of the outside work that the last action named.
#[derive(Debug)]
pub enum Event {
    /// The runtime listed containers of these names.
    Listed(Vec<String>),
    /// The runtime could not list its containers.
    ListFailed,
    /// The containers were collected; `None` stands for one whose collection
    /// failed.
    Collected(Vec<Option<ContainerInfo>>),
    /// The probe of the target ended; `None` where it failed.
    Probed(Option<GameServerInfo>),
    /// The snapshot is in place.
    Published,
    /// The pause is over.
    Slept,
}

pub enum EventView {
    Listed(Seq<Seq<char>>),
    ListFailed,
    Collected(Seq<Option<ContainerInfoView>>),
    Probed(Option<GameServerView>),
    Published,
    Slept,
}

impl View for Event {
    type V = EventView;

    open spec fn view(&self) -> EventView {
        match self {
            Event::Listed(names) => EventView::Listed(views(names@)),
            Event::ListFailed => EventView::ListFailed,
            Event::Collected(records) => EventView::Collected(collected_views(records@)),
            Event::Probed(info) => EventView::Probed(
                match info {
                    Some(g) => Some(g@),
                    None => None,
                },
            ),
            Event::Published => EventView::Published,
            Event::Slept => EventView::Slept,
        }
    }
}

/// The outside work to do next.
#[derive(Debug)]
pub enum Action {
    /// List the runtime's containers.
    List,
    /// Collect the containers of these names, all at once.
    Collect(Vec<String>),
    /// Probe this container.
    Probe(ProbeTarget),
    /// Put this snapshot in place of the current one, in one step.
    Publish(Snapshot),
    /// Pause for this many seconds.
    Sleep(u64),
    /// Nothing: the event was not the one awaited.
    Wait,
}

pub enum ActionView {
    List,
    Collect(Seq<Seq<char>>),
    Probe(ProbeTargetView),
    Publish(SnapshotView),
    Sleep(u64),
    Wait,
}

impl View for Action {
    type V = ActionView;

    open spec fn view(&self) -> ActionView {
        match self {
            Action::List => ActionView::List,
            Action::Collect(names) => ActionView::Collect(views(names@)),
            Action::Probe(target) => ActionView::Probe(target@),
            Action::Publish(snapshot) => ActionView::Publish(snapshot@),
            Action::Sleep(seconds) => ActionView::Sleep(*seconds),
            Action::Wait => ActionView::Wait,
        }
    }
}

/// The scheduler's state.
pub struct SchedulerView {
    pub phase: Phase,
    /// Number of completed cycles, wrapping.
    pub tick: u64,
    pub allowed: Seq<Seq<char>>,
    pub cache: Map<Seq<char>, GameServerView>,
    /// The last snapshot published.
    pub snapshot: SnapshotView,
    /// The records collected in this cycle, in name order.
    pub records: Seq<ContainerInfoView>,
    /// While probing: the place in `records` of the container being probed.
    pub cursor: nat,
}

/// Whether probing is due on a tick.
pub open spec fn probing_due(tick: u64) -> bool {
    tick % PROBE_EVERY == 0
}

/// The tick after `tick`; the count wraps.
pub open spec fn next_tick(tick: u64) -> u64 {
    if tick == u64::MAX {
        0
    } else {
        (tick + 1) as u64
    }
}

/// The place of the first record at or after `from` that is to be probed;
/// the list's length where there is none.
pub open spec fn next_eligible(
    records: Seq<ContainerInfoView>,
    cache: Map<Seq<char>, GameServerView>,
    from: nat,
) -> nat
    decreases records.len() - from,
{
    if from >= records.len() {
        records.len()
    } else if eligible(records[from as int], cache) {
        from
    } else {
        next_eligible(records, cache, from + 1)
    }
}

/// The host port of the first mapping that leads to `container_port`.
pub open spec fn host_port_of(ports: Seq<PortMappingView>, container_port: u16) -> Option<u16>
    decreases ports.len(),
{
    if ports.len() == 0 {
        None
    } else if ports[0].container_port == container_port {
        Some(ports[0].host_port)
    } else {
        host_port_of(ports.drop_first(), container_port)
    }
}

/// What the probe of a container needs to know of it.
pub open spec fn target_of(record: ContainerInfoView) -> ProbeTargetView {
    ProbeTargetView {
        name: record.name,
        host_port: host_port_of(record.ports, GAME_SERVER_PORT),
        console_port: host_port_of(record.ports, CONSOLE_PORT),
        secret: record.secret,
    }
}

/// The cache after a probe of `record` ended with `result`: a success is
/// kept under the record's name, with the record's seed; a failure leaves the
/// cache as it is.
pub open spec fn cache_after(
    cache: Map<Seq<char>, GameServerView>,
    record: ContainerInfoView,
    result: Option<GameServerView>,
) -> Map<Seq<char>, GameServerView> {
    match result {
        Some(info) => cache.insert(
            record.name,
            match record.game_server {
                Some(own) => with_seed(info, own.seed),
                None => info,
            },
        ),
        None => cache,
    }
}

/// Merging and handing over for publication: the cycle's records, with what
/// the cache knows laid over them, become the next snapshot.
pub open spec fn finish(s: SchedulerView) -> (SchedulerView, ActionView) {
    let next = published(s.snapshot, merged_all(s.records, s.cache));
    (SchedulerView { phase: Phase::Publishing, snapshot: next, ..s }, ActionView::Publish(next))
}

/// Probing the next container at or after `from`, or finishing where none is
/// left.
pub open spec fn probe_from(s: SchedulerView, from: nat) -> (SchedulerView, ActionView) {
    let next = next_eligible(s.records, s.cache, from);
    if next < s.records.len() {
        (
            SchedulerView { phase: Phase::Probing, cursor: next, ..s },
            ActionView::Probe(target_of(s.records[next as int])),
        )
    } else {
        finish(s)
    }
}

/// The scheduler's step: the state and the action that follow a state and an
/// event. An event that the phase does not await changes nothing.
pub open spec fn step_of(s: SchedulerView, e: EventView) -> (SchedulerView, ActionView) {
    match (s.phase, e) {
        (Phase::Listing, EventView::Listed(names)) => (
            SchedulerView { phase: Phase::Collecting, ..s },
            ActionView::Collect(targets_of(names, s.allowed)),
        ),
        (Phase::Listing, EventView::ListFailed) => (
            SchedulerView { phase: Phase::Retrying, ..s },
            ActionView::Sleep(TICK_SECONDS),
        ),
        (Phase::Retrying, EventView::Slept) => (
            SchedulerView { phase: Phase::Listing, ..s },
            ActionView::List,
        ),
        (Phase::Collecting, EventView::Collected(collected)) => {
            let t = SchedulerView { records: gathered(collected, s.allowed), ..s };
            if probing_due(s.tick) {
                probe_from(t, 0)
            } else {
                finish(t)
            }
        },
        (Phase::Probing, EventView::Probed(result)) => {
            if s.cursor < s.records.len() {
                let t = SchedulerView {
                    cache: cache_after(s.cache, s.records[s.cursor as int], result),
                    ..s
                };
                probe_from(t, s.cursor + 1)
            } else {
                finish(s)
            }
        },
        (Phase::Publishing, EventView::Published) => (
            SchedulerView { phase: Phase::Sleeping, ..s },
            ActionView::Sleep(TICK_SECONDS),
        ),
        (Phase::Sleeping, EventView::Slept) => (
            SchedulerView { phase: Phase::Listing, tick: next_tick(s.tick), ..s },
            ActionView::List,
        ),
        _ => (s, ActionView::Wait),
    }
}

/// What holds of every state that the scheduler reaches: the published
/// records and the cycle's records stand in name order, one per name, and
/// all bear allowed names.
pub open spec fn consistent(s: SchedulerView) -> bool {
    &&& strictly_sorted(s.snapshot.records)
    &&& forall|i: int|
        0 <= i < s.snapshot.records.len() ==> has_name(
            s.allowed,
            (#[trigger] s.snapshot.records[i]).name,
        )
    &&& strictly_sorted(s.records)
    &&& forall|i: int|
        0 <= i < s.records.len() ==> has_name(s.allowed, (#[trigger] s.records[i]).name)
}

/// Finishing a cycle publishes the cycle's records as they stand, merged, and
/// keeps the state consistent.
pub proof fn lemma_finish(s: SchedulerView)
    requires
        consistent(s),
    ensures
        finish(s).0.snapshot.records == merged_all(s.records, s.cache),
        consistent(finish(s).0),
{
    let merged = merged_all(s.records, s.cache);
    lemma_merged_all_names(s.records, s.cache);
    lemma_sorted_fixed(merged);
}

/// The host port of the first mapping that leads to `container_port`.
pub fn first_host_port(ports: &Vec<PortMapping>, container_port: u16) -> (r: Option<u16>)
    ensures
        r == host_port_of(port_views(ports@), container_port),
{
    let ghost all = port_views(ports@);
    let mut i: usize = 0;
    assert(all.skip(0) =~= all);
    while i < ports.len()
        invariant
            i <= ports.len(),
            all == port_views(ports@),
            host_port_of(all, container_port) == host_port_of(all.skip(i as int), container_port),
        decreases ports.len() - i,
    {
        if ports[i].container_port == container_port {
            return Some(ports[i].host_port);
        }
        assert(all.skip(i as int).drop_first() =~= all.skip(i + 1));
        i += 1;
    }
    None
}

/// What the probe of a container needs to know of it.
pub fn probe_target(record: &ContainerInfo) -> (r: ProbeTarget)
    ensures
        r@ == target_of(record@),
{
    ProbeTarget {
        name: record.name.clone(),
        host_port: first_host_port(&record.ports, GAME_SERVER_PORT),
        console_port: first_host_port(&record.ports, CONSOLE_PORT),
        secret: record.secret.clone(),
    }
}

/// The refresh scheduler.
#[derive(Debug)]
pub struct Scheduler {
    phase: Phase,
    tick: u64,
    allowed: Vec<String>,
    cache: ProbeCache,
    snapshot: Snapshot,
    records: Vec<ContainerInfo>,
    cursor: usize,
}

impl View for Scheduler {
    type V = SchedulerView;

    closed spec fn view(&self) -> SchedulerView {
        SchedulerView {
            phase: self.phase,
            tick: self.tick,
            allowed: views(self.allowed@),
            cache: self.cache@,
            snapshot: self.snapshot@,
            records: info_views(self.records@),
            cursor: self.cursor as nat,
        }
    }
}

/// The state in which a scheduler starts: about to list, at tick zero, with
/// nothing probed, collected or published.
pub open spec fn initial(allowed: Seq<Seq<char>>) -> SchedulerView {
    SchedulerView {
        phase: Phase::Listing,
        tick: 0,
        allowed: allowed,
        cache: Map::empty(),
        snapshot: SnapshotView { records: Seq::empty(), generation: 0 },
        records: Seq::empty(),
        cursor: 0,
    }
}

impl Scheduler {
    /// The scheduler's invariant: its cache is well formed and its state is
    /// consistent.
    pub closed spec fn wf(&self) -> bool {
        self.cache.wf() && consistent(self@)
    }

    /// A scheduler for the given allow-list. Its first action is to list.
    pub fn new(allowed: Vec<String>) -> (r: Scheduler)
        ensures
            r.wf(),
            r@ == initial(views(allowed@)),
    {
        let r = Scheduler {
            phase: Phase::Listing,
            tick: 0,
            allowed,
            cache: ProbeCache::new(),
            snapshot: Snapshot::new(),
            records: Vec::new(),
            cursor: 0,
        };
        assert(info_views(r.records@) =~= Seq::empty());
        r
    }

    /// The phase in which the scheduler stands.
    pub fn phase(&self) -> (r: Phase)
        ensures
            r == self@.phase,
    {
        self.phase
    }

    /// The number of completed cycles, wrapping.
    pub fn tick(&self) -> (r: u64)
        ensures
            r == self@.tick,
    {
        self.tick
    }

    /// The last snapshot published.
    pub fn snapshot(&self) -> (r: &Snapshot)
        ensures
            r@ == self@.snapshot,
    {
        &self.snapshot
    }

    /// The allow-list.
    pub fn allowed(&self) -> (r: &Vec<String>)
        ensures
            views(r@) == self@.allowed,
    {
        &self.allowed
    }

    /// The probe cache.
    pub fn cache(&self) -> (r: &ProbeCache)
        requires
            self.wf(),
        ensures
            r.wf(),
            r@ == self@.cache,
    {
        &self.cache
    }

    fn finish(&mut self) -> (r: Action)
        requires
            old(self).wf(),
            old(self)@.snapshot.generation < u64::MAX,
        ensures
            final(self).wf(),
            (final(self)@, r@) == finish(old(self)@),
    {
        proof {
            lemma_finish(self@);
        }
        let merged = merge_all(&self.records, &self.cache);
        let next = self.snapshot.publish(merged);
        let copy = next.clone();
        self.snapshot = next;
        self.phase = Phase::Publishing;
        Action::Publish(copy)
    }

    fn probe_from(&mut self, from: usize) -> (r: Action)
        requires
            old(self).wf(),
            old(self)@.snapshot.generation < u64::MAX,
        ensures
            final(self).wf(),
            (final(self)@, r@) == probe_from(old(self)@, from as nat),
    {
        let mut i: usize = from;
        while i < self.records.len()
            invariant
                self == old(self),
                self.wf(),
                from <= i,
                next_eligible(self@.records, self@.cache, from as nat) == next_eligible(
                    self@.records,
                    self@.cache,
                    i as nat,
                ),
            decreases self.records.len() - i,
        {
            if is_eligible(&self.records[i], &self.cache) {
                let target = probe_target(&self.records[i]);
                self.phase = Phase::Probing;
                self.cursor = i;
                return Action::Probe(target);
            }
            i += 1;
        }
        self.finish()
    }

    /// Takes the event that the last action led to, and gives the next
    /// action.
    pub fn step(&mut self, event: Event) -> (r: Action)
        requires
            old(self).wf(),
            old(self)@.snapshot.generation < u64::MAX,
        ensures
            final(self).wf(),
            (final(self)@, r@) == step_of(old(self)@, event@),
    {
        match (self.phase, event) {
            (Phase::Listing, Event::Listed(names)) => {
                self.phase = Phase::Collecting;
                Action::Collect(resolve_targets(&names, &self.allowed))
            },
            (Phase::Listing, Event::ListFailed) => {
                self.phase = Phase::Retrying;
                Action::Sleep(TICK_SECONDS)
            },
            (Phase::Retrying, Event::Slept) => {
                self.phase = Phase::Listing;
                Action::List
            },
            (Phase::Collecting, Event::Collected(collected)) => {
                proof {
                    lemma_gathered_allowed(collected_views(collected@), self@.allowed);
                }
                self.records = gather(&collected, &self.allowed);
                if self.tick % PROBE_EVERY == 0 {
                    self.probe_from(0)
                } else {
                    self.finish()
                }
            },
            (Phase::Probing, Event::Probed(result)) => {
                if self.cursor < self.records.len() {
                    let next: usize = self.cursor + 1;
                    match result {
                        Some(info) => {
                            let mut info = info;
                            let record = &self.records[self.cursor];
                            match &record.game_server {
                                Some(own) => {
                                    info.seed = own.seed.clone();
                                },
                                None => {},
                            }
                            let name = record.name.clone();
                            self.cache.insert(name, info);
                        },
                        None => {},
                    }
                    self.probe_from(next)
                } else {
                    self.finish()
                }
            },
            (Phase::Publishing, Event::Published) => {
                self.phase = Phase::Sleeping;
                Action::Sleep(TICK_SECONDS)
            },
            (Phase::Sleeping, Event::Slept) => {
                self.phase = Phase::Listing;
                self.tick = if self.tick == u64::MAX {
                    0
                } else {
                    self.tick + 1
                };
                Action::List
            },
            _ => Action::Wait,
        }
    }
}

/// The record found to probe next is to be probed, and none between the
/// starting place and it is.
pub proof fn lemma_next_eligible(
    records: Seq<ContainerInfoView>,
    cache: Map<Seq<char>, GameServerView>,
    from: nat,
)
    ensures
        from <= records.len() ==> from <= next_eligible(records, cache, from) <= records.len(),
        next_eligible(records, cache, from) < records.len() ==> eligible(
            records[next_eligible(records, cache, from) as int],
            cache,
        ),
        forall|j: int|
            from <= j < next_eligible(records, cache, from) ==> !eligible(
                #[trigger] records[j],
                cache,
            ),
    decreases records.len() - from,
{
    if from < records.len() && !eligible(records[from as int], cache) {
        lemma_next_eligible(records, cache, from + 1);
    }
}

/// Every step keeps the state consistent and leaves the allow-list alone. So
/// no snapshot ever holds a record whose name is not on the allow-list.
pub proof fn lemma_step_consistent(s: SchedulerView, e: EventView)
    requires
        consistent(s),
    ensures
        consistent(step_of(s, e).0),
        step_of(s, e).0.allowed == s.allowed,
        forall|i: int|
            0 <= i < step_of(s, e).0.snapshot.records.len() ==> has_name(
                s.allowed,
                (#[trigger] step_of(s, e).0.snapshot.records[i]).name,
            ),
{
    match (s.phase, e) {
        (Phase::Collecting, EventView::Collected(collected)) => {
            let t = SchedulerView { records: gathered(collected, s.allowed), ..s };
            lemma_gathered_allowed(collected, s.allowed);
            lemma_finish(t);
        },
        (Phase::Probing, EventView::Probed(result)) => {
            if s.cursor < s.records.len() {
                let t = SchedulerView {
                    cache: cache_after(s.cache, s.records[s.cursor as int], result),
                    ..s
                };
                lemma_finish(t);
            } else {
                lemma_finish(s);
            }
        },
        _ => {},
    }
}

/// The generation rises by exactly one with each publication, whatever was
/// collected, and stays as it is on every other step.
pub proof fn lemma_generation_steps(s: SchedulerView, e: EventView)
    requires
        s.snapshot.generation < u64::MAX,
    ensures
        step_of(s, e).1 is Publish ==> step_of(s, e).0.snapshot.generation
            == s.snapshot.generation + 1 && step_of(s, e).1 == ActionView::Publish(
            step_of(s, e).0.snapshot,
        ) && step_of(s, e).0.phase == Phase::Publishing,
        !(step_of(s, e).1 is Publish) ==> step_of(s, e).0.snapshot == s.snapshot,
{
}

/// Only a container that is to be probed is probed: when a step asks for a
/// probe, the record at the cursor is eligible under the cache as it then
/// stands, and the target is that record's.
pub proof fn lemma_probe_is_eligible(s: SchedulerView, e: EventView)
    ensures
        step_of(s, e).1 is Probe ==> {
            let t = step_of(s, e).0;
            &&& t.phase == Phase::Probing
            &&& t.cursor < t.records.len()
            &&& eligible(t.records[t.cursor as int], t.cache)
            &&& step_of(s, e).1 == ActionView::Probe(target_of(t.records[t.cursor as int]))
        },
{
    match (s.phase, e) {
        (Phase::Collecting, EventView::Collected(collected)) => {
            let t = SchedulerView { records: gathered(collected, s.allowed), ..s };
            lemma_next_eligible(t.records, t.cache, 0);
        },
        (Phase::Probing, EventView::Probed(result)) => {
            if s.cursor < s.records.len() {
                let t = SchedulerView {
                    cache: cache_after(s.cache, s.records[s.cursor as int], result),
                    ..s
                };
                lemma_next_eligible(t.records, t.cache, s.cursor + 1);
            }
        },
        _ => {},
    }
}

/// Probing is due on the first tick, and after a tick on which it is due it
/// is next due six ticks later.
pub proof fn lemma_probing_due(tick: u64, later: u64)
    requires
        probing_due(tick),
        tick < later <= tick + 6,
    ensures
        probing_due(0),
        probing_due(later) <==> later == tick + 6,
{
}

impl Scheduler {
    /// A well-formed scheduler is in a consistent state.
    pub proof fn lemma_wf_consistent(&self)
        requires
            self.wf(),
        ensures
            consistent(self@),
    {
    }
}

} // verus!
