//! Turns what the runtime reports of one container into its published record.
use vstd::prelude::*;
use crate::environment::{env_value, value_in};
use crate::model::{ContainerInfo, ContainerInfoView, CpuSample, GameServerInfo, skeletal};
use crate::ports::{
    all_mappings, binding_views, extract_ports, is_game_server, PortBinding, PortBindingView,
    targets_game_port,
};
use crate::text::{lowercase, same_text, text_of, to_lowercase, views};
use crate::timestamp::{parse_timestamp, timestamp_of};
use crate::uptime::{uptime_shown, uptime_since};

verus! {

/// What the runtime's inspect call tells of a container, as far as the record
/// needs it.
#[derive(Debug)]
pub struct Inspection {
    pub name: String,
    /// The reported status, in whatever case the runtime writes it.
    pub status: String,
    /// The health-check status, where a health check is configured.
    pub health: Option<String>,
    pub image: String,
    pub created_at: String,
    /// When the container started, as the runtime writes it.
    pub started_at: String,
    pub restart_count: i64,
    pub bindings: Vec<PortBinding>,
    /// The declared environment, one `KEY=VALUE` entry each.
    pub env: Vec<String>,
}

pub struct InspectionView {
    pub name: Seq<char>,
    pub status: Seq<char>,
    pub health: Option<Seq<char>>,
    pub image: Seq<char>,
    pub created_at: Seq<char>,
    pub started_at: Seq<char>,
    pub restart_count: i64,
    pub bindings: Seq<PortBindingView>,
    pub env: Seq<Seq<char>>,
}

impl View for Inspection {
    type V = InspectionView;

    open spec fn view(&self) -> InspectionView {
        InspectionView {
            name: self.name@,
            status: self.status@,
            health: match self.health {
                Some(h) => Some(h@),
                None => None,
            },
            image: self.image@,
            created_at: self.created_at@,
            started_at: self.started_at@,
            restart_count: self.restart_count,
            bindings: binding_views(self.bindings@),
            env: views(self.env@),
        }
    }
}

/// One single-shot reading of a container's resource counters.
#[derive(Clone, Copy, Debug, PartialEq, Eq, Structural)]
pub struct Stats {
    pub cpu_total: u64,
    pub previous_cpu_total: u64,
    pub system_total: u64,
    pub previous_system_total: u64,
    pub cores: u64,
    pub memory_usage: u64,
    pub memory_limit: u64,
}

/// The state text of a running container.
pub open spec fn running_text() -> Seq<char> {
    "running"@
}

/// The environment variable that declares the world seed.
pub open spec fn seed_key() -> Seq<char> {
    "SEED"@
}

/// The environment variable that declares the remote-console secret.
pub open spec fn secret_key() -> Seq<char> {
    "RCON_PASSWORD"@
}

/// The runtime state: the reported status in lower case.
pub open spec fn state_of(status: Seq<char>) -> Seq<char> {
    lowercase(status)
}

/// The status shown: a running container's health where a health check is
/// configured, else the runtime state.
pub open spec fn status_shown(state: Seq<char>, health: Option<Seq<char>>) -> Seq<char> {
    if state == running_text() && health is Some {
        health->0
    } else {
        state
    }
}

/// The processor sample of a reading. Where a counter stood still or ran
/// backwards both movements are zero, so that no share is computed from it.
pub open spec fn sample_of(s: Stats) -> CpuSample {
    if s.cpu_total > s.previous_cpu_total && s.system_total > s.previous_system_total {
        CpuSample {
            cpu_delta: (s.cpu_total - s.previous_cpu_total) as u64,
            system_delta: (s.system_total - s.previous_system_total) as u64,
            cores: s.cores,
        }
    } else {
        CpuSample { cpu_delta: 0, system_delta: 0, cores: s.cores }
    }
}

/// The sample of a container without a reading.
pub open spec fn no_sample() -> CpuSample {
    CpuSample { cpu_delta: 0, system_delta: 0, cores: 0 }
}

/// The record of a container: `stats` is the reading taken of it, if one was
/// taken, and `now` the time of collection in Unix seconds. The uptime is
/// empty unless the container runs and its start time can be read. Resource
/// figures are zero unless the container runs and a reading is there.
pub open spec fn info_of(i: InspectionView, stats: Option<Stats>, now: int) -> ContainerInfoView {
    let state = state_of(i.status);
    let running = state == running_text();
    let measured = running && stats is Some;
    let ports = all_mappings(i.bindings);
    let seed = value_in(i.env, seed_key());
    ContainerInfoView {
        name: i.name,
        runtime_state: state,
        display_status: status_shown(state, i.health),
        image: i.image,
        created_at: i.created_at,
        uptime_text: uptime_shown(running, now, timestamp_of(i.started_at)),
        ports: ports,
        cpu: if measured {
            sample_of(stats->0)
        } else {
            no_sample()
        },
        memory_usage_bytes: if measured {
            stats->0.memory_usage
        } else {
            0
        },
        memory_limit_bytes: if measured {
            stats->0.memory_limit
        } else {
            0
        },
        restart_count: i.restart_count,
        game_server: if targets_game_port(ports) {
            Some(skeletal(seed))
        } else {
            None
        },
        secret: value_in(i.env, secret_key()),
    }
}

/// The runtime state of a container with the given reported status.
pub fn runtime_state(status: &str) -> (r: String)
    ensures
        r@ == state_of(status@),
{
    to_lowercase(status)
}

/// Whether a runtime state is that of a running container.
pub fn is_running(state: &str) -> (r: bool)
    ensures
        r == (state@ == running_text()),
{
    same_text(state, "running")
}

/// The status shown for a container in the given runtime state.
pub fn display_status(state: &str, health: Option<&str>) -> (r: String)
    ensures
        r@ == status_shown(state@, text_of(health)),
{
    if is_running(state) {
        match health {
            Some(h) => h.to_owned(),
            None => state.to_owned(),
        }
    } else {
        state.to_owned()
    }
}

/// The processor sample of a reading.
pub fn cpu_sample(s: &Stats) -> (r: CpuSample)
    ensures
        r == sample_of(*s),
{
    if s.cpu_total > s.previous_cpu_total && s.system_total > s.previous_system_total {
        CpuSample {
            cpu_delta: s.cpu_total - s.previous_cpu_total,
            system_delta: s.system_total - s.previous_system_total,
            cores: s.cores,
        }
    } else {
        CpuSample { cpu_delta: 0, system_delta: 0, cores: s.cores }
    }
}

/// Whether a reading of the container's resource counters is worth taking:
/// only while it runs.
pub fn needs_stats(inspection: &Inspection) -> (r: bool)
    ensures
        r == (state_of(inspection@.status) == running_text()),
{
    let state = runtime_state(inspection.status.as_str());
    is_running(state.as_str())
}

/// The record of one container.
pub fn collect_info(inspection: &Inspection, stats: Option<Stats>, now: i64) -> (r: ContainerInfo)
    ensures
        r@ == info_of(inspection@, stats, now as int),
{
    let state = runtime_state(inspection.status.as_str());
    let running = is_running(state.as_str());
    let shown = display_status(
        state.as_str(),
        match &inspection.health {
            Some(h) => Some(h.as_str()),
            None => None,
        },
    );
    let uptime = uptime_since(running, now, parse_timestamp(inspection.started_at.as_str()));
    let ports = extract_ports(&inspection.bindings);
    let seed = env_value(&inspection.env, "SEED");
    let secret = env_value(&inspection.env, "RCON_PASSWORD");
    let game_server = if is_game_server(&ports) {
        Some(GameServerInfo::skeleton(seed))
    } else {
        None
    };
    let (cpu, memory_usage_bytes, memory_limit_bytes) = match stats {
        Some(s) => {
            if running {
                (cpu_sample(&s), s.memory_usage, s.memory_limit)
            } else {
                (CpuSample { cpu_delta: 0, system_delta: 0, cores: 0 }, 0, 0)
            }
        },
        None => (CpuSample { cpu_delta: 0, system_delta: 0, cores: 0 }, 0, 0),
    };
    ContainerInfo {
        name: inspection.name.clone(),
        runtime_state: state,
        display_status: shown,
        image: inspection.image.clone(),
        created_at: inspection.created_at.clone(),
        uptime_text: uptime,
        ports,
        cpu,
        memory_usage_bytes,
        memory_limit_bytes,
        restart_count: inspection.restart_count,
        game_server,
        secret,
    }
}

/// The record of one container, or nothing where the runtime could not
/// inspect it: the container then has no record in this cycle, and the cycle
/// goes on.
pub fn collect(inspection: Option<&Inspection>, stats: Option<Stats>, now: i64) -> (r: Option<
    ContainerInfo,
>)
    ensures
        r is Some <==> inspection is Some,
        r is Some ==> r->0@ == info_of(inspection->0@, stats, now as int),
{
    match inspection {
        Some(i) => Some(collect_info(i, stats, now)),
        None => None,
    }
}

} // verus!
