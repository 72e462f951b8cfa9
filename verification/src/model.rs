//! The records that the monitor publishes, and their mathematical views.
use vstd::prelude::*;

verus! {

/// One published port: traffic to `host_port` reaches `container_port`.
#[derive(Debug)]
pub struct PortMapping {
    pub host_port: u16,
    pub container_port: u16,
    pub protocol: String,
}

pub struct PortMappingView {
    pub host_port: u16,
    pub container_port: u16,
    pub protocol: Seq<char>,
}

impl View for PortMapping {
    type V = PortMappingView;

    open spec fn view(&self) -> PortMappingView {
        PortMappingView {
            host_port: self.host_port,
            container_port: self.container_port,
            protocol: self.protocol@,
        }
    }
}

impl Clone for PortMapping {
    fn clone(&self) -> (r: Self)
        ensures
            r@ == self@,
    {
        PortMapping {
            host_port: self.host_port,
            container_port: self.container_port,
            protocol: self.protocol.clone(),
        }
    }
}

/// Where a player stands: the three coordinates as the console wrote them,
/// each a numeral without its type tag.
#[derive(Debug)]
pub struct Position {
    pub x: String,
    pub y: String,
    pub z: String,
}

pub struct PositionView {
    pub x: Seq<char>,
    pub y: Seq<char>,
    pub z: Seq<char>,
}

impl View for Position {
    type V = PositionView;

    open spec fn view(&self) -> PositionView {
        PositionView { x: self.x@, y: self.y@, z: self.z@ }
    }
}

impl Clone for Position {
    fn clone(&self) -> (r: Self)
        ensures
            r@ == self@,
    {
        Position { x: self.x.clone(), y: self.y.clone(), z: self.z.clone() }
    }
}

/// One connected player. The position is absent until the console has told
/// it.
#[derive(Debug)]
pub struct PlayerInfo {
    pub name: String,
    pub position: Option<Position>,
}

pub struct PlayerInfoView {
    pub name: Seq<char>,
    pub position: Option<PositionView>,
}

impl View for PlayerInfo {
    type V = PlayerInfoView;

    open spec fn view(&self) -> PlayerInfoView {
        PlayerInfoView {
            name: self.name@,
            position: match self.position {
                Some(p) => Some(p@),
                None => None,
            },
        }
    }
}

impl Clone for PlayerInfo {
    fn clone(&self) -> (r: Self)
        ensures
            r@ == self@,
    {
        PlayerInfo {
            name: self.name.clone(),
            position: match &self.position {
                Some(p) => Some(p.clone()),
                None => None,
            },
        }
    }
}

/// One mod or plugin of a game server.
#[derive(Debug)]
pub struct ModInfo {
    pub id: String,
    pub version: String,
}

pub struct ModInfoView {
    pub id: Seq<char>,
    pub version: Seq<char>,
}

impl View for ModInfo {
    type V = ModInfoView;

    open spec fn view(&self) -> ModInfoView {
        ModInfoView { id: self.id@, version: self.version@ }
    }
}

impl Clone for ModInfo {
    fn clone(&self) -> (r: Self)
        ensures
            r@ == self@,
    {
        ModInfo { id: self.id.clone(), version: self.version.clone() }
    }
}

/// The views of a sequence of players.
pub open spec fn player_views(v: Seq<PlayerInfo>) -> Seq<PlayerInfoView> {
    Seq::new(v.len(), |i: int| v[i]@)
}

/// The views of a sequence of mods.
pub open spec fn mod_views(v: Seq<ModInfo>) -> Seq<ModInfoView> {
    Seq::new(v.len(), |i: int| v[i]@)
}

/// The views of a sequence of port mappings.
pub open spec fn port_views(v: Seq<PortMapping>) -> Seq<PortMappingView> {
    Seq::new(v.len(), |i: int| v[i]@)
}

/// A copy of a list of players.
pub fn clone_players(v: &Vec<PlayerInfo>) -> (r: Vec<PlayerInfo>)
    ensures
        player_views(r@) == player_views(v@),
{
    let mut out: Vec<PlayerInfo> = Vec::new();
    let mut i: usize = 0;
    while i < v.len()
        invariant
            i <= v.len(),
            out.len() == i,
            forall|j: int| 0 <= j < i ==> out@[j]@ == v@[j]@,
        decreases v.len() - i,
    {
        out.push(v[i].clone());
        i += 1;
    }
    out
}

/// A copy of a list of mods.
pub fn clone_mods(v: &Vec<ModInfo>) -> (r: Vec<ModInfo>)
    ensures
        mod_views(r@) == mod_views(v@),
{
    let mut out: Vec<ModInfo> = Vec::new();
    let mut i: usize = 0;
    while i < v.len()
        invariant
            i <= v.len(),
            out.len() == i,
            forall|j: int| 0 <= j < i ==> out@[j]@ == v@[j]@,
        decreases v.len() - i,
    {
        out.push(v[i].clone());
        i += 1;
    }
    out
}

/// A copy of a list of port mappings.
pub fn clone_ports(v: &Vec<PortMapping>) -> (r: Vec<PortMapping>)
    ensures
        port_views(r@) == port_views(v@),
{
    let mut out: Vec<PortMapping> = Vec::new();
    let mut i: usize = 0;
    while i < v.len()
        invariant
            i <= v.len(),
            out.len() == i,
            forall|j: int| 0 <= j < i ==> out@[j]@ == v@[j]@,
        decreases v.len() - i,
    {
        out.push(v[i].clone());
        i += 1;
    }
    out
}

/// What the last successful status ping told of a game server, and the world
/// seed from the container's declared configuration.
#[derive(Debug)]
pub struct GameServerInfo {
    pub version: String,
    pub player_count: i64,
    pub max_players: i64,
    pub players: Vec<PlayerInfo>,
    pub mods: Vec<ModInfo>,
    pub seed: String,
}

pub struct GameServerView {
    pub version: Seq<char>,
    pub player_count: int,
    pub max_players: int,
    pub players: Seq<PlayerInfoView>,
    pub mods: Seq<ModInfoView>,
    pub seed: Seq<char>,
}

impl View for GameServerInfo {
    type V = GameServerView;

    open spec fn view(&self) -> GameServerView {
        GameServerView {
            version: self.version@,
            player_count: self.player_count as int,
            max_players: self.max_players as int,
            players: player_views(self.players@),
            mods: mod_views(self.mods@),
            seed: self.seed@,
        }
    }
}

impl Clone for GameServerInfo {
    fn clone(&self) -> (r: Self)
        ensures
            r@ == self@,
    {
        GameServerInfo {
            version: self.version.clone(),
            player_count: self.player_count,
            max_players: self.max_players,
            players: clone_players(&self.players),
            mods: clone_mods(&self.mods),
            seed: self.seed.clone(),
        }
    }
}

/// The record of a game server that no probe has reached yet: nothing but the
/// seed.
pub open spec fn skeletal(seed: Seq<char>) -> GameServerView {
    GameServerView {
        version: Seq::empty(),
        player_count: 0,
        max_players: 0,
        players: Seq::empty(),
        mods: Seq::empty(),
        seed: seed,
    }
}

impl GameServerInfo {
    /// The record of a game server that no probe has reached yet.
    pub fn skeleton(seed: String) -> (r: GameServerInfo)
        ensures
            r@ == skeletal(seed@),
    {
        let r = GameServerInfo {
            version: String::new(),
            player_count: 0,
            max_players: 0,
            players: Vec::new(),
            mods: Vec::new(),
            seed,
        };
        assert(player_views(r.players@) =~= Seq::empty());
        assert(mod_views(r.mods@) =~= Seq::empty());
        r
    }
}

/// One reading of the runtime's processor counters: how far the container's
/// and the whole system's counters moved between two samples, and on how many
/// cores. The percent shown is `cpu_delta / system_delta * cores * 100`.
#[derive(Clone, Copy, Debug, PartialEq, Eq, Structural)]
pub struct CpuSample {
    pub cpu_delta: u64,
    pub system_delta: u64,
    pub cores: u64,
}

/// Everything published about one container.
#[derive(Debug)]
pub struct ContainerInfo {
    pub name: String,
    pub runtime_state: String,
    pub display_status: String,
    pub image: String,
    pub created_at: String,
    pub uptime_text: String,
    pub ports: Vec<PortMapping>,
    pub cpu: CpuSample,
    pub memory_usage_bytes: u64,
    pub memory_limit_bytes: u64,
    pub restart_count: i64,
    pub game_server: Option<GameServerInfo>,
    /// The remote-console credential. It is never shown to clients.
    pub secret: String,
}

pub struct ContainerInfoView {
    pub name: Seq<char>,
    pub runtime_state: Seq<char>,
    pub display_status: Seq<char>,
    pub image: Seq<char>,
    pub created_at: Seq<char>,
    pub uptime_text: Seq<char>,
    pub ports: Seq<PortMappingView>,
    pub cpu: CpuSample,
    pub memory_usage_bytes: u64,
    pub memory_limit_bytes: u64,
    pub restart_count: i64,
    pub game_server: Option<GameServerView>,
    pub secret: Seq<char>,
}

impl View for ContainerInfo {
    type V = ContainerInfoView;

    open spec fn view(&self) -> ContainerInfoView {
        ContainerInfoView {
            name: self.name@,
            runtime_state: self.runtime_state@,
            display_status: self.display_status@,
            image: self.image@,
            created_at: self.created_at@,
            uptime_text: self.uptime_text@,
            ports: port_views(self.ports@),
            cpu: self.cpu,
            memory_usage_bytes: self.memory_usage_bytes,
            memory_limit_bytes: self.memory_limit_bytes,
            restart_count: self.restart_count,
            game_server: match self.game_server {
                Some(g) => Some(g@),
                None => None,
            },
            secret: self.secret@,
        }
    }
}

impl Clone for ContainerInfo {
    fn clone(&self) -> (r: Self)
        ensures
            r@ == self@,
    {
        ContainerInfo {
            name: self.name.clone(),
            runtime_state: self.runtime_state.clone(),
            display_status: self.display_status.clone(),
            image: self.image.clone(),
            created_at: self.created_at.clone(),
            uptime_text: self.uptime_text.clone(),
            ports: clone_ports(&self.ports),
            cpu: self.cpu,
            memory_usage_bytes: self.memory_usage_bytes,
            memory_limit_bytes: self.memory_limit_bytes,
            restart_count: self.restart_count,
            game_server: match &self.game_server {
                Some(g) => Some(g.clone()),
                None => None,
            },
            secret: self.secret.clone(),
        }
    }
}

/// The views of a sequence of records.
pub open spec fn info_views(v: Seq<ContainerInfo>) -> Seq<ContainerInfoView> {
    Seq::new(v.len(), |i: int| v[i]@)
}

} // verus!
