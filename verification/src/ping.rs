//! What a status ping's reply says of a game server.
use vstd::prelude::*;
use crate::model::{
    GameServerInfo, GameServerView, mod_views, ModInfo, ModInfoView, player_views, PlayerInfo,
    PlayerInfoView, clone_mods,
};
use crate::text::views;

verus! {

/// Seconds within which a status ping must connect and be answered.
pub const PING_TIMEOUT_SECONDS: u64 = 3;

/// The reply to a status ping, as far as the record needs it. A server
/// declares its mods in one of two manifests, or in none.
#[derive(Debug)]
pub struct PingReply {
    pub version: String,
    pub online: i64,
    pub max: i64,
    /// The names of the sampled players.
    pub sample: Vec<String>,
    /// The dedicated mod manifest.
    pub mod_list: Option<Vec<ModInfo>>,
    /// The manifest in the other loader's format.
    pub loader_mods: Option<Vec<ModInfo>>,
}

pub struct PingReplyView {
    pub version: Seq<char>,
    pub online: int,
    pub max: int,
    pub sample: Seq<Seq<char>>,
    pub mod_list: Option<Seq<ModInfoView>>,
    pub loader_mods: Option<Seq<ModInfoView>>,
}

impl View for PingReply {
    type V = PingReplyView;

    open spec fn view(&self) -> PingReplyView {
        PingReplyView {
            version: self.version@,
            online: self.online as int,
            max: self.max as int,
            sample: views(self.sample@),
            mod_list: match self.mod_list {
                Some(m) => Some(mod_views(m@)),
                None => None,
            },
            loader_mods: match self.loader_mods {
                Some(m) => Some(mod_views(m@)),
                None => None,
            },
        }
    }
}

/// The mods of a reply: the dedicated manifest where there is one, else the
/// other loader's, else none.
pub open spec fn mods_of(r: PingReplyView) -> Seq<ModInfoView> {
    if r.mod_list is Some {
        r.mod_list->0
    } else if r.loader_mods is Some {
        r.loader_mods->0
    } else {
        Seq::empty()
    }
}

/// The players of a reply: one per sampled name, none with a position yet.
pub open spec fn players_of(sample: Seq<Seq<char>>) -> Seq<PlayerInfoView> {
    Seq::new(sample.len(), |i: int| PlayerInfoView { name: sample[i], position: None })
}

/// The record that a reply gives. The protocol carries no seed, so the seed
/// is empty.
pub open spec fn pinged(r: PingReplyView) -> GameServerView {
    GameServerView {
        version: r.version,
        player_count: r.online,
        max_players: r.max,
        players: players_of(r.sample),
        mods: mods_of(r),
        seed: Seq::empty(),
    }
}

/// The mods that a reply declares.
pub fn extract_mods(reply: &PingReply) -> (r: Vec<ModInfo>)
    ensures
        mod_views(r@) == mods_of(reply@),
{
    match &reply.mod_list {
        Some(mods) => clone_mods(mods),
        None => match &reply.loader_mods {
            Some(mods) => clone_mods(mods),
            None => {
                let none: Vec<ModInfo> = Vec::new();
                none
            },
        },
    }
}

/// The record that a status ping's reply gives.
pub fn server_info(reply: &PingReply) -> (r: GameServerInfo)
    ensures
        r@ == pinged(reply@),
{
    let mut players: Vec<PlayerInfo> = Vec::new();
    let mut i: usize = 0;
    while i < reply.sample.len()
        invariant
            i <= reply.sample.len(),
            players.len() == i,
            forall|j: int|
                0 <= j < i ==> players@[j]@ == (PlayerInfoView {
                    name: reply.sample@[j]@,
                    position: None,
                }),
        decreases reply.sample.len() - i,
    {
        players.push(PlayerInfo { name: reply.sample[i].clone(), position: None });
        i += 1;
    }
    assert(player_views(players@) =~= players_of(views(reply.sample@)));
    GameServerInfo {
        version: reply.version.clone(),
        player_count: reply.online,
        max_players: reply.max,
        players,
        mods: extract_mods(reply),
        seed: String::new(),
    }
}

} // verus!
