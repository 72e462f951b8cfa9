use docker_direct::cache::ProbeCache;
use docker_direct::console::{apply_reply, needs_console, parse_position, position_query};
use docker_direct::merge::{is_eligible, merge, merge_all};
use docker_direct::model::{
    ContainerInfo, CpuSample, GameServerInfo, ModInfo, PlayerInfo, PortMapping,
};
use docker_direct::ping::{extract_mods, server_info, PingReply};

fn modinfo(id: &str, version: &str) -> ModInfo {
    ModInfo { id: id.to_string(), version: version.to_string() }
}

fn player(name: &str) -> PlayerInfo {
    PlayerInfo { name: name.to_string(), position: None }
}

fn reply(mod_list: Option<Vec<ModInfo>>, loader_mods: Option<Vec<ModInfo>>) -> PingReply {
    PingReply {
        version: "1.20.4".to_string(),
        online: 2,
        max: 20,
        sample: vec!["Steve".to_string(), "Alex".to_string()],
        mod_list,
        loader_mods,
    }
}

fn game(seed: &str, player_count: i64) -> GameServerInfo {
    GameServerInfo {
        version: "1.20.4".to_string(),
        player_count,
        max_players: 20,
        players: vec![player("Steve")],
        mods: vec![modinfo("forge", "47.2")],
        seed: seed.to_string(),
    }
}

fn record(name: &str, state: &str, game_server: Option<GameServerInfo>) -> ContainerInfo {
    ContainerInfo {
        name: name.to_string(),
        runtime_state: state.to_string(),
        display_status: state.to_string(),
        image: "image".to_string(),
        created_at: "then".to_string(),
        uptime_text: "1m".to_string(),
        ports: vec![PortMapping {
            host_port: 25565,
            container_port: 25565,
            protocol: "tcp".to_string(),
        }],
        cpu: CpuSample { cpu_delta: 1, system_delta: 2, cores: 3 },
        memory_usage_bytes: 10,
        memory_limit_bytes: 20,
        restart_count: 0,
        game_server,
        secret: "hunter2".to_string(),
    }
}

fn coordinates(reply: &str) -> Option<(f64, f64, f64)> {
    parse_position(reply).map(|p| {
        (p.x.parse::<f64>().unwrap(), p.y.parse::<f64>().unwrap(), p.z.parse::<f64>().unwrap())
    })
}

#[test]
fn position_is_read_from_entity_data() {
    let reply = "Steve has the following entity data: [12.5d, 64.0d, -200.25d]";
    let p = parse_position(reply).expect("a position");
    assert_eq!(p.x, "12.5");
    assert_eq!(p.y, "64.0");
    assert_eq!(p.z, "-200.25");
    assert_eq!(coordinates(reply), Some((12.5, 64.0, -200.25)));
}

#[test]
fn position_needs_exactly_three_fields() {
    assert!(parse_position("data: [12.5d, 64.0d]").is_none());
    assert!(parse_position("data: [12.5d, 64.0d, -200.25d, 1.0d]").is_none());
    assert!(parse_position("data: [12.5d]").is_none());
    assert!(parse_position("data: []").is_none());
    assert!(parse_position("data: [1.0d, 2.0d, 3.0d,]").is_none());
}

#[test]
fn position_needs_a_bracket_span() {
    assert!(parse_position("").is_none());
    assert!(parse_position("No entity was found").is_none());
    assert!(parse_position("1.0d, 2.0d, 3.0d").is_none());
    assert!(parse_position("[1.0d, 2.0d, 3.0d").is_none());
    assert!(parse_position("1.0d, 2.0d, 3.0d]").is_none());
    assert!(parse_position("] 1.0d, 2.0d, 3.0d [").is_none());
}

#[test]
fn position_needs_numbers() {
    assert!(parse_position("[a, b, c]").is_none());
    assert!(parse_position("[1.0d, , 3.0d]").is_none());
    assert!(parse_position("[1.0d, 2.0.0d, 3.0d]").is_none());
    assert!(parse_position("[1.0d, --2.0d, 3.0d]").is_none());
    assert!(parse_position("[1.0d, 2.0dd, 3.0d]").is_none());
    assert!(parse_position("[1.0d, ., 3.0d]").is_none());
    assert!(parse_position("[1.0d, 2 0, 3.0d]").is_none());
    assert!(parse_position("[1.0d, 1e+, 3.0d]").is_none());
    assert!(parse_position("[1.0d, e5, 3.0d]").is_none());
}

#[test]
fn position_accepts_plain_and_tagged_numbers() {
    assert_eq!(coordinates("[1, 2, 3]"), Some((1.0, 2.0, 3.0)));
    assert_eq!(coordinates("x [ 1.5f ,+2.25 ,  -3.d ] y"), Some((1.5, 2.25, -3.0)));
    assert_eq!(coordinates("[.5d, 1.0E-4d, 2e3]"), Some((0.5, 0.0001, 2000.0)));
    assert_eq!(coordinates("[0d,0d,0d] and [1d,2d]"), Some((0.0, 0.0, 0.0)));
    assert_eq!(coordinates("[1d,2d] and [0d,0d,0d]"), None);
}

#[test]
fn console_is_asked_only_with_players_and_secret() {
    assert!(needs_console(&vec![player("Steve")], "hunter2"));
    assert!(!needs_console(&Vec::new(), "hunter2"));
    assert!(!needs_console(&vec![player("Steve")], ""));
    assert!(!needs_console(&Vec::new(), ""));
}

#[test]
fn console_query_names_the_player() {
    assert_eq!(position_query("Steve"), "data get entity Steve Pos");
    assert_eq!(position_query(""), "data get entity  Pos");
}

#[test]
fn reply_sets_one_players_position() {
    let mut players = vec![player("Steve"), player("Alex")];
    apply_reply(&mut players, 1, "Alex has the following entity data: [1.0d, 2.0d, 3.0d]");
    assert!(players[0].position.is_none());
    let p = players[1].position.as_ref().expect("a position");
    assert_eq!((p.x.as_str(), p.y.as_str(), p.z.as_str()), ("1.0", "2.0", "3.0"));
    assert_eq!(players[1].name, "Alex");
    apply_reply(&mut players, 0, "No entity was found");
    assert!(players[0].position.is_none());
    apply_reply(&mut players, 1, "No entity was found");
    assert!(players[1].position.is_some());
    apply_reply(&mut players, 2, "[1.0d, 2.0d, 3.0d]");
    assert_eq!(players.len(), 2);
}

#[test]
fn ping_reply_becomes_server_info() {
    let info = server_info(&reply(None, None));
    assert_eq!(info.version, "1.20.4");
    assert_eq!(info.player_count, 2);
    assert_eq!(info.max_players, 20);
    assert_eq!(info.players.len(), 2);
    assert_eq!(info.players[0].name, "Steve");
    assert_eq!(info.players[1].name, "Alex");
    assert!(info.players[0].position.is_none());
    assert!(info.mods.is_empty());
    assert_eq!(info.seed, "");
}

#[test]
fn mods_prefer_the_dedicated_manifest() {
    let both = reply(Some(vec![modinfo("forge", "47.2")]), Some(vec![modinfo("fabric", "0.15")]));
    let mods = extract_mods(&both);
    assert_eq!(mods.len(), 1);
    assert_eq!((mods[0].id.as_str(), mods[0].version.as_str()), ("forge", "47.2"));
    let other = reply(None, Some(vec![modinfo("fabric", "0.15"), modinfo("sodium", "0.5")]));
    let mods = extract_mods(&other);
    assert_eq!(mods.len(), 2);
    assert_eq!((mods[1].id.as_str(), mods[1].version.as_str()), ("sodium", "0.5"));
    let empty_first = reply(Some(Vec::new()), Some(vec![modinfo("fabric", "0.15")]));
    assert!(extract_mods(&empty_first).is_empty());
    assert!(extract_mods(&reply(None, None)).is_empty());
}

#[test]
fn cache_keeps_the_last_probe_of_each_name() {
    let mut cache = ProbeCache::new();
    assert!(cache.get("mc").is_none());
    cache.insert("mc".to_string(), game("", 3));
    cache.insert("other".to_string(), game("", 0));
    assert_eq!(cache.get("mc").unwrap().player_count, 3);
    assert_eq!(cache.get("other").unwrap().player_count, 0);
    cache.insert("mc".to_string(), game("", 5));
    assert_eq!(cache.get("mc").unwrap().player_count, 5);
    assert_eq!(cache.get("other").unwrap().player_count, 0);
    assert!(cache.get("m").is_none());
}

#[test]
fn merge_preserves_seed() {
    let mut cache = ProbeCache::new();
    cache.insert("mc".to_string(), game("", 3));
    let merged = merge(record("mc", "running", Some(GameServerInfo::skeleton("ABC".to_string()))), &cache);
    let g = merged.game_server.expect("a game server");
    assert_eq!(g.seed, "ABC");
    assert_eq!(g.version, "1.20.4");
    assert_eq!(g.player_count, 3);
    assert_eq!(g.max_players, 20);
    assert_eq!(g.players.len(), 1);
    assert_eq!(g.players[0].name, "Steve");
    assert_eq!(g.mods.len(), 1);
    assert_eq!(merged.name, "mc");
    assert_eq!(merged.secret, "hunter2");
    assert_eq!(merged.uptime_text, "1m");
    assert_eq!(cache.get("mc").unwrap().seed, "");
}

#[test]
fn merge_overrides_a_cached_seed() {
    let mut cache = ProbeCache::new();
    cache.insert("mc".to_string(), game("OLD", 3));
    let merged = merge(record("mc", "running", Some(GameServerInfo::skeleton("NEW".to_string()))), &cache);
    assert_eq!(merged.game_server.unwrap().seed, "NEW");
}

#[test]
fn merge_leaves_other_records_alone() {
    let mut cache = ProbeCache::new();
    cache.insert("mc".to_string(), game("", 3));
    let plain = merge(record("mc", "running", None), &cache);
    assert!(plain.game_server.is_none());
    let unknown = merge(record("new", "running", Some(GameServerInfo::skeleton("S".to_string()))), &cache);
    let g = unknown.game_server.expect("a game server");
    assert_eq!(g.seed, "S");
    assert_eq!(g.version, "");
    assert_eq!(g.player_count, 0);
    let all = merge_all(
        &vec![
            record("a", "running", None),
            record("mc", "running", Some(GameServerInfo::skeleton("S".to_string()))),
        ],
        &cache,
    );
    assert_eq!(all.len(), 2);
    assert_eq!(all[0].name, "a");
    assert!(all[0].game_server.is_none());
    assert_eq!(all[1].game_server.as_ref().unwrap().player_count, 3);
    assert_eq!(all[1].game_server.as_ref().unwrap().seed, "S");
}

#[test]
fn probe_backoff() {
    let mut cache = ProbeCache::new();
    cache.insert("idle".to_string(), game("", 0));
    cache.insert("busy".to_string(), game("", 3));
    let flagged = |name: &str, state: &str| record(name, state, Some(GameServerInfo::skeleton(String::new())));
    assert!(!is_eligible(&flagged("idle", "running"), &cache));
    assert!(is_eligible(&flagged("busy", "running"), &cache));
    assert!(is_eligible(&flagged("busy", "running"), &cache));
    assert!(is_eligible(&flagged("never", "running"), &cache));
    assert!(!is_eligible(&flagged("busy", "exited"), &cache));
    assert!(!is_eligible(&flagged("never", "paused"), &cache));
    assert!(!is_eligible(&record("busy", "running", None), &cache));
    cache.insert("idle".to_string(), game("", 1));
    assert!(is_eligible(&flagged("idle", "running"), &cache));
    cache.insert("busy".to_string(), game("", 0));
    assert!(!is_eligible(&flagged("busy", "running"), &cache));
}
