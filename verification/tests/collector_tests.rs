use docker_direct::collector::{
    collect, collect_info, cpu_sample, display_status, is_running, needs_stats, runtime_state,
    Inspection, Stats,
};
use docker_direct::decimal::to_decimal;
use docker_direct::environment::env_value;
use docker_direct::model::{CpuSample, PortMapping};
use docker_direct::ports::{extract_ports, is_game_server, parse_port, PortBinding, GAME_SERVER_PORT};
use docker_direct::uptime::{format_uptime, uptime_since};

fn strings(items: &[&str]) -> Vec<String> {
    items.iter().map(|s| s.to_string()).collect()
}

fn binding(spec: &str, hosts: &[Option<&str>]) -> PortBinding {
    PortBinding {
        container_spec: spec.to_string(),
        host_ports: hosts.iter().map(|h| h.map(|s| s.to_string())).collect(),
    }
}

fn inspection(status: &str, health: Option<&str>) -> Inspection {
    Inspection {
        name: "mc".to_string(),
        status: status.to_string(),
        health: health.map(|h| h.to_string()),
        image: "itzg/minecraft-server".to_string(),
        created_at: "2024-01-01T00:00:00Z".to_string(),
        started_at: "1970-01-12T13:46:40.123456789Z".to_string(),
        restart_count: 3,
        bindings: vec![
            binding("25565/tcp", &[Some("25565")]),
            binding("25575/tcp", &[Some("25575"), None]),
        ],
        env: strings(&["EULA=TRUE", "SEED=ABC", "RCON_PASSWORD=hunter2"]),
    }
}

fn stats() -> Stats {
    Stats {
        cpu_total: 500,
        previous_cpu_total: 300,
        system_total: 10_000,
        previous_system_total: 9_000,
        cores: 4,
        memory_usage: 1024,
        memory_limit: 4096,
    }
}

#[test]
fn uptime_of_seconds_is_zero_minutes() {
    assert_eq!(format_uptime(45), "0m");
    assert_eq!(format_uptime(0), "0m");
    assert_eq!(format_uptime(59), "0m");
    assert_eq!(format_uptime(60), "1m");
}

#[test]
fn uptime_with_hours() {
    assert_eq!(format_uptime(3661), "1h 1m");
    assert_eq!(format_uptime(3600), "1h 0m");
    assert_eq!(format_uptime(86399), "23h 59m");
}

#[test]
fn uptime_with_days() {
    assert_eq!(format_uptime(90000), "1d 1h 0m");
    assert_eq!(format_uptime(86400), "1d 0h 0m");
    assert_eq!(format_uptime(10 * 86400 + 61), "10d 0h 1m");
    assert_eq!(format_uptime(i64::MAX), "106751991167300d 15h 30m");
}

#[test]
fn uptime_of_negative_delta_is_empty() {
    assert_eq!(format_uptime(-1), "");
    assert_eq!(format_uptime(-90000), "");
    assert_eq!(format_uptime(i64::MIN), "");
}

#[test]
fn uptime_only_while_running_and_known() {
    assert_eq!(uptime_since(true, 1_003_661, Some(1_000_000)), "1h 1m");
    assert_eq!(uptime_since(false, 1_003_661, Some(1_000_000)), "");
    assert_eq!(uptime_since(true, 1_003_661, None), "");
    assert_eq!(uptime_since(true, 10, Some(20)), "");
    assert_eq!(uptime_since(true, 20, Some(20)), "0m");
}

#[test]
fn uptime_spans_beyond_the_signed_range() {
    assert_eq!(uptime_since(true, i64::MAX, Some(i64::MIN)), "213503982334601d 7h 0m");
}

#[test]
fn decimal_numerals() {
    assert_eq!(to_decimal(0), "0");
    assert_eq!(to_decimal(7), "7");
    assert_eq!(to_decimal(10), "10");
    assert_eq!(to_decimal(1234567890), "1234567890");
    assert_eq!(to_decimal(u64::MAX), "18446744073709551615");
}

#[test]
fn ports_are_decimal_and_not_zero() {
    assert_eq!(parse_port("25565"), Some(25565));
    assert_eq!(parse_port("1"), Some(1));
    assert_eq!(parse_port("65535"), Some(65535));
    assert_eq!(parse_port("0080"), Some(80));
    assert_eq!(parse_port("0"), None);
    assert_eq!(parse_port("000"), None);
    assert_eq!(parse_port("65536"), None);
    assert_eq!(parse_port("99999999999999999999999"), None);
    assert_eq!(parse_port(""), None);
    assert_eq!(parse_port("80a"), None);
    assert_eq!(parse_port("-80"), None);
    assert_eq!(parse_port("+80"), None);
    assert_eq!(parse_port(" 80"), None);
}

#[test]
fn bindings_become_mappings() {
    let bindings = vec![
        binding("25565/tcp", &[Some("25565")]),
        binding("8080/udp", &[Some("80"), None, Some("0"), Some("x"), Some("81")]),
        binding("0/tcp", &[Some("1")]),
        binding("abc/tcp", &[Some("2")]),
        binding("9000", &[Some("9001")]),
        binding("7000/tcp", &[]),
    ];
    let ports = extract_ports(&bindings);
    let got: Vec<(u16, u16, String)> =
        ports.iter().map(|p| (p.host_port, p.container_port, p.protocol.clone())).collect();
    assert_eq!(
        got,
        vec![
            (25565, 25565, "tcp".to_string()),
            (80, 8080, "udp".to_string()),
            (81, 8080, "udp".to_string()),
            (9001, 9000, "".to_string()),
        ]
    );
}

#[test]
fn game_server_is_known_by_its_port() {
    assert_eq!(GAME_SERVER_PORT, 25565);
    let game = PortMapping { host_port: 30000, container_port: 25565, protocol: "tcp".to_string() };
    let web = PortMapping { host_port: 25565, container_port: 80, protocol: "tcp".to_string() };
    assert!(is_game_server(&vec![web.clone(), game]));
    assert!(!is_game_server(&vec![web]));
    assert!(!is_game_server(&Vec::new()));
}

#[test]
fn environment_values() {
    let env = strings(&["EULA=TRUE", "SEED=ABC", "EMPTY=", "SEED=second", "PATH=/a=b", "NOEQ"]);
    assert_eq!(env_value(&env, "SEED"), "ABC");
    assert_eq!(env_value(&env, "EULA"), "TRUE");
    assert_eq!(env_value(&env, "EMPTY"), "");
    assert_eq!(env_value(&env, "PATH"), "/a=b");
    assert_eq!(env_value(&env, "MISSING"), "");
    assert_eq!(env_value(&env, "NOEQ"), "");
    assert_eq!(env_value(&env, "SEE"), "");
    assert_eq!(env_value(&env, "seed"), "");
    assert_eq!(env_value(&Vec::new(), "SEED"), "");
}

#[test]
fn runtime_state_is_lower_case() {
    assert_eq!(runtime_state("RUNNING"), "running");
    assert_eq!(runtime_state("Exited"), "exited");
    assert_eq!(runtime_state(""), "");
    assert!(is_running("running"));
    assert!(!is_running("RUNNING"));
    assert!(!is_running("exited"));
}

#[test]
fn display_status_prefers_health_while_running() {
    assert_eq!(display_status("running", Some("healthy")), "healthy");
    assert_eq!(display_status("running", None), "running");
    assert_eq!(display_status("exited", Some("unhealthy")), "exited");
    assert_eq!(display_status("exited", None), "exited");
}

#[test]
fn cpu_sample_guards_against_still_counters() {
    assert_eq!(cpu_sample(&stats()), CpuSample { cpu_delta: 200, system_delta: 1000, cores: 4 });
    let mut still = stats();
    still.previous_system_total = still.system_total;
    assert_eq!(cpu_sample(&still), CpuSample { cpu_delta: 0, system_delta: 0, cores: 4 });
    let mut backwards = stats();
    backwards.previous_cpu_total = 501;
    assert_eq!(cpu_sample(&backwards), CpuSample { cpu_delta: 0, system_delta: 0, cores: 4 });
    let mut idle = stats();
    idle.previous_cpu_total = idle.cpu_total;
    assert_eq!(cpu_sample(&idle), CpuSample { cpu_delta: 0, system_delta: 0, cores: 4 });
}

#[test]
fn running_game_server_is_collected_in_full() {
    let i = inspection("Running", Some("healthy"));
    assert!(needs_stats(&i));
    let info = collect_info(&i, Some(stats()), 1_090_000);
    assert_eq!(info.name, "mc");
    assert_eq!(info.runtime_state, "running");
    assert_eq!(info.display_status, "healthy");
    assert_eq!(info.image, "itzg/minecraft-server");
    assert_eq!(info.created_at, "2024-01-01T00:00:00Z");
    assert_eq!(info.uptime_text, "1d 1h 0m");
    assert_eq!(info.ports.len(), 2);
    assert_eq!(info.ports[1].host_port, 25575);
    assert_eq!(info.cpu, CpuSample { cpu_delta: 200, system_delta: 1000, cores: 4 });
    assert_eq!(info.memory_usage_bytes, 1024);
    assert_eq!(info.memory_limit_bytes, 4096);
    assert_eq!(info.restart_count, 3);
    assert_eq!(info.secret, "hunter2");
    let game = info.game_server.expect("a game server");
    assert_eq!(game.seed, "ABC");
    assert_eq!(game.version, "");
    assert_eq!(game.player_count, 0);
    assert_eq!(game.max_players, 0);
    assert!(game.players.is_empty());
    assert!(game.mods.is_empty());
}

#[test]
fn stopped_container_has_no_uptime_and_no_figures() {
    let i = inspection("exited", Some("healthy"));
    assert!(!needs_stats(&i));
    let info = collect_info(&i, Some(stats()), 1_090_000);
    assert_eq!(info.runtime_state, "exited");
    assert_eq!(info.display_status, "exited");
    assert_eq!(info.uptime_text, "");
    assert_eq!(info.cpu, CpuSample { cpu_delta: 0, system_delta: 0, cores: 0 });
    assert_eq!(info.memory_usage_bytes, 0);
    assert_eq!(info.memory_limit_bytes, 0);
    assert!(info.game_server.is_some());
}

#[test]
fn running_container_without_reading_has_zero_figures() {
    let mut i = inspection("running", None);
    i.bindings = vec![binding("80/tcp", &[Some("8080")])];
    i.env = Vec::new();
    let info = collect_info(&i, None, 1_000_045);
    assert_eq!(info.display_status, "running");
    assert_eq!(info.uptime_text, "0m");
    assert_eq!(info.cpu, CpuSample { cpu_delta: 0, system_delta: 0, cores: 0 });
    assert_eq!(info.memory_usage_bytes, 0);
    assert!(info.game_server.is_none());
    assert_eq!(info.secret, "");
}

#[test]
fn failed_inspection_gives_no_record() {
    assert!(collect(None, Some(stats()), 0).is_none());
    let i = inspection("running", None);
    let info = collect(Some(&i), None, 1_000_000).expect("a record");
    assert_eq!(info.name, "mc");
}

#[test]
fn container_with_unreadable_start_has_no_uptime() {
    let mut i = inspection("running", None);
    i.started_at = "yesterday".to_string();
    assert_eq!(collect_info(&i, None, 1_090_000).uptime_text, "");
    i.started_at = "2030-01-01T00:00:00Z".to_string();
    assert_eq!(collect_info(&i, None, 1_090_000).uptime_text, "");
}
