use docker_direct::allowlist::{
    cli_containers, get_container_names, init_allowed_containers, known_containers,
};
use docker_direct::containers::{
    health_filter, is_container_allowed, list_containers, status_filter, Container,
    ListedContainer, LIST_LIMIT,
};
use docker_direct::lines::{load_file_containers, split_lines};

fn strings(items: &[&str]) -> Vec<String> {
    items.iter().map(|s| s.to_string()).collect()
}

fn listed(names: Option<&[&str]>, status: Option<&str>, state: Option<&str>) -> ListedContainer {
    ListedContainer {
        names: names.map(strings),
        status: status.map(|s| s.to_string()),
        state: state.map(|s| s.to_string()),
    }
}

#[test]
fn allowed_name_with_and_without_slash() {
    let allowed = strings(&["web", "db"]);
    assert!(is_container_allowed(&allowed, "web"));
    assert!(is_container_allowed(&allowed, "/web"));
    assert!(is_container_allowed(&allowed, "//db"));
    assert!(!is_container_allowed(&allowed, "cache"));
    assert!(!is_container_allowed(&allowed, "web/"));
    assert!(!is_container_allowed(&allowed, ""));
}

#[test]
fn empty_allow_list_allows_nothing() {
    let allowed: Vec<String> = Vec::new();
    assert!(!is_container_allowed(&allowed, "web"));
    assert!(!is_container_allowed(&allowed, ""));
}

#[test]
fn listing_keeps_allowed_entries_in_order() {
    let allowed = strings(&["db", "web"]);
    let listing = vec![
        listed(Some(&["/web", "/alias"]), Some("Up 2 hours"), Some("running")),
        listed(Some(&["/cache"]), Some("Up 1 hour"), Some("running")),
        listed(Some(&["/db"]), Some("Exited (0)"), Some("exited")),
    ];
    let shown = list_containers(&listing, &allowed);
    assert_eq!(shown.len(), 2);
    assert_eq!(shown[0].name, "web");
    assert_eq!(shown[0].status, "Up 2 hours");
    assert_eq!(shown[0].state, "running");
    assert_eq!(shown[1].name, "db");
    assert_eq!(shown[1].status, "Exited (0)");
    assert_eq!(shown[1].state, "exited");
}

#[test]
fn listing_drops_entries_with_missing_fields() {
    let allowed = strings(&["web"]);
    let listing = vec![
        listed(None, Some("Up"), Some("running")),
        listed(Some(&[]), Some("Up"), Some("running")),
        listed(Some(&["/web"]), None, Some("running")),
        listed(Some(&["/web"]), Some("Up"), None),
        listed(Some(&["/other", "/web"]), Some("Up"), Some("running")),
    ];
    assert!(list_containers(&listing, &allowed).is_empty());
}

#[test]
fn listing_of_nothing_is_empty() {
    let allowed = strings(&["web"]);
    assert!(list_containers(&Vec::new(), &allowed).is_empty());
}

#[test]
fn container_label_joins_name_and_status() {
    let c = Container {
        name: "web".to_string(),
        status: "Up 2 hours".to_string(),
        state: "running".to_string(),
    };
    assert_eq!(c.label(), "web - Up 2 hours");
    let copy = c.clone();
    assert_eq!(copy.name, "web");
    assert_eq!(copy.state, "running");
}

#[test]
fn container_names_are_flattened_and_trimmed() {
    let listing = vec![
        listed(Some(&["/web", "/alias"]), None, None),
        listed(None, Some("Up"), Some("running")),
        listed(Some(&["db"]), None, None),
        listed(Some(&[]), None, None),
    ];
    assert_eq!(get_container_names(&listing), strings(&["web", "alias", "db"]));
}

#[test]
fn known_containers_keeps_file_order_and_repeats() {
    let file = strings(&["db", "ghost", "web", "db", ""]);
    let system = strings(&["web", "db", "cache"]);
    assert_eq!(known_containers(&file, &system), strings(&["db", "web", "db"]));
}

#[test]
fn cli_list_is_parsed_as_json() {
    assert_eq!(cli_containers(Some("[\"web\", \"db\"]")), Some(strings(&["web", "db"])));
    assert_eq!(cli_containers(Some("[]")), Some(Vec::new()));
    assert_eq!(cli_containers(Some("[\"a\\\"b\"]")), Some(strings(&["a\"b"])));
}

#[test]
fn cli_list_that_is_no_json_list_is_none() {
    assert_eq!(cli_containers(Some("web,db")), None);
    assert_eq!(cli_containers(Some("[1, 2]")), None);
    assert_eq!(cli_containers(Some("")), None);
    assert_eq!(cli_containers(None), None);
}

#[test]
fn allow_list_prefers_the_command_line() {
    let file = strings(&["db", "web"]);
    let system = strings(&["web"]);
    assert_eq!(
        init_allowed_containers(Some(strings(&["x", "y"])), &file, &system),
        strings(&["x", "y"])
    );
    assert_eq!(init_allowed_containers(None, &file, &system), strings(&["web"]));
    assert_eq!(init_allowed_containers(Some(Vec::new()), &file, &system), Vec::<String>::new());
}

#[test]
fn lines_are_split_at_line_feeds() {
    assert_eq!(split_lines("web\ndb\ncache"), strings(&["web", "db", "cache"]));
    assert_eq!(split_lines("web\ndb\n"), strings(&["web", "db"]));
    assert_eq!(split_lines("web\r\ndb\r\n"), strings(&["web", "db"]));
    assert_eq!(split_lines("a\n\nb"), strings(&["a", "", "b"]));
    assert_eq!(split_lines("\n"), strings(&[""]));
    assert_eq!(split_lines(""), Vec::<String>::new());
    assert_eq!(split_lines("a\rb\r"), strings(&["a\rb\r"]));
    assert_eq!(split_lines("a\r\r\nb"), strings(&["a\r", "b"]));
}

#[test]
fn lines_match_the_standard_library() {
    let texts = [
        "", "\n", "\r\n", "a", "a\n", "a\r\n", "a\r", "\r", "a\n\n", "\n\na", "a\r\nb\nc\r",
        "x\r\r\n", "one\ntwo\r\nthree",
    ];
    for text in texts {
        let expected: Vec<String> = text.lines().map(|l| l.to_string()).collect();
        assert_eq!(split_lines(text), expected);
    }
}

#[test]
fn missing_file_gives_no_containers() {
    assert_eq!(load_file_containers(None), Vec::<String>::new());
    assert_eq!(load_file_containers(Some("web\ndb\n")), strings(&["web", "db"]));
}

#[test]
fn listing_filters_name_every_state() {
    assert_eq!(health_filter(), strings(&["starting", "healthy", "unhealthy", "none"]));
    assert_eq!(
        status_filter(),
        strings(&["created", "restarting", "running", "removing", "paused", "exited", "dead"])
    );
    assert_eq!(LIST_LIMIT, 200);
}
