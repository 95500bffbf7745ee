use tricorder::cli::{
    file_mode_value, get_command, get_data_path, get_file_mode, get_host_list, get_inventory,
    get_path, DEFAULT_FILE_MODE,
};
use tricorder::mode::check_mode_string;
use tricorder::prelude::{Error, Host, Inventory};

fn sample() -> Inventory {
    let mut inventory = Inventory::new();
    for (id, tags) in [("a", vec!["web"]), ("b", vec!["db"]), ("c", vec!["web", "db"])] {
        let mut host = Host::new(Host::id(id).unwrap(), format!("{}:22", id));
        for tag in tags {
            host.add_tag(Host::tag(tag).unwrap());
        }
        inventory.add_host(host);
    }
    inventory
}

fn ids(hosts: &Vec<Host>) -> Vec<&str> {
    hosts.iter().map(|host| host.id.as_str()).collect()
}

#[test]
fn a_path_is_required() {
    assert_eq!(get_path(Some("a/b.txt")), Ok("a/b.txt".to_string()));
    assert_eq!(
        get_path(None),
        Err(Error::MissingInput("No input file provided".to_string()))
    );
}

#[test]
fn a_data_path_is_optional() {
    assert_eq!(get_data_path(Some("data.json")), Some("data.json".to_string()));
    assert_eq!(get_data_path(None), None);
}

#[test]
fn the_words_of_a_command_are_joined_for_the_shell() {
    let words = |list: &[&str]| Some(list.iter().map(|w| w.to_string()).collect::<Vec<_>>());
    assert_eq!(get_command(words(&["echo", "hello"])), "echo hello");
    assert_eq!(get_command(words(&["echo", "hello world"])), "echo 'hello world'");
    assert_eq!(get_command(words(&["echo", "it's"])), "echo 'it'\\''s'");
    assert_eq!(get_command(words(&["echo", ""])), "echo ''");
    assert_eq!(get_command(words(&[])), "");
}

#[test]
fn the_file_mode_defaults_to_0644() {
    assert_eq!(DEFAULT_FILE_MODE, 0o644);
    assert_eq!(get_file_mode(None), Ok(0o644));
}

#[test]
fn the_file_mode_is_read_from_a_mode_string() {
    assert_eq!(get_file_mode(Some("=755")), Ok(0o755));
    assert_eq!(get_file_mode(Some("=0600")), Ok(0o600));
    assert_eq!(get_file_mode(Some("u+x")), Ok(0o744));
    assert_eq!(get_file_mode(Some("u+x,go-r")), Ok(0o700));
    assert_eq!(
        get_file_mode(Some("0755")),
        Err(Error::External("unexpected character '0', expected: [-+=]".to_string()))
    );
    assert!(matches!(get_file_mode(Some("not a mode")), Err(Error::External(_))));
}

#[test]
fn a_mode_string_with_anything_but_permissions_behind_an_operator_is_refused() {
    for mode in ["+z", "u+z", "a+b", "u+r-w", "=a", "u+rwz", "+r,+z", "u+x,g+?", "+ r", "=7a", "-é", "=8", "=78"] {
        assert!(!check_mode_string(mode));
        assert_eq!(
            get_file_mode(Some(mode)),
            Err(Error::Other(format!("Invalid file mode: {}", mode)))
        );
    }
}

#[test]
fn any_other_mode_string_is_read() {
    for (mode, expected) in [
        ("+", Some(0o644)),
        ("=", Some(0o000)),
        ("u=", Some(0o044)),
        ("a+r", Some(0o644)),
        ("a=rwx", Some(0o777)),
        ("ug+rw,o=", Some(0o660)),
        ("u+u", Some(0o644)),
        ("g=u", Some(0o664)),
        ("g=u-w", Some(0o644)),
        ("o+t", Some(0o1644)),
        ("=7", Some(0o007)),
        ("+777,-111", Some(0o666)),
        ("=755,u-w", Some(0o555)),
        ("", None),
        (",", None),
        ("u", None),
        ("u+x,", None),
        ("rwx", None),
        ("u+x,755", None),
        ("=7777777777777", None),
        ("x=7", None),
    ] {
        assert!(check_mode_string(mode));
        match expected {
            Some(value) => assert_eq!(get_file_mode(Some(mode)), Ok(value)),
            None => assert!(matches!(get_file_mode(Some(mode)), Err(Error::External(_)))),
        }
    }
}

#[test]
fn a_file_mode_has_to_fit() {
    assert_eq!(file_mode_value(Ok(0o644)), Ok(0o644));
    assert_eq!(file_mode_value(Ok(0)), Ok(0));
    assert_eq!(file_mode_value(Ok(0x7fff_ffff)), Ok(i32::MAX));
    assert_eq!(
        file_mode_value(Ok(0x8000_0000)),
        Err(Error::Other("File mode is out of range".to_string()))
    );
    assert_eq!(
        file_mode_value(Err("bad mode".to_string())),
        Err(Error::External("bad mode".to_string()))
    );
}

#[test]
fn an_inventory_that_cannot_be_loaded_is_empty() {
    assert_eq!(get_inventory(None), Inventory::new());
    assert_eq!(
        get_inventory(Some(Err(Error::FileNotFound("x".to_string())))),
        Inventory::new()
    );
    assert_eq!(get_inventory(Some(Ok(sample()))), sample());
}

#[test]
fn a_host_id_selects_one_host() {
    let hosts = get_host_list(sample(), Some("b"), None).unwrap();
    assert_eq!(ids(&hosts), vec!["b"]);
    let hosts = get_host_list(sample(), Some("b"), Some("web")).unwrap();
    assert_eq!(ids(&hosts), vec!["b"]);
    let hosts = get_host_list(sample(), Some("b"), Some("web &")).unwrap();
    assert_eq!(ids(&hosts), vec!["b"]);
    let hosts = get_host_list(sample(), Some("z"), None).unwrap();
    assert_eq!(hosts, vec![]);
}

#[test]
fn an_invalid_host_id_is_an_error() {
    assert_eq!(
        get_host_list(sample(), Some("(b)"), None),
        Err(Error::InvalidHostId(
            "ID (b) does not match regex ^[a-zA-Z0-9_][a-zA-Z0-9_\\-]*$".to_string()
        ))
    );
}

#[test]
fn a_tag_query_selects_the_hosts_that_match() {
    let hosts = get_host_list(sample(), None, Some("web & !db")).unwrap();
    assert_eq!(ids(&hosts), vec!["a"]);
    let hosts = get_host_list(sample(), None, Some("web | db")).unwrap();
    assert_eq!(ids(&hosts), vec!["a", "b", "c"]);
    assert_eq!(
        get_host_list(sample(), None, Some("web & (db")),
        Err(Error::InvalidToken(
            "Invalid token in tag expression: end of expression".to_string()
        ))
    );
}

#[test]
fn without_a_selection_all_hosts_are_selected() {
    assert_eq!(get_host_list(sample(), None, None), Ok(sample().hosts));
}
