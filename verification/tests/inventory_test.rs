use tricorder::inventory::InventorySource;
use tricorder::prelude::{Error, Host, HostId, HostRecord, HostTag, Inventory, Json, JsonMap};

fn record(id: &str, address: &str) -> HostRecord {
    HostRecord {
        id: id.to_string(),
        address: address.to_string(),
        user: None,
        tags: None,
        vars: None,
    }
}

fn json_of_toml(value: &toml::Value) -> Json {
    match value {
        toml::Value::String(s) => Json::Str(s.clone()),
        toml::Value::Integer(n) => Json::Int(*n as i128),
        toml::Value::Float(x) => Json::Float(x.to_string()),
        toml::Value::Boolean(b) => Json::Bool(*b),
        toml::Value::Datetime(d) => Json::Str(d.to_string()),
        toml::Value::Array(items) => Json::Array(items.iter().map(json_of_toml).collect()),
        toml::Value::Table(table) => {
            let mut members = JsonMap::new();
            for (name, item) in table.iter() {
                members.insert(name.clone(), json_of_toml(item));
            }
            Json::Object(members)
        }
    }
}

fn json_of_value(value: &serde_json::Value) -> Json {
    match value {
        serde_json::Value::Null => Json::Null,
        serde_json::Value::Bool(b) => Json::Bool(*b),
        serde_json::Value::Number(n) => match (n.as_i64(), n.as_u64()) {
            (Some(i), _) => Json::Int(i as i128),
            (_, Some(u)) => Json::Int(u as i128),
            _ => Json::Float(n.to_string()),
        },
        serde_json::Value::String(s) => Json::Str(s.clone()),
        serde_json::Value::Array(items) => Json::Array(items.iter().map(json_of_value).collect()),
        serde_json::Value::Object(object) => {
            let mut members = JsonMap::new();
            for (name, item) in object.iter() {
                members.insert(name.clone(), json_of_value(item));
            }
            Json::Object(members)
        }
    }
}

fn from_toml(content: &str) -> Result<Inventory, String> {
    let document: toml::Value = toml::from_str(content).map_err(|e| e.to_string())?;
    Inventory::from_document(&json_of_toml(&document)).map_err(|e| e.to_string())
}

fn from_json(content: &str) -> Result<Inventory, String> {
    let document: serde_json::Value = serde_json::from_str(content).map_err(|e| e.to_string())?;
    Inventory::from_document(&json_of_value(&document)).map_err(|e| e.to_string())
}

#[test]
fn new_should_create_an_empty_inventory() {
    let inventory = Inventory::new();

    assert_eq!(inventory.hosts.len(), 0);
}

#[test]
fn add_host_should_work() {
    let inventory = Inventory::new()
        .add_host(Host::new(
            HostId::new("example-0").unwrap(),
            "127.0.1.1:22".to_string(),
        ))
        .to_owned();

    assert_eq!(inventory.hosts.len(), 1);

    let host = inventory
        .get_host_by_id(HostId::new("example-0").unwrap())
        .expect("host example-0 should exist");

    assert_eq!(host.address, String::from("127.0.1.1:22"));
}

#[test]
fn remove_host_should_work() {
    let inventory = Inventory::new()
        .add_host(Host::new(
            HostId::new("example-0").unwrap(),
            "127.0.1.1:22".to_string(),
        ))
        .add_host(Host::new(
            HostId::new("example-1").unwrap(),
            "127.0.1.2:22".to_string(),
        ))
        .remove_host(HostId::new("example-1").unwrap())
        .to_owned();

    assert_eq!(inventory.hosts.len(), 1);

    let host = inventory
        .get_host_by_id(HostId::new("example-0").unwrap())
        .expect("host example-0 should exist");

    assert_eq!(host.address, String::from("127.0.1.1:22"));
}

#[test]
fn from_toml_should_return_an_inventory() {
    let content = r#"
  [[hosts]]

  id = "example-0"
  address = "127.0.1.1:22"
  "#;

    match from_toml(content) {
        Ok(inventory) => {
            assert_eq!(inventory.hosts.len(), 1);

            let host = inventory
                .get_host_by_id(HostId::new("example-0").unwrap())
                .expect("host example-0 should exist");

            assert_eq!(host.address, String::from("127.0.1.1:22"));
        }
        Err(err) => {
            assert!(false, "error while parsing TOML: {}", err);
        }
    }
}

#[test]
fn from_toml_should_fail_on_invalid_hostid() {
    let content = r#"
  [[hosts]]

  id = "example-0$"
  address = "127.0.1.1:22"
  "#;

    match from_toml(content) {
        Ok(_) => assert!(false, "invalid id should not be parsed"),
        Err(_) => assert!(true),
    };
}

#[test]
fn from_toml_should_fail_on_invalid_hosttag() {
    let content = r#"
  [[hosts]]

  id = "example-0"
  address = "127.0.1.1:22"
  tags = ["&foo"]
  "#;

    match from_toml(content) {
        Ok(_) => assert!(false, "invalid tag should not be parsed"),
        Err(_) => assert!(true),
    };
}

#[test]
fn from_json_should_return_an_inventory() {
    let content = r#"
  {"hosts": [
    {
      "id": "example-0",
      "address": "127.0.1.1:22"
    }
  ]}
  "#;

    match from_json(content) {
        Ok(inventory) => {
            assert_eq!(inventory.hosts.len(), 1);

            let host = inventory
                .get_host_by_id(HostId::new("example-0").unwrap())
                .expect("host example-0 should exist");

            assert_eq!(host.address, String::from("127.0.1.1:22"));
        }
        Err(err) => {
            assert!(false, "error while parsing JSON: {}", err);
        }
    }
}

#[test]
fn from_json_should_fail_on_invalid_hostid() {
    let content = r#"
  {"hosts": [
    {
      "id": "example-0$",
      "address": "127.0.1.1:22"
    }
  ]}
  "#;

    match from_json(content) {
        Ok(_) => assert!(false, "invalid id should not be parsed"),
        Err(_) => assert!(true),
    };
}

#[test]
fn from_json_should_fail_on_invalid_hosttag() {
    let content = r#"
  {"hosts": [
    {
      "id": "example-0",
      "address": "127.0.1.1:22",
      "tags": ["&foo"]
    }
  ]}
  "#;

    match from_json(content) {
        Ok(_) => assert!(false, "invalid tag should not be parsed"),
        Err(_) => assert!(true),
    };
}

#[test]
fn get_host_by_tags_should_work() {
    let inventory = Inventory::new()
        .add_host(
            Host::new(HostId::new("example-0").unwrap(), "127.0.1.1:22".to_string())
                .add_tag(HostTag::new("foo").unwrap())
                .to_owned(),
        )
        .add_host(
            Host::new(HostId::new("example-1").unwrap(), "127.0.1.2:22".to_string())
                .add_tag(HostTag::new("bar").unwrap())
                .to_owned(),
        )
        .to_owned();

    assert_eq!(inventory.hosts.len(), 2);

    let foo_hosts = inventory.get_hosts_by_tags("foo".to_string()).unwrap();
    let bar_hosts = inventory.get_hosts_by_tags("bar".to_string()).unwrap();

    assert_eq!(foo_hosts.len(), 1);
    match foo_hosts.get(0) {
        Some(host) => {
            assert_eq!(host.id, HostId::new("example-0").unwrap());
        }
        None => {
            assert!(false, "Expected host example-0 not found");
        }
    }

    assert_eq!(bar_hosts.len(), 1);
    match bar_hosts.get(0) {
        Some(host) => {
            assert_eq!(host.id, HostId::new("example-1").unwrap());
        }
        None => {
            assert!(false, "Expected host example-1 not found");
        }
    }
}

fn sample() -> Inventory {
    let mut inventory = Inventory::new();
    for (id, address, tags) in [
        ("web-1", "10.0.0.1:22", vec!["web", "prod"]),
        ("db-1", "10.0.0.2:22", vec!["db", "prod"]),
        ("web-2", "10.0.0.3:22", vec!["web", "staging"]),
        ("web-1", "10.0.0.4:22", vec![]),
    ] {
        let mut host = Host::new(HostId::new(id).unwrap(), address.to_string());
        for tag in tags {
            host.add_tag(HostTag::new(tag).unwrap());
        }
        inventory.add_host(host);
    }
    inventory
}

fn addresses(hosts: &Vec<Host>) -> Vec<&str> {
    hosts.iter().map(|host| host.address.as_str()).collect()
}

#[test]
fn get_host_by_id_returns_the_first_host_with_the_id() {
    let inventory = sample();
    let host = inventory.get_host_by_id(HostId::new("web-1").unwrap()).unwrap();
    assert_eq!(host.address, "10.0.0.1:22");
    assert_eq!(host, inventory.hosts[0]);
    assert_eq!(inventory.get_host_by_id(HostId::new("web-3").unwrap()), None);
    assert_eq!(Inventory::new().get_host_by_id(HostId::new("web-1").unwrap()), None);
}

#[test]
fn remove_host_removes_every_host_with_the_id() {
    let inventory = sample().remove_host(HostId::new("web-1").unwrap()).to_owned();
    assert_eq!(addresses(&inventory.hosts), vec!["10.0.0.2:22", "10.0.0.3:22"]);
    let inventory = sample().remove_host(HostId::new("nope").unwrap()).to_owned();
    assert_eq!(inventory, sample());
}

#[test]
fn get_hosts_by_tags_keeps_the_order_of_the_inventory() {
    let inventory = sample();
    let hosts = inventory.get_hosts_by_tags("web".to_string()).unwrap();
    assert_eq!(addresses(&hosts), vec!["10.0.0.1:22", "10.0.0.3:22"]);
    let hosts = inventory.get_hosts_by_tags("prod & !db | staging".to_string()).unwrap();
    assert_eq!(addresses(&hosts), vec!["10.0.0.1:22", "10.0.0.3:22"]);
    let hosts = inventory.get_hosts_by_tags("!web".to_string()).unwrap();
    assert_eq!(addresses(&hosts), vec!["10.0.0.2:22", "10.0.0.4:22"]);
    let hosts = inventory.get_hosts_by_tags("nope".to_string()).unwrap();
    assert_eq!(hosts, vec![]);
}

#[test]
fn a_malformed_query_selects_no_hosts_but_fails() {
    let expected = Err(Error::InvalidToken(
        "Invalid token in tag expression: end of expression".to_string(),
    ));
    assert_eq!(sample().get_hosts_by_tags("web &".to_string()), expected);
    assert_eq!(Inventory::new().get_hosts_by_tags("web &".to_string()), expected);
}

#[test]
fn from_records_keeps_the_order_and_fills_in_defaults() {
    let inventory =
        Inventory::from_records(vec![record("b", "b:22"), record("a", "a:22")]).unwrap();
    assert_eq!(addresses(&inventory.hosts), vec!["b:22", "a:22"]);
    assert_eq!(inventory.hosts[0].user, "root");
    assert_eq!(Inventory::from_records(vec![]), Ok(Inventory::new()));
}

#[test]
fn from_records_fails_with_the_error_of_the_first_invalid_record() {
    let mut tagged = record("c", "c:22");
    tagged.tags = Some(vec!["x y".to_string()]);
    assert_eq!(
        Inventory::from_records(vec![record("a", "a:22"), tagged, record("(b)", "b:22")]),
        Err(Error::InvalidHostTag(
            "Tag x y does not match regex ^[^!\\&\\|\\t\\n\\r\\f\\(\\) ]+$".to_string()
        ))
    );
}

#[test]
fn hosts_default_to_an_empty_list() {
    assert_eq!(from_json("{}"), Ok(Inventory::new()));
    assert_eq!(from_toml(""), Ok(Inventory::new()));
}

fn object(members: Vec<(&str, Json)>) -> Json {
    let mut map = JsonMap::new();
    for (name, value) in members {
        map.insert(name.to_string(), value);
    }
    Json::Object(map)
}

fn text(s: &str) -> Json {
    Json::Str(s.to_string())
}

fn malformed(message: &str) -> Result<Inventory, Error> {
    Err(Error::Other(message.to_string()))
}

#[test]
fn a_document_names_hosts_with_what_they_have() {
    let content = r#"
  [[hosts]]
  id = "localhost"
  address = "localhost:22"
  user = "admin"
  tags = ["local", "test"]
  vars = { foo = "bar", n = 3, nested = { on = true } }
  unknown = "passed over"

  [[hosts]]
  id = "other"
  address = "other:22"
  "#;
    let first = Host::new(HostId::new("localhost").unwrap(), "localhost:22".to_string())
        .set_user("admin".to_string())
        .add_tag(HostTag::new("local").unwrap())
        .add_tag(HostTag::new("test").unwrap())
        .set_var("foo".to_string(), text("bar"))
        .set_var("n".to_string(), Json::Int(3))
        .set_var("nested".to_string(), object(vec![("on", Json::Bool(true))]))
        .to_owned();
    let second = Host::new(HostId::new("other").unwrap(), "other:22".to_string());
    let expected = Inventory::new().add_host(first).add_host(second).to_owned();
    assert_eq!(from_toml(content), Ok(expected.clone()));

    let content = r#"{"hosts": [
      {"id": "localhost", "address": "localhost:22", "user": "admin",
       "tags": ["local", "test"], "unknown": "passed over",
       "vars": {"foo": "bar", "n": 3, "nested": {"on": true}}},
      {"id": "other", "address": "other:22"}
    ]}"#;
    assert_eq!(from_json(content), Ok(expected));
}

#[test]
fn a_document_of_the_wrong_form_is_refused() {
    let host = |members: Vec<(&str, Json)>| object(vec![("hosts", Json::Array(vec![object(members)]))]);
    let complete = vec![("id", text("a")), ("address", text("a:22"))];
    let with = |name: &'static str, value: Json| {
        let mut members = complete.clone();
        members.push((name, value));
        host(members)
    };
    assert_eq!(
        Inventory::from_document(&Json::Array(vec![])),
        malformed("the inventory is not a table")
    );
    assert_eq!(
        Inventory::from_document(&object(vec![("hosts", text("a"))])),
        malformed("`hosts` is not a list")
    );
    assert_eq!(
        Inventory::from_document(&object(vec![("hosts", Json::Array(vec![text("a")]))])),
        malformed("a host is not a table")
    );
    assert_eq!(
        Inventory::from_document(&host(vec![("address", text("a:22"))])),
        malformed("missing field `id`")
    );
    assert_eq!(
        Inventory::from_document(&host(vec![("id", text("a"))])),
        malformed("missing field `address`")
    );
    assert_eq!(
        Inventory::from_document(&host(vec![("id", Json::Int(1)), ("address", text("a:22"))])),
        malformed("`id` is not a string")
    );
    assert_eq!(
        Inventory::from_document(&host(vec![("id", text("a")), ("address", Json::Null)])),
        malformed("`address` is not a string")
    );
    assert_eq!(
        Inventory::from_document(&with("user", Json::Bool(true))),
        malformed("`user` is not a string")
    );
    assert_eq!(
        Inventory::from_document(&with("tags", text("a"))),
        malformed("`tags` is not a list")
    );
    assert_eq!(
        Inventory::from_document(&with("tags", Json::Array(vec![text("a"), Json::Int(1)]))),
        malformed("a tag is not a string")
    );
    assert_eq!(
        Inventory::from_document(&with("vars", Json::Array(vec![]))),
        malformed("`vars` is not a table")
    );
    assert_eq!(
        Inventory::from_document(&with("vars", object(vec![]))),
        Ok(Inventory::new()
            .add_host(Host::new(HostId::new("a").unwrap(), "a:22".to_string()))
            .to_owned())
    );
}

#[test]
fn the_form_of_a_document_is_looked_at_before_its_identifiers() {
    let document = object(vec![(
        "hosts",
        Json::Array(vec![
            object(vec![("id", text("(a)")), ("address", text("a:22"))]),
            object(vec![("id", text("b"))]),
        ]),
    )]);
    assert_eq!(Inventory::from_document(&document), malformed("missing field `address`"));
    let document = object(vec![(
        "hosts",
        Json::Array(vec![
            object(vec![("id", text("a")), ("address", text("a:22"))]),
            object(vec![("id", text("(b)")), ("address", text("b:22"))]),
        ]),
    )]);
    assert_eq!(
        Inventory::from_document(&document),
        Err(Error::InvalidHostId(
            "ID (b) does not match regex ^[a-zA-Z0-9_][a-zA-Z0-9_\\-]*$".to_string()
        ))
    );
    assert_eq!(
        Inventory::records_of(&document).unwrap(),
        vec![record("a", "a:22"), record("(b)", "b:22")]
    );
}

#[test]
fn the_source_of_an_inventory() {
    assert_eq!(Inventory::source_of("inv", true, true), Ok(InventorySource::Program));
    assert_eq!(Inventory::source_of("inv.toml", true, false), Ok(InventorySource::Document));
    for executable in [true, false] {
        assert_eq!(
            Inventory::source_of("inv.toml", false, executable),
            Err(Error::FileNotFound("Inventory 'inv.toml' does not exist".to_string()))
        );
    }
}

#[test]
fn a_failed_inventory_program_is_an_error() {
    assert_eq!(
        Inventory::command_output("./inv", true, "exit status: 0", "{}".to_string()),
        Ok("{}".to_string())
    );
    assert_eq!(
        Inventory::command_output("./inv", false, "exit status: 3", "{}".to_string()),
        Err(Error::CommandExecutionFailed(
            "Failed to execute inventory ./inv: exit status: 3".to_string()
        ))
    );
}

#[test]
fn a_clone_of_an_inventory_is_equal_to_it() {
    assert_eq!(sample().clone(), sample());
}
