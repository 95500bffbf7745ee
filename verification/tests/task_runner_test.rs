use std::sync::atomic::{AtomicUsize, Ordering};
use tricorder::prelude::{Error, GenericTask, Host, Json, JsonMap, TaskResult, TaskRunner};
use tricorder::task_runner::{apply_to_host, outcome_entry, prepare_host};

pub struct DummyTask;

impl DummyTask {
    pub fn new() -> Self {
        Self {}
    }
}

impl GenericTask<i32> for DummyTask {
    fn prepare(&self, host: Host) -> Result<i32, Error> {
        if host.id.to_string() == String::from("success") {
            Ok(1)
        } else {
            Err(Error::Other(String::from("failure")))
        }
    }

    fn apply(&self, host: Host, data: i32) -> TaskResult {
        if host.id.to_string() == String::from("success") {
            Ok(Json::Int((data + 1) as i128))
        } else {
            Err(Error::Other(String::from("failure")))
        }
    }
}

fn setup_success_host() -> Host {
    Host::new(Host::id("success").unwrap(), "success:22".to_string())
}

fn setup_failure_host() -> Host {
    Host::new(Host::id("failure").unwrap(), "failure:22".to_string())
}

fn success_entry(host: &str, info: Json) -> Json {
    let mut entry = JsonMap::new();
    entry.insert("host".to_string(), Json::Str(host.to_string()));
    entry.insert("info".to_string(), info);
    entry.insert("success".to_string(), Json::Bool(true));
    Json::Object(entry)
}

fn failure_entry(host: &str, error: &str) -> Json {
    let mut entry = JsonMap::new();
    entry.insert("error".to_string(), Json::Str(error.to_string()));
    entry.insert("host".to_string(), Json::Str(host.to_string()));
    entry.insert("success".to_string(), Json::Bool(false));
    Json::Object(entry)
}

#[test]
fn prepare_host_should_work() {
    let success_host = setup_success_host();
    let failure_host = setup_failure_host();
    let task = DummyTask::new();

    match prepare_host(&task, &success_host) {
        Ok((host, 1)) => {
            assert_eq!(host, &success_host);
            assert!(true);
        }
        Err(_) => {
            assert!(false, "Unexpected error for successful host");
        }
        _ => {
            assert!(false, "Unexpected result for successful host");
        }
    }

    match prepare_host(&task, &failure_host) {
        Err(_) => {
            assert!(true);
        }
        _ => {
            assert!(false, "Unexpected result for failed host");
        }
    }
}

#[test]
fn apply_to_host_should_work() {
    let success_host = setup_success_host();
    let failure_host = setup_failure_host();
    let task = DummyTask::new();

    assert_eq!(
        apply_to_host(&task, &success_host, 1),
        success_entry("success", Json::Int(2))
    );

    assert_eq!(
        apply_to_host(&task, &failure_host, 1),
        failure_entry("failure", "Other(\"failure\")")
    );
}

/// A task whose outcome for a host is decided by the host's tags, and which
/// counts its calls.
struct Scripted {
    prepared: AtomicUsize,
    applied: AtomicUsize,
}

impl Scripted {
    fn new() -> Self {
        Scripted { prepared: AtomicUsize::new(0), applied: AtomicUsize::new(0) }
    }

    fn prepared(&self) -> usize {
        self.prepared.load(Ordering::SeqCst)
    }

    fn applied(&self) -> usize {
        self.applied.load(Ordering::SeqCst)
    }
}

fn tagged(host: &Host, tag: &str) -> bool {
    host.tag_names().iter().any(|name| name == tag)
}

impl GenericTask<String> for Scripted {
    fn prepare(&self, host: Host) -> Result<String, Error> {
        self.prepared.fetch_add(1, Ordering::SeqCst);
        if tagged(&host, "bad-template") {
            Err(Error::Other(format!("cannot prepare {}", host.id.as_str())))
        } else {
            Ok(format!("echo {}", host.id.as_str()))
        }
    }

    fn apply(&self, host: Host, command: String) -> TaskResult {
        self.applied.fetch_add(1, Ordering::SeqCst);
        if tagged(&host, "unreachable") {
            Err(Error::External(format!(
                "failed to lookup address information: {}",
                host.address
            )))
        } else {
            Ok(Json::Str(command))
        }
    }
}

fn hosts(specs: &[(&str, &[&str])]) -> Vec<Host> {
    specs
        .iter()
        .map(|(id, tags)| {
            let mut host = Host::new(Host::id(id).unwrap(), format!("{}:22", id));
            for tag in tags.iter() {
                host.add_tag(Host::tag(tag).unwrap());
            }
            host
        })
        .collect()
}

fn many_hosts(failing: Option<usize>, tag: &str) -> Vec<Host> {
    (0..64)
        .map(|i| {
            let mut host = Host::new(Host::id(&format!("host-{}", i)).unwrap(), format!("h{}:22", i));
            if failing == Some(i) {
                host.add_tag(Host::tag(tag).unwrap());
            }
            host
        })
        .collect()
}

#[test]
fn a_report_has_one_entry_per_host_in_the_order_of_the_hosts() {
    let list = hosts(&[("c", &[]), ("a", &[]), ("b", &[])]);
    let expected = Json::Array(vec![
        success_entry("c", Json::Str("echo c".to_string())),
        success_entry("a", Json::Str("echo a".to_string())),
        success_entry("b", Json::Str("echo b".to_string())),
    ]);
    assert_eq!(list.run_task_seq(&Scripted::new()), Ok(expected.clone()));
    assert_eq!(list.run_task_parallel(&Scripted::new()), Ok(expected.clone()));
    assert_eq!(list.run_task(&Scripted::new(), false), Ok(expected.clone()));
    assert_eq!(list.run_task(&Scripted::new(), true), Ok(expected));
}

#[test]
fn a_run_over_no_hosts_reports_nothing() {
    let list: Vec<Host> = vec![];
    assert_eq!(list.run_task_seq(&Scripted::new()), Ok(Json::Array(vec![])));
    assert_eq!(list.run_task_parallel(&Scripted::new()), Ok(Json::Array(vec![])));
}

#[test]
fn a_failed_prepare_aborts_a_sequential_run_before_anything_is_applied() {
    let list = hosts(&[("a", &[]), ("b", &["bad-template"]), ("c", &[]), ("d", &["bad-template"])]);
    let task = Scripted::new();
    assert_eq!(
        list.run_task_seq(&task),
        Err(Error::Other("cannot prepare b".to_string()))
    );
    assert_eq!(task.applied(), 0);
    assert_eq!(task.prepared(), 2);
}

#[test]
fn a_failed_prepare_aborts_a_concurrent_run_before_anything_is_applied() {
    for k in [0, 17, 63] {
        let list = many_hosts(Some(k), "bad-template");
        let task = Scripted::new();
        assert_eq!(
            list.run_task_parallel(&task),
            Err(Error::Other(format!("cannot prepare host-{}", k)))
        );
        assert_eq!(task.applied(), 0);
    }
}

#[test]
fn a_failed_apply_stays_with_its_host() {
    for k in [0, 17, 63] {
        let list = many_hosts(Some(k), "unreachable");
        let expected: Vec<Json> = (0..64)
            .map(|i| {
                if i == k {
                    failure_entry(
                        &format!("host-{}", i),
                        &format!("failed to lookup address information: h{}:22", i),
                    )
                } else {
                    success_entry(&format!("host-{}", i), Json::Str(format!("echo host-{}", i)))
                }
            })
            .collect();
        let one_by_one = Scripted::new();
        assert_eq!(list.run_task_seq(&one_by_one), Ok(Json::Array(expected.clone())));
        assert_eq!((one_by_one.prepared(), one_by_one.applied()), (64, 64));
        let at_once = Scripted::new();
        assert_eq!(list.run_task_parallel(&at_once), Ok(Json::Array(expected)));
        assert_eq!((at_once.prepared(), at_once.applied()), (64, 64));
    }
}

#[test]
fn both_strategies_give_the_same_report() {
    let list = hosts(&[
        ("a", &[]),
        ("b", &["unreachable"]),
        ("c", &[]),
        ("d", &["unreachable"]),
        ("e", &[]),
    ]);
    let one_by_one = list.run_task_seq(&Scripted::new());
    let at_once = list.run_task_parallel(&Scripted::new());
    assert!(one_by_one.is_ok());
    assert_eq!(one_by_one, at_once);
}

#[test]
fn a_reachable_and_an_unreachable_host() {
    let list = hosts(&[("localhost", &["test-success"]), ("localhost-fail", &["unreachable"])]);
    let expected = Json::Array(vec![
        success_entry("localhost", Json::Str("echo localhost".to_string())),
        failure_entry(
            "localhost-fail",
            "failed to lookup address information: localhost-fail:22",
        ),
    ]);
    assert_eq!(list.run_task_seq(&Scripted::new()), Ok(expected.clone()));
    assert_eq!(list.run_task_parallel(&Scripted::new()), Ok(expected));
}

#[test]
fn a_task_can_be_run_through_a_trait_object() {
    let list = hosts(&[("a", &[]), ("b", &["unreachable"])]);
    let scripted = Scripted::new();
    let task: &dyn GenericTask<String> = &scripted;
    let expected = Json::Array(vec![
        success_entry("a", Json::Str("echo a".to_string())),
        failure_entry("b", "failed to lookup address information: b:22"),
    ]);
    assert_eq!(list.run_task(task, false), Ok(expected.clone()));
    assert_eq!(list.run_task(task, true), Ok(expected));
    assert_eq!((scripted.prepared(), scripted.applied()), (4, 4));
}

#[test]
fn an_error_of_the_library_is_reported_with_its_kind() {
    let list = vec![setup_success_host(), setup_failure_host()];
    struct ApplyOnly;
    impl GenericTask<()> for ApplyOnly {
        fn prepare(&self, _host: Host) -> Result<(), Error> {
            Ok(())
        }

        fn apply(&self, host: Host, _data: ()) -> TaskResult {
            if host.id.as_str() == "success" {
                Ok(Json::Null)
            } else {
                Err(Error::FileNotFound("No such file: motd".to_string()))
            }
        }
    }
    let expected = Json::Array(vec![
        success_entry("success", Json::Null),
        failure_entry("failure", "FileNotFound(\"No such file: motd\")"),
    ]);
    assert_eq!(list.run_task_seq(&ApplyOnly), Ok(expected.clone()));
    assert_eq!(list.run_task_parallel(&ApplyOnly), Ok(expected));
}

#[test]
fn an_entry_holds_the_host_and_the_outcome() {
    let host = setup_success_host();
    assert_eq!(
        outcome_entry(&host, Ok(Json::Null)),
        success_entry("success", Json::Null)
    );
    assert_eq!(
        outcome_entry(&host, Err(Error::UploadFailed("no \"space\"".to_string()))),
        failure_entry("success", "UploadFailed(\"no \\\"space\\\"\")")
    );
}
