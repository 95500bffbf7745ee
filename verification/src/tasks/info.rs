//! Gather information on hosts: each host is reported as the inventory
//! describes it.

use crate::error::Error;
use crate::host::{host_json, Host, HostView};
use crate::task::{applied, outcome, prepared, GenericTask, TaskResult};
use crate::task_runner::deterministic;
use vstd::prelude::*;

verus! {

/// Describe an `info` task
pub struct Task;

impl Task {
    /// Create a new `info` task
    pub fn new() -> (task: Self) {
        Task
    }
}

impl GenericTask<()> for Task {
    /// There is nothing to prepare.
    fn prepare(&self, _host: Host) -> (r: Result<(), Error>)
        ensures
            r == Ok::<(), Error>(()),
    {
        Ok(())
    }

    /// Reports the host itself: no remote work is done.
    fn apply(&self, host: Host, _data: ()) -> (r: TaskResult)
        ensures
            r matches Ok(info) && info@ == host_json(host@),
    {
        Ok(host.to_json())
    }
}

/// The `info` task is deterministic, so that a sequential and a concurrent
/// run of it give the same report.
pub proof fn info_is_deterministic(task: &Task, hosts: Seq<HostView>)
    ensures
        deterministic::<(), Task>(task, hosts),
{
    assert forall|i: int, r1: Result<(), Error>, r2: Result<(), Error>|
        0 <= i < hosts.len() && #[trigger] prepared(task, hosts[i], r1) && #[trigger] prepared(
            task,
            hosts[i],
            r2,
        ) implies r1 == r2 by {
        assert(r1 == Ok::<(), Error>(()) && r2 == Ok::<(), Error>(()));
    }
    assert forall|i: int, data: (), r1: TaskResult, r2: TaskResult|
        0 <= i < hosts.len() && #[trigger] applied(task, hosts[i], data, r1) && #[trigger] applied(
            task,
            hosts[i],
            data,
            r2,
        ) implies outcome(hosts[i].id, r1) == outcome(hosts[i].id, r2) by {
        assert(r1 matches Ok(a) && a@ == host_json(hosts[i]));
        assert(r2 matches Ok(b) && b@ == host_json(hosts[i]));
    }
}

} // verus!
