//! The task contract: what every operation on a host consists of.

use crate::error::Error;
use crate::host::{Host, HostView};
use crate::json::{Json, JsonView};
use vstd::prelude::*;

verus! {

/// Describe the result of a `Task` execution
pub type TaskResult = Result<Json, Error>;

/// Generic Task trait
///
/// A task is split in two. `prepare` works on the local machine only and
/// computes what `apply` needs for one host; `apply` then does the work on
/// the remote host. A task is shared between the hosts of a run and may be
/// called for several of them at once.
pub trait GenericTask<Data: Send>: Send + Sync {
    /// Called to prepare contextual data for the task execution
    fn prepare(&self, host: Host) -> Result<Data, Error>;

    /// Called to execute the task
    fn apply(&self, host: Host, data: Data) -> TaskResult;
}

/// `r` is a possible result of `prepare` for a host.
pub open spec fn prepared<Data: Send, T: GenericTask<Data> + ?Sized>(
    task: &T,
    host: HostView,
    r: Result<Data, Error>,
) -> bool {
    exists|h: Host| h@ == host && #[trigger] call_ensures(T::prepare, (task, h), r)
}

/// `r` is a possible result of `apply` for a host and its prepared data.
pub open spec fn applied<Data: Send, T: GenericTask<Data> + ?Sized>(
    task: &T,
    host: HostView,
    data: Data,
    r: TaskResult,
) -> bool {
    exists|h: Host| h@ == host && #[trigger] call_ensures(T::apply, (task, h, data), r)
}

/// The report entry for a host on which `apply` ended with `r`: the host's
/// identifier and either the information that was returned or the error as
/// text.
pub open spec fn outcome(id: Seq<char>, r: TaskResult) -> JsonView {
    match r {
        Ok(info) => JsonView::Object(
            seq![
                ("host"@, JsonView::Str(id)),
                ("info"@, info@),
                ("success"@, JsonView::Bool(true)),
            ],
        ),
        Err(e) => JsonView::Object(
            seq![
                ("error"@, JsonView::Str(e.text())),
                ("host"@, JsonView::Str(id)),
                ("success"@, JsonView::Bool(false)),
            ],
        ),
    }
}

} // verus!
