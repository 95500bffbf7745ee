//! The items that most users of the library need, in one place.

pub use crate::error::Error;
pub use crate::host::Host;
pub use crate::host::HostRecord;
pub use crate::host_id::HostId;
pub use crate::host_tag::HostTag;
pub use crate::inventory::Inventory;
pub use crate::json::Json;
pub use crate::json::JsonMap;
pub use crate::tag_expr::eval_tag_expr;
pub use crate::task::GenericTask;
pub use crate::task::TaskResult;
pub use crate::task_runner::TaskRunner;
