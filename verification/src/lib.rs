//! Agent-less automation: run one task on many hosts.
//!
//! An [`Inventory`](prelude::Inventory) lists the hosts. A tag query such as
//! `web & !(staging | canary)` narrows it to a host list, and a task, split
//! into a local `prepare` step and a remote `apply` step, is run over that
//! list by a [`TaskRunner`](prelude::TaskRunner), which reports one outcome
//! per host, in the order of the list.
//!
//! ```text
//! let inventory = Inventory::new()
//!     .add_host(
//!         Host::new(Host::id("web-1")?, "10.0.0.1:22".to_string())
//!             .add_tag(Host::tag("web")?)
//!             .to_owned(),
//!     )
//!     .to_owned();
//! let hosts = inventory.get_hosts_by_tags("web & !staging".to_string())?;
//! let report = hosts.run_task(&info::Task::new(), false)?;
//! ```
//!
//! The library decides and computes; it opens no connection and reads no
//! file. A program around it reads inventories, renders templates and
//! carries out the remote part of a task behind
//! [`GenericTask`](prelude::GenericTask).

pub mod cli;
pub mod document;
pub mod error;
pub mod host;
pub mod host_id;
pub mod host_tag;
pub mod inventory;
pub mod json;
pub mod mode;
pub mod prelude;
pub mod tag_expr;
pub mod task;
pub mod task_runner;
pub mod tasks;
pub mod text;
