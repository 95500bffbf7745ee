//! The tasks that can be run on a host.
//!
//! Each module describes one kind of task: what it is made of, what its
//! `prepare` step decides before anything is sent to a host, and what it
//! reports once the remote work is done.

pub mod download;
pub mod exec;
pub mod info;

pub mod upload;
pub mod module;
