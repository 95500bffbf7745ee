//! Execute a command on a remote host.
//!
//! The command is a template that is rendered for each host against the
//! context `{"host": ...}`, so that `{host.id}` and `{host.vars.msg}` stand
//! for the host's identifier and for one of its variables. The report of a
//! host holds the exit code of the command and what it wrote.

use crate::host::{host_json, Host, HostView};
use crate::json::{upsert_at_end, Json, JsonMap, JsonView, Members};
use crate::text::before_at;
use vstd::prelude::*;
use vstd::string::StringExecFns;

verus! {

/// Describe an `exec` task
pub struct Task {
    /// Command template to execute on the remote host.
    ///
    /// Example: `"echo \"{host.id} says {host.vars.msg}\""`
    command_template: String,
}

/// The context against which a template is rendered for a host.
pub open spec fn template_context(host: HostView) -> JsonView {
    JsonView::Object(seq![("host"@, host_json(host))])
}

/// What is reported of a command that ran on a host. A command that ends
/// with another exit code than 0 has run all the same: the exit code is
/// part of the report, not an error.
pub open spec fn command_report(exit_code: int, stdout: Seq<char>, stderr: Seq<char>) -> JsonView {
    JsonView::Object(
        seq![
            ("exit_code"@, JsonView::Int(exit_code)),
            ("stderr"@, JsonView::Str(stderr)),
            ("stdout"@, JsonView::Str(stdout)),
        ],
    )
}

/// The context against which a template is rendered for a host.
pub fn context(host: &Host) -> (j: Json)
    ensures
        j@ == template_context(host@),
{
    let mut record = JsonMap::new();
    proof {
        upsert_at_end(Members::empty(), "host"@, host_json(host@));
    }
    record.insert(String::from_str("host"), host.to_json());
    assert(record@ =~= template_context(host@)->Object_0);
    Json::Object(record)
}

/// What is reported of a command that ran on a host.
pub fn report(exit_code: i32, stdout: String, stderr: String) -> (j: Json)
    ensures
        j@ == command_report(exit_code as int, stdout@, stderr@),
{
    let mut record = JsonMap::new();
    let ghost code = JsonView::Int(exit_code as int);
    proof {
        reveal_strlit("exit_code");
        reveal_strlit("stderr");
        reveal_strlit("stdout");
        before_at("exit_code"@, "stderr"@, 0);
        before_at("exit_code"@, "stdout"@, 0);
        before_at("stderr"@, "stdout"@, 3);
        upsert_at_end(Members::empty(), "exit_code"@, code);
        upsert_at_end(seq![("exit_code"@, code)], "stderr"@, JsonView::Str(stderr@));
        upsert_at_end(
            seq![("exit_code"@, code), ("stderr"@, JsonView::Str(stderr@))],
            "stdout"@,
            JsonView::Str(stdout@),
        );
    }
    record.insert(String::from_str("exit_code"), Json::Int(exit_code as i128));
    assert(record@ =~= seq![("exit_code"@, code)]);
    record.insert(String::from_str("stderr"), Json::Str(stderr));
    assert(record@ =~= seq![("exit_code"@, code), ("stderr"@, JsonView::Str(stderr@))]);
    record.insert(String::from_str("stdout"), Json::Str(stdout));
    assert(record@ =~= command_report(exit_code as int, stdout@, stderr@)->Object_0);
    Json::Object(record)
}

impl Task {
    /// Create a new `exec` task
    pub fn new(command_template: String) -> (task: Self)
        ensures
            task.template() == command_template@,
    {
        Self { command_template }
    }

    /// The command template of the task.
    pub closed spec fn template(&self) -> Seq<char> {
        self.command_template@
    }

    /// The command template of the task.
    pub fn command_template(&self) -> (s: &str)
        ensures
            s@ == self.template(),
    {
        self.command_template.as_str()
    }
}

} // verus!
