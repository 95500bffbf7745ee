//! Upload a module to the remote host and call it with data.
//!
//! A module is a program that reads a JSON document on its standard input.
//! The document is the task's default data, overlaid with the variable of
//! the host that is named after the module: `module_` and the file name of
//! the module.

use crate::host::Host;
use crate::json::{lookup, merge, merged, Json, JsonMap, JsonView, Members};
use crate::text::to_chars;
use vstd::prelude::*;
use vstd::string::StrSliceExecFns;
use vstd::string::StringExecFns;

verus! {

/// Describe an `module` task
pub struct Task {
    data_path: Option<String>,
    binary_path: String,
    module_name: String,
}

/// The command that tells where the home directory is on a remote host.
pub const HOME_COMMAND: &'static str = "echo $HOME";

/// The command that makes the directory for modules on a remote host.
pub const MKDIR_COMMAND: &'static str = "mkdir -p ~/.local/tricorder/modules";

/// The mode of a module on a remote host: its owner may read, write and
/// run it.
pub const MODULE_FILE_MODE: i32 = 0o700;

/// Where the part of `s` before position `n` has its last segment start:
/// behind the last `/`, or at 0 where there is none.
pub open spec fn segment_start(s: Seq<char>, n: int) -> int
    decreases n,
{
    if n <= 0 {
        0
    } else if s[n - 1] == '/' {
        n
    } else {
        segment_start(s, n - 1)
    }
}

/// The file name in a path: what follows the last `/`, or the whole path.
pub open spec fn last_segment(s: Seq<char>) -> Seq<char> {
    s.subrange(segment_start(s, s.len() as int), s.len() as int)
}

/// The name of the host variable that holds the data for a module.
pub open spec fn module_var_name(module_name: Seq<char>) -> Seq<char> {
    "module_"@ + module_name
}

/// The document that a module is called with on a host: the host's
/// variable for the module, an empty object where it has none, laid over
/// the default data where there is any.
pub open spec fn module_data(
    vars: Members,
    module_name: Seq<char>,
    defaults: Option<JsonView>,
) -> JsonView {
    let overrides = match lookup(vars, module_var_name(module_name)) {
        Some(v) => v,
        None => JsonView::Object(Members::empty()),
    };
    match defaults {
        Some(d) => merged(d, overrides),
        None => overrides,
    }
}

/// The view of optional default data.
pub open spec fn defaults_view(defaults: Option<Json>) -> Option<JsonView> {
    match defaults {
        Some(d) => Some(d@),
        None => None,
    }
}

/// The file name in a path.
pub fn file_name(path: &str) -> (name: String)
    ensures
        name@ == last_segment(path@),
{
    let chars = to_chars(path);
    let mut n: usize = chars.len();
    while n > 0 && chars[n - 1] != '/'
        invariant
            n <= chars.len(),
            chars@ == path@,
            segment_start(path@, n as int) == segment_start(path@, path@.len() as int),
        decreases n,
    {
        n -= 1;
    }
    String::from_str(path.substring_char(n, chars.len()))
}

impl Task {
    /// Create a new `module` task
    pub fn new(data_path: Option<String>, binary_path: String) -> (task: Self)
        ensures
            task.path() == binary_path@,
            task.name() == last_segment(binary_path@),
            task.data() == data_path,
    {
        let module_name = file_name(binary_path.as_str());
        Self { data_path, binary_path, module_name }
    }

    /// The local path of the module.
    pub closed spec fn path(&self) -> Seq<char> {
        self.binary_path@
    }

    /// The file name of the module.
    pub closed spec fn name(&self) -> Seq<char> {
        self.module_name@
    }

    /// The path of the file with the default data, if there is one.
    pub closed spec fn data(&self) -> Option<String> {
        self.data_path
    }

    /// The local path of the module.
    pub fn binary_path(&self) -> (s: &str)
        ensures
            s@ == self.path(),
    {
        self.binary_path.as_str()
    }

    /// The file name of the module.
    pub fn module_name(&self) -> (s: &str)
        ensures
            s@ == self.name(),
    {
        self.module_name.as_str()
    }

    /// The path of the file with the default data, if there is one.
    pub fn data_path(&self) -> (p: &Option<String>)
        ensures
            *p == self.data(),
    {
        &self.data_path
    }

    /// The name of the host variable that holds the data for the module.
    pub fn var_name(&self) -> (name: String)
        ensures
            name@ == module_var_name(self.name()),
    {
        let mut name = String::from_str("module_");
        name.append(self.module_name.as_str());
        name
    }

    /// The document that the module is called with on `host`.
    pub fn prepare_data(&self, host: &Host, defaults: Option<Json>) -> (data: Json)
        ensures
            data@ == module_data(host@.vars, self.name(), defaults_view(defaults)),
    {
        let name = self.var_name();
        let overrides = match host.vars.get(name.as_str()) {
            Some(v) => v.clone(),
            None => {
                let empty = Json::Object(JsonMap::new());
                empty
            },
        };
        match defaults {
            Some(mut data) => {
                merge(&mut data, &overrides);
                data
            },
            None => overrides,
        }
    }

    /// The path of the module on a remote host whose home directory is
    /// `home`.
    pub fn remote_path(&self, home: &str) -> (path: String)
        ensures
            path@ == home@ + "/.local/tricorder/modules/"@ + self.name(),
    {
        let mut path = String::from_str(home);
        path.append("/.local/tricorder/modules/");
        path.append(self.module_name.as_str());
        path
    }

    /// The command that runs the module on a remote host.
    pub fn command(&self) -> (command: String)
        ensures
            command@ == "~/.local/tricorder/modules/"@ + self.name(),
    {
        let mut command = String::from_str("~/.local/tricorder/modules/");
        command.append(self.module_name.as_str());
        command
    }
}

} // verus!
