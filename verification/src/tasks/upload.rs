//! Upload a file on a remote host.
//!
//! The local file is sent as it is, or rendered first as a template with
//! the host as its context.

use crate::error::Error;
use crate::json::{upsert_at_end, Json, JsonMap, JsonView, Members};
use vstd::prelude::*;
use vstd::string::StringExecFns;
use vstd::utf8::encode_utf8;

verus! {

/// Describe an `upload` task
pub struct Task {
    /// If true, `local_path` is treated as a template
    is_template: bool,
    /// Path to local file to upload
    local_path: String,
    /// Path to target file on remote host
    remote_path: String,
    /// UNIX file mode to set on the uploaded file
    file_mode: i32,
}

/// What `prepare` hands to `apply`: the size of what is sent, and the
/// content itself where it was rendered from a template.
pub enum TaskContext {
    Template { content: String, file_size: u64 },
    File { file_size: u64 },
}

/// The message for a local path at which nothing exists.
pub open spec fn no_such_file_text(path: Seq<char>) -> Seq<char> {
    "No such file: "@ + path
}

/// The message for a local path that names a directory.
pub open spec fn is_a_directory_text(path: Seq<char>) -> Seq<char> {
    "Path is a directory, not a file: "@ + path
}

/// The length in bytes of a text that a string holds.
pub open spec fn byte_length(text: Seq<char>) -> int {
    (encode_utf8(text).len() as usize) as int
}

/// What is reported of a file that was uploaded.
pub open spec fn upload_report(file_size: int) -> JsonView {
    JsonView::Object(seq![("file_size"@, JsonView::Int(file_size))])
}

/// What is reported of a file that was uploaded.
pub fn report(file_size: u64) -> (j: Json)
    ensures
        j@ == upload_report(file_size as int),
{
    let mut record = JsonMap::new();
    proof {
        upsert_at_end(Members::empty(), "file_size"@, JsonView::Int(file_size as int));
    }
    record.insert(String::from_str("file_size"), Json::Int(file_size as i128));
    assert(record@ =~= upload_report(file_size as int)->Object_0);
    Json::Object(record)
}

impl TaskContext {
    /// The number of bytes that are sent.
    pub open spec fn size(self) -> int {
        match self {
            TaskContext::Template { file_size, .. } => file_size as int,
            TaskContext::File { file_size } => file_size as int,
        }
    }

    /// The number of bytes that are sent.
    pub fn file_size(&self) -> (n: u64)
        ensures
            n == self.size(),
    {
        match self {
            TaskContext::Template { file_size, .. } => *file_size,
            TaskContext::File { file_size } => *file_size,
        }
    }

    /// The context for a rendered template: its text, and the length of
    /// the text in bytes as the size.
    pub fn template(content: String) -> (context: Self)
        ensures
            context matches TaskContext::Template { content: text, file_size } && text@
                == content@,
            context.size() == byte_length(content@),
    {
        let file_size = content.as_str().len() as u64;
        TaskContext::Template { content, file_size }
    }

    /// The context for a file that is sent as it is.
    pub fn file(file_size: u64) -> (context: Self)
        ensures
            context == (TaskContext::File { file_size }),
    {
        TaskContext::File { file_size }
    }
}

impl Task {
    /// Create a new `upload` task where `local_path` is a template
    pub fn new_template(local_path: String, remote_path: String, file_mode: i32) -> (task: Self)
        ensures
            task.templated(),
            task.local() == local_path@,
            task.remote() == remote_path@,
            task.mode() == file_mode,
    {
        Self { is_template: true, local_path, remote_path, file_mode }
    }

    /// Create a new `upload` task where `local_path` is a static file
    pub fn new_file(local_path: String, remote_path: String, file_mode: i32) -> (task: Self)
        ensures
            !task.templated(),
            task.local() == local_path@,
            task.remote() == remote_path@,
            task.mode() == file_mode,
    {
        Self { is_template: false, local_path, remote_path, file_mode }
    }

    /// Whether the local file is a template.
    pub closed spec fn templated(&self) -> bool {
        self.is_template
    }

    /// The path of the local file.
    pub closed spec fn local(&self) -> Seq<char> {
        self.local_path@
    }

    /// The path of the file on the remote host.
    pub closed spec fn remote(&self) -> Seq<char> {
        self.remote_path@
    }

    /// The mode that the file gets on the remote host.
    pub closed spec fn mode(&self) -> i32 {
        self.file_mode
    }

    /// Whether the local file is a template.
    pub fn is_template(&self) -> (b: bool)
        ensures
            b == self.templated(),
    {
        self.is_template
    }

    /// The path of the local file.
    pub fn local_path(&self) -> (s: &str)
        ensures
            s@ == self.local(),
    {
        self.local_path.as_str()
    }

    /// The path of the file on the remote host.
    pub fn remote_path(&self) -> (s: &str)
        ensures
            s@ == self.remote(),
    {
        self.remote_path.as_str()
    }

    /// The mode that the file gets on the remote host.
    pub fn file_mode(&self) -> (m: i32)
        ensures
            m == self.mode(),
    {
        self.file_mode
    }

    /// Refuses a local path at which there is no file to send: one at
    /// which nothing exists, or one that names a directory.
    pub fn check_source(&self, exists: bool, is_dir: bool) -> (r: Result<(), Error>)
        ensures
            match r {
                Ok(_) => exists && !is_dir,
                Err(e) => if !exists {
                    e matches Error::FileNotFound(m) && m@ == no_such_file_text(self.local())
                } else {
                    is_dir && (e matches Error::IsADirectory(m) && m@ == is_a_directory_text(
                        self.local(),
                    ))
                },
            },
    {
        if !exists {
            let mut message = String::from_str("No such file: ");
            message.append(self.local_path.as_str());
            Err(Error::FileNotFound(message))
        } else if is_dir {
            let mut message = String::from_str("Path is a directory, not a file: ");
            message.append(self.local_path.as_str());
            Err(Error::IsADirectory(message))
        } else {
            Ok(())
        }
    }
}

} // verus!
