//! Download a file from a remote host.
//!
//! The file of each host is written below a directory named after the
//! host, so the local path has to be relative: the file of the host `web-1`
//! goes to `{directory}/web-1/{local_path}`. Paths are written with `/`.

use crate::error::Error;
use crate::host::Host;
use crate::json::{upsert_at_end, Json, JsonMap, JsonView, Members};
use crate::text::{before_at, is_host_id, is_id_char, to_chars};
use vstd::prelude::*;
use vstd::string::StringExecFns;

verus! {

/// Describe a `download` task
pub struct Task {
    /// Path to file on remote
    remote_path: String,
    /// Relative path on local machine to download the file to.
    ///
    /// The full path will be `{pwd}/{host.id}/{local_path}`.
    local_path: String,
}

/// A path that starts at the root.
pub open spec fn is_absolute_path(path: Seq<char>) -> bool {
    path.len() > 0 && path[0] == '/'
}

/// The path `part` below the directory `base`: the two with a `/` between
/// them, unless `base` is empty or ends in one.
pub open spec fn joined(base: Seq<char>, part: Seq<char>) -> Seq<char> {
    if base.len() == 0 || base.last() == '/' {
        base + part
    } else {
        base + "/"@ + part
    }
}

/// Where the file of a host is written: at the local path, below the
/// directory of the host, below `directory`.
pub open spec fn destination_of(directory: Seq<char>, id: Seq<char>, local: Seq<char>) -> Seq<
    char,
> {
    joined(joined(directory, id), local)
}

/// The file of a host always lies in the directory that is named after the
/// host: the local path follows the identifier and a `/`.
pub proof fn destination_is_scoped(directory: Seq<char>, id: Seq<char>, local: Seq<char>)
    requires
        is_host_id(id),
    ensures
        destination_of(directory, id, local) == joined(directory, id) + "/"@ + local,
{
    reveal_strlit("/");
    let below = joined(directory, id);
    assert(below.last() == id.last());
    assert(is_id_char(id[id.len() - 1]));
}

/// The message for a local path that is absolute.
pub open spec fn absolute_path_text() -> Seq<char> {
    "Local path should be a relative path, not absolute"@
}

/// What [`Task::destination`] returns: an error for a local path that is
/// absolute, and for any other the path below the directory of the host.
pub open spec fn destined(
    local: Seq<char>,
    directory: Seq<char>,
    id: Seq<char>,
    r: Result<String, Error>,
) -> bool {
    if is_absolute_path(local) {
        r matches Err(Error::IsAbsolute(m)) && m@ == absolute_path_text()
    } else {
        r matches Ok(path) && path@ == destination_of(directory, id, local)
    }
}

/// The path `part` below the directory `base`.
pub fn join(base: &str, part: &str) -> (path: String)
    ensures
        path@ == joined(base@, part@),
{
    let chars = to_chars(base);
    let mut path = String::from_str(base);
    if chars.len() > 0 && chars[chars.len() - 1] != '/' {
        path.append("/");
    }
    path.append(part);
    proof {
        reveal_strlit("/");
        assert("/"@ =~= seq!['/']);
        if base@.len() == 0 || base@.last() == '/' {
            assert(path@ =~= base@ + part@);
        } else {
            assert(path@ =~= base@ + "/"@ + part@);
        }
    }
    path
}

/// What is reported of a file that was downloaded.
pub open spec fn download_report(file_path: Seq<char>, file_size: int) -> JsonView {
    JsonView::Object(
        seq![("file_path"@, JsonView::Str(file_path)), ("file_size"@, JsonView::Int(file_size))],
    )
}

/// What is reported of a file that was downloaded.
pub fn report(file_path: String, file_size: u64) -> (j: Json)
    ensures
        j@ == download_report(file_path@, file_size as int),
{
    let mut record = JsonMap::new();
    proof {
        reveal_strlit("file_path");
        reveal_strlit("file_size");
        before_at("file_path"@, "file_size"@, 5);
        upsert_at_end(Members::empty(), "file_path"@, JsonView::Str(file_path@));
        upsert_at_end(
            seq![("file_path"@, JsonView::Str(file_path@))],
            "file_size"@,
            JsonView::Int(file_size as int),
        );
    }
    record.insert(String::from_str("file_path"), Json::Str(file_path));
    assert(record@ =~= seq![("file_path"@, JsonView::Str(file_path@))]);
    record.insert(String::from_str("file_size"), Json::Int(file_size as i128));
    assert(record@ =~= download_report(file_path@, file_size as int)->Object_0);
    Json::Object(record)
}

impl Task {
    pub fn new(remote_path: String, local_path: String) -> (task: Self)
        ensures
            task.remote() == remote_path@,
            task.local() == local_path@,
    {
        Self { remote_path, local_path }
    }

    /// The path of the file on the remote host.
    pub closed spec fn remote(&self) -> Seq<char> {
        self.remote_path@
    }

    /// The path below the host's directory to which the file is written.
    pub closed spec fn local(&self) -> Seq<char> {
        self.local_path@
    }

    /// The path of the file on the remote host.
    pub fn remote_path(&self) -> (s: &str)
        ensures
            s@ == self.remote(),
    {
        self.remote_path.as_str()
    }

    /// The path below the host's directory to which the file is written.
    pub fn local_path(&self) -> (s: &str)
        ensures
            s@ == self.local(),
    {
        self.local_path.as_str()
    }

    /// Refuses a local path that is absolute.
    pub fn check_destination(&self) -> (r: Result<(), Error>)
        ensures
            match r {
                Ok(_) => !is_absolute_path(self.local()),
                Err(e) => is_absolute_path(self.local()) && (e matches Error::IsAbsolute(m) && m@
                    == absolute_path_text()),
            },
    {
        let chars = to_chars(self.local_path.as_str());
        if chars.len() > 0 && chars[0] == '/' {
            Err(
                Error::IsAbsolute(
                    String::from_str("Local path should be a relative path, not absolute"),
                ),
            )
        } else {
            Ok(())
        }
    }

    /// Where the file of `host` is written when the files of all hosts go
    /// below `directory`.
    pub fn destination(&self, directory: &str, host: &Host) -> (r: Result<String, Error>)
        ensures
            destined(self.local(), directory@, host@.id, r),
    {
        match self.check_destination() {
            Ok(_) => {
                let below = join(directory, host.id.as_str());
                Ok(join(below.as_str(), self.local_path.as_str()))
            },
            Err(e) => Err(e),
        }
    }
}

} // verus!
