//! What the command line decides once its arguments are read: which path,
//! command and file mode a task gets, and on which hosts it runs.

use crate::error::Error;
use crate::host::Host;
use crate::host_id::{invalid_host_id_text, HostId};
use crate::inventory::{host_by_id, host_views, selected, Inventory};
use crate::mode::{check_mode_string, is_safe_mode_string};
use crate::text::{is_host_id, texts};
use vstd::prelude::*;
use vstd::string::StringExecFns;

verus! {

#[verifier::external_type_specification]
#[verifier::external_body]
pub struct ExModeParseError(file_mode::ModeParseError);

/// The command line that `shell_words::join` makes of a list of words:
/// each word quoted where the shell needs it, with a space between words.
pub uninterp spec fn shell_joined(words: Seq<Seq<char>>) -> Seq<char>;

/// Joins words into one command line (`shell_words::join`). Trusted: the
/// result is the line named by [`shell_joined`].
#[verifier::external_body]
fn shell_join(words: &Vec<String>) -> (line: String)
    ensures
        line@ == shell_joined(texts(words@)),
{
    shell_words::join(words)
}

/// Applies a mode string such as `=755` or `u+x` to the mode `base`
/// (`file_mode::Mode::from`, `Mode::set_str`, `Mode::mode`). The mode
/// string has to be one that `set_str` can be handed: on any other it does
/// not return. Nothing is promised of the result: a symbolic mode string
/// is read against the umask of the process.
#[verifier::external_body]
fn apply_mode_str(base: u32, mode_str: &str) -> Result<u32, file_mode::ModeParseError>
    requires
        is_safe_mode_string(mode_str@),
{
    let mut mode = file_mode::Mode::from(base);
    mode.set_str(mode_str)?;
    Ok(mode.mode())
}

/// The text of a mode parse error (its `Display`). Nothing is promised of
/// the text.
#[verifier::external_body]
fn mode_error_text(e: &file_mode::ModeParseError) -> String {
    format!("{}", e)
}

/// The path given on the command line, or the error for a missing one.
pub fn get_path(arg: Option<&str>) -> (r: Result<String, Error>)
    ensures
        match arg {
            Some(path) => r matches Ok(s) && s@ == path@,
            None => r matches Err(Error::MissingInput(m)) && m@ == "No input file provided"@,
        },
{
    if let Some(path) = arg {
        Ok(String::from_str(path))
    } else {
        Err(Error::MissingInput(String::from_str("No input file provided")))
    }
}

/// The path of the data file, if one was given.
pub fn get_data_path(arg: Option<&str>) -> (r: Option<String>)
    ensures
        match arg {
            Some(path) => r matches Some(s) && s@ == path@,
            None => r is None,
        },
{
    match arg {
        Some(path) => Some(String::from_str(path)),
        None => None,
    }
}

/// The command to run, as one line, made of the words given on the command
/// line.
pub fn get_command(arg: Option<Vec<String>>) -> (command: String)
    requires
        arg is Some,
    ensures
        command@ == shell_joined(texts(arg->0@)),
{
    let words = arg.unwrap();
    shell_join(&words)
}

/// The mode of a file that is uploaded without a mode being asked for.
pub const DEFAULT_FILE_MODE: i32 = 0o644;

/// The file mode as the transport takes it: the mode that came out of the
/// mode string, where it fits, and the error of the mode string otherwise.
pub fn file_mode_value(parsed: Result<u32, String>) -> (r: Result<i32, Error>)
    ensures
        match parsed {
            Ok(mode) => if mode <= i32::MAX {
                r == Ok::<i32, Error>(mode as i32)
            } else {
                r matches Err(Error::Other(m)) && m@ == "File mode is out of range"@
            },
            Err(text) => r matches Err(Error::External(m)) && m@ == text@,
        },
{
    match parsed {
        Ok(mode) => {
            if mode <= 0x7fff_ffff {
                Ok(mode as i32)
            } else {
                Err(Error::Other(String::from_str("File mode is out of range")))
            }
        },
        Err(text) => Err(Error::External(text)),
    }
}

/// The message for a mode string that cannot be read.
pub open spec fn invalid_mode_text(mode_str: Seq<char>) -> Seq<char> {
    "Invalid file mode: "@ + mode_str
}

/// The file mode asked for on the command line; `0644` where none is. A
/// mode string in which something else than permission letters follows an
/// operator is refused. Any other is applied to `0644`: what comes of it
/// is a mode, or the error of the mode string, or the error of a mode that
/// is out of range.
pub fn get_file_mode(arg: Option<&str>) -> (r: Result<i32, Error>)
    ensures
        match arg {
            None => r == Ok::<i32, Error>(DEFAULT_FILE_MODE),
            Some(mode_str) => if is_safe_mode_string(mode_str@) {
                match r {
                    Ok(mode) => mode >= 0,
                    Err(e) => e is External || (e matches Error::Other(m) && m@
                        == "File mode is out of range"@),
                }
            } else {
                r matches Err(Error::Other(m)) && m@ == invalid_mode_text(mode_str@)
            },
        },
{
    match arg {
        None => Ok(DEFAULT_FILE_MODE),
        Some(mode_str) => {
            if !check_mode_string(mode_str) {
                let mut message = String::from_str("Invalid file mode: ");
                message.append(mode_str);
                return Err(Error::Other(message));
            }
            let parsed = match apply_mode_str(0o644, mode_str) {
                Ok(mode) => Ok(mode),
                Err(e) => Err(mode_error_text(&e)),
            };
            file_mode_value(parsed)
        },
    }
}

/// The inventory to work with: the one that was loaded, or an empty one
/// where none was asked for or loading it failed.
pub fn get_inventory(loaded: Option<Result<Inventory, Error>>) -> (inventory: Inventory)
    ensures
        match loaded {
            Some(Ok(found)) => inventory == found,
            _ => inventory@.len() == 0,
        },
{
    match loaded {
        Some(Ok(inventory)) => inventory,
        _ => Inventory::new(),
    }
}

/// What [`get_host_list`] returns. A host identifier selects the first host
/// that has it, or no host; it is checked first, and a tag query is then not
/// looked at. A tag query selects the hosts that match it. Without both,
/// all hosts are selected.
pub open spec fn host_list_chosen(
    inventory: Inventory,
    host_id_arg: Option<&str>,
    host_tags_arg: Option<&str>,
    r: Result<Vec<Host>, Error>,
) -> bool {
    match host_id_arg {
        Some(id) => if is_host_id(id@) {
            r matches Ok(hosts) && host_views(hosts@) == match host_by_id(inventory@, id@) {
                Some(host) => seq![host],
                None => Seq::empty(),
            }
        } else {
            r matches Err(Error::InvalidHostId(m)) && m@ == invalid_host_id_text(id@)
        },
        None => match host_tags_arg {
            Some(query) => selected(inventory@, query@, r),
            None => r matches Ok(hosts) && host_views(hosts@) == inventory@,
        },
    }
}

/// The hosts to run a task on.
pub fn get_host_list(
    inventory: Inventory,
    host_id_arg: Option<&str>,
    host_tags_arg: Option<&str>,
) -> (r: Result<Vec<Host>, Error>)
    ensures
        host_list_chosen(inventory, host_id_arg, host_tags_arg, r),
{
    if let Some(host_id) = host_id_arg {
        let id = match HostId::new(host_id) {
            Ok(id) => id,
            Err(e) => {
                return Err(e);
            },
        };
        let mut hosts: Vec<Host> = Vec::new();
        match inventory.get_host_by_id(id) {
            Some(host) => {
                hosts.push(host);
                assert(host_views(hosts@) =~= seq![host@]);
            },
            None => {
                assert(host_views(hosts@) =~= Seq::empty());
            },
        }
        return Ok(hosts);
    }
    if let Some(host_tags) = host_tags_arg {
        return inventory.get_hosts_by_tags(String::from_str(host_tags));
    }
    Ok(inventory.hosts)
}

} // verus!
