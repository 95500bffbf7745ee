//! Host identifiers.

use crate::error::Error;
use crate::text::{check_host_id, is_host_id, is_id_char, is_id_start};
use vstd::prelude::*;
use vstd::std_specs::cmp::PartialEqSpecImpl;
use vstd::string::StringExecFns;

verus! {

/// The identifier of a host: a letter, digit or underscore, followed by
/// letters, digits, underscores and hyphens. The key by which a host is
/// looked up.
#[derive(Debug)]
pub struct HostId(String);

/// The message of the error for a string that is no host identifier.
pub open spec fn invalid_host_id_text(src: Seq<char>) -> Seq<char> {
    "ID "@ + src + " does not match regex ^[a-zA-Z0-9_][a-zA-Z0-9_\\-]*$"@
}

/// What [`HostId::new`] returns on `src`.
pub open spec fn host_id_made(src: Seq<char>, r: Result<HostId, Error>) -> bool {
    if is_host_id(src) {
        r matches Ok(id) && id@ == src
    } else {
        r matches Err(Error::InvalidHostId(m)) && m@ == invalid_host_id_text(src)
    }
}

impl View for HostId {
    type V = Seq<char>;

    closed spec fn view(&self) -> Seq<char> {
        self.0@
    }
}

impl HostId {
    #[verifier::type_invariant]
    spec fn well_formed(self) -> bool {
        is_host_id(self.0@)
    }

    /// Create a new host identifier from a string.
    pub fn new(src: &str) -> (r: Result<Self, Error>)
        ensures
            host_id_made(src@, r),
    {
        if check_host_id(src) {
            Ok(HostId(String::from_str(src)))
        } else {
            let mut message = String::from_str("ID ");
            message.append(src);
            message.append(" does not match regex ^[a-zA-Z0-9_][a-zA-Z0-9_\\-]*$");
            Err(Error::InvalidHostId(message))
        }
    }

    /// Return the underlying string
    pub fn to_string(self) -> (s: String)
        ensures
            s@ == self@,
            is_host_id(s@),
    {
        proof {
            use_type_invariant(&self);
        }
        self.0
    }

    /// The identifier as a string slice.
    pub fn as_str(&self) -> (s: &str)
        ensures
            s@ == self@,
            is_host_id(s@),
    {
        proof {
            use_type_invariant(self);
        }
        self.0.as_str()
    }
}

impl Clone for HostId {
    fn clone(&self) -> (r: Self)
        ensures
            r == *self,
    {
        proof {
            use_type_invariant(self);
        }
        HostId(self.0.clone())
    }
}

impl PartialEq for HostId {
    fn eq(&self, other: &Self) -> (r: bool) {
        self.0 == other.0
    }
}

impl Eq for HostId {

}

impl PartialEqSpecImpl for HostId {
    open spec fn obeys_eq_spec() -> bool {
        true
    }

    open spec fn eq_spec(&self, other: &Self) -> bool {
        self@ == other@
    }
}

/// A string is accepted as a host identifier exactly when it follows the
/// grammar of identifiers, and the identifier made from it then reads back
/// as that string.
pub proof fn host_id_round_trip(src: Seq<char>, r: Result<HostId, Error>)
    requires
        host_id_made(src, r),
    ensures
        r is Ok <==> is_host_id(src),
        r matches Ok(id) ==> id@ == src,
{
}

/// A string with a character that an identifier cannot hold at its place is
/// no host identifier.
pub proof fn host_id_rejects(src: Seq<char>, i: int)
    requires
        0 <= i < src.len(),
        !is_id_char(src[i]) || (i == 0 && !is_id_start(src[i])),
    ensures
        !is_host_id(src),
{
}

} // verus!
