//! Host tags.

use crate::error::Error;
use crate::text::{check_tag, is_tag, is_tag_char};
use vstd::prelude::*;
use vstd::std_specs::cmp::PartialEqSpecImpl;
use vstd::string::StringExecFns;

verus! {

/// A tag of a host: one or more characters, none of them `!`, `&`, `|`,
/// `(`, `)` or white space. Tags are the atoms of tag queries.
#[derive(Debug)]
pub struct HostTag(String);

/// The message of the error for a string that is no host tag.
pub open spec fn invalid_host_tag_text(src: Seq<char>) -> Seq<char> {
    "Tag "@ + src + " does not match regex ^[^!\\&\\|\\t\\n\\r\\f\\(\\) ]+$"@
}

/// What [`HostTag::new`] returns on `src`.
pub open spec fn host_tag_made(src: Seq<char>, r: Result<HostTag, Error>) -> bool {
    if is_tag(src) {
        r matches Ok(tag) && tag@ == src
    } else {
        r matches Err(Error::InvalidHostTag(m)) && m@ == invalid_host_tag_text(src)
    }
}

impl View for HostTag {
    type V = Seq<char>;

    closed spec fn view(&self) -> Seq<char> {
        self.0@
    }
}

impl HostTag {
    #[verifier::type_invariant]
    spec fn well_formed(self) -> bool {
        is_tag(self.0@)
    }

    /// Create a new host tag from a string.
    pub fn new(src: &str) -> (r: Result<Self, Error>)
        ensures
            host_tag_made(src@, r),
    {
        if check_tag(src) {
            Ok(HostTag(String::from_str(src)))
        } else {
            let mut message = String::from_str("Tag ");
            message.append(src);
            message.append(" does not match regex ^[^!\\&\\|\\t\\n\\r\\f\\(\\) ]+$");
            Err(Error::InvalidHostTag(message))
        }
    }

    /// Return the underlying string
    pub fn to_string(self) -> (s: String)
        ensures
            s@ == self@,
            is_tag(s@),
    {
        proof {
            use_type_invariant(&self);
        }
        self.0
    }

    /// The tag as a string slice.
    pub fn as_str(&self) -> (s: &str)
        ensures
            s@ == self@,
            is_tag(s@),
    {
        proof {
            use_type_invariant(self);
        }
        self.0.as_str()
    }
}

impl Clone for HostTag {
    fn clone(&self) -> (r: Self)
        ensures
            r == *self,
    {
        proof {
            use_type_invariant(self);
        }
        HostTag(self.0.clone())
    }
}

impl PartialEq for HostTag {
    fn eq(&self, other: &Self) -> (r: bool) {
        self.0 == other.0
    }
}

impl Eq for HostTag {

}

impl PartialEqSpecImpl for HostTag {
    open spec fn obeys_eq_spec() -> bool {
        true
    }

    open spec fn eq_spec(&self, other: &Self) -> bool {
        self@ == other@
    }
}

/// A string is accepted as a host tag exactly when it is a tag of the query
/// language, and the tag made from it then reads back as that string.
pub proof fn host_tag_round_trip(src: Seq<char>, r: Result<HostTag, Error>)
    requires
        host_tag_made(src, r),
    ensures
        r is Ok <==> is_tag(src),
        r matches Ok(tag) ==> tag@ == src,
{
}

/// The empty string is no tag, nor is a string that holds a reserved
/// character or white space.
pub proof fn host_tag_rejects(src: Seq<char>, i: int)
    requires
        src.len() == 0 || (0 <= i < src.len() && !is_tag_char(src[i])),
    ensures
        !is_tag(src),
{
}

} // verus!
