//! Inventory documents.
//!
//! An inventory is written as a table with the list `hosts`; a host is a
//! table with the strings `id` and `address` and, if they are given, the
//! string `user`, the list of strings `tags` and the table `vars`:
//!
//! ```text
//! {"hosts": [
//!   {"id": "localhost", "address": "localhost:22", "user": "root",
//!    "tags": ["local"], "vars": {"foo": "bar"}}
//! ]}
//! ```
//!
//! The same document may come as TOML or as JSON; here it has been read
//! already and is a [`Json`] value. Members that are not named above are
//! passed over.

use crate::error::Error;
use crate::host::{record_views, HostRecord, RecordView};
use crate::inventory::{inventory_made, Inventory};
use crate::json::{items_of, lookup, Json, JsonMap, JsonView, Members};
use crate::text::texts;
use vstd::prelude::*;
use vstd::string::StringExecFns;

verus! {

/// The message for a member that has to be a string and is none.
pub open spec fn not_a_string_text(name: Seq<char>) -> Seq<char> {
    "`"@ + name + "` is not a string"@
}

/// The message for a member that has to be there and is not.
pub open spec fn missing_field_text(name: Seq<char>) -> Seq<char> {
    "missing field `"@ + name + "`"@
}

/// The string under `name`, if the member is there.
pub open spec fn text_member(m: Members, name: Seq<char>) -> Result<Option<Seq<char>>, Seq<char>> {
    match lookup(m, name) {
        None => Ok(None),
        Some(JsonView::Str(t)) => Ok(Some(t)),
        Some(_) => Err(not_a_string_text(name)),
    }
}

/// The string under `name`, which has to be there.
pub open spec fn required_member(m: Members, name: Seq<char>) -> Result<Seq<char>, Seq<char>> {
    match text_member(m, name) {
        Ok(Some(t)) => Ok(t),
        Ok(None) => Err(missing_field_text(name)),
        Err(e) => Err(e),
    }
}

/// The position of the first item from `i` on that is no string; the
/// length of the list if all are strings.
pub open spec fn first_non_text(items: Seq<JsonView>, i: int) -> int
    decreases items.len() - i,
{
    if i < 0 || i >= items.len() {
        items.len() as int
    } else if !(items[i] is Str) {
        i
    } else {
        first_non_text(items, i + 1)
    }
}

/// The tags of a host, if the member is there.
pub open spec fn tags_member(m: Members) -> Result<Option<Seq<Seq<char>>>, Seq<char>> {
    match lookup(m, "tags"@) {
        None => Ok(None),
        Some(JsonView::Array(items)) => if first_non_text(items, 0) < items.len() {
            Err("a tag is not a string"@)
        } else {
            Ok(Some(Seq::new(items.len(), |i: int| items[i]->Str_0)))
        },
        Some(_) => Err("`tags` is not a list"@),
    }
}

/// The variables of a host, if the member is there.
pub open spec fn vars_member(m: Members) -> Result<Option<Members>, Seq<char>> {
    match lookup(m, "vars"@) {
        None => Ok(None),
        Some(JsonView::Object(vars)) => Ok(Some(vars)),
        Some(_) => Err("`vars` is not a table"@),
    }
}

/// The record that a host of a document stands for, or what is wrong with
/// its form. The members are looked at in the order `id`, `address`,
/// `user`, `tags`, `vars`.
pub open spec fn record_of(value: JsonView) -> Result<RecordView, Seq<char>> {
    match value {
        JsonView::Object(m) => match required_member(m, "id"@) {
            Err(e) => Err(e),
            Ok(id) => match required_member(m, "address"@) {
                Err(e) => Err(e),
                Ok(address) => match text_member(m, "user"@) {
                    Err(e) => Err(e),
                    Ok(user) => match tags_member(m) {
                        Err(e) => Err(e),
                        Ok(tags) => match vars_member(m) {
                            Err(e) => Err(e),
                            Ok(vars) => Ok(RecordView { id, address, user, tags, vars }),
                        },
                    },
                },
            },
        },
        _ => Err("a host is not a table"@),
    }
}

/// The position of the first host from `i` on whose form is wrong; the
/// length of the list if there is none.
pub open spec fn first_malformed(items: Seq<JsonView>, i: int) -> int
    decreases items.len() - i,
{
    if i < 0 || i >= items.len() {
        items.len() as int
    } else if record_of(items[i]) is Err {
        i
    } else {
        first_malformed(items, i + 1)
    }
}

/// The records of the hosts of a document, or what is wrong with the form
/// of the document: with its first host whose form is wrong, if the
/// document itself is a table with a list of hosts. A document without
/// `hosts` has no hosts.
pub open spec fn records_of(document: JsonView) -> Result<Seq<RecordView>, Seq<char>> {
    match document {
        JsonView::Object(m) => match lookup(m, "hosts"@) {
            None => Ok(Seq::empty()),
            Some(JsonView::Array(items)) => {
                let bad = first_malformed(items, 0);
                if bad < items.len() {
                    Err(record_of(items[bad])->Err_0)
                } else {
                    Ok(Seq::new(items.len(), |i: int| record_of(items[i])->Ok_0))
                }
            },
            Some(_) => Err("`hosts` is not a list"@),
        },
        _ => Err("the inventory is not a table"@),
    }
}

/// An executable result agrees with a mathematical one: the same value, or
/// an error of the kind `Other` with the same message.
pub open spec fn read_as<T: View>(r: Result<T, Error>, expected: Result<T::V, Seq<char>>) -> bool {
    match expected {
        Ok(v) => r matches Ok(x) && x@ == v,
        Err(text) => r matches Err(Error::Other(m)) && m@ == text,
    }
}

/// What [`Inventory::from_document`] returns: an error of the kind `Other`
/// for a document whose form is wrong; otherwise the inventory of its
/// hosts, or the error of the first host with an invalid identifier or
/// tag.
pub open spec fn document_read(document: JsonView, r: Result<Inventory, Error>) -> bool {
    match records_of(document) {
        Ok(records) => inventory_made(records, r),
        Err(text) => r matches Err(Error::Other(m)) && m@ == text,
    }
}

fn malformed(text: &str) -> (e: Error)
    ensures
        e matches Error::Other(m) && m@ == text@,
{
    Error::Other(String::from_str(text))
}

fn text_of(m: &JsonMap, name: &str) -> (r: Result<Option<String>, Error>)
    ensures
        match text_member(m@, name@) {
            Ok(Some(t)) => r matches Ok(Some(s)) && s@ == t,
            Ok(None) => r matches Ok(None),
            Err(text) => r matches Err(Error::Other(msg)) && msg@ == text,
        },
{
    match m.get(name) {
        None => Ok(None),
        Some(value) => match value.as_str() {
            Some(s) => Ok(Some(String::from_str(s))),
            None => {
                let mut message = String::from_str("`");
                message.append(name);
                message.append("` is not a string");
                Err(Error::Other(message))
            },
        },
    }
}

fn required(m: &JsonMap, name: &str) -> (r: Result<String, Error>)
    ensures
        match required_member(m@, name@) {
            Ok(t) => r matches Ok(s) && s@ == t,
            Err(text) => r matches Err(Error::Other(msg)) && msg@ == text,
        },
{
    match text_of(m, name) {
        Ok(Some(s)) => Ok(s),
        Ok(None) => {
            let mut message = String::from_str("missing field `");
            message.append(name);
            message.append("`");
            Err(Error::Other(message))
        },
        Err(e) => Err(e),
    }
}

fn tags_of(m: &JsonMap) -> (r: Result<Option<Vec<String>>, Error>)
    ensures
        match tags_member(m@) {
            Ok(Some(tags)) => r matches Ok(Some(v)) && texts(v@) == tags,
            Ok(None) => r matches Ok(None),
            Err(text) => r matches Err(Error::Other(msg)) && msg@ == text,
        },
{
    let items = match m.get("tags") {
        None => {
            return Ok(None);
        },
        Some(value) => match value.as_array() {
            Some(items) => items,
            None => {
                return Err(malformed("`tags` is not a list"));
            },
        },
    };
    let ghost views = items_of(items@);
    let mut tags: Vec<String> = Vec::new();
    let mut i: usize = 0;
    while i < items.len()
        invariant
            i <= items.len(),
            views == items_of(items@),
            lookup(m@, "tags"@) == Some(JsonView::Array(views)),
            first_non_text(views, 0) == first_non_text(views, i as int),
            tags.len() == i,
            forall|k: int| 0 <= k < i ==> (#[trigger] tags@[k])@ == views[k]->Str_0,
        decreases items.len() - i,
    {
        match items[i].as_str() {
            Some(s) => {
                tags.push(String::from_str(s));
            },
            None => {
                return Err(malformed("a tag is not a string"));
            },
        }
        i += 1;
    }
    assert(texts(tags@) =~= Seq::new(views.len(), |i: int| views[i]->Str_0));
    Ok(Some(tags))
}

fn vars_of(m: &JsonMap) -> (r: Result<Option<JsonMap>, Error>)
    ensures
        match vars_member(m@) {
            Ok(Some(vars)) => r matches Ok(Some(v)) && v@ == vars,
            Ok(None) => r matches Ok(None),
            Err(text) => r matches Err(Error::Other(msg)) && msg@ == text,
        },
{
    match m.get("vars") {
        None => Ok(None),
        Some(value) => match value.as_object() {
            Some(vars) => Ok(Some(vars.clone())),
            None => Err(malformed("`vars` is not a table")),
        },
    }
}

impl HostRecord {
    /// Reads the record of a host of a document.
    pub fn from_json(value: &Json) -> (r: Result<HostRecord, Error>)
        ensures
            read_as(r, record_of(value@)),
    {
        let m = match value.as_object() {
            Some(m) => m,
            None => {
                return Err(malformed("a host is not a table"));
            },
        };
        let id = match required(m, "id") {
            Ok(id) => id,
            Err(e) => {
                return Err(e);
            },
        };
        let address = match required(m, "address") {
            Ok(address) => address,
            Err(e) => {
                return Err(e);
            },
        };
        let user = match text_of(m, "user") {
            Ok(user) => user,
            Err(e) => {
                return Err(e);
            },
        };
        let tags = match tags_of(m) {
            Ok(tags) => tags,
            Err(e) => {
                return Err(e);
            },
        };
        let vars = match vars_of(m) {
            Ok(vars) => vars,
            Err(e) => {
                return Err(e);
            },
        };
        Ok(HostRecord { id, address, user, tags, vars })
    }
}

impl Inventory {
    /// Reads the records of the hosts of a document.
    pub fn records_of(document: &Json) -> (r: Result<Vec<HostRecord>, Error>)
        ensures
            match records_of(document@) {
                Ok(records) => r matches Ok(v) && record_views(v@) == records,
                Err(text) => r matches Err(Error::Other(m)) && m@ == text,
            },
    {
        let m = match document.as_object() {
            Some(m) => m,
            None => {
                return Err(malformed("the inventory is not a table"));
            },
        };
        let items = match m.get("hosts") {
            None => {
                let none: Vec<HostRecord> = Vec::new();
                assert(record_views(none@) =~= Seq::empty());
                return Ok(none);
            },
            Some(value) => match value.as_array() {
                Some(items) => items,
                None => {
                    return Err(malformed("`hosts` is not a list"));
                },
            },
        };
        let ghost views = items_of(items@);
        let mut records: Vec<HostRecord> = Vec::new();
        let mut i: usize = 0;
        while i < items.len()
            invariant
                i <= items.len(),
                views == items_of(items@),
                document@ == JsonView::Object(m@),
                lookup(m@, "hosts"@) == Some(JsonView::Array(views)),
                first_malformed(views, 0) == first_malformed(views, i as int),
                records.len() == i,
                forall|k: int|
                    0 <= k < i ==> record_of(views[k]) == Ok::<RecordView, Seq<char>>(
                        (#[trigger] records@[k])@,
                    ),
            decreases items.len() - i,
        {
            match HostRecord::from_json(&items[i]) {
                Ok(record) => {
                    records.push(record);
                },
                Err(e) => {
                    return Err(e);
                },
            }
            i += 1;
        }
        assert(record_views(records@) =~= Seq::new(
            views.len(),
            |i: int| record_of(views[i])->Ok_0,
        ));
        Ok(records)
    }

    /// Makes an inventory of a document. `hosts` defaults to the empty
    /// list, the user of a host to `root`, its tags and variables to none;
    /// the identifier and the tags of every host are checked, so that an
    /// invalid document is refused when it is loaded, not when it is used.
    pub fn from_document(document: &Json) -> (r: Result<Inventory, Error>)
        ensures
            document_read(document@, r),
    {
        match Inventory::records_of(document) {
            Ok(records) => Inventory::from_records(records),
            Err(e) => Err(e),
        }
    }
}

} // verus!
