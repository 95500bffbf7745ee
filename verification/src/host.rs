//! The hosts of an inventory.

use crate::error::Error;
use crate::host_id::{host_id_made, invalid_host_id_text, HostId};
use crate::host_tag::{host_tag_made, invalid_host_tag_text, HostTag};
use crate::json::{upsert, upsert_at_end, without, Json, JsonMap, JsonView, Members};
use crate::text::{before_at, is_host_id, is_tag, text_before, texts};
use vstd::prelude::*;
use vstd::string::StringExecFns;

verus! {

/// Abstraction of a host found in the inventory
#[derive(Debug, PartialEq, Eq)]
pub struct Host {
    /// Host identifier
    pub id: HostId,
    /// Address of the host in the form of `hostname:port`
    pub address: String,
    /// User to authenticate with (defaults to `root`)
    pub user: String,
    /// Tags used to apply commands on a subset of hosts from the inventory (defaults to `[]`)
    pub tags: Vec<HostTag>,
    /// Variables specific to this host, used by templates (defaults to `{}`)
    pub vars: JsonMap,
}

/// A host as a mathematical value.
pub ghost struct HostView {
    pub id: Seq<char>,
    pub address: Seq<char>,
    pub user: Seq<char>,
    pub tags: Seq<Seq<char>>,
    pub vars: Members,
}

/// The texts of a list of tags.
pub open spec fn tag_views(tags: Seq<HostTag>) -> Seq<Seq<char>> {
    Seq::new(tags.len(), |i: int| tags[i]@)
}

impl View for Host {
    type V = HostView;

    open spec fn view(&self) -> HostView {
        HostView {
            id: self.id@,
            address: self.address@,
            user: self.user@,
            tags: tag_views(self.tags@),
            vars: self.vars@,
        }
    }
}

impl HostView {
    /// The host that `Host::new` makes: user `root`, no tags, no variables.
    pub open spec fn fresh(id: Seq<char>, address: Seq<char>) -> HostView {
        HostView { id, address, user: "root"@, tags: Seq::empty(), vars: Members::empty() }
    }

    pub open spec fn with_user(self, user: Seq<char>) -> HostView {
        HostView { user, ..self }
    }

    pub open spec fn with_tag(self, tag: Seq<char>) -> HostView {
        HostView { tags: self.tags.push(tag), ..self }
    }

    pub open spec fn without_tag(self, tag: Seq<char>) -> HostView {
        HostView { tags: self.tags.filter(|t: Seq<char>| t != tag), ..self }
    }

    pub open spec fn with_var(self, key: Seq<char>, val: JsonView) -> HostView {
        HostView { vars: upsert(self.vars, key, val), ..self }
    }

    pub open spec fn without_var(self, key: Seq<char>) -> HostView {
        HostView { vars: without(self.vars, key), ..self }
    }
}

impl Host {
    /// Shortcut to `HostId::new()`
    pub fn id(src: &str) -> (r: Result<HostId, Error>)
        ensures
            host_id_made(src@, r),
    {
        HostId::new(src)
    }

    /// Shortcut to `HostTag::new()`
    pub fn tag(src: &str) -> (r: Result<HostTag, Error>)
        ensures
            host_tag_made(src@, r),
    {
        HostTag::new(src)
    }

    /// The user of a host for which none is given.
    pub fn default_user() -> (user: String)
        ensures
            user@ == "root"@,
    {
        String::from_str("root")
    }

    /// The tags of a host for which none are given.
    pub fn default_tags() -> (tags: Vec<HostTag>)
        ensures
            tags@.len() == 0,
    {
        Vec::new()
    }

    /// The variables of a host for which none are given.
    pub fn default_vars() -> (vars: JsonMap)
        ensures
            vars@ == Members::empty(),
    {
        JsonMap::new()
    }

    /// Create a new host
    pub fn new(id: HostId, address: String) -> (host: Self)
        ensures
            host@ == HostView::fresh(id@, address@),
    {
        let host = Host {
            id,
            address,
            user: Host::default_user(),
            tags: Host::default_tags(),
            vars: Host::default_vars(),
        };
        assert(tag_views(host.tags@) =~= Seq::empty());
        host
    }

    /// Override this host's user
    pub fn set_user(&mut self, user: String) -> (r: &mut Self)
        ensures
            r@ == old(self)@.with_user(user@),
            *final(self) == *final(r),
    {
        self.user = user;
        self
    }

    /// Add tag to this host
    pub fn add_tag(&mut self, tag: HostTag) -> (r: &mut Self)
        ensures
            r@ == old(self)@.with_tag(tag@),
            *final(self) == *final(r),
    {
        let ghost before = tag_views(self.tags@);
        self.tags.push(tag);
        assert(tag_views(self.tags@) =~= before.push(tag@));
        self
    }

    /// Remove tag from this host
    pub fn remove_tag(&mut self, tag: HostTag) -> (r: &mut Self)
        ensures
            r@ == old(self)@.without_tag(tag@),
            *final(self) == *final(r),
    {
        let ghost keep = |t: Seq<char>| t != tag@;
        let ghost before = tag_views(self.tags@);
        let mut kept: Vec<HostTag> = Vec::new();
        let mut i: usize = 0;
        proof {
            reveal(Seq::filter);
            assert(before.take(0) =~= Seq::empty());
            assert(tag_views(kept@) =~= Seq::empty());
        }
        while i < self.tags.len()
            invariant
                i <= self.tags.len(),
                before == tag_views(self.tags@),
                keep == |t: Seq<char>| t != tag@,
                tag_views(kept@) == before.take(i as int).filter(keep),
            decreases self.tags.len() - i,
        {
            let ghost so_far = tag_views(kept@);
            proof {
                reveal(Seq::filter);
                assert(before.take(i + 1).drop_last() =~= before.take(i as int));
            }
            if self.tags[i] != tag {
                kept.push(self.tags[i].clone());
                assert(tag_views(kept@) =~= so_far.push(before[i as int]));
            }
            i += 1;
        }
        assert(before.take(i as int) =~= before);
        self.tags = kept;
        self
    }

    /// Set host variable
    pub fn set_var(&mut self, key: String, val: Json) -> (r: &mut Self)
        ensures
            r@ == old(self)@.with_var(key@, val@),
            *final(self) == *final(r),
    {
        self.vars.insert(key, val);
        self
    }

    /// Remove host variable
    pub fn remove_var(&mut self, key: String) -> (r: &mut Self)
        ensures
            r@ == old(self)@.without_var(key@),
            *final(self) == *final(r),
    {
        self.vars.remove(key.as_str());
        self
    }

    /// The texts of this host's tags, in order.
    pub fn tag_names(&self) -> (names: Vec<String>)
        ensures
            texts(names@) == self@.tags,
    {
        let mut names: Vec<String> = Vec::new();
        let mut i: usize = 0;
        while i < self.tags.len()
            invariant
                i <= self.tags.len(),
                names.len() == i,
                forall|k: int| 0 <= k < i ==> (#[trigger] names@[k])@ == self.tags@[k]@,
            decreases self.tags.len() - i,
        {
            names.push(self.tags[i].clone().to_string());
            i += 1;
        }
        assert(texts(names@) =~= tag_views(self.tags@));
        names
    }
}

/// A host as an inventory document describes it, before anything is
/// checked: plain strings, and `None` for what the document leaves out.
#[derive(Debug, PartialEq, Eq)]
pub struct HostRecord {
    pub id: String,
    pub address: String,
    pub user: Option<String>,
    pub tags: Option<Vec<String>>,
    pub vars: Option<JsonMap>,
}

/// The position of the first string from `i` on that is no tag; the length
/// of the list if all are tags.
pub open spec fn first_bad_tag(tags: Seq<Seq<char>>, i: int) -> int
    decreases tags.len() - i,
{
    if i < 0 || i >= tags.len() {
        tags.len() as int
    } else if !is_tag(tags[i]) {
        i
    } else {
        first_bad_tag(tags, i + 1)
    }
}

/// `first_bad_tag` stays within the list.
pub proof fn lemma_first_bad_tag(tags: Seq<Seq<char>>, i: int)
    requires
        0 <= i <= tags.len(),
    ensures
        i <= first_bad_tag(tags, i) <= tags.len(),
        first_bad_tag(tags, i) < tags.len() ==> !is_tag(tags[first_bad_tag(tags, i)]),
        forall|j: int| i <= j < first_bad_tag(tags, i) ==> is_tag(#[trigger] tags[j]),
    decreases tags.len() - i,
{
    if i < tags.len() && is_tag(tags[i]) {
        lemma_first_bad_tag(tags, i + 1);
    }
}

/// A host record as a mathematical value.
pub ghost struct RecordView {
    pub id: Seq<char>,
    pub address: Seq<char>,
    pub user: Option<Seq<char>>,
    pub tags: Option<Seq<Seq<char>>>,
    pub vars: Option<Members>,
}

impl View for HostRecord {
    type V = RecordView;

    open spec fn view(&self) -> RecordView {
        RecordView {
            id: self.id@,
            address: self.address@,
            user: match self.user {
                Some(user) => Some(user@),
                None => None,
            },
            tags: match self.tags {
                Some(tags) => Some(texts(tags@)),
                None => None,
            },
            vars: match self.vars {
                Some(vars) => Some(vars@),
                None => None,
            },
        }
    }
}

/// The records of a list, as mathematical values.
pub open spec fn record_views(records: Seq<HostRecord>) -> Seq<RecordView> {
    Seq::new(records.len(), |i: int| records[i]@)
}

impl RecordView {
    /// The tags that the record names; none where it leaves them out.
    pub open spec fn tag_list(self) -> Seq<Seq<char>> {
        match self.tags {
            Some(tags) => tags,
            None => Seq::empty(),
        }
    }

    /// The host that the record describes, with `root` as the user and no
    /// tags and variables where the record leaves them out.
    pub open spec fn host(self) -> HostView {
        HostView {
            id: self.id,
            address: self.address,
            user: match self.user {
                Some(user) => user,
                None => "root"@,
            },
            tags: self.tag_list(),
            vars: match self.vars {
                Some(vars) => vars,
                None => Members::empty(),
            },
        }
    }

    /// Whether the identifier and all tags of the record are valid.
    pub open spec fn valid(self) -> bool {
        is_host_id(self.id) && first_bad_tag(self.tag_list(), 0) == self.tag_list().len()
    }
}

/// What [`Host::from_record`] returns: the host of a valid record; for any
/// other record the error of its identifier or else of its first invalid
/// tag.
pub open spec fn host_made(record: RecordView, r: Result<Host, Error>) -> bool {
    if !is_host_id(record.id) {
        r matches Err(Error::InvalidHostId(m)) && m@ == invalid_host_id_text(record.id)
    } else {
        let bad = first_bad_tag(record.tag_list(), 0);
        if bad < record.tag_list().len() {
            r matches Err(Error::InvalidHostTag(m)) && m@ == invalid_host_tag_text(
                record.tag_list()[bad],
            )
        } else {
            r matches Ok(host) && host@ == record.host()
        }
    }
}

/// The tags of a host as JSON strings.
pub open spec fn tags_json(tags: Seq<Seq<char>>) -> Seq<JsonView> {
    Seq::new(tags.len(), |i: int| JsonView::Str(tags[i]))
}

/// The host as a JSON object, as it stands in reports.
pub open spec fn host_json(host: HostView) -> JsonView {
    JsonView::Object(
        seq![
            ("address"@, JsonView::Str(host.address)),
            ("id"@, JsonView::Str(host.id)),
            ("tags"@, JsonView::Array(tags_json(host.tags))),
            ("user"@, JsonView::Str(host.user)),
            ("vars"@, JsonView::Object(host.vars)),
        ],
    )
}

/// The member names of a host object in their order.
proof fn lemma_host_order()
    ensures
        text_before("address"@, "id"@),
        text_before("address"@, "tags"@),
        text_before("address"@, "user"@),
        text_before("address"@, "vars"@),
        text_before("id"@, "tags"@),
        text_before("id"@, "user"@),
        text_before("id"@, "vars"@),
        text_before("tags"@, "user"@),
        text_before("tags"@, "vars"@),
        text_before("user"@, "vars"@),
{
    reveal_strlit("address");
    reveal_strlit("id");
    reveal_strlit("tags");
    reveal_strlit("user");
    reveal_strlit("vars");
    before_at("address"@, "id"@, 0);
    before_at("address"@, "tags"@, 0);
    before_at("address"@, "user"@, 0);
    before_at("address"@, "vars"@, 0);
    before_at("id"@, "tags"@, 0);
    before_at("id"@, "user"@, 0);
    before_at("id"@, "vars"@, 0);
    before_at("tags"@, "user"@, 0);
    before_at("tags"@, "vars"@, 0);
    before_at("user"@, "vars"@, 0);
}

impl Host {
    /// Makes a host of a record, checking its identifier and tags and
    /// filling in what the record leaves out.
    pub fn from_record(record: HostRecord) -> (r: Result<Host, Error>)
        ensures
            host_made(record@, r),
    {
        let id = match HostId::new(record.id.as_str()) {
            Ok(id) => id,
            Err(e) => {
                return Err(e);
            },
        };
        let mut host = Host::new(id, record.address);
        if let Some(user) = record.user {
            host.user = user;
        }
        if let Some(vars) = record.vars {
            host.vars = vars;
        }
        if let Some(names) = record.tags {
            let ghost list = texts(names@);
            let ghost untagged = host@;
            let mut i: usize = 0;
            assert(list.take(0) =~= Seq::empty());
            while i < names.len()
                invariant
                    i <= names.len(),
                    list == texts(names@),
                    list == record@.tag_list(),
                    is_host_id(record@.id),
                    first_bad_tag(list, 0) == first_bad_tag(list, i as int),
                    host@ == (HostView { tags: list.take(i as int), ..untagged }),
                decreases names.len() - i,
            {
                let ghost before = tag_views(host.tags@);
                match HostTag::new(names[i].as_str()) {
                    Ok(tag) => {
                        host.tags.push(tag);
                        assert(tag_views(host.tags@) =~= before.push(list[i as int]));
                        assert(list.take(i + 1) =~= list.take(i as int).push(list[i as int]));
                    },
                    Err(e) => {
                        return Err(e);
                    },
                }
                i += 1;
            }
            assert(list.take(i as int) =~= list);
        }
        Ok(host)
    }

    /// The host as a JSON object, as it stands in reports.
    pub fn to_json(&self) -> (j: Json)
        ensures
            j@ == host_json(self@),
    {
        let mut tags: Vec<Json> = Vec::new();
        let mut i: usize = 0;
        while i < self.tags.len()
            invariant
                i <= self.tags.len(),
                tags.len() == i,
                forall|k: int|
                    0 <= k < i ==> (#[trigger] tags@[k])@ == JsonView::Str(self.tags@[k]@),
            decreases self.tags.len() - i,
        {
            tags.push(Json::Str(self.tags[i].clone().to_string()));
            i += 1;
        }
        let tag_array = Json::Array(tags);
        assert(tag_array@->Array_0 =~= tags_json(self@.tags));
        let mut record = JsonMap::new();
        let ghost address = ("address"@, JsonView::Str(self@.address));
        let ghost id = ("id"@, JsonView::Str(self@.id));
        let ghost tags = ("tags"@, tag_array@);
        let ghost user = ("user"@, JsonView::Str(self@.user));
        proof {
            lemma_host_order();
            upsert_at_end(Members::empty(), address.0, address.1);
            upsert_at_end(seq![address], id.0, id.1);
            upsert_at_end(seq![address, id], tags.0, tags.1);
            upsert_at_end(seq![address, id, tags], user.0, user.1);
            upsert_at_end(seq![address, id, tags, user], "vars"@, JsonView::Object(self@.vars));
        }
        record.insert(String::from_str("address"), Json::Str(self.address.clone()));
        assert(record@ =~= seq![address]);
        record.insert(String::from_str("id"), Json::Str(self.id.clone().to_string()));
        assert(record@ =~= seq![address, id]);
        record.insert(String::from_str("tags"), tag_array);
        assert(record@ =~= seq![address, id, tags]);
        record.insert(String::from_str("user"), Json::Str(self.user.clone()));
        assert(record@ =~= seq![address, id, tags, user]);
        record.insert(String::from_str("vars"), Json::Object(self.vars.clone()));
        assert(record@ =~= host_json(self@)->Object_0);
        Json::Object(record)
    }
}

impl Clone for Host {
    fn clone(&self) -> (r: Self)
        ensures
            r@ == self@,
    {
        let mut tags: Vec<HostTag> = Vec::new();
        let mut i: usize = 0;
        while i < self.tags.len()
            invariant
                i <= self.tags.len(),
                tags.len() == i,
                forall|k: int| 0 <= k < i ==> (#[trigger] tags@[k])@ == self.tags@[k]@,
            decreases self.tags.len() - i,
        {
            tags.push(self.tags[i].clone());
            i += 1;
        }
        assert(tag_views(tags@) =~= tag_views(self.tags@));
        Host {
            id: self.id.clone(),
            address: self.address.clone(),
            user: self.user.clone(),
            tags,
            vars: self.vars.clone(),
        }
    }
}

} // verus!
