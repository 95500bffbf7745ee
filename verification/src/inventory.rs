//! The inventory: the ordered list of hosts of one invocation.

use crate::error::Error;
use crate::host::{
    host_made, lemma_first_bad_tag, record_views, Host, HostRecord, HostView, RecordView,
};
use crate::host_id::HostId;
use crate::tag_expr::{invalid_token_text, parse, query_ast, Ast};
use vstd::prelude::*;
use vstd::string::StringExecFns;

verus! {

/// Abstraction of inventory file
#[derive(Debug, PartialEq, Eq)]
pub struct Inventory {
    /// List of host provided by inventory (defaults to `[]`)
    pub hosts: Vec<Host>,
}

/// The hosts of a list, as mathematical values.
pub open spec fn host_views(hosts: Seq<Host>) -> Seq<HostView> {
    Seq::new(hosts.len(), |i: int| hosts[i]@)
}

impl View for Inventory {
    type V = Seq<HostView>;

    open spec fn view(&self) -> Seq<HostView> {
        host_views(self.hosts@)
    }
}

/// The position of the first host from `i` on with the identifier `id`; the
/// length of the list if there is none.
pub open spec fn first_with_id(hosts: Seq<HostView>, id: Seq<char>, i: int) -> int
    decreases hosts.len() - i,
{
    if i < 0 || i >= hosts.len() {
        hosts.len() as int
    } else if hosts[i].id == id {
        i
    } else {
        first_with_id(hosts, id, i + 1)
    }
}

/// The first host with the identifier `id`, in list order.
pub open spec fn host_by_id(hosts: Seq<HostView>, id: Seq<char>) -> Option<HostView> {
    let i = first_with_id(hosts, id, 0);
    if i < hosts.len() {
        Some(hosts[i])
    } else {
        None
    }
}

/// The hosts on whose tags the query holds, in list order.
pub open spec fn hosts_matching(hosts: Seq<HostView>, query: Ast) -> Seq<HostView> {
    hosts.filter(|h: HostView| query.holds(h.tags))
}

/// The hosts whose identifier is not `id`, in list order.
pub open spec fn hosts_without(hosts: Seq<HostView>, id: Seq<char>) -> Seq<HostView> {
    hosts.filter(|h: HostView| h.id != id)
}

/// What [`Inventory::get_hosts_by_tags`] returns: the hosts that match a
/// well-formed query, and an `InvalidToken` error for any other query,
/// whatever the hosts.
pub open spec fn selected(
    hosts: Seq<HostView>,
    query: Seq<char>,
    r: Result<Vec<Host>, Error>,
) -> bool {
    match query_ast(query) {
        Ok(ast) => r matches Ok(found) && host_views(found@) == hosts_matching(hosts, ast),
        Err(fragment) => r matches Err(Error::InvalidToken(m)) && m@ == invalid_token_text(
            fragment,
        ),
    }
}

/// Where an inventory is read from.
#[derive(Debug, Clone, Copy, PartialEq, Eq, Structural)]
pub enum InventorySource {
    /// A program that writes the inventory as a JSON document.
    Program,
    /// A TOML document.
    Document,
}

/// The position of the first record from `i` on that is not valid; the
/// length of the list if all are valid.
pub open spec fn first_invalid(records: Seq<RecordView>, i: int) -> int
    decreases records.len() - i,
{
    if i < 0 || i >= records.len() {
        records.len() as int
    } else if !records[i].valid() {
        i
    } else {
        first_invalid(records, i + 1)
    }
}

/// What [`Inventory::from_records`] returns: the hosts of the records, in
/// their order, where all records are valid; the error of the first record
/// that is not, otherwise.
pub open spec fn inventory_made(records: Seq<RecordView>, r: Result<Inventory, Error>) -> bool {
    let bad = first_invalid(records, 0);
    if bad < records.len() {
        r matches Err(e) && host_made(records[bad], Err::<Host, Error>(e))
    } else {
        r matches Ok(inventory) && inventory@ == Seq::new(
            records.len(),
            |i: int| records[i].host(),
        )
    }
}

/// The message for an inventory path at which nothing is found.
pub open spec fn missing_inventory_text(path: Seq<char>) -> Seq<char> {
    "Inventory '"@ + path + "' does not exist"@
}

/// The message for an inventory program that ended with a failure status.
pub open spec fn failed_inventory_text(path: Seq<char>, status: Seq<char>) -> Seq<char> {
    "Failed to execute inventory "@ + path + ": "@ + status
}

impl Inventory {
    /// Makes an inventory of the hosts that a document describes. The
    /// identifier and the tags of every host are checked, so that a
    /// document with an invalid one is refused when it is loaded.
    pub fn from_records(records: Vec<HostRecord>) -> (r: Result<Inventory, Error>)
        ensures
            inventory_made(record_views(records@), r),
    {
        let ghost given = records@;
        let ghost all = record_views(records@);
        let mut hosts: Vec<Host> = Vec::new();
        proof {
            assert(host_views(hosts@) =~= Seq::empty());
        }
        for record in it: records.into_iter()
            invariant
                it.seq() == given,
                all == record_views(given),
                first_invalid(all, 0) == first_invalid(all, it.index() as int),
                hosts.len() == it.index(),
                forall|k: int|
                    0 <= k < it.index() ==> (#[trigger] hosts@[k])@ == all[k].host(),
        {
            match Host::from_record(record) {
                Ok(host) => {
                    proof {
                        lemma_first_bad_tag(record@.tag_list(), 0);
                    }
                    hosts.push(host);
                },
                Err(e) => {
                    proof {
                        lemma_first_bad_tag(record@.tag_list(), 0);
                    }
                    return Err(e);
                },
            }
        }
        let inventory = Inventory { hosts };
        assert(inventory@ =~= Seq::new(all.len(), |i: int| all[i].host()));
        Ok(inventory)
    }

    /// Decides how the inventory at `path` is read: by running it where it
    /// is an executable file, as a document otherwise; a path at which
    /// nothing exists is an error.
    pub fn source_of(path: &str, exists: bool, executable: bool) -> (r: Result<
        InventorySource,
        Error,
    >)
        ensures
            match r {
                Ok(source) => exists && (source is Program <==> executable),
                Err(e) => !exists && (e matches Error::FileNotFound(m) && m@
                    == missing_inventory_text(path@)),
            },
    {
        if exists {
            if executable {
                Ok(InventorySource::Program)
            } else {
                Ok(InventorySource::Document)
            }
        } else {
            let mut message = String::from_str("Inventory '");
            message.append(path);
            message.append("' does not exist");
            Err(Error::FileNotFound(message))
        }
    }

    /// Decides what to make of an inventory program that has ended: its
    /// output is the inventory document where it succeeded, and its failure
    /// is an error, not an empty inventory.
    pub fn command_output(path: &str, success: bool, status: &str, output: String) -> (r: Result<
        String,
        Error,
    >)
        ensures
            match r {
                Ok(document) => success && document@ == output@,
                Err(e) => !success && (e matches Error::CommandExecutionFailed(m) && m@
                    == failed_inventory_text(path@, status@)),
            },
    {
        if success {
            Ok(output)
        } else {
            let mut message = String::from_str("Failed to execute inventory ");
            message.append(path);
            message.append(": ");
            message.append(status);
            Err(Error::CommandExecutionFailed(message))
        }
    }

    /// The hosts of an inventory that names none.
    pub fn default_hostlist() -> (hosts: Vec<Host>)
        ensures
            hosts@.len() == 0,
    {
        Vec::new()
    }

    /// Create a new empty inventory
    pub fn new() -> (inventory: Self)
        ensures
            inventory@ == Seq::<HostView>::empty(),
    {
        let inventory = Inventory { hosts: Inventory::default_hostlist() };
        assert(inventory@ =~= Seq::<HostView>::empty());
        inventory
    }

    /// Add host to the inventory.
    pub fn add_host(&mut self, host: Host) -> (r: &mut Self)
        ensures
            r@ == old(self)@.push(host@),
            *final(self) == *final(r),
    {
        let ghost before = self@;
        self.hosts.push(host);
        assert(self@ =~= before.push(host@));
        self
    }

    /// Remove host from the inventory or do nothing if the host's ID was not
    /// found.
    pub fn remove_host(&mut self, host_id: HostId) -> (r: &mut Self)
        ensures
            r@ == hosts_without(old(self)@, host_id@),
            *final(self) == *final(r),
    {
        let ghost keep = |h: HostView| h.id != host_id@;
        let ghost before = self@;
        let mut kept: Vec<Host> = Vec::new();
        let mut i: usize = 0;
        proof {
            reveal(Seq::filter);
            assert(before.take(0) =~= Seq::empty());
            assert(host_views(kept@) =~= Seq::empty());
        }
        while i < self.hosts.len()
            invariant
                i <= self.hosts.len(),
                before == host_views(self.hosts@),
                keep == |h: HostView| h.id != host_id@,
                host_views(kept@) == before.take(i as int).filter(keep),
            decreases self.hosts.len() - i,
        {
            let ghost so_far = host_views(kept@);
            proof {
                reveal(Seq::filter);
                assert(before.take(i + 1).drop_last() =~= before.take(i as int));
            }
            if self.hosts[i].id != host_id {
                let host = self.hosts[i].clone();
                kept.push(host);
                assert(host_views(kept@) =~= so_far.push(before[i as int]));
            }
            i += 1;
        }
        assert(before.take(i as int) =~= before);
        self.hosts = kept;
        self
    }

    /// Get `Some(host)` by its ID, or `None` if it does not exist.
    pub fn get_host_by_id(&self, id: HostId) -> (r: Option<Host>)
        ensures
            match r {
                Some(host) => host_by_id(self@, id@) == Some(host@),
                None => host_by_id(self@, id@).is_none(),
            },
    {
        let mut i: usize = 0;
        while i < self.hosts.len()
            invariant
                i <= self.hosts.len(),
                first_with_id(self@, id@, 0) == first_with_id(self@, id@, i as int),
            decreases self.hosts.len() - i,
        {
            if self.hosts[i].id == id {
                return Some(self.hosts[i].clone());
            }
            i += 1;
        }
        None
    }

    /// Get a list of host matching the tag expression.
    pub fn get_hosts_by_tags(&self, tag_expr: String) -> (r: Result<Vec<Host>, Error>)
        ensures
            selected(self@, tag_expr@, r),
    {
        let query = match parse(tag_expr.as_str()) {
            Ok(query) => query,
            Err(e) => {
                return Err(e);
            },
        };
        let ghost keep = |h: HostView| query@.holds(h.tags);
        let mut found: Vec<Host> = Vec::new();
        let mut i: usize = 0;
        proof {
            reveal(Seq::filter);
            assert(self@.take(0) =~= Seq::empty());
            assert(host_views(found@) =~= Seq::empty());
        }
        while i < self.hosts.len()
            invariant
                i <= self.hosts.len(),
                keep == |h: HostView| query@.holds(h.tags),
                host_views(found@) == self@.take(i as int).filter(keep),
            decreases self.hosts.len() - i,
        {
            let ghost so_far = host_views(found@);
            proof {
                reveal(Seq::filter);
                assert(self@.take(i + 1).drop_last() =~= self@.take(i as int));
            }
            let tags = self.hosts[i].tag_names();
            if query.eval(&tags) {
                let host = self.hosts[i].clone();
                found.push(host);
                assert(host_views(found@) =~= so_far.push(self@[i as int]));
            }
            i += 1;
        }
        assert(self@.take(i as int) =~= self@);
        Ok(found)
    }
}

/// A query selects the hosts on whose tags it holds, and no others: every
/// selected host matches the query, and every host of the inventory that
/// matches is selected.
pub proof fn selection_is_exact(hosts: Seq<HostView>, query: Ast)
    ensures
        hosts_matching(hosts, query).len() <= hosts.len(),
        forall|i: int|
            0 <= i < hosts_matching(hosts, query).len() ==> query.holds(
                (#[trigger] hosts_matching(hosts, query)[i]).tags,
            ),
        forall|i: int|
            0 <= i < hosts.len() && query.holds((#[trigger] hosts[i]).tags) ==> hosts_matching(
                hosts,
                query,
            ).contains(hosts[i]),
{
    let keep = |h: HostView| query.holds(h.tags);
    hosts.lemma_filter_len(keep);
    assert forall|i: int| 0 <= i < hosts.filter(keep).len() implies query.holds(
        (#[trigger] hosts.filter(keep)[i]).tags,
    ) by {
        hosts.lemma_filter_pred(keep, i);
    }
    assert forall|i: int| 0 <= i < hosts.len() && query.holds(
        (#[trigger] hosts[i]).tags,
    ) implies hosts.filter(keep).contains(hosts[i]) by {
        hosts.lemma_filter_contains(keep, i);
    }
}

/// A host that is added is found by its identifier, unless a host that was
/// there before has the same one: the first host with an identifier wins.
pub proof fn first_host_wins(hosts: Seq<HostView>, host: HostView)
    ensures
        host_by_id(hosts.push(host), host.id) == match host_by_id(hosts, host.id) {
            Some(earlier) => Some(earlier),
            None => Some(host),
        },
{
    lemma_first_with_id(hosts, host.id, 0);
    lemma_first_with_id(hosts.push(host), host.id, 0);
    let i = first_with_id(hosts, host.id, 0);
    let j = first_with_id(hosts.push(host), host.id, 0);
    if i < hosts.len() {
        assert(hosts.push(host)[i].id == host.id);
        if j < i {
            assert(hosts[j].id != host.id);
        }
    } else {
        assert(hosts.push(host)[hosts.len() as int].id == host.id);
        if j < hosts.len() {
            assert(hosts[j].id != host.id);
        }
    }
}

/// Where `first_with_id` points: at the first host with the identifier, if
/// there is one.
pub proof fn lemma_first_with_id(hosts: Seq<HostView>, id: Seq<char>, i: int)
    requires
        0 <= i <= hosts.len(),
    ensures
        i <= first_with_id(hosts, id, i) <= hosts.len(),
        first_with_id(hosts, id, i) < hosts.len() ==> hosts[first_with_id(hosts, id, i)].id == id,
        forall|j: int| i <= j < first_with_id(hosts, id, i) ==> (#[trigger] hosts[j]).id != id,
    decreases hosts.len() - i,
{
    if i < hosts.len() && hosts[i].id != id {
        lemma_first_with_id(hosts, id, i + 1);
    }
}

impl Clone for Inventory {
    fn clone(&self) -> (r: Self)
        ensures
            r@ == self@,
    {
        let mut hosts: Vec<Host> = Vec::new();
        let mut i: usize = 0;
        while i < self.hosts.len()
            invariant
                i <= self.hosts.len(),
                hosts.len() == i,
                forall|k: int| 0 <= k < i ==> (#[trigger] hosts@[k])@ == self.hosts@[k]@,
            decreases self.hosts.len() - i,
        {
            hosts.push(self.hosts[i].clone());
            i += 1;
        }
        assert(host_views(hosts@) =~= host_views(self.hosts@));
        Inventory { hosts }
    }
}

} // verus!
