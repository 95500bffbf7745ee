//! The execution engine: one task over a list of hosts.
//!
//! A run has two phases. First `prepare` is called for every host; if one
//! of these calls fails, the run fails with that error and nothing is
//! applied. Then `apply` is called for every host; a failure there becomes
//! the entry of that host in the report and leaves the other hosts alone.
//! The report lists the hosts in the order of the host list, whether the
//! hosts were worked on one after the other or all at once.

use crate::error::Error;
use crate::host::{Host, HostView};
use crate::inventory::host_views;
use crate::json::{first_at, lookup, upsert_at_end, Json, JsonMap, JsonView, Members};
use crate::text::{before_at, text_before};
use crate::task::{applied, outcome, prepared, GenericTask, TaskResult};
use rayon::iter::IntoParallelIterator;
use rayon::iter::IntoParallelRefIterator;
use rayon::iter::ParallelIterator;
use vstd::prelude::*;
use vstd::string::StringExecFns;

verus! {

/// `entry` is what a run may report for `host`: the outcome of `apply` on
/// data that `prepare` gave for that host.
pub open spec fn reported<Data: Send, T: GenericTask<Data> + ?Sized>(
    task: &T,
    host: HostView,
    entry: JsonView,
) -> bool {
    exists|data: Data, r: TaskResult|
        prepared(task, host, Ok::<Data, Error>(data)) && #[trigger] applied(task, host, data, r)
            && entry == outcome(host.id, r)
}

/// `report` is a report of a run over `hosts`: an array with one entry per
/// host, in the order of the hosts.
pub open spec fn report_of<Data: Send, T: GenericTask<Data> + ?Sized>(
    task: &T,
    hosts: Seq<HostView>,
    report: JsonView,
) -> bool {
    report matches JsonView::Array(entries) && entries.len() == hosts.len() && forall|i: int|
        0 <= i < hosts.len() ==> reported(task, hosts[i], #[trigger] entries[i])
}

/// `prepare` can succeed for `host`.
pub open spec fn can_prepare<Data: Send, T: GenericTask<Data> + ?Sized>(
    task: &T,
    host: HostView,
) -> bool {
    exists|data: Data| #[trigger] prepared(task, host, Ok::<Data, Error>(data))
}

/// What a sequential run returns: a report, or the error of the first host
/// in list order for which `prepare` failed.
pub open spec fn ran_in_sequence<Data: Send, T: GenericTask<Data> + ?Sized>(
    task: &T,
    hosts: Seq<HostView>,
    r: TaskResult,
) -> bool {
    match r {
        Ok(report) => report_of(task, hosts, report@),
        Err(e) => exists|k: int|
            0 <= k < hosts.len() && #[trigger] prepared(task, hosts[k], Err::<Data, Error>(e))
                && forall|j: int| 0 <= j < k ==> can_prepare(task, #[trigger] hosts[j]),
    }
}

/// What a concurrent run returns: a report, or the error of one of the
/// hosts for which `prepare` failed.
pub open spec fn ran_in_parallel<Data: Send, T: GenericTask<Data> + ?Sized>(
    task: &T,
    hosts: Seq<HostView>,
    r: TaskResult,
) -> bool {
    match r {
        Ok(report) => report_of(task, hosts, report@),
        Err(e) => exists|k: int|
            0 <= k < hosts.len() && #[trigger] prepared(task, hosts[k], Err::<Data, Error>(e)),
    }
}

/// What [`prepare_host`] returns for a host: the host with its data, or
/// the error of `prepare`.
pub open spec fn host_prepared<Data: Send, T: GenericTask<Data> + ?Sized>(
    task: &T,
    host: &Host,
    r: Result<(&Host, Data), Error>,
) -> bool {
    match r {
        Ok((h, data)) => h == host && prepared(task, host@, Ok::<Data, Error>(data)),
        Err(e) => prepared(task, host@, Err::<Data, Error>(e)),
    }
}

/// What [`apply_to_host`] returns for a host and its data: the report
/// entry of an outcome of `apply`.
pub open spec fn host_applied<Data: Send, T: GenericTask<Data> + ?Sized>(
    task: &T,
    host: &Host,
    data: Data,
    entry: Json,
) -> bool {
    exists|r: TaskResult| #[trigger] applied(task, host@, data, r) && entry@ == outcome(host@.id, r)
}

/// Calls `prepare` for one host and keeps the host with the data.
pub fn prepare_host<'host, Data: Send, T: GenericTask<Data> + ?Sized>(
    task: &T,
    host: &'host Host,
) -> (r: Result<(&'host Host, Data), Error>)
    ensures
        host_prepared(task, host, r),
{
    match task.prepare(host.clone()) {
        Ok(data) => Ok((host, data)),
        Err(e) => Err(e),
    }
}

/// The member names of a report entry differ from one another.
proof fn lemma_entry_names()
    ensures
        "host"@ != "info"@,
        "host"@ != "error"@,
        "host"@ != "success"@,
        "info"@ != "success"@,
        "info"@ != "error"@,
        "error"@ != "success"@,
{
    reveal_strlit("host");
    reveal_strlit("info");
    reveal_strlit("error");
    reveal_strlit("success");
    assert("host"@[0] == 'h');
    assert("info"@[0] == 'i');
    assert("error"@.len() == 5);
    assert("success"@.len() == 7);
}

/// The member names of a report entry in their order.
proof fn lemma_entry_order()
    ensures
        text_before("error"@, "host"@),
        text_before("error"@, "success"@),
        text_before("host"@, "info"@),
        text_before("host"@, "success"@),
        text_before("info"@, "success"@),
{
    reveal_strlit("host");
    reveal_strlit("info");
    reveal_strlit("error");
    reveal_strlit("success");
    before_at("error"@, "host"@, 0);
    before_at("error"@, "success"@, 0);
    before_at("host"@, "info"@, 0);
    before_at("host"@, "success"@, 0);
    before_at("info"@, "success"@, 0);
}

/// The report entry for a host on which `apply` ended with `result`.
pub fn outcome_entry(host: &Host, result: TaskResult) -> (entry: Json)
    ensures
        entry@ == outcome(host@.id, result),
{
    let mut record = JsonMap::new();
    let ghost id = JsonView::Str(host@.id);
    proof {
        lemma_entry_order();
    }
    match result {
        Ok(info) => {
            proof {
                upsert_at_end(Members::empty(), "host"@, id);
                upsert_at_end(seq![("host"@, id)], "info"@, info@);
                upsert_at_end(
                    seq![("host"@, id), ("info"@, info@)],
                    "success"@,
                    JsonView::Bool(true),
                );
            }
            record.insert(String::from_str("host"), Json::Str(host.id.clone().to_string()));
            assert(record@ =~= seq![("host"@, id)]);
            record.insert(String::from_str("info"), info);
            assert(record@ =~= seq![("host"@, id), ("info"@, info@)]);
            record.insert(String::from_str("success"), Json::Bool(true));
            assert(record@ =~= outcome(host@.id, result)->Object_0);
        },
        Err(err) => {
            let ghost text = JsonView::Str(err.text());
            proof {
                upsert_at_end(Members::empty(), "error"@, text);
                upsert_at_end(seq![("error"@, text)], "host"@, id);
                upsert_at_end(
                    seq![("error"@, text), ("host"@, id)],
                    "success"@,
                    JsonView::Bool(false),
                );
            }
            record.insert(String::from_str("error"), Json::Str(err.to_string()));
            assert(record@ =~= seq![("error"@, text)]);
            record.insert(String::from_str("host"), Json::Str(host.id.clone().to_string()));
            assert(record@ =~= seq![("error"@, text), ("host"@, id)]);
            record.insert(String::from_str("success"), Json::Bool(false));
            assert(record@ =~= outcome(host@.id, result)->Object_0);
        },
    }
    Json::Object(record)
}

/// Calls `apply` for one host and turns what comes back, success or
/// failure, into the report entry of that host.
pub fn apply_to_host<Data: Send, T: GenericTask<Data> + ?Sized>(
    task: &T,
    host: &Host,
    data: Data,
) -> (entry: Json)
    ensures
        host_applied(task, host, data, entry),
{
    let result = task.apply(host.clone(), data);
    let entry = outcome_entry(host, result);
    assert(applied(task, host@, data, result));
    entry
}

/// Maps [`prepare_host`] over the hosts on rayon's worker pool
/// (`par_iter`, `map`, `collect` into a `Result`). Trusted: with `Ok`
/// there is one item per host, in the order of the hosts, each a result of
/// `prepare_host` for its host; with `Err` the error is the result of
/// `prepare_host` for one of the hosts.
#[verifier::external_body]
fn prepare_all_parallel<'host, Data: Send, T: GenericTask<Data> + ?Sized>(
    hosts: &'host Vec<Host>,
    task: &T,
) -> (r: Result<Vec<(&'host Host, Data)>, Error>)
    ensures
        match r {
            Ok(items) => items.len() == hosts.len() && forall|i: int|
                0 <= i < hosts.len() ==> host_prepared(
                    task,
                    &hosts[i],
                    Ok::<(&Host, Data), Error>(#[trigger] items[i]),
                ),
            Err(e) => exists|k: int|
                0 <= k < hosts.len() && host_prepared(
                    task,
                    &#[trigger] hosts[k],
                    Err::<(&Host, Data), Error>(e),
                ),
        },
{
    hosts.par_iter().map(|host| prepare_host(task, host)).collect()
}

/// Maps [`apply_to_host`] over the prepared hosts on rayon's worker pool
/// (`into_par_iter`, `map`, `collect`). Trusted: there is one entry per
/// item, in the order of the items, each a result of `apply_to_host` for
/// its item.
#[verifier::external_body]
fn apply_all_parallel<Data: Send, T: GenericTask<Data> + ?Sized>(
    items: Vec<(&Host, Data)>,
    task: &T,
) -> (entries: Vec<Json>)
    ensures
        entries.len() == items.len(),
        forall|i: int|
            0 <= i < items.len() ==> host_applied(
                task,
                items[i].0,
                items[i].1,
                #[trigger] entries[i],
            ),
{
    items.into_par_iter().map(|(host, data)| apply_to_host(task, host, data)).collect()
}

/// The entries of a report, as mathematical values.
pub open spec fn entry_views(entries: Seq<Json>) -> Seq<JsonView> {
    Seq::new(entries.len(), |i: int| entries[i]@)
}

/// TaskRunner trait to extend the `Vec<Host>` type.
pub trait TaskRunner {
    /// The hosts that a run goes over.
    spec fn host_list(&self) -> Seq<HostView>;

    /// Helper function to run a task on multiple hosts either sequentially or
    /// concurrently.
    fn run_task<Data: Send, T: GenericTask<Data> + ?Sized>(
        &self,
        task: &T,
        parallel: bool,
    ) -> (r: TaskResult)
        ensures
            parallel ==> ran_in_parallel(task, self.host_list(), r),
            !parallel ==> ran_in_sequence(task, self.host_list(), r),
    ;

    /// Run a task sequentially on multiple hosts.
    ///
    /// This function first calls the `prepare()` method for all hosts. All should
    /// succeed, or else the error is returned.
    ///
    /// Once the task is prepared for all hosts, this function calls the `apply()`
    /// method with the contextual data produce at the previous step.
    fn run_task_seq<Data: Send, T: GenericTask<Data> + ?Sized>(&self, task: &T) -> (r:
        TaskResult)
        ensures
            ran_in_sequence(task, self.host_list(), r),
    ;

    /// Run a task concurrently on multiple hosts.
    ///
    /// This function first calls the `prepare()` method for all hosts. All should
    /// succeed, or else the error is returned.
    ///
    /// Once the task is prepared for all hosts, this function calls the `apply()`
    /// method with the contextual data produce at the previous step.
    fn run_task_parallel<Data: Send, T: GenericTask<Data> + ?Sized>(&self, task: &T) -> (r:
        TaskResult)
        ensures
            ran_in_parallel(task, self.host_list(), r),
    ;
}

impl TaskRunner for Vec<Host> {
    open spec fn host_list(&self) -> Seq<HostView> {
        host_views(self@)
    }

    fn run_task<Data: Send, T: GenericTask<Data> + ?Sized>(
        &self,
        task: &T,
        parallel: bool,
    ) -> (r: TaskResult) {
        if parallel {
            self.run_task_parallel(task)
        } else {
            self.run_task_seq(task)
        }
    }

    fn run_task_seq<Data: Send, T: GenericTask<Data> + ?Sized>(&self, task: &T) -> (r:
        TaskResult) {
        let mut items: Vec<(&Host, Data)> = Vec::new();
        let mut i: usize = 0;
        while i < self.len()
            invariant
                i <= self.len(),
                items.len() == i,
                forall|k: int|
                    0 <= k < i ==> host_prepared(
                        task,
                        &self[k],
                        Ok::<(&Host, Data), Error>(#[trigger] items[k]),
                    ),
            decreases self.len() - i,
        {
            match prepare_host(task, &self[i]) {
                Ok(item) => {
                    items.push(item);
                },
                Err(e) => {
                    proof {
                        let hosts = host_views(self@);
                        assert(prepared(task, hosts[i as int], Err::<Data, Error>(e)));
                        assert forall|j: int| 0 <= j < i implies can_prepare(
                            task,
                            #[trigger] hosts[j],
                        ) by {
                            assert(host_prepared(
                                task,
                                &self[j],
                                Ok::<(&Host, Data), Error>(items[j]),
                            ));
                            assert(prepared(task, hosts[j], Ok::<Data, Error>(items[j].1)));
                        }
                    }
                    return Err(e);
                },
            }
            i += 1;
        }
        let ghost all = items@;
        let mut entries: Vec<Json> = Vec::new();
        for item in it: items.into_iter()
            invariant
                it.seq() == all,
                entries.len() == it.index(),
                forall|k: int|
                    0 <= k < it.index() ==> host_applied(
                        task,
                        all[k].0,
                        all[k].1,
                        #[trigger] entries[k],
                    ),
        {
            let (host, data) = item;
            let entry = apply_to_host(task, host, data);
            entries.push(entry);
        }
        proof {
            lemma_report(task, self@, all, entries@);
        }
        Ok(Json::Array(entries))
    }

    fn run_task_parallel<Data: Send, T: GenericTask<Data> + ?Sized>(&self, task: &T) -> (r:
        TaskResult) {
        let items = match prepare_all_parallel(self, task) {
            Ok(items) => items,
            Err(e) => {
                proof {
                    let hosts = host_views(self@);
                    let k = choose|k: int|
                        0 <= k < self.len() && host_prepared(
                            task,
                            &#[trigger] self[k],
                            Err::<(&Host, Data), Error>(e),
                        );
                    assert(prepared(task, hosts[k], Err::<Data, Error>(e)));
                }
                return Err(e);
            },
        };
        let ghost all = items@;
        let entries = apply_all_parallel(items, task);
        proof {
            lemma_report(task, self@, all, entries@);
        }
        Ok(Json::Array(entries))
    }
}

/// Entries that were made from the hosts one by one form a report.
proof fn lemma_report<Data: Send, T: GenericTask<Data> + ?Sized>(
    task: &T,
    hosts: Seq<Host>,
    items: Seq<(&Host, Data)>,
    entries: Seq<Json>,
)
    requires
        items.len() == hosts.len(),
        entries.len() == hosts.len(),
        forall|i: int|
            0 <= i < hosts.len() ==> host_prepared(
                task,
                &hosts[i],
                Ok::<(&Host, Data), Error>(#[trigger] items[i]),
            ),
        forall|i: int|
            0 <= i < hosts.len() ==> host_applied(
                task,
                items[i].0,
                items[i].1,
                #[trigger] entries[i],
            ),
    ensures
        report_of(task, host_views(hosts), JsonView::Array(entry_views(entries))),
{
    let views = host_views(hosts);
    let shown = entry_views(entries);
    assert forall|i: int| 0 <= i < views.len() implies reported(
        task,
        views[i],
        #[trigger] shown[i],
    ) by {
        assert(host_prepared(task, &hosts[i], Ok::<(&Host, Data), Error>(items[i])));
        assert(host_applied(task, items[i].0, items[i].1, entries[i]));
        let r = choose|r: TaskResult| #[trigger]
            applied(task, items[i].0@, items[i].1, r) && entries[i]@ == outcome(items[i].0@.id, r);
        assert(applied(task, views[i], items[i].1, r));
    }
}

/// The members of a report entry: the host, whether `apply` succeeded, and
/// either the information it returned or its error, never both.
pub proof fn outcome_members(id: Seq<char>, r: TaskResult)
    ensures
        outcome(id, r) matches JsonView::Object(m) && lookup(m, "host"@) == Some(JsonView::Str(id))
            && lookup(m, "success"@) == Some(JsonView::Bool(r is Ok)) && match r {
            Ok(info) => lookup(m, "info"@) == Some(info@) && lookup(m, "error"@).is_none(),
            Err(e) => lookup(m, "error"@) == Some(JsonView::Str(e.text())) && lookup(
                m,
                "info"@,
            ).is_none(),
        },
{
    lemma_entry_names();
    reveal_with_fuel(first_at, 5);
    let m = outcome(id, r)->Object_0;
    assert(m.len() == 3);
    match r {
        Ok(info) => {
            assert(m[0].0 == "host"@ && m[1].0 == "info"@ && m[2].0 == "success"@);
            assert(first_at(m, "error"@, 0) == 3);
        },
        Err(e) => {
            assert(m[0].0 == "error"@ && m[1].0 == "host"@ && m[2].0 == "success"@);
            assert(first_at(m, "info"@, 0) == 3);
        },
    }
}

/// Whether a report entry says that `apply` succeeded.
pub open spec fn entry_succeeded(entry: JsonView) -> bool {
    entry matches JsonView::Object(m) && lookup(m, "success"@) == Some(JsonView::Bool(true))
}

/// The identifier of the host that a report entry is about.
pub open spec fn entry_host(entry: JsonView) -> Option<JsonView> {
    match entry {
        JsonView::Object(m) => lookup(m, "host"@),
        _ => None,
    }
}

/// `prepare` is an all-or-nothing gate: a run over hosts of which one
/// cannot be prepared ends with an error and without a report, under
/// either strategy.
pub proof fn prepare_failure_aborts<Data: Send, T: GenericTask<Data> + ?Sized>(
    task: &T,
    hosts: Seq<HostView>,
    k: int,
    r: TaskResult,
)
    requires
        ran_in_sequence(task, hosts, r) || ran_in_parallel(task, hosts, r),
        0 <= k < hosts.len(),
        !can_prepare(task, hosts[k]),
    ensures
        r is Err,
{
    if let Ok(report) = r {
        let entries = report@->Array_0;
        assert(reported(task, hosts[k], entries[k]));
        let (data, res) = choose|data: Data, res: TaskResult|
            prepared(task, hosts[k], Ok::<Data, Error>(data)) && #[trigger] applied(
                task,
                hosts[k],
                data,
                res,
            ) && entries[k] == outcome(hosts[k].id, res);
        assert(prepared(task, hosts[k], Ok::<Data, Error>(data)));
    }
}

/// A failure of `apply` stays with its host: a report has one entry per
/// host, in the order of the hosts and each about its own host, and the
/// entry of a host for which `apply` cannot succeed says so, whatever
/// happened to the other hosts.
pub proof fn apply_failure_is_isolated<Data: Send, T: GenericTask<Data> + ?Sized>(
    task: &T,
    hosts: Seq<HostView>,
    report: JsonView,
    k: int,
)
    requires
        report_of(task, hosts, report),
        0 <= k < hosts.len(),
        forall|data: Data, info: Json|
            !#[trigger] applied(task, hosts[k], data, Ok::<Json, Error>(info)),
    ensures
        report matches JsonView::Array(entries) && entries.len() == hosts.len() && !entry_succeeded(
            entries[k],
        ) && forall|i: int|
            0 <= i < hosts.len() ==> entry_host(#[trigger] entries[i]) == Some(
                JsonView::Str(hosts[i].id),
            ),
{
    let entries = report->Array_0;
    assert forall|i: int| 0 <= i < hosts.len() implies entry_host(#[trigger] entries[i]) == Some(
        JsonView::Str(hosts[i].id),
    ) && (i == k ==> !entry_succeeded(entries[i])) by {
        assert(reported(task, hosts[i], entries[i]));
        let (data, res) = choose|data: Data, res: TaskResult|
            prepared(task, hosts[i], Ok::<Data, Error>(data)) && #[trigger] applied(
                task,
                hosts[i],
                data,
                res,
            ) && entries[i] == outcome(hosts[i].id, res);
        outcome_members(hosts[i].id, res);
        if i == k {
            if let Ok(info) = res {
                assert(applied(task, hosts[k], data, Ok::<Json, Error>(info)));
            }
        }
    }
}

/// For each of the hosts, `prepare` has one possible result, and `apply`
/// one possible outcome for each prepared data.
pub open spec fn deterministic<Data: Send, T: GenericTask<Data> + ?Sized>(
    task: &T,
    hosts: Seq<HostView>,
) -> bool {
    &&& forall|i: int, r1: Result<Data, Error>, r2: Result<Data, Error>|
        0 <= i < hosts.len() && #[trigger] prepared(task, hosts[i], r1) && #[trigger] prepared(
            task,
            hosts[i],
            r2,
        ) ==> r1 == r2
    &&& forall|i: int, data: Data, r1: TaskResult, r2: TaskResult|
        0 <= i < hosts.len() && #[trigger] applied(task, hosts[i], data, r1) && #[trigger] applied(
            task,
            hosts[i],
            data,
            r2,
        ) ==> outcome(hosts[i].id, r1) == outcome(hosts[i].id, r2)
}

/// With a deterministic task, a sequential and a concurrent run over the
/// same hosts both fail or both give a report, and then the same report,
/// entry for entry.
pub proof fn strategies_agree<Data: Send, T: GenericTask<Data> + ?Sized>(
    task: &T,
    hosts: Seq<HostView>,
    one_by_one: TaskResult,
    at_once: TaskResult,
)
    requires
        ran_in_sequence(task, hosts, one_by_one),
        ran_in_parallel(task, hosts, at_once),
        deterministic(task, hosts),
    ensures
        one_by_one is Ok <==> at_once is Ok,
        one_by_one matches Ok(a) ==> at_once matches Ok(b) ==> a@ == b@,
{
    match (one_by_one, at_once) {
        (Ok(a), Ok(b)) => {
            let ea = a@->Array_0;
            let eb = b@->Array_0;
            assert forall|i: int| 0 <= i < hosts.len() implies ea[i] == eb[i] by {
                assert(reported(task, hosts[i], ea[i]));
                assert(reported(task, hosts[i], eb[i]));
                let (d1, r1) = choose|data: Data, res: TaskResult|
                    prepared(task, hosts[i], Ok::<Data, Error>(data)) && #[trigger] applied(
                        task,
                        hosts[i],
                        data,
                        res,
                    ) && ea[i] == outcome(hosts[i].id, res);
                let (d2, r2) = choose|data: Data, res: TaskResult|
                    prepared(task, hosts[i], Ok::<Data, Error>(data)) && #[trigger] applied(
                        task,
                        hosts[i],
                        data,
                        res,
                    ) && eb[i] == outcome(hosts[i].id, res);
                assert(Ok::<Data, Error>(d1) == Ok::<Data, Error>(d2));
            }
            assert(ea =~= eb);
        },
        (Ok(a), Err(e)) => {
            let k = choose|k: int|
                0 <= k < hosts.len() && #[trigger] prepared(task, hosts[k], Err::<Data, Error>(e));
            let ea = a@->Array_0;
            assert(reported(task, hosts[k], ea[k]));
            let (d1, r1) = choose|data: Data, res: TaskResult|
                prepared(task, hosts[k], Ok::<Data, Error>(data)) && #[trigger] applied(
                    task,
                    hosts[k],
                    data,
                    res,
                ) && ea[k] == outcome(hosts[k].id, res);
            assert(Ok::<Data, Error>(d1) == Err::<Data, Error>(e));
        },
        (Err(e), Ok(b)) => {
            let k = choose|k: int|
                0 <= k < hosts.len() && #[trigger] prepared(task, hosts[k], Err::<Data, Error>(e))
                    && forall|j: int| 0 <= j < k ==> can_prepare(task, #[trigger] hosts[j]);
            let eb = b@->Array_0;
            assert(reported(task, hosts[k], eb[k]));
            let (d1, r1) = choose|data: Data, res: TaskResult|
                prepared(task, hosts[k], Ok::<Data, Error>(data)) && #[trigger] applied(
                    task,
                    hosts[k],
                    data,
                    res,
                ) && eb[k] == outcome(hosts[k].id, res);
            assert(Ok::<Data, Error>(d1) == Err::<Data, Error>(e));
        },
        (Err(_), Err(_)) => {},
    }
}

} // verus!
