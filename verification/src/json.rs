//! JSON values: the variables of a host and the payload of a report.

use crate::text::{comes_before, text_before, text_order};
use vstd::prelude::*;
use vstd::string::StringExecFns;

verus! {

/// A JSON value.
#[derive(Debug, PartialEq, Eq)]
pub enum Json {
    Null,
    Bool(bool),
    /// A number without fraction or exponent.
    Int(i128),
    /// Any other number, kept as its JSON text.
    Float(String),
    Str(String),
    Array(Vec<Json>),
    Object(JsonMap),
}

/// The members of a JSON object: names with their values, in the order of
/// the names. No name occurs twice, so that two maps are equal when they
/// hold the same values under the same names.
#[derive(Debug, PartialEq, Eq)]
pub struct JsonMap {
    entries: Vec<(String, Json)>,
}

/// A JSON value as a mathematical value.
pub ghost enum JsonView {
    Null,
    Bool(bool),
    Int(int),
    Float(Seq<char>),
    Str(Seq<char>),
    Array(Seq<JsonView>),
    Object(Seq<(Seq<char>, JsonView)>),
}

/// The members of an object as a mathematical value.
pub type Members = Seq<(Seq<char>, JsonView)>;

/// The mathematical value of a JSON value.
pub open spec fn json_view(j: Json) -> JsonView
    decreases j,
{
    match j {
        Json::Null => JsonView::Null,
        Json::Bool(b) => JsonView::Bool(b),
        Json::Int(n) => JsonView::Int(n as int),
        Json::Float(t) => JsonView::Float(t@),
        Json::Str(t) => JsonView::Str(t@),
        Json::Array(v) => JsonView::Array(
            Seq::new(
                v@.len(),
                |i: int|
                    if 0 <= i < v@.len() {
                        json_view(v@[i])
                    } else {
                        JsonView::Null
                    },
            ),
        ),
        Json::Object(m) => JsonView::Object(m.members()),
    }
}

impl View for Json {
    type V = JsonView;

    open spec fn view(&self) -> JsonView {
        json_view(*self)
    }
}

impl View for JsonMap {
    type V = Members;

    open spec fn view(&self) -> Members {
        self.members()
    }
}

/// The first position from `i` on at which `m` has the name `k`; the length
/// of `m` if there is none.
pub open spec fn first_at(m: Members, k: Seq<char>, i: int) -> int
    decreases m.len() - i,
{
    if i < 0 || i >= m.len() {
        m.len() as int
    } else if m[i].0 == k {
        i
    } else {
        first_at(m, k, i + 1)
    }
}

/// The value that `m` has under the name `k`.
pub open spec fn lookup(m: Members, k: Seq<char>) -> Option<JsonView> {
    let i = first_at(m, k, 0);
    if i < m.len() {
        Some(m[i].1)
    } else {
        None
    }
}

/// The first position from `i` on at which the name of `m` does not come
/// before `k`; the length of `m` if all names come before `k`.
pub open spec fn rank_from(m: Members, k: Seq<char>, i: int) -> int
    decreases m.len() - i,
{
    if i < 0 || i >= m.len() {
        m.len() as int
    } else if !text_before(m[i].0, k) {
        i
    } else {
        rank_from(m, k, i + 1)
    }
}

/// `m` with `k` set to `v`: in place where `m` has the name, and where it
/// has not, behind the names that come before `k`.
pub open spec fn upsert(m: Members, k: Seq<char>, v: JsonView) -> Members {
    let i = first_at(m, k, 0);
    if i < m.len() {
        m.update(i, (k, v))
    } else {
        m.insert(rank_from(m, k, 0), (k, v))
    }
}

/// `m` without the name `k`.
pub open spec fn without(m: Members, k: Seq<char>) -> Members {
    let i = first_at(m, k, 0);
    if i < m.len() {
        m.remove(i)
    } else {
        m
    }
}

/// No name occurs twice in `m`.
pub open spec fn distinct_names(m: Members) -> bool {
    forall|i: int, j: int| 0 <= i < j < m.len() ==> (#[trigger] m[i]).0 != (#[trigger] m[j]).0
}

/// The names of `m` are in order, each before the next.
pub open spec fn sorted_names(m: Members) -> bool {
    forall|i: int, j: int|
        0 <= i < j < m.len() ==> text_before((#[trigger] m[i]).0, (#[trigger] m[j]).0)
}

/// Names that are in order do not repeat.
pub proof fn sorted_is_distinct(m: Members)
    requires
        sorted_names(m),
    ensures
        distinct_names(m),
{
    assert forall|i: int, j: int| 0 <= i < j < m.len() implies (#[trigger] m[i]).0 != (
    #[trigger] m[j]).0 by {
        text_order(m[i].0, m[j].0, m[j].0);
    }
}

/// Where `rank_from` points: behind the names that come before `k`.
pub proof fn lemma_rank_from(m: Members, k: Seq<char>, i: int)
    requires
        0 <= i <= m.len(),
    ensures
        i <= rank_from(m, k, i) <= m.len(),
        rank_from(m, k, i) < m.len() ==> !text_before(m[rank_from(m, k, i)].0, k),
        forall|j: int| i <= j < rank_from(m, k, i) ==> text_before((#[trigger] m[j]).0, k),
    decreases m.len() - i,
{
    if i < m.len() && text_before(m[i].0, k) {
        lemma_rank_from(m, k, i + 1);
    }
}

/// In names that are in order and do not hold `k`, `k` comes before every
/// name from its rank on.
pub proof fn lemma_rank_splits(m: Members, k: Seq<char>)
    requires
        sorted_names(m),
        first_at(m, k, 0) == m.len(),
    ensures
        forall|j: int| rank_from(m, k, 0) <= j < m.len() ==> text_before(k, (#[trigger] m[j]).0),
{
    lemma_rank_from(m, k, 0);
    lemma_first_at(m, k, 0);
    let p = rank_from(m, k, 0);
    assert forall|j: int| p <= j < m.len() implies text_before(k, (#[trigger] m[j]).0) by {
        assert(m[p].0 != k);
        text_order(k, m[p].0, m[j].0);
        if j > p {
            assert(text_before(m[p].0, m[j].0));
        }
    }
}

/// Setting a name keeps the names in order.
pub proof fn upsert_keeps_order(m: Members, k: Seq<char>, v: JsonView)
    requires
        sorted_names(m),
    ensures
        sorted_names(upsert(m, k, v)),
{
    lemma_first_at(m, k, 0);
    lemma_rank_from(m, k, 0);
    let after = upsert(m, k, v);
    let i = first_at(m, k, 0);
    if i < m.len() {
        assert forall|a: int, b: int| 0 <= a < b < after.len() implies text_before(
            (#[trigger] after[a]).0,
            (#[trigger] after[b]).0,
        ) by {
            assert(text_before(m[a].0, m[b].0));
        }
    } else {
        lemma_rank_splits(m, k);
        let p = rank_from(m, k, 0);
        assert forall|a: int, b: int| 0 <= a < b < after.len() implies text_before(
            (#[trigger] after[a]).0,
            (#[trigger] after[b]).0,
        ) by {
            let a0 = if a < p { a } else { a - 1 };
            let b0 = if b < p { b } else { b - 1 };
            if a == p {
                assert(text_before(k, m[b0].0));
            } else if b == p {
                assert(text_before(m[a0].0, k));
            } else {
                assert(text_before(m[a0].0, m[b0].0));
            }
        }
    }
}

/// A name behind all names of `m` is set at the end.
pub proof fn upsert_at_end(m: Members, k: Seq<char>, v: JsonView)
    requires
        forall|j: int| 0 <= j < m.len() ==> text_before((#[trigger] m[j]).0, k),
    ensures
        upsert(m, k, v) == m.push((k, v)),
{
    lemma_first_at(m, k, 0);
    lemma_rank_from(m, k, 0);
    let i = first_at(m, k, 0);
    if i < m.len() {
        assert(text_before(m[i].0, k));
        text_order(k, k, k);
    }
    let p = rank_from(m, k, 0);
    if p < m.len() {
        assert(text_before(m[p].0, k));
    }
    assert(m.insert(m.len() as int, (k, v)) =~= m.push((k, v)));
}

/// Where `first_at` points: at the first member with the name, if any.
pub proof fn lemma_first_at(m: Members, k: Seq<char>, i: int)
    requires
        0 <= i <= m.len(),
    ensures
        i <= first_at(m, k, i) <= m.len(),
        first_at(m, k, i) < m.len() ==> m[first_at(m, k, i)].0 == k,
        forall|j: int| i <= j < first_at(m, k, i) ==> (#[trigger] m[j]).0 != k,
    decreases m.len() - i,
{
    if i < m.len() && m[i].0 != k {
        lemma_first_at(m, k, i + 1);
    }
}

/// The members that a list of entries stands for.
pub open spec fn members_of(entries: Seq<(String, Json)>) -> Members
    decreases entries,
{
    Seq::new(
        entries.len(),
        |i: int|
            if 0 <= i < entries.len() {
                (entries[i].0@, json_view(entries[i].1))
            } else {
                (Seq::empty(), JsonView::Null)
            },
    )
}

impl JsonMap {
    /// The members, as mathematical values.
    pub closed spec fn members(self) -> Members
        decreases self,
    {
        members_of(self.entries@)
    }

    #[verifier::type_invariant]
    spec fn well_formed(self) -> bool {
        sorted_names(self.members())
    }

    /// An object without members.
    pub fn new() -> (m: Self)
        ensures
            m@ == Members::empty(),
    {
        let m = JsonMap { entries: Vec::new() };
        assert(m.members() =~= Members::empty());
        m
    }

    /// The number of members.
    pub fn len(&self) -> (n: usize)
        ensures
            n == self@.len(),
            sorted_names(self@),
            distinct_names(self@),
    {
        proof {
            use_type_invariant(self);
            sorted_is_distinct(self.members());
        }
        self.entries.len()
    }

    /// Whether there is no member.
    pub fn is_empty(&self) -> (b: bool)
        ensures
            b == (self@.len() == 0),
    {
        self.entries.len() == 0
    }

    /// The name of the member at position `i`.
    pub fn key_at(&self, i: usize) -> (k: &String)
        requires
            i < self@.len(),
        ensures
            k@ == self@[i as int].0,
    {
        &self.entries[i].0
    }

    /// The value of the member at position `i`.
    pub fn value_at(&self, i: usize) -> (v: &Json)
        requires
            i < self@.len(),
        ensures
            v@ == self@[i as int].1,
            decreases_to!(*self => *v),
    {
        proof {
            vstd::std_specs::vec::axiom_vec_index_decreases(self.entries, i as int);
            assert(decreases_to!(self.entries => self.entries[i as int].1));
        }
        &self.entries[i].1
    }

    fn position(&self, key: &str) -> (i: usize)
        ensures
            i == first_at(self@, key@, 0),
            i <= self@.len(),
    {
        let name = String::from_str(key);
        let mut i: usize = 0;
        while i < self.entries.len()
            invariant
                i <= self.entries.len(),
                name@ == key@,
                self.entries.len() == self.members().len(),
                first_at(self.members(), key@, 0) == first_at(self.members(), key@, i as int),
            decreases self.entries.len() - i,
        {
            if self.entries[i].0 == name {
                return i;
            }
            i += 1;
        }
        i
    }

    /// Whether there is a member with the name `key`.
    pub fn contains_key(&self, key: &str) -> (b: bool)
        ensures
            b == lookup(self@, key@).is_some(),
    {
        let i = self.position(key);
        i < self.entries.len()
    }

    /// The value under the name `key`, if there is one.
    pub fn get(&self, key: &str) -> (r: Option<&Json>)
        ensures
            match r {
                Some(v) => lookup(self@, key@) == Some(v@),
                None => lookup(self@, key@).is_none(),
            },
    {
        let i = self.position(key);
        if i < self.entries.len() {
            Some(&self.entries[i].1)
        } else {
            None
        }
    }

    /// Sets the name `key` to `val`, replacing the value it had.
    pub fn insert(&mut self, key: String, val: Json)
        ensures
            final(self)@ == upsert(old(self)@, key@, val@),
    {
        proof {
            use_type_invariant(&*self);
        }
        let i = self.position(key.as_str());
        let ghost before = self.members();
        let ghost k = key@;
        let ghost v = val@;
        let mut at: usize = i;
        if i >= self.entries.len() {
            at = 0;
            while at < self.entries.len() && comes_before(
                self.entries[at].0.as_str(),
                key.as_str(),
            )
                invariant
                    at <= self.entries.len(),
                    self.entries.len() == self.members().len(),
                    rank_from(self.members(), key@, 0) == rank_from(
                        self.members(),
                        key@,
                        at as int,
                    ),
                decreases self.entries.len() - at,
            {
                at += 1;
            }
        }
        let mut entries: Vec<(String, Json)> = Vec::new();
        core::mem::swap(&mut self.entries, &mut entries);
        if i < entries.len() {
            entries[i] = (key, val);
        } else {
            entries.insert(at, (key, val));
        }
        proof {
            let after = members_of(entries@);
            if i < before.len() {
                assert(after =~= before.update(i as int, (k, v)));
            } else {
                assert(after =~= before.insert(at as int, (k, v)));
            }
            upsert_keeps_order(before, k, v);
        }
        core::mem::swap(&mut self.entries, &mut entries);
    }

    /// Removes the name `key` and its value, if it is there.
    pub fn remove(&mut self, key: &str)
        ensures
            final(self)@ == without(old(self)@, key@),
    {
        proof {
            use_type_invariant(&*self);
        }
        let i = self.position(key);
        let ghost before = self.members();
        if i < self.entries.len() {
            let mut entries: Vec<(String, Json)> = Vec::new();
            core::mem::swap(&mut self.entries, &mut entries);
            entries.remove(i);
            proof {
                let after = members_of(entries@);
                assert(after =~= before.remove(i as int));
                assert forall|a: int, b: int| 0 <= a < b < after.len() implies text_before(
                    (#[trigger] after[a]).0,
                    (#[trigger] after[b]).0,
                ) by {
                    let a0 = if a < i { a } else { a + 1 };
                    let b0 = if b < i { b } else { b + 1 };
                    assert(text_before(before[a0].0, before[b0].0));
                }
            }
            core::mem::swap(&mut self.entries, &mut entries);
        }
    }
}

impl Clone for JsonMap {
    fn clone(&self) -> (r: Self)
        ensures
            r@ == self@,
        decreases *self,
    {
        proof {
            use_type_invariant(self);
        }
        let mut out: Vec<(String, Json)> = Vec::new();
        let mut i: usize = 0;
        while i < self.entries.len()
            invariant
                i <= self.entries.len(),
                out.len() == i,
                forall|k: int|
                    0 <= k < i ==> (#[trigger] out@[k]).0@ == self.entries@[k].0@ && json_view(
                        out@[k].1,
                    ) == json_view(self.entries@[k].1),
            decreases self.entries.len() - i,
        {
            proof {
                vstd::std_specs::vec::axiom_vec_index_decreases(self.entries, i as int);
                assert(decreases_to!(*self => self.entries[i as int].1));
            }
            let key = self.entries[i].0.clone();
            let val = self.entries[i].1.clone();
            out.push((key, val));
            i += 1;
        }
        proof {
            assert(members_of(out@) =~= self.members());
        }
        JsonMap { entries: out }
    }
}

impl Clone for Json {
    fn clone(&self) -> (r: Self)
        ensures
            r@ == self@,
        decreases *self,
    {
        match self {
            Json::Null => Json::Null,
            Json::Bool(b) => Json::Bool(*b),
            Json::Int(n) => Json::Int(*n),
            Json::Float(t) => Json::Float(t.clone()),
            Json::Str(t) => Json::Str(t.clone()),
            Json::Array(v) => {
                let mut out: Vec<Json> = Vec::new();
                let mut i: usize = 0;
                while i < v.len()
                    invariant
                        i <= v.len(),
                        out.len() == i,
                        forall|k: int| 0 <= k < i ==> (#[trigger] out@[k])@ == v@[k]@,
                        self is Array,
                        self->Array_0 == *v,
                    decreases v.len() - i,
                {
                    proof {
                        vstd::std_specs::vec::axiom_vec_index_decreases(*v, i as int);
                        assert(decreases_to!(*self => v[i as int]));
                    }
                    let c = v[i].clone();
                    out.push(c);
                    i += 1;
                }
                let r = Json::Array(out);
                assert(r@->Array_0 =~= self@->Array_0);
                r
            },
            Json::Object(m) => Json::Object(m.clone()),
        }
    }
}

/// The value that a member merges into: the one of the same name, or
/// `null`.
pub open spec fn merge_target(ma: Members, k: Seq<char>) -> JsonView {
    match lookup(ma, k) {
        Some(v) => v,
        None => JsonView::Null,
    }
}

/// `a` overlaid with `b`. Where both are objects, the members of `b` are
/// laid over those of `a` one by one, each merged into the member of the
/// same name (into `null` where `a` has none); the other members of `a`
/// stay. In every other case the result is `b`.
pub open spec fn merged(a: JsonView, b: JsonView) -> JsonView
    decreases b, 0int,
{
    match b {
        JsonView::Object(mb) => match a {
            JsonView::Object(ma) => JsonView::Object(merged_from(ma, mb, 0)),
            _ => b,
        },
        _ => b,
    }
}

/// The members `ma` overlaid with the members of `mb` from position `i` on.
pub open spec fn merged_from(ma: Members, mb: Members, i: int) -> Members
    decreases mb, mb.len() - i,
{
    if i < 0 || i >= mb.len() {
        ma
    } else {
        merged_from(upsert(ma, mb[i].0, merged(merge_target(ma, mb[i].0), mb[i].1)), mb, i + 1)
    }
}

/// Overlays `a` with `b`: members that both objects have are merged,
/// anything else in `b` replaces what `a` has.
pub fn merge(a: &mut Json, b: &Json)
    ensures
        final(a)@ == merged(old(a)@, b@),
    decreases *b,
{
    let mut target = Json::Null;
    core::mem::swap(a, &mut target);
    match (target, b) {
        (Json::Object(mut ma), Json::Object(mb)) => {
            let ghost start = ma@;
            let mut i: usize = 0;
            while i < mb.len()
                invariant
                    i <= mb@.len(),
                    b is Object,
                    b->Object_0 == *mb,
                    merged_from(ma@, mb@, i as int) == merged_from(start, mb@, 0),
                decreases mb@.len() - i,
            {
                let key = mb.key_at(i);
                let value = mb.value_at(i);
                let mut current = match ma.get(key.as_str()) {
                    Some(v) => v.clone(),
                    None => Json::Null,
                };
                proof {
                    assert(decreases_to!(*b => b->Object_0));
                }
                merge(&mut current, value);
                ma.insert(key.clone(), current);
                i += 1;
            }
            *a = Json::Object(ma);
        },
        (_, _) => {
            *a = b.clone();
        },
    }
}

impl Json {
    /// The text of a JSON string; `None` for any other value.
    pub fn as_str(&self) -> (r: Option<&str>)
        ensures
            match self@ {
                JsonView::Str(t) => r matches Some(s) && s@ == t,
                _ => r is None,
            },
    {
        match self {
            Json::Str(t) => Some(t.as_str()),
            _ => None,
        }
    }

    /// The items of a JSON array; `None` for any other value.
    pub fn as_array(&self) -> (r: Option<&Vec<Json>>)
        ensures
            match self@ {
                JsonView::Array(items) => r matches Some(v) && items_of(v@) == items,
                _ => r is None,
            },
    {
        match self {
            Json::Array(v) => {
                assert(items_of(v@) =~= self@->Array_0);
                Some(v)
            },
            _ => None,
        }
    }

    /// The members of a JSON object; `None` for any other value.
    pub fn as_object(&self) -> (r: Option<&JsonMap>)
        ensures
            match self@ {
                JsonView::Object(members) => r matches Some(m) && m@ == members,
                _ => r is None,
            },
    {
        match self {
            Json::Object(m) => Some(m),
            _ => None,
        }
    }
}

/// The items of an array, as mathematical values.
pub open spec fn items_of(items: Seq<Json>) -> Seq<JsonView> {
    Seq::new(items.len(), |i: int| items[i]@)
}

/// A member that was set is there with its value.
pub proof fn lookup_after_upsert(m: Members, k: Seq<char>, v: JsonView)
    ensures
        lookup(upsert(m, k, v), k) == Some(v),
{
    lemma_first_at(m, k, 0);
    lemma_rank_from(m, k, 0);
    let i = first_at(m, k, 0);
    let at = if i < m.len() { i } else { rank_from(m, k, 0) };
    let after = upsert(m, k, v);
    lemma_first_at(after, k, 0);
    let j = first_at(after, k, 0);
    assert(after[at].0 == k);
    if j < at {
        assert(after[j] == m[j]);
        assert(m[j].0 != k);
    }
}

/// Setting a member leaves the members of other names as they were.
pub proof fn lookup_other_after_upsert(m: Members, k: Seq<char>, v: JsonView, other: Seq<char>)
    requires
        other != k,
    ensures
        lookup(upsert(m, k, v), other) == lookup(m, other),
{
    lemma_first_at(m, k, 0);
    lemma_first_at(m, other, 0);
    lemma_rank_from(m, k, 0);
    let after = upsert(m, k, v);
    lemma_first_at(after, other, 0);
    let i = first_at(m, other, 0);
    let j = first_at(after, other, 0);
    if first_at(m, k, 0) < m.len() {
        if i < m.len() {
            assert(after[i].0 == other);
            if j < i {
                assert(m[j].0 != other);
            }
        } else if j < after.len() {
            assert(m[j].0 != other);
        }
    } else {
        let p = rank_from(m, k, 0);
        if i < m.len() {
            let i1 = if i < p { i } else { i + 1 };
            assert(after[i1] == m[i]);
            if j < i1 {
                let j0 = if j < p { j } else { j - 1 };
                assert(j != p);
                assert(after[j] == m[j0]);
                assert(m[j0].0 != other);
            }
        } else if j < after.len() {
            let j0 = if j < p { j } else { j - 1 };
            assert(j != p);
            assert(after[j] == m[j0]);
            assert(m[j0].0 != other);
        }
    }
}

/// What a merge of two objects holds under a name: where the second
/// object has the name, its value merged into that of the first; where it
/// has not, what the first object holds.
pub proof fn merged_member(ma: Members, mb: Members, k: Seq<char>)
    requires
        distinct_names(mb),
    ensures
        lookup(merged_from(ma, mb, 0), k) == match lookup(mb, k) {
            Some(v) => Some(merged(merge_target(ma, k), v)),
            None => lookup(ma, k),
        },
{
    lemma_merged_member(ma, mb, k, 0);
}

proof fn lemma_merged_member(ma: Members, mb: Members, k: Seq<char>, i: int)
    requires
        distinct_names(mb),
        0 <= i <= mb.len(),
    ensures
        lookup(merged_from(ma, mb, i), k) == if first_at(mb, k, i) < mb.len() {
            Some(merged(merge_target(ma, k), mb[first_at(mb, k, i)].1))
        } else {
            lookup(ma, k)
        },
    decreases mb.len() - i,
{
    if i < mb.len() {
        let name = mb[i].0;
        let value = merged(merge_target(ma, name), mb[i].1);
        let next = upsert(ma, name, value);
        lemma_merged_member(next, mb, k, i + 1);
        lemma_first_at(mb, k, i + 1);
        if name == k {
            let j = first_at(mb, k, i + 1);
            if j < mb.len() {
                assert(mb[i].0 != mb[j].0);
            }
            lookup_after_upsert(ma, k, value);
        } else {
            lookup_other_after_upsert(ma, name, value, k);
        }
    }
}

} // verus!
