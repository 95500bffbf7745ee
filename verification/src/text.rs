//! Character classes of identifiers, tags and tag queries, and the bridge
//! from strings to their characters.

use vstd::prelude::*;

verus! {

/// The characters that act as operators and brackets in a tag query.
pub open spec fn is_reserved(c: char) -> bool {
    c == '!' || c == '&' || c == '|' || c == '(' || c == ')'
}

/// White space: space, tab, line feed, carriage return and form feed. It
/// may stand between the tokens of a tag query and cannot stand in a tag.
pub open spec fn is_blank(c: char) -> bool {
    c == ' ' || c == '\t' || c == '\n' || c == '\r' || c == '\x0c'
}

/// The characters a tag is made of: anything but a reserved character and
/// white space.
pub open spec fn is_tag_char(c: char) -> bool {
    !is_reserved(c) && !is_blank(c)
}

/// The characters that may start a host identifier.
pub open spec fn is_id_start(c: char) -> bool {
    ('a' <= c && c <= 'z') || ('A' <= c && c <= 'Z') || ('0' <= c && c <= '9') || c == '_'
}

/// The characters that may follow the first one in a host identifier.
pub open spec fn is_id_char(c: char) -> bool {
    is_id_start(c) || c == '-'
}

/// The texts of a list of strings.
pub open spec fn texts(strings: Seq<String>) -> Seq<Seq<char>> {
    Seq::new(strings.len(), |i: int| strings[i]@)
}

/// A tag: one or more tag characters.
pub open spec fn is_tag(s: Seq<char>) -> bool {
    s.len() > 0 && forall|i: int| 0 <= i < s.len() ==> is_tag_char(#[trigger] s[i])
}

/// A host identifier: a start character, then identifier characters.
pub open spec fn is_host_id(s: Seq<char>) -> bool {
    s.len() > 0 && is_id_start(s[0]) && forall|i: int|
        0 <= i < s.len() ==> is_id_char(#[trigger] s[i])
}

pub fn reserved(c: char) -> (b: bool)
    ensures
        b == is_reserved(c),
{
    c == '!' || c == '&' || c == '|' || c == '(' || c == ')'
}

pub fn blank(c: char) -> (b: bool)
    ensures
        b == is_blank(c),
{
    c == ' ' || c == '\t' || c == '\n' || c == '\r' || c == '\x0c'
}

pub fn tag_char(c: char) -> (b: bool)
    ensures
        b == is_tag_char(c),
{
    !reserved(c) && !blank(c)
}

pub fn id_start(c: char) -> (b: bool)
    ensures
        b == is_id_start(c),
{
    ('a' <= c && c <= 'z') || ('A' <= c && c <= 'Z') || ('0' <= c && c <= '9') || c == '_'
}

pub fn id_char(c: char) -> (b: bool)
    ensures
        b == is_id_char(c),
{
    id_start(c) || c == '-'
}

/// The characters of a string, in order.
pub fn to_chars(s: &str) -> (v: Vec<char>)
    ensures
        v@ == s@,
{
    let mut v: Vec<char> = Vec::new();
    for c in it: s.chars()
        invariant
            v@ == it.seq().take(it.index() as int),
    {
        v.push(c);
    }
    v
}

/// Whether a string is a tag.
pub fn check_tag(s: &str) -> (b: bool)
    ensures
        b == is_tag(s@),
{
    let chars = to_chars(s);
    if chars.len() == 0 {
        return false;
    }
    let mut i: usize = 0;
    while i < chars.len()
        invariant
            i <= chars.len(),
            chars@ == s@,
            forall|k: int| 0 <= k < i ==> is_tag_char(#[trigger] chars@[k]),
        decreases chars.len() - i,
    {
        if !tag_char(chars[i]) {
            return false;
        }
        i += 1;
    }
    true
}

/// Whether a string is a host identifier.
pub fn check_host_id(s: &str) -> (b: bool)
    ensures
        b == is_host_id(s@),
{
    let chars = to_chars(s);
    if chars.len() == 0 || !id_start(chars[0]) {
        return false;
    }
    let mut i: usize = 0;
    while i < chars.len()
        invariant
            i <= chars.len(),
            chars@ == s@,
            is_id_start(s@[0]),
            forall|k: int| 0 <= k < i ==> is_id_char(#[trigger] chars@[k]),
        decreases chars.len() - i,
    {
        if !id_char(chars[i]) {
            return false;
        }
        i += 1;
    }
    true
}

/// Whether `a` comes before `b` from position `i` on, where the two agree
/// before `i`: `a` ends first, or the first character in which they differ
/// is the smaller one in `a`.
pub open spec fn before_from(a: Seq<char>, b: Seq<char>, i: int) -> bool
    decreases a.len() - i,
{
    if i < 0 || i >= b.len() {
        false
    } else if i >= a.len() {
        true
    } else if a[i] != b[i] {
        a[i] < b[i]
    } else {
        before_from(a, b, i + 1)
    }
}

/// The order of strings: `a` comes before `b`.
pub open spec fn text_before(a: Seq<char>, b: Seq<char>) -> bool {
    before_from(a, b, 0)
}

/// Whether the string `a` comes before the string `b`.
pub fn comes_before(a: &str, b: &str) -> (r: bool)
    ensures
        r == text_before(a@, b@),
{
    let x = to_chars(a);
    let y = to_chars(b);
    let mut i: usize = 0;
    while i < x.len() && i < y.len() && x[i] == y[i]
        invariant
            i <= x.len(),
            i <= y.len(),
            x@ == a@,
            y@ == b@,
            before_from(a@, b@, 0) == before_from(a@, b@, i as int),
        decreases x.len() - i,
    {
        i += 1;
    }
    if i >= y.len() {
        false
    } else if i >= x.len() {
        true
    } else {
        x[i] < y[i]
    }
}

/// A string comes before another where the two agree up to a position at
/// which the first has the smaller character.
pub proof fn before_at(a: Seq<char>, b: Seq<char>, d: int)
    requires
        0 <= d < a.len(),
        d < b.len(),
        forall|j: int| 0 <= j < d ==> a[j] == b[j],
        a[d] < b[d],
    ensures
        text_before(a, b),
{
    lemma_before_at(a, b, d, 0);
}

proof fn lemma_before_at(a: Seq<char>, b: Seq<char>, d: int, i: int)
    requires
        0 <= i <= d < a.len(),
        d < b.len(),
        forall|j: int| 0 <= j < d ==> a[j] == b[j],
        a[d] < b[d],
    ensures
        before_from(a, b, i),
    decreases d - i,
{
    if i < d {
        lemma_before_at(a, b, d, i + 1);
    }
}

/// Two strings that agree before `i` and of which neither comes before the
/// other from `i` on are the same string.
pub proof fn lemma_before_or_same(a: Seq<char>, b: Seq<char>, i: int)
    requires
        0 <= i <= a.len(),
        i <= b.len(),
        a.subrange(0, i) == b.subrange(0, i),
        !before_from(a, b, i),
        !before_from(b, a, i),
    ensures
        a == b,
    decreases a.len() - i,
{
    if i < a.len() && i < b.len() {
        assert(a[i] == b[i]);
        assert(a.subrange(0, i + 1) =~= a.subrange(0, i).push(a[i]));
        assert(b.subrange(0, i + 1) =~= b.subrange(0, i).push(b[i]));
        lemma_before_or_same(a, b, i + 1);
    } else {
        assert(a.subrange(0, i) =~= a);
        assert(b.subrange(0, i) =~= b);
    }
}

/// Of two strings at most one comes before the other.
pub proof fn lemma_before_one_way(a: Seq<char>, b: Seq<char>, i: int)
    requires
        0 <= i,
        before_from(a, b, i),
    ensures
        !before_from(b, a, i),
    decreases a.len() - i,
{
    if i < a.len() && i < b.len() && a[i] == b[i] {
        lemma_before_one_way(a, b, i + 1);
    }
}

/// The order of strings is transitive.
pub proof fn lemma_before_transitive(a: Seq<char>, b: Seq<char>, c: Seq<char>, i: int)
    requires
        0 <= i,
        before_from(a, b, i),
        before_from(b, c, i),
    ensures
        before_from(a, c, i),
    decreases a.len() - i,
{
    if i < a.len() && i < b.len() && i < c.len() && a[i] == b[i] && b[i] == c[i] {
        lemma_before_transitive(a, b, c, i + 1);
    }
}

/// The order of strings is a strict total order: no string comes before
/// itself, of two different strings exactly one comes before the other,
/// and what comes before a string comes before all that come after it.
pub proof fn text_order(a: Seq<char>, b: Seq<char>, c: Seq<char>)
    ensures
        !text_before(a, a),
        a != b ==> (text_before(a, b) <==> !text_before(b, a)),
        text_before(a, b) && text_before(b, c) ==> text_before(a, c),
{
    if text_before(a, a) {
        lemma_before_one_way(a, a, 0);
    }
    if text_before(a, b) {
        lemma_before_one_way(a, b, 0);
        if text_before(b, c) {
            lemma_before_transitive(a, b, c, 0);
        }
    } else if !text_before(b, a) {
        assert(a.subrange(0, 0) =~= b.subrange(0, 0));
        lemma_before_or_same(a, b, 0);
    }
}

} // verus!
