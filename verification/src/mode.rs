//! Mode strings, as `chmod` takes them.
//!
//! A mode string is a list of parts with commas between them. A part that
//! ends in an octal digit is an octal mode such as `=755`. Any other part
//! is a symbolic mode such as `ug+rw`: letters of `ugoa` that say whose
//! bits are meant, then one or more expressions, each an operator `-`, `+`
//! or `=` and what it applies: the bits of `u`, `g` or `o`, or letters of
//! `rwxXst`.
//!
//! Whether a mode string is well-formed is left to the reader of mode
//! strings. What is decided here is whether it can be handed to that
//! reader at all: the reader takes everything behind an operator that is
//! not `u`, `g` or `o` for permission letters up to the end of the part,
//! and cannot cope with anything else there.

use crate::text::to_chars;
use vstd::prelude::*;

verus! {

pub open spec fn is_octal_digit(c: char) -> bool {
    '0' <= c && c <= '7'
}

pub open spec fn is_operator(c: char) -> bool {
    c == '-' || c == '+' || c == '='
}

/// The letters that say whose bits a symbolic mode changes.
pub open spec fn is_who(c: char) -> bool {
    c == 'u' || c == 'g' || c == 'o' || c == 'a'
}

/// The letters that stand for the bits of the owner, the group or the
/// others as the value of an expression.
pub open spec fn is_source(c: char) -> bool {
    c == 'u' || c == 'g' || c == 'o'
}

pub open spec fn is_permission(c: char) -> bool {
    c == 'r' || c == 'w' || c == 'x' || c == 'X' || c == 's' || c == 't'
}

/// Where the part that starts at `i` ends: at the next comma, or at the end
/// of the text.
pub open spec fn part_end(s: Seq<char>, i: int) -> int
    decreases s.len() - i,
{
    if i < 0 || i >= s.len() {
        s.len() as int
    } else if s[i] == ',' {
        i
    } else {
        part_end(s, i + 1)
    }
}

/// Where the letters of `ugoa` from `i` on end, within a part that ends at
/// `end`.
pub open spec fn who_end(s: Seq<char>, i: int, end: int) -> int
    decreases end - i,
{
    if 0 <= i < end && is_who(s[i]) {
        who_end(s, i + 1, end)
    } else {
        i
    }
}

/// All characters from `i` to `end` are permission letters.
pub open spec fn all_permissions(s: Seq<char>, i: int, end: int) -> bool {
    forall|k: int| i <= k < end ==> is_permission(#[trigger] s[k])
}

/// The expressions from `i` to `end` can be read: behind each operator
/// stands nothing, or one of `u`, `g`, `o`, or permission letters only up
/// to the end of the part. What stands where an operator is looked for and
/// is none ends the reading.
pub open spec fn expressions_safe(s: Seq<char>, i: int, end: int) -> bool
    decreases end - i,
{
    if i < 0 || i >= end || !is_operator(s[i]) {
        true
    } else if i + 1 >= end {
        true
    } else if is_source(s[i + 1]) {
        expressions_safe(s, i + 2, end)
    } else {
        all_permissions(s, i + 1, end)
    }
}

/// The part from `start` to `end` can be read: it ends in an octal digit,
/// or its expressions can be read.
pub open spec fn part_safe(s: Seq<char>, start: int, end: int) -> bool {
    (start < end && is_octal_digit(s[end - 1])) || expressions_safe(s, who_end(s, start, end), end)
}

/// The part of a mode string never ends before it starts.
pub proof fn lemma_part_end(s: Seq<char>, i: int)
    requires
        0 <= i <= s.len(),
    ensures
        i <= part_end(s, i) <= s.len(),
        part_end(s, i) < s.len() ==> s[part_end(s, i)] == ',',
    decreases s.len() - i,
{
    if i < s.len() && s[i] != ',' {
        lemma_part_end(s, i + 1);
    }
}

/// The parts from `start` on can all be read.
pub open spec fn parts_safe(s: Seq<char>, start: int) -> bool
    decreases s.len() - start,
{
    if start < 0 || start > s.len() {
        true
    } else {
        proof {
            lemma_part_end(s, start);
        }
        part_safe(s, start, part_end(s, start)) && (part_end(s, start) >= s.len() || parts_safe(
            s,
            part_end(s, start) + 1,
        ))
    }
}

/// The mode strings that can be handed to the reader of mode strings.
pub open spec fn is_safe_mode_string(s: Seq<char>) -> bool {
    parts_safe(s, 0)
}

fn octal_digit(c: char) -> (b: bool)
    ensures
        b == is_octal_digit(c),
{
    '0' <= c && c <= '7'
}

fn operator(c: char) -> (b: bool)
    ensures
        b == is_operator(c),
{
    c == '-' || c == '+' || c == '='
}

fn who(c: char) -> (b: bool)
    ensures
        b == is_who(c),
{
    c == 'u' || c == 'g' || c == 'o' || c == 'a'
}

fn source(c: char) -> (b: bool)
    ensures
        b == is_source(c),
{
    c == 'u' || c == 'g' || c == 'o'
}

fn permission(c: char) -> (b: bool)
    ensures
        b == is_permission(c),
{
    c == 'r' || c == 'w' || c == 'x' || c == 'X' || c == 's' || c == 't'
}

fn check_permissions(chars: &Vec<char>, from: usize, end: usize) -> (b: bool)
    requires
        from <= end <= chars.len(),
    ensures
        b == all_permissions(chars@, from as int, end as int),
{
    let mut k: usize = from;
    while k < end
        invariant
            from <= k <= end <= chars.len(),
            all_permissions(chars@, from as int, k as int),
        decreases end - k,
    {
        if !permission(chars[k]) {
            return false;
        }
        k += 1;
    }
    true
}

fn check_part(chars: &Vec<char>, start: usize, end: usize) -> (b: bool)
    requires
        start <= end <= chars.len(),
    ensures
        b == part_safe(chars@, start as int, end as int),
{
    if start < end && octal_digit(chars[end - 1]) {
        return true;
    }
    let mut i: usize = start;
    while i < end && who(chars[i])
        invariant
            start <= i <= end <= chars.len(),
            who_end(chars@, i as int, end as int) == who_end(chars@, start as int, end as int),
        decreases end - i,
    {
        i += 1;
    }
    let ghost first = i;
    while i < end && operator(chars[i])
        invariant
            first <= i <= end <= chars.len(),
            !(start < end && is_octal_digit(chars@[end - 1])),
            first == who_end(chars@, start as int, end as int),
            expressions_safe(chars@, i as int, end as int) == expressions_safe(
                chars@,
                first as int,
                end as int,
            ),
        decreases end - i,
    {
        if i + 1 >= end {
            return true;
        }
        if source(chars[i + 1]) {
            i += 2;
        } else {
            return check_permissions(chars, i + 1, end);
        }
    }
    true
}

/// Whether a mode string can be handed to the reader of mode strings.
pub fn check_mode_string(mode_str: &str) -> (ok: bool)
    ensures
        ok == is_safe_mode_string(mode_str@),
{
    let chars = to_chars(mode_str);
    let mut start: usize = 0;
    loop
        invariant
            start <= chars.len(),
            chars@ == mode_str@,
            parts_safe(chars@, 0) == parts_safe(chars@, start as int),
        decreases chars.len() - start,
    {
        let mut end: usize = start;
        while end < chars.len() && chars[end] != ','
            invariant
                start <= end <= chars.len(),
                part_end(chars@, end as int) == part_end(chars@, start as int),
            decreases chars.len() - end,
        {
            end += 1;
        }
        if !check_part(&chars, start, end) {
            return false;
        }
        if end >= chars.len() {
            return true;
        }
        start = end + 1;
    }
}

} // verus!
