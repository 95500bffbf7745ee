//! The tag query language.
//!
//! ```text
//! expr   := term ( "|" term )*
//! term   := factor ( "&" factor )*
//! factor := "!" factor | "(" expr ")" | TAG
//! ```
//!
//! `!` binds tighter than `&`, which binds tighter than `|`; both binary
//! operators associate to the left. White space between tokens is skipped.
//! A query is lexed into [`Token`]s, parsed into an [`Expr`] and evaluated
//! against the tags of one host.

use crate::error::Error;
use crate::text::{
    blank, is_blank, is_reserved, is_tag, is_tag_char, reserved, tag_char, texts, to_chars,
};
use vstd::prelude::*;
use vstd::string::StrSliceExecFns;
use vstd::string::StringExecFns;

verus! {

/// A token of a tag query.
#[derive(Debug, PartialEq, Eq)]
pub enum Token {
    OpenParen,
    CloseParen,
    AndOp,
    OrOp,
    NotOp,
    Tag(String),
}

/// A token as a mathematical value.
pub ghost enum Tok {
    OpenParen,
    CloseParen,
    AndOp,
    OrOp,
    NotOp,
    Tag(Seq<char>),
}

impl View for Token {
    type V = Tok;

    open spec fn view(&self) -> Tok {
        match self {
            Token::OpenParen => Tok::OpenParen,
            Token::CloseParen => Tok::CloseParen,
            Token::AndOp => Tok::AndOp,
            Token::OrOp => Tok::OrOp,
            Token::NotOp => Tok::NotOp,
            Token::Tag(t) => Tok::Tag(t@),
        }
    }
}

impl Tok {
    /// The token as it is written in a query.
    pub open spec fn text(self) -> Seq<char> {
        match self {
            Tok::OpenParen => "("@,
            Tok::CloseParen => ")"@,
            Tok::AndOp => "&"@,
            Tok::OrOp => "|"@,
            Tok::NotOp => "!"@,
            Tok::Tag(t) => t,
        }
    }
}

impl Token {
    /// The token as it is written in a query.
    pub fn text(&self) -> (s: String)
        ensures
            s@ == self@.text(),
    {
        match self {
            Token::OpenParen => String::from_str("("),
            Token::CloseParen => String::from_str(")"),
            Token::AndOp => String::from_str("&"),
            Token::OrOp => String::from_str("|"),
            Token::NotOp => String::from_str("!"),
            Token::Tag(t) => t.clone(),
        }
    }
}

/// The tokens of a vector, as mathematical values.
pub open spec fn token_views(tokens: Seq<Token>) -> Seq<Tok> {
    Seq::new(tokens.len(), |i: int| tokens[i]@)
}

/// A parsed tag query.
#[derive(Debug, PartialEq, Eq)]
pub enum Expr {
    /// True of a host that carries the tag.
    Tag(String),
    Not(Box<Expr>),
    And(Box<Expr>, Box<Expr>),
    Or(Box<Expr>, Box<Expr>),
}

/// A parsed tag query as a mathematical value.
pub ghost enum Ast {
    Tag(Seq<char>),
    Not(Box<Ast>),
    And(Box<Ast>, Box<Ast>),
    Or(Box<Ast>, Box<Ast>),
}

/// The mathematical value of a parsed query.
pub open spec fn expr_ast(e: Expr) -> Ast
    decreases e,
{
    match e {
        Expr::Tag(t) => Ast::Tag(t@),
        Expr::Not(e) => Ast::Not(Box::new(expr_ast(*e))),
        Expr::And(l, r) => Ast::And(Box::new(expr_ast(*l)), Box::new(expr_ast(*r))),
        Expr::Or(l, r) => Ast::Or(Box::new(expr_ast(*l)), Box::new(expr_ast(*r))),
    }
}

impl View for Expr {
    type V = Ast;

    open spec fn view(&self) -> Ast {
        expr_ast(*self)
    }
}

impl Ast {
    /// The value of the query on a host that carries exactly `tags`.
    pub open spec fn holds(self, tags: Seq<Seq<char>>) -> bool
        decreases self,
    {
        match self {
            Ast::Tag(t) => tags.contains(t),
            Ast::Not(e) => !e.holds(tags),
            Ast::And(l, r) => l.holds(tags) && r.holds(tags),
            Ast::Or(l, r) => l.holds(tags) || r.holds(tags),
        }
    }
}

// ---------------------------------------------------------------------
// Lexing
// ---------------------------------------------------------------------

/// The token that a reserved character stands for.
pub open spec fn symbol(c: char) -> Tok {
    if c == '(' {
        Tok::OpenParen
    } else if c == ')' {
        Tok::CloseParen
    } else if c == '&' {
        Tok::AndOp
    } else if c == '|' {
        Tok::OrOp
    } else {
        Tok::NotOp
    }
}

/// Where the run of tag characters that covers position `i` ends.
pub open spec fn tag_end(s: Seq<char>, i: int) -> int
    decreases s.len() - i,
{
    if 0 <= i < s.len() && is_tag_char(s[i]) {
        tag_end(s, i + 1)
    } else {
        i
    }
}

/// The tokens of `s` from position `i` on. White space is passed over, a
/// reserved character is a token by itself, and any other character starts
/// a tag, which is as long as it can be.
pub open spec fn lex_from(s: Seq<char>, i: int) -> Seq<Tok>
    decreases s.len() - i,
{
    if i < 0 || i >= s.len() {
        Seq::empty()
    } else if is_blank(s[i]) {
        lex_from(s, i + 1)
    } else if is_reserved(s[i]) {
        seq![symbol(s[i])] + lex_from(s, i + 1)
    } else {
        proof {
            lemma_tag_run(s, i + 1);
        }
        seq![Tok::Tag(s.subrange(i, tag_end(s, i + 1)))] + lex_from(s, tag_end(s, i + 1))
    }
}

/// The tokens of a query.
pub open spec fn tokens_of(s: Seq<char>) -> Seq<Tok> {
    lex_from(s, 0)
}

/// The message of the error that reports `fragment` as the offending part
/// of a query.
pub open spec fn invalid_token_text(fragment: Seq<char>) -> Seq<char> {
    "Invalid token in tag expression: "@ + fragment
}

/// The error that reports `fragment` as the offending part of a query.
pub fn invalid_token(fragment: &str) -> (e: Error)
    ensures
        e matches Error::InvalidToken(m) && m@ == invalid_token_text(fragment@),
{
    let mut message = String::from_str("Invalid token in tag expression: ");
    message.append(fragment);
    Error::InvalidToken(message)
}

fn symbol_token(c: char) -> (t: Token)
    requires
        is_reserved(c),
    ensures
        t@ == symbol(c),
{
    if c == '(' {
        Token::OpenParen
    } else if c == ')' {
        Token::CloseParen
    } else if c == '&' {
        Token::AndOp
    } else if c == '|' {
        Token::OrOp
    } else {
        Token::NotOp
    }
}

/// Splits a query into its tokens.
pub fn lex(input: &str) -> (tokens: Vec<Token>)
    ensures
        token_views(tokens@) == tokens_of(input@),
{
    let chars = to_chars(input);
    let mut tokens: Vec<Token> = Vec::new();
    let mut i: usize = 0;
    proof {
        assert(token_views(tokens@) =~= Seq::<Tok>::empty());
        assert(Seq::<Tok>::empty() + lex_from(input@, 0) =~= lex_from(input@, 0));
    }
    while i < chars.len()
        invariant
            i <= chars.len(),
            chars@ == input@,
            lex_from(input@, 0) == token_views(tokens@) + lex_from(input@, i as int),
        decreases chars.len() - i,
    {
        let c = chars[i];
        let ghost before = token_views(tokens@);
        if blank(c) {
            i += 1;
        } else if reserved(c) {
            let t = symbol_token(c);
            tokens.push(t);
            proof {
                assert(token_views(tokens@) =~= before.push(symbol(c)));
                assert(before + (seq![symbol(c)] + lex_from(input@, i + 1)) =~= before.push(
                    symbol(c),
                ) + lex_from(input@, i + 1));
            }
            i += 1;
        } else {
            let mut end: usize = i + 1;
            while end < chars.len() && tag_char(chars[end])
                invariant
                    i < end <= chars.len(),
                    chars@ == input@,
                    tag_end(input@, end as int) == tag_end(input@, i + 1),
                decreases chars.len() - end,
            {
                end += 1;
            }
            let name = input.substring_char(i, end);
            tokens.push(Token::Tag(String::from_str(name)));
            proof {
                let t = Tok::Tag(input@.subrange(i as int, end as int));
                assert(tag_end(input@, i + 1) == end);
                assert(token_views(tokens@) =~= before.push(t));
                assert(before + (seq![t] + lex_from(input@, end as int)) =~= before.push(t)
                    + lex_from(input@, end as int));
            }
            i = end;
        }
    }
    proof {
        assert(token_views(tokens@) + Seq::<Tok>::empty() =~= token_views(tokens@));
    }
    tokens
}

// ---------------------------------------------------------------------
// Parsing
// ---------------------------------------------------------------------

/// A factor that starts at token `i`, with the position after it; or the
/// position of the token that cannot stand where it does (the number of
/// tokens, where the query ends too early).
pub open spec fn parse_factor(t: Seq<Tok>, i: int) -> Result<(Ast, int), int>
    decreases t.len() - i, 0int,
{
    if i < 0 || i >= t.len() {
        Err(i)
    } else {
        match t[i] {
            Tok::Tag(name) => Ok((Ast::Tag(name), i + 1)),
            Tok::NotOp => match parse_factor(t, i + 1) {
                Ok((e, j)) => Ok((Ast::Not(Box::new(e)), j)),
                Err(p) => Err(p),
            },
            Tok::OpenParen => match parse_expr(t, i + 1) {
                Ok((e, j)) => if 0 <= j < t.len() && t[j] is CloseParen {
                    Ok((e, j + 1))
                } else {
                    Err(j)
                },
                Err(p) => Err(p),
            },
            _ => Err(i),
        }
    }
}

/// The factors that follow `left` from token `j` on, each behind a `&`,
/// joined to it from the left.
pub open spec fn parse_term_rest(t: Seq<Tok>, left: Ast, j: int) -> Result<(Ast, int), int>
    decreases t.len() - j, 1int,
{
    if 0 <= j < t.len() && t[j] is AndOp {
        match parse_factor(t, j + 1) {
            Ok((right, k)) => if j < k <= t.len() {
                parse_term_rest(t, Ast::And(Box::new(left), Box::new(right)), k)
            } else {
                Err(j)
            },
            Err(p) => Err(p),
        }
    } else {
        Ok((left, j))
    }
}

/// A term that starts at token `i`.
pub open spec fn parse_term(t: Seq<Tok>, i: int) -> Result<(Ast, int), int>
    decreases t.len() - i, 2int,
{
    match parse_factor(t, i) {
        Ok((left, j)) => if i < j <= t.len() {
            parse_term_rest(t, left, j)
        } else {
            Err(i)
        },
        Err(p) => Err(p),
    }
}

/// The terms that follow `left` from token `j` on, each behind a `|`,
/// joined to it from the left.
pub open spec fn parse_expr_rest(t: Seq<Tok>, left: Ast, j: int) -> Result<(Ast, int), int>
    decreases t.len() - j, 3int,
{
    if 0 <= j < t.len() && t[j] is OrOp {
        match parse_term(t, j + 1) {
            Ok((right, k)) => if j < k <= t.len() {
                parse_expr_rest(t, Ast::Or(Box::new(left), Box::new(right)), k)
            } else {
                Err(j)
            },
            Err(p) => Err(p),
        }
    } else {
        Ok((left, j))
    }
}

/// An expression that starts at token `i`.
pub open spec fn parse_expr(t: Seq<Tok>, i: int) -> Result<(Ast, int), int>
    decreases t.len() - i, 4int,
{
    match parse_term(t, i) {
        Ok((left, j)) => if i < j <= t.len() {
            parse_expr_rest(t, left, j)
        } else {
            Err(i)
        },
        Err(p) => Err(p),
    }
}

/// The expression that the tokens spell out as a whole, or the position of
/// the first token that does not fit.
pub open spec fn parse_tokens(t: Seq<Tok>) -> Result<Ast, int> {
    match parse_expr(t, 0) {
        Ok((e, j)) => if j == t.len() {
            Ok(e)
        } else {
            Err(j)
        },
        Err(p) => Err(p),
    }
}

/// How the token at position `p` is shown in an error.
pub open spec fn fragment_at(t: Seq<Tok>, p: int) -> Seq<char> {
    if 0 <= p < t.len() {
        t[p].text()
    } else {
        "end of expression"@
    }
}

/// The meaning of a query: its syntax tree, or else the fragment at which
/// it stops being well-formed.
pub open spec fn query_ast(s: Seq<char>) -> Result<Ast, Seq<char>> {
    match parse_tokens(tokens_of(s)) {
        Ok(e) => Ok(e),
        Err(p) => Err(fragment_at(tokens_of(s), p)),
    }
}

/// An executable parse result agrees with a mathematical one, and a
/// successful one ends after `i` and within `len` tokens.
pub open spec fn agrees(
    r: Result<(Expr, usize), usize>,
    s: Result<(Ast, int), int>,
    i: int,
    len: int,
) -> bool {
    match r {
        Ok((e, j)) => s == Ok::<(Ast, int), int>((e@, j as int)) && i < j <= len,
        Err(p) => s == Err::<(Ast, int), int>(p as int) && p <= len,
    }
}

fn factor(tokens: &Vec<Token>, i: usize) -> (r: Result<(Expr, usize), usize>)
    requires
        i <= tokens.len(),
    ensures
        agrees(r, parse_factor(token_views(tokens@), i as int), i as int, tokens.len() as int),
    decreases tokens.len() - i, 0int,
{
    if i >= tokens.len() {
        return Err(i);
    }
    match &tokens[i] {
        Token::Tag(name) => Ok((Expr::Tag(name.clone()), i + 1)),
        Token::NotOp => match factor(tokens, i + 1) {
            Ok((e, j)) => Ok((Expr::Not(Box::new(e)), j)),
            Err(p) => Err(p),
        },
        Token::OpenParen => match expr(tokens, i + 1) {
            Ok((e, j)) => {
                if j < tokens.len() && is_close(&tokens[j]) {
                    Ok((e, j + 1))
                } else {
                    Err(j)
                }
            },
            Err(p) => Err(p),
        },
        _ => Err(i),
    }
}

fn is_close(t: &Token) -> (b: bool)
    ensures
        b == (t@ is CloseParen),
{
    match t {
        Token::CloseParen => true,
        _ => false,
    }
}

fn is_and(t: &Token) -> (b: bool)
    ensures
        b == (t@ is AndOp),
{
    match t {
        Token::AndOp => true,
        _ => false,
    }
}

fn is_or(t: &Token) -> (b: bool)
    ensures
        b == (t@ is OrOp),
{
    match t {
        Token::OrOp => true,
        _ => false,
    }
}

fn term_rest(tokens: &Vec<Token>, left: Expr, j: usize) -> (r: Result<(Expr, usize), usize>)
    requires
        j <= tokens.len(),
    ensures
        match r {
            Ok((e, k)) => parse_term_rest(token_views(tokens@), left@, j as int) == Ok::<
                (Ast, int),
                int,
            >((e@, k as int)) && j <= k <= tokens.len(),
            Err(p) => parse_term_rest(token_views(tokens@), left@, j as int) == Err::<
                (Ast, int),
                int,
            >(p as int) && p <= tokens.len(),
        },
    decreases tokens.len() - j, 1int,
{
    if j < tokens.len() && is_and(&tokens[j]) {
        match factor(tokens, j + 1) {
            Ok((right, k)) => term_rest(tokens, Expr::And(Box::new(left), Box::new(right)), k),
            Err(p) => Err(p),
        }
    } else {
        Ok((left, j))
    }
}

fn term(tokens: &Vec<Token>, i: usize) -> (r: Result<(Expr, usize), usize>)
    requires
        i <= tokens.len(),
    ensures
        agrees(r, parse_term(token_views(tokens@), i as int), i as int, tokens.len() as int),
    decreases tokens.len() - i, 2int,
{
    match factor(tokens, i) {
        Ok((left, j)) => term_rest(tokens, left, j),
        Err(p) => Err(p),
    }
}

fn expr_rest(tokens: &Vec<Token>, left: Expr, j: usize) -> (r: Result<(Expr, usize), usize>)
    requires
        j <= tokens.len(),
    ensures
        match r {
            Ok((e, k)) => parse_expr_rest(token_views(tokens@), left@, j as int) == Ok::<
                (Ast, int),
                int,
            >((e@, k as int)) && j <= k <= tokens.len(),
            Err(p) => parse_expr_rest(token_views(tokens@), left@, j as int) == Err::<
                (Ast, int),
                int,
            >(p as int) && p <= tokens.len(),
        },
    decreases tokens.len() - j, 3int,
{
    if j < tokens.len() && is_or(&tokens[j]) {
        match term(tokens, j + 1) {
            Ok((right, k)) => expr_rest(tokens, Expr::Or(Box::new(left), Box::new(right)), k),
            Err(p) => Err(p),
        }
    } else {
        Ok((left, j))
    }
}

fn expr(tokens: &Vec<Token>, i: usize) -> (r: Result<(Expr, usize), usize>)
    requires
        i <= tokens.len(),
    ensures
        agrees(r, parse_expr(token_views(tokens@), i as int), i as int, tokens.len() as int),
    decreases tokens.len() - i, 4int,
{
    match term(tokens, i) {
        Ok((left, j)) => expr_rest(tokens, left, j),
        Err(p) => Err(p),
    }
}

/// What [`parse`] returns on `input`: the syntax tree of the query, or an
/// `InvalidToken` error that shows where the query stops being well-formed.
pub open spec fn parsed(input: Seq<char>, r: Result<Expr, Error>) -> bool {
    match query_ast(input) {
        Ok(ast) => r matches Ok(e) && e@ == ast,
        Err(fragment) => r matches Err(Error::InvalidToken(m)) && m@ == invalid_token_text(
            fragment,
        ),
    }
}

/// Parses a tag query.
pub fn parse(input: &str) -> (r: Result<Expr, Error>)
    ensures
        parsed(input@, r),
{
    let tokens = lex(input);
    match expr(&tokens, 0) {
        Ok((e, j)) => {
            if j == tokens.len() {
                Ok(e)
            } else {
                let shown = tokens[j].text();
                Err(invalid_token(shown.as_str()))
            }
        },
        Err(p) => {
            if p < tokens.len() {
                let shown = tokens[p].text();
                Err(invalid_token(shown.as_str()))
            } else {
                Err(invalid_token("end of expression"))
            }
        },
    }
}

// ---------------------------------------------------------------------
// Evaluation
// ---------------------------------------------------------------------

/// Whether `name` is one of `tags`.
pub fn has_tag(tags: &Vec<String>, name: &String) -> (b: bool)
    ensures
        b == texts(tags@).contains(name@),
{
    let mut i: usize = 0;
    while i < tags.len()
        invariant
            i <= tags.len(),
            forall|k: int| 0 <= k < i ==> texts(tags@)[k] != name@,
        decreases tags.len() - i,
    {
        if tags[i] == *name {
            assert(texts(tags@)[i as int] == name@);
            return true;
        }
        i += 1;
    }
    false
}

impl Expr {
    /// Evaluates the query on the tags of one host. The right operand of
    /// `&` is not looked at when the left one is false, nor that of `|`
    /// when the left one is true.
    pub fn eval(&self, tags: &Vec<String>) -> (b: bool)
        ensures
            b == self@.holds(texts(tags@)),
        decreases self,
    {
        match self {
            Expr::Tag(name) => has_tag(tags, name),
            Expr::Not(e) => !e.eval(tags),
            Expr::And(l, r) => l.eval(tags) && r.eval(tags),
            Expr::Or(l, r) => l.eval(tags) || r.eval(tags),
        }
    }
}

/// What [`eval_tag_expr`] returns for a query and a list of tags: the value
/// of the query where it is well-formed, an `InvalidToken` error that shows
/// the offending fragment where it is not.
pub open spec fn evaluated(expr: Seq<char>, tags: Seq<Seq<char>>, r: Result<bool, Error>) -> bool {
    match query_ast(expr) {
        Ok(ast) => r == Ok::<bool, Error>(ast.holds(tags)),
        Err(fragment) => r matches Err(Error::InvalidToken(m)) && m@ == invalid_token_text(
            fragment,
        ),
    }
}

/// Evaluate a boolean tag expression against a list of tags.
pub fn eval_tag_expr(expr: &str, tags: Vec<String>) -> (r: Result<bool, Error>)
    ensures
        evaluated(expr@, texts(tags@), r),
{
    match parse(expr) {
        Ok(e) => Ok(e.eval(&tags)),
        Err(e) => Err(e),
    }
}

// ---------------------------------------------------------------------
// What holds of every query
// ---------------------------------------------------------------------

/// What a run of tag characters is: it holds tag characters only, and ends
/// at the end of the text or before a character that is none.
pub proof fn lemma_tag_run(s: Seq<char>, i: int)
    requires
        0 <= i <= s.len(),
    ensures
        i <= tag_end(s, i) <= s.len(),
        forall|k: int| i <= k < tag_end(s, i) ==> is_tag_char(#[trigger] s[k]),
        tag_end(s, i) < s.len() ==> !is_tag_char(s[tag_end(s, i)]),
    decreases s.len() - i,
{
    if i < s.len() && is_tag_char(s[i]) {
        lemma_tag_run(s, i + 1);
    }
}

/// A run of tag characters ends where the tag characters end.
proof fn lemma_tag_end_is(s: Seq<char>, i: int, end: int)
    requires
        0 <= i <= end <= s.len(),
        forall|k: int| i <= k < end ==> is_tag_char(#[trigger] s[k]),
        end < s.len() ==> !is_tag_char(s[end]),
    ensures
        tag_end(s, i) == end,
    decreases end - i,
{
    if i < end {
        lemma_tag_end_is(s, i + 1, end);
    }
}

/// Behind a character that is put into a text, the tokens are those of the
/// text from the place of the character on.
proof fn lemma_lex_behind(s: Seq<char>, p: int, c: char, i: int)
    requires
        0 <= p <= i <= s.len(),
    ensures
        lex_from(s.insert(p, c), i + 1) == lex_from(s, i),
    decreases s.len() - i,
{
    let t = s.insert(p, c);
    if i < s.len() {
        assert(t[i + 1] == s[i]);
        if is_blank(s[i]) || is_reserved(s[i]) {
            lemma_lex_behind(s, p, c, i + 1);
        } else {
            lemma_tag_run(s, i + 1);
            let end = tag_end(s, i + 1);
            assert forall|k: int| i + 2 <= k < end + 1 implies is_tag_char(#[trigger] t[k]) by {
                assert(t[k] == s[k - 1]);
            }
            if end < s.len() {
                assert(t[end + 1] == s[end]);
            }
            lemma_tag_end_is(t, i + 2, end + 1);
            assert(t.subrange(i + 1, end + 1) =~= s.subrange(i, end));
            lemma_lex_behind(s, p, c, end);
        }
    }
}

/// Before white space that is put between two tokens, the tokens are those
/// of the text.
proof fn lemma_lex_before(s: Seq<char>, p: int, c: char, i: int)
    requires
        0 <= i <= p <= s.len(),
        is_blank(c),
        p == 0 || p == s.len() || !is_tag_char(s[p - 1]) || !is_tag_char(s[p]),
    ensures
        lex_from(s.insert(p, c), i) == lex_from(s, i),
    decreases p - i,
{
    let t = s.insert(p, c);
    if i == p {
        lemma_lex_behind(s, p, c, p);
    } else {
        assert(t[i] == s[i]);
        if is_blank(s[i]) || is_reserved(s[i]) {
            lemma_lex_before(s, p, c, i + 1);
        } else {
            lemma_tag_run(s, i + 1);
            let end = tag_end(s, i + 1);
            if end > p {
                assert(is_tag_char(s[p]));
                if p - 1 > i {
                    assert(is_tag_char(s[p - 1]));
                }
                assert(false);
            }
            assert forall|k: int| i + 1 <= k < end implies is_tag_char(#[trigger] t[k]) by {
                assert(t[k] == s[k]);
            }
            if end < p {
                assert(t[end] == s[end]);
            } else {
                assert(t[end] == c);
            }
            lemma_tag_end_is(t, i + 1, end);
            assert(t.subrange(i, end) =~= s.subrange(i, end));
            lemma_lex_before(s, p, c, end);
        }
    }
}

/// White space between tokens is insignificant: a query into which white
/// space is put at a place that is not inside a tag has the same tokens,
/// and so the same meaning.
pub proof fn white_space_is_skipped(s: Seq<char>, p: int, c: char)
    requires
        0 <= p <= s.len(),
        is_blank(c),
        p == 0 || p == s.len() || !is_tag_char(s[p - 1]) || !is_tag_char(s[p]),
    ensures
        tokens_of(s.insert(p, c)) == tokens_of(s),
        query_ast(s.insert(p, c)) == query_ast(s),
{
    lemma_lex_before(s, p, c, 0);
}

/// An expression written out in tokens, with brackets round every `&` and
/// `|`.
pub open spec fn written(e: Ast) -> Seq<Tok>
    decreases e,
{
    match e {
        Ast::Tag(name) => seq![Tok::Tag(name)],
        Ast::Not(x) => seq![Tok::NotOp] + written(*x),
        Ast::And(l, r) => seq![Tok::OpenParen] + written(*l) + seq![Tok::AndOp] + written(*r)
            + seq![Tok::CloseParen],
        Ast::Or(l, r) => seq![Tok::OpenParen] + written(*l) + seq![Tok::OrOp] + written(*r)
            + seq![Tok::CloseParen],
    }
}

/// Where the tokens of a written expression stand, a factor is read that
/// is this expression.
proof fn lemma_written_factor(t: Seq<Tok>, i: int, e: Ast)
    requires
        0 <= i,
        i + written(e).len() <= t.len(),
        t.subrange(i, i + written(e).len()) == written(e),
    ensures
        parse_factor(t, i) == Ok::<(Ast, int), int>((e, i + written(e).len())),
    decreases e,
{
    let n = written(e).len() as int;
    let w = written(e);
    assert forall|k: int| 0 <= k < n implies #[trigger] t[i + k] == w[k] by {
        assert(t.subrange(i, i + n)[k] == t[i + k]);
    }
    match e {
        Ast::Tag(name) => {
            assert(t[i + 0] == w[0]);
        },
        Ast::Not(x) => {
            assert(t[i + 0] == w[0]);
            assert forall|k: int| 0 <= k < n - 1 implies t.subrange(i + 1, i + n)[k] == written(
                *x,
            )[k] by {
                assert(t[i + (k + 1)] == w[k + 1]);
            }
            assert(t.subrange(i + 1, i + n) =~= written(*x));
            lemma_written_factor(t, i + 1, *x);
        },
        Ast::And(l, r) => {
            let a = written(*l).len() as int;
            let b = written(*r).len() as int;
            assert(n == a + b + 3);
            assert(t[i + 0] == w[0]);
            assert(t[i + (1 + a)] == w[1 + a]);
            assert(t[i + (2 + a + b)] == w[2 + a + b]);
            assert forall|k: int| 0 <= k < a implies t.subrange(i + 1, i + 1 + a)[k] == written(
                *l,
            )[k] by {
                assert(t[i + (k + 1)] == w[k + 1]);
            }
            assert forall|k: int| 0 <= k < b implies t.subrange(i + 2 + a, i + 2 + a + b)[k]
                == written(*r)[k] by {
                assert(t[i + (k + 2 + a)] == w[k + 2 + a]);
            }
            assert(t.subrange(i + 1, i + 1 + a) =~= written(*l));
            assert(t.subrange(i + 2 + a, i + 2 + a + b) =~= written(*r));
            lemma_written_factor(t, i + 1, *l);
            lemma_written_factor(t, i + 2 + a, *r);
            let both = Ast::And(Box::new(*l), Box::new(*r));
            assert(parse_term_rest(t, both, i + 2 + a + b) == Ok::<(Ast, int), int>(
                (both, i + 2 + a + b),
            ));
            assert(parse_term_rest(t, *l, i + 1 + a) == Ok::<(Ast, int), int>(
                (both, i + 2 + a + b),
            ));
            assert(parse_term(t, i + 1) == Ok::<(Ast, int), int>((both, i + 2 + a + b)));
            assert(parse_expr_rest(t, both, i + 2 + a + b) == Ok::<(Ast, int), int>(
                (both, i + 2 + a + b),
            ));
            assert(parse_expr(t, i + 1) == Ok::<(Ast, int), int>((both, i + 2 + a + b)));
        },
        Ast::Or(l, r) => {
            let a = written(*l).len() as int;
            let b = written(*r).len() as int;
            assert(n == a + b + 3);
            assert(t[i + 0] == w[0]);
            assert(t[i + (1 + a)] == w[1 + a]);
            assert(t[i + (2 + a + b)] == w[2 + a + b]);
            assert forall|k: int| 0 <= k < a implies t.subrange(i + 1, i + 1 + a)[k] == written(
                *l,
            )[k] by {
                assert(t[i + (k + 1)] == w[k + 1]);
            }
            assert forall|k: int| 0 <= k < b implies t.subrange(i + 2 + a, i + 2 + a + b)[k]
                == written(*r)[k] by {
                assert(t[i + (k + 2 + a)] == w[k + 2 + a]);
            }
            assert(t.subrange(i + 1, i + 1 + a) =~= written(*l));
            assert(t.subrange(i + 2 + a, i + 2 + a + b) =~= written(*r));
            lemma_written_factor(t, i + 1, *l);
            lemma_written_factor(t, i + 2 + a, *r);
            let either = Ast::Or(Box::new(*l), Box::new(*r));
            assert(parse_term_rest(t, *l, i + 1 + a) == Ok::<(Ast, int), int>((*l, i + 1 + a)));
            assert(parse_term(t, i + 1) == Ok::<(Ast, int), int>((*l, i + 1 + a)));
            assert(parse_term_rest(t, *r, i + 2 + a + b) == Ok::<(Ast, int), int>(
                (*r, i + 2 + a + b),
            ));
            assert(parse_term(t, i + 2 + a) == Ok::<(Ast, int), int>((*r, i + 2 + a + b)));
            assert(parse_expr_rest(t, either, i + 2 + a + b) == Ok::<(Ast, int), int>(
                (either, i + 2 + a + b),
            ));
            assert(parse_expr_rest(t, *l, i + 1 + a) == Ok::<(Ast, int), int>(
                (either, i + 2 + a + b),
            ));
            assert(parse_expr(t, i + 1) == Ok::<(Ast, int), int>((either, i + 2 + a + b)));
        },
    }
}

/// Every expression can be written as a query: its tokens, with brackets
/// round every `&` and `|`, are read back as the expression itself.
pub proof fn written_is_read_back(e: Ast)
    ensures
        parse_tokens(written(e)) == Ok::<Ast, int>(e),
{
    let t = written(e);
    let n = t.len() as int;
    assert(t.subrange(0, n) =~= t);
    lemma_written_factor(t, 0, e);
    assert(parse_term_rest(t, e, n) == Ok::<(Ast, int), int>((e, n)));
    assert(parse_term(t, 0) == Ok::<(Ast, int), int>((e, n)));
    assert(parse_expr_rest(t, e, n) == Ok::<(Ast, int), int>((e, n)));
    assert(parse_expr(t, 0) == Ok::<(Ast, int), int>((e, n)));
}

/// What the operators mean: a query in brackets with `&` holds where both
/// sides hold, one with `|` where either side holds, and a query behind `!`
/// where the query does not hold.
pub proof fn operators_mean(l: Ast, r: Ast, tags: Seq<Seq<char>>)
    ensures
        parse_tokens(seq![Tok::OpenParen] + written(l) + seq![Tok::AndOp] + written(r)
            + seq![Tok::CloseParen]) matches Ok(e) && e.holds(tags) == (l.holds(tags) && r.holds(
            tags,
        )),
        parse_tokens(seq![Tok::OpenParen] + written(l) + seq![Tok::OrOp] + written(r)
            + seq![Tok::CloseParen]) matches Ok(e) && e.holds(tags) == (l.holds(tags) || r.holds(
            tags,
        )),
        parse_tokens(seq![Tok::NotOp] + written(l)) matches Ok(e) && e.holds(tags) == !l.holds(
            tags,
        ),
{
    written_is_read_back(Ast::And(Box::new(l), Box::new(r)));
    written_is_read_back(Ast::Or(Box::new(l), Box::new(r)));
    written_is_read_back(Ast::Not(Box::new(l)));
}

/// A host tag is a query by itself: the query that holds of the hosts that
/// carry the tag.
pub proof fn tag_is_a_query(tag: Seq<char>, tags: Seq<Seq<char>>)
    requires
        is_tag(tag),
    ensures
        query_ast(tag) == Ok::<Ast, Seq<char>>(Ast::Tag(tag)),
        evaluated(tag, tags, Ok(tags.contains(tag))),
{
    let n = tag.len() as int;
    lemma_tag_end_is(tag, 1, n);
    assert(tag.subrange(0, n) =~= tag);
    assert(lex_from(tag, n) == Seq::<Tok>::empty());
    let tokens = seq![Tok::Tag(tag)];
    assert(seq![Tok::Tag(tag)] + Seq::<Tok>::empty() =~= tokens);
    assert(lex_from(tag, 0) == tokens);
    assert(written(Ast::Tag(tag)) == tokens);
    written_is_read_back(Ast::Tag(tag));
}

} // verus!
