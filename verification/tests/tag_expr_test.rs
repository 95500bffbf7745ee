use tricorder::prelude::{eval_tag_expr, Error};
use tricorder::tag_expr::{lex, parse, Expr, Token};

fn tags(names: &[&str]) -> Vec<String> {
    names.iter().map(|name| name.to_string()).collect()
}

fn invalid(fragment: &str) -> Error {
    Error::InvalidToken(format!("Invalid token in tag expression: {}", fragment))
}

fn tag(name: &str) -> Box<Expr> {
    Box::new(Expr::Tag(name.to_string()))
}

#[test]
fn eval_tag_expr_should_return_appropriate_values() {
    let tags = vec!["foo".to_string(), "bar".to_string(), "baz".to_string()];

    assert!(eval_tag_expr("foo", tags.clone()).unwrap());
    assert!(eval_tag_expr("foo | biz", tags.clone()).unwrap());
    assert!(!eval_tag_expr("foo & biz", tags.clone()).unwrap());
    assert!(eval_tag_expr("foo & (bar | biz)", tags.clone()).unwrap());
    assert!(!eval_tag_expr("foo & !(bar | biz)", tags.clone()).unwrap());
}

#[test]
fn a_tag_holds_only_on_an_exact_match() {
    assert_eq!(eval_tag_expr("foo", tags(&["foo"])), Ok(true));
    assert_eq!(eval_tag_expr("foo", tags(&["food", "fo", "Foo"])), Ok(false));
    assert_eq!(eval_tag_expr("foo", tags(&[])), Ok(false));
}

#[test]
fn and_binds_tighter_than_or() {
    // a | (b & c), not (a | b) & c
    assert_eq!(eval_tag_expr("a | b & c", tags(&["a"])), Ok(true));
    assert_eq!(eval_tag_expr("a & b | c", tags(&["c"])), Ok(true));
    assert_eq!(eval_tag_expr("(a | b) & c", tags(&["a"])), Ok(false));
    assert_eq!(
        parse("a | b & c"),
        Ok(Expr::Or(tag("a"), Box::new(Expr::And(tag("b"), tag("c")))))
    );
}

#[test]
fn not_binds_tighter_than_and() {
    // (!a) & b, not !(a & b)
    assert_eq!(eval_tag_expr("!a & b", tags(&[])), Ok(false));
    assert_eq!(eval_tag_expr("!(a & b)", tags(&[])), Ok(true));
    assert_eq!(eval_tag_expr("!!a", tags(&["a"])), Ok(true));
    assert_eq!(
        parse("!a & b"),
        Ok(Expr::And(Box::new(Expr::Not(tag("a"))), tag("b")))
    );
}

#[test]
fn binary_operators_associate_to_the_left() {
    assert_eq!(
        parse("a & b & c"),
        Ok(Expr::And(Box::new(Expr::And(tag("a"), tag("b"))), tag("c")))
    );
    assert_eq!(
        parse("a | b | c"),
        Ok(Expr::Or(Box::new(Expr::Or(tag("a"), tag("b"))), tag("c")))
    );
}

#[test]
fn white_space_between_tokens_is_skipped() {
    assert_eq!(
        lex(" \tfoo\n&\x0c( bar\r|!baz )\r\n"),
        vec![
            Token::Tag("foo".to_string()),
            Token::AndOp,
            Token::OpenParen,
            Token::Tag("bar".to_string()),
            Token::OrOp,
            Token::NotOp,
            Token::Tag("baz".to_string()),
            Token::CloseParen,
        ]
    );
    assert_eq!(eval_tag_expr("foo&bar", tags(&["foo", "bar"])), Ok(true));
    assert_eq!(eval_tag_expr("  foo  &  bar  ", tags(&["foo", "bar"])), Ok(true));
}

#[test]
fn a_tag_is_as_long_as_it_can_be() {
    assert_eq!(
        lex("web-01.eu_west+é"),
        vec![Token::Tag("web-01.eu_west+é".to_string())]
    );
    assert_eq!(lex(""), vec![]);
    assert_eq!(lex(" \t\r\n\x0c"), vec![]);
}

#[test]
fn queries_that_differ_in_white_space_between_tokens_agree() {
    let plain = "foo&(bar|biz)";
    let spaced = " foo  & ( bar\t|\r\nbiz ) ";
    assert_eq!(lex(plain), lex(spaced));
    assert_eq!(parse(plain), parse(spaced));
    for host in [tags(&[]), tags(&["foo"]), tags(&["foo", "biz"]), tags(&["bar"])] {
        assert_eq!(eval_tag_expr(plain, host.clone()), eval_tag_expr(spaced, host));
    }
    assert_eq!(eval_tag_expr("a|b", tags(&[])), Ok(false));
    assert_eq!(eval_tag_expr("a\r|b", tags(&[])), Ok(false));
    assert_eq!(eval_tag_expr("a\r|b", tags(&["b"])), Ok(true));
    assert_eq!(eval_tag_expr("foo &\r", tags(&[])), eval_tag_expr("foo &", tags(&[])));
}

#[test]
fn white_space_ends_a_tag() {
    for blank in [" ", "\t", "\n", "\r", "\x0c"] {
        assert_eq!(
            lex(&format!("a{}b", blank)),
            vec![Token::Tag("a".to_string()), Token::Tag("b".to_string())]
        );
        assert_eq!(
            eval_tag_expr(&format!("a{}b", blank), tags(&["a", "b"])),
            Err(invalid("b"))
        );
    }
}

#[test]
fn a_malformed_query_is_an_error() {
    let host = tags(&["foo", "bar"]);
    // missing operand
    assert_eq!(eval_tag_expr("", host.clone()), Err(invalid("end of expression")));
    assert_eq!(eval_tag_expr("foo &", host.clone()), Err(invalid("end of expression")));
    assert_eq!(eval_tag_expr("!", host.clone()), Err(invalid("end of expression")));
    assert_eq!(eval_tag_expr("foo | & bar", host.clone()), Err(invalid("&")));
    assert_eq!(eval_tag_expr("()", host.clone()), Err(invalid(")")));
    // unmatched parenthesis
    assert_eq!(eval_tag_expr("(foo", host.clone()), Err(invalid("end of expression")));
    assert_eq!(eval_tag_expr("foo)", host.clone()), Err(invalid(")")));
    assert_eq!(eval_tag_expr("(foo | bar))", host.clone()), Err(invalid(")")));
    // invalid operator placement
    assert_eq!(eval_tag_expr("& foo", host.clone()), Err(invalid("&")));
    assert_eq!(eval_tag_expr("foo ! bar", host.clone()), Err(invalid("!")));
    assert_eq!(eval_tag_expr("foo bar", host.clone()), Err(invalid("bar")));
    assert_eq!(eval_tag_expr("foo (bar)", host.clone()), Err(invalid("(")));
}

#[test]
fn an_error_does_not_depend_on_the_tags() {
    assert_eq!(eval_tag_expr("foo &", tags(&[])), Err(invalid("end of expression")));
    assert_eq!(eval_tag_expr("foo &", tags(&["foo"])), Err(invalid("end of expression")));
}

#[test]
fn the_right_operand_is_skipped_when_the_left_one_decides() {
    let query = parse("a & (b | c) | !d").unwrap();
    assert!(query.eval(&tags(&[])));
    assert!(!query.eval(&tags(&["d"])));
    assert!(query.eval(&tags(&["a", "c", "d"])));
    assert!(!query.eval(&tags(&["a", "d"])));
}

#[test]
fn strings_are_ordered_as_the_standard_library_orders_them() {
    let samples = ["", "a", "ab", "abc", "b", "B", "é", "e", "file_path", "file_size", "z", "\u{10000}", "\u{ffff}"];
    for a in samples {
        for b in samples {
            assert_eq!(tricorder::text::comes_before(a, b), a < b);
        }
    }
}

#[test]
fn a_token_reads_as_it_is_written() {
    assert_eq!(Token::OpenParen.text(), "(");
    assert_eq!(Token::CloseParen.text(), ")");
    assert_eq!(Token::AndOp.text(), "&");
    assert_eq!(Token::OrOp.text(), "|");
    assert_eq!(Token::NotOp.text(), "!");
    assert_eq!(Token::Tag("web".to_string()).text(), "web");
}
