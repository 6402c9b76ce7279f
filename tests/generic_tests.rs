use std::rc::Rc;

use rparse::chars::is_digit;
use rparse::driver::{chars_with_eot, parse};
use rparse::forward::forward_ref;
use rparse::parser::{Combinators, Parser};
use rparse::primitives::{anyc, anycp, fails, lit, litv, ret};
use rparse::sequences::{seq3, seq3_ret_str};
use rparse::state::{Failed, State, Status, Succeeded};

fn start(text: &str) -> State {
    State::new(Rc::new("unit test".to_string()), Rc::new(chars_with_eot(text)))
}

fn check_ok<P: Parser>(text: &str, parser: &P, expected: P::Output) -> bool
where
    P::Output: PartialEq + std::fmt::Debug,
{
    match parser.parse(&start(text)) {
        Ok(pass) => {
            if pass.value != expected {
                println!("Expected {:?} but found {:?}", expected, pass.value);
                return false;
            }
            true
        }
        Err(failure) => {
            println!("Error: expected {:?} but found error {}", expected, failure.mesg);
            false
        }
    }
}

fn check_failed<P: Parser>(text: &str, parser: &P, expected: &str, line: usize) -> bool
where
    P::Output: std::fmt::Debug,
{
    match parser.parse(&start(text)) {
        Ok(pass) => {
            println!("Expected error '{}' but found {:?}", expected, pass.value);
            false
        }
        Err(failure) => {
            if failure.mesg != expected {
                println!("Expected error '{}' but found error '{}'", expected, failure.mesg);
                return false;
            }
            if failure.err_state.line != line {
                println!("Expected error '{}' on line {} but line is {}", expected, line, failure.err_state.line);
                return false;
            }
            true
        }
    }
}

// Written by hand rather than with the combinators, so that the combinators
// under test are the only ones involved.
fn parse_unary(input: &State) -> Status<char> {
    let ch = input.current();
    if ch == '-' || ch == '+' {
        Ok(Succeeded { new_state: input.advance(input.index + 1), value: ch })
    } else {
        Err(Failed { old_state: input.dup(), err_state: input.dup(), mesg: "'-' or '+'".to_string() })
    }
}

fn parse_digit(input: &State) -> Status<i64> {
    let ch = input.current();
    if ch >= '0' && ch <= '9' {
        Ok(Succeeded { new_state: input.advance(input.index + 1), value: ch.to_digit(10).unwrap() as i64 })
    } else {
        Err(Failed { old_state: input.dup(), err_state: input.dup(), mesg: "digit".to_string() })
    }
}

fn parse_num(op: char) -> impl Parser<Output = i64> {
    forward_ref(parse_digit).map(move |v: i64| if op == '-' { -v } else { v })
}

fn arith(lhs: i64, op: String, rhs: i64) -> i64 {
    if op == "*" {
        lhs * rhs
    } else {
        lhs / rhs
    }
}

#[test]
fn generic_tests_test_chainl1() {
    let factor = forward_ref(parse_digit);
    let op = lit("*").or(lit("/"));
    let p = factor.chainl1(op, arith);

    assert!(check_ok("2", &p, 2));
    assert!(check_ok("2*3", &p, 6));
    assert!(check_ok("2*3/4", &p, 1));
    assert!(check_ok("2*3/4/2", &p, 0));
    assert!(check_ok("2*3-4", &p, 6));
}

#[test]
fn generic_tests_test_chainr1() {
    let factor = forward_ref(parse_digit);
    let op = lit("*").or(lit("/"));
    let p = factor.chainr1(op, arith);

    assert!(check_ok("2", &p, 2));
    assert!(check_ok("2*3", &p, 6));
    assert!(check_ok("2*3/4", &p, 0));
    assert!(check_ok("2*3/4/2", &p, 2));
    assert!(check_ok("2*3-4", &p, 6));
}

#[test]
fn test_err() {
    let p = lit("<")._then(lit("foo"))._then(lit(">")).err("bracketed foo");

    assert!(check_ok("<foo>", &p, ">".to_string()));
    assert!(check_failed("", &p, "bracketed foo", 1));
    assert!(check_failed("<", &p, "'foo'", 1));
    assert!(check_failed("<foo", &p, "'>'", 1));
}

#[test]
fn generic_tests_test_everything() {
    let s = ret(0i64).s0();
    let p = forward_ref(parse_digit).everything(s);

    assert!(check_ok("2", &p, 2));
    assert!(check_ok("   \t3", &p, 3));
    assert!(check_failed("2 ", &p, "EOT", 1));
    assert!(check_failed("\t2\n", &p, "EOT", 1));
}

#[test]
fn generic_tests_test_fails() {
    let p = fails::<char>("ack");

    assert!(check_failed("", &p, "ack", 1));
    assert!(check_failed("9", &p, "ack", 1));
}

#[test]
fn generic_tests_test_list() {
    let p = lit("b").list(lit(","));

    assert!(check_ok("b", &p, vec!["b".to_string()]));
    assert!(check_ok("b,b", &p, vec!["b".to_string(), "b".to_string()]));
    assert!(check_ok("b,b,b", &p, vec!["b".to_string(), "b".to_string(), "b".to_string()]));
    assert!(check_ok("b,b,c", &p, vec!["b".to_string(), "b".to_string()]));

    assert!(check_failed("", &p, "'b'", 1));
    assert!(check_failed("c", &p, "'b'", 1));
}

#[test]
fn generic_tests_test_parse() {
    let p = lit("<").s0()._then(lit("foo").s0())._then(lit(">")).err("bracketed foo");

    match parse(&p, "unit test", "< foo\t>") {
        Ok(s) => assert_eq!(s, ">"),
        Err(e) => panic!("Error '{}' on line {} and col {}.", e.mesg, e.line, e.col),
    }

    assert!(check_failed("<foo", &p, "'>'", 1));
    match parse(&p, "unit test", "< \n\nfoo\tx") {
        Ok(s) => panic!("Somehow parsed '{}'.", s),
        Err(e) => {
            assert_eq!(e.file, "unit test");
            assert_eq!(e.line, 3);
            assert_eq!(e.col, 5);
            assert_eq!(e.mesg, "'>'");
        }
    }
}

#[test]
fn test__r0() {
    let p = lit("b").r0();

    assert!(check_ok("", &p, vec![]));
    assert!(check_ok("b", &p, vec!["b".to_string()]));
    assert!(check_ok("bb", &p, vec!["b".to_string(), "b".to_string()]));
    assert!(check_ok("bbb", &p, vec!["b".to_string(), "b".to_string(), "b".to_string()]));
    assert!(check_ok("c", &p, vec![]));
}

#[test]
fn test__r1() {
    let p = lit("b").r1().err("b's");

    assert!(check_ok("b", &p, vec!["b".to_string()]));
    assert!(check_ok("bb", &p, vec!["b".to_string(), "b".to_string()]));
    assert!(check_ok("bbb", &p, vec!["b".to_string(), "b".to_string(), "b".to_string()]));

    assert!(check_failed("", &p, "b's", 1));
    assert!(check_failed("c", &p, "b's", 1));
}

#[test]
fn test_ret() {
    let p = ret('x');

    assert!(check_ok("a", &p, 'x'));
    assert!(check_ok("e", &p, 'x'));
    assert!(check_ok(" ", &p, 'x'));
}

#[test]
fn test_litv() {
    let p = litv("foo", "hmm".to_string());

    assert!(check_ok("foo", &p, "hmm".to_string()));
    assert!(check_ok("foo-shizzle", &p, "hmm".to_string()));
    assert!(check_failed("", &p, "'foo'", 1));
    assert!(check_failed("bar", &p, "'foo'", 1));
    assert!(check_failed("pseudo foo", &p, "'foo'", 1));
}

#[test]
fn generic_tests_test_optional() {
    let p = seq3_ret_str(lit("a"), lit("b").optional(), lit("c"));

    assert!(check_ok("abc", &p, "abc".to_string()));
    assert!(check_ok("ac", &p, "ac".to_string()));
    assert!(check_failed("ad", &p, "'c'", 1));
    assert!(check_failed("dbe", &p, "'a'", 1));
}

#[test]
fn test_s0() {
    let p = lit("x").s0()._then(lit("y"));

    assert!(check_ok("xy", &p, "y".to_string()));
    assert!(check_ok("x y", &p, "y".to_string()));
    assert!(check_ok("x \n\t y", &p, "y".to_string()));

    assert!(check_failed("x z", &p, "'y'", 1));
    assert!(check_failed("x\nz", &p, "'y'", 2));
    assert!(check_failed("x\n\r\nz", &p, "'y'", 3));
}

#[test]
fn test_s1() {
    let p = lit("x").s1()._then(lit("y"));

    assert!(check_ok("x y", &p, "y".to_string()));
    assert!(check_ok("x \n\t y", &p, "y".to_string()));

    assert!(check_failed("xy", &p, "whitespace", 1));
    assert!(check_failed("x z", &p, "'y'", 1));
    assert!(check_failed("x\nz", &p, "'y'", 2));
    assert!(check_failed("x\n\r\nz", &p, "'y'", 3));
}

#[test]
fn test_seq3() {
    let p = seq3(anyc("+-"), anycp(is_digit), anycp(is_digit), |a: char, b: char, c: char| {
        let x = (10 * b.to_digit(10).unwrap() + c.to_digit(10).unwrap()) as i64;
        Ok(if a == '-' { -x } else { x })
    });

    assert!(check_ok("+23", &p, 23));
    assert!(check_ok("+239", &p, 23));
    assert!(check_ok("-19", &p, -19));
    assert!(check_failed("", &p, "[+-]", 1));
    assert!(check_failed("+2", &p, "", 1));
    assert!(check_failed("2", &p, "[+-]", 1));
}

#[test]
fn generic_tests_test_then() {
    let p = lit("<")._then(lit("foo"))._then(lit(">"));

    assert!(check_ok("<foo>", &p, ">".to_string()));
    assert!(check_failed("", &p, "'<'", 1));
    assert!(check_failed("<", &p, "'foo'", 1));
    assert!(check_failed("<foo", &p, "'>'", 1));
    assert!(check_failed("<foo-", &p, "'>'", 1));

    // If any part of the sequence fails, the next parser must start over.
    let result = p.parse(&start("<foo-"));
    assert_eq!(result.err().unwrap().old_state.index, 0);
}

#[test]
fn test_thene() {
    let p = forward_ref(parse_unary).thene(|c: char| parse_num(c));

    assert!(check_ok("-9", &p, -9));
    assert!(check_ok("+3", &p, 3));
    assert!(check_failed("", &p, "'-' or '+'", 1));
    assert!(check_failed("~9", &p, "'-' or '+'", 1));
    assert!(check_failed("--9", &p, "digit", 1));

    let result = p.parse(&start("~9"));
    assert_eq!(result.err().unwrap().old_state.index, 0);

    let result = p.parse(&start("--"));
    assert_eq!(result.err().unwrap().old_state.index, 0);
}
