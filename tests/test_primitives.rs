use std::rc::Rc;

use rparse::c99::{is_identifier_prefix, is_identifier_suffix};
use rparse::combinators::optional_str;
use rparse::driver::{chars_with_eot, parse};
use rparse::forward::forward_ref;
use rparse::parser::{Combinators, Parser};
use rparse::primitives::{lit, match1};
use rparse::sequences::{seq2, seq3};
use rparse::state::{Failed, State, Status, Succeeded};

fn start(text: &str) -> State {
    State::new(Rc::new("unit test".to_string()), Rc::new(chars_with_eot(text)))
}

fn check_ok<P: Parser>(text: &str, parser: &P, expected: P::Output) -> bool
where
    P::Output: PartialEq + std::fmt::Debug,
{
    match parser.parse(&start(text)) {
        Ok(pass) => {
            if pass.value != expected {
                println!("Expected {:?} but found {:?}", expected, pass.value);
                return false;
            }
            true
        }
        Err(failure) => {
            println!("Error: expected {:?} but found error {}", expected, failure.mesg);
            false
        }
    }
}

fn check_failed<P: Parser>(text: &str, parser: &P, expected: &str, line: usize) -> bool
where
    P::Output: std::fmt::Debug,
{
    match parser.parse(&start(text)) {
        Ok(pass) => {
            println!("Expected error '{}' but found {:?}", expected, pass.value);
            false
        }
        Err(failure) => {
            if failure.mesg != expected {
                println!("Expected error '{}' but found error '{}'", expected, failure.mesg);
                return false;
            }
            if failure.err_state.line != line {
                println!("Expected error '{}' on line {} but line is {}", expected, line, failure.err_state.line);
                return false;
            }
            true
        }
    }
}

fn is_identifier_trailer(ch: char) -> bool {
    ch == '?' || ch == '!'
}

#[test]
fn test_seq() {
    let prefix = match1(is_identifier_prefix);
    let suffix = match1(is_identifier_suffix).r0();
    let trailer = optional_str(match1(is_identifier_trailer));
    let p = seq3(prefix, suffix, trailer, |a: String, b: Vec<String>, c: String| Ok(a + &b.concat() + &c))
        .err("identifier");

    assert!(check_ok("hey", &p, "hey".to_string()));
    assert!(check_ok("hey?", &p, "hey?".to_string()));
    assert!(check_ok("hey!", &p, "hey!".to_string()));
    assert!(check_ok("hey_there", &p, "hey_there".to_string()));
    assert!(check_ok("hey there", &p, "hey".to_string()));
    assert!(check_ok("spanky123xy", &p, "spanky123xy".to_string()));
    assert!(check_failed("", &p, "identifier", 1));

    let p = seq2(lit("a"), lit("b"), |x: String, y: String| Ok(x + &y));
    let result = p.parse(&start("az"));
    assert_eq!(result.err().unwrap().old_state.index, 0);
}

fn parse_lower(input: &State) -> Status<char> {
    let ch = input.current();
    if ch >= 'a' && ch <= 'z' {
        Ok(Succeeded { new_state: input.advance(input.index + 1), value: ch })
    } else {
        Err(Failed { old_state: input.dup(), err_state: input.dup(), mesg: "lower-case letter".to_string() })
    }
}

fn parse_upper(input: &State) -> Status<char> {
    let ch = input.current();
    if ch >= 'A' && ch <= 'Z' {
        Ok(Succeeded { new_state: input.advance(input.index + 1), value: ch })
    } else {
        Err(Failed { old_state: input.dup(), err_state: input.dup(), mesg: "upper-case letter".to_string() })
    }
}

#[test]
fn test_primitives_test_or() {
    let p = forward_ref(parse_lower).or(forward_ref(parse_upper));

    assert!(check_ok("a", &p, 'a'));
    assert!(check_ok("Z", &p, 'Z'));
    assert!(check_failed("", &p, "lower-case letter or upper-case letter", 1));
    assert!(check_failed("9", &p, "lower-case letter or upper-case letter", 1));
}

#[test]
fn test_tag() {
    let p = lit("<")._then(lit("foo"))._then(lit(">")).err("bracketed foo");

    assert!(check_ok("<foo>", &p, ">".to_string()));
    assert!(check_failed("", &p, "bracketed foo", 1));
    assert!(check_failed("<", &p, "'foo'", 1));
    assert!(check_failed("<foo", &p, "'>'", 1));
}

#[test]
fn test_primitives_test_parse() {
    let p = lit("<").s0()._then(lit("foo").s0())._then(lit(">")).err("bracketed foo");

    match parse(&p, "unit test", "< foo\t>") {
        Ok(s) => assert_eq!(s, ">"),
        Err(e) => panic!("Error '{}' on line {} and col {}.", e.mesg, e.line, e.col),
    }

    assert!(check_failed("<foo", &p, "'>'", 1));
    match parse(&p, "unit test", "< \n\nfoo\tx") {
        Ok(s) => panic!("Somehow parsed '{}'.", s),
        Err(e) => {
            assert_eq!(e.file, "unit test");
            assert_eq!(e.line, 3);
            assert_eq!(e.col, 5);
            assert_eq!(e.mesg, "'>'");
        }
    }
}
