use std::rc::Rc;

use rparse::c99::{identifier, integer};
use rparse::chars::is_digit;
use rparse::driver::chars_with_eot;
use rparse::parser::{Combinators, Parser};
use rparse::primitives::{literal, match1, text};
use rparse::state::State;

fn start(text: &str) -> State {
    State::new(Rc::new("unit test".to_string()), Rc::new(chars_with_eot(text)))
}

fn check_ok<P: Parser>(text: &str, parser: &P, expected: P::Output) -> bool
where
    P::Output: PartialEq + std::fmt::Debug,
{
    match parser.parse(&start(text)) {
        Ok(pass) => {
            if pass.value != expected {
                println!("Expected {:?} but found {:?}", expected, pass.value);
                return false;
            }
            true
        }
        Err(failure) => {
            println!("Error: expected {:?} but found error {}", expected, failure.mesg);
            false
        }
    }
}

fn check_failed<P: Parser>(text: &str, parser: &P, expected: &str, line: usize) -> bool
where
    P::Output: std::fmt::Debug,
{
    match parser.parse(&start(text)) {
        Ok(pass) => {
            println!("Expected error '{}' but found {:?}", expected, pass.value);
            false
        }
        Err(failure) => {
            if failure.mesg != expected {
                println!("Expected error '{}' but found error '{}'", expected, failure.mesg);
                return false;
            }
            if failure.err_state.line != line {
                println!("Expected error '{}' on line {} but line is {}", expected, line, failure.err_state.line);
                return false;
            }
            true
        }
    }
}

#[test]
fn test_generators_test_match1() {
    let p = match1(is_digit).err("digits");
    assert!(check_ok("123", &p, "123".to_string()));
    assert!(check_ok("123x", &p, "123".to_string()));
    assert!(check_failed("", &p, "digits", 1));
    assert!(check_failed(">", &p, "digits", 1));
}

#[test]
fn test_generators_test_text() {
    let p = text("<");
    assert!(check_ok("<", &p, "<".to_string()));
    assert!(check_failed("", &p, "'<'", 1));
    assert!(check_failed(">", &p, "'<'", 1));

    let p = text("++");
    assert!(check_ok("++", &p, "++".to_string()));
    assert!(check_failed("+-", &p, "'++'", 1));
    assert!(check_failed("", &p, "'++'", 1));
    assert!(check_failed(">", &p, "'++'", 1));
}

#[test]
fn test_literal() {
    let p = literal("inf", 1000i64);
    assert!(check_ok("inf", &p, 1000));
    assert!(check_failed("", &p, "'inf'", 1));
    assert!(check_failed("in", &p, "'inf'", 1));
    assert!(check_ok("infinite", &p, 1000));
}

#[test]
fn test_integer() {
    let p = integer();

    assert!(check_ok("1", &p, 1));
    assert!(check_ok("123", &p, 123));
    assert!(check_ok("123x", &p, 123));
    assert!(check_ok("+78", &p, 78));
    assert!(check_ok("-14", &p, -14));
    assert!(check_failed("", &p, "'+' or '-' or digits", 1));
    assert!(check_failed("in", &p, "'+' or '-' or digits", 1));
}

#[test]
fn test_generators_test_identifier() {
    // Labelled with the generator's own message for a missing identifier.
    let p = identifier().err("identifier");
    assert!(check_ok("hey", &p, "hey".to_string()));
    assert!(check_ok("hey_there", &p, "hey_there".to_string()));
    assert!(check_ok("hey there", &p, "hey".to_string()));
    assert!(check_ok("spanky123xy", &p, "spanky123xy".to_string()));
    assert!(check_failed("", &p, "identifier", 1));
}
