use std::rc::Rc;

use rparse::driver::chars_with_eot;
use rparse::forward::forward_ref;
use rparse::parser::{Combinators, Parser};
use rparse::primitives::{fails, next, ret};
use rparse::state::{Failed, State, Status, Succeeded};

fn start(text: &str) -> State {
    State::new(Rc::new("unit test".to_string()), Rc::new(chars_with_eot(text)))
}

fn check_ok<P: Parser>(text: &str, parser: &P, expected: P::Output) -> bool
where
    P::Output: PartialEq + std::fmt::Debug,
{
    match parser.parse(&start(text)) {
        Ok(pass) => {
            if pass.value != expected {
                println!("Expected {:?} but found {:?}", expected, pass.value);
                return false;
            }
            true
        }
        Err(failure) => {
            println!("Error: expected {:?} but found error {}", expected, failure.mesg);
            false
        }
    }
}

fn check_failed<P: Parser>(text: &str, parser: &P, expected: &str, line: usize) -> bool
where
    P::Output: std::fmt::Debug,
{
    match parser.parse(&start(text)) {
        Ok(pass) => {
            println!("Expected error '{}' but found {:?}", expected, pass.value);
            false
        }
        Err(failure) => {
            if failure.mesg != expected {
                println!("Expected error '{}' but found error '{}'", expected, failure.mesg);
                return false;
            }
            if failure.err_state.line != line {
                println!("Expected error '{}' on line {} but line is {}", expected, line, failure.err_state.line);
                return false;
            }
            true
        }
    }
}

fn parse_lower(input: &State) -> Status<char> {
    let ch = input.current();
    if ch >= 'a' && ch <= 'z' {
        Ok(Succeeded { new_state: input.advance(input.index + 1), value: ch })
    } else {
        Err(Failed { old_state: input.dup(), err_state: input.dup(), mesg: "lower-case letter".to_string() })
    }
}

fn parse_upper(input: &State) -> Status<char> {
    let ch = input.current();
    if ch >= 'A' && ch <= 'Z' {
        Ok(Succeeded { new_state: input.advance(input.index + 1), value: ch })
    } else {
        Err(Failed { old_state: input.dup(), err_state: input.dup(), mesg: "upper-case letter".to_string() })
    }
}

#[test]
fn test_basis_test_fails() {
    let p = fails::<i64>("oops");

    assert!(check_failed("", &p, "oops", 1));
    assert!(check_failed("1", &p, "oops", 1));
    assert!(check_failed("hello", &p, "oops", 1));
}

#[test]
fn test_return() {
    let p = ret(42i64);

    assert!(check_ok("", &p, 42));
    assert!(check_ok("1", &p, 42));
    assert!(check_ok("22", &p, 42));
}

#[test]
fn test_next() {
    let p = next();

    assert!(check_ok("x", &p, 'x'));
    assert!(check_failed("", &p, "EOT", 1));
}

#[test]
fn test_basis_test_or() {
    let p = forward_ref(parse_lower).or(forward_ref(parse_upper));

    assert!(check_ok("a", &p, 'a'));
    assert!(check_ok("Z", &p, 'Z'));
    assert!(check_failed("", &p, "lower-case letter or upper-case letter", 1));
    assert!(check_failed("9", &p, "lower-case letter or upper-case letter", 1));
}

fn parse_unary(input: &State) -> Status<char> {
    let ch = input.current();
    if ch == '-' || ch == '+' {
        Ok(Succeeded { new_state: input.advance(input.index + 1), value: ch })
    } else {
        Err(Failed { old_state: input.dup(), err_state: input.dup(), mesg: "'-' or '+'".to_string() })
    }
}

fn parse_digit(input: &State) -> Status<i64> {
    let ch = input.current();
    if ch >= '0' && ch <= '9' {
        Ok(Succeeded { new_state: input.advance(input.index + 1), value: ch.to_digit(10).unwrap() as i64 })
    } else {
        Err(Failed { old_state: input.dup(), err_state: input.dup(), mesg: "digit".to_string() })
    }
}

#[test]
fn test_basis_test_then() {
    let p = forward_ref(parse_unary).thene(|c: char| forward_ref(parse_digit).map(move |v: i64| if c == '-' { -v } else { v }));

    assert!(check_ok("-9", &p, -9));
    assert!(check_ok("+3", &p, 3));
    assert!(check_failed("", &p, "'-' or '+'", 1));
    assert!(check_failed("~9", &p, "'-' or '+'", 1));
    assert!(check_failed("--9", &p, "digit", 1));

    let result = p.parse(&start("~9"));
    assert_eq!(result.err().unwrap().old_state.index, 0);

    let result = p.parse(&start("--"));
    assert_eq!(result.err().unwrap().old_state.index, 0);
}
