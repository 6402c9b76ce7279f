use std::rc::Rc;

use rparse::chars::is_alpha;
use rparse::driver::chars_with_eot;
use rparse::parser::Parser;
use rparse::primitives::{anyc, anycp, noc};
use rparse::state::State;

fn start(text: &str) -> State {
    State::new(Rc::new("unit test".to_string()), Rc::new(chars_with_eot(text)))
}

fn check_ok<P: Parser>(text: &str, parser: &P, expected: P::Output) -> bool
where
    P::Output: PartialEq + std::fmt::Debug,
{
    match parser.parse(&start(text)) {
        Ok(pass) => {
            if pass.value != expected {
                println!("Expected {:?} but found {:?}", expected, pass.value);
                return false;
            }
            true
        }
        Err(failure) => {
            println!("Error: expected {:?} but found error {}", expected, failure.mesg);
            false
        }
    }
}

fn check_failed<P: Parser>(text: &str, parser: &P, expected: &str, line: usize) -> bool
where
    P::Output: std::fmt::Debug,
{
    match parser.parse(&start(text)) {
        Ok(pass) => {
            println!("Expected error '{}' but found {:?}", expected, pass.value);
            false
        }
        Err(failure) => {
            if failure.mesg != expected {
                println!("Expected error '{}' but found error '{}'", expected, failure.mesg);
                return false;
            }
            if failure.err_state.line != line {
                println!("Expected error '{}' on line {} but line is {}", expected, line, failure.err_state.line);
                return false;
            }
            true
        }
    }
}

#[test]
fn test_anycp() {
    let p = anycp(is_alpha);

    assert!(check_ok("a", &p, 'a'));
    assert!(check_ok("Z", &p, 'Z'));
    assert!(check_failed("", &p, "", 1));
    assert!(check_failed("9", &p, "", 1));
}

#[test]
fn test_anyc() {
    let p = anyc("aeiou");

    assert!(check_ok("a", &p, 'a'));
    assert!(check_ok("e", &p, 'e'));
    assert!(check_ok("u", &p, 'u'));
    assert!(check_failed("", &p, "[aeiou]", 1));
    assert!(check_failed("9", &p, "[aeiou]", 1));
    assert!(check_failed("z", &p, "[aeiou]", 1));
}

#[test]
fn test_noc() {
    let p = noc("aeiou");

    assert!(check_ok("9", &p, '9'));
    assert!(check_ok("z", &p, 'z'));
    assert!(check_failed("", &p, "[^aeiou]", 1));
    assert!(check_failed("a", &p, "[^aeiou]", 1));
    assert!(check_failed("e", &p, "[^aeiou]", 1));
    assert!(check_failed("u", &p, "[^aeiou]", 1));
}
