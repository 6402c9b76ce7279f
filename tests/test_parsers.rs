use std::rc::Rc;

use rparse::c99::decimal_number;
use rparse::chars::is_digit;
use rparse::driver::chars_with_eot;
use rparse::parser::{Combinators, Parser};
use rparse::primitives::{lit, litv, match1, ret};
use rparse::state::State;

fn start(text: &str) -> State {
    State::new(Rc::new("unit test".to_string()), Rc::new(chars_with_eot(text)))
}

fn check_ok<P: Parser>(text: &str, parser: &P, expected: P::Output) -> bool
where
    P::Output: PartialEq + std::fmt::Debug,
{
    match parser.parse(&start(text)) {
        Ok(pass) => {
            if pass.value != expected {
                println!("Expected {:?} but found {:?}", expected, pass.value);
                return false;
            }
            true
        }
        Err(failure) => {
            println!("Error: expected {:?} but found error {}", expected, failure.mesg);
            false
        }
    }
}

fn check_failed<P: Parser>(text: &str, parser: &P, expected: &str, line: usize) -> bool
where
    P::Output: std::fmt::Debug,
{
    match parser.parse(&start(text)) {
        Ok(pass) => {
            println!("Expected error '{}' but found {:?}", expected, pass.value);
            false
        }
        Err(failure) => {
            if failure.mesg != expected {
                println!("Expected error '{}' but found error '{}'", expected, failure.mesg);
                return false;
            }
            if failure.err_state.line != line {
                println!("Expected error '{}' on line {} but line is {}", expected, line, failure.err_state.line);
                return false;
            }
            true
        }
    }
}

#[test]
fn test_parsers_test_match1() {
    let p = match1(is_digit).err("digits");
    assert!(check_ok("123", &p, "123".to_string()));
    assert!(check_ok("123x", &p, "123".to_string()));
    assert!(check_failed("", &p, "digits", 1));
    assert!(check_failed(">", &p, "digits", 1));
}

#[test]
fn test_parsers_test_text() {
    let p = lit("<");
    assert!(check_ok("<", &p, "<".to_string()));
    assert!(check_failed("", &p, "'<'", 1));
    assert!(check_failed(">", &p, "'<'", 1));

    let p = lit("++");
    assert!(check_ok("++", &p, "++".to_string()));
    assert!(check_failed("+-", &p, "'++'", 1));
    assert!(check_failed("", &p, "'++'", 1));
    assert!(check_failed(">", &p, "'++'", 1));
}

#[test]
fn test_literalv() {
    let p = litv("inf", 1000i64);
    assert!(check_ok("inf", &p, 1000));
    assert!(check_failed("", &p, "'inf'", 1));
    assert!(check_failed("in", &p, "'inf'", 1));
    assert!(check_ok("infinite", &p, 1000));
}

#[test]
fn test_parsers_test_everything() {
    let s = ret(0i64).s0();
    let p = decimal_number().everything(s);

    assert!(check_ok("2", &p, 2));
    assert!(check_ok("   \t3", &p, 3));
    assert!(check_failed("2 ", &p, "EOT", 1));
    assert!(check_failed("\t2\n", &p, "EOT", 1));
}
