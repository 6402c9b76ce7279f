use std::rc::Rc;

use rparse::alternatives::{or_v, OrV};
use rparse::c99::decimal_number;
use rparse::driver::{chars_with_eot, parse};
use rparse::forward::forward_ref;
use rparse::parser::{Combinators, Parser};
use rparse::primitives::{eot, lit, ret};
use rparse::sequences::{seq3_ret1, sequence};
use rparse::state::{State, Status};

fn start(text: &str) -> State {
    State::new(Rc::new("unit test".to_string()), Rc::new(chars_with_eot(text)))
}

fn check_ok<P: Parser>(text: &str, parser: &P, expected: P::Output) -> bool
where
    P::Output: PartialEq + std::fmt::Debug,
{
    match parser.parse(&start(text)) {
        Ok(pass) => {
            if pass.value != expected {
                println!("Expected {:?} but found {:?}", expected, pass.value);
                return false;
            }
            true
        }
        Err(failure) => {
            println!("Error: expected {:?} but found error {}", expected, failure.mesg);
            false
        }
    }
}

fn check_failed<P: Parser>(text: &str, parser: &P, expected: &str, line: usize) -> bool
where
    P::Output: std::fmt::Debug,
{
    match parser.parse(&start(text)) {
        Ok(pass) => {
            println!("Expected error '{}' but found {:?}", expected, pass.value);
            false
        }
        Err(failure) => {
            if failure.mesg != expected {
                println!("Expected error '{}' but found error '{}'", expected, failure.mesg);
                return false;
            }
            if failure.err_state.line != line {
                println!("Expected error '{}' on line {} but line is {}", expected, line, failure.err_state.line);
                return false;
            }
            true
        }
    }
}

#[test]
fn ret_consumes_nothing() {
    let s = start("abc");
    let r = ret(7i64).parse(&s).ok().unwrap();
    assert_eq!(r.value, 7);
    assert_eq!(r.new_state.index, 0);
    assert_eq!(r.new_state.line, 1);
}

#[test]
fn failures_hand_back_their_input() {
    let p = lit("ab")._then(lit("cd"));
    let s = start("abce");
    let f = p.parse(&s).err().unwrap();
    assert_eq!(f.old_state.index, 0);
    assert_eq!(f.err_state.index, 3);
    let ok = p.parse(&start("abcd")).ok().unwrap();
    assert_eq!(ok.new_state.index, 4);
}

#[test]
fn or_keeps_first_success() {
    let p = lit("a").or(lit("ab"));
    let r = p.parse(&start("ab")).ok().unwrap();
    assert_eq!(r.value, "a");
    assert_eq!(r.new_state.index, 1);
}

#[test]
fn or_reports_the_branch_that_got_further() {
    let p1 = lit("abcd");
    let p2 = lit("x");
    let p = lit("abcd").or(lit("x"));
    let s = start("abcz");
    let f1 = p1.parse(&s).err().unwrap();
    assert_eq!(f1.err_state.index, 3);
    assert!(p2.parse(&s).is_err());
    let f = p.parse(&s).err().unwrap();
    assert_eq!(f.err_state.index, 3);
    assert_eq!(f.mesg, "'abcd'");
    assert_eq!(f.old_state.index, 0);

    let q = lit("x").or(lit("abcd"));
    let f = q.parse(&s).err().unwrap();
    assert_eq!(f.err_state.index, 3);
    assert_eq!(f.mesg, "'abcd'");
}

#[test]
fn or_joins_messages_on_a_tie() {
    let p = lit("a").err("Expected a").or(lit("b").err("Expected b"));
    assert!(check_failed("c", &p, "Expected a or b", 1));
    let same = lit("a").or(lit("a"));
    assert!(check_failed("c", &same, "'a'", 1));
}

#[test]
fn test_or_v() {
    let p = OrV { alts: vec![lit("a"), lit("bb"), lit("c")] };

    assert!(check_ok("a", &p, "a".to_string()));
    assert!(check_ok("bb", &p, "bb".to_string()));
    assert!(check_ok("c", &p, "c".to_string()));
    assert!(check_ok("ca", &p, "c".to_string()));
    assert!(check_failed("", &p, "'a' or 'bb' or 'c'", 1));

    let result = p.parse(&start("bz"));
    let f = result.err().unwrap();
    assert_eq!(f.old_state.index, 0);
    assert_eq!(f.err_state.index, 1);
    assert_eq!(f.mesg, "'bb'");
}

fn subtract(lhs: i64, _op: String, rhs: i64) -> i64 {
    lhs - rhs
}

#[test]
fn chains_group_subtraction() {
    let left = decimal_number().chainl1(lit("-"), subtract);
    let right = decimal_number().chainr1(lit("-"), subtract);
    assert!(check_ok("2-3-4", &left, -5));
    assert!(check_ok("2-3-4", &right, 3));
    assert!(check_ok("7", &left, 7));
    assert!(check_ok("7", &right, 7));
}

#[test]
fn everything_rejects_trailing_input() {
    let p = decimal_number().everything(ret(0i64).s0());
    let f = p.parse(&start("23 45")).err().unwrap();
    assert_eq!(f.err_state.index, 2);
    assert_eq!(f.mesg, "EOT");
    assert_eq!(f.old_state.index, 0);
    assert!(check_ok(" 23", &p, 23));
}

#[test]
fn literal_stops_right_after_the_match() {
    let r = lit("foo").parse(&start("foo-bar")).ok().unwrap();
    assert_eq!(r.value, "foo");
    assert_eq!(r.new_state.index, 3);
    assert_eq!(r.new_state.current(), '-');
}

#[test]
fn repeat_stays_within_bounds() {
    let p = lit("ab").r(2, 4);
    let f = p.parse(&start("abx")).err().unwrap();
    assert_eq!(f.err_state.index, 2);
    let r = p.parse(&start("abababababab")).ok().unwrap();
    assert_eq!(r.value.len(), 4);
    assert_eq!(r.new_state.index, 8);
    let r = p.parse(&start("ababx")).ok().unwrap();
    assert_eq!(r.value.len(), 2);
}

fn nested(s: &State) -> Status<i64> {
    decimal_number().or(seq3_ret1(lit("("), forward_ref(nested), lit(")"))).parse(s)
}

#[test]
fn forward_reference_parses_nested_parentheses() {
    let p = forward_ref(nested);
    assert!(check_ok("(((5)))", &p, 5));
    assert!(check_ok("5", &p, 5));
    let f = p.parse(&start("((5)")).err().unwrap();
    assert_eq!(f.mesg, "')'");
    assert_eq!(f.err_state.index, 4);
    assert_eq!(f.old_state.index, 0);
}

#[test]
fn parse_locates_errors() {
    let p = lit("a").s0()._then(lit("b"));
    match parse(&p, "input", "a\n  c") {
        Ok(_) => panic!("parsed"),
        Err(e) => {
            assert_eq!(e.file, "input");
            assert_eq!(e.line, 2);
            assert_eq!(e.col, 3);
            assert_eq!(e.mesg, "'b'");
        }
    }
    assert_eq!(parse(&p, "input", "a b").ok().unwrap(), "b");
}

#[test]
fn eot_matches_only_the_end() {
    assert!(check_ok("", &eot(), ()));
    assert!(check_failed("x", &eot(), "EOT", 1));
}

#[test]
fn sequence_keeps_values_in_order() {
    let p = sequence(vec![lit("a"), lit("b"), lit("c")]);
    assert!(check_ok("abcd", &p, vec!["a".to_string(), "b".to_string(), "c".to_string()]));
    let f = p.parse(&start("abx")).err().unwrap();
    assert_eq!(f.old_state.index, 0);
    assert_eq!(f.err_state.index, 2);
    assert_eq!(f.mesg, "'c'");
    let empty = sequence(Vec::<rparse::primitives::Lit>::new());
    assert!(check_ok("x", &empty, vec![]));
}

fn multiply(lhs: i64, _op: String, rhs: i64) -> i64 {
    lhs * rhs
}

#[test]
fn juxtaposition_operator_may_match_empty() {
    let p = decimal_number().s0().chainl1(lit("*").s0().or(lit("").s0()), multiply);
    assert!(check_ok("2 3*4", &p, 24));
    let q = decimal_number().s0().chainr1(lit(""), multiply);
    assert!(check_ok("2 3 4x", &q, 24));
}

#[test]
fn list_separator_may_match_empty() {
    let p = lit("b").list(lit(",").optional());
    assert!(check_ok("bb,b", &p, vec!["b".to_string(), "b".to_string(), "b".to_string()]));
    let f = lit("b").list(lit(","));
    let r = f.parse(&start("b,c")).ok().unwrap();
    assert_eq!(r.new_state.index, 1);
}

#[test]
fn or_v_builds_alternatives() {
    let p = or_v(vec![lit("x"), lit("y")]);
    assert!(check_ok("y", &p, "y".to_string()));
    assert!(check_failed("z", &p, "'x' or 'y'", 1));
}

#[test]
fn tied_messages_are_joined_once() {
    let p = or_v(vec![lit("a"), lit("b"), lit("a")]);
    assert!(check_failed("z", &p, "'a' or 'b'", 1));
    let q = lit("a").err("Expected a").or(lit("b").err("Expected b")).or(lit("a").err("Expected a"));
    assert!(check_failed("z", &q, "Expected a or b", 1));
    let r = lit("a").err("Expected a").or(lit("b").err("Expected b")).or(lit("b").err("Expected b"));
    assert!(check_failed("z", &r, "Expected a or b", 1));
}
