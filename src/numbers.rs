//! Digit strings to integers, with overflow reported.
use vstd::prelude::*;
use crate::text::{chars_of, push_char, string_from};

verus! {

/// The value of a digit character (0 to 15); 0 for any other character.
pub open spec fn digit_value(c: char) -> int {
    if '0' <= c && c <= '9' {
        c as int - '0' as int
    } else if 'a' <= c && c <= 'f' {
        c as int - 'a' as int + 10
    } else if 'A' <= c && c <= 'F' {
        c as int - 'A' as int + 10
    } else {
        0
    }
}

/// The value of a digit string in `base`, most significant digit first.
pub open spec fn digits_value(s: Seq<char>, base: int) -> int
    decreases s.len(),
{
    if s.len() == 0 {
        0
    } else {
        digits_value(s.drop_last(), base) * base + digit_value(s.last())
    }
}

pub proof fn lemma_digits_grow(s: Seq<char>, base: int, k: int)
    requires
        base >= 1,
        0 <= k <= s.len(),
    ensures
        0 <= digits_value(s.take(k), base) <= digits_value(s, base),
    decreases s.len(),
{
    if s.len() > 0 {
        if k == s.len() {
            assert(s.take(k) =~= s);
            lemma_digits_grow(s.drop_last(), base, 0);
        } else {
            lemma_digits_grow(s.drop_last(), base, k);
            assert(s.drop_last().take(k) =~= s.take(k));
        }
        let v = digits_value(s.drop_last(), base);
        assert(v * base >= v) by (nonlinear_arith)
            requires
                v >= 0,
                base >= 1,
        ;
    } else {
        assert(s.take(k) =~= s);
    }
}

fn digit_of(c: char) -> (r: i64)
    ensures
        r == digit_value(c),
        0 <= r <= 15,
{
    if '0' <= c && c <= '9' {
        (c as u32 - '0' as u32) as i64
    } else if 'a' <= c && c <= 'f' {
        (c as u32 - 'a' as u32 + 10) as i64
    } else if 'A' <= c && c <= 'F' {
        (c as u32 - 'A' as u32 + 10) as i64
    } else {
        0
    }
}

/// The value of `text` in `base`, or `None` when it does not fit in an `i64`.
pub fn digits_to_i64(text: &String, base: i64) -> (r: Option<i64>)
    requires
        2 <= base <= 16,
    ensures
        match r {
            Some(v) => v == digits_value(text@, base as int),
            None => digits_value(text@, base as int) > i64::MAX,
        },
{
    let chars = chars_of(text.as_str());
    let mut acc: i64 = 0;
    let mut i: usize = 0;
    while i < chars.len()
        invariant
            2 <= base <= 16,
            chars@ == text@,
            i <= chars@.len(),
            0 <= acc,
            acc == digits_value(chars@.take(i as int), base as int),
        decreases chars@.len() - i,
    {
        let d = digit_of(chars[i]);
        proof {
            assert(chars@.take(i + 1).drop_last() =~= chars@.take(i as int));
            assert(chars@.take(i + 1).last() == chars@[i as int]);
        }
        if acc > (i64::MAX - d) / base {
            proof {
                assert(acc * base + d > i64::MAX) by (nonlinear_arith)
                    requires
                        acc > (i64::MAX as int - d as int) / (base as int),
                        base >= 2,
                        0 <= d <= 15,
                ;
                lemma_digits_grow(chars@, base as int, i + 1);
            }
            return None;
        }
        proof {
            assert(acc * base + d <= i64::MAX) by (nonlinear_arith)
                requires
                    acc <= (i64::MAX as int - d as int) / (base as int),
                    base >= 2,
                    0 <= d <= 15,
                    acc >= 0,
            ;
            assert(acc * base >= 0) by (nonlinear_arith)
                requires
                    acc >= 0,
                    base >= 2,
            ;
        }
        acc = acc * base + d;
        i += 1;
    }
    proof {
        assert(chars@.take(chars@.len() as int) =~= chars@);
    }
    Some(acc)
}

/// The octal value of `text`, or the message `Octal number is too large`.
pub fn from_base_8(text: &String) -> (r: Result<i64, String>)
    ensures
        match r {
            Ok(v) => v == digits_value(text@, 8),
            Err(m) => digits_value(text@, 8) > i64::MAX && m@ == "Octal number is too large"@,
        },
{
    match digits_to_i64(text, 8) {
        Some(v) => Ok(v),
        None => Err(string_from("Octal number is too large")),
    }
}

/// The hexadecimal value of `text`, or the message `Hex number is too large`.
pub fn from_base_16(text: &String) -> (r: Result<i64, String>)
    ensures
        match r {
            Ok(v) => v == digits_value(text@, 16),
            Err(m) => digits_value(text@, 16) > i64::MAX && m@ == "Hex number is too large"@,
        },
{
    match digits_to_i64(text, 16) {
        Some(v) => Ok(v),
        None => Err(string_from("Hex number is too large")),
    }
}

/// The decimal value of `text`, or the message `'text' is out of range`.
pub fn from_base_10(text: &String) -> (r: Result<i64, String>)
    ensures
        match r {
            Ok(v) => v == digits_value(text@, 10),
            Err(m) => digits_value(text@, 10) > i64::MAX && m@ == seq!['\''] + text@ + "' is out of range"@,
        },
{
    match digits_to_i64(text, 10) {
        Some(v) => Ok(v),
        None => {
            let mut m = String::new();
            push_char(&mut m, '\'');
            crate::text::append(&mut m, text);
            let tail = string_from("' is out of range");
            crate::text::append(&mut m, &tail);
            Err(m)
        },
    }
}

} // verus!
