//! Error messages of failed alternatives.
use vstd::prelude::*;
use crate::text::{append, chars_of, push_char, string_of_range};

verus! {

/// `Expected `, the conventional start of a message.
pub open spec fn expected_prefix() -> Seq<char> {
    seq!['E', 'x', 'p', 'e', 'c', 't', 'e', 'd', ' ']
}

/// `m` without a leading `Expected `.
pub open spec fn strip_expected(m: Seq<char>) -> Seq<char> {
    if m.len() >= 9 && m.subrange(0, 9) == expected_prefix() {
        m.subrange(9, m.len() as int)
    } else {
        m
    }
}

/// ` or `, which joins the messages of alternatives.
pub open spec fn or_sep() -> Seq<char> {
    seq![' ', 'o', 'r', ' ']
}

/// `t` is one of the parts of `m`, the parts being joined by ` or `.
pub open spec fn has_part(m: Seq<char>, t: Seq<char>) -> bool {
    ||| m == t
    ||| (m.len() >= t.len() + 4 && m.subrange(0, t.len() + 4int) == t + or_sep())
    ||| (m.len() >= t.len() + 4 && m.subrange(m.len() - (t.len() + 4), m.len() as int) == or_sep() + t)
    ||| exists|i: int|
        0 <= i && i + t.len() + 8 <= m.len() && #[trigger] m.subrange(i, i + t.len() + 8) == or_sep() + t
            + or_sep()
}

/// The message of two alternatives that failed at the same position: the
/// non-empty one if only one is; the first if the second is already one of
/// its parts (with or without a leading `Expected `); else both joined by
/// ` or `, the second without a leading `Expected `.
pub open spec fn or_mesg(m1: Seq<char>, m2: Seq<char>) -> Seq<char> {
    if m1.len() == 0 {
        m2
    } else if m2.len() == 0 {
        m1
    } else if has_part(m1, m2) || has_part(m1, strip_expected(m2)) {
        m1
    } else {
        m1 + or_sep() + strip_expected(m2)
    }
}

/// Whether `pat` occurs in `a` at position `from`.
fn occurs_at(a: &Vec<char>, from: usize, pat: &Vec<char>) -> (r: bool)
    ensures
        r == (from + pat@.len() <= a@.len() && a@.subrange(from as int, from + pat@.len()) == pat@),
{
    if from > a.len() || pat.len() > a.len() - from {
        return false;
    }
    let n = a.len();
    let mut i: usize = 0;
    while i < pat.len()
        invariant
            n == a@.len(),
            from + pat@.len() <= a@.len(),
            i <= pat@.len(),
            forall|k: int| 0 <= k < i ==> a@[from + k] == pat@[k],
        decreases pat@.len() - i,
    {
        if a[from + i] != pat[i] {
            proof {
                assert(a@.subrange(from as int, from + pat@.len())[i as int] != pat@[i as int]);
            }
            return false;
        }
        i += 1;
    }
    proof {
        assert(a@.subrange(from as int, from + pat@.len()) =~= pat@);
    }
    true
}

fn concat_chars(a: &Vec<char>, b: &Vec<char>) -> (r: Vec<char>)
    ensures
        r@ == a@ + b@,
{
    let mut r = a.clone();
    proof {
        assert(r@ =~= a@);
    }
    let mut i: usize = 0;
    while i < b.len()
        invariant
            i <= b@.len(),
            r@ == a@ + b@.subrange(0, i as int),
        decreases b@.len() - i,
    {
        r.push(b[i]);
        proof {
            assert(a@ + b@.subrange(0, i + 1) =~= (a@ + b@.subrange(0, i as int)).push(b@[i as int]));
        }
        i += 1;
    }
    proof {
        assert(b@.subrange(0, b@.len() as int) =~= b@);
    }
    r
}

/// Whether `t` is one of the ` or `-joined parts of `m`.
fn has_part_exec(m: &Vec<char>, t: &Vec<char>) -> (r: bool)
    ensures
        r == has_part(m@, t@),
{
    let sep = chars_of(" or ");
    proof {
        reveal_strlit(" or ");
        assert(sep@ =~= or_sep());
    }
    if same_chars(m, t) {
        return true;
    }
    let t_sep = concat_chars(t, &sep);
    if occurs_at(m, 0, &t_sep) {
        return true;
    }
    let sep_t = concat_chars(&sep, t);
    if sep_t.len() <= m.len() && occurs_at(m, m.len() - sep_t.len(), &sep_t) {
        return true;
    }
    let inner = concat_chars(&sep_t, &sep);
    proof {
        assert(inner@ =~= or_sep() + t@ + or_sep());
    }
    if inner.len() > m.len() {
        return false;
    }
    let last = m.len() - inner.len();
    let mut i: usize = 0;
    loop
        invariant
            i <= last,
            last + inner@.len() == m@.len(),
            inner@ == or_sep() + t@ + or_sep(),
            inner@.len() == t@.len() + 8,
            forall|j: int| 0 <= j < i ==> #[trigger] m@.subrange(j, j + t@.len() + 8) != or_sep() + t@ + or_sep(),
        ensures
            i == last,
            forall|j: int| 0 <= j <= i ==> #[trigger] m@.subrange(j, j + t@.len() + 8) != or_sep() + t@ + or_sep(),
        decreases last - i,
    {
        if occurs_at(m, i, &inner) {
            proof {
                assert(m@.subrange(i as int, i + t@.len() + 8) == or_sep() + t@ + or_sep());
            }
            return true;
        }
        if i == last {
            break;
        }
        i += 1;
    }
    proof {
        assert forall|j: int|
            0 <= j && j + t@.len() + 8 <= m@.len() implies #[trigger] m@.subrange(j, j + t@.len() + 8)
            != or_sep() + t@ + or_sep() by {
            assert(j <= i);
        }
    }
    false
}

fn same_chars(a: &Vec<char>, b: &Vec<char>) -> (r: bool)
    ensures
        r == (a@ == b@),
{
    if a.len() != b.len() {
        return false;
    }
    let mut i: usize = 0;
    while i < a.len()
        invariant
            a@.len() == b@.len(),
            i <= a@.len(),
            forall|k: int| 0 <= k < i ==> a@[k] == b@[k],
        decreases a@.len() - i,
    {
        if a[i] != b[i] {
            return false;
        }
        i += 1;
    }
    proof {
        assert(a@ =~= b@);
    }
    true
}

/// `m` without a leading `Expected `.
pub fn strip_expected_prefix(m: &String) -> (r: String)
    ensures
        r@ == strip_expected(m@),
{
    let chars = chars_of(m.as_str());
    let prefix = chars_of("Expected ");
    proof {
        reveal_strlit("Expected ");
        assert(prefix@ =~= expected_prefix());
    }
    if chars.len() >= 9 {
        let head = string_of_range(&chars, 0, 9);
        let head_chars = chars_of(head.as_str());
        if same_chars(&head_chars, &prefix) {
            return string_of_range(&chars, 9, chars.len());
        }
    }
    m.clone()
}

/// The message of two alternatives that failed at the same position.
pub fn or_message(m1: &String, m2: &String) -> (r: String)
    ensures
        r@ == or_mesg(m1@, m2@),
{
    let c1 = chars_of(m1.as_str());
    let c2 = chars_of(m2.as_str());
    if c1.len() == 0 {
        m2.clone()
    } else if c2.len() == 0 {
        m1.clone()
    } else if has_part_exec(&c1, &c2) {
        m1.clone()
    } else if has_part_exec(&c1, &chars_of(strip_expected_prefix(m2).as_str())) {
        m1.clone()
    } else {
        let mut r = m1.clone();
        push_char(&mut r, ' ');
        push_char(&mut r, 'o');
        push_char(&mut r, 'r');
        push_char(&mut r, ' ');
        let tail = strip_expected_prefix(m2);
        append(&mut r, &tail);
        proof {
            assert(r@ =~= or_mesg(m1@, m2@));
        }
        r
    }
}

} // verus!
