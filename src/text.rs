//! Building strings from characters, and small text helpers.
use vstd::prelude::*;
use vstd::std_specs::iter::IteratorSpec;
use crate::chars::{is_print, spec_is_print};

verus! {

/// Relies on String::push: the character is appended at the end.
#[verifier::external_body]
pub(crate) fn push_char(s: &mut String, ch: char)
    ensures
        final(s)@ == old(s)@.push(ch),
{
    s.push(ch);
}

/// The characters of `s` as a new String.
pub fn string_from(s: &str) -> (r: String)
    ensures
        r@ == s@,
{
    s.to_owned()
}

/// The characters `text[from..to]` as a String.
pub fn string_of_range(text: &Vec<char>, from: usize, to: usize) -> (r: String)
    requires
        from <= to <= text@.len(),
    ensures
        r@ == text@.subrange(from as int, to as int),
{
    let mut r = String::new();
    let mut i = from;
    while i < to
        invariant
            from <= i <= to <= text@.len(),
            r@ == text@.subrange(from as int, i as int),
        decreases to - i,
    {
        push_char(&mut r, text[i]);
        proof {
            assert(text@.subrange(from as int, i + 1) =~= text@.subrange(from as int, i as int).push(text@[i as int]));
        }
        i += 1;
    }
    r
}

/// The characters of `v` as a String.
pub fn string_of_chars(v: &Vec<char>) -> (r: String)
    ensures
        r@ == v@,
{
    let r = string_of_range(v, 0, v.len());
    proof {
        assert(v@.subrange(0, v@.len() as int) =~= v@);
    }
    r
}

/// Appends the characters of `tail` to `s`.
pub fn append(s: &mut String, tail: &String)
    ensures
        final(s)@ == old(s)@ + tail@,
{
    let mut i: usize = 0;
    let ghost start = s@;
    let chars = chars_of(tail.as_str());
    while i < chars.len()
        invariant
            i <= chars@.len(),
            chars@ == tail@,
            s@ == start + tail@.subrange(0, i as int),
        decreases chars@.len() - i,
    {
        push_char(s, chars[i]);
        proof {
            assert(tail@.subrange(0, i + 1) =~= tail@.subrange(0, i as int).push(tail@[i as int]));
        }
        i += 1;
    }
    proof {
        assert(tail@.subrange(0, tail@.len() as int) =~= tail@);
    }
}

/// The characters of a string, in order.
pub fn chars_of(s: &str) -> (r: Vec<char>)
    ensures
        r@ == s@,
{
    broadcast use vstd::string::group_string_axioms;

    let mut r: Vec<char> = Vec::new();
    let mut it = s.chars();
    let ghost all = s@;
    loop
        invariant
            all == s@,
            r@ + it.remaining() == all,
            it.decrease() is Some,
        decreases it.decrease()->0,
    {
        match it.next() {
            Some(c) => {
                r.push(c);
                proof {
                    assert(r@ + it.remaining() =~= all);
                }
            },
            None => {
                proof {
                    assert(r@ =~= all);
                }
                return r;
            },
        }
    }
}



/// `ch` if it is printable, else `.`.
pub open spec fn munged(ch: char) -> char {
    if spec_is_print(ch) {
        ch
    } else {
        '.'
    }
}

/// Replaces non-`is_print` characters with `.`, so that each character
/// prints as one column.
pub fn munge_chars(chars: &Vec<char>) -> (r: String)
    ensures
        r@ == chars@.map_values(|c: char| munged(c)),
{
    let mut r = String::new();
    let mut i: usize = 0;
    while i < chars.len()
        invariant
            i <= chars@.len(),
            r@ == chars@.subrange(0, i as int).map_values(|c: char| munged(c)),
        decreases chars@.len() - i,
    {
        let ch = chars[i];
        push_char(&mut r, if is_print(ch) { ch } else { '.' });
        proof {
            assert(chars@.subrange(0, i + 1).map_values(|c: char| munged(c)) =~= chars@.subrange(
                0,
                i as int,
            ).map_values(|c: char| munged(c)).push(munged(ch)));
        }
        i += 1;
    }
    proof {
        assert(chars@.subrange(0, chars@.len() as int) =~= chars@);
    }
    r
}

/// Returns a string with `count` copies of `ch`.
pub fn repeat_char(ch: char, count: usize) -> (r: String)
    ensures
        r@ == Seq::new(count as nat, |_i: int| ch),
{
    let mut r = String::new();
    let mut i: usize = 0;
    while i < count
        invariant
            i <= count,
            r@ == Seq::new(i as nat, |_i: int| ch),
        decreases count - i,
    {
        push_char(&mut r, ch);
        proof {
            assert(Seq::new((i + 1) as nat, |_i: int| ch) =~= Seq::new(i as nat, |_i: int| ch).push(ch));
        }
        i += 1;
    }
    r
}

/// The strings of `v` joined, `sep` between each two.
pub open spec fn joined(v: Seq<Seq<char>>, sep: Seq<char>) -> Seq<char>
    decreases v.len(),
{
    if v.len() == 0 {
        Seq::empty()
    } else if v.len() == 1 {
        v[0]
    } else {
        joined(v.drop_last(), sep) + sep + v.last()
    }
}

/// Joins the strings of `v` with `sep` between each two.
pub fn at_connect(v: &Vec<String>, sep: &str) -> (r: String)
    ensures
        r@ == joined(v.deep_view(), sep@),
{
    let sep_string = string_from(sep);
    let mut r = String::new();
    let mut i: usize = 0;
    while i < v.len()
        invariant
            i <= v@.len(),
            sep_string@ == sep@,
            r@ == joined(v.deep_view().take(i as int), sep@),
        decreases v@.len() - i,
    {
        if i > 0 {
            append(&mut r, &sep_string);
        }
        append(&mut r, &v[i]);
        proof {
            let t = v.deep_view().take(i + 1);
            assert(t.drop_last() =~= v.deep_view().take(i as int));
            assert(t.last() == v@[i as int]@);
            if i == 0 {
                assert(r@ =~= joined(t, sep@));
            }
        }
        i += 1;
    }
    proof {
        assert(v.deep_view().take(v@.len() as int) =~= v.deep_view());
    }
    r
}

} // verus!
