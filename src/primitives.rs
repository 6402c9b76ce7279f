//! Parsers that read the text directly.
use vstd::prelude::*;
use std::marker::PhantomData;
use crate::chars::{lower_char, spec_lower_char, EOT};
use crate::parser::{CharClass, Parser};
use crate::state::{lemma_breaks_bounded, Failed, Outcome, State, Status, Succeeded};
use crate::text::{push_char, string_of_range};

verus! {

/// The failure of a parser for input `s` that got as far as `err`.
pub open spec fn fail_at<V>(err: State, mesg: Seq<char>) -> Outcome<V> {
    Outcome::Fail { err, mesg }
}

/// Always succeeds with a value, consuming nothing.
pub struct Ret<T> {
    pub value: T,
}

impl<T: DeepView + Clone> Parser for Ret<T> {
    type Output = T;

    open spec fn wf(&self) -> bool {
        forall|c: T| call_ensures(T::clone, (&self.value,), c) ==> c.deep_view() == self.value.deep_view()
    }

    open spec fn spec_parse(&self, s: State) -> Outcome<T::V> {
        Outcome::Pass { next: s, value: self.value.deep_view() }
    }

    proof fn lemma_valid(&self, s: State) {
    }

    fn parse(&self, s: &State) -> (r: Status<T>) {
        Ok(Succeeded { new_state: s.dup(), value: self.value.clone() })
    }
}

/// Returns a parser which always succeeds with `value`, but does not consume
/// any input.
pub fn ret<T: DeepView + Clone>(value: T) -> (r: Ret<T>)
    ensures
        r.value == value,
{
    Ret { value }
}

/// Always fails with a message, at its input.
pub struct Fails<T> {
    pub mesg: String,
    pub marker: PhantomData<T>,
}

impl<T: DeepView> Parser for Fails<T> {
    type Output = T;

    open spec fn wf(&self) -> bool {
        true
    }

    open spec fn spec_parse(&self, s: State) -> Outcome<T::V> {
        fail_at(s, self.mesg@)
    }

    proof fn lemma_valid(&self, s: State) {
    }

    fn parse(&self, s: &State) -> (r: Status<T>) {
        Err(Failed { old_state: s.dup(), err_state: s.dup(), mesg: self.mesg.clone() })
    }
}

/// Returns a parser which always fails with `mesg`.
pub fn fails<T: DeepView>(mesg: &str) -> (r: Fails<T>)
    ensures
        r.mesg@ == mesg@,
{
    Fails { mesg: mesg.to_owned(), marker: PhantomData }
}

/// The message `EOT`.
pub open spec fn eot_mesg() -> Seq<char> {
    seq!['E', 'O', 'T']
}

fn eot_message() -> (r: String)
    ensures
        r@ == eot_mesg(),
{
    let mut m = String::new();
    push_char(&mut m, 'E');
    push_char(&mut m, 'O');
    push_char(&mut m, 'T');
    m
}

/// Matches the end of the input, consuming nothing.
pub struct Eot;

impl Parser for Eot {
    type Output = ();

    open spec fn wf(&self) -> bool {
        true
    }

    open spec fn spec_parse(&self, s: State) -> Outcome<()> {
        if s.cur() == EOT {
            Outcome::Pass { next: s, value: () }
        } else {
            fail_at(s, eot_mesg())
        }
    }

    proof fn lemma_valid(&self, s: State) {
    }

    fn parse(&self, s: &State) -> (r: Status<()>) {
        if s.current() == EOT {
            Ok(Succeeded { new_state: s.dup(), value: () })
        } else {
            Err(Failed { old_state: s.dup(), err_state: s.dup(), mesg: eot_message() })
        }
    }
}

/// Returns a parser which matches the end of the input. Clients normally use
/// `everything` instead.
pub fn eot() -> (r: Eot) {
    Eot
}

/// Consumes any one character but the sentinel.
pub struct Next;

impl Parser for Next {
    type Output = char;

    open spec fn wf(&self) -> bool {
        true
    }

    open spec fn spec_parse(&self, s: State) -> Outcome<char> {
        if s.cur() != EOT {
            Outcome::Pass { next: s.moved(s.index + 1), value: s.cur() }
        } else {
            fail_at(s, eot_mesg())
        }
    }

    proof fn lemma_valid(&self, s: State) {
        if s.cur() != EOT {
            lemma_one_char(s);
        }
    }

    fn parse(&self, s: &State) -> (r: Status<char>) {
        let ch = s.current();
        if ch != EOT {
            proof {
                lemma_one_char(*s);
            }
            Ok(Succeeded { new_state: s.advance(s.index + 1), value: ch })
        } else {
            Err(Failed { old_state: s.dup(), err_state: s.dup(), mesg: eot_message() })
        }
    }
}

/// Returns a parser which consumes any character until the end of the input.
pub fn next() -> (r: Next) {
    Next
}

/// A character that is not the sentinel is followed by another one.
pub proof fn lemma_one_char(s: State)
    requires
        s.wf(),
        s.cur() != EOT,
    ensures
        s.index + 1 < s.text@.len(),
        s.moved(s.index + 1).wf(),
{
    lemma_breaks_bounded(s.text@, s.index as int, s.index + 1);
}

/// Consumes one character satisfying a test.
pub struct AnyCP<C> {
    pub class: C,
}

impl<C: CharClass> Parser for AnyCP<C> {
    type Output = char;

    open spec fn wf(&self) -> bool {
        self.class.wf()
    }

    open spec fn spec_parse(&self, s: State) -> Outcome<char> {
        if s.cur() != EOT && self.class.holds(s.cur()) {
            Outcome::Pass { next: s.moved(s.index + 1), value: s.cur() }
        } else {
            fail_at(s, Seq::empty())
        }
    }

    proof fn lemma_valid(&self, s: State) {
        if s.cur() != EOT {
            lemma_one_char(s);
        }
    }

    fn parse(&self, s: &State) -> (r: Status<char>) {
        let ch = s.current();
        if ch != EOT && self.class.test(ch) {
            proof {
                lemma_one_char(*s);
            }
            Ok(Succeeded { new_state: s.advance(s.index + 1), value: ch })
        } else {
            Err(Failed { old_state: s.dup(), err_state: s.dup(), mesg: String::new() })
        }
    }
}

/// Consumes a character which must satisfy the predicate, and returns it.
pub fn anycp<C: CharClass>(class: C) -> (r: AnyCP<C>)
    ensures
        r.class == class,
{
    AnyCP { class }
}

/// `[` + `set` + `]`, or `[^` + `set` + `]` when negated.
pub open spec fn set_mesg(set: Seq<char>, negate: bool) -> Seq<char> {
    if negate {
        seq!['[', '^'] + set + seq![']']
    } else {
        seq!['['] + set + seq![']']
    }
}

/// Consumes one character that is (or, negated, is not) in a set.
pub struct OneOf {
    pub set: Vec<char>,
    pub negate: bool,
    pub mesg: String,
}

impl Parser for OneOf {
    type Output = char;

    open spec fn wf(&self) -> bool {
        self.mesg@ == set_mesg(self.set@, self.negate)
    }

    open spec fn spec_parse(&self, s: State) -> Outcome<char> {
        if s.cur() != EOT && self.set@.contains(s.cur()) != self.negate {
            Outcome::Pass { next: s.moved(s.index + 1), value: s.cur() }
        } else {
            fail_at(s, self.mesg@)
        }
    }

    proof fn lemma_valid(&self, s: State) {
        if s.cur() != EOT {
            lemma_one_char(s);
        }
    }

    fn parse(&self, s: &State) -> (r: Status<char>) {
        let ch = s.current();
        if ch != EOT && contains(&self.set, ch) != self.negate {
            proof {
                lemma_one_char(*s);
            }
            Ok(Succeeded { new_state: s.advance(s.index + 1), value: ch })
        } else {
            Err(Failed { old_state: s.dup(), err_state: s.dup(), mesg: self.mesg.clone() })
        }
    }
}

/// Whether `ch` occurs in `v`.
pub fn contains(v: &Vec<char>, ch: char) -> (r: bool)
    ensures
        r == v@.contains(ch),
{
    let mut i: usize = 0;
    while i < v.len()
        invariant
            i <= v@.len(),
            forall|k: int| 0 <= k < i ==> v@[k] != ch,
        decreases v@.len() - i,
    {
        if v[i] == ch {
            return true;
        }
        i += 1;
    }
    false
}

fn one_of(set: &str, negate: bool) -> (r: OneOf)
    ensures
        r.wf(),
        r.set@ == set@,
        r.negate == negate,
{
    let chars = crate::text::chars_of(set);
    let mut mesg = String::new();
    push_char(&mut mesg, '[');
    if negate {
        push_char(&mut mesg, '^');
    }
    let mut i: usize = 0;
    let ghost start = mesg@;
    while i < chars.len()
        invariant
            i <= chars@.len(),
            mesg@ == start + chars@.subrange(0, i as int),
        decreases chars@.len() - i,
    {
        push_char(&mut mesg, chars[i]);
        proof {
            assert(chars@.subrange(0, i + 1) =~= chars@.subrange(0, i as int).push(chars@[i as int]));
        }
        i += 1;
    }
    push_char(&mut mesg, ']');
    proof {
        assert(chars@.subrange(0, chars@.len() as int) =~= chars@);
        assert(mesg@ =~= set_mesg(set@, negate));
    }
    OneOf { set: chars, negate, mesg }
}

/// Attempts to match any character in `set`; the matched character is returned.
pub fn anyc(set: &str) -> (r: OneOf)
    ensures
        r.wf(),
        r.set@ == set@,
        !r.negate,
{
    one_of(set, false)
}

/// Attempts to match any character that is not in `set`; the matched character
/// is returned.
pub fn noc(set: &str) -> (r: OneOf)
    ensures
        r.wf(),
        r.set@ == set@,
        r.negate,
{
    one_of(set, true)
}


/// The first position at or after `i` whose character is the sentinel or
/// fails the test.
pub open spec fn span<C: CharClass>(class: C, text: Seq<char>, i: int) -> int
    decreases text.len() - i,
{
    if 0 <= i < text.len() && text[i] != EOT && class.holds(text[i]) {
        span(class, text, i + 1)
    } else {
        i
    }
}

pub proof fn lemma_span<C: CharClass>(class: C, text: Seq<char>, i: int)
    requires
        0 <= i < text.len(),
        text.last() == EOT,
    ensures
        i <= span(class, text, i) < text.len(),
    decreases text.len() - i,
{
    if text[i] != EOT && class.holds(text[i]) {
        lemma_span(class, text, i + 1);
    }
}

/// Scans from the cursor while the test holds; returns where it stopped.
fn scan_class<C: CharClass>(class: &C, s: &State) -> (r: usize)
    requires
        class.wf(),
        s.wf(),
    ensures
        r == span(*class, s.text@, s.index as int),
        s.index <= r < s.text@.len(),
{
    proof {
        lemma_span(*class, s.text@, s.index as int);
    }
    let mut i = s.index;
    loop
        invariant
            s.wf(),
            class.wf(),
            s.index <= i < s.text@.len(),
            span(*class, s.text@, i as int) == span(*class, s.text@, s.index as int),
        decreases s.text@.len() - i,
    {
        let ch = s.char_at(i);
        if ch == EOT || !class.test(ch) {
            return i;
        }
        proof {
            lemma_span(*class, s.text@, i + 1);
        }
        i += 1;
    }
}

/// Consumes a run of characters satisfying a test: zero or more, or, with
/// `at_least_one`, one or more.
pub struct Match<C> {
    pub class: C,
    pub at_least_one: bool,
}

impl<C: CharClass> Parser for Match<C> {
    type Output = String;

    open spec fn wf(&self) -> bool {
        self.class.wf()
    }

    open spec fn spec_parse(&self, s: State) -> Outcome<Seq<char>> {
        let end = span(self.class, s.text@, s.index as int);
        if self.at_least_one && end == s.index {
            fail_at(s, Seq::empty())
        } else {
            Outcome::Pass { next: s.moved(end), value: s.text@.subrange(s.index as int, end) }
        }
    }

    proof fn lemma_valid(&self, s: State) {
        lemma_span(self.class, s.text@, s.index as int);
        crate::state::lemma_moved_wf(s, span(self.class, s.text@, s.index as int));
    }

    fn parse(&self, s: &State) -> (r: Status<String>) {
        proof {
            self.lemma_valid(*s);
        }
        let end = scan_class(&self.class, s);
        if self.at_least_one && end == s.index {
            Err(Failed { old_state: s.dup(), err_state: s.dup(), mesg: String::new() })
        } else {
            let value = string_of_range(&s.text, s.index, end);
            Ok(Succeeded { new_state: s.advance(end), value })
        }
    }
}

/// Consumes zero or more characters matching the predicate, and returns them.
pub fn match0<C: CharClass>(class: C) -> (r: Match<C>)
    ensures
        r.class == class,
        !r.at_least_one,
{
    Match { class, at_least_one: false }
}

/// Consumes one or more characters matching the predicate, and returns them.
pub fn match1<C: CharClass>(class: C) -> (r: Match<C>)
    ensures
        r.class == class,
        r.at_least_one,
{
    Match { class, at_least_one: true }
}

/// `prefix+ suffix*`: one or more characters passing the first test, then
/// any number passing the second; the matched text is returned.
pub struct Match1_0<C1, C2> {
    pub prefix: C1,
    pub suffix: C2,
}

impl<C1: CharClass, C2: CharClass> Parser for Match1_0<C1, C2> {
    type Output = String;

    open spec fn wf(&self) -> bool {
        self.prefix.wf() && self.suffix.wf()
    }

    open spec fn spec_parse(&self, s: State) -> Outcome<Seq<char>> {
        let mid = span(self.prefix, s.text@, s.index as int);
        let end = span(self.suffix, s.text@, mid);
        if mid == s.index {
            fail_at(s, Seq::empty())
        } else {
            Outcome::Pass { next: s.moved(end), value: s.text@.subrange(s.index as int, end) }
        }
    }

    proof fn lemma_valid(&self, s: State) {
        let mid = span(self.prefix, s.text@, s.index as int);
        lemma_span(self.prefix, s.text@, s.index as int);
        lemma_span(self.suffix, s.text@, mid);
        crate::state::lemma_moved_wf(s, span(self.suffix, s.text@, mid));
    }

    fn parse(&self, s: &State) -> (r: Status<String>) {
        proof {
            self.lemma_valid(*s);
        }
        let mid = scan_class(&self.prefix, s);
        if mid == s.index {
            return Err(Failed { old_state: s.dup(), err_state: s.dup(), mesg: String::new() });
        }
        let at_mid = s.advance(mid);
        let end = scan_class(&self.suffix, &at_mid);
        let value = string_of_range(&s.text, s.index, end);
        Ok(Succeeded { new_state: s.advance(end), value })
    }
}

/// match1_0 := prefix+ suffix*
pub fn match1_0<C1: CharClass, C2: CharClass>(prefix: C1, suffix: C2) -> (r: Match1_0<C1, C2>)
    ensures
        r.prefix == prefix,
        r.suffix == suffix,
{
    Match1_0 { prefix, suffix }
}

/// Whether pattern character `p` matches text character `t`; with `fold`,
/// `p` is compared with `t` lower-cased.
pub open spec fn lit_eq(fold: bool, p: char, t: char) -> bool {
    if fold {
        p == spec_lower_char(t)
    } else {
        p == t
    }
}

/// How many characters of `pat`, from its `k`-th, match `text` from `i + k`
/// on, before the sentinel; the result counts the first `k` too.
pub open spec fn matched(pat: Seq<char>, fold: bool, text: Seq<char>, i: int, k: int) -> int
    decreases pat.len() - k,
{
    if 0 <= k < pat.len() && 0 <= i + k < text.len() && text[i + k] != EOT && lit_eq(
        fold,
        pat[k],
        text[i + k],
    ) {
        matched(pat, fold, text, i, k + 1)
    } else {
        k
    }
}

pub proof fn lemma_matched(pat: Seq<char>, fold: bool, text: Seq<char>, i: int, k: int)
    requires
        0 <= k <= pat.len(),
        0 <= i,
        i + k < text.len(),
        text.last() == EOT,
    ensures
        k <= matched(pat, fold, text, i, k) <= pat.len(),
        i + matched(pat, fold, text, i, k) < text.len(),
    decreases pat.len() - k,
{
    if k < pat.len() && text[i + k] != EOT && lit_eq(fold, pat[k], text[i + k]) {
        lemma_matched(pat, fold, text, i, k + 1);
    }
}

/// `'` + `pat` + `'`.
pub open spec fn quoted(pat: Seq<char>) -> Seq<char> {
    seq!['\''] + pat + seq!['\'']
}

/// Matches a fixed text, exactly or (with `fold`) ignoring ASCII case; the
/// matched input is returned. `pattern` is stored lower-cased when folding.
pub struct Lit {
    pub pattern: Vec<char>,
    pub fold: bool,
    pub mesg: String,
}

impl Parser for Lit {
    type Output = String;

    open spec fn wf(&self) -> bool {
        self.mesg@ == quoted(self.pattern@)
    }

    open spec fn spec_parse(&self, s: State) -> Outcome<Seq<char>> {
        let k = matched(self.pattern@, self.fold, s.text@, s.index as int, 0);
        if k == self.pattern@.len() {
            Outcome::Pass { next: s.moved(s.index + k), value: s.text@.subrange(s.index as int, s.index + k) }
        } else {
            fail_at(s.moved(s.index + k), self.mesg@)
        }
    }

    proof fn lemma_valid(&self, s: State) {
        lemma_matched(self.pattern@, self.fold, s.text@, s.index as int, 0);
        crate::state::lemma_moved_wf(s, s.index + matched(self.pattern@, self.fold, s.text@, s.index as int, 0));
    }

    fn parse(&self, s: &State) -> (r: Status<String>) {
        proof {
            self.lemma_valid(*s);
        }
        let ghost pat = self.pattern@;
        let n = self.pattern.len();
        let mut k: usize = 0;
        while k < n
            invariant
                s.wf(),
                n == pat.len(),
                pat == self.pattern@,
                k <= n,
                s.index + k < s.text@.len(),
                matched(pat, self.fold, s.text@, s.index as int, k as int) == matched(
                    pat,
                    self.fold,
                    s.text@,
                    s.index as int,
                    0,
                ),
            ensures
                k <= n,
                s.index + k < s.text@.len(),
                matched(pat, self.fold, s.text@, s.index as int, k as int) == k,
                k == matched(pat, self.fold, s.text@, s.index as int, 0),
            decreases n - k,
        {
            let t = s.char_at(s.index + k);
            let same = if self.fold {
                self.pattern[k] == lower_char(t)
            } else {
                self.pattern[k] == t
            };
            if t == EOT || !same {
                proof {
                    assert(same == lit_eq(self.fold, pat[k as int], t));
                    assert(matched(pat, self.fold, s.text@, s.index as int, k as int) == k);
                }
                break;
            }
            proof {
                lemma_matched(pat, self.fold, s.text@, s.index as int, k + 1);
            }
            k += 1;
        }
        let end = s.index + k;
        if k == n {
            let value = string_of_range(&s.text, s.index, end);
            Ok(Succeeded { new_state: s.advance(end), value })
        } else {
            Err(Failed { old_state: s.dup(), err_state: s.advance(end), mesg: self.mesg.clone() })
        }
    }
}

fn make_lit(pattern: Vec<char>, fold: bool) -> (r: Lit)
    ensures
        r.wf(),
        r.pattern@ == pattern@,
        r.fold == fold,
{
    let mut mesg = String::new();
    push_char(&mut mesg, '\'');
    let mut i: usize = 0;
    let ghost start = mesg@;
    while i < pattern.len()
        invariant
            i <= pattern@.len(),
            start == seq!['\''],
            mesg@ == start + pattern@.subrange(0, i as int),
        decreases pattern@.len() - i,
    {
        push_char(&mut mesg, pattern[i]);
        proof {
            assert(pattern@.subrange(0, i + 1) =~= pattern@.subrange(0, i as int).push(pattern@[i as int]));
        }
        i += 1;
    }
    push_char(&mut mesg, '\'');
    proof {
        assert(pattern@.subrange(0, pattern@.len() as int) =~= pattern@);
        assert(mesg@ =~= quoted(pattern@));
    }
    Lit { pattern, fold, mesg }
}

/// The ASCII lower-case form of each character.
pub open spec fn lower_seq(s: Seq<char>) -> Seq<char> {
    s.map_values(|c: char| spec_lower_char(c))
}

/// Returns the input that matches `text`. Also see `liti` and `litv`.
pub fn lit(text: &str) -> (r: Lit)
    ensures
        r.wf(),
        r.pattern@ == text@,
        !r.fold,
{
    make_lit(crate::text::chars_of(text), false)
}

/// Returns the input that matches `text` ignoring ASCII case.
pub fn liti(text: &str) -> (r: Lit)
    ensures
        r.wf(),
        r.pattern@ == lower_seq(text@),
        r.fold,
{
    let chars = crate::text::chars_of(text);
    let mut lowered: Vec<char> = Vec::new();
    let mut i: usize = 0;
    while i < chars.len()
        invariant
            i <= chars@.len(),
            lowered@ == lower_seq(chars@.subrange(0, i as int)),
        decreases chars@.len() - i,
    {
        lowered.push(lower_char(chars[i]));
        proof {
            assert(lower_seq(chars@.subrange(0, i + 1)) =~= lower_seq(chars@.subrange(0, i as int)).push(
                spec_lower_char(chars@[i as int]),
            ));
        }
        i += 1;
    }
    proof {
        assert(chars@.subrange(0, chars@.len() as int) =~= chars@);
    }
    make_lit(lowered, true)
}

/// Returns the input that matches `text`; the same parser as `lit`.
pub fn text(s: &str) -> (r: Lit)
    ensures
        r.wf(),
        r.pattern@ == s@,
        !r.fold,
{
    lit(s)
}


/// Returns `value` if the input matches `text`. Also see `lit`.
pub fn litv<T: DeepView + Clone>(text: &str, value: T) -> (r: crate::combinators::Replace<Lit, T>)
    ensures
        r.inner.wf(),
        r.inner.pattern@ == text@,
        !r.inner.fold,
        r.value == value,
{
    crate::combinators::Replace { inner: lit(text), value }
}

/// Returns `value` if the input matches `text`; the same parser as `litv`.
pub fn literal<T: DeepView + Clone>(text: &str, value: T) -> (r: crate::combinators::Replace<Lit, T>)
    ensures
        r.inner.wf(),
        r.inner.pattern@ == text@,
        !r.inner.fold,
        r.value == value,
{
    litv(text, value)
}

/// Says how many characters from position `i` of a text belong to a token.
pub trait Scanner {
    spec fn wf(&self) -> bool;

    spec fn spec_count(&self, text: Seq<char>, i: int) -> int;

    fn count(&self, text: &Vec<char>, i: usize) -> (r: usize)
        requires
            self.wf(),
            i < text@.len(),
            text@.last() == EOT,
        ensures
            r == self.spec_count(text@, i as int),
    ;
}

impl<F: Fn(&Vec<char>, usize) -> usize> Scanner for F {
    open spec fn wf(&self) -> bool {
        &&& forall|t: &Vec<char>, i: usize| self.requires((t, i))
        &&& forall|t1: &Vec<char>, t2: &Vec<char>, i: usize, n1: usize, n2: usize|
            #![trigger self.ensures((t1, i), n1), self.ensures((t2, i), n2)]
            t1@ == t2@ && self.ensures((t1, i), n1) && self.ensures((t2, i), n2) ==> n1 == n2
    }

    open spec fn spec_count(&self, text: Seq<char>, i: int) -> int {
        let (t, n) = choose|t: &Vec<char>, n: usize| t@ == text && #[trigger] self.ensures((t, i as usize), n);
        n as int
    }

    fn count(&self, text: &Vec<char>, i: usize) -> (r: usize) {
        (self)(text, i)
    }
}

/// Consumes as many characters as a scanner counts from the cursor, counting
/// lines, and returns them. A count of zero, a cursor on the sentinel, or a
/// count that would pass the sentinel matches nothing; this never fails.
pub struct Scan<F> {
    pub scanner: F,
}

impl<F: Scanner> Parser for Scan<F> {
    type Output = String;

    open spec fn wf(&self) -> bool {
        self.scanner.wf()
    }

    open spec fn spec_parse(&self, s: State) -> Outcome<Seq<char>> {
        let n = self.scanner.spec_count(s.text@, s.index as int);
        if n > 0 && s.cur() != EOT && s.index + n < s.text@.len() {
            Outcome::Pass { next: s.moved(s.index + n), value: s.text@.subrange(s.index as int, s.index + n) }
        } else {
            Outcome::Pass { next: s, value: Seq::empty() }
        }
    }

    proof fn lemma_valid(&self, s: State) {
        let n = self.scanner.spec_count(s.text@, s.index as int);
        if n > 0 && s.cur() != EOT && s.index + n < s.text@.len() {
            crate::state::lemma_moved_wf(s, s.index + n);
        }
    }

    fn parse(&self, s: &State) -> (r: Status<String>) {
        let n = self.scanner.count(&s.text, s.index);
        if n > 0 && s.current() != EOT && n < s.text.len() - s.index {
            let end = s.index + n;
            proof {
                crate::state::lemma_moved_wf(*s, end as int);
            }
            let value = string_of_range(&s.text, s.index, end);
            Ok(Succeeded { new_state: s.advance(end), value })
        } else {
            Ok(Succeeded { new_state: s.dup(), value: String::new() })
        }
    }
}

/// Returns a parser which consumes what `scanner` counts; also see `Scan`.
pub fn scan<F: Scanner>(scanner: F) -> (r: Scan<F>)
    ensures
        r.scanner == scanner,
{
    Scan { scanner }
}


/// Where repeated scanning from `i` stops: each scan that counts at least one
/// character, starts before the sentinel and stays before it moves on.
pub open spec fn scan_run_end<F: Scanner>(scanner: F, text: Seq<char>, i: int) -> int
    decreases text.len() - i,
{
    let n = scanner.spec_count(text, i);
    if 0 <= i < text.len() && n > 0 && text[i] != EOT && i + n < text.len() {
        scan_run_end(scanner, text, i + n)
    } else {
        i
    }
}

pub proof fn lemma_scan_run_end<F: Scanner>(scanner: F, text: Seq<char>, i: int)
    requires
        0 <= i < text.len(),
    ensures
        i <= scan_run_end(scanner, text, i) < text.len(),
    decreases text.len() - i,
{
    let n = scanner.spec_count(text, i);
    if n > 0 && text[i] != EOT && i + n < text.len() {
        lemma_scan_run_end(scanner, text, i + n);
    }
}

/// Scans again and again until the scanner counts nothing, counting lines;
/// returns the characters consumed. With `at_least_one`, consuming nothing
/// is a failure.
pub struct ScanRun<F> {
    pub scanner: F,
    pub at_least_one: bool,
}

impl<F: Scanner> Parser for ScanRun<F> {
    type Output = String;

    open spec fn wf(&self) -> bool {
        self.scanner.wf()
    }

    open spec fn spec_parse(&self, s: State) -> Outcome<Seq<char>> {
        let end = scan_run_end(self.scanner, s.text@, s.index as int);
        if self.at_least_one && end == s.index {
            fail_at(s, Seq::empty())
        } else {
            Outcome::Pass { next: s.moved(end), value: s.text@.subrange(s.index as int, end) }
        }
    }

    proof fn lemma_valid(&self, s: State) {
        lemma_scan_run_end(self.scanner, s.text@, s.index as int);
        crate::state::lemma_moved_wf(s, scan_run_end(self.scanner, s.text@, s.index as int));
    }

    fn parse(&self, s: &State) -> (r: Status<String>) {
        proof {
            self.lemma_valid(*s);
        }
        let mut i = s.index;
        loop
            invariant
                s.wf(),
                self.wf(),
                s.index <= i < s.text@.len(),
                scan_run_end(self.scanner, s.text@, i as int) == scan_run_end(self.scanner, s.text@, s.index as int),
            ensures
                s.index <= i < s.text@.len(),
                i == scan_run_end(self.scanner, s.text@, s.index as int),
            decreases s.text@.len() - i,
        {
            let n = self.scanner.count(&s.text, i);
            if n > 0 && s.char_at(i) != EOT && n < s.text.len() - i {
                i = i + n;
            } else {
                proof {
                    assert(scan_run_end(self.scanner, s.text@, i as int) == i);
                }
                break;
            }
        }
        if self.at_least_one && i == s.index {
            Err(Failed { old_state: s.dup(), err_state: s.dup(), mesg: String::new() })
        } else {
            let value = string_of_range(&s.text, s.index, i);
            Ok(Succeeded { new_state: s.advance(i), value })
        }
    }
}

/// Scans until the scanner counts nothing; see `ScanRun`.
pub fn scan0<F: Scanner>(scanner: F) -> (r: ScanRun<F>)
    ensures
        r.scanner == scanner,
        !r.at_least_one,
{
    ScanRun { scanner, at_least_one: false }
}

/// Like `scan0`, except that at least one character must be consumed.
pub fn scan1<F: Scanner>(scanner: F) -> (r: ScanRun<F>)
    ensures
        r.scanner == scanner,
        r.at_least_one,
{
    ScanRun { scanner, at_least_one: true }
}

} // verus!
