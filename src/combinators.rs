//! Parsers built from other parsers. They never read the text themselves,
//! except for the whitespace that `s0` and `s1` skip.
use vstd::prelude::*;
use crate::chars::EOT;
use crate::messages::{or_mesg, or_message};
use crate::parser::{Parser, Transform};
use crate::state::{lemma_moved_wf, Failed, Outcome, State, Status, Succeeded};
use crate::text::{push_char, string_of_range};

verus! {

/// A parser may be used through a reference.
impl<'a, P: Parser> Parser for &'a P {
    type Output = P::Output;

    open spec fn wf(&self) -> bool {
        (**self).wf()
    }

    open spec fn spec_parse(&self, s: State) -> Outcome<<P::Output as DeepView>::V> {
        (**self).spec_parse(s)
    }

    proof fn lemma_valid(&self, s: State) {
        (**self).lemma_valid(s);
    }

    fn parse(&self, s: &State) -> (r: Status<P::Output>) {
        (**self).parse(s)
    }
}

/// The failure of a sequence whose part failed with `f`: the same position
/// and message, reported for the sequence's own input.
fn restart(s: &State, f: Failed) -> (r: Failed)
    ensures
        r.old_state == *s,
        r.err_state == f.err_state,
        r.mesg == f.mesg,
{
    Failed { old_state: s.dup(), err_state: f.err_state, mesg: f.mesg }
}

/// Runs `first`, then `second` where `first` stopped; keeps the value of
/// `second`.
pub struct Then<P1, P2> {
    pub first: P1,
    pub second: P2,
}

impl<P1: Parser, P2: Parser> Parser for Then<P1, P2> {
    type Output = P2::Output;

    open spec fn wf(&self) -> bool {
        self.first.wf() && self.second.wf()
    }

    open spec fn spec_parse(&self, s: State) -> Outcome<<P2::Output as DeepView>::V> {
        match self.first.spec_parse(s) {
            Outcome::Pass { next, .. } => self.second.spec_parse(next),
            Outcome::Fail { err, mesg } => Outcome::Fail { err, mesg },
        }
    }

    proof fn lemma_valid(&self, s: State) {
        self.first.lemma_valid(s);
        if let Outcome::Pass { next, .. } = self.first.spec_parse(s) {
            self.second.lemma_valid(next);
        }
    }

    fn parse(&self, s: &State) -> (r: Status<P2::Output>) {
        proof {
            self.lemma_valid(*s);
        }
        match self.first.parse(s) {
            Ok(pass) => match self.second.parse(&pass.new_state) {
                Ok(pass2) => Ok(pass2),
                Err(f) => Err(restart(s, f)),
            },
            Err(f) => Err(f),
        }
    }
}

/// Runs `first`, then `second` where `first` stopped; keeps the value of
/// `first`.
pub struct Before<P1, P2> {
    pub first: P1,
    pub second: P2,
}

impl<P1: Parser, P2: Parser> Parser for Before<P1, P2> {
    type Output = P1::Output;

    open spec fn wf(&self) -> bool {
        self.first.wf() && self.second.wf()
    }

    open spec fn spec_parse(&self, s: State) -> Outcome<<P1::Output as DeepView>::V> {
        match self.first.spec_parse(s) {
            Outcome::Pass { next, value } => match self.second.spec_parse(next) {
                Outcome::Pass { next: next2, .. } => Outcome::Pass { next: next2, value },
                Outcome::Fail { err, mesg } => Outcome::Fail { err, mesg },
            },
            Outcome::Fail { err, mesg } => Outcome::Fail { err, mesg },
        }
    }

    proof fn lemma_valid(&self, s: State) {
        self.first.lemma_valid(s);
        if let Outcome::Pass { next, .. } = self.first.spec_parse(s) {
            self.second.lemma_valid(next);
        }
    }

    fn parse(&self, s: &State) -> (r: Status<P1::Output>) {
        proof {
            self.lemma_valid(*s);
        }
        match self.first.parse(s) {
            Ok(pass) => match self.second.parse(&pass.new_state) {
                Ok(pass2) => Ok(Succeeded { new_state: pass2.new_state, value: pass.value }),
                Err(f) => Err(restart(s, f)),
            },
            Err(f) => Err(f),
        }
    }
}

/// Runs `first`, then `second` where `first` stopped; keeps both values.
pub struct Pair<P1, P2> {
    pub first: P1,
    pub second: P2,
}

impl<P1: Parser, P2: Parser> Parser for Pair<P1, P2> {
    type Output = (P1::Output, P2::Output);

    open spec fn wf(&self) -> bool {
        self.first.wf() && self.second.wf()
    }

    open spec fn spec_parse(&self, s: State) -> Outcome<
        (<P1::Output as DeepView>::V, <P2::Output as DeepView>::V),
    > {
        match self.first.spec_parse(s) {
            Outcome::Pass { next, value } => match self.second.spec_parse(next) {
                Outcome::Pass { next: next2, value: value2 } => Outcome::Pass {
                    next: next2,
                    value: (value, value2),
                },
                Outcome::Fail { err, mesg } => Outcome::Fail { err, mesg },
            },
            Outcome::Fail { err, mesg } => Outcome::Fail { err, mesg },
        }
    }

    proof fn lemma_valid(&self, s: State) {
        self.first.lemma_valid(s);
        if let Outcome::Pass { next, .. } = self.first.spec_parse(s) {
            self.second.lemma_valid(next);
        }
    }

    fn parse(&self, s: &State) -> (r: Status<(P1::Output, P2::Output)>) {
        proof {
            self.lemma_valid(*s);
        }
        match self.first.parse(s) {
            Ok(pass) => match self.second.parse(&pass.new_state) {
                Ok(pass2) => Ok(Succeeded { new_state: pass2.new_state, value: (pass.value, pass2.value) }),
                Err(f) => Err(restart(s, f)),
            },
            Err(f) => Err(f),
        }
    }
}

/// Applies a function to the value of a successful parse.
pub struct Mapped<P, F> {
    pub inner: P,
    pub f: F,
}

impl<P: Parser, F: Transform<P::Output>> Parser for Mapped<P, F> {
    type Output = F::Out;

    open spec fn wf(&self) -> bool {
        self.inner.wf() && self.f.wf()
    }

    open spec fn spec_parse(&self, s: State) -> Outcome<<F::Out as DeepView>::V> {
        match self.inner.spec_parse(s) {
            Outcome::Pass { next, value } => Outcome::Pass { next, value: self.f.spec_apply(value) },
            Outcome::Fail { err, mesg } => Outcome::Fail { err, mesg },
        }
    }

    proof fn lemma_valid(&self, s: State) {
        self.inner.lemma_valid(s);
    }

    fn parse(&self, s: &State) -> (r: Status<F::Out>) {
        proof {
            self.lemma_valid(*s);
        }
        match self.inner.parse(s) {
            Ok(pass) => Ok(Succeeded { new_state: pass.new_state, value: self.f.apply(pass.value) }),
            Err(f) => Err(f),
        }
    }
}

/// Replaces the value of a successful parse by a fixed one.
pub struct Replace<P, T> {
    pub inner: P,
    pub value: T,
}

impl<P: Parser, T: DeepView + Clone> Parser for Replace<P, T> {
    type Output = T;

    open spec fn wf(&self) -> bool {
        &&& self.inner.wf()
        &&& forall|c: T| call_ensures(T::clone, (&self.value,), c) ==> c.deep_view() == self.value.deep_view()
    }

    open spec fn spec_parse(&self, s: State) -> Outcome<T::V> {
        match self.inner.spec_parse(s) {
            Outcome::Pass { next, .. } => Outcome::Pass { next, value: self.value.deep_view() },
            Outcome::Fail { err, mesg } => Outcome::Fail { err, mesg },
        }
    }

    proof fn lemma_valid(&self, s: State) {
        self.inner.lemma_valid(s);
    }

    fn parse(&self, s: &State) -> (r: Status<T>) {
        proof {
            self.lemma_valid(*s);
        }
        match self.inner.parse(s) {
            Ok(pass) => Ok(Succeeded { new_state: pass.new_state, value: self.value.clone() }),
            Err(f) => Err(f),
        }
    }
}

/// The failure of two alternatives: the one that got further, or, when both
/// got as far, the second's position with both messages.
pub open spec fn merge<V>(err1: State, mesg1: Seq<char>, err2: State, mesg2: Seq<char>) -> Outcome<V> {
    if err1.index > err2.index {
        Outcome::Fail { err: err1, mesg: mesg1 }
    } else if err1.index < err2.index {
        Outcome::Fail { err: err2, mesg: mesg2 }
    } else {
        Outcome::Fail { err: err2, mesg: or_mesg(mesg1, mesg2) }
    }
}

/// The failure of two alternatives tried on the same input.
pub(crate) fn merge_failures(f1: Failed, f2: Failed) -> (r: Failed)
    ensures
        r.old_state == f2.old_state,
        merge::<()>(f1.err_state, f1.mesg@, f2.err_state, f2.mesg@) == (Outcome::<()>::Fail {
            err: r.err_state,
            mesg: r.mesg@,
        }),
{
    if f1.err_state.index > f2.err_state.index {
        Failed { old_state: f2.old_state, err_state: f1.err_state, mesg: f1.mesg }
    } else if f1.err_state.index < f2.err_state.index {
        f2
    } else {
        let mesg = or_message(&f1.mesg, &f2.mesg);
        Failed { old_state: f2.old_state, err_state: f2.err_state, mesg }
    }
}

/// Tries `first`; if it fails, tries `second` from the same input.
pub struct Or<P1, P2> {
    pub first: P1,
    pub second: P2,
}

impl<P1: Parser, P2: Parser<Output = P1::Output>> Parser for Or<P1, P2> {
    type Output = P1::Output;

    open spec fn wf(&self) -> bool {
        self.first.wf() && self.second.wf()
    }

    open spec fn spec_parse(&self, s: State) -> Outcome<<P1::Output as DeepView>::V> {
        match self.first.spec_parse(s) {
            Outcome::Pass { next, value } => Outcome::Pass { next, value },
            Outcome::Fail { err: err1, mesg: mesg1 } => match self.second.spec_parse(s) {
                Outcome::Pass { next, value } => Outcome::Pass { next, value },
                Outcome::Fail { err: err2, mesg: mesg2 } => merge(err1, mesg1, err2, mesg2),
            },
        }
    }

    proof fn lemma_valid(&self, s: State) {
        self.first.lemma_valid(s);
        self.second.lemma_valid(s);
    }

    fn parse(&self, s: &State) -> (r: Status<P1::Output>) {
        proof {
            self.lemma_valid(*s);
        }
        match self.first.parse(s) {
            Ok(pass) => Ok(pass),
            Err(f1) => match self.second.parse(s) {
                Ok(pass) => Ok(pass),
                Err(f2) => Err(merge_failures(f1, f2)),
            },
        }
    }
}

/// The message of a labelled failure that got to `err` from `s` with `mesg`.
pub open spec fn label_mesg(label: Seq<char>, s: State, err: State, mesg: Seq<char>) -> Seq<char> {
    if label.len() == 0 {
        Seq::empty()
    } else if err.index == s.index || mesg.len() == 0 {
        label
    } else {
        mesg
    }
}

/// Gives a failure a message: the label, when the parser failed on its first
/// character or without a message; an empty label empties the message, so
/// that an enclosing alternative or label decides it.
pub struct Label<P> {
    pub inner: P,
    pub label: String,
}

impl<P: Parser> Parser for Label<P> {
    type Output = P::Output;

    open spec fn wf(&self) -> bool {
        self.inner.wf()
    }

    open spec fn spec_parse(&self, s: State) -> Outcome<<P::Output as DeepView>::V> {
        match self.inner.spec_parse(s) {
            Outcome::Pass { next, value } => Outcome::Pass { next, value },
            Outcome::Fail { err, mesg } => Outcome::Fail { err, mesg: label_mesg(self.label@, s, err, mesg) },
        }
    }

    proof fn lemma_valid(&self, s: State) {
        self.inner.lemma_valid(s);
    }

    fn parse(&self, s: &State) -> (r: Status<P::Output>) {
        proof {
            self.lemma_valid(*s);
        }
        match self.inner.parse(s) {
            Ok(pass) => Ok(pass),
            Err(f) => {
                let label_chars = crate::text::chars_of(self.label.as_str());
                let mesg_chars = crate::text::chars_of(f.mesg.as_str());
                let mesg = if label_chars.len() == 0 {
                    String::new()
                } else if f.err_state.index == s.index || mesg_chars.len() == 0 {
                    self.label.clone()
                } else {
                    f.mesg
                };
                Err(Failed { old_state: f.old_state, err_state: f.err_state, mesg })
            },
        }
    }
}

/// Succeeds with `Some` value if the parser does, else with `None` at the input.
pub struct Optional<P> {
    pub inner: P,
}

impl<P: Parser> Parser for Optional<P> {
    type Output = Option<P::Output>;

    open spec fn wf(&self) -> bool {
        self.inner.wf()
    }

    open spec fn spec_parse(&self, s: State) -> Outcome<Option<<P::Output as DeepView>::V>> {
        match self.inner.spec_parse(s) {
            Outcome::Pass { next, value } => Outcome::Pass { next, value: Some(value) },
            Outcome::Fail { .. } => Outcome::Pass { next: s, value: None },
        }
    }

    proof fn lemma_valid(&self, s: State) {
        self.inner.lemma_valid(s);
    }

    fn parse(&self, s: &State) -> (r: Status<Option<P::Output>>) {
        proof {
            self.lemma_valid(*s);
        }
        match self.inner.parse(s) {
            Ok(pass) => Ok(Succeeded { new_state: pass.new_state, value: Some(pass.value) }),
            Err(_) => Ok(Succeeded { new_state: s.dup(), value: None }),
        }
    }
}

/// Keeps the text that a successful parse consumed, in place of its value.
pub struct Recognize<P> {
    pub inner: P,
}

impl<P: Parser> Parser for Recognize<P> {
    type Output = String;

    open spec fn wf(&self) -> bool {
        self.inner.wf()
    }

    open spec fn spec_parse(&self, s: State) -> Outcome<Seq<char>> {
        match self.inner.spec_parse(s) {
            Outcome::Pass { next, .. } => Outcome::Pass {
                next,
                value: s.text@.subrange(s.index as int, next.index as int),
            },
            Outcome::Fail { err, mesg } => Outcome::Fail { err, mesg },
        }
    }

    proof fn lemma_valid(&self, s: State) {
        self.inner.lemma_valid(s);
    }

    fn parse(&self, s: &State) -> (r: Status<String>) {
        proof {
            self.lemma_valid(*s);
        }
        match self.inner.parse(s) {
            Ok(pass) => {
                let value = string_of_range(&s.text, s.index, pass.new_state.index);
                Ok(Succeeded { new_state: pass.new_state, value })
            },
            Err(f) => Err(f),
        }
    }
}

/// The first position at or after `i` that is not a space, tab, `\r` or `\n`.
pub open spec fn space_end(text: Seq<char>, i: int) -> int
    decreases text.len() - i,
{
    if 0 <= i < text.len() && (text[i] == ' ' || text[i] == '\t' || text[i] == '\r' || text[i] == '\n') {
        space_end(text, i + 1)
    } else {
        i
    }
}

pub proof fn lemma_space_end(text: Seq<char>, i: int)
    requires
        0 <= i < text.len(),
        text.last() == EOT,
    ensures
        i <= space_end(text, i) < text.len(),
    decreases text.len() - i,
{
    if text[i] == ' ' || text[i] == '\t' || text[i] == '\r' || text[i] == '\n' {
        lemma_space_end(text, i + 1);
    }
}

/// Skips the whitespace at the cursor, counting lines.
fn skip_space(s: &State) -> (r: State)
    requires
        s.wf(),
    ensures
        r == s.moved(space_end(s.text@, s.index as int)),
        r.index == space_end(s.text@, s.index as int),
        r.wf(),
{
    proof {
        lemma_space_end(s.text@, s.index as int);
    }
    let mut i = s.index;
    loop
        invariant
            s.wf(),
            s.index <= i < s.text@.len(),
            space_end(s.text@, i as int) == space_end(s.text@, s.index as int),
        decreases s.text@.len() - i,
    {
        let ch = s.char_at(i);
        if !(ch == ' ' || ch == '\t' || ch == '\r' || ch == '\n') {
            return s.advance(i);
        }
        proof {
            lemma_space_end(s.text@, i + 1);
        }
        i += 1;
    }
}

/// The parser followed by optional whitespace (`s0`), or by at least one
/// whitespace character (`s1`).
pub struct Spaced<P> {
    pub inner: P,
    pub required: bool,
}

/// The message `whitespace`.
pub open spec fn whitespace_mesg() -> Seq<char> {
    seq!['w', 'h', 'i', 't', 'e', 's', 'p', 'a', 'c', 'e']
}

impl<P: Parser> Parser for Spaced<P> {
    type Output = P::Output;

    open spec fn wf(&self) -> bool {
        self.inner.wf()
    }

    open spec fn spec_parse(&self, s: State) -> Outcome<<P::Output as DeepView>::V> {
        match self.inner.spec_parse(s) {
            Outcome::Pass { next, value } => {
                let end = space_end(next.text@, next.index as int);
                if self.required && end == next.index {
                    Outcome::Fail { err: next, mesg: whitespace_mesg() }
                } else {
                    Outcome::Pass { next: next.moved(end), value }
                }
            },
            Outcome::Fail { err, mesg } => Outcome::Fail { err, mesg },
        }
    }

    proof fn lemma_valid(&self, s: State) {
        self.inner.lemma_valid(s);
        if let Outcome::Pass { next, .. } = self.inner.spec_parse(s) {
            lemma_space_end(next.text@, next.index as int);
            lemma_moved_wf(next, space_end(next.text@, next.index as int));
        }
    }

    fn parse(&self, s: &State) -> (r: Status<P::Output>) {
        proof {
            self.lemma_valid(*s);
        }
        match self.inner.parse(s) {
            Ok(pass) => {
                let after = skip_space(&pass.new_state);
                if self.required && after.index == pass.new_state.index {
                    let mut mesg = String::new();
                    push_char(&mut mesg, 'w');
                    push_char(&mut mesg, 'h');
                    push_char(&mut mesg, 'i');
                    push_char(&mut mesg, 't');
                    push_char(&mut mesg, 'e');
                    push_char(&mut mesg, 's');
                    push_char(&mut mesg, 'p');
                    push_char(&mut mesg, 'a');
                    push_char(&mut mesg, 'c');
                    push_char(&mut mesg, 'e');
                    proof {
                        assert(mesg@ =~= whitespace_mesg());
                    }
                    Err(Failed { old_state: s.dup(), err_state: pass.new_state, mesg })
                } else {
                    Ok(Succeeded { new_state: after, value: pass.value })
                }
            },
            Err(f) => Err(f),
        }
    }
}


/// The string of a successful optional parse, or the empty string.
pub struct OrEmpty;

impl Transform<Option<String>> for OrEmpty {
    type Out = String;

    open spec fn wf(&self) -> bool {
        true
    }

    open spec fn spec_apply(&self, a: Option<Seq<char>>) -> Seq<char> {
        match a {
            Some(t) => t,
            None => Seq::empty(),
        }
    }

    fn apply(&self, a: Option<String>) -> (r: String) {
        match a {
            Some(t) => t,
            None => String::new(),
        }
    }
}

/// optional_str := e?, giving the empty string when `e` fails.
pub fn optional_str<P: Parser<Output = String>>(p: P) -> (r: Mapped<Optional<P>, OrEmpty>)
    ensures
        r.inner.inner == p,
{
    Mapped { inner: Optional { inner: p }, f: OrEmpty }
}

} // verus!
