//! The parser interface, and the interfaces of the functions that parsers are
//! built from (character tests and value transforms).
use vstd::prelude::*;
use crate::chains::{Chain, Eval};
use crate::combinators::{Before, Label, Mapped, Optional, Or, Spaced, Then};
use crate::primitives::Eot;
use crate::repetition::{List, Repeat};
use crate::sequences::{Bind, ThenE};
use crate::state::{agrees, valid_outcome, valid_status, Outcome, State, Status};

verus! {

/// A parser: a function from a state to a result, described by `spec_parse`.
pub trait Parser: Sized {
    type Output: DeepView;

    /// The parser's parts are usable: closures accept every input and
    /// give one result for equal inputs, repeated parsers consume input.
    spec fn wf(&self) -> bool;

    /// What the parser does on input `s`.
    spec fn spec_parse(&self, s: State) -> Outcome<<Self::Output as DeepView>::V>;

    /// A success never moves backwards and a failure reports a position at or
    /// after its input.
    proof fn lemma_valid(&self, s: State)
        requires
            self.wf(),
            s.wf(),
        ensures
            valid_outcome(s, self.spec_parse(s)),
    ;

    /// Runs the parser on `s`.
    fn parse(&self, s: &State) -> (r: Status<Self::Output>)
        requires
            self.wf(),
            s.wf(),
        ensures
            agrees(*s, r, self.spec_parse(*s)),
            valid_status(*s, r),
    ;
}

/// The ways of building a parser from another, as methods.
pub trait Combinators: Parser {
    /// Runs `self`, then `other` where `self` stopped; the value of `other`
    /// is kept. If either fails the sequence fails for its own input.
    fn _then<P2: Parser>(self, other: P2) -> (r: Then<Self, P2>)
        ensures
            r.first == self,
            r.second == other,
    {
        Then { first: self, second: other }
    }

    /// Runs `self`, then the parser that `f` returns for its value. Often used
    /// to translate parsed values.
    fn thene<F: Bind<Self::Output>>(self, f: F) -> (r: ThenE<Self, F>)
        ensures
            r.inner == self,
            r.f == f,
    {
        ThenE { inner: self, f }
    }

    /// Applies `f` to the value of a successful parse.
    fn map<F: Transform<Self::Output>>(self, f: F) -> (r: Mapped<Self, F>)
        ensures
            r.inner == self,
            r.f == f,
    {
        Mapped { inner: self, f }
    }

    /// optional := e?
    fn optional(self) -> (r: Optional<Self>)
        ensures
            r.inner == self,
    {
        Optional { inner: self }
    }

    /// Succeeds if `self` matches `n` to `m` times (inclusive).
    fn r(self, n: usize, m: usize) -> (r: Repeat<Self>)
        ensures
            r.inner == self,
            r.min == n,
            r.max == m,
    {
        Repeat { inner: self, min: n, max: m }
    }

    /// r0 := e*
    fn r0(self) -> (r: Repeat<Self>)
        ensures
            r.inner == self,
            r.min == 0,
            r.max == usize::MAX,
    {
        Repeat { inner: self, min: 0, max: usize::MAX }
    }

    /// r1 := e+
    fn r1(self) -> (r: Repeat<Self>)
        ensures
            r.inner == self,
            r.min == 1,
            r.max == usize::MAX,
    {
        Repeat { inner: self, min: 1, max: usize::MAX }
    }

    /// list := e (sep e)*; the values of each e are returned.
    fn list<S: Parser>(self, sep: S) -> (r: List<Self, S>)
        ensures
            r.item == self,
            r.sep == sep,
    {
        List { item: self, sep }
    }

    /// chainl1 := e (op e)*, a left-associative binary operator; `eval` is
    /// called for each parsed op.
    fn chainl1<O: Parser, F: Eval<Self::Output, O::Output>>(self, op: O, eval: F) -> (r: Chain<Self, O, F>)
        ensures
            r.term == self,
            r.op == op,
            r.eval == eval,
            !r.right,
    {
        Chain { term: self, op, eval, right: false }
    }

    /// chainr1 := e (op e)*, a right-associative binary operator; `eval` is
    /// called for each parsed op.
    fn chainr1<O: Parser, F: Eval<Self::Output, O::Output>>(self, op: O, eval: F) -> (r: Chain<Self, O, F>)
        ensures
            r.term == self,
            r.op == op,
            r.eval == eval,
            r.right,
    {
        Chain { term: self, op, eval, right: true }
    }

    /// Uses `label` as the message when `self` fails on its first character or
    /// without a message. An empty label empties the message, so that an
    /// enclosing alternative or label reports the error.
    fn err(self, label: &str) -> (r: Label<Self>)
        ensures
            r.inner == self,
            r.label@ == label@,
    {
        Label { inner: self, label: label.to_owned() }
    }

    /// Skips what `space` matches, runs `self`, and requires the end of the
    /// input right after it.
    fn everything<W: Parser>(self, space: W) -> (r: Before<Then<W, Self>, Eot>)
        ensures
            r.first.first == space,
            r.first.second == self,
    {
        Before { first: Then { first: space, second: self }, second: Eot }
    }

    /// s0 := e [ \t\r\n]*
    fn s0(self) -> (r: Spaced<Self>)
        ensures
            r.inner == self,
            !r.required,
    {
        Spaced { inner: self, required: false }
    }

    /// s1 := e [ \t\r\n]+
    fn s1(self) -> (r: Spaced<Self>)
        ensures
            r.inner == self,
            r.required,
    {
        Spaced { inner: self, required: true }
    }
    /// Tries `self`, and if that fails, `other` from the same input.
    fn or<P2: Parser<Output = Self::Output>>(self, other: P2) -> (r: Or<Self, P2>)
        ensures
            r.first == self,
            r.second == other,
    {
        Or { first: self, second: other }
    }
}

impl<P: Parser> Combinators for P {
}

/// A parser whose successes always consume at least one character.
pub open spec fn advances<P: Parser>(p: P) -> bool {
    forall|s: State|
        #![trigger p.spec_parse(s)]
        s.wf() && p.spec_parse(s) is Pass ==> s.index < p.spec_parse(s)->Pass_next.index
}

/// A test on characters.
pub trait CharClass {
    spec fn wf(&self) -> bool;

    spec fn holds(&self, ch: char) -> bool;

    fn test(&self, ch: char) -> (r: bool)
        requires
            self.wf(),
        ensures
            r == self.holds(ch),
    ;
}

impl<F: Fn(char) -> bool> CharClass for F {
    open spec fn wf(&self) -> bool {
        &&& forall|ch: char| self.requires((ch,))
        &&& forall|ch: char, b: bool| #[trigger] self.ensures((ch,), b) ==> b == self.ensures((ch,), true)
    }

    open spec fn holds(&self, ch: char) -> bool {
        self.ensures((ch,), true)
    }

    fn test(&self, ch: char) -> (r: bool) {
        (self)(ch)
    }
}

/// A function on parsed values, described on their views.
pub trait Transform<A: DeepView> {
    type Out: DeepView;

    spec fn wf(&self) -> bool;

    spec fn spec_apply(&self, a: A::V) -> <Self::Out as DeepView>::V;

    fn apply(&self, a: A) -> (r: Self::Out)
        requires
            self.wf(),
        ensures
            r.deep_view() == self.spec_apply(a.deep_view()),
    ;
}

impl<A: DeepView, B: DeepView, F: Fn(A) -> B> Transform<A> for F {
    type Out = B;

    open spec fn wf(&self) -> bool {
        &&& forall|a: A| self.requires((a,))
        &&& forall|a1: A, a2: A, b1: B, b2: B|
            #![trigger self.ensures((a1,), b1), self.ensures((a2,), b2)]
            a1.deep_view() == a2.deep_view() && self.ensures((a1,), b1) && self.ensures((a2,), b2)
                ==> b1.deep_view() == b2.deep_view()
    }

    open spec fn spec_apply(&self, av: A::V) -> B::V {
        let (a, b) = choose|a: A, b: B| a.deep_view() == av && self.ensures((a,), b);
        b.deep_view()
    }

    fn apply(&self, a: A) -> (r: B) {
        let r = (self)(a);
        r
    }
}

} // verus!
