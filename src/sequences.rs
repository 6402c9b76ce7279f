//! Sequencing where later parts depend on earlier values: bind, and fixed-arity
//! sequences whose values are combined by a function that may reject them.
use vstd::prelude::*;
use crate::parser::Parser;
use crate::state::{valid_outcome, Failed, Outcome, State, Status, Succeeded};
use crate::combinators::{Before, Pair, Recognize, Then};

verus! {

/// Chooses the parser to run next from a parsed value.
pub trait Bind<A: DeepView> {
    type Next: Parser;

    spec fn wf(&self) -> bool;

    spec fn spec_next(&self, a: A::V) -> Self::Next;

    fn next(&self, a: A) -> (r: Self::Next)
        requires
            self.wf(),
        ensures
            r == self.spec_next(a.deep_view()),
    ;
}

impl<A: DeepView, Q: Parser, F: Fn(A) -> Q> Bind<A> for F {
    type Next = Q;

    open spec fn wf(&self) -> bool {
        &&& forall|a: A| self.requires((a,))
        &&& forall|a1: A, a2: A, q1: Q, q2: Q|
            #![trigger self.ensures((a1,), q1), self.ensures((a2,), q2)]
            a1.deep_view() == a2.deep_view() && self.ensures((a1,), q1) && self.ensures((a2,), q2) ==> q1
                == q2
        &&& forall|av: A::V| #[trigger] self.spec_next(av).wf()
    }

    open spec fn spec_next(&self, av: A::V) -> Q {
        let (a, q) = choose|a: A, q: Q| a.deep_view() == av && self.ensures((a,), q);
        q
    }

    fn next(&self, a: A) -> (r: Q) {
        (self)(a)
    }
}

/// Runs `inner`, then the parser that `f` gives for its value, from where
/// `inner` stopped.
pub struct ThenE<P, F> {
    pub inner: P,
    pub f: F,
}

impl<P: Parser, F: Bind<P::Output>> Parser for ThenE<P, F> {
    type Output = <F::Next as Parser>::Output;

    open spec fn wf(&self) -> bool {
        &&& self.inner.wf()
        &&& self.f.wf()
        &&& forall|av: <P::Output as DeepView>::V| #[trigger] self.f.spec_next(av).wf()
    }

    open spec fn spec_parse(&self, s: State) -> Outcome<<<F::Next as Parser>::Output as DeepView>::V> {
        match self.inner.spec_parse(s) {
            Outcome::Pass { next, value } => self.f.spec_next(value).spec_parse(next),
            Outcome::Fail { err, mesg } => Outcome::Fail { err, mesg },
        }
    }

    proof fn lemma_valid(&self, s: State) {
        self.inner.lemma_valid(s);
        if let Outcome::Pass { next, value } = self.inner.spec_parse(s) {
            self.f.spec_next(value).lemma_valid(next);
        }
    }

    fn parse(&self, s: &State) -> (r: Status<<F::Next as Parser>::Output>) {
        proof {
            self.lemma_valid(*s);
        }
        match self.inner.parse(s) {
            Ok(pass) => {
                let q = self.f.next(pass.value);
                match q.parse(&pass.new_state) {
                    Ok(pass2) => Ok(pass2),
                    Err(f) => Err(Failed { old_state: s.dup(), err_state: f.err_state, mesg: f.mesg }),
                }
            },
            Err(f) => Err(f),
        }
    }
}

/// Turns a parsed value into a result, or rejects it with a message.
pub trait Check<A: DeepView> {
    type Out: DeepView;

    spec fn wf(&self) -> bool;

    spec fn spec_check(&self, a: A::V) -> Result<<Self::Out as DeepView>::V, Seq<char>>;

    fn check(&self, a: A) -> (r: Result<Self::Out, String>)
        requires
            self.wf(),
        ensures
            match r {
                Ok(v) => self.spec_check(a.deep_view()) == Ok::<<Self::Out as DeepView>::V, Seq<char>>(
                    v.deep_view(),
                ),
                Err(m) => self.spec_check(a.deep_view()) == Err::<<Self::Out as DeepView>::V, Seq<char>>(
                    m@,
                ),
            },
    ;
}

/// The view of a result of a combining function.
pub open spec fn result_view<R: DeepView>(r: Result<R, String>) -> Result<R::V, Seq<char>> {
    match r {
        Ok(v) => Ok(v.deep_view()),
        Err(m) => Err(m@),
    }
}

/// A function of two values, applied to a pair.
pub struct Args2<F> {
    pub f: F,
}

impl<A: DeepView, B: DeepView, R: DeepView, F: Fn(A, B) -> Result<R, String>> Check<(A, B)> for Args2<F> {
    type Out = R;

    open spec fn wf(&self) -> bool {
        &&& forall|a: A, b: B| self.f.requires((a, b))
        &&& forall|a1: A, b1: B, r1: Result<R, String>, a2: A, b2: B, r2: Result<R, String>|
            #![trigger self.f.ensures((a1, b1), r1), self.f.ensures((a2, b2), r2)]
            a1.deep_view() == a2.deep_view() && b1.deep_view() == b2.deep_view() && self.f.ensures(
                (a1, b1),
                r1,
            ) && self.f.ensures((a2, b2), r2) ==> result_view(r1) == result_view(r2)
    }

    open spec fn spec_check(&self, v: (A::V, B::V)) -> Result<R::V, Seq<char>> {
        let (a, b, r) = choose|a: A, b: B, r: Result<R, String>|
            a.deep_view() == v.0 && b.deep_view() == v.1 && self.f.ensures((a, b), r);
        result_view(r)
    }

    fn check(&self, v: (A, B)) -> (r: Result<R, String>) {
        let (a, b) = v;
        (self.f)(a, b)
    }
}

/// A function of three values, applied to nested pairs.
pub struct Args3<F> {
    pub f: F,
}

impl<
    A: DeepView,
    B: DeepView,
    C: DeepView,
    R: DeepView,
    F: Fn(A, B, C) -> Result<R, String>,
> Check<((A, B), C)> for Args3<F> {
    type Out = R;

    open spec fn wf(&self) -> bool {
        &&& forall|a: A, b: B, c: C| self.f.requires((a, b, c))
        &&& forall|
            a1: A,
            b1: B,
            c1: C,
            r1: Result<R, String>,
            a2: A,
            b2: B,
            c2: C,
            r2: Result<R, String>,
        |
            #![trigger self.f.ensures((a1, b1, c1), r1), self.f.ensures((a2, b2, c2), r2)]
            a1.deep_view() == a2.deep_view() && b1.deep_view() == b2.deep_view() && c1.deep_view()
                == c2.deep_view() && self.f.ensures((a1, b1, c1), r1) && self.f.ensures((a2, b2, c2), r2)
                ==> result_view(r1) == result_view(r2)
    }

    open spec fn spec_check(&self, v: ((A::V, B::V), C::V)) -> Result<R::V, Seq<char>> {
        let (a, b, c, r) = choose|a: A, b: B, c: C, r: Result<R, String>|
            a.deep_view() == v.0.0 && b.deep_view() == v.0.1 && c.deep_view() == v.1 && self.f.ensures(
                (a, b, c),
                r,
            );
        result_view(r)
    }

    fn check(&self, v: ((A, B), C)) -> (r: Result<R, String>) {
        let ((a, b), c) = v;
        (self.f)(a, b, c)
    }
}

/// Runs `inner` and passes its value through `f`; a rejected value fails
/// where `inner` stopped, with `f`'s message.
pub struct Checked<P, F> {
    pub inner: P,
    pub f: F,
}

impl<P: Parser, F: Check<P::Output>> Parser for Checked<P, F> {
    type Output = F::Out;

    open spec fn wf(&self) -> bool {
        self.inner.wf() && self.f.wf()
    }

    open spec fn spec_parse(&self, s: State) -> Outcome<<F::Out as DeepView>::V> {
        match self.inner.spec_parse(s) {
            Outcome::Pass { next, value } => match self.f.spec_check(value) {
                Ok(v) => Outcome::Pass { next, value: v },
                Err(m) => Outcome::Fail { err: next, mesg: m },
            },
            Outcome::Fail { err, mesg } => Outcome::Fail { err, mesg },
        }
    }

    proof fn lemma_valid(&self, s: State) {
        self.inner.lemma_valid(s);
    }

    fn parse(&self, s: &State) -> (r: Status<F::Out>) {
        proof {
            self.lemma_valid(*s);
        }
        match self.inner.parse(s) {
            Ok(pass) => match self.f.check(pass.value) {
                Ok(v) => Ok(Succeeded { new_state: pass.new_state, value: v }),
                Err(m) => Err(Failed { old_state: s.dup(), err_state: pass.new_state, mesg: m }),
            },
            Err(f) => Err(f),
        }
    }
}

/// seq2 := e0 e1, the values combined by `eval`.
pub fn seq2<P0: Parser, P1: Parser, R: DeepView, F: Fn(P0::Output, P1::Output) -> Result<R, String>>(
    p0: P0,
    p1: P1,
    eval: F,
) -> (r: Checked<Pair<P0, P1>, Args2<F>>)
    ensures
        r.inner.first == p0,
        r.inner.second == p1,
        r.f.f == eval,
{
    Checked { inner: Pair { first: p0, second: p1 }, f: Args2 { f: eval } }
}

/// seq3 := e0 e1 e2, the values combined by `eval`.
pub fn seq3<
    P0: Parser,
    P1: Parser,
    P2: Parser,
    R: DeepView,
    F: Fn(P0::Output, P1::Output, P2::Output) -> Result<R, String>,
>(p0: P0, p1: P1, p2: P2, eval: F) -> (r: Checked<Pair<Pair<P0, P1>, P2>, Args3<F>>)
    ensures
        r.inner.first.first == p0,
        r.inner.first.second == p1,
        r.inner.second == p2,
        r.f.f == eval,
{
    Checked { inner: Pair { first: Pair { first: p0, second: p1 }, second: p2 }, f: Args3 { f: eval } }
}



/// seq2_ret0 := e0 e1, keeping the value of e0.
pub fn seq2_ret0<P0: Parser, P1: Parser>(p0: P0, p1: P1) -> (r: Before<P0, P1>)
    ensures
        r.first == p0,
        r.second == p1,
{
    Before { first: p0, second: p1 }
}

/// seq2_ret1 := e0 e1, keeping the value of e1.
pub fn seq2_ret1<P0: Parser, P1: Parser>(p0: P0, p1: P1) -> (r: Then<P0, P1>)
    ensures
        r.first == p0,
        r.second == p1,
{
    Then { first: p0, second: p1 }
}

/// seq3_ret0 := e0 e1 e2, keeping the value of e0.
pub fn seq3_ret0<P0: Parser, P1: Parser, P2: Parser>(p0: P0, p1: P1, p2: P2) -> (r: Before<Before<P0, P1>, P2>)
    ensures
        r.first.first == p0,
        r.first.second == p1,
        r.second == p2,
{
    Before { first: Before { first: p0, second: p1 }, second: p2 }
}

/// seq3_ret1 := e0 e1 e2, keeping the value of e1.
pub fn seq3_ret1<P0: Parser, P1: Parser, P2: Parser>(p0: P0, p1: P1, p2: P2) -> (r: Before<Then<P0, P1>, P2>)
    ensures
        r.first.first == p0,
        r.first.second == p1,
        r.second == p2,
{
    Before { first: Then { first: p0, second: p1 }, second: p2 }
}

/// seq3_ret2 := e0 e1 e2, keeping the value of e2.
pub fn seq3_ret2<P0: Parser, P1: Parser, P2: Parser>(p0: P0, p1: P1, p2: P2) -> (r: Then<Then<P0, P1>, P2>)
    ensures
        r.first.first == p0,
        r.first.second == p1,
        r.second == p2,
{
    Then { first: Then { first: p0, second: p1 }, second: p2 }
}

/// e0 e1, returning the text they matched.
pub fn seq2_ret_str<P0: Parser, P1: Parser>(p0: P0, p1: P1) -> (r: Recognize<Then<P0, P1>>)
    ensures
        r.inner.first == p0,
        r.inner.second == p1,
{
    Recognize { inner: Then { first: p0, second: p1 } }
}

/// e0 e1 e2, returning the text they matched.
pub fn seq3_ret_str<P0: Parser, P1: Parser, P2: Parser>(p0: P0, p1: P1, p2: P2) -> (r: Recognize<
    Then<Then<P0, P1>, P2>,
>)
    ensures
        r.inner.first.first == p0,
        r.inner.first.second == p1,
        r.inner.second == p2,
{
    Recognize { inner: Then { first: Then { first: p0, second: p1 }, second: p2 } }
}

/// e0 e1 e2 e3, returning the text they matched.
pub fn seq4_ret_str<P0: Parser, P1: Parser, P2: Parser, P3: Parser>(p0: P0, p1: P1, p2: P2, p3: P3) -> (r:
    Recognize<Then<Then<Then<P0, P1>, P2>, P3>>)
    ensures
        r.inner.first.first.first == p0,
        r.inner.first.first.second == p1,
        r.inner.first.second == p2,
        r.inner.second == p3,
{
    Recognize { inner: Then { first: Then { first: Then { first: p0, second: p1 }, second: p2 }, second: p3 } }
}


/// The outcome of running `parts[0..n]` one after the other from `s`: the
/// values in order, or the first failure.
pub open spec fn seq_upto<P: Parser>(parts: Seq<P>, s: State, n: int) -> Outcome<Seq<<P::Output as DeepView>::V>>
    decreases n,
{
    if n <= 0 {
        Outcome::Pass { next: s, value: Seq::empty() }
    } else {
        match seq_upto(parts, s, n - 1) {
            Outcome::Pass { next, value } => match parts[n - 1].spec_parse(next) {
                Outcome::Pass { next: next2, value: v } => Outcome::Pass { next: next2, value: value.push(v) },
                Outcome::Fail { err, mesg } => Outcome::Fail { err, mesg },
            },
            Outcome::Fail { err, mesg } => Outcome::Fail { err, mesg },
        }
    }
}

pub proof fn lemma_seq_upto<P: Parser>(parts: Seq<P>, s: State, n: int)
    requires
        0 <= n <= parts.len(),
        forall|i: int| 0 <= i < parts.len() ==> #[trigger] parts[i].wf(),
        s.wf(),
    ensures
        valid_outcome(s, seq_upto(parts, s, n)),
    decreases n,
{
    if n > 0 {
        lemma_seq_upto(parts, s, n - 1);
        if let Outcome::Pass { next, .. } = seq_upto(parts, s, n - 1) {
            parts[n - 1].lemma_valid(next);
        }
    }
}

/// `e0 e1 ... en`, for any number of parsers of one type: the values in
/// order. If a part fails, the sequence fails for its own input.
pub struct Sequence<P> {
    pub parts: Vec<P>,
}

impl<P: Parser> Parser for Sequence<P> {
    type Output = Vec<P::Output>;

    open spec fn wf(&self) -> bool {
        forall|i: int| 0 <= i < self.parts@.len() ==> #[trigger] self.parts@[i].wf()
    }

    open spec fn spec_parse(&self, s: State) -> Outcome<Seq<<P::Output as DeepView>::V>> {
        seq_upto(self.parts@, s, self.parts@.len() as int)
    }

    proof fn lemma_valid(&self, s: State) {
        lemma_seq_upto(self.parts@, s, self.parts@.len() as int);
    }

    fn parse(&self, s: &State) -> (r: Status<Vec<P::Output>>) {
        proof {
            self.lemma_valid(*s);
        }
        let n = self.parts.len();
        let mut values: Vec<P::Output> = Vec::new();
        let mut cur = s.dup();
        let mut i: usize = 0;
        proof {
            assert(values.deep_view() =~= Seq::<<P::Output as DeepView>::V>::empty());
        }
        while i < n
            invariant
                self.wf(),
                s.wf(),
                n == self.parts@.len(),
                i <= n,
                seq_upto(self.parts@, *s, i as int) == (Outcome::Pass { next: cur, value: values.deep_view() }),
                valid_outcome(*s, seq_upto(self.parts@, *s, i as int)),
                valid_outcome(*s, seq_upto(self.parts@, *s, n as int)),
            decreases n - i,
        {
            proof {
                lemma_seq_upto(self.parts@, *s, i + 1);
            }
            match self.parts[i].parse(&cur) {
                Ok(pass) => {
                    let ghost before = values.deep_view();
                    values.push(pass.value);
                    proof {
                        assert(values.deep_view() =~= before.push(values@.last().deep_view()));
                    }
                    cur = pass.new_state;
                },
                Err(f) => {
                    proof {
                        assert forall|k: int| i < k <= n implies seq_upto(self.parts@, *s, k) is Fail by {
                            lemma_fail_stays(self.parts@, *s, i + 1, k);
                        }
                        lemma_fail_stays(self.parts@, *s, i + 1, n as int);
                    }
                    return Err(Failed { old_state: s.dup(), err_state: f.err_state, mesg: f.mesg });
                },
            }
            i += 1;
        }
        Ok(Succeeded { new_state: cur, value: values })
    }
}

/// Once a part has failed, the sequence fails the same way.
pub proof fn lemma_fail_stays<P: Parser>(parts: Seq<P>, s: State, i: int, k: int)
    requires
        1 <= i <= k,
        seq_upto(parts, s, i) is Fail,
    ensures
        seq_upto(parts, s, k) == seq_upto(parts, s, i),
    decreases k - i,
{
    if k > i {
        lemma_fail_stays(parts, s, i, k - 1);
    }
}

/// Runs `parts` one after the other; the values are returned in order.
pub fn sequence<P: Parser>(parts: Vec<P>) -> (r: Sequence<P>)
    ensures
        r.parts == parts,
{
    Sequence { parts }
}

} // verus!
