//! Binary operators: `term (op term)*`, folded to the left or to the right.
use vstd::prelude::*;
use crate::combinators::Pair;
use crate::parser::{advances, Parser};
use crate::repetition::{lemma_rep, rep};
use crate::state::{Outcome, State, Status, Succeeded};

verus! {

/// How an operator combines its operands: `eval(lhs, op, rhs)`.
pub trait Eval<T: DeepView, U: DeepView> {
    spec fn wf(&self) -> bool;

    spec fn spec_eval(&self, lhs: T::V, op: U::V, rhs: T::V) -> T::V;

    fn eval(&self, lhs: T, op: U, rhs: T) -> (r: T)
        requires
            self.wf(),
        ensures
            r.deep_view() == self.spec_eval(lhs.deep_view(), op.deep_view(), rhs.deep_view()),
    ;
}

impl<T: DeepView, U: DeepView, F: Fn(T, U, T) -> T> Eval<T, U> for F {
    open spec fn wf(&self) -> bool {
        &&& forall|l: T, o: U, r: T| self.requires((l, o, r))
        &&& forall|l1: T, o1: U, r1: T, v1: T, l2: T, o2: U, r2: T, v2: T|
            #![trigger self.ensures((l1, o1, r1), v1), self.ensures((l2, o2, r2), v2)]
            l1.deep_view() == l2.deep_view() && o1.deep_view() == o2.deep_view() && r1.deep_view()
                == r2.deep_view() && self.ensures((l1, o1, r1), v1) && self.ensures((l2, o2, r2), v2)
                ==> v1.deep_view() == v2.deep_view()
    }

    open spec fn spec_eval(&self, lhs: T::V, op: U::V, rhs: T::V) -> T::V {
        let (l, o, r, v) = choose|l: T, o: U, r: T, v: T|
            l.deep_view() == lhs && o.deep_view() == op && r.deep_view() == rhs && self.ensures((l, o, r), v);
        v.deep_view()
    }

    fn eval(&self, lhs: T, op: U, rhs: T) -> (r: T) {
        (self)(lhs, op, rhs)
    }
}

/// `eval(...eval(eval(first, op1, t1), op2, t2)..., opn, tn)`.
pub open spec fn fold_left<T: DeepView, U: DeepView, F: Eval<T, U>>(
    f: F,
    first: T::V,
    pairs: Seq<(U::V, T::V)>,
) -> T::V
    decreases pairs.len(),
{
    if pairs.len() == 0 {
        first
    } else {
        f.spec_eval(fold_left(f, first, pairs.drop_last()), pairs.last().0, pairs.last().1)
    }
}

/// The right fold of `first` and `rest + [(op, last)]`, with `last` already
/// folded into `acc`.
pub open spec fn fold_right_into<T: DeepView, U: DeepView, F: Eval<T, U>>(
    f: F,
    first: T::V,
    rest: Seq<(U::V, T::V)>,
    op: U::V,
    acc: T::V,
) -> T::V
    decreases rest.len(),
{
    if rest.len() == 0 {
        f.spec_eval(first, op, acc)
    } else {
        fold_right_into(f, first, rest.drop_last(), rest.last().0, f.spec_eval(rest.last().1, op, acc))
    }
}

/// `eval(first, op1, eval(t1, op2, ...eval(tn-1, opn, tn)...))`.
pub open spec fn fold_right<T: DeepView, U: DeepView, F: Eval<T, U>>(
    f: F,
    first: T::V,
    pairs: Seq<(U::V, T::V)>,
) -> T::V {
    if pairs.len() == 0 {
        first
    } else {
        fold_right_into(f, first, pairs.drop_last(), pairs.last().0, pairs.last().1)
    }
}

/// `term (op term)*` with each `op` applied by `eval`, grouped to the left
/// or, with `right`, to the right. Each `(op term)` round that succeeds must
/// consume input.
pub struct Chain<P, O, F> {
    pub term: P,
    pub op: O,
    pub eval: F,
    pub right: bool,
}

impl<P: Parser, O: Parser, F: Eval<P::Output, O::Output>> Chain<P, O, F> {
    /// The operators and terms after the first term.
    pub open spec fn suffix(&self, s: State) -> (Seq<(<O::Output as DeepView>::V, <P::Output as DeepView>::V)>, State) {
        rep(Pair { first: &self.op, second: &self.term }, s, usize::MAX as nat)
    }
}

impl<P: Parser, O: Parser, F: Eval<P::Output, O::Output>> Parser for Chain<P, O, F> {
    type Output = P::Output;

    open spec fn wf(&self) -> bool {
        self.term.wf() && self.op.wf() && self.eval.wf() && advances(Pair { first: &self.op, second: &self.term })
    }

    open spec fn spec_parse(&self, s: State) -> Outcome<<P::Output as DeepView>::V> {
        match self.term.spec_parse(s) {
            Outcome::Pass { next, value } => {
                let (pairs, end) = self.suffix(next);
                Outcome::Pass {
                    next: end,
                    value: if self.right {
                        fold_right(self.eval, value, pairs)
                    } else {
                        fold_left(self.eval, value, pairs)
                    },
                }
            },
            Outcome::Fail { err, mesg } => Outcome::Fail { err, mesg },
        }
    }

    proof fn lemma_valid(&self, s: State) {
        self.term.lemma_valid(s);
        if let Outcome::Pass { next, .. } = self.term.spec_parse(s) {
            lemma_rep(Pair { first: &self.op, second: &self.term }, next, usize::MAX as nat);
        }
    }

    fn parse(&self, s: &State) -> (r: Status<P::Output>) {
        proof {
            self.lemma_valid(*s);
        }
        match self.term.parse(s) {
            Ok(pass) => {
                let rest = Pair { first: &self.op, second: &self.term };
                let (pairs, end) = crate::repetition::run_rep(&rest, &pass.new_state, usize::MAX);
                let value = if self.right {
                    fold_pairs_right(&self.eval, pass.value, pairs)
                } else {
                    fold_pairs_left(&self.eval, pass.value, pairs)
                };
                Ok(Succeeded { new_state: end, value })
            },
            Err(f) => Err(f),
        }
    }
}

/// Folds the pairs into `first` from the left.
fn fold_pairs_left<T: DeepView, U: DeepView, F: Eval<T, U>>(f: &F, first: T, pairs: Vec<(U, T)>) -> (r: T)
    requires
        f.wf(),
    ensures
        r.deep_view() == fold_left(*f, first.deep_view(), pairs.deep_view()),
{
    let ghost all = pairs.deep_view();
    let mut pairs = pairs;
    let mut rev: Vec<(U, T)> = Vec::new();
    while pairs.len() > 0
        invariant
            pairs.deep_view() + rev.deep_view().reverse() == all,
        decreases pairs@.len(),
    {
        let ghost before = pairs.deep_view();
        let ghost rev_before = rev.deep_view();
        let p = pairs.pop().unwrap();
        proof {
            assert(before =~= pairs.deep_view().push(p.deep_view()));
        }
        rev.push(p);
        proof {
            assert(rev.deep_view() =~= rev_before.push(p.deep_view()));
            assert(rev.deep_view().reverse() =~= seq![p.deep_view()] + rev_before.reverse());
            assert(pairs.deep_view() + rev.deep_view().reverse() =~= all);
        }
    }
    proof {
        assert(pairs.deep_view() =~= Seq::<(U::V, T::V)>::empty());
        assert(rev.deep_view().reverse() =~= all);
        assert(all.take(0) =~= Seq::<(U::V, T::V)>::empty());
    }
    let mut acc = first;
    while rev.len() > 0
        invariant
            f.wf(),
            rev@.len() <= all.len(),
            rev.deep_view().reverse() == all.skip(all.len() - rev@.len()),
            acc.deep_view() == fold_left(*f, first.deep_view(), all.take(all.len() - rev@.len())),
        decreases rev@.len(),
    {
        let ghost k = all.len() - rev@.len();
        let ghost before = rev.deep_view();
        let (op, term) = rev.pop().unwrap();
        proof {
            assert(before =~= rev.deep_view().push((op.deep_view(), term.deep_view())));
            assert(before.reverse()[0] == before.last());
            assert(all[k] == before.reverse()[0]);
            assert(all.take(k + 1).drop_last() =~= all.take(k));
            assert(all.take(k + 1).last() == all[k]);
            assert(rev.deep_view().reverse() =~= before.reverse().drop_first());
            assert(all.skip(k + 1) =~= all.skip(k).drop_first());
        }
        acc = f.eval(acc, op, term);
    }
    proof {
        assert(all.take(all.len() as int) =~= all);
    }
    acc
}

/// Folds the pairs into `first` from the right.
fn fold_pairs_right<T: DeepView, U: DeepView, F: Eval<T, U>>(f: &F, first: T, pairs: Vec<(U, T)>) -> (r: T)
    requires
        f.wf(),
    ensures
        r.deep_view() == fold_right(*f, first.deep_view(), pairs.deep_view()),
{
    let ghost all = pairs.deep_view();
    let mut pairs = pairs;
    if pairs.len() == 0 {
        return first;
    }
    let ghost before = pairs.deep_view();
    let (last_op, last_term) = pairs.pop().unwrap();
    proof {
        assert(before =~= pairs.deep_view().push((last_op.deep_view(), last_term.deep_view())));
        assert(before.drop_last() =~= pairs.deep_view());
    }
    let mut op = last_op;
    let mut acc = last_term;
    while pairs.len() > 0
        invariant
            f.wf(),
            fold_right(*f, first.deep_view(), all) == fold_right_into(
                *f,
                first.deep_view(),
                pairs.deep_view(),
                op.deep_view(),
                acc.deep_view(),
            ),
        decreases pairs@.len(),
    {
        let ghost before = pairs.deep_view();
        let (next_op, term) = pairs.pop().unwrap();
        proof {
            assert(before =~= pairs.deep_view().push((next_op.deep_view(), term.deep_view())));
            assert(before.drop_last() =~= pairs.deep_view());
        }
        acc = f.eval(term, op, acc);
        op = next_op;
    }
    f.eval(first, op, acc)
}

} // verus!
