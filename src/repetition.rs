//! Repetition: bounded repeats, separated lists and operator chains.
use vstd::prelude::*;
use crate::combinators::{Pair, Then};
use crate::parser::{advances, Parser};
use crate::state::{same_source, Failed, Outcome, State, Status, Succeeded};

verus! {

/// The values of applying `p` greedily from `s`, at most `max` times, and the
/// state after the last success.
pub open spec fn rep<P: Parser>(p: P, s: State, max: nat) -> (Seq<<P::Output as DeepView>::V>, State)
    decreases max,
{
    if max == 0 {
        (Seq::empty(), s)
    } else {
        match p.spec_parse(s) {
            Outcome::Pass { next, value } => {
                let (vs, end) = rep(p, next, (max - 1) as nat);
                (seq![value] + vs, end)
            },
            Outcome::Fail { .. } => (Seq::empty(), s),
        }
    }
}

pub proof fn lemma_rep<P: Parser>(p: P, s: State, max: nat)
    requires
        p.wf(),
        s.wf(),
    ensures
        rep(p, s, max).1.wf(),
        same_source(s, rep(p, s, max).1),
        s.index <= rep(p, s, max).1.index,
        rep(p, s, max).0.len() <= max,
    decreases max,
{
    if max > 0 {
        p.lemma_valid(s);
        if let Outcome::Pass { next, .. } = p.spec_parse(s) {
            lemma_rep(p, next, (max - 1) as nat);
        }
    }
}

/// Runs `p` greedily from `s`, at most `max` times.
pub(crate) fn run_rep<P: Parser>(p: &P, s: &State, max: usize) -> (r: (Vec<P::Output>, State))
    requires
        p.wf(),
        advances(*p),
        s.wf(),
    ensures
        rep(*p, *s, max as nat) == (r.0.deep_view(), r.1),
{
    let mut cur = s.dup();
    let mut values: Vec<P::Output> = Vec::new();
    let mut count: usize = 0;
    proof {
        assert(values.deep_view() + rep(*p, cur, max as nat).0 =~= rep(*p, *s, max as nat).0);
    }
    while count < max
        invariant
            p.wf(),
            advances(*p),
            s.wf(),
            cur.wf(),
            same_source(*s, cur),
            s.index <= cur.index,
            count <= max,
            rep(*p, *s, max as nat).0 == values.deep_view() + rep(*p, cur, (max - count) as nat).0,
            rep(*p, *s, max as nat).1 == rep(*p, cur, (max - count) as nat).1,
        ensures
            rep(*p, *s, max as nat) == (values.deep_view(), cur),
        decreases s.text@.len() - cur.index,
    {
        let ghost before = cur;
        match p.parse(&cur) {
            Ok(pass) => {
                proof {
                    p.lemma_valid(before);
                    let rest = rep(*p, pass.new_state, (max - count - 1) as nat);
                    assert(rep(*p, before, (max - count) as nat).0 == seq![pass.value.deep_view()] + rest.0);
                    let old_values = values.deep_view();
                    assert(old_values + (seq![pass.value.deep_view()] + rest.0) =~= old_values.push(
                        pass.value.deep_view(),
                    ) + rest.0);
                }
                let ghost old_values = values.deep_view();
                values.push(pass.value);
                proof {
                    assert(values.deep_view() =~= old_values.push(values@.last().deep_view()));
                }
                cur = pass.new_state;
                count += 1;
            },
            Err(_) => {
                proof {
                    assert(values.deep_view() + rep(*p, cur, (max - count) as nat).0 =~= values.deep_view());
                }
                break;
            },
        }
    }
    proof {
        if count == max {
            assert(values.deep_view() + rep(*p, cur, 0).0 =~= values.deep_view());
        }
    }
    (values, cur)
}

/// Succeeds if the parser matches `min` to `max` times (inclusive): it is
/// applied until it fails or has matched `max` times. The parser must consume
/// input whenever it succeeds.
pub struct Repeat<P> {
    pub inner: P,
    pub min: usize,
    pub max: usize,
}

impl<P: Parser> Parser for Repeat<P> {
    type Output = Vec<P::Output>;

    open spec fn wf(&self) -> bool {
        self.inner.wf() && advances(self.inner)
    }

    open spec fn spec_parse(&self, s: State) -> Outcome<Seq<<P::Output as DeepView>::V>> {
        let (vs, end) = rep(self.inner, s, self.max as nat);
        if vs.len() >= self.min {
            Outcome::Pass { next: end, value: vs }
        } else {
            Outcome::Fail { err: end, mesg: Seq::empty() }
        }
    }

    proof fn lemma_valid(&self, s: State) {
        lemma_rep(self.inner, s, self.max as nat);
    }

    fn parse(&self, s: &State) -> (r: Status<Vec<P::Output>>) {
        proof {
            self.lemma_valid(*s);
        }
        let (values, end) = run_rep(&self.inner, s, self.max);
        if values.len() >= self.min {
            Ok(Succeeded { new_state: end, value: values })
        } else {
            Err(Failed { old_state: s.dup(), err_state: end, mesg: String::new() })
        }
    }
}

/// A parser that consumes, followed by any parser, consumes.
pub proof fn lemma_then_advances<P1: Parser, P2: Parser>(first: P1, second: P2)
    requires
        first.wf(),
        second.wf(),
        advances(first),
    ensures
        advances(Then { first, second }),
        advances(Pair { first, second }),
{
    assert forall|s: State| s.wf() && (Then { first, second }).spec_parse(s) is Pass implies s.index < (Then {
        first,
        second,
    }).spec_parse(s)->Pass_next.index by {
        first.lemma_valid(s);
        let next = first.spec_parse(s)->Pass_next;
        second.lemma_valid(next);
    }
    assert forall|s: State| s.wf() && (Pair { first, second }).spec_parse(s) is Pass implies s.index < (Pair {
        first,
        second,
    }).spec_parse(s)->Pass_next.index by {
        first.lemma_valid(s);
        let next = first.spec_parse(s)->Pass_next;
        second.lemma_valid(next);
    }
}

/// `item (sep item)*`: the values of the items. Each `(sep item)` round that
/// succeeds must consume input; a separator not followed by an item is not
/// consumed.
pub struct List<P, S> {
    pub item: P,
    pub sep: S,
}

impl<P: Parser, S: Parser> Parser for List<P, S> {
    type Output = Vec<P::Output>;

    open spec fn wf(&self) -> bool {
        self.item.wf() && self.sep.wf() && advances(Then { first: &self.sep, second: &self.item })
    }

    open spec fn spec_parse(&self, s: State) -> Outcome<Seq<<P::Output as DeepView>::V>> {
        match self.item.spec_parse(s) {
            Outcome::Pass { next, value } => {
                let (vs, end) = rep(Then { first: &self.sep, second: &self.item }, next, usize::MAX as nat);
                Outcome::Pass { next: end, value: seq![value] + vs }
            },
            Outcome::Fail { err, mesg } => Outcome::Fail { err, mesg },
        }
    }

    proof fn lemma_valid(&self, s: State) {
        self.item.lemma_valid(s);
        if let Outcome::Pass { next, .. } = self.item.spec_parse(s) {
            lemma_rep(Then { first: &self.sep, second: &self.item }, next, usize::MAX as nat);
        }
    }

    fn parse(&self, s: &State) -> (r: Status<Vec<P::Output>>) {
        proof {
            self.lemma_valid(*s);
        }
        match self.item.parse(s) {
            Ok(pass) => {
                let rest = Then { first: &self.sep, second: &self.item };
                let (tail, end) = run_rep(&rest, &pass.new_state, usize::MAX);
                let mut values: Vec<P::Output> = Vec::new();
                values.push(pass.value);
                let ghost head = values.deep_view();
                proof {
                    assert(head =~= seq![pass.value.deep_view()]);
                }
                let mut tail = tail;
                let ghost tail_view = tail.deep_view();
                values.append(&mut tail);
                proof {
                    assert(values.deep_view() =~= head + tail_view);
                }
                Ok(Succeeded { new_state: end, value: values })
            },
            Err(f) => Err(f),
        }
    }
}

} // verus!
