//! Choice among any number of alternatives.
use vstd::prelude::*;
use crate::combinators::{merge, merge_failures};
use crate::parser::Parser;
use crate::state::{valid_outcome, Outcome, State, Status};

verus! {

/// The outcome of trying `alts[0..n]` in order on `s`: the first success, or
/// the failures merged from the left, the furthest one winning.
pub open spec fn alt_upto<P: Parser>(alts: Seq<P>, s: State, n: int) -> Outcome<<P::Output as DeepView>::V>
    decreases n,
{
    if n <= 1 {
        alts[0].spec_parse(s)
    } else {
        match alt_upto(alts, s, n - 1) {
            Outcome::Pass { next, value } => Outcome::Pass { next, value },
            Outcome::Fail { err: err1, mesg: mesg1 } => match alts[n - 1].spec_parse(s) {
                Outcome::Pass { next, value } => Outcome::Pass { next, value },
                Outcome::Fail { err: err2, mesg: mesg2 } => merge(err1, mesg1, err2, mesg2),
            },
        }
    }
}

pub proof fn lemma_alt_upto<P: Parser>(alts: Seq<P>, s: State, n: int)
    requires
        1 <= n <= alts.len(),
        forall|i: int| 0 <= i < alts.len() ==> #[trigger] alts[i].wf(),
        s.wf(),
    ensures
        valid_outcome(s, alt_upto(alts, s, n)),
    decreases n,
{
    alts[n - 1].lemma_valid(s);
    if n > 1 {
        lemma_alt_upto(alts, s, n - 1);
    }
}

/// `e0 | e1 | ...`: `or` for any number of alternatives, at least one.
pub struct OrV<P> {
    pub alts: Vec<P>,
}

impl<P: Parser> Parser for OrV<P> {
    type Output = P::Output;

    open spec fn wf(&self) -> bool {
        &&& self.alts@.len() > 0
        &&& forall|i: int| 0 <= i < self.alts@.len() ==> #[trigger] self.alts@[i].wf()
    }

    open spec fn spec_parse(&self, s: State) -> Outcome<<P::Output as DeepView>::V> {
        alt_upto(self.alts@, s, self.alts@.len() as int)
    }

    proof fn lemma_valid(&self, s: State) {
        lemma_alt_upto(self.alts@, s, self.alts@.len() as int);
    }

    fn parse(&self, s: &State) -> (r: Status<P::Output>) {
        proof {
            self.lemma_valid(*s);
        }
        let n = self.alts.len();
        let mut result = self.alts[0].parse(s);
        let mut i: usize = 1;
        while i < n
            invariant
                self.wf(),
                s.wf(),
                n == self.alts@.len(),
                1 <= i <= n,
                valid_outcome(*s, alt_upto(self.alts@, *s, n as int)),
                crate::state::agrees(*s, result, alt_upto(self.alts@, *s, i as int)),
            ensures
                crate::state::agrees(*s, result, alt_upto(self.alts@, *s, n as int)),
            decreases n - i,
        {
            match result {
                Ok(pass) => {
                    proof {
                        assert forall|k: int| i <= k <= n implies alt_upto(self.alts@, *s, k) == alt_upto(
                            self.alts@,
                            *s,
                            i as int,
                        ) by {
                            lemma_pass_stays(self.alts@, *s, i as int, k);
                        }
                    }
                    return Ok(pass);
                },
                Err(f1) => {
                    proof {
                        self.alts@[i as int].lemma_valid(*s);
                    }
                    result = match self.alts[i].parse(s) {
                        Ok(pass) => Ok(pass),
                        Err(f2) => Err(merge_failures(f1, f2)),
                    };
                },
            }
            i += 1;
        }
        result
    }
}

/// or_v := e0 | e1 | ...: `or` for any number of alternatives.
pub fn or_v<P: Parser>(alts: Vec<P>) -> (r: OrV<P>)
    requires
        alts@.len() > 0,
    ensures
        r.alts == alts,
{
    OrV { alts }
}

/// Once an alternative has succeeded, the later ones are not tried.
pub proof fn lemma_pass_stays<P: Parser>(alts: Seq<P>, s: State, i: int, k: int)
    requires
        1 <= i <= k,
        alt_upto(alts, s, i) is Pass,
    ensures
        alt_upto(alts, s, k) == alt_upto(alts, s, i),
    decreases k - i,
{
    if k > i {
        lemma_pass_stays(alts, s, i, k - 1);
    }
}

} // verus!
