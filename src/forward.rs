//! Parsers given as functions, which lets a grammar refer to a rule before
//! the rule is built: the function is looked up each time the parser runs.
use vstd::prelude::*;
use crate::parser::Parser;
use crate::state::{agrees, lemma_agrees_valid, valid_outcome, Outcome, State, Status};

verus! {

/// The outcome that a returned status stands for.
pub open spec fn outcome_of<T: DeepView>(r: Status<T>) -> Outcome<T::V> {
    match r {
        Ok(pass) => Outcome::Pass { next: pass.new_state, value: pass.value.deep_view() },
        Err(fail) => Outcome::Fail { err: fail.err_state, mesg: fail.mesg@ },
    }
}

/// A parser that calls a function on its input. The function must accept
/// every well-formed state, give one outcome per state, and keep the
/// guarantees of a parser.
pub struct FnParser<F> {
    pub f: F,
}

impl<T: DeepView, F: Fn(&State) -> Status<T>> Parser for FnParser<F> {
    type Output = T;

    open spec fn wf(&self) -> bool {
        &&& forall|s: State| s.wf() ==> self.f.requires((&s,))
        &&& forall|s: State, r: Status<T>|
            s.wf() && #[trigger] self.f.ensures((&s,), r) ==> agrees(s, r, self.spec_parse(s))
        &&& forall|s: State| s.wf() ==> valid_outcome(s, #[trigger] self.spec_parse(s))
    }

    open spec fn spec_parse(&self, s: State) -> Outcome<T::V> {
        let r = choose|r: Status<T>| self.f.ensures((&s,), r);
        outcome_of(r)
    }

    proof fn lemma_valid(&self, s: State) {
    }

    fn parse(&self, s: &State) -> (r: Status<T>) {
        let r = (self.f)(s);
        proof {
            lemma_agrees_valid(*s, r, self.spec_parse(*s));
        }
        r
    }
}

/// Returns a parser that runs `rule` each time it is used. A grammar names
/// a rule that is defined later, or the rule being defined, by passing the
/// function that builds and runs it.
pub fn forward_ref<T: DeepView, F: Fn(&State) -> Status<T>>(rule: F) -> (r: FnParser<F>)
    ensures
        r.f == rule,
{
    FnParser { f: rule }
}

} // verus!
