//! Which parsers always consume input when they succeed (what repetition
//! asks of the parser it repeats).
use vstd::prelude::*;
use crate::combinators::{Before, Label, Mapped, Or};
use crate::parser::{advances, Parser, Transform};
use crate::primitives::{lemma_matched, Lit, OneOf};
use crate::sequences::{Check, Checked};
use crate::state::State;

verus! {

pub proof fn lemma_lit_advances(p: Lit)
    requires
        p.pattern@.len() > 0,
    ensures
        advances(p),
{
    assert forall|s: State| s.wf() && p.spec_parse(s) is Pass implies s.index < p.spec_parse(s)->Pass_next.index by {
        lemma_matched(p.pattern@, p.fold, s.text@, s.index as int, 0);
    }
}

pub proof fn lemma_one_of_advances(p: OneOf)
    ensures
        advances(p),
{
    assert forall|s: State| s.wf() && p.spec_parse(s) is Pass implies s.index < p.spec_parse(s)->Pass_next.index by {
        crate::primitives::lemma_one_char(s);
    }
}

pub proof fn lemma_label_advances<P: Parser>(p: Label<P>)
    requires
        advances(p.inner),
    ensures
        advances(p),
{
    assert forall|s: State| s.wf() && p.spec_parse(s) is Pass implies s.index < p.spec_parse(s)->Pass_next.index by {
        assert(p.inner.spec_parse(s) is Pass);
    }
}

pub proof fn lemma_or_advances<P1: Parser, P2: Parser<Output = P1::Output>>(p: Or<P1, P2>)
    requires
        advances(p.first),
        advances(p.second),
    ensures
        advances(p),
{
    assert forall|s: State| s.wf() && p.spec_parse(s) is Pass implies s.index < p.spec_parse(s)->Pass_next.index by {
        if p.first.spec_parse(s) is Pass {
        } else {
            assert(p.second.spec_parse(s) is Pass);
        }
    }
}

pub proof fn lemma_mapped_advances<P: Parser, F: Transform<P::Output>>(p: Mapped<P, F>)
    requires
        advances(p.inner),
    ensures
        advances(p),
{
    assert forall|s: State| s.wf() && p.spec_parse(s) is Pass implies s.index < p.spec_parse(s)->Pass_next.index by {
        assert(p.inner.spec_parse(s) is Pass);
    }
}

pub proof fn lemma_checked_advances<P: Parser, F: Check<P::Output>>(p: Checked<P, F>)
    requires
        advances(p.inner),
    ensures
        advances(p),
{
    assert forall|s: State| s.wf() && p.spec_parse(s) is Pass implies s.index < p.spec_parse(s)->Pass_next.index by {
        assert(p.inner.spec_parse(s) is Pass);
    }
}

pub proof fn lemma_before_advances<P1: Parser, P2: Parser>(p: Before<P1, P2>)
    requires
        p.first.wf(),
        p.second.wf(),
        advances(p.first),
    ensures
        advances(p),
{
    assert forall|s: State| s.wf() && p.spec_parse(s) is Pass implies s.index < p.spec_parse(s)->Pass_next.index by {
        p.first.lemma_valid(s);
        p.second.lemma_valid(p.first.spec_parse(s)->Pass_next);
    }
}

} // verus!
