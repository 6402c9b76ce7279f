//! Properties that hold of every parser, or that relate parsers to the
//! parsers they are built from.
use vstd::prelude::*;
use crate::c99::{Digit, Number};
use crate::chars::EOT;
use crate::combinators::{Before, Label, Or, Pair, Then};
use crate::forward::FnParser;
use crate::messages::or_mesg;
use crate::parser::Parser;
use crate::primitives::{matched, span, Eot, Lit, Match, Ret};
use crate::repetition::{lemma_rep, Repeat};
use crate::sequences::{Check, Checked};
use crate::state::{lemma_moved_wf, valid_outcome, Outcome, State, Status};

verus! {

/// `ret(v)` succeeds on every state with `v`, consuming nothing.
pub proof fn law_ret_consumes_nothing<T: DeepView + Clone>(v: T, s: State)
    ensures
        (Ret { value: v }).spec_parse(s) == (Outcome::Pass { next: s, value: v.deep_view() }),
{
}

/// Every parser, however it is built, succeeds at or after its input and
/// fails at or after its input, over the same text; `parse` also hands a
/// failure back with its input state (see `agrees`).
pub proof fn law_progress_never_decreases<P: Parser>(p: P, s: State)
    requires
        p.wf(),
        s.wf(),
    ensures
        valid_outcome(s, p.spec_parse(s)),
{
    p.lemma_valid(s);
}

/// When the first alternative succeeds, `or` gives its result, whatever the
/// second one is.
pub proof fn law_or_keeps_first_success<P1: Parser, P2: Parser<Output = P1::Output>>(p1: P1, p2: P2, s: State)
    requires
        p1.spec_parse(s) is Pass,
    ensures
        (Or { first: p1, second: p2 }).spec_parse(s) == p1.spec_parse(s),
{
}

/// When both alternatives fail, `or` reports the failure that got further;
/// when both got as far, the second's position with both messages.
pub proof fn law_or_reports_furthest<P1: Parser, P2: Parser<Output = P1::Output>>(p1: P1, p2: P2, s: State)
    requires
        p1.spec_parse(s) is Fail,
        p2.spec_parse(s) is Fail,
    ensures
        ({
            let err1 = p1.spec_parse(s)->Fail_err;
            let err2 = p2.spec_parse(s)->Fail_err;
            let r = (Or { first: p1, second: p2 }).spec_parse(s);
            &&& err1.index > err2.index ==> r == p1.spec_parse(s)
            &&& err1.index < err2.index ==> r == p2.spec_parse(s)
            &&& err1.index == err2.index ==> r == (Outcome::<<P1::Output as DeepView>::V>::Fail {
                err: err2,
                mesg: or_mesg(p1.spec_parse(s)->Fail_mesg, p2.spec_parse(s)->Fail_mesg),
            })
        }),
{
}

/// A literal matches a text that starts with it: the value is the literal
/// and the cursor stops right after it.
pub proof fn law_literal_prefix(p: Lit, s: State)
    requires
        s.wf(),
        !p.fold,
        s.index + p.pattern@.len() < s.text@.len(),
        s.text@.subrange(s.index as int, s.index + p.pattern@.len()) == p.pattern@,
        forall|k: int| s.index <= k < s.index + p.pattern@.len() ==> s.text@[k] != EOT,
    ensures
        p.spec_parse(s) == (Outcome::Pass {
            next: s.moved(s.index + p.pattern@.len()),
            value: p.pattern@,
        }),
{
    let n = p.pattern@.len() as int;
    lemma_literal_tail(p.pattern@, s, n);
    assert(s.text@.subrange(s.index as int, s.index + n) == p.pattern@);
}

proof fn lemma_literal_tail(pat: Seq<char>, s: State, k: int)
    requires
        s.wf(),
        0 <= k <= pat.len(),
        s.index + pat.len() < s.text@.len(),
        s.text@.subrange(s.index as int, s.index + pat.len()) == pat,
        forall|j: int| s.index <= j < s.index + pat.len() ==> s.text@[j] != EOT,
    ensures
        matched(pat, false, s.text@, s.index as int, pat.len() - k) == pat.len(),
    decreases k,
{
    let n = pat.len() as int;
    if k > 0 {
        lemma_literal_tail(pat, s, k - 1);
        assert(s.text@[s.index + (n - k)] == pat[n - k]);
    }
}

/// `p.everything(space)` succeeds only where the whole input has been
/// consumed: the state after it is on the end-of-text marker.
pub proof fn law_everything_consumes_all<W: Parser, P: Parser>(space: W, p: P, s: State)
    requires
        (Before { first: Then { first: space, second: p }, second: Eot }).spec_parse(s) is Pass,
    ensures
        ({
            let next = (Before { first: Then { first: space, second: p }, second: Eot }).spec_parse(s)->Pass_next;
            next.cur() == EOT
        }),
{
}

/// A repetition succeeds exactly when the parser matched at least `min`
/// times, and never collects more than `max` values.
pub proof fn law_repeat_count<P: Parser>(p: Repeat<P>, s: State)
    requires
        p.wf(),
        s.wf(),
    ensures
        p.spec_parse(s) is Pass ==> p.min <= p.spec_parse(s)->Pass_value.len() <= p.max,
        p.spec_parse(s) is Fail ==> crate::repetition::rep(p.inner, s, p.max as nat).0.len() < p.min,
{
    lemma_rep(p.inner, s, p.max as nat);
}

/// `seq3` stops at its first part that fails and reports that failure: its
/// position and message (`parse` also hands back the input, see `agrees`);
/// the parts after it and the combining function are not used.
pub proof fn law_seq3_first_failure<P0: Parser, P1: Parser, P2: Parser, F: Check<
    ((P0::Output, P1::Output), P2::Output),
>>(p: Checked<Pair<Pair<P0, P1>, P2>, F>, s: State)
    ensures
        ({
            let (p0, p1, p2) = (p.inner.first.first, p.inner.first.second, p.inner.second);
            let r = p.spec_parse(s);
            &&& p0.spec_parse(s) is Fail ==> r == (Outcome::<<F::Out as DeepView>::V>::Fail {
                err: p0.spec_parse(s)->Fail_err,
                mesg: p0.spec_parse(s)->Fail_mesg,
            })
            &&& p0.spec_parse(s) is Pass && p1.spec_parse(p0.spec_parse(s)->Pass_next) is Fail ==> r == (Outcome::<
                <F::Out as DeepView>::V,
            >::Fail {
                err: p1.spec_parse(p0.spec_parse(s)->Pass_next)->Fail_err,
                mesg: p1.spec_parse(p0.spec_parse(s)->Pass_next)->Fail_mesg,
            })
            &&& p0.spec_parse(s) is Pass && p1.spec_parse(p0.spec_parse(s)->Pass_next) is Pass && p2.spec_parse(
                p1.spec_parse(p0.spec_parse(s)->Pass_next)->Pass_next,
            ) is Fail ==> r == (Outcome::<<F::Out as DeepView>::V>::Fail {
                err: p2.spec_parse(p1.spec_parse(p0.spec_parse(s)->Pass_next)->Pass_next)->Fail_err,
                mesg: p2.spec_parse(p1.spec_parse(p0.spec_parse(s)->Pass_next)->Pass_next)->Fail_mesg,
            })
        }),
{
}

/// `(` repeated `extra + n` times, `5`, `)` repeated `n` times, then the
/// end marker: balanced when `extra` is 0.
pub open spec fn nested_five(extra: nat, n: nat) -> Seq<char> {
    Seq::new(
        2 * n + extra + 2,
        |i: int|
            if i < n + extra {
                '('
            } else if i == n + extra {
                '5'
            } else if i < 2 * n + extra + 1 {
                ')'
            } else {
                EOT
            },
    )
}

/// The grammar `rule := number | '(' rule ')'`, where `rule` refers to the
/// grammar being defined through a forward reference.
pub type NestedGrammar<F> = Or<Checked<Label<Match<Digit>>, Number>, Before<Then<Lit, FnParser<F>>, Lit>>;

/// The grammar's parts are the ones it is built from, and the forward
/// reference runs the grammar itself.
pub open spec fn nested_grammar<F: Fn(&State) -> Status<i64>>(g: NestedGrammar<F>) -> bool {
    &&& g.wf()
    &&& g.first.inner.inner == (Match { class: Digit, at_least_one: true })
    &&& g.first.f.base == 10
    &&& g.second.first.first.pattern@ == seq!['(']
    &&& !g.second.first.first.fold
    &&& g.second.second.pattern@ == seq![')']
    &&& !g.second.second.fold
    &&& forall|t: State| t.wf() ==> #[trigger] g.second.first.second.spec_parse(t) == g.spec_parse(t)
}

/// A grammar that refers to itself through a forward reference parses `5`
/// in `n` pairs of parentheses, for every depth `n`, to 5, consuming all of
/// it.
pub proof fn law_nested_parentheses<F: Fn(&State) -> Status<i64>>(g: NestedGrammar<F>, n: nat, s: State)
    requires
        nested_grammar(g),
        s.wf(),
        s.text@ == nested_five(0, n),
        s.index == 0,
    ensures
        g.spec_parse(s) is Pass,
        g.spec_parse(s)->Pass_value == 5,
        g.spec_parse(s)->Pass_next.index == 2 * n + 1,
{
    lemma_nested_from(g, 0, n, s);
}

/// With one `(` too many, the same grammar fails, at the end of the text,
/// where `)` is expected.
pub proof fn law_nested_parentheses_unbalanced<F: Fn(&State) -> Status<i64>>(
    g: NestedGrammar<F>,
    n: nat,
    s: State,
)
    requires
        nested_grammar(g),
        s.wf(),
        s.text@ == nested_five(1, n),
        s.index == 0,
    ensures
        g.spec_parse(s) is Fail,
        g.spec_parse(s)->Fail_err.index == 2 * n + 2,
        g.spec_parse(s)->Fail_mesg == seq!['\'', ')', '\''],
{
    let text = s.text@;
    g.lemma_valid(s);
    assert(text[0] == '(');
    assert(span(Digit, text, 0) == 0);
    let open = g.second.first.first;
    assert(matched(open.pattern@, false, text, 0, 1) == 1);
    assert(matched(open.pattern@, false, text, 0, 0) == 1);
    let t1 = s.moved(1);
    lemma_moved_wf(s, 1);
    lemma_nested_from(g, 1, n, t1);
    assert(g.second.first.second.spec_parse(t1) == g.spec_parse(t1));
    let t2 = g.spec_parse(t1)->Pass_next;
    g.lemma_valid(t1);
    assert(t2.index == 2 * n + 2);
    assert(text[2 * n + 2int] == EOT);
    let close = g.second.second;
    assert(matched(close.pattern@, false, t2.text@, 2 * n + 2int, 0) == 0);
    assert(close.mesg@ =~= seq!['\'', ')', '\'']);
}

proof fn lemma_nested_from<F: Fn(&State) -> Status<i64>>(g: NestedGrammar<F>, extra: nat, n: nat, t: State)
    requires
        nested_grammar(g),
        t.wf(),
        t.text@ == nested_five(extra, n),
        extra <= t.index <= n + extra,
    ensures
        g.spec_parse(t) is Pass,
        g.spec_parse(t)->Pass_value == 5,
        g.spec_parse(t)->Pass_next.index == 2 * (n + extra) + 1 - t.index,
    decreases n + extra - t.index,
{
    let text = t.text@;
    let k = t.index as int;
    g.lemma_valid(t);
    if k == n + extra {
        assert(text[k] == '5');
        assert(text[k + 1] == ')' || text[k + 1] == EOT);
        assert(span(Digit, text, k + 1) == k + 1);
        assert(span(Digit, text, k) == k + 1);
        let digits = text.subrange(k, k + 1);
        assert(digits.drop_last() =~= Seq::<char>::empty());
        assert(crate::numbers::digits_value(digits.drop_last(), 10) == 0);
        assert(digits.last() == '5');
        assert(crate::numbers::digit_value('5') == 5);
        assert(crate::numbers::digits_value(digits, 10) == 5);
    } else {
        assert(text[k] == '(');
        assert(span(Digit, text, k) == k);
        let open = g.second.first.first;
        assert(matched(open.pattern@, false, text, k, 1) == 1);
        assert(matched(open.pattern@, false, text, k, 0) == 1);
        let t1 = t.moved(k + 1);
        lemma_moved_wf(t, k + 1);
        lemma_nested_from(g, extra, n, t1);
        assert(g.second.first.second.spec_parse(t1) == g.spec_parse(t1));
        let t2 = g.spec_parse(t1)->Pass_next;
        g.lemma_valid(t1);
        let j = 2 * (n + extra) - k;
        assert(t2.index == j);
        assert(text[j] == ')');
        let close = g.second.second;
        assert(matched(close.pattern@, false, t2.text@, j, 1) == 1);
        assert(matched(close.pattern@, false, t2.text@, j, 0) == 1);
    }
}
} // verus!