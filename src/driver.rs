//! Running a parser over a whole text and locating its error.
use vstd::prelude::*;
use std::rc::Rc;
use crate::chars::EOT;
use crate::parser::Parser;
use crate::state::{Outcome, State};
use crate::text::{chars_of, string_from};

verus! {

/// Returned by `parse` on error. Line and col are both 1-based.
pub struct ParseFailed {
    pub file: String,
    pub line: usize,
    pub col: usize,
    pub mesg: String,
}

/// Converts a string to its characters followed by [`EOT`].
pub fn chars_with_eot(s: &str) -> (r: Vec<char>)
    ensures
        r@ == s@.push(EOT),
{
    let mut r = chars_of(s);
    r.push(EOT);
    r
}

/// The position where the line holding position `i` starts: just after the
/// last `\n` or `\r` before `i`, or 0.
pub open spec fn line_start(text: Seq<char>, i: int) -> int
    decreases i,
{
    if i <= 0 {
        0
    } else if text[i - 1] == '\n' || text[i - 1] == '\r' {
        i
    } else {
        line_start(text, i - 1)
    }
}

pub proof fn lemma_line_start(text: Seq<char>, i: int)
    requires
        0 <= i,
    ensures
        0 <= line_start(text, i) <= i,
    decreases i,
{
    if i > 0 && !(text[i - 1] == '\n' || text[i - 1] == '\r') {
        lemma_line_start(text, i - 1);
    }
}

/// The 1-based column of position `index`.
pub fn get_col(text: &Vec<char>, index: usize) -> (r: usize)
    requires
        index <= text@.len(),
        index < usize::MAX,
    ensures
        r == index - line_start(text@, index as int) + 1,
{
    proof {
        lemma_line_start(text@, index as int);
    }
    let mut i = index;
    while i > 0 && text[i - 1] != '\n' && text[i - 1] != '\r'
        invariant
            i <= index <= text@.len(),
            index < usize::MAX,
            line_start(text@, i as int) == line_start(text@, index as int),
        decreases i,
    {
        i -= 1;
    }
    index - i + 1
}

/// `s` is the first state of a parse of `text` named `file`.
pub open spec fn is_start(s: State, file: Seq<char>, text: Seq<char>) -> bool {
    &&& s.wf()
    &&& s.file@ == file
    &&& s.text@ == text.push(EOT)
    &&& s.index == 0
    &&& s.line == 1
}

/// `r` reports the outcome `o` of a parse of `file`, whose characters with
/// the sentinel are `chars`.
pub open spec fn reports<T: DeepView>(
    r: Result<T, ParseFailed>,
    o: Outcome<T::V>,
    file: Seq<char>,
    chars: Seq<char>,
) -> bool {
    match r {
        Ok(v) => o is Pass && v.deep_view() == o->Pass_value,
        Err(e) => {
            &&& o is Fail
            &&& e.file@ == file
            &&& e.line == o->Fail_err.line
            &&& e.col == o->Fail_err.index - line_start(chars, o->Fail_err.index as int) + 1
            &&& e.mesg@ == o->Fail_mesg
        },
    }
}

/// Uses `parser` to parse `text`; `file` names it in errors and is not read.
/// Also see `everything`.
pub fn parse<P: Parser>(parser: &P, file: &str, text: &str) -> (r: Result<P::Output, ParseFailed>)
    requires
        parser.wf(),
        text@.len() + 1 < usize::MAX,
    ensures
        exists|s: State|
            is_start(s, file@, text@) && #[trigger] reports(r, parser.spec_parse(s), file@, text@.push(EOT)),
{
    let chars = chars_with_eot(text);
    let name = string_from(file);
    let start = State::new(Rc::new(name), Rc::new(chars));
    let result = parser.parse(&start);
    proof {
        assert(is_start(start, file@, text@));
    }
    match result {
        Ok(pass) => {
            let r = Ok(pass.value);
            proof {
                assert(reports(r, parser.spec_parse(start), file@, text@.push(EOT)));
            }
            r
        },
        Err(f) => {
            let col = get_col(&start.text, f.err_state.index);
            let file_name = (*start.file).clone();
            let r = Err(ParseFailed { file: file_name, line: f.err_state.line, col, mesg: f.mesg });
            proof {
                assert(reports(r, parser.spec_parse(start), file@, text@.push(EOT)));
            }
            r
        },
    }
}

} // verus!
