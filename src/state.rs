//! The cursor that parsers read from and the two-variant result they return.
use vstd::prelude::*;
use std::rc::Rc;
use crate::chars::EOT;

verus! {

/// Whether position `k` of `text` starts a new line: a `\r`, or a `\n` that
/// does not complete a `\r\n` pair.
pub open spec fn is_break(text: Seq<char>, k: int) -> bool {
    text[k] == '\r' || (text[k] == '\n' && (k == 0 || text[k - 1] != '\r'))
}

/// The number of line breaks among positions `from..to` of `text`.
pub open spec fn breaks(text: Seq<char>, from: int, to: int) -> nat
    decreases to - from,
{
    if to <= from {
        0
    } else {
        breaks(text, from, to - 1) + if is_break(text, to - 1) {
            1nat
        } else {
            0nat
        }
    }
}

pub proof fn lemma_breaks_bounded(text: Seq<char>, from: int, to: int)
    requires
        from <= to,
    ensures
        breaks(text, from, to) <= to - from,
    decreases to - from,
{
    if from < to {
        lemma_breaks_bounded(text, from, to - 1);
    }
}

/// Input position of a parse. The text is shared between all the states of one
/// parse and ends with [`EOT`]; `line` is 1-based.
pub struct State {
    pub file: Rc<String>,
    pub text: Rc<Vec<char>>,
    pub index: usize,
    pub line: usize,
}

/// A parse that matched: where the next parser starts, and the value produced.
pub struct Succeeded<T> {
    pub new_state: State,
    pub value: T,
}

/// A parse that did not match. `old_state` is the input state, so that another
/// alternative can start from it; `err_state` is how far the parse got.
pub struct Failed {
    pub old_state: State,
    pub err_state: State,
    pub mesg: String,
}

/// What every parser returns.
pub type Status<T> = Result<Succeeded<T>, Failed>;

impl State {
    /// The state's characters, sentinel included.
    pub open spec fn chars(&self) -> Seq<char> {
        self.text@
    }

    /// The character at the cursor.
    pub open spec fn cur(&self) -> char {
        self.text@[self.index as int]
    }

    /// The text ends with the sentinel, the cursor is on a character of it, and
    /// the line number counts at most one line per character before the cursor.
    pub open spec fn wf(&self) -> bool {
        &&& 0 < self.text@.len() <= usize::MAX
        &&& self.text@.last() == EOT
        &&& self.index < self.text@.len()
        &&& 1 <= self.line <= self.index + 1
    }

    /// The state after consuming the characters up to position `j`.
    pub open spec fn moved(&self, j: int) -> State {
        State {
            file: self.file,
            text: self.text,
            index: j as usize,
            line: (self.line + breaks(self.text@, self.index as int, j)) as usize,
        }
    }

    /// Builds the first state of a parse of `chars`, which must end with [`EOT`].
    pub fn new(file: Rc<String>, chars: Rc<Vec<char>>) -> (r: State)
        requires
            chars@.len() > 0,
            chars@.last() == EOT,
        ensures
            r.wf(),
            r.file == file,
            r.text == chars,
            r.index == 0,
            r.line == 1,
    {
        let _n = chars.len();
        State { file, text: chars, index: 0, line: 1 }
    }

    /// Whether the state is well formed (see `wf`).
    pub fn is_wf(&self) -> (r: bool)
        ensures
            r == self.wf(),
    {
        let n = self.text.len();
        n > 0 && self.text[n - 1] == EOT && self.index < n && 1 <= self.line && self.line <= self.index + 1
    }

    /// A second handle on the same state.
    pub fn dup(&self) -> (r: State)
        ensures
            r == *self,
    {
        State { file: Rc::clone(&self.file), text: Rc::clone(&self.text), index: self.index, line: self.line }
    }

    /// The character at the cursor.
    pub fn current(&self) -> (r: char)
        requires
            self.wf(),
        ensures
            r == self.cur(),
    {
        self.text[self.index]
    }

    /// The character at position `k`.
    pub fn char_at(&self, k: usize) -> (r: char)
        requires
            self.wf(),
            k < self.text@.len(),
        ensures
            r == self.text@[k as int],
    {
        self.text[k]
    }

    /// The state after consuming the characters up to position `j`, counting
    /// the line breaks passed over.
    pub fn advance(&self, j: usize) -> (r: State)
        requires
            self.wf(),
            self.index <= j < self.text@.len(),
        ensures
            r == self.moved(j as int),
            r.wf(),
    {
        let mut line = self.line;
        let mut k = self.index;
        while k < j
            invariant
                self.wf(),
                self.index <= k <= j < self.text@.len(),
                line == self.line + breaks(self.text@, self.index as int, k as int),
            decreases j - k,
        {
            proof {
                lemma_breaks_bounded(self.text@, self.index as int, k as int);
            }
            let ch = self.text[k];
            if ch == '\r' || (ch == '\n' && (k == 0 || self.text[k - 1] != '\r')) {
                line = line + 1;
            }
            k = k + 1;
        }
        proof {
            lemma_breaks_bounded(self.text@, self.index as int, j as int);
        }
        State { file: Rc::clone(&self.file), text: Rc::clone(&self.text), index: j, line }
    }
}

/// Consuming up to a position before the end keeps a state well formed.
pub proof fn lemma_moved_wf(s: State, j: int)
    requires
        s.wf(),
        s.index <= j < s.text@.len(),
    ensures
        s.moved(j).wf(),
        same_source(s, s.moved(j)),
        s.moved(j).index == j,
{
    lemma_breaks_bounded(s.text@, s.index as int, j);
}

/// Two states over the same input.
pub open spec fn same_source(a: State, b: State) -> bool {
    a.file == b.file && a.text == b.text
}

/// What a parse comes to, stated over views: a success with the state where
/// the next parser starts and the view of the value, or a failure with how far
/// it got and its message.
pub enum Outcome<V> {
    Pass { next: State, value: V },
    Fail { err: State, mesg: Seq<char> },
}

/// `r`, returned for input `s`, is the outcome `o`; a failure hands back `s`.
pub open spec fn agrees<T: DeepView>(s: State, r: Status<T>, o: Outcome<T::V>) -> bool {
    match r {
        Ok(pass) => o == Outcome::Pass { next: pass.new_state, value: pass.value.deep_view() },
        Err(fail) => {
            &&& fail.old_state == s
            &&& o == Outcome::<T::V>::Fail { err: fail.err_state, mesg: fail.mesg@ }
        },
    }
}

/// The guarantees every parser gives about its outcome for input `s`: a
/// success never moves backwards, and a failure reports a position at or after
/// the input, over the same text.
pub open spec fn valid_outcome<V>(s: State, o: Outcome<V>) -> bool {
    match o {
        Outcome::Pass { next, .. } => {
            &&& next.wf()
            &&& same_source(s, next)
            &&& s.index <= next.index
        },
        Outcome::Fail { err, .. } => {
            &&& err.wf()
            &&& same_source(s, err)
            &&& s.index <= err.index
        },
    }
}

/// The same guarantees, of a returned status.
pub open spec fn valid_status<T>(s: State, r: Status<T>) -> bool {
    match r {
        Ok(pass) => {
            &&& pass.new_state.wf()
            &&& same_source(s, pass.new_state)
            &&& s.index <= pass.new_state.index
        },
        Err(fail) => {
            &&& fail.old_state == s
            &&& fail.err_state.wf()
            &&& same_source(s, fail.err_state)
            &&& s.index <= fail.err_state.index
        },
    }
}

pub proof fn lemma_agrees_valid<T: DeepView>(s: State, r: Status<T>, o: Outcome<T::V>)
    requires
        agrees(s, r, o),
        valid_outcome(s, o),
    ensures
        valid_status(s, r),
{
}

} // verus!
