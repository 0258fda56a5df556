//! Errors of the mapping language: a position and what was expected there.

use vstd::prelude::*;

verus! {

/// Something that the grammar would have accepted where reading stopped.
#[derive(Clone, Copy, Debug, PartialEq, Eq, PartialOrd, Ord, Hash, Structural)]
pub enum Expected {
    MapKeyword,
    CmdKeyword,
    ModeKeyword,
    Newline,
    Whitespace,
    Tab,
    Comment,
    EndOfInput,
    ButtonStart,
    ButtonName,
    ButtonEnd,
    BlockStart,
    BlockEnd,
    Keystroke,
}

/// How an expected token reads in a message.
pub open spec fn description(x: Expected) -> Seq<char> {
    match x {
        Expected::MapKeyword => "map"@,
        Expected::CmdKeyword => "cmd"@,
        Expected::ModeKeyword => "mode"@,
        Expected::Newline => "lf newline"@,
        Expected::Whitespace => "whitespace"@,
        Expected::Tab => "tab"@,
        Expected::Comment => "'#'"@,
        Expected::EndOfInput => "end of input"@,
        Expected::ButtonStart => "'<'"@,
        Expected::ButtonName => "button name"@,
        Expected::ButtonEnd => "'>'"@,
        Expected::BlockStart => "'{'"@,
        Expected::BlockEnd => "'}'"@,
        Expected::Keystroke => "keystroke"@,
    }
}

impl Expected {
    /// How the expected token reads in a message.
    pub fn describe(&self) -> (r: &'static str)
        ensures
            r@ == description(*self),
    {
        match self {
            Expected::MapKeyword => "map",
            Expected::CmdKeyword => "cmd",
            Expected::ModeKeyword => "mode",
            Expected::Newline => "lf newline",
            Expected::Whitespace => "whitespace",
            Expected::Tab => "tab",
            Expected::Comment => "'#'",
            Expected::EndOfInput => "end of input",
            Expected::ButtonStart => "'<'",
            Expected::ButtonName => "button name",
            Expected::ButtonEnd => "'>'",
            Expected::BlockStart => "'{'",
            Expected::BlockEnd => "'}'",
            Expected::Keystroke => "keystroke",
        }
    }
}

/// Where reading stopped or failed furthest, and every token expected there.
pub struct Stop {
    pub pos: int,
    pub expected: Set<Expected>,
}

/// Nothing failed.
pub open spec fn no_stop() -> Stop {
    Stop { pos: 0, expected: Set::empty() }
}

/// `x` was expected at position `p`.
pub open spec fn stop(p: int, x: Expected) -> Stop {
    Stop { pos: p, expected: set![x] }
}

/// The further of two stops; at the same position, what each expected.
#[verifier::opaque]
pub open spec fn merge(a: Stop, b: Stop) -> Stop {
    if a.pos > b.pos {
        a
    } else if b.pos > a.pos {
        b
    } else {
        Stop { pos: a.pos, expected: a.expected + b.expected }
    }
}

/// Merging stops does not depend on how they are grouped.
pub proof fn lemma_merge_assoc(a: Stop, b: Stop, c: Stop)
    ensures
        merge(a, merge(b, c)) == merge(merge(a, b), c),
{
    reveal(merge);
    assert(a.expected + (b.expected + c.expected) =~= (a.expected + b.expected) + c.expected);
    assert(a.expected + b.expected =~= a.expected + b.expected);
}

/// Where nothing failed, merging changes nothing.
pub proof fn lemma_merge_no_stop(a: Stop)
    requires
        a.pos >= 0,
    ensures
        merge(a, no_stop()) == a,
        merge(no_stop(), a) == a,
{
    reveal(merge);
    assert(a.expected + Set::empty() =~= a.expected);
    assert(Set::empty() + a.expected =~= a.expected);
}

/// A text that the grammar does not accept. `line` and `column` count from 1;
/// `unexpected` is the character found there, `None` at the end of the input.
#[derive(Debug, PartialEq, Eq)]
pub struct ParseError {
    pub line: usize,
    pub column: usize,
    pub unexpected: Option<char>,
    pub expected: Vec<Expected>,
}

/// The number of line breaks before position `p`.
pub open spec fn newlines_before(s: Seq<char>, p: int) -> int
    decreases p,
{
    if p <= 0 || p > s.len() {
        0
    } else {
        newlines_before(s, p - 1) + if s[p - 1] == '\n' { 1int } else { 0int }
    }
}

/// Where the line that holds position `p` starts.
pub open spec fn line_start(s: Seq<char>, p: int) -> int
    decreases p,
{
    if p <= 0 || p > s.len() {
        0
    } else if s[p - 1] == '\n' {
        p
    } else {
        line_start(s, p - 1)
    }
}

/// The line of position `p`, counted from 1.
pub open spec fn line_of(s: Seq<char>, p: int) -> int {
    newlines_before(s, p) + 1
}

/// The column of position `p`, counted from 1.
pub open spec fn column_of(s: Seq<char>, p: int) -> int {
    p - line_start(s, p) + 1
}

/// The character at position `p`, or `None` at the end.
pub open spec fn char_at(s: Seq<char>, p: int) -> Option<char> {
    if 0 <= p < s.len() {
        Some(s[p])
    } else {
        None
    }
}

/// `e` reports stop `st` in `s`: its line and column, the character found
/// there, and every token expected there.
pub open spec fn reports(e: ParseError, s: Seq<char>, st: Stop) -> bool {
    &&& e.line == line_of(s, st.pos)
    &&& e.column == column_of(s, st.pos)
    &&& e.unexpected == char_at(s, st.pos)
    &&& forall|x: Expected| #[trigger] e.expected@.contains(x) <==> st.expected.contains(x)
}

/// Where reading stopped, and what was expected there, each token once.
pub struct Failure {
    pub pos: usize,
    pub expected: Vec<Expected>,
}

impl View for Failure {
    type V = Stop;

    open spec fn view(&self) -> Stop {
        Stop { pos: self.pos as int, expected: self.expected@.to_set() }
    }
}

impl Failure {
    pub(crate) fn new() -> (r: Failure)
        ensures
            r@ == no_stop(),
    {
        let r = Failure { pos: 0, expected: Vec::new() };
        assert(r.expected@.to_set() =~= Set::empty());
        r
    }

    /// Records that `what` was expected at position `p`. Only the furthest
    /// position is kept, with everything expected there.
    pub(crate) fn note(&mut self, p: usize, what: Expected)
        ensures
            final(self)@ == merge(old(self)@, stop(p as int, what)),
            final(self).pos == if p > old(self).pos { p } else { old(self).pos },
    {
        proof {
            reveal(merge);
        }
        if p > self.pos {
            self.pos = p;
            self.expected = Vec::new();
            self.expected.push(what);
            assert(self.expected@.to_set() =~= set![what]) by {
                assert(self.expected@[0] == what);
            }
        } else if p == self.pos {
            let ghost before = self.expected@;
            let mut k: usize = 0;
            let mut seen = false;
            while k < self.expected.len()
                invariant
                    k <= self.expected@.len(),
                    self.expected@ == before,
                    seen == exists|i: int| 0 <= i < k && before[i] == what,
                decreases self.expected@.len() - k,
            {
                if self.expected[k] == what {
                    seen = true;
                }
                k = k + 1;
            }
            if !seen {
                self.expected.push(what);
                assert forall|y: Expected| #[trigger] self.expected@.contains(y) == (before.contains(y) || y == what) by {
                    if before.contains(y) {
                        let i = choose|i: int| 0 <= i < before.len() && before[i] == y;
                        assert(self.expected@[i] == y);
                    }
                    if y == what {
                        assert(self.expected@[before.len() as int] == y);
                    }
                    if self.expected@.contains(y) && y != what {
                        let i = choose|i: int| 0 <= i < self.expected@.len() && self.expected@[i] == y;
                        assert(before[i] == y);
                    }
                }
            } else {
                assert(before.contains(what));
            }
            assert(self.expected@.to_set() =~= before.to_set() + set![what]);
        }
    }

    /// The error for this failure in `s`.
    pub(crate) fn into_error(self, s: &Vec<char>) -> (r: ParseError)
        requires
            self.pos <= s@.len(),
            s@.len() < usize::MAX,
        ensures
            reports(r, s@, self@),
    {
        let p = self.pos;
        let mut line: usize = 1;
        let mut start: usize = 0;
        let mut i: usize = 0;
        while i < p
            invariant
                i <= p,
                p <= s@.len(),
                s@.len() < usize::MAX,
                line == newlines_before(s@, i as int) + 1,
                start == line_start(s@, i as int),
                line <= i + 1,
                start <= i,
            decreases p - i,
        {
            if s[i] == '\n' {
                line = line + 1;
                start = i + 1;
            }
            i = i + 1;
        }
        let unexpected = if p < s.len() {
            Some(s[p])
        } else {
            None
        };
        ParseError { line, column: p - start + 1, unexpected, expected: self.expected }
    }
}

} // verus!
