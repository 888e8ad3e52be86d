//! The export log: a bounded ring, oldest first, in which a line can say it
//! matters.
//!
//! A warning you cannot scroll back to is a warning that was not given, so
//! the transcript keeps the newest `CAPACITY` lines, counts what it dropped,
//! and marks a warning by what its writer said rather than by its text.

use std::collections::VecDeque;
use vstd::prelude::*;
use vstd::std_specs::iter::IteratorSpec;
use crate::strings::{dec, owned, push_str};

verus! {

/// How many lines are kept.
pub const CAPACITY: usize = 2000;

/// One line of the transcript.
#[derive(Debug, Clone, PartialEq, Eq)]
pub struct Line {
    pub text: String,
    /// Set by whoever wrote the line, never sniffed out of its text.
    pub warning: bool,
}

/// A line as its text and whether it is a warning.
pub open spec fn line_view(l: Line) -> (Seq<char>, bool) {
    (l.text@, l.warning)
}

/// What a journal holds: the lines kept, oldest first, and how many were
/// dropped to the cap.
pub struct JournalView {
    pub lines: Seq<(Seq<char>, bool)>,
    pub dropped: nat,
}

/// One write: the line goes at the end; at the cap the oldest goes first and
/// is counted.
pub open spec fn written(j: JournalView, line: (Seq<char>, bool)) -> JournalView {
    if j.lines.len() == CAPACITY {
        JournalView { lines: j.lines.drop_first().push(line), dropped: j.dropped + 1 }
    } else {
        JournalView { lines: j.lines.push(line), dropped: j.dropped }
    }
}

/// The journal after writing `lines` in order into an empty one.
pub open spec fn replayed(lines: Seq<(Seq<char>, bool)>) -> JournalView
    decreases lines.len(),
{
    if lines.len() == 0 {
        JournalView { lines: Seq::empty(), dropped: 0 }
    } else {
        written(replayed(lines.drop_last()), lines.last())
    }
}

/// How many lines are warnings.
pub open spec fn warning_count(lines: Seq<(Seq<char>, bool)>) -> nat
    decreases lines.len(),
{
    if lines.len() == 0 {
        0
    } else {
        warning_count(lines.drop_last()) + if lines.last().1 { 1nat } else { 0nat }
    }
}

/// The lines as pasted: a warning marked `! `, each ended by CRLF.
pub open spec fn lines_text(lines: Seq<(Seq<char>, bool)>) -> Seq<char>
    decreases lines.len(),
{
    if lines.len() == 0 {
        Seq::empty()
    } else {
        let l = lines.last();
        lines_text(lines.drop_last()) + (if l.1 { "! "@ } else { Seq::empty() }) + l.0 + "\r\n"@
    }
}

/// The whole transcript as text, the dropped count stated first.
pub open spec fn transcript(j: JournalView) -> Seq<char> {
    (if j.dropped > 0 { "["@ + dec(j.dropped) + " earlier lines dropped]\r\n"@ } else { Seq::empty() })
        + lines_text(j.lines)
}

#[derive(Debug)]
pub struct Journal {
    lines: VecDeque<Line>,
    /// Lines dropped to the cap, so the panel can say what it no longer holds.
    dropped: usize,
}

impl View for Journal {
    type V = JournalView;

    closed spec fn view(&self) -> JournalView {
        JournalView { lines: self.lines@.map_values(|l: Line| line_view(l)), dropped: self.dropped as nat }
    }
}

impl Journal {
    #[verifier::type_invariant]
    spec fn inv(self) -> bool {
        self.lines@.len() <= CAPACITY
    }

    pub fn new() -> (j: Self)
        ensures
            j@ == replayed(Seq::empty()),
    {
        let j = Journal { lines: VecDeque::new(), dropped: 0 };
        assert(j.lines@.map_values(|l: Line| line_view(l)) =~= Seq::empty());
        j
    }

    /// Append an ordinary line.
    pub fn push(&mut self, text: &str)
        requires
            old(self)@.dropped < usize::MAX,
        ensures
            final(self)@ == written(old(self)@, (text@, false)),
    {
        self.write(owned(text), false);
    }

    /// Append a line painted as a warning.
    pub fn warn(&mut self, text: &str)
        requires
            old(self)@.dropped < usize::MAX,
        ensures
            final(self)@ == written(old(self)@, (text@, true)),
    {
        self.write(owned(text), true);
    }

    fn write(&mut self, text: String, warning: bool)
        requires
            old(self)@.dropped < usize::MAX,
        ensures
            final(self)@ == written(old(self)@, (text@, warning)),
    {
        proof { use_type_invariant(&*self); }
        let mut lines: VecDeque<Line> = VecDeque::new();
        std::mem::swap(&mut lines, &mut self.lines);
        let ghost start = lines@;
        if lines.len() == CAPACITY {
            let _ = lines.pop_front();
            self.dropped = self.dropped + 1;
        }
        let ghost before = lines@;
        lines.push_back(Line { text, warning });
        proof {
            let f = |l: Line| line_view(l);
            assert(lines@.map_values(f) =~= before.map_values(f).push((text@, warning)));
            if start.len() == CAPACITY {
                assert(before.map_values(f) =~= start.map_values(f).drop_first());
            } else {
                assert(before == start);
            }
        }
        self.lines = lines;
    }

    /// Oldest first, which is the order a transcript is read in.
    pub fn lines(&self) -> (it: std::collections::vec_deque::Iter<'_, Line>)
        ensures
            it.remaining().map_values(|r: &Line| line_view(*r)) == self@.lines,
    {
        let it = self.lines.iter();
        proof {
            broadcast use vstd::std_specs::vecdeque::axiom_spec_iter;
            assert(it.remaining().map_values(|r: &Line| line_view(*r)) =~= self.lines@.map_values(|l: Line| line_view(l)));
        }
        it
    }

    pub fn is_empty(&self) -> (b: bool)
        ensures
            b == (self@.lines.len() == 0),
    {
        self.lines.len() == 0
    }

    pub fn dropped(&self) -> (n: usize)
        ensures
            n == self@.dropped,
    {
        self.dropped
    }

    /// The whole transcript as one string, for the clipboard: a warning is
    /// marked `!`, the dropped count is stated at the top, lines end in CRLF.
    pub fn to_text(&self) -> (s: String)
        ensures
            s@ == transcript(self@),
    {
        let mut out = String::new();
        if self.dropped > 0 {
            push_str(&mut out, "[");
            let mut d: Vec<char> = Vec::new();
            crate::strings::push_dec(&mut d, self.dropped as u64);
            let ds = crate::strings::string_of(&d);
            push_str(&mut out, ds.as_str());
            push_str(&mut out, " earlier lines dropped]\r\n");
            assert(d@ == dec(self.dropped as nat)) by {
                assert(Seq::<char>::empty() + dec(self.dropped as nat) == dec(self.dropped as nat));
            }
        }
        let ghost head = out@;
        let n = self.lines.len();
        let mut i: usize = 0;
        while i < n
            invariant
                i <= n == self.lines@.len(),
                out@ == head + lines_text(self@.lines.take(i as int)),
                self@.lines.len() == n,
            decreases n - i,
        {
            let line = &self.lines[i];
            if line.warning {
                push_str(&mut out, "! ");
            }
            push_str(&mut out, line.text.as_str());
            push_str(&mut out, "\r\n");
            proof {
                let t = self@.lines.take(i + 1);
                assert(t.drop_last() == self@.lines.take(i as int));
                assert(t.last() == line_view(self.lines@[i as int]));
            }
            i += 1;
        }
        assert(self@.lines.take(n as int) == self@.lines);
        out
    }

    /// How many warnings are still held.
    pub fn warnings(&self) -> (n: usize)
        ensures
            n == warning_count(self@.lines),
    {
        proof { use_type_invariant(self); }
        let n = self.lines.len();
        let mut count: usize = 0;
        let mut i: usize = 0;
        while i < n
            invariant
                i <= n == self.lines@.len() <= CAPACITY,
                count == warning_count(self@.lines.take(i as int)),
                self@.lines.len() == n,
                count <= i,
            decreases n - i,
        {
            if self.lines[i].warning {
                count += 1;
            }
            proof {
                let t = self@.lines.take(i + 1);
                assert(t.drop_last() == self@.lines.take(i as int));
                assert(t.last() == line_view(self.lines@[i as int]));
            }
            i += 1;
        }
        assert(self@.lines.take(n as int) == self@.lines);
        count
    }
}

impl Default for Journal {
    fn default() -> (j: Self)
        ensures
            j@ == replayed(Seq::empty()),
    {
        Journal::new()
    }
}

/// A journal keeps the newest lines: after any run of writes it holds the
/// last `min(written, CAPACITY)` of them in the order written, and counts
/// every other one as dropped.
pub proof fn law_journal_keeps_the_newest(lines: Seq<(Seq<char>, bool)>)
    ensures
        replayed(lines).lines == lines.skip(replayed(lines).dropped as int),
        replayed(lines).dropped + replayed(lines).lines.len() == lines.len(),
        replayed(lines).lines.len() == if lines.len() < CAPACITY { lines.len() } else { CAPACITY as nat },
    decreases lines.len(),
{
    if lines.len() > 0 {
        let rest = lines.drop_last();
        law_journal_keeps_the_newest(rest);
        let j = replayed(rest);
        if j.lines.len() == CAPACITY {
            assert(j.lines.drop_first().push(lines.last()) =~= lines.skip((j.dropped + 1) as int));
        } else {
            assert(j.lines.push(lines.last()) =~= lines.skip(j.dropped as int));
        }
    } else {
        assert(lines.skip(0) =~= lines);
    }
}


/// The log header's warning count: `1 warning`, `2 warnings`.
pub fn warnings_label(n: usize) -> (s: String)
    ensures
        s@ == dec(n as nat) + (if n == 1 { " warning"@ } else { " warnings"@ }),
{
    let mut v: Vec<char> = Vec::new();
    crate::strings::push_dec(&mut v, n as u64);
    if n == 1 {
        crate::strings::push_all(&mut v, " warning");
    } else {
        crate::strings::push_all(&mut v, " warnings");
    }
    proof {
        assert(Seq::<char>::empty() + dec(n as nat) == dec(n as nat));
    }
    crate::strings::string_of(&v)
}

} // verus!
