use vstd::prelude::*;
use crate::source::{line_from, next_line, wf_corpus, word_views, LINE_LEN};

verus! {

/// How one display position of a line is styled.
#[derive(Clone, Copy, Debug, PartialEq, Eq, Structural)]
pub enum CellStyle {
    /// An expected character not yet typed.
    Untouched,
    /// A typed character that matches the expected one.
    Correct,
    /// A typed character that mismatches, or runs past the expected text.
    Error,
    /// A correctly typed space, highlighted so it stays visible.
    CorrectSpace,
}

/// One expected text together with the user's typed buffer for it.
#[derive(Clone, Debug)]
pub struct Line {
    /// The user's keystrokes so far; grows by append, shrinks by
    /// removing the last character only.
    pub buffer: Vec<char>,
    /// The target text; typing past its end is overrun input.
    pub expected: Vec<char>,
    /// Cursor offset; always the length of `buffer`.
    pub index: usize,
}

/// The count that the word-completion walk reaches from position `i`
/// onwards, given the flag that says whether the word in progress is
/// still free of errors. `virt` is the typed buffer with one trailing
/// space appended. The walk stops early, counting the word in progress
/// if it is still clean, as soon as it runs past the expected text.
pub open spec fn scan_count(expected: Seq<char>, virt: Seq<char>, i: int, word_correct: bool) -> nat
    decreases virt.len() - i,
{
    if i < 0 || i >= virt.len() {
        0
    } else if i >= expected.len() {
        if word_correct {
            1
        } else {
            0
        }
    } else {
        let boundary: nat = if expected[i] == ' ' && word_correct {
            1
        } else {
            0
        };
        let carried = expected[i] == ' ' || word_correct;
        let next = if virt[i] != expected[i] {
            false
        } else {
            carried
        };
        boundary + scan_count(expected, virt, i + 1, next)
    }
}

/// Number of whitespace-delimited words of `expected` that `buffer`
/// has typed with zero character errors, plus one trailing word when the
/// buffer runs past the expected text while that word is still clean.
pub open spec fn word_count_spec(expected: Seq<char>, buffer: Seq<char>) -> nat {
    scan_count(expected, buffer.push(' '), 0, true)
}

/// The word-correct flag of the walk after it has consumed `buffer`
/// itself (no trailing space): whether the word in progress at the end
/// of the buffer is still free of errors. The flag freezes once the
/// walk runs past the expected text.
pub open spec fn flag_after(expected: Seq<char>, buffer: Seq<char>, i: int, word_correct: bool) -> bool
    decreases buffer.len() - i,
{
    if i < 0 || i >= buffer.len() || i >= expected.len() {
        word_correct
    } else {
        let carried = expected[i] == ' ' || word_correct;
        let next = if buffer[i] != expected[i] {
            false
        } else {
            carried
        };
        flag_after(expected, buffer, i + 1, next)
    }
}

/// The character and style drawn at display position `i` of a line.
pub open spec fn cell_at(expected: Seq<char>, buffer: Seq<char>, i: int) -> (char, CellStyle) {
    if i >= buffer.len() {
        (expected[i], CellStyle::Untouched)
    } else if i >= expected.len() {
        (buffer[i], CellStyle::Error)
    } else if buffer[i] == expected[i] {
        (buffer[i], if buffer[i] == ' ' {
            CellStyle::CorrectSpace
        } else {
            CellStyle::Correct
        })
    } else {
        (buffer[i], CellStyle::Error)
    }
}

impl Line {
    /// The cursor offset mirrors the buffer length.
    pub open spec fn wf(&self) -> bool {
        self.index == self.buffer@.len()
    }

    /// A line with a freshly generated expected text and an empty buffer.
    pub fn new(corpus: &Vec<Vec<char>>) -> (l: Line)
        requires
            corpus@.len() > 0,
            wf_corpus(word_views(corpus@)),
        ensures
            l.wf(),
            l.buffer@.len() == 0,
            l.index == 0,
            line_from(l.expected@, word_views(corpus@), LINE_LEN as nat),
            l.expected@.len() > 0,
    {
        Line { buffer: Vec::new(), expected: next_line(corpus), index: 0 }
    }

    /// The sentinel line with no expected text; a placeholder that is
    /// immediately "done" and never meant to be typed against.
    pub fn empty() -> (l: Line)
        ensures
            l.wf(),
            l.buffer@.len() == 0,
            l.expected@.len() == 0,
            l.index == 0,
    {
        Line { buffer: Vec::new(), expected: Vec::new(), index: 0 }
    }

    /// A line with a chosen expected text and an empty buffer, for a
    /// deterministic word source.
    pub fn from_expected(expected: Vec<char>) -> (l: Line)
        ensures
            l.wf(),
            l.buffer@.len() == 0,
            l.expected@ == expected@,
            l.index == 0,
    {
        Line { buffer: Vec::new(), expected, index: 0 }
    }

    /// Appends one character to the buffer; nothing is validated, and
    /// characters beyond the expected text are accepted as overrun.
    pub fn add_char(&mut self, ch: char)
        requires
            old(self).wf(),
            old(self).index < usize::MAX,
        ensures
            final(self).wf(),
            final(self).buffer@ == old(self).buffer@.push(ch),
            final(self).expected@ == old(self).expected@,
            final(self).index == old(self).index + 1,
    {
        self.buffer.push(ch);
        self.index = self.index + 1;
    }

    /// Removes the last buffer character if there is one; a no-op on an
    /// empty buffer.
    pub fn backspace(&mut self)
        requires
            old(self).wf(),
        ensures
            final(self).wf(),
            final(self).expected@ == old(self).expected@,
            old(self).index > 0 ==> final(self).buffer@ == old(self).buffer@.drop_last()
                && final(self).index == old(self).index - 1,
            old(self).index == 0 ==> *final(self) == *old(self),
    {
        if self.index > 0 {
            self.buffer.pop();
            self.index = self.index - 1;
            proof {
                assert(old(self).buffer@.subrange(0, old(self).buffer@.len() - 1)
                    =~= old(self).buffer@.drop_last());
            }
        }
    }

    /// True once the buffer has reached the length of the expected text,
    /// correct or not; an empty expected text is done at once.
    pub fn done(&self) -> (r: bool)
        requires
            self.wf(),
        ensures
            r == (self.buffer@.len() >= self.expected@.len()),
            r == (self.index >= self.expected@.len()),
    {
        self.index >= self.expected.len()
    }

    /// The number of correctly completed words, per the walk of
    /// `word_count_spec` over the buffer with one trailing space.
    pub fn word_count(&self) -> (r: u32)
        requires
            self.wf(),
            self.buffer@.len() < u32::MAX,
        ensures
            r == word_count_spec(self.expected@, self.buffer@),
    {
        let ghost virt = self.buffer@.push(' ');
        let n: usize = self.buffer.len();
        let mut count: u32 = 0;
        let mut word_correct: bool = true;
        let mut i: usize = 0;
        proof {
            assert(virt.len() == n + 1);
        }
        while i < n + 1 && i < self.expected.len()
            invariant
                self.wf(),
                n == self.buffer@.len(),
                n < u32::MAX,
                virt == self.buffer@.push(' '),
                i <= n + 1,
                count <= i,
                word_count_spec(self.expected@, self.buffer@) == count + scan_count(
                    self.expected@,
                    virt,
                    i as int,
                    word_correct,
                ),
            decreases n + 1 - i,
        {
            let vch = if i < n {
                self.buffer[i]
            } else {
                ' '
            };
            proof {
                assert(virt[i as int] == vch);
            }
            if self.expected[i] == ' ' {
                if word_correct {
                    count = count + 1;
                }
                word_correct = true;
            }
            if vch != self.expected[i] {
                word_correct = false;
            }
            i = i + 1;
        }
        if i < n + 1 {
            if word_correct {
                count = count + 1;
            }
        }
        count
    }

    /// The styled characters of the whole display row: untouched tail of
    /// the expected text, correct and erroneous typed characters, and
    /// overrun characters past the expected text.
    pub fn draw_cells(&self) -> (cells: Vec<(char, CellStyle)>)
        requires
            self.wf(),
        ensures
            cells@.len() == if self.buffer@.len() >= self.expected@.len() {
                self.buffer@.len()
            } else {
                self.expected@.len()
            },
            forall|i: int|
                0 <= i < cells@.len() ==> cells@[i] == cell_at(self.expected@, self.buffer@, i),
    {
        let total: usize = if self.buffer.len() >= self.expected.len() {
            self.buffer.len()
        } else {
            self.expected.len()
        };
        let mut cells: Vec<(char, CellStyle)> = Vec::new();
        let mut i: usize = 0;
        while i < total
            invariant
                total == if self.buffer@.len() >= self.expected@.len() {
                    self.buffer@.len()
                } else {
                    self.expected@.len()
                },
                i <= total,
                cells@.len() == i,
                forall|j: int|
                    0 <= j < i ==> cells@[j] == cell_at(self.expected@, self.buffer@, j),
            decreases total - i,
        {
            let cell: (char, CellStyle) = if i >= self.buffer.len() {
                (self.expected[i], CellStyle::Untouched)
            } else if i >= self.expected.len() {
                (self.buffer[i], CellStyle::Error)
            } else if self.buffer[i] == self.expected[i] {
                (self.buffer[i], if self.buffer[i] == ' ' {
                    CellStyle::CorrectSpace
                } else {
                    CellStyle::Correct
                })
            } else {
                (self.buffer[i], CellStyle::Error)
            };
            cells.push(cell);
            i = i + 1;
        }
        cells
    }
}

/// Removing the last character and then appending that same character
/// restores the prior buffer exactly; `before`, `between` and `after`
/// are the line before the edit, after `backspace`, and after
/// `add_char` of the removed character, related by those functions'
/// contracts.
pub proof fn lemma_backspace_add_char_restores(before: Line, between: Line, after: Line)
    requires
        before.buffer@.len() > 0,
        between.expected@ == before.expected@,
        between.buffer@ == before.buffer@.drop_last(),
        after.expected@ == between.expected@,
        after.buffer@ == between.buffer@.push(before.buffer@.last()),
    ensures
        after.expected@ == before.expected@,
        after.buffer@ == before.buffer@,
{
    assert(before.buffer@.drop_last().push(before.buffer@.last()) =~= before.buffer@);
}

/// Appending any character, right or wrong, never decreases the
/// word-completion count.
pub proof fn lemma_word_count_monotonic(expected: Seq<char>, buffer: Seq<char>, c: char)
    ensures
        word_count_spec(expected, buffer.push(c)) >= word_count_spec(expected, buffer),
{
    lemma_scan_count_append_mono(expected, buffer, c, 0, true);
}

/// Once the word in progress holds a mismatch, appending further
/// characters leaves the count unchanged until the walk reaches the next
/// word boundary of the expected text.
pub proof fn lemma_word_count_frozen_after_mismatch(expected: Seq<char>, buffer: Seq<char>, c: char)
    requires
        !flag_after(expected, buffer, 0, true),
        buffer.len() < expected.len(),
        expected[buffer.len() as int] != ' ',
    ensures
        word_count_spec(expected, buffer.push(c)) == word_count_spec(expected, buffer),
{
    lemma_scan_count_append_frozen(expected, buffer, c, 0, true);
}

/// Characters appended once the buffer already runs past the expected
/// text never change the count.
pub proof fn lemma_word_count_stable_past_expected(expected: Seq<char>, buffer: Seq<char>, c: char)
    requires
        buffer.len() >= expected.len(),
    ensures
        word_count_spec(expected, buffer.push(c)) == word_count_spec(expected, buffer),
{
    lemma_scan_count_append_overrun(expected, buffer, c, 0, true);
}

proof fn lemma_scan_count_append_mono(
    expected: Seq<char>,
    buffer: Seq<char>,
    c: char,
    i: int,
    word_correct: bool,
)
    requires
        0 <= i <= buffer.len(),
    ensures
        scan_count(expected, buffer.push(c).push(' '), i, word_correct) >= scan_count(
            expected,
            buffer.push(' '),
            i,
            word_correct,
        ),
    decreases buffer.len() - i,
{
    let v1 = buffer.push(' ');
    let v2 = buffer.push(c).push(' ');
    if i == buffer.len() {
        if i >= expected.len() {
        } else {
            assert(scan_count(expected, v1, i + 1, false) == 0);
            assert(scan_count(expected, v1, i + 1, true) == 0);
        }
    } else {
        assert(v1[i] == buffer[i]);
        assert(v2[i] == buffer[i]);
        if i >= expected.len() {
        } else {
            let carried = expected[i] == ' ' || word_correct;
            let next = if buffer[i] != expected[i] {
                false
            } else {
                carried
            };
            lemma_scan_count_append_mono(expected, buffer, c, i + 1, next);
        }
    }
}

proof fn lemma_scan_count_append_frozen(
    expected: Seq<char>,
    buffer: Seq<char>,
    c: char,
    i: int,
    word_correct: bool,
)
    requires
        0 <= i <= buffer.len(),
        buffer.len() < expected.len(),
        expected[buffer.len() as int] != ' ',
        !flag_after(expected, buffer, i, word_correct),
    ensures
        scan_count(expected, buffer.push(c).push(' '), i, word_correct) == scan_count(
            expected,
            buffer.push(' '),
            i,
            word_correct,
        ),
    decreases buffer.len() - i,
{
    let v1 = buffer.push(' ');
    let v2 = buffer.push(c).push(' ');
    if i == buffer.len() {
        assert(!word_correct);
        assert(scan_count(expected, v1, i + 1, false) == 0);
        assert(scan_count(expected, v1, i, word_correct) == 0);
        if i + 1 >= expected.len() {
            assert(scan_count(expected, v2, i + 1, false) == 0);
        } else {
            assert(v2[i + 1] == ' ');
            assert(scan_count(expected, v2, i + 2, false) == 0);
            assert(scan_count(expected, v2, i + 2, true) == 0);
            assert(scan_count(expected, v2, i + 1, false) == 0);
        }
        assert(scan_count(expected, v2, i, word_correct) == 0);
    } else {
        assert(v1[i] == buffer[i]);
        assert(v2[i] == buffer[i]);
        let carried = expected[i] == ' ' || word_correct;
        let next = if buffer[i] != expected[i] {
            false
        } else {
            carried
        };
        lemma_scan_count_append_frozen(expected, buffer, c, i + 1, next);
    }
}

proof fn lemma_scan_count_append_overrun(
    expected: Seq<char>,
    buffer: Seq<char>,
    c: char,
    i: int,
    word_correct: bool,
)
    requires
        0 <= i <= buffer.len(),
        buffer.len() >= expected.len(),
    ensures
        scan_count(expected, buffer.push(c).push(' '), i, word_correct) == scan_count(
            expected,
            buffer.push(' '),
            i,
            word_correct,
        ),
    decreases buffer.len() - i,
{
    let v1 = buffer.push(' ');
    let v2 = buffer.push(c).push(' ');
    if i == buffer.len() {
    } else {
        assert(v1[i] == buffer[i]);
        assert(v2[i] == buffer[i]);
        if i >= expected.len() {
        } else {
            let carried = expected[i] == ' ' || word_correct;
            let next = if buffer[i] != expected[i] {
                false
            } else {
                carried
            };
            lemma_scan_count_append_overrun(expected, buffer, c, i + 1, next);
        }
    }
}

} // verus!
