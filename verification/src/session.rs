use vstd::prelude::*;
use crate::line::Line;
use crate::source::{line_from, wf_corpus, word_views, LINE_LEN};

verus! {

/// The word-count goal a session ends at when it is not aborted.
pub const DEFAULT_TARGET: u32 = 30;

/// One input event handed to the session by the input boundary.
#[derive(Clone, Copy, Debug, PartialEq, Eq, Structural)]
pub enum InputEvent {
    /// A printable character was typed.
    Character(char),
    /// The backspace key.
    Backspace,
    /// The escape key; aborts the session.
    Escape,
    /// The terminal was resized to the given width and height.
    Resize(u16, u16),
    /// Any other event; ignored.
    Other,
}

/// How the session decides that it is over.
#[derive(Clone, Copy, Debug, PartialEq, Eq, Structural)]
pub enum TestMode {
    /// Finish once this many words have been typed.
    WordCount(u32),
}

/// The typing session: the line being typed, the pre-generated next
/// line, the completed lines, and the progress counters.
#[derive(Debug)]
pub struct TypingTest {
    /// False once the session was aborted with escape.
    pub running: bool,
    /// Width and height last reported by the terminal.
    pub terminal_size: (u16, u16),
    /// Completed lines, in completion order; append-only.
    pub previous_lines: Vec<Line>,
    /// The line actively receiving keystrokes.
    pub line: Line,
    /// The pre-generated line that replaces `line` at the next rotation.
    pub next_line: Line,
    /// The termination condition, fixed at session start.
    pub test_mode: TestMode,
    /// One count per space keystroke, regardless of correctness.
    pub word_count: u32,
    /// The word corpus lines are generated from.
    pub corpus: Vec<Vec<char>>,
}

impl TypingTest {
    /// The word-count goal of this session.
    pub open spec fn target(&self) -> u32 {
        match self.test_mode {
            TestMode::WordCount(n) => n,
        }
    }

    /// Both line slots keep their cursor invariant, the next line is
    /// still untyped, and the corpus can generate further lines.
    pub open spec fn wf(&self) -> bool {
        &&& self.line.wf()
        &&& self.next_line.wf()
        &&& self.next_line.buffer@.len() == 0
        &&& forall|i: int|
            0 <= i < self.previous_lines@.len() ==> (#[trigger] self.previous_lines@[i]).wf()
        &&& self.corpus@.len() > 0
        &&& wf_corpus(word_views(self.corpus@))
    }

    /// The session is over: aborted, or the word-count goal is reached.
    pub open spec fn spec_finished(&self) -> bool {
        !self.running || self.word_count >= self.target()
    }

    /// A fresh running session with two pre-generated lines, no history
    /// and no words counted. `number` overrides the default goal.
    pub fn new(corpus: Vec<Vec<char>>, number: Option<u32>, terminal_size: (u16, u16)) -> (t:
        TypingTest)
        requires
            corpus@.len() > 0,
            wf_corpus(word_views(corpus@)),
        ensures
            t.wf(),
            t.running,
            t.word_count == 0,
            t.previous_lines@.len() == 0,
            t.line.buffer@.len() == 0,
            line_from(t.line.expected@, word_views(corpus@), LINE_LEN as nat),
            line_from(t.next_line.expected@, word_views(corpus@), LINE_LEN as nat),
            t.target() == match number {
                Some(n) => n,
                None => DEFAULT_TARGET,
            },
            t.terminal_size == terminal_size,
            t.corpus == corpus,
    {
        let line = Line::new(&corpus);
        let next_line = Line::new(&corpus);
        let goal: u32 = match number {
            Some(n) => n,
            None => DEFAULT_TARGET,
        };
        TypingTest {
            running: true,
            terminal_size,
            previous_lines: Vec::new(),
            line,
            next_line,
            test_mode: TestMode::WordCount(goal),
            word_count: 0,
            corpus,
        }
    }

    /// Rotates the lines: the pre-generated next line becomes current,
    /// the finished line is archived into the history, and a freshly
    /// generated line takes the next slot.
    pub fn get_next_line(&mut self)
        requires
            old(self).wf(),
        ensures
            final(self).wf(),
            final(self).previous_lines@ == old(self).previous_lines@.push(old(self).line),
            final(self).line == old(self).next_line,
            final(self).line.buffer@.len() == 0,
            final(self).next_line.buffer@.len() == 0,
            line_from(
                final(self).next_line.expected@,
                word_views(old(self).corpus@),
                LINE_LEN as nat,
            ),
            final(self).running == old(self).running,
            final(self).word_count == old(self).word_count,
            final(self).test_mode == old(self).test_mode,
            final(self).terminal_size == old(self).terminal_size,
            final(self).corpus == old(self).corpus,
    {
        std::mem::swap(&mut self.line, &mut self.next_line);
        let mut fresh = Line::new(&self.corpus);
        std::mem::swap(&mut self.next_line, &mut fresh);
        self.previous_lines.push(fresh);
    }

    /// One transition of the session's state machine while it is
    /// running. A space typed on a length-complete line rotates the
    /// lines and is consumed as the trigger; any other character is
    /// appended to the current line. Every space keystroke counts one
    /// word, rotation or not. The result says whether a redraw is due.
    pub fn handle_event(&mut self, ev: InputEvent) -> (redraw: bool)
        requires
            old(self).wf(),
            ev is Character ==> old(self).word_count < u32::MAX && old(self).line.index
                < usize::MAX,
        ensures
            final(self).wf(),
            final(self).test_mode == old(self).test_mode,
            final(self).corpus == old(self).corpus,
            match ev {
                InputEvent::Character(c) => {
                    &&& final(self).word_count == old(self).word_count + if c == ' ' {
                        1int
                    } else {
                        0int
                    }
                    &&& final(self).running == old(self).running
                    &&& final(self).terminal_size == old(self).terminal_size
                    &&& redraw
                    &&& if c == ' ' && old(self).line.buffer@.len()
                        >= old(self).line.expected@.len() {
                        &&& final(self).previous_lines@ == old(self).previous_lines@.push(
                            old(self).line,
                        )
                        &&& final(self).line == old(self).next_line
                        &&& final(self).line.buffer@.len() == 0
                        &&& final(self).next_line.buffer@.len() == 0
                        &&& line_from(
                            final(self).next_line.expected@,
                            word_views(old(self).corpus@),
                            LINE_LEN as nat,
                        )
                    } else {
                        &&& final(self).previous_lines@ == old(self).previous_lines@
                        &&& final(self).line.buffer@ == old(self).line.buffer@.push(c)
                        &&& final(self).line.expected@ == old(self).line.expected@
                        &&& final(self).next_line == old(self).next_line
                    }
                },
                InputEvent::Backspace => {
                    &&& final(self).word_count == old(self).word_count
                    &&& final(self).running == old(self).running
                    &&& final(self).terminal_size == old(self).terminal_size
                    &&& final(self).previous_lines@ == old(self).previous_lines@
                    &&& final(self).next_line == old(self).next_line
                    &&& final(self).line.expected@ == old(self).line.expected@
                    &&& old(self).line.index > 0 ==> final(self).line.buffer@ == old(
                        self,
                    ).line.buffer@.drop_last()
                    &&& old(self).line.index == 0 ==> final(self).line == old(self).line
                    &&& redraw
                },
                InputEvent::Escape => {
                    &&& !final(self).running
                    &&& final(self).word_count == old(self).word_count
                    &&& final(self).terminal_size == old(self).terminal_size
                    &&& final(self).previous_lines@ == old(self).previous_lines@
                    &&& final(self).line == old(self).line
                    &&& final(self).next_line == old(self).next_line
                    &&& !redraw
                },
                InputEvent::Resize(w, h) => {
                    &&& final(self).terminal_size == (w, h)
                    &&& final(self).word_count == old(self).word_count
                    &&& final(self).running == old(self).running
                    &&& final(self).previous_lines@ == old(self).previous_lines@
                    &&& final(self).line == old(self).line
                    &&& final(self).next_line == old(self).next_line
                    &&& redraw
                },
                InputEvent::Other => {
                    &&& *final(self) == *old(self)
                    &&& !redraw
                },
            },
    {
        match ev {
            InputEvent::Resize(w, h) => {
                self.terminal_size = (w, h);
                true
            },
            InputEvent::Escape => {
                self.running = false;
                false
            },
            InputEvent::Backspace => {
                self.line.backspace();
                true
            },
            InputEvent::Character(c) => {
                let rotate = c == ' ' && self.line.done();
                if rotate {
                    self.get_next_line();
                } else {
                    self.line.add_char(c);
                }
                if c == ' ' {
                    self.word_count = self.word_count + 1;
                }
                true
            },
            InputEvent::Other => false,
        }
    }

    /// True once the session is over: aborted with escape, or the
    /// word-count goal reached.
    pub fn finished(&self) -> (r: bool)
        ensures
            r == self.spec_finished(),
    {
        let target: u32 = match self.test_mode {
            TestMode::WordCount(n) => n,
        };
        !self.running || self.word_count >= target
    }
}

} // verus!
