//! An embeddable line-editing core for terminal applications: a bounded
//! command history with readline-style navigation, an input/cursor editing
//! state machine driven by discrete key events, and a pure windowing
//! function that extracts the trailing visible slice of a transcript.
//!
//! The core performs no terminal work itself: a surrounding loop feeds it
//! one key event at a time, a command executor runs submitted lines, and
//! a rendering adapter draws the visible text it computes.

pub mod history;

pub mod util;

use vstd::prelude::*;

use history::History;

verus! {

/// The uppercase expansion of a character, a function of the character
/// alone; one character may expand to several.
pub uninterp spec fn upper_of(c: char) -> Seq<char>;

/// Relies on `char::to_uppercase` of std: yields the uppercase mapping
/// of the character, one or more characters, depending on the character
/// alone.
#[verifier::external_body]
fn uppercase_chars(c: char) -> (r: Vec<char>)
    ensures
        r@ == upper_of(c),
        r@.len() >= 1,
{
    c.to_uppercase().collect()
}

/// A rectangular target area on the screen, described by its top-left
/// corner and its extent.
pub struct Rect {
    pub x: u16,
    pub y: u16,
    pub width: u16,
    pub height: u16,
}

/// A key on the keyboard, as far as the editing core distinguishes
/// them; every other key is `Other` and is ignored.
#[derive(Clone, Copy, Debug)]
pub enum KeyCode {
    Char(char),
    Up,
    Down,
    Left,
    Right,
    Home,
    End,
    Backspace,
    Delete,
    Enter,
    Other,
}

/// The modifier held during a key press, as far as the core
/// distinguishes them: exactly none, exactly Control, exactly Shift, or
/// any other combination.
#[derive(Clone, Copy, Debug)]
pub enum KeyModifiers {
    Plain,
    Control,
    Shift,
    Other,
}

/// One key press: a key plus the modifier held with it.
#[derive(Clone, Copy, Debug)]
pub struct KeyEvent {
    pub code: KeyCode,
    pub modifiers: KeyModifiers,
}

/// Whether the surrounding run loop should keep going or stop.
#[derive(Clone, Copy, Debug, PartialEq, Eq)]
pub enum ControlFlow {
    Continue,
    Break,
}

/// A failure reported by a command executor; it aborts the run loop and
/// is handed to the caller unchanged.
#[derive(Debug, PartialEq, Eq)]
pub struct ExecError {
    pub message: Vec<char>,
}

/// The command-handling collaborator: runs one submitted line (empty on
/// cancellation) with mutable access to the transcript.
pub trait CommandExecutor {
    fn execute(&mut self, command: Vec<char>, transcript: &mut Vec<char>) -> Result<
        (),
        ExecError,
    >;
}

impl CommandExecutor for () {
    fn execute(&mut self, _command: Vec<char>, _transcript: &mut Vec<char>) -> Result<
        (),
        ExecError,
    > {
        Ok(())
    }
}

/// The abstract state of an editing session: the uncommitted input
/// line, the edit cursor counted from the end of that line, the
/// transcript, and the history ring's entries, navigation cursor and
/// capacity.
#[verifier::ext_equal]
pub ghost struct ReplView {
    pub input: Seq<char>,
    pub cursor: u16,
    pub text: Seq<char>,
    pub entries: Seq<Seq<char>>,
    pub nav: Option<usize>,
    pub cap: nat,
}

/// The edit cursor clamped to the input line, exactly as the session
/// stores it: positions are 16-bit, so a line longer than `u16::MAX`
/// characters is clamped against its length reduced modulo `2^16`.
pub open spec fn clamped_cursor(pos: u16, len: nat) -> u16 {
    let m = (len % 0x10000) as u16;
    if pos <= m {
        pos
    } else {
        m
    }
}

/// Whether the key press asks to end the session.
pub open spec fn terminates(key: KeyEvent) -> bool {
    key.modifiers == KeyModifiers::Control && (key.code == KeyCode::Char('d') || key.code
        == KeyCode::Char('q') || key.code == KeyCode::Char('x'))
}

/// Whether the key press cancels the current line.
pub open spec fn cancels(key: KeyEvent) -> bool {
    key.modifiers == KeyModifiers::Control && key.code == KeyCode::Char('c')
}

/// Whether the key press submits the current line.
pub open spec fn submits(key: KeyEvent) -> bool {
    key.code == KeyCode::Enter && (key.modifiers == KeyModifiers::Plain || key.modifiers
        == KeyModifiers::Shift)
}

/// The session state after one key press that neither terminates,
/// cancels nor submits.  Unshifted characters are inserted at the
/// cursor counted from the end of the line; shifted characters are
/// inserted at the cursor counted from the start, each character of the
/// uppercase expansion at the same offset (so the expansion lands
/// reversed) — a deliberate quirk of the dispatch table.
pub open spec fn edit_step(m: ReplView, key: KeyEvent) -> ReplView {
    match key.code {
        KeyCode::Up => if key.modifiers == KeyModifiers::Plain {
            let nav = history::prev_cursor(m.nav, m.entries.len());
            let input = match history::current_entry(m.entries, nav) {
                Some(e) => e,
                None => Seq::<char>::empty(),
            };
            ReplView {
                input,
                cursor: clamped_cursor(m.cursor, input.len()),
                nav,
                ..m
            }
        } else {
            m
        },
        KeyCode::Down => if key.modifiers == KeyModifiers::Plain {
            let nav = history::next_cursor(m.nav);
            let input = match history::next_entry(m.entries, m.nav) {
                Some(e) => e,
                None => Seq::<char>::empty(),
            };
            ReplView {
                input,
                cursor: clamped_cursor(m.cursor, input.len()),
                nav,
                ..m
            }
        } else {
            m
        },
        KeyCode::Right => if key.modifiers == KeyModifiers::Plain {
            ReplView { cursor: clamped_cursor(m.cursor.saturating_sub(1), m.input.len()), ..m }
        } else {
            m
        },
        KeyCode::Left => if key.modifiers == KeyModifiers::Plain {
            ReplView { cursor: clamped_cursor(m.cursor.saturating_add(1), m.input.len()), ..m }
        } else {
            m
        },
        KeyCode::Home => ReplView { cursor: (m.input.len() % 0x10000) as u16, ..m },
        KeyCode::End => ReplView { cursor: 0u16, ..m },
        KeyCode::Char(c) => if key.modifiers == KeyModifiers::Plain {
            let cur = clamped_cursor(m.cursor, m.input.len());
            ReplView {
                input: m.input.insert(m.input.len() - cur, c),
                cursor: cur,
                ..m
            }
        } else if key.modifiers == KeyModifiers::Shift {
            let cur = clamped_cursor(m.cursor, m.input.len());
            ReplView {
                input: m.input.subrange(0, cur as int) + upper_of(c).reverse() + m.input.subrange(
                    cur as int,
                    m.input.len() as int,
                ),
                cursor: cur,
                ..m
            }
        } else {
            m
        },
        KeyCode::Backspace => if key.modifiers == KeyModifiers::Plain || key.modifiers
            == KeyModifiers::Shift {
            let cur = clamped_cursor(m.cursor, m.input.len());
            if m.input.len() - cur != 0 {
                ReplView {
                    input: m.input.remove(m.input.len() - cur - 1),
                    cursor: cur,
                    ..m
                }
            } else {
                ReplView { cursor: cur, ..m }
            }
        } else {
            m
        },
        KeyCode::Delete => if key.modifiers == KeyModifiers::Plain {
            let cur = clamped_cursor(m.cursor, m.input.len());
            if cur != 0 {
                ReplView {
                    input: m.input.remove(m.input.len() - cur),
                    cursor: (cur - 1) as u16,
                    ..m
                }
            } else {
                ReplView { cursor: 0u16, ..m }
            }
        } else {
            m
        },
        _ => m,
    }
}

/// An interactive editing session: the uncommitted input line, its
/// cursor, the transcript of everything echoed so far, and the bounded
/// command history.
pub struct Repl {
    current_input: Vec<char>,
    cursor_pos: u16,
    history: History,
    text: Vec<char>,
}

impl View for Repl {
    type V = ReplView;

    closed spec fn view(&self) -> ReplView {
        ReplView {
            input: self.current_input@,
            cursor: self.cursor_pos,
            text: self.text@,
            entries: self.history.entries(),
            nav: self.history.cursor(),
            cap: self.history.cap(),
        }
    }
}

/// The default history capacity of a freshly created session.
pub const DEFAULT_HISTORY_CAPACITY: usize = 32;

impl Repl {
    /// Well-formedness: the session's history ring is well formed.
    pub closed spec fn wf(&self) -> bool {
        self.history.wf()
    }

    /// Create a session with an empty history of the default capacity.
    pub fn new() -> (r: Repl)
        ensures
            r.wf(),
            r@.input.len() == 0,
            r@.cursor == 0,
            r@.text.len() == 0,
            r@.entries.len() == 0,
            r@.nav is None,
            r@.cap == DEFAULT_HISTORY_CAPACITY,
    {
        Repl::new_with_history(History::new(DEFAULT_HISTORY_CAPACITY))
    }

    /// Create a session around an existing history ring.
    pub fn new_with_history(history: History) -> (r: Repl)
        requires
            history.wf(),
        ensures
            r.wf(),
            r@.input.len() == 0,
            r@.cursor == 0,
            r@.text.len() == 0,
            r@.entries == history.entries(),
            r@.nav == history.cursor(),
            r@.cap == history.cap(),
    {
        Repl { current_input: Vec::new(), cursor_pos: 0, history, text: Vec::new() }
    }

    /// The session's history ring.
    pub fn history(&self) -> (r: &History)
        ensures
            r.entries() == self@.entries,
            r.cursor() == self@.nav,
            r.cap() == self@.cap,
            self.wf() ==> r.wf(),
    {
        &self.history
    }

    /// Mutable access to the history ring.
    pub fn history_mut(&mut self) -> (r: &mut History)
        ensures
            (*r).entries() == old(self)@.entries,
            (*r).cursor() == old(self)@.nav,
            (*r).cap() == old(self)@.cap,
            old(self).wf() ==> (*r).wf(),
            final(self)@.entries == (*final(r)).entries(),
            final(self)@.nav == (*final(r)).cursor(),
            final(self)@.cap == (*final(r)).cap(),
            final(self)@.input == old(self)@.input,
            final(self)@.cursor == old(self)@.cursor,
            final(self)@.text == old(self)@.text,
            (*final(r)).wf() ==> final(self).wf(),
    {
        &mut self.history
    }

    /// The uncommitted input line.
    pub fn current_input(&self) -> (r: &Vec<char>)
        ensures
            r@ == self@.input,
    {
        &self.current_input
    }

    /// Mutable access to the uncommitted input line.
    pub fn current_input_mut(&mut self) -> (r: &mut Vec<char>)
        ensures
            (*r)@ == old(self)@.input,
            final(self)@.input == (*final(r))@,
            final(self)@.cursor == old(self)@.cursor,
            final(self)@.text == old(self)@.text,
            final(self)@.entries == old(self)@.entries,
            final(self)@.nav == old(self)@.nav,
            final(self)@.cap == old(self)@.cap,
            old(self).wf() ==> final(self).wf(),
    {
        &mut self.current_input
    }

    /// The transcript of everything echoed so far.
    pub fn text(&self) -> (r: &Vec<char>)
        ensures
            r@ == self@.text,
    {
        &self.text
    }

    /// Mutable access to the transcript.
    pub fn text_mut(&mut self) -> (r: &mut Vec<char>)
        ensures
            (*r)@ == old(self)@.text,
            final(self)@.text == (*final(r))@,
            final(self)@.input == old(self)@.input,
            final(self)@.cursor == old(self)@.cursor,
            final(self)@.entries == old(self)@.entries,
            final(self)@.nav == old(self)@.nav,
            final(self)@.cap == old(self)@.cap,
            old(self).wf() ==> final(self).wf(),
    {
        &mut self.text
    }

    /// Move the edit cursor, clamping it to the input line.
    pub fn set_cursor_pos(&mut self, pos: u16)
        requires
            old(self).wf(),
        ensures
            final(self).wf(),
            final(self)@.cursor == clamped_cursor(pos, old(self)@.input.len()),
            final(self)@.input == old(self)@.input,
            final(self)@.text == old(self)@.text,
            final(self)@.entries == old(self)@.entries,
            final(self)@.nav == old(self)@.nav,
            final(self)@.cap == old(self)@.cap,
    {
        let m: u16 = (self.current_input.len() % 0x10000) as u16;
        self.cursor_pos = if pos <= m {
            pos
        } else {
            m
        };
    }

    /// Commit the current line ahead of execution: reset the cursor,
    /// store the line in the history (blank lines are not stored), echo
    /// it into the transcript, and drain it out of the input, handing it
    /// back as the command to run.  This is everything `submit` does
    /// before the executor sees the transcript.
    pub fn commit_line(&mut self) -> (command: Vec<char>)
        requires
            old(self).wf(),
        ensures
            final(self).wf(),
            command@ == old(self)@.input,
            final(self)@.text == old(self)@.text + old(self)@.input,
            final(self)@.cursor == 0,
            final(self)@.input.len() == 0,
            final(self)@.entries == history::pushed_entries(
                old(self)@.entries,
                old(self)@.cap,
                old(self)@.input,
            ),
            final(self)@.nav == (if history::is_blank(old(self)@.input) {
                old(self)@.nav
            } else {
                Option::<usize>::None
            }),
            final(self)@.cap == old(self)@.cap,
    {
        self.set_cursor_pos(0);
        let copy = history::clone_chars(&self.current_input);
        self.history.push(copy);
        let mut i: usize = 0;
        while i < self.current_input.len()
            invariant
                i <= self.current_input@.len(),
                self.text@ == old(self)@.text + self.current_input@.subrange(0, i as int),
                self.current_input@ == old(self)@.input,
                self.wf(),
                self.history.entries() == history::pushed_entries(
                    old(self)@.entries,
                    old(self)@.cap,
                    old(self)@.input,
                ),
                self.history.cursor() == (if history::is_blank(old(self)@.input) {
                    old(self)@.nav
                } else {
                    Option::<usize>::None
                }),
                self.history.cap() == old(self)@.cap,
                self.cursor_pos == 0,
            decreases self.current_input@.len() - i,
        {
            let c = self.current_input[i];
            self.text.push(c);
            proof {
                assert(self.text@ =~= old(self)@.text + self.current_input@.subrange(0, i + 1));
            }
            i += 1;
        }
        let command = history::clone_chars(&self.current_input);
        self.current_input = Vec::new();
        proof {
            assert(old(self)@.input.subrange(0, old(self)@.input.len() as int) =~= old(
                self,
            )@.input);
        }
        command
    }

    /// Cancel the current line: move it into the transcript, append the
    /// literal `^C` marker, and reset the input and cursor.  The history
    /// ring is untouched.  This is everything the Ctrl+C key does before
    /// the executor sees the transcript.
    pub fn cancel_line(&mut self)
        requires
            old(self).wf(),
        ensures
            final(self).wf(),
            final(self)@.text == old(self)@.text + old(self)@.input + seq!['^', 'C'],
            final(self)@.cursor == 0,
            final(self)@.input.len() == 0,
            final(self)@.entries == old(self)@.entries,
            final(self)@.nav == old(self)@.nav,
            final(self)@.cap == old(self)@.cap,
    {
        let mut i: usize = 0;
        proof {
            assert(old(self)@.text + self.current_input@.subrange(0, 0) =~= self.text@);
        }
        while i < self.current_input.len()
            invariant
                i <= self.current_input@.len(),
                self.text@ == old(self)@.text + self.current_input@.subrange(0, i as int),
                self.current_input@ == old(self)@.input,
                self.history.entries() == old(self)@.entries,
                self.history.cursor() == old(self)@.nav,
                self.history.cap() == old(self)@.cap,
                self.wf(),
            decreases self.current_input@.len() - i,
        {
            let ch = self.current_input[i];
            self.text.push(ch);
            proof {
                assert(self.text@ =~= old(self)@.text + self.current_input@.subrange(0, i + 1));
            }
            i += 1;
        }
        self.text.push('^');
        self.text.push('C');
        self.current_input = Vec::new();
        self.cursor_pos = 0;
        proof {
            assert(old(self)@.input.subrange(0, old(self)@.input.len() as int) =~= old(
                self,
            )@.input);
            assert(self.text@ =~= old(self)@.text + old(self)@.input + seq!['^', 'C']);
        }
    }

    /// Submit the current line: commit it (cursor reset, history push,
    /// echo into the transcript, input drained) and hand it to the
    /// executor, whose failure is returned unchanged.  The executor may
    /// append to (or otherwise rewrite) the transcript at will, so
    /// nothing is promised of the transcript afterwards; what it was
    /// handed is exactly what `commit_line` states.
    pub fn submit<E: CommandExecutor>(&mut self, executor: &mut E) -> (r: Result<(), ExecError>)
        requires
            old(self).wf(),
        ensures
            final(self).wf(),
            final(self)@.cursor == 0,
            final(self)@.input.len() == 0,
            final(self)@.entries == history::pushed_entries(
                old(self)@.entries,
                old(self)@.cap,
                old(self)@.input,
            ),
            final(self)@.nav == (if history::is_blank(old(self)@.input) {
                old(self)@.nav
            } else {
                Option::<usize>::None
            }),
            final(self)@.cap == old(self)@.cap,
    {
        let command = self.commit_line();
        executor.execute(command, &mut self.text)
    }

    /// Feed one key press into the session.  A terminating combination
    /// asks the caller to stop; Ctrl+C cancels the line into the
    /// transcript with a `^C` marker and runs the executor on an empty
    /// command; Enter submits; every other key edits the session state
    /// exactly as `edit_step` describes.  Nothing is promised of the
    /// transcript on the paths that run the executor, which may rewrite
    /// it at will.
    pub fn feed_key_event<E: CommandExecutor>(&mut self, executor: &mut E, key: KeyEvent) -> (r:
        Result<ControlFlow, ExecError>)
        requires
            old(self).wf(),
        ensures
            final(self).wf(),
            terminates(key) ==> ({
                &&& r == Ok::<ControlFlow, ExecError>(ControlFlow::Break)
                &&& final(self)@ == old(self)@
            }),
            cancels(key) ==> ({
                &&& final(self)@.input.len() == 0
                &&& final(self)@.cursor == 0
                &&& final(self)@.entries == old(self)@.entries
                &&& final(self)@.nav == old(self)@.nav
                &&& final(self)@.cap == old(self)@.cap
                &&& (r matches Ok(f) ==> f == ControlFlow::Continue)
            }),
            submits(key) ==> ({
                &&& final(self)@.input.len() == 0
                &&& final(self)@.cursor == 0
                &&& final(self)@.entries == history::pushed_entries(
                    old(self)@.entries,
                    old(self)@.cap,
                    old(self)@.input,
                )
                &&& final(self)@.nav == (if history::is_blank(old(self)@.input) {
                    old(self)@.nav
                } else {
                    Option::<usize>::None
                })
                &&& final(self)@.cap == old(self)@.cap
                &&& (r matches Ok(f) ==> f == ControlFlow::Continue)
            }),
            (!terminates(key) && !cancels(key) && !submits(key)) ==> ({
                &&& final(self)@ == edit_step(old(self)@, key)
                &&& r == Ok::<ControlFlow, ExecError>(ControlFlow::Continue)
            }),
    {
        match key.code {
            KeyCode::Char(c) => {
                match key.modifiers {
                    KeyModifiers::Control => {
                        if c == 'd' || c == 'q' || c == 'x' {
                            return Ok(ControlFlow::Break);
                        }
                        if c == 'c' {
                            self.cancel_line();
                            let res = executor.execute(Vec::new(), &mut self.text);
                            return match res {
                                Ok(_) => Ok(ControlFlow::Continue),
                                Err(e) => Err(e),
                            };
                        }
                        Ok(ControlFlow::Continue)
                    },
                    KeyModifiers::Plain => {
                        let cp = self.cursor_pos;
                        self.set_cursor_pos(cp);
                        proof {
                            lemma_mod_le(self.current_input@.len());
                        }
                        let idx = self.current_input.len() - self.cursor_pos as usize;
                        self.current_input.insert(idx, c);
                        proof {
                            assert(self@ =~= edit_step(old(self)@, key));
                        }
                        Ok(ControlFlow::Continue)
                    },
                    KeyModifiers::Shift => {
                        let cp = self.cursor_pos;
                        self.set_cursor_pos(cp);
                        proof {
                            lemma_mod_le(self.current_input@.len());
                        }
                        let cur = self.cursor_pos as usize;
                        let ghost pre = self.current_input@;
                        let ups = uppercase_chars(c);
                        let mut k: usize = 0;
                        while k < ups.len()
                            invariant
                                k <= ups@.len(),
                                ups@ == upper_of(c),
                                cur <= pre.len(),
                                self.current_input@ == pre.subrange(0, cur as int) + ups@.subrange(
                                    0,
                                    k as int,
                                ).reverse() + pre.subrange(cur as int, pre.len() as int),
                                self.cursor_pos == cur,
                                self.text@ == old(self)@.text,
                                self.history.entries() == old(self)@.entries,
                                self.history.cursor() == old(self)@.nav,
                                self.history.cap() == old(self)@.cap,
                                self.wf(),
                            decreases ups@.len() - k,
                        {
                            self.current_input.insert(cur, ups[k]);
                            proof {
                                assert(self.current_input@ =~= pre.subrange(0, cur as int)
                                    + ups@.subrange(0, k + 1).reverse() + pre.subrange(
                                    cur as int,
                                    pre.len() as int,
                                ));
                            }
                            k += 1;
                        }
                        proof {
                            assert(ups@.subrange(0, ups@.len() as int) =~= ups@);
                            assert(self@ =~= edit_step(old(self)@, key));
                        }
                        Ok(ControlFlow::Continue)
                    },
                    KeyModifiers::Other => Ok(ControlFlow::Continue),
                }
            },
            KeyCode::Up => {
                match key.modifiers {
                    KeyModifiers::Plain => {
                        let got = self.history.prev();
                        self.current_input = match got {
                            Some(v) => v,
                            None => Vec::new(),
                        };
                        let cp = self.cursor_pos;
                        self.set_cursor_pos(cp);
                        proof {
                            assert(self@ =~= edit_step(old(self)@, key));
                        }
                        Ok(ControlFlow::Continue)
                    },
                    _ => Ok(ControlFlow::Continue),
                }
            },
            KeyCode::Down => {
                match key.modifiers {
                    KeyModifiers::Plain => {
                        let got = self.history.next();
                        self.current_input = match got {
                            Some(v) => v,
                            None => Vec::new(),
                        };
                        let cp = self.cursor_pos;
                        self.set_cursor_pos(cp);
                        proof {
                            assert(self@ =~= edit_step(old(self)@, key));
                        }
                        Ok(ControlFlow::Continue)
                    },
                    _ => Ok(ControlFlow::Continue),
                }
            },
            KeyCode::Right => {
                match key.modifiers {
                    KeyModifiers::Plain => {
                        let p = self.cursor_pos.saturating_sub(1);
                        self.set_cursor_pos(p);
                        proof {
                            assert(self@ =~= edit_step(old(self)@, key));
                        }
                        Ok(ControlFlow::Continue)
                    },
                    _ => Ok(ControlFlow::Continue),
                }
            },
            KeyCode::Left => {
                match key.modifiers {
                    KeyModifiers::Plain => {
                        let p = self.cursor_pos.saturating_add(1);
                        self.set_cursor_pos(p);
                        proof {
                            assert(self@ =~= edit_step(old(self)@, key));
                        }
                        Ok(ControlFlow::Continue)
                    },
                    _ => Ok(ControlFlow::Continue),
                }
            },
            KeyCode::Home => {
                let m16: u16 = (self.current_input.len() % 0x10000) as u16;
                self.set_cursor_pos(m16);
                proof {
                    assert(self@ =~= edit_step(old(self)@, key));
                }
                Ok(ControlFlow::Continue)
            },
            KeyCode::End => {
                self.set_cursor_pos(0);
                proof {
                    assert(self@ =~= edit_step(old(self)@, key));
                }
                Ok(ControlFlow::Continue)
            },
            KeyCode::Backspace => {
                match key.modifiers {
                    KeyModifiers::Plain | KeyModifiers::Shift => {
                        let cp = self.cursor_pos;
                        self.set_cursor_pos(cp);
                        proof {
                            lemma_mod_le(self.current_input@.len());
                        }
                        let rm_idx = self.current_input.len() - self.cursor_pos as usize;
                        if rm_idx != 0 {
                            self.current_input.remove(rm_idx - 1);
                        }
                        proof {
                            assert(self@ =~= edit_step(old(self)@, key));
                        }
                        Ok(ControlFlow::Continue)
                    },
                    _ => Ok(ControlFlow::Continue),
                }
            },
            KeyCode::Delete => {
                match key.modifiers {
                    KeyModifiers::Plain => {
                        let cp = self.cursor_pos;
                        self.set_cursor_pos(cp);
                        proof {
                            lemma_mod_le(self.current_input@.len());
                        }
                        if self.cursor_pos != 0 {
                            let idx = self.current_input.len() - self.cursor_pos as usize;
                            self.current_input.remove(idx);
                            self.cursor_pos = self.cursor_pos.saturating_sub(1);
                        }
                        proof {
                            assert(self@ =~= edit_step(old(self)@, key));
                        }
                        Ok(ControlFlow::Continue)
                    },
                    _ => Ok(ControlFlow::Continue),
                }
            },
            KeyCode::Enter => {
                match key.modifiers {
                    KeyModifiers::Plain | KeyModifiers::Shift => {
                        let res = self.submit(executor);
                        match res {
                            Ok(_) => Ok(ControlFlow::Continue),
                            Err(e) => Err(e),
                        }
                    },
                    _ => Ok(ControlFlow::Continue),
                }
            },
            KeyCode::Other => Ok(ControlFlow::Continue),
        }
    }

    /// The on-screen (column, row) of the edit cursor within the given
    /// viewport, continuing the transcript's last line unless the
    /// transcript ends with a line break.
    pub fn cursor_pos_in(&self, rect: Rect) -> (r: (u16, u16))
        requires
            self@.text.len() + self@.input.len() <= usize::MAX,
        ensures
            r == cursor_coordinates(self@, rect),
    {
        let max_height = rect.height;
        let tlen = self.text.len();
        if tlen > 0 && self.text[tlen - 1] == '\n' {
            let base = self.current_input.len();
            let cp = self.cursor_pos as usize;
            let col_us = if base >= cp {
                base - cp
            } else {
                0
            };
            let col = (col_us % 0x10000) as u16;
            let lc = util::count_break_chars(&self.text);
            let row16 = (lc % 0x10000) as u16;
            let row = if row16 <= max_height {
                row16
            } else {
                max_height
            };
            (col, row)
        } else {
            let lll = util::last_line_length(&self.text);
            proof {
                util::lemma_last_line_len_le(self@.text);
            }
            let base = lll + self.current_input.len();
            let cp = self.cursor_pos as usize;
            let col_us = if base >= cp {
                base - cp
            } else {
                0
            };
            let col = (col_us % 0x10000) as u16;
            let cb = util::count_break_chars(&self.text);
            proof {
                if self@.text.len() > 0 {
                    util::lemma_count_breaks_le_len(self@.text.drop_last());
                }
            }
            let lc: usize = if tlen == 0 {
                0
            } else {
                cb + 1
            };
            let rowsat: usize = if lc >= 1 {
                lc - 1
            } else {
                0
            };
            let row16 = (rowsat % 0x10000) as u16;
            let row = if row16 <= max_height {
                row16
            } else {
                max_height
            };
            (col, row)
        }
    }

    /// The text a viewport of the given area should display: the
    /// transcript with the uncommitted input appended, clipped to the
    /// trailing lines that fit the viewport's height.
    pub fn visible_text_in(&self, rect: Rect) -> (r: Vec<char>)
        ensures
            r@ == util::visible_text(self@.text + self@.input, rect.height as nat),
    {
        let mut full = history::clone_chars(&self.text);
        let mut i: usize = 0;
        while i < self.current_input.len()
            invariant
                i <= self.current_input@.len(),
                full@ == self@.text + self.current_input@.subrange(0, i as int),
                self.current_input@ == self@.input,
            decreases self.current_input@.len() - i,
        {
            let ch = self.current_input[i];
            full.push(ch);
            proof {
                assert(full@ =~= self@.text + self.current_input@.subrange(0, i + 1));
            }
            i += 1;
        }
        proof {
            assert(full@ =~= self@.text + self@.input);
        }
        util::get_visible_text(&full, rect.height as usize)
    }
}

/// The cursor's on-screen (column, row) for a session state and a
/// viewport, mirroring the two cases of `Repl::cursor_pos_in`; the row
/// is clamped to the viewport's height.
pub open spec fn cursor_coordinates(m: ReplView, rect: Rect) -> (u16, u16) {
    let max_height = rect.height;
    if m.text.len() > 0 && m.text.last() == '\n' {
        let col_full = if m.input.len() >= m.cursor {
            m.input.len() - m.cursor
        } else {
            0
        };
        let col = ((col_full % 0x10000) as u16);
        let row16 = ((util::line_count(m.text) % 0x10000) as u16);
        (col, if row16 <= max_height {
            row16
        } else {
            max_height
        })
    } else {
        let base = util::last_line_len(m.text) + m.input.len();
        let col_full = if base >= m.cursor {
            base - m.cursor
        } else {
            0
        };
        let col = ((col_full % 0x10000) as u16);
        let lc = util::line_count(m.text);
        let rowsat: nat = if lc >= 1 {
            (lc - 1) as nat
        } else {
            0
        };
        let row16 = ((rowsat % 0x10000) as u16);
        (col, if row16 <= max_height {
            row16
        } else {
            max_height
        })
    }
}

/// Reducing a length modulo `2^16` never enlarges it.
proof fn lemma_mod_le(a: nat)
    ensures
        a % 0x10000 <= a,
{
    if a < 0x10000 {
        vstd::arithmetic::div_mod::lemma_small_mod(a, 0x10000);
    } else {
        vstd::arithmetic::div_mod::lemma_mod_bound(a as int, 0x10000);
    }
}

} // verus!
