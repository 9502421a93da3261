//! The navigation state machine: one value holds all navigation state, and a
//! pure handler maps each key event to the next state and to the action (a
//! fetch, a save-and-quit) that the surrounding event loop must perform.

use vstd::prelude::*;

use crate::api::{copy_chapters, ChapterReference, Fiction};
use crate::list::{clamp_int, spec_move, ListState};
use crate::reading::ReadingWindowState;
use crate::text::{all_digits, char_is_digit, digit_char, is_digit_char, parse_usize_spec};
use crate::list::take_chars;
use crate::text::{digit_string, parse_usize, str_is_number};

verus! {

/// A key, as the event loop reports it.
#[derive(Debug, Clone, Copy, PartialEq, Eq, Structural)]
pub enum Key {
    Char(char),
    Esc,
    Backspace,
    Enter,
    Other,
}

/// One pressed key with its shift state.
#[derive(Debug, Clone, Copy, PartialEq, Eq, Structural)]
pub struct KeyInput {
    pub code: Key,
    pub shift: bool,
}

/// What the event loop must do after a key is handled.
#[derive(Debug, Clone, Copy, PartialEq, Eq, Structural)]
pub enum AppAction {
    /// Nothing beyond redrawing.
    Idle,
    /// Save the tracked ids and leave.
    SaveQuit,
    /// Fetch the fiction with this id and report back through
    /// `apply_fiction_result`.
    FetchFiction(usize),
    /// Fetch the chapter at this index of the chapter list and report back
    /// through `apply_chapter_result`.
    OpenChapter(usize),
}

/// All navigation state of a reading session.
#[derive(Debug)]
pub struct AppState {
    pub reading_state: ReadingWindowState,
    pub fiction_state: ListState<Fiction>,
    pub chapter_state: ListState<ChapterReference>,
    /// Whether the side list shows fictions (else chapters).
    pub fictions_showing: bool,
    /// The id-input overlay text, when the overlay is open.
    pub fiction_in: Option<String>,
}

// ---------------------------------------------------------------------------
// Transition relations
// ---------------------------------------------------------------------------

/// A list after a clamped selection move, everything else kept.
pub open spec fn moved_rel<T: crate::list::Listable>(
    st0: ListState<T>,
    st1: ListState<T>,
    delta: int,
) -> bool {
    &&& st1.items == st0.items
    &&& st1.top_line == st0.top_line
    &&& st1.reversed == st0.reversed
    &&& if st0.items@.len() == 0 {
        st1.selected_line == st0.selected_line
    } else {
        st1.selected_line == spec_move(st0.selected_line as int, delta, st0.items@.len() as int)
    }
}

/// The index into the items of the item drawn as selected.
pub open spec fn spec_selected<T: crate::list::Listable>(st: ListState<T>) -> int {
    let count = st.items@.len() as int;
    let sel = clamp_int(st.selected_line as int, 0, count - 1);
    if st.reversed {
        count - 1 - sel
    } else {
        sel
    }
}

/// A list after its selected item is removed and the selection re-clamped,
/// everything else kept.
pub open spec fn removed_rel<T: crate::list::Listable>(st0: ListState<T>, st1: ListState<
    T,
>) -> bool {
    &&& st1.top_line == st0.top_line
    &&& st1.reversed == st0.reversed
    &&& if st0.items@.len() == 0 {
        st1.items == st0.items && st1.selected_line == st0.selected_line
    } else {
        let count = st0.items@.len() as int;
        &&& st1.items@ == st0.items@.remove(spec_selected(st0))
        &&& st1.selected_line == clamp_int(
            st0.selected_line as int,
            0,
            if count - 2 >= 0 {
                count - 2
            } else {
                0
            },
        )
    }
}

/// The reading pane after a clamped cursor move, everything else kept.
pub open spec fn scrolled_rel(r0: ReadingWindowState, r1: ReadingWindowState, delta: int) -> bool {
    &&& r1.text == r0.text
    &&& r1.is_reading == r0.is_reading
    &&& if r0.text@.len() == 0 {
        r1.line == r0.line
    } else {
        r1.line == clamp_int(
            r0.line as int + delta,
            0,
            if r0.text@.len() - 1 <= u16::MAX {
                r0.text@.len() - 1
            } else {
                u16::MAX as int
            },
        )
    }
}

/// Everything but the input overlay kept.
pub open spec fn same_but_input(s0: AppState, s1: AppState) -> bool {
    &&& s1.reading_state == s0.reading_state
    &&& s1.fiction_state == s0.fiction_state
    &&& s1.chapter_state == s0.chapter_state
    &&& s1.fictions_showing == s0.fictions_showing
}

/// How a shifted key changes the state: J and K move the selection of the
/// visible list; other keys do nothing.
pub open spec fn shift_step(s0: AppState, s1: AppState, code: Key) -> bool {
    match code {
        Key::Char(c) => {
            if c == 'J' || c == 'K' {
                let delta: int = if c == 'J' {
                    1
                } else {
                    -1
                };
                if s0.fictions_showing {
                    &&& moved_rel(s0.fiction_state, s1.fiction_state, delta)
                    &&& s1.reading_state == s0.reading_state
                    &&& s1.chapter_state == s0.chapter_state
                    &&& s1.fictions_showing == s0.fictions_showing
                    &&& s1.fiction_in == s0.fiction_in
                } else {
                    &&& moved_rel(s0.chapter_state, s1.chapter_state, delta)
                    &&& s1.reading_state == s0.reading_state
                    &&& s1.fiction_state == s0.fiction_state
                    &&& s1.fictions_showing == s0.fictions_showing
                    &&& s1.fiction_in == s0.fiction_in
                }
            } else {
                s1 == s0
            }
        },
        _ => s1 == s0,
    }
}

/// How a key changes the state while the id-input overlay is open: digits are
/// typed (replacing a non-numeric prompt), Esc closes the overlay, Backspace
/// deletes, Enter asks for the fetch of a well-formed id and turns a malformed
/// one into the failure prompt.
pub open spec fn input_step(s0: AppState, s1: AppState, code: Key, a: AppAction) -> bool
    recommends
        s0.fiction_in is Some,
{
    let text0 = s0.fiction_in->0@;
    match code {
        Key::Char(c) => {
            a == AppAction::Idle && if is_digit_char(c) {
                &&& same_but_input(s0, s1)
                &&& s1.fiction_in is Some
                &&& s1.fiction_in->0@ == if text0.len() > 0 && all_digits(text0) {
                    text0.push(c)
                } else {
                    seq![c]
                }
            } else {
                s1 == s0
            }
        },
        Key::Esc => a == AppAction::Idle && same_but_input(s0, s1) && s1.fiction_in is None,
        Key::Backspace => {
            &&& a == AppAction::Idle
            &&& same_but_input(s0, s1)
            &&& s1.fiction_in is Some
            &&& s1.fiction_in->0@ == text0.take(
                if text0.len() > 0 {
                    text0.len() - 1
                } else {
                    0
                },
            )
        },
        Key::Enter => {
            match parse_usize_spec(text0) {
                Some(id) => a == AppAction::FetchFiction(id) && s1 == s0,
                None => {
                    &&& a == AppAction::Idle
                    &&& same_but_input(s0, s1)
                    &&& s1.fiction_in is Some
                    &&& s1.fiction_in->0@ == "Invalid ID"@
                },
            }
        },
        Key::Other => a == AppAction::Idle && s1 == s0,
    }
}

/// How a key changes the state in normal mode: quit, scroll the reading pane,
/// delete the selected fiction, descend into a fiction or open a chapter, go
/// back, open the id prompt, or flip the display order.
pub open spec fn normal_step(s0: AppState, s1: AppState, code: Key, a: AppAction) -> bool {
    match code {
        Key::Char(c) => {
            if c == 'q' {
                a == AppAction::SaveQuit && s1 == s0
            } else if c == 'j' || c == 'k' {
                let delta: int = if c == 'j' {
                    1
                } else {
                    -1
                };
                &&& a == AppAction::Idle
                &&& scrolled_rel(s0.reading_state, s1.reading_state, delta)
                &&& s1.fiction_state == s0.fiction_state
                &&& s1.chapter_state == s0.chapter_state
                &&& s1.fictions_showing == s0.fictions_showing
                &&& s1.fiction_in == s0.fiction_in
            } else if c == 'd' {
                a == AppAction::Idle && if s0.fictions_showing {
                    &&& removed_rel(s0.fiction_state, s1.fiction_state)
                    &&& s1.reading_state == s0.reading_state
                    &&& s1.chapter_state == s0.chapter_state
                    &&& s1.fictions_showing == s0.fictions_showing
                    &&& s1.fiction_in == s0.fiction_in
                } else {
                    s1 == s0
                }
            } else if c == 'l' {
                if s0.fictions_showing && s0.fiction_state.items@.len() > 0 {
                    &&& a == AppAction::Idle
                    &&& s1.fictions_showing == false
                    &&& s1.reading_state == s0.reading_state
                    &&& s1.fiction_state == s0.fiction_state
                    &&& s1.fiction_in == s0.fiction_in
                    &&& s1.chapter_state.items@ == s0.fiction_state.items@[spec_selected(
                        s0.fiction_state,
                    )].chapters@
                    &&& s1.chapter_state.selected_line == s0.chapter_state.selected_line
                    &&& s1.chapter_state.top_line == s0.chapter_state.top_line
                    &&& s1.chapter_state.reversed == s0.chapter_state.reversed
                } else if !s0.fictions_showing && s0.chapter_state.items@.len() > 0 {
                    a == AppAction::OpenChapter(spec_selected(s0.chapter_state) as usize) && s1
                        == s0
                } else {
                    a == AppAction::Idle && s1 == s0
                }
            } else if c == 'h' {
                &&& a == AppAction::Idle
                &&& s1.fictions_showing == true
                &&& s1.reading_state == s0.reading_state
                &&& s1.fiction_state == s0.fiction_state
                &&& s1.chapter_state == s0.chapter_state
                &&& s1.fiction_in == s0.fiction_in
            } else if c == 'o' {
                &&& a == AppAction::Idle
                &&& s1.fictions_showing == true
                &&& s1.fiction_in is Some
                &&& s1.fiction_in->0@ == "Enter New Fiction ID"@
                &&& s1.reading_state == s0.reading_state
                &&& s1.fiction_state == s0.fiction_state
                &&& s1.chapter_state == s0.chapter_state
            } else if c == 'r' {
                a == AppAction::Idle && if s0.fictions_showing {
                    &&& s1.fiction_state.items == s0.fiction_state.items
                    &&& s1.fiction_state.selected_line == s0.fiction_state.selected_line
                    &&& s1.fiction_state.top_line == s0.fiction_state.top_line
                    &&& s1.fiction_state.reversed == !s0.fiction_state.reversed
                    &&& s1.reading_state == s0.reading_state
                    &&& s1.chapter_state == s0.chapter_state
                    &&& s1.fictions_showing == s0.fictions_showing
                    &&& s1.fiction_in == s0.fiction_in
                } else {
                    &&& s1.chapter_state.items == s0.chapter_state.items
                    &&& s1.chapter_state.selected_line == s0.chapter_state.selected_line
                    &&& s1.chapter_state.top_line == s0.chapter_state.top_line
                    &&& s1.chapter_state.reversed == !s0.chapter_state.reversed
                    &&& s1.reading_state == s0.reading_state
                    &&& s1.fiction_state == s0.fiction_state
                    &&& s1.fictions_showing == s0.fictions_showing
                    &&& s1.fiction_in == s0.fiction_in
                }
            } else {
                a == AppAction::Idle && s1 == s0
            }
        },
        _ => a == AppAction::Idle && s1 == s0,
    }
}

// ---------------------------------------------------------------------------
// The handler
// ---------------------------------------------------------------------------

impl AppState {
    fn handle_shift_key(&mut self, code: Key)
        ensures
            shift_step(*old(self), *final(self), code),
    {
        match code {
            Key::Char(c) => {
                if c == 'J' {
                    if self.fictions_showing {
                        self.fiction_state.move_selection(1);
                    } else {
                        self.chapter_state.move_selection(1);
                    }
                } else if c == 'K' {
                    if self.fictions_showing {
                        self.fiction_state.move_selection(-1);
                    } else {
                        self.chapter_state.move_selection(-1);
                    }
                }
            },
            _ => {},
        }
    }

    fn handle_input_key(&mut self, code: Key) -> (a: AppAction)
        requires
            old(self).fiction_in is Some,
        ensures
            input_step(*old(self), *final(self), code, a),
    {
        match code {
            Key::Char(c) => {
                if char_is_digit(c) {
                    let d: u64 = if c == '0' { 0 }
                    else if c == '1' { 1 }
                    else if c == '2' { 2 }
                    else if c == '3' { 3 }
                    else if c == '4' { 4 }
                    else if c == '5' { 5 }
                    else if c == '6' { 6 }
                    else if c == '7' { 7 }
                    else if c == '8' { 8 }
                    else { 9 };
                    proof {
                        assert(digit_char(d as int) == c);
                    }
                    let digit = digit_string(d);
                    let text = match &self.fiction_in {
                        Some(t) => t,
                        None => {
                            return AppAction::Idle;
                        },
                    };
                    if str_is_number(text.as_str()) {
                        let mut grown = text.clone();
                        grown.append(digit.as_str());
                        proof {
                            assert(grown@ =~= old(self).fiction_in->0@.push(c));
                        }
                        self.fiction_in = Some(grown);
                    } else {
                        proof {
                            assert(digit@ =~= seq![c]);
                        }
                        self.fiction_in = Some(digit);
                    }
                }
                AppAction::Idle
            },
            Key::Esc => {
                self.fiction_in = None;
                AppAction::Idle
            },
            Key::Backspace => {
                let text = match &self.fiction_in {
                    Some(t) => t,
                    None => {
                        return AppAction::Idle;
                    },
                };
                let len = text.as_str().unicode_len();
                let shortened = if len > 0 {
                    take_chars(text.as_str(), len - 1)
                } else {
                    take_chars(text.as_str(), 0)
                };
                self.fiction_in = Some(shortened);
                AppAction::Idle
            },
            Key::Enter => {
                let text = match &self.fiction_in {
                    Some(t) => t,
                    None => {
                        return AppAction::Idle;
                    },
                };
                match parse_usize(text.as_str()) {
                    Some(id) => AppAction::FetchFiction(id),
                    None => {
                        self.fiction_in = Some(String::from_str("Invalid ID"));
                        AppAction::Idle
                    },
                }
            },
            Key::Other => AppAction::Idle,
        }
    }

    fn handle_normal_key(&mut self, code: Key) -> (a: AppAction)
        ensures
            normal_step(*old(self), *final(self), code, a),
    {
        match code {
            Key::Char(c) => {
                if c == 'q' {
                    AppAction::SaveQuit
                } else if c == 'j' {
                    self.reading_state.scroll(1);
                    AppAction::Idle
                } else if c == 'k' {
                    self.reading_state.scroll(-1);
                    AppAction::Idle
                } else if c == 'd' {
                    if self.fictions_showing {
                        self.fiction_state.remove_selected();
                    }
                    AppAction::Idle
                } else if c == 'l' {
                    if self.fictions_showing && self.fiction_state.items.len() > 0 {
                        let idx = match self.fiction_state.selected_item_index() {
                            Some(i) => i,
                            None => {
                                return AppAction::Idle;
                            },
                        };
                        self.fictions_showing = false;
                        let chapters = copy_chapters(&self.fiction_state.items[idx].chapters);
                        self.chapter_state.items = chapters;
                        AppAction::Idle
                    } else if !self.fictions_showing && self.chapter_state.items.len() > 0 {
                        let idx = match self.chapter_state.selected_item_index() {
                            Some(i) => i,
                            None => {
                                return AppAction::Idle;
                            },
                        };
                        AppAction::OpenChapter(idx)
                    } else {
                        AppAction::Idle
                    }
                } else if c == 'h' {
                    self.fictions_showing = true;
                    AppAction::Idle
                } else if c == 'o' {
                    self.fictions_showing = true;
                    self.fiction_in = Some(String::from_str("Enter New Fiction ID"));
                    AppAction::Idle
                } else if c == 'r' {
                    if self.fictions_showing {
                        self.fiction_state.toggle_reversed();
                    } else {
                        self.chapter_state.toggle_reversed();
                    }
                    AppAction::Idle
                } else {
                    AppAction::Idle
                }
            },
            _ => AppAction::Idle,
        }
    }

    /// Handle one pressed key: mutate the navigation state and say what the
    /// event loop must do next.
    pub fn handle_key(&mut self, key: KeyInput) -> (a: AppAction)
        ensures
            key.shift ==> shift_step(*old(self), *final(self), key.code) && a == AppAction::Idle,
            !key.shift && old(self).fiction_in is Some ==> input_step(
                *old(self),
                *final(self),
                key.code,
                a,
            ),
            !key.shift && old(self).fiction_in is None ==> normal_step(
                *old(self),
                *final(self),
                key.code,
                a,
            ),
    {
        if key.shift {
            self.handle_shift_key(key.code);
            AppAction::Idle
        } else if self.fiction_in.is_some() {
            self.handle_input_key(key.code)
        } else {
            self.handle_normal_key(key.code)
        }
    }

    /// Take in what the fetch of a new fiction returned: track it and close
    /// the prompt, or turn the prompt into the failure message.
    pub fn apply_fiction_result(&mut self, fetched: Option<Fiction>)
        ensures
            final(self).reading_state == old(self).reading_state,
            final(self).chapter_state == old(self).chapter_state,
            final(self).fictions_showing == old(self).fictions_showing,
            match fetched {
                Some(f) => {
                    &&& final(self).fiction_in is None
                    &&& final(self).fiction_state.items@ == old(self).fiction_state.items@.push(f)
                    &&& final(self).fiction_state.selected_line == old(
                        self,
                    ).fiction_state.selected_line
                    &&& final(self).fiction_state.top_line == old(self).fiction_state.top_line
                    &&& final(self).fiction_state.reversed == old(self).fiction_state.reversed
                },
                None => {
                    &&& final(self).fiction_state == old(self).fiction_state
                    &&& final(self).fiction_in is Some
                    &&& final(self).fiction_in->0@ == "Invalid ID"@
                },
            },
    {
        match fetched {
            Some(f) => {
                self.fiction_in = None;
                self.fiction_state.items.push(f);
            },
            None => {
                self.fiction_in = Some(String::from_str("Invalid ID"));
            },
        }
    }

    /// Take in what the fetch of a chapter returned: open it at its first
    /// paragraph, or leave the state untouched.
    pub fn apply_chapter_result(&mut self, content: Option<Vec<String>>)
        ensures
            final(self).fiction_state == old(self).fiction_state,
            final(self).chapter_state == old(self).chapter_state,
            final(self).fictions_showing == old(self).fictions_showing,
            final(self).fiction_in == old(self).fiction_in,
            match content {
                Some(text) => {
                    &&& final(self).reading_state.text == text
                    &&& final(self).reading_state.is_reading == true
                    &&& final(self).reading_state.line == 0
                },
                None => final(self).reading_state == old(self).reading_state,
            },
    {
        match content {
            Some(text) => {
                self.reading_state = ReadingWindowState { text, is_reading: true, line: 0 };
            },
            None => {},
        }
    }
}

} // verus!
