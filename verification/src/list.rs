//! The scrollable-list model shared by the fiction list and the chapter list:
//! a cursor, a window offset, and an optional reversed display order that is
//! applied only when mapping window rows to items.

use vstd::prelude::*;

use crate::api::{ChapterReference, Fiction};
use crate::text::{dec_of, fmt_u64};

verus! {

pub const MINUTE: u64 = 60;

pub const HOUR: u64 = 60 * MINUTE;

pub const DAY: u64 = 24 * HOUR;

pub const WEEK: u64 = 7 * DAY;

pub const MONTH: u64 = 30 * DAY;

pub const YEAR: u64 = 365 * DAY;

/// An item that a list can draw: it renders itself into one line of at most
/// the given width.
pub trait Listable {
    fn to_string(&self, width: u16, x_margin: u16) -> String;
}

/// The state of one scrollable list.
#[derive(Debug)]
pub struct ListState<T: Listable> {
    /// Index of the selected item in `items` (never a screen position).
    pub selected_line: u16,
    /// Index of the first item of the visible window.
    pub top_line: u16,
    pub items: Vec<T>,
    /// Whether the display order is reversed (most recent first).
    pub reversed: bool,
}

/// The widget that draws a list; rendering itself happens outside the library.
pub struct ListWidget<T: Listable> {
    pub phantom: core::marker::PhantomData<T>,
    pub margin: (u16, u16),
}

impl<T: Listable> ListState<T> {
    /// A new list state, displayed most recent first.
    pub fn new(items: Vec<T>, selected_line: u16, top_line: u16) -> (r: ListState<T>)
        ensures
            r.items == items,
            r.selected_line == selected_line,
            r.top_line == top_line,
            r.reversed == true,
    {
        Self { items, selected_line, top_line, reversed: true }
    }
}

impl<T: Listable> ListWidget<T> {
    /// A new list widget with the given (column, row) margin.
    pub fn new(margin: (u16, u16)) -> (r: ListWidget<T>)
        ensures
            r.margin == margin,
    {
        Self { phantom: core::marker::PhantomData, margin }
    }
}

// ---------------------------------------------------------------------------
// Cursor movement and the visible window
// ---------------------------------------------------------------------------

/// A value clamped into a closed interval.
pub open spec fn clamp_int(x: int, lo: int, hi: int) -> int {
    if x < lo {
        lo
    } else if x > hi {
        hi
    } else {
        x
    }
}

/// Where the selection lands after moving by `delta` in a list of `count`
/// items: clamped between 0 and the last index (and into cursor range).
pub open spec fn spec_move(sel: int, delta: int, count: int) -> int {
    clamp_int(sel + delta, 0, if count - 1 <= u16::MAX { count - 1 } else { u16::MAX as int })
}

/// The minimal window adjustment: scroll up just to the selection, or down
/// just far enough that the selection is the window's last row.
pub open spec fn spec_recompute(top: int, sel: int, h: int) -> int {
    if sel < top {
        sel
    } else if sel >= top + h {
        sel + 1 - h
    } else {
        top
    }
}

/// How many rows of the window are filled.
pub open spec fn visible_count(count: int, top: int, h: int) -> int {
    if top >= count {
        0
    } else if count - top < h {
        count - top
    } else {
        h
    }
}

/// The item drawn on window row `k`: `reversed` mirrors the whole list.
pub open spec fn display_index(count: int, top: int, k: int, reversed: bool) -> int {
    if reversed {
        count - 1 - (top + k)
    } else {
        top + k
    }
}

impl<T: Listable> ListState<T> {
    /// Move the selection by `delta`, clamped into the list; a no-op on an
    /// empty list.
    pub fn move_selection(&mut self, delta: i32)
        ensures
            final(self).items == old(self).items,
            final(self).top_line == old(self).top_line,
            final(self).reversed == old(self).reversed,
            old(self).items@.len() == 0 ==> final(self).selected_line == old(
                self,
            ).selected_line,
            old(self).items@.len() > 0 ==> final(self).selected_line == spec_move(
                old(self).selected_line as int,
                delta as int,
                old(self).items@.len() as int,
            ),
    {
        let count = self.items.len();
        if count == 0 {
            return;
        }
        let hi: u16 = if count - 1 <= u16::MAX as usize {
            (count - 1) as u16
        } else {
            u16::MAX
        };
        let target: i64 = self.selected_line as i64 + delta as i64;
        if target < 0 {
            self.selected_line = 0;
        } else if target > hi as i64 {
            self.selected_line = hi;
        } else {
            self.selected_line = target as u16;
        }
    }

    /// Restore `top_line <= selected_line < top_line + viewport_height` by
    /// moving the window no further than necessary.
    pub fn recompute_window(&mut self, viewport_height: u16)
        requires
            viewport_height >= 1,
        ensures
            final(self).items == old(self).items,
            final(self).selected_line == old(self).selected_line,
            final(self).reversed == old(self).reversed,
            final(self).top_line == spec_recompute(
                old(self).top_line as int,
                old(self).selected_line as int,
                viewport_height as int,
            ),
    {
        if self.selected_line < self.top_line {
            self.top_line = self.selected_line;
        } else if self.selected_line as u32 >= self.top_line as u32 + viewport_height as u32 {
            self.top_line = self.selected_line - (viewport_height - 1);
        }
    }

    /// Flip the display order; the indices keep meaning positions in `items`.
    pub fn toggle_reversed(&mut self)
        ensures
            final(self).items == old(self).items,
            final(self).selected_line == old(self).selected_line,
            final(self).top_line == old(self).top_line,
            final(self).reversed == !old(self).reversed,
    {
        self.reversed = !self.reversed;
    }

    /// The (window row, item index) pairs of the visible window, top row first.
    #[verifier::loop_isolation(false)]
    pub fn visible_slice(&self, viewport_height: u16) -> (r: Vec<(u16, usize)>)
        ensures
            r@.len() == visible_count(
                self.items@.len() as int,
                self.top_line as int,
                viewport_height as int,
            ),
            forall|k: int|
                0 <= k < r@.len() ==> #[trigger] r@[k] == (
                    k as u16,
                    display_index(
                        self.items@.len() as int,
                        self.top_line as int,
                        k,
                        self.reversed,
                    ) as usize,
                ),
    {
        let count = self.items.len();
        let top = self.top_line as usize;
        let mut out: Vec<(u16, usize)> = Vec::new();
        if top >= count {
            return out;
        }
        let rows: usize = if count - top < viewport_height as usize {
            count - top
        } else {
            viewport_height as usize
        };
        let mut k: usize = 0;
        while k < rows
            invariant
                k <= rows,
                out@.len() == k,
                forall|j: int|
                    0 <= j < k ==> #[trigger] out@[j] == (
                        j as u16,
                        display_index(count as int, top as int, j, self.reversed) as usize,
                    ),
            decreases rows - k,
        {
            let idx: usize = if self.reversed {
                count - 1 - (top + k)
            } else {
                top + k
            };
            out.push((k as u16, idx));
            k += 1;
        }
        out
    }

    /// The index into `items` of the item drawn as selected, honoring the
    /// display order; `None` on an empty list.
    pub fn selected_item_index(&self) -> (r: Option<usize>)
        ensures
            self.items@.len() == 0 ==> r is None,
            self.items@.len() > 0 ==> {
                let sel = clamp_int(self.selected_line as int, 0, self.items@.len() - 1);
                r is Some && r->0 == if self.reversed {
                    self.items@.len() - 1 - sel
                } else {
                    sel
                }
            },
    {
        let count = self.items.len();
        if count == 0 {
            return None;
        }
        let sel: usize = if (self.selected_line as usize) > count - 1 {
            count - 1
        } else {
            self.selected_line as usize
        };
        if self.reversed {
            Some(count - 1 - sel)
        } else {
            Some(sel)
        }
    }

    /// Remove the selected item, re-clamping the selection into the shrunken
    /// list; a no-op on an empty list.
    pub fn remove_selected(&mut self)
        ensures
            final(self).top_line == old(self).top_line,
            final(self).reversed == old(self).reversed,
            old(self).items@.len() == 0 ==> final(self).items == old(self).items
                && final(self).selected_line == old(self).selected_line,
            old(self).items@.len() > 0 ==> {
                let count = old(self).items@.len() as int;
                let sel = clamp_int(old(self).selected_line as int, 0, count - 1);
                let idx = if old(self).reversed {
                    count - 1 - sel
                } else {
                    sel
                };
                &&& final(self).items@ == old(self).items@.remove(idx)
                &&& final(self).selected_line == clamp_int(
                    old(self).selected_line as int,
                    0,
                    if count - 2 >= 0 {
                        count - 2
                    } else {
                        0
                    },
                )
            },
    {
        let count = self.items.len();
        if count == 0 {
            return;
        }
        let idx = match self.selected_item_index() {
            Some(i) => i,
            None => {
                return;
            },
        };
        let _removed = self.items.remove(idx);
        let new_count = self.items.len();
        if new_count == 0 {
            self.selected_line = 0;
        } else if self.selected_line as usize > new_count - 1 {
            let hi: u16 = if new_count - 1 <= u16::MAX as usize {
                (new_count - 1) as u16
            } else {
                u16::MAX
            };
            self.selected_line = hi;
        }
    }
}

// ---------------------------------------------------------------------------
// Laws
// ---------------------------------------------------------------------------

/// After moving the selection and recomputing the window, the selection lies
/// inside the window: `top <= sel < top + viewport_height`.
pub proof fn lemma_move_then_recompute(sel: int, delta: int, count: int, top: int, h: int)
    requires
        count >= 1,
        h >= 1,
    ensures
        ({
            let sel2 = spec_move(sel, delta, count);
            let top2 = spec_recompute(top, sel2, h);
            top2 <= sel2 < top2 + h
        }),
{
}

/// Recomputing the window twice with the same height changes nothing more
/// than recomputing it once.
pub proof fn lemma_recompute_idempotent(top: int, sel: int, h: int)
    requires
        h >= 1,
    ensures
        spec_recompute(spec_recompute(top, sel, h), sel, h) == spec_recompute(top, sel, h),
{
}

// ---------------------------------------------------------------------------
// Display labels
// ---------------------------------------------------------------------------

/// Relies on std::time::SystemTime::now and duration_since of the unix epoch:
/// the whole seconds of the system clock since the epoch, 0 when the clock
/// reads before it. Nothing is promised of the value.
#[verifier::external_body]
fn now_unix() -> u64 {
    match std::time::SystemTime::now().duration_since(std::time::UNIX_EPOCH) {
        Ok(d) => d.as_secs(),
        Err(_) => 0,
    }
}

/// The coarse "how long ago" label of an elapsed time in seconds.
pub open spec fn spec_relative_label(s: u64) -> Seq<char> {
    if s >= YEAR {
        dec_of((s / YEAR) as nat) + " years"@
    } else if s >= MONTH {
        dec_of((s / MONTH) as nat) + " months"@
    } else if s >= WEEK {
        dec_of((s / WEEK) as nat) + " weeks"@
    } else if s >= DAY {
        dec_of((s / DAY) as nat) + " days"@
    } else if s >= HOUR {
        dec_of((s / HOUR) as nat) + " hours"@
    } else if s >= MINUTE {
        dec_of((s / MINUTE) as nat) + " minutes"@
    } else {
        dec_of(s as nat) + " seconds"@
    }
}

/// Render the coarse "how long ago" label of an elapsed time in seconds.
pub fn relative_label(s: u64) -> (r: String)
    ensures
        r@ == spec_relative_label(s),
{
    if s >= YEAR {
        let mut out = fmt_u64(s / YEAR);
        out.append(" years");
        out
    } else if s >= MONTH {
        let mut out = fmt_u64(s / MONTH);
        out.append(" months");
        out
    } else if s >= WEEK {
        let mut out = fmt_u64(s / WEEK);
        out.append(" weeks");
        out
    } else if s >= DAY {
        let mut out = fmt_u64(s / DAY);
        out.append(" days");
        out
    } else if s >= HOUR {
        let mut out = fmt_u64(s / HOUR);
        out.append(" hours");
        out
    } else if s >= MINUTE {
        let mut out = fmt_u64(s / MINUTE);
        out.append(" minutes");
        out
    } else {
        let mut out = fmt_u64(s);
        out.append(" seconds");
        out
    }
}

/// A run of spaces.
pub open spec fn spaces(k: int) -> Seq<char> {
    Seq::new(if k >= 0 {
        k as nat
    } else {
        0
    }, |i: int| ' ')
}

/// Render a run of spaces.
pub fn space_run(k: usize) -> (r: String)
    ensures
        r@ == spaces(k as int),
{
    let mut out = String::new();
    let mut i: usize = 0;
    while i < k
        invariant
            i <= k,
            out@ =~= spaces(i as int),
        decreases k - i,
    {
        out.append(" ");
        proof {
            reveal_strlit(" ");
            assert(" "@ =~= seq![' ']);
            assert(out@ =~= spaces(i as int + 1));
        }
        i += 1;
    }
    out
}

/// The first `k` characters of a text (all of it when it is shorter).
pub fn take_chars(s: &str, k: usize) -> (r: String)
    ensures
        r@ == s@.take(if k <= s@.len() {
            k as int
        } else {
            s@.len() as int
        }),
{
    let n = s.unicode_len();
    let end = if k <= n {
        k
    } else {
        n
    };
    let piece = s.substring_char(0, end);
    proof {
        assert(s@.subrange(0, end as int) =~= s@.take(end as int));
    }
    piece.to_owned()
}

// ---------------------------------------------------------------------------
// Listable impls
// ---------------------------------------------------------------------------

/// The line that a chapter reference displays: its title truncated to fit,
/// spacing, and how long ago it was published, given the clock reading `now`.
pub open spec fn spec_chapter_line(title: Seq<char>, time: u64, now: u64, width: u16, x_margin: u16) -> Seq<char> {
    let s: u64 = if now >= time {
        (now - time) as u64
    } else {
        0
    };
    let label = spec_relative_label(s);
    let w: int = width - 2 * (x_margin as int);
    let full: int = title.len() + label.len() as int;
    let spacing: int = if w - full >= 3 {
        w - full
    } else {
        3
    };
    let keep: int = if w - label.len() - spacing >= 0 {
        w - label.len() - spacing
    } else {
        0
    };
    let shown: int = if keep <= title.len() {
        keep
    } else {
        title.len() as int
    };
    title.take(shown) + spaces(spacing) + label
}

impl ChapterReference {
    /// The display line of this reference at the given clock reading.
    pub fn display_line(&self, width: u16, x_margin: u16, now: u64) -> (r: String)
        ensures
            r@ == spec_chapter_line(self.title@, self.time, now, width, x_margin),
    {
        let s: u64 = if now >= self.time {
            now - self.time
        } else {
            0
        };
        let label = relative_label(s);
        let w: i128 = width as i128 - 2 * (x_margin as i128);
        let title_len = self.title.as_str().unicode_len();
        let label_len = label.as_str().unicode_len();
        let full: i128 = title_len as i128 + label_len as i128;
        let spacing: i128 = if w - full >= 3 {
            w - full
        } else {
            3
        };
        let keep: i128 = if w - label_len as i128 - spacing >= 0 {
            w - label_len as i128 - spacing
        } else {
            0
        };
        let mut out = take_chars(self.title.as_str(), keep as usize);
        let pad = space_run(spacing as usize);
        out.append(pad.as_str());
        out.append(label.as_str());
        out
    }
}

impl Listable for ChapterReference {
    /// The display line of this reference at the clock reading of the call.
    fn to_string(&self, width: u16, x_margin: u16) -> String {
        let now = now_unix();
        self.display_line(width, x_margin, now)
    }
}

/// The line that a fiction displays: its whole title when it fits the width,
/// else a truncation ending in an ellipsis.
pub open spec fn spec_fiction_line(title: Seq<char>, width: u16, x_margin: u16) -> Seq<char> {
    let cap: int = width - 2 - 2 * (x_margin as int);
    if title.len() > cap {
        let keep: int = if cap - 3 >= 0 {
            cap - 3
        } else {
            0
        };
        (if keep <= title.len() {
            title.take(keep)
        } else {
            title
        }) + "..."@
    } else {
        title
    }
}

impl Fiction {
    /// The display line of this fiction.
    pub fn title_line(&self, width: u16, x_margin: u16) -> (r: String)
        ensures
            r@ == spec_fiction_line(self.title@, width, x_margin),
    {
        let cap: i128 = width as i128 - 2 - 2 * (x_margin as i128);
        let title_len = self.title.as_str().unicode_len();
        if title_len as i128 > cap {
            let keep: i128 = if cap - 3 >= 0 {
                cap - 3
            } else {
                0
            };
            let mut out = take_chars(self.title.as_str(), keep as usize);
            out.append("...");
            out
        } else {
            self.title.clone()
        }
    }
}

impl Listable for Fiction {
    /// The display line of this fiction.
    fn to_string(&self, width: u16, x_margin: u16) -> String {
        self.title_line(width, x_margin)
    }
}

} // verus!

