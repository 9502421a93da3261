//! The reading pane: a paragraph cursor and a greedy word-wrap that turns the
//! paragraphs from the cursor on into display lines bounded by the pane width.

use vstd::prelude::*;

use crate::text::{is_ws_char, split_words, words_of};
use crate::text::lemma_words_no_ws;

verus! {

/// The state of the reading pane.
#[derive(Debug)]
pub struct ReadingWindowState {
    /// The paragraphs of the open chapter.
    pub text: Vec<String>,
    /// Whether a chapter is open (else a start screen is shown).
    pub is_reading: bool,
    /// Index of the first displayed paragraph.
    pub line: u16,
}

/// The widget that draws the reading pane; rendering happens outside the library.
pub struct ReadingWindow {
    pub margin: (u16, u16),
}

impl ReadingWindow {
    /// A new reading widget with the given (column, row) margin.
    pub fn new(margin: (u16, u16)) -> (r: ReadingWindow)
        ensures
            r.margin == margin,
    {
        Self { margin }
    }
}

// ---------------------------------------------------------------------------
// Greedy wrap, one paragraph
// ---------------------------------------------------------------------------

/// Extend a display line greedily: append the next word (after one space)
/// while the line stays within `width`; the words not taken are returned.
pub open spec fn take_line(cur: Seq<char>, rest: Seq<Seq<char>>, width: int) -> (Seq<char>, Seq<
    Seq<char>,
>)
    decreases rest.len(),
{
    if rest.len() > 0 && cur.len() + 1 + rest[0].len() <= width {
        take_line(cur + seq![' '] + rest[0], rest.drop_first(), width)
    } else {
        (cur, rest)
    }
}

/// The not-taken words are a suffix of the words offered.
proof fn lemma_take_line_rest(cur: Seq<char>, rest: Seq<Seq<char>>, width: int)
    ensures
        take_line(cur, rest, width).1.len() <= rest.len(),
        exists|k: int| 0 <= k <= rest.len() && take_line(cur, rest, width).1 == rest.skip(k),
    decreases rest.len(),
{
    if rest.len() > 0 && cur.len() + 1 + rest[0].len() <= width {
        lemma_take_line_rest(cur + seq![' '] + rest[0], rest.drop_first(), width);
        let k0 = choose|k: int|
            0 <= k <= rest.drop_first().len() && take_line(
                cur + seq![' '] + rest[0],
                rest.drop_first(),
                width,
            ).1 == rest.drop_first().skip(k);
        assert(rest.drop_first().skip(k0) =~= rest.skip(k0 + 1));
        assert(take_line(cur, rest, width).1 == rest.skip(k0 + 1));
    } else {
        assert(rest.skip(0) =~= rest);
        assert(take_line(cur, rest, width).1 == rest.skip(0));
    }
}

/// The display lines of one paragraph's words: the first line starts with the
/// first word and is extended greedily; a paragraph with no words yields no
/// lines.
pub open spec fn pack_words(words: Seq<Seq<char>>, width: int) -> Seq<Seq<char>>
    decreases words.len(),
    via pack_words_decreases
{
    if words.len() == 0 {
        Seq::empty()
    } else {
        let taken = take_line(words[0], words.drop_first(), width);
        seq![taken.0] + pack_words(taken.1, width)
    }
}

#[via_fn]
proof fn pack_words_decreases(words: Seq<Seq<char>>, width: int) {
    if words.len() > 0 {
        lemma_take_line_rest(words[0], words.drop_first(), width);
    }
}

// ---------------------------------------------------------------------------
// Greedy wrap, the whole window
// ---------------------------------------------------------------------------

/// The display lines of the paragraphs from `i` on: each paragraph's packed
/// lines, with one blank line before every paragraph after the first.
pub open spec fn wrap_from(ps: Seq<Seq<char>>, i: int, width: int) -> Seq<Seq<char>>
    decreases ps.len() - i,
{
    if i < 0 || i >= ps.len() {
        Seq::empty()
    } else {
        pack_words(words_of(ps[i]), width) + (if i + 1 < ps.len() {
            seq![Seq::<char>::empty()] + wrap_from(ps, i + 1, width)
        } else {
            Seq::empty()
        })
    }
}

/// What remains to emit when the paragraphs before `p` are done: a blank
/// separator first, unless `p` is the first paragraph of the window.
pub open spec fn wrap_tail(ps: Seq<Seq<char>>, p: int, start: int, width: int) -> Seq<Seq<char>> {
    if p >= ps.len() {
        Seq::empty()
    } else if p > start {
        seq![Seq::<char>::empty()] + wrap_from(ps, p, width)
    } else {
        wrap_from(ps, p, width)
    }
}

/// The window's display lines: the wrap of the paragraphs from `start` on,
/// cut off after `height` lines.
pub open spec fn spec_wrap_window(ps: Seq<Seq<char>>, start: int, width: int, height: int) -> Seq<
    Seq<char>,
> {
    let full = wrap_from(ps, start, width);
    if 0 <= height < full.len() {
        full.take(height)
    } else {
        full
    }
}

/// Wrap the paragraphs from `start` on into at most `height` display lines of
/// greedily packed words; a word longer than `width` stands alone on its line.
#[verifier::loop_isolation(false)]
pub fn wrap_window(paragraphs: &Vec<String>, start: usize, width: usize, height: usize) -> (r: Vec<
    String,
>)
    ensures
        r.deep_view() == spec_wrap_window(
            paragraphs.deep_view(),
            start as int,
            width as int,
            height as int,
        ),
{
    let ghost ps = paragraphs.deep_view();
    let ghost w = width as int;
    let ghost full = wrap_from(ps, start as int, w);
    let n = paragraphs.len();
    let mut out: Vec<String> = Vec::new();
    let mut p = start;
    proof {
        assert(out.deep_view() =~= Seq::<Seq<char>>::empty());
        assert(ps.len() == n);
        if p >= n {
            assert(full =~= Seq::<Seq<char>>::empty());
        }
        assert(full =~= out.deep_view() + wrap_tail(ps, p as int, start as int, w));
    }
    while p < n
        invariant
            start <= p,
            out.deep_view().len() <= height,
            full =~= out.deep_view() + wrap_tail(ps, p as int, start as int, w),
        decreases n - p,
    {
        if p > start {
            if out.len() == height {
                proof {
                    let tail = wrap_tail(ps, p as int, start as int, w);
                    assert((out.deep_view() + tail).take(out.deep_view().len() as int)
                        =~= out.deep_view());
                }
                return out;
            }
            let ghost before = out.deep_view();
            out.push(String::new());
            proof {
                assert(out.deep_view() =~= before.push(Seq::<char>::empty()));
                assert(before.push(Seq::<char>::empty()) + wrap_from(ps, p as int, w)
                    =~= before + wrap_tail(ps, p as int, start as int, w));
            }
        }
        // Here: full == out ++ wrap_from(ps, p, w).
        proof {
            assert(full =~= out.deep_view() + wrap_from(ps, p as int, w));
        }
        let words = split_words(paragraphs[p].as_str());
        let ghost ws = words.deep_view();
        proof {
            assert(ps[p as int] == paragraphs@[p as int]@);
            assert(ws == words_of(ps[p as int]));
        }
        let m = words.len();
        let mut k: usize = 0;
        proof {
            assert(ws.skip(0) =~= ws);
            assert(full =~= out.deep_view() + (pack_words(ws.skip(0), w) + wrap_tail(
                ps,
                p as int + 1,
                start as int,
                w,
            )));
        }
        while k < m
            invariant
                k <= m,
                out.deep_view().len() <= height,
                full =~= out.deep_view() + (pack_words(ws.skip(k as int), w) + wrap_tail(
                    ps,
                    p as int + 1,
                    start as int,
                    w,
                )),
            decreases m - k,
        {
            if out.len() == height {
                proof {
                    let tail = pack_words(ws.skip(k as int), w) + wrap_tail(
                        ps,
                        p as int + 1,
                        start as int,
                        w,
                    );
                    assert((out.deep_view() + tail).take(out.deep_view().len() as int)
                        =~= out.deep_view());
                }
                return out;
            }
            let mut cur: String = words[k].clone();
            let mut cur_len: usize = cur.as_str().unicode_len();
            proof {
                assert(cur@ == ws[k as int]);
            }
            let ghost head = ws.skip(k as int);
            let mut j: usize = k + 1;
            proof {
                assert(head[0] == ws[k as int]);
                assert(head.drop_first() =~= ws.skip(k as int + 1));
            }
            while j < m && cur_len < width && words[j].as_str().unicode_len() <= width - cur_len
                - 1
                invariant
                    k < j <= m,
                    cur_len == cur@.len(),
                    take_line(ws[k as int], ws.skip(k as int + 1), w) == take_line(
                        cur@,
                        ws.skip(j as int),
                        w,
                    ),
                decreases m - j,
            {
                let ghost rest = ws.skip(j as int);
                proof {
                    assert(rest[0] == ws[j as int]);
                    assert(ws[j as int] == words@[j as int]@);
                    assert(cur@.len() + 1 + rest[0].len() <= w);
                    assert(rest.drop_first() =~= ws.skip(j as int + 1));
                }
                cur.append(" ");
                cur.append(words[j].as_str());
                proof {
                    reveal_strlit(" ");
                    assert(" "@ =~= seq![' ']);
                }
                cur_len = cur.as_str().unicode_len();
                j += 1;
            }
            proof {
                // the loop condition is false, so the spec extension stops too
                let rest = ws.skip(j as int);
                if j < m {
                    assert(rest[0] == ws[j as int]);
                    assert(ws[j as int] == words@[j as int]@);
                    if cur_len < width {
                        assert(cur@.len() + 1 + rest[0].len() > w);
                    } else {
                        assert(cur@.len() + 1 + rest[0].len() > w);
                    }
                } else {
                    assert(rest.len() == 0);
                }
                assert(take_line(cur@, rest, w) == (cur@, rest));
                assert(pack_words(ws.skip(k as int), w) == seq![cur@] + pack_words(
                    ws.skip(j as int),
                    w,
                ));
            }
            let ghost before = out.deep_view();
            out.push(cur);
            proof {
                assert(out.deep_view() =~= before.push(out.deep_view().last()));
                assert(before.push(out.deep_view().last()) + (pack_words(ws.skip(j as int), w)
                    + wrap_tail(ps, p as int + 1, start as int, w)) =~= before + (pack_words(
                    ws.skip(k as int),
                    w,
                ) + wrap_tail(ps, p as int + 1, start as int, w)));
            }
            k = j;
        }
        proof {
            assert(ws.skip(m as int) =~= Seq::<Seq<char>>::empty());
            assert(pack_words(ws.skip(m as int), w) =~= Seq::<Seq<char>>::empty());
            assert(pack_words(ws.skip(m as int), w) + wrap_tail(ps, p as int + 1, start as int, w)
                =~= wrap_tail(ps, p as int + 1, start as int, w));
        }
        p += 1;
    }
    proof {
        assert(wrap_tail(ps, n as int, start as int, w) =~= Seq::<Seq<char>>::empty());
        assert(out.deep_view() =~= full);
    }
    out
}

// ---------------------------------------------------------------------------
// The reading pane state
// ---------------------------------------------------------------------------

impl ReadingWindowState {
    /// A new reading pane over the given paragraphs.
    pub fn new(text: Vec<String>, line: u16, is_reading: bool) -> (r: ReadingWindowState)
        ensures
            r.text == text,
            r.line == line,
            r.is_reading == is_reading,
    {
        Self { text, is_reading, line }
    }

    /// Move the paragraph cursor by `delta`, clamped into the open chapter; a
    /// no-op when there are no paragraphs.
    pub fn scroll(&mut self, delta: i32)
        ensures
            final(self).text == old(self).text,
            final(self).is_reading == old(self).is_reading,
            old(self).text@.len() == 0 ==> final(self).line == old(self).line,
            old(self).text@.len() > 0 ==> final(self).line == crate::list::clamp_int(
                old(self).line as int + delta as int,
                0,
                if old(self).text@.len() - 1 <= u16::MAX {
                    old(self).text@.len() - 1
                } else {
                    u16::MAX as int
                },
            ),
    {
        let count = self.text.len();
        if count == 0 {
            return;
        }
        let hi: u16 = if count - 1 <= u16::MAX as usize {
            (count - 1) as u16
        } else {
            u16::MAX
        };
        let target: i64 = self.line as i64 + delta as i64;
        if target < 0 {
            self.line = 0;
        } else if target > hi as i64 {
            self.line = hi;
        } else {
            self.line = target as u16;
        }
    }

    /// The pane's display lines: `margin.1` leading blank lines, then the
    /// wrapped paragraphs from the cursor on, each line indented by `margin.0`
    /// spaces, `height` lines in all at most.
    #[verifier::loop_isolation(false)]
    pub fn wrap_lines(&self, width: u16, height: u16, text: &Vec<String>, margin: (u16, u16)) -> (r:
        Vec<String>)
        ensures
            r.deep_view() == spec_wrap_lines(
                text.deep_view(),
                self.line as int,
                width as int,
                height as int,
                margin.0 as int,
                margin.1 as int,
            ),
    {
        let lead: usize = if (margin.1 as usize) < (height as usize) {
            margin.1 as usize
        } else {
            height as usize
        };
        let mut out: Vec<String> = Vec::new();
        let mut i: usize = 0;
        while i < lead
            invariant
                i <= lead,
                out.deep_view() =~= Seq::new(i as nat, |q: int| Seq::<char>::empty()),
            decreases lead - i,
        {
            let ghost before = out.deep_view();
            out.push(String::new());
            proof {
                assert(out.deep_view() =~= before.push(Seq::<char>::empty()));
                assert(out.deep_view() =~= Seq::new(i as nat + 1, |q: int| Seq::<char>::empty()));
            }
            i += 1;
        }
        let inner_width: usize = if (width as usize) >= 2 * (margin.0 as usize) {
            width as usize - 2 * (margin.0 as usize)
        } else {
            0
        };
        let body = wrap_window(text, self.line as usize, inner_width, height as usize - lead);
        let pad = crate::list::space_run(margin.0 as usize);
        let ghost body_dv = body.deep_view();
        let nb = body.len();
        let mut b: usize = 0;
        while b < nb
            invariant
                b <= nb,
                out.deep_view() =~= Seq::new(lead as nat, |q: int| Seq::<char>::empty())
                    + body_dv.take(b as int).map_values(
                    |l: Seq<char>| crate::list::spaces(margin.0 as int) + l,
                ),
            decreases nb - b,
        {
            let mut line = pad.clone();
            line.append(body[b].as_str());
            let ghost before = out.deep_view();
            out.push(line);
            proof {
                assert(out.deep_view() =~= before.push(
                    crate::list::spaces(margin.0 as int) + body_dv[b as int],
                ));
                assert(body_dv.take(b as int + 1).map_values(
                    |l: Seq<char>| crate::list::spaces(margin.0 as int) + l,
                ) =~= body_dv.take(b as int).map_values(
                    |l: Seq<char>| crate::list::spaces(margin.0 as int) + l,
                ).push(crate::list::spaces(margin.0 as int) + body_dv[b as int]));
            }
            b += 1;
        }
        proof {
            assert(body_dv.take(nb as int) =~= body_dv);
        }
        out
    }
}

/// The pane's display lines: leading blank margin rows, then the wrapped
/// window, indented.
pub open spec fn spec_wrap_lines(
    text: Seq<Seq<char>>,
    line: int,
    width: int,
    height: int,
    m0: int,
    m1: int,
) -> Seq<Seq<char>> {
    let lead: int = if m1 < height {
        m1
    } else {
        height
    };
    let inner_width: int = if width >= 2 * m0 {
        width - 2 * m0
    } else {
        0
    };
    Seq::new(lead as nat, |q: int| Seq::<char>::empty()) + spec_wrap_window(
        text,
        line,
        inner_width,
        height - lead,
    ).map_values(|l: Seq<char>| crate::list::spaces(m0) + l)
}

// ---------------------------------------------------------------------------
// Laws
// ---------------------------------------------------------------------------

/// A line the wrap emits either fits the width or is a single over-long word.
proof fn lemma_take_line_fits(cur: Seq<char>, rest: Seq<Seq<char>>, width: int)
    ensures
        take_line(cur, rest, width).0.len() <= width || take_line(cur, rest, width).0 == cur,
    decreases rest.len(),
{
    if rest.len() > 0 && cur.len() + 1 + rest[0].len() <= width {
        lemma_take_line_fits(cur + seq![' '] + rest[0], rest.drop_first(), width);
    }
}

/// No whitespace stands in any word of a word sequence taken from a text.
pub open spec fn ws_free(words: Seq<Seq<char>>) -> bool {
    forall|k: int, i: int|
        0 <= k < words.len() && 0 <= i < words[k].len() ==> !is_ws_char(#[trigger] words[k][i])
}

proof fn lemma_pack_lines_fit(words: Seq<Seq<char>>, width: int)
    requires
        ws_free(words),
    ensures
        forall|i: int|
            0 <= i < pack_words(words, width).len() ==> {
                let l = #[trigger] pack_words(words, width)[i];
                l.len() <= width || forall|c: int| 0 <= c < l.len() ==> !is_ws_char(#[trigger] l[c])
            },
    decreases words.len(),
{
    if words.len() > 0 {
        let taken = take_line(words[0], words.drop_first(), width);
        lemma_take_line_fits(words[0], words.drop_first(), width);
        lemma_take_line_rest(words[0], words.drop_first(), width);
        let k0 = choose|k: int|
            0 <= k <= words.drop_first().len() && taken.1 == words.drop_first().skip(k);
        assert(ws_free(taken.1)) by {
            assert forall|k: int, i: int|
                0 <= k < taken.1.len() && 0 <= i < taken.1[k].len() implies !is_ws_char(
                #[trigger] taken.1[k][i],
            ) by {
                assert(taken.1[k] == words.drop_first()[k0 + k]);
                assert(words.drop_first()[k0 + k] == words[k0 + k + 1]);
            }
        }
        lemma_pack_lines_fit(taken.1, width);
        assert forall|i: int| 0 <= i < pack_words(words, width).len() implies {
            let l = #[trigger] pack_words(words, width)[i];
            l.len() <= width || forall|c: int| 0 <= c < l.len() ==> !is_ws_char(#[trigger] l[c])
        } by {
            if i == 0 {
                assert(pack_words(words, width)[0] == taken.0);
                if taken.0.len() > width {
                    assert(taken.0 == words[0]);
                }
            } else {
                assert(pack_words(words, width)[i] == pack_words(taken.1, width)[i - 1]);
            }
        }
    }
}

proof fn lemma_wrap_from_fits(ps: Seq<Seq<char>>, i: int, width: int)
    requires
        width >= 0,
    ensures
        forall|q: int|
            0 <= q < wrap_from(ps, i, width).len() ==> {
                let l = #[trigger] wrap_from(ps, i, width)[q];
                l.len() <= width || forall|c: int| 0 <= c < l.len() ==> !is_ws_char(#[trigger] l[c])
            },
    decreases ps.len() - i,
{
    if 0 <= i < ps.len() {
        lemma_words_no_ws(ps[i]);
        lemma_pack_lines_fit(words_of(ps[i]), width);
        let head = pack_words(words_of(ps[i]), width);
        if i + 1 < ps.len() {
            lemma_wrap_from_fits(ps, i + 1, width);
            assert forall|q: int| 0 <= q < wrap_from(ps, i, width).len() implies {
                let l = #[trigger] wrap_from(ps, i, width)[q];
                l.len() <= width || forall|c: int| 0 <= c < l.len() ==> !is_ws_char(
                    #[trigger] l[c],
                )
            } by {
                if q < head.len() {
                    assert(wrap_from(ps, i, width)[q] == head[q]);
                } else if q == head.len() {
                    assert(wrap_from(ps, i, width)[q] =~= Seq::<char>::empty());
                } else {
                    assert(wrap_from(ps, i, width)[q] == wrap_from(ps, i + 1, width)[q - head.len()
                        - 1]);
                }
            }
        } else {
            assert forall|q: int| 0 <= q < wrap_from(ps, i, width).len() implies {
                let l = #[trigger] wrap_from(ps, i, width)[q];
                l.len() <= width || forall|c: int| 0 <= c < l.len() ==> !is_ws_char(
                    #[trigger] l[c],
                )
            } by {
                assert(wrap_from(ps, i, width) =~= head + Seq::<Seq<char>>::empty());
                assert(wrap_from(ps, i, width)[q] == head[q]);
            }
        }
    }
}

/// Every display line of the wrapped window fits the width, unless it is a
/// single word (it holds no whitespace at all) that alone exceeds the width.
pub proof fn lemma_wrap_line_width(ps: Seq<Seq<char>>, start: int, width: int, height: int)
    requires
        width >= 0,
    ensures
        forall|q: int|
            0 <= q < spec_wrap_window(ps, start, width, height).len() ==> {
                let l = #[trigger] spec_wrap_window(ps, start, width, height)[q];
                l.len() <= width || forall|c: int| 0 <= c < l.len() ==> !is_ws_char(#[trigger] l[c])
            },
{
    lemma_wrap_from_fits(ps, start, width);
    let full = wrap_from(ps, start, width);
    assert forall|q: int| 0 <= q < spec_wrap_window(ps, start, width, height).len() implies {
        let l = #[trigger] spec_wrap_window(ps, start, width, height)[q];
        l.len() <= width || forall|c: int| 0 <= c < l.len() ==> !is_ws_char(#[trigger] l[c])
    } by {
        assert(spec_wrap_window(ps, start, width, height)[q] == full[q]);
    }
}

} // verus!
