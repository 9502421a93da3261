//! Persisting the tracked-fiction list: the ids are written one per line in
//! decimal, and read back by parsing each line, skipping lines that fail.

use vstd::prelude::*;

use crate::api::Fiction;
use crate::text::{dec_of, is_digit_char, parse_usize_spec};
use crate::text::{fmt_usize, parse_usize};
use crate::text::{lemma_dec_of_digits, lemma_dec_round_trip};

verus! {

// ---------------------------------------------------------------------------
// Serializing
// ---------------------------------------------------------------------------

/// The text of the ids from position `i` on, separated by single newlines.
pub open spec fn ids_text_spec(ids: Seq<usize>, i: int) -> Seq<char>
    decreases ids.len() - i,
{
    if i < 0 || i >= ids.len() {
        Seq::empty()
    } else if i == ids.len() - 1 {
        dec_of(ids[i] as nat)
    } else {
        dec_of(ids[i] as nat) + seq!['\n'] + ids_text_spec(ids, i + 1)
    }
}

/// The ids of a fiction list, in order.
pub open spec fn ids_of(fictions: Seq<Fiction>) -> Seq<usize> {
    fictions.map_values(|f: Fiction| f.id)
}

/// Render ids as newline-separated decimal lines.
#[verifier::loop_isolation(false)]
pub fn render_ids(ids: &Vec<usize>) -> (r: String)
    ensures
        r@ == ids_text_spec(ids@, 0),
{
    let mut out = String::new();
    let n = ids.len();
    let mut i: usize = 0;
    proof {
        reveal_strlit("\n");
        assert(out@ + ids_text_spec(ids@, 0) =~= ids_text_spec(ids@, 0));
    }
    while i < n
        invariant
            i <= n,
            out@ + ids_text_spec(ids@, i as int) =~= ids_text_spec(ids@, 0),
        decreases n - i,
    {
        let d = fmt_usize(ids[i]);
        out.append(d.as_str());
        if i + 1 < n {
            out.append("\n");
            proof {
                assert("\n"@ =~= seq!['\n']);
            }
        }
        proof {
            if i + 1 < n {
                assert(ids_text_spec(ids@, i as int) =~= dec_of(ids@[i as int] as nat)
                    + seq!['\n'] + ids_text_spec(ids@, i as int + 1));
            }
            assert(out@ + ids_text_spec(ids@, i as int + 1) =~= ids_text_spec(ids@, 0));
        }
        i += 1;
    }
    proof {
        assert(ids_text_spec(ids@, n as int) =~= Seq::<char>::empty());
        assert(out@ =~= ids_text_spec(ids@, 0));
    }
    out
}

impl Fiction {
    /// The file text that saves the ids of these fictions, one per line.
    pub fn ids_text(fictions: &Vec<Fiction>) -> (r: String)
        ensures
            r@ == ids_text_spec(ids_of(fictions@), 0),
    {
        let mut ids: Vec<usize> = Vec::new();
        let n = fictions.len();
        let mut i: usize = 0;
        while i < n
            invariant
                i <= n,
                n == fictions@.len(),
                ids@ =~= ids_of(fictions@).take(i as int),
            decreases n - i,
        {
            ids.push(fictions[i].id);
            proof {
                assert(ids@ =~= ids_of(fictions@).take(i as int + 1));
            }
            i += 1;
        }
        proof {
            assert(ids_of(fictions@).take(n as int) =~= ids_of(fictions@));
        }
        render_ids(&ids)
    }
}

// ---------------------------------------------------------------------------
// Splitting into lines
// ---------------------------------------------------------------------------

/// Length of the first line: the characters before the first newline.
pub open spec fn line_len(s: Seq<char>) -> int
    decreases s.len(),
{
    if s.len() == 0 || s[0] == '\n' {
        0
    } else {
        1 + line_len(s.drop_first())
    }
}

/// The lines of a text: the segments between newlines (one more segment than
/// there are newlines, as splitting does).
pub open spec fn split_lines(s: Seq<char>) -> Seq<Seq<char>>
    decreases s.len(),
    via split_lines_decreases
{
    if line_len(s) == s.len() {
        seq![s]
    } else {
        seq![s.take(line_len(s))] + split_lines(s.skip(line_len(s) + 1))
    }
}

proof fn lemma_line_len_bounds(s: Seq<char>)
    ensures
        0 <= line_len(s) <= s.len(),
        forall|i: int| 0 <= i < line_len(s) ==> #[trigger] s[i] != '\n',
        line_len(s) < s.len() ==> s[line_len(s)] == '\n',
    decreases s.len(),
{
    if s.len() > 0 && s[0] != '\n' {
        let t = s.drop_first();
        lemma_line_len_bounds(t);
        assert forall|i: int| 0 <= i < line_len(s) implies #[trigger] s[i] != '\n' by {
            if i > 0 {
                assert(s[i] == t[i - 1]);
            }
        }
        if line_len(s) < s.len() {
            assert(s[line_len(s)] == t[line_len(t)]);
        }
    }
}

#[via_fn]
proof fn split_lines_decreases(s: Seq<char>) {
    lemma_line_len_bounds(s);
}

proof fn lemma_line_len_unique(s: Seq<char>, k: int)
    requires
        0 <= k <= s.len(),
        forall|i: int| 0 <= i < k ==> #[trigger] s[i] != '\n',
        k < s.len() ==> s[k] == '\n',
    ensures
        line_len(s) == k,
    decreases s.len(),
{
    if s.len() == 0 {
    } else if k == 0 {
    } else {
        lemma_line_len_unique(s.drop_first(), k - 1);
    }
}

/// Split a text at newlines.
#[verifier::loop_isolation(false)]
pub fn split_into_lines(s: &str) -> (r: Vec<String>)
    ensures
        r.deep_view() == split_lines(s@),
{
    let n = s.unicode_len();
    let mut out: Vec<String> = Vec::new();
    let mut start: usize = 0;
    proof {
        assert(s@.skip(0) =~= s@);
        assert(out.deep_view() =~= Seq::<Seq<char>>::empty());
    }
    loop
        invariant
            start <= n,
            n == s@.len(),
            split_lines(s@) =~= out.deep_view() + split_lines(s@.skip(start as int)),
        decreases n - start,
    {
        let mut j = start;
        while j < n && s.get_char(j) != '\n'
            invariant
                start <= j <= n,
                forall|k: int| start <= k < j ==> #[trigger] s@[k] != '\n',
            decreases n - j,
        {
            j += 1;
        }
        let piece = s.substring_char(start, j).to_owned();
        let ghost tail = s@.skip(start as int);
        proof {
            assert forall|k: int| 0 <= k < j - start implies #[trigger] tail[k] != '\n' by {
                assert(tail[k] == s@[start + k]);
            }
            if j < n {
                assert(tail[j - start] == s@[j as int]);
            }
            lemma_line_len_unique(tail, j - start);
            assert(tail.take(j - start) =~= s@.subrange(start as int, j as int));
        }
        let ghost old_dv = out.deep_view();
        out.push(piece);
        proof {
            assert(out.deep_view() =~= old_dv.push(s@.subrange(start as int, j as int)));
        }
        if j == n {
            proof {
                assert(line_len(tail) == tail.len());
                assert(split_lines(tail) =~= seq![tail]);
                assert(tail.take(j - start) =~= tail);
                assert(out.deep_view() =~= old_dv + seq![tail]);
            }
            break;
        }
        proof {
            assert(line_len(tail) == j - start);
            assert(tail.skip(line_len(tail) + 1) =~= s@.skip(j + 1));
            assert(split_lines(tail) =~= seq![tail.take(j - start)] + split_lines(s@.skip(j + 1)));
            assert(out.deep_view() + split_lines(s@.skip(j + 1)) =~= old_dv + split_lines(tail));
        }
        start = j + 1;
    }
    out
}

// ---------------------------------------------------------------------------
// Loading
// ---------------------------------------------------------------------------

/// The ids parsed from the lines from position `i` on, skipping lines that
/// fail to parse.
pub open spec fn parse_lines(parts: Seq<Seq<char>>, i: int) -> Seq<usize>
    decreases parts.len() - i,
{
    if i < 0 || i >= parts.len() {
        Seq::empty()
    } else {
        (match parse_usize_spec(parts[i]) {
            Some(v) => seq![v],
            None => Seq::empty(),
        }) + parse_lines(parts, i + 1)
    }
}

/// What loading a saved id file yields.
pub open spec fn loaded_ids(s: Seq<char>) -> Seq<usize> {
    parse_lines(split_lines(s), 0)
}

/// Parse a saved id file: one decimal id per line, skipping bad lines.
#[verifier::loop_isolation(false)]
pub fn parse_ids(s: &str) -> (r: Vec<usize>)
    ensures
        r@ == loaded_ids(s@),
{
    let lines = split_into_lines(s);
    let mut out: Vec<usize> = Vec::new();
    let n = lines.len();
    let mut i: usize = 0;
    proof {
        assert(out@ + parse_lines(lines.deep_view(), 0) =~= parse_lines(lines.deep_view(), 0));
    }
    while i < n
        invariant
            i <= n,
            out@ + parse_lines(lines.deep_view(), i as int) =~= parse_lines(
                lines.deep_view(),
                0,
            ),
        decreases n - i,
    {
        proof {
            assert(lines.deep_view()[i as int] == lines@[i as int]@);
        }
        match parse_usize(lines[i].as_str()) {
            Some(v) => {
                out.push(v);
            },
            None => {},
        }
        proof {
            assert(out@ + parse_lines(lines.deep_view(), i as int + 1) =~= parse_lines(
                lines.deep_view(),
                0,
            ));
        }
        i += 1;
    }
    proof {
        assert(parse_lines(lines.deep_view(), n as int) =~= Seq::<usize>::empty());
        assert(out@ =~= parse_lines(lines.deep_view(), 0));
    }
    out
}

// ---------------------------------------------------------------------------
// Round trip
// ---------------------------------------------------------------------------

proof fn lemma_parse_lines_shift(x: Seq<char>, parts: Seq<Seq<char>>, i: int)
    requires
        0 <= i <= parts.len(),
    ensures
        parse_lines(seq![x] + parts, i + 1) == parse_lines(parts, i),
    decreases parts.len() - i,
{
    let c = seq![x] + parts;
    if i < parts.len() {
        assert(c[i + 1] == parts[i]);
        lemma_parse_lines_shift(x, parts, i + 1);
    }
}

/// The decimal line of one id never holds a newline.
proof fn lemma_dec_no_newline(a: nat)
    ensures
        forall|i: int| 0 <= i < dec_of(a).len() ==> #[trigger] dec_of(a)[i] != '\n',
{
    lemma_dec_of_digits(a);
    assert forall|i: int| 0 <= i < dec_of(a).len() implies #[trigger] dec_of(a)[i] != '\n' by {
        assert(is_digit_char(dec_of(a)[i]));
    }
}

proof fn lemma_round_trip_from(ids: Seq<usize>, i: int)
    requires
        0 <= i <= ids.len(),
    ensures
        parse_lines(split_lines(ids_text_spec(ids, i)), 0) == ids.skip(i),
    decreases ids.len() - i,
{
    let text = ids_text_spec(ids, i);
    if i >= ids.len() {
        assert(line_len(text) == 0);
        assert(split_lines(text) =~= seq![text]);
        assert(parse_usize_spec(text) is None);
        assert(parse_lines(split_lines(text), 1) =~= Seq::<usize>::empty());
        assert(parse_lines(split_lines(text), 0) =~= Seq::<usize>::empty());
        assert(ids.skip(i) =~= Seq::<usize>::empty());
    } else {
        let a = ids[i] as nat;
        let d = dec_of(a);
        lemma_dec_of_digits(a);
        lemma_dec_round_trip(a);
        lemma_dec_no_newline(a);
        if i == ids.len() - 1 {
            assert(text == d);
            lemma_line_len_unique(text, d.len() as int);
            assert(split_lines(text) =~= seq![text]);
            assert(parse_usize_spec(d) == Some(ids[i]));
            assert(parse_lines(split_lines(text), 1) =~= Seq::<usize>::empty());
            assert(parse_lines(split_lines(text), 0) =~= seq![ids[i]]);
            assert(ids.skip(i) =~= seq![ids[i]]);
        } else {
            let rest = ids_text_spec(ids, i + 1);
            assert(text == d + seq!['\n'] + rest);
            assert forall|k: int| 0 <= k < d.len() implies #[trigger] text[k] != '\n' by {
                assert(text[k] == d[k]);
            }
            assert(text[d.len() as int] == '\n');
            lemma_line_len_unique(text, d.len() as int);
            assert(text.take(d.len() as int) =~= d);
            assert(text.skip(d.len() as int + 1) =~= rest);
            assert(split_lines(text) =~= seq![d] + split_lines(rest));
            lemma_round_trip_from(ids, i + 1);
            lemma_parse_lines_shift(d, split_lines(rest), 0);
            assert(parse_usize_spec(d) == Some(ids[i]));
            assert(parse_lines(split_lines(text), 0) =~= seq![ids[i]] + parse_lines(
                split_lines(rest),
                0,
            ));
            assert(seq![ids[i]] + ids.skip(i + 1) =~= ids.skip(i));
        }
    }
}

/// Loading a saved id file gives back exactly the ids that were saved.
pub proof fn lemma_save_load_round_trip(ids: Seq<usize>)
    ensures
        loaded_ids(ids_text_spec(ids, 0)) == ids,
{
    lemma_round_trip_from(ids, 0);
    assert(ids.skip(0) =~= ids);
}

} // verus!
