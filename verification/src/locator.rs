//! Locating a JSON array embedded in free-form script text: find a marker
//! substring, then isolate the shortest well-bracketed array that begins at
//! the first `[` after it, by depth counting.

use vstd::prelude::*;

use crate::errors::ExtractionError;

verus! {

// ---------------------------------------------------------------------------
// Marker search
// ---------------------------------------------------------------------------

/// Whether the marker occurs in `s` at position `i`.
pub open spec fn match_at(s: Seq<char>, m: Seq<char>, i: int) -> bool {
    0 <= i && i + m.len() <= s.len() && s.subrange(i, i + m.len()) == m
}

/// The first position at or after `i` where the marker occurs.
pub open spec fn find_from(s: Seq<char>, m: Seq<char>, i: int) -> Option<int>
    decreases s.len() - i + 1,
{
    if i < 0 || i + m.len() > s.len() {
        None
    } else if match_at(s, m, i) {
        Some(i)
    } else {
        find_from(s, m, i + 1)
    }
}

/// Whether the marker occurs anywhere in `s`.
pub open spec fn contains_marker(s: Seq<char>, m: Seq<char>) -> bool {
    find_from(s, m, 0) is Some
}

#[verifier::loop_isolation(false)]
fn is_match_at(s: &str, m: &str, i: usize) -> (r: bool)
    requires
        i + m@.len() <= s@.len(),
        s@.len() <= usize::MAX,
    ensures
        r == match_at(s@, m@, i as int),
{
    let mlen = m.unicode_len();
    let mut j: usize = 0;
    while j < mlen
        invariant
            j <= mlen,
            mlen == m@.len(),
            i + mlen <= s@.len(),
            forall|k: int| 0 <= k < j ==> s@[i + k] == m@[k],
        decreases mlen - j,
    {
        if s.get_char(i + j) != m.get_char(j) {
            proof {
                let sub = s@.subrange(i as int, i + m@.len());
                assert(sub[j as int] == s@[i + j]);
                assert(sub != m@);
            }
            return false;
        }
        j += 1;
    }
    proof {
        assert(s@.subrange(i as int, i + m@.len()) =~= m@);
    }
    true
}

/// The first occurrence of the marker in `s`, scanning left to right.
#[verifier::loop_isolation(false)]
pub fn find_marker(s: &str, m: &str) -> (r: Option<usize>)
    ensures
        match find_from(s@, m@, 0) {
            Some(p) => r is Some && r->0 == p,
            None => r is None,
        },
{
    let n = s.unicode_len();
    let mlen = m.unicode_len();
    if mlen > n {
        return None;
    }
    let mut i: usize = 0;
    while i <= n - mlen
        invariant
            i <= n - mlen + 1,
            mlen <= n,
            n == s@.len(),
            mlen == m@.len(),
            find_from(s@, m@, 0) == find_from(s@, m@, i as int),
        decreases n - i,
    {
        if is_match_at(s, m, i) {
            return Some(i);
        }
        proof {
            if mlen == 0 {
                assert(s@.subrange(i as int, i as int) =~= m@);
                assert(match_at(s@, m@, i as int));
            }
        }
        i += 1;
    }
    None
}

// ---------------------------------------------------------------------------
// Bracket-depth scan
// ---------------------------------------------------------------------------

/// How one character changes the bracket depth.
pub open spec fn bracket_delta(c: char) -> int {
    if c == '[' {
        1
    } else if c == ']' {
        -1
    } else {
        0
    }
}

/// The bracket depth accumulated over a whole text.
pub open spec fn depth_of(t: Seq<char>) -> int
    decreases t.len(),
{
    if t.len() == 0 {
        0
    } else {
        depth_of(t.drop_last()) + bracket_delta(t.last())
    }
}

/// The first `[` at or after position `i`.
pub open spec fn lbracket_from(s: Seq<char>, i: int) -> Option<int>
    decreases s.len() - i,
{
    if i < 0 || i >= s.len() {
        None
    } else if s[i] == '[' {
        Some(i)
    } else {
        lbracket_from(s, i + 1)
    }
}

/// The first position at or after `i` where the depth, starting from `depth`,
/// returns to zero after processing that position's character.
pub open spec fn close_from(s: Seq<char>, i: int, depth: int) -> Option<int>
    decreases s.len() - i,
{
    if i < 0 || i >= s.len() {
        None
    } else {
        let d = depth + bracket_delta(s[i]);
        if d == 0 {
            Some(i)
        } else {
            close_from(s, i + 1, d)
        }
    }
}

/// What locating the embedded array in `s` after marker `m` yields: the
/// substring from the first `[` after the marker through the character that
/// brings the depth back to zero.
pub open spec fn spec_locate(s: Seq<char>, m: Seq<char>) -> Result<Seq<char>, ExtractionError> {
    match find_from(s, m, 0) {
        None => Err(ExtractionError::MarkerNotFound),
        Some(mi) => match lbracket_from(s, mi + m.len()) {
            None => Err(ExtractionError::UnbalancedBrackets),
            Some(b) => match close_from(s, b, 0) {
                None => Err(ExtractionError::UnbalancedBrackets),
                Some(c) => Ok(s.subrange(b, c + 1)),
            },
        },
    }
}

/// Isolate the embedded JSON array that follows the first occurrence of the
/// marker: the shortest well-bracketed substring starting at the first `[`
/// after the marker. Fails with `MarkerNotFound` when the marker is absent,
/// and with `UnbalancedBrackets` when no `[` follows it or the depth never
/// returns to zero.
/// A found marker occurrence really is one.
proof fn lemma_find_from_match(s: Seq<char>, m: Seq<char>, i: int)
    requires
        find_from(s, m, i) is Some,
    ensures
        match_at(s, m, find_from(s, m, i)->0),
        find_from(s, m, i)->0 >= i,
    decreases s.len() - i + 1,
{
    if !(i < 0 || i + m.len() > s.len()) && !match_at(s, m, i) {
        lemma_find_from_match(s, m, i + 1);
    }
}

#[verifier::loop_isolation(false)]
pub fn locate_embedded_array(text: &str, marker: &str) -> (r: Result<String, ExtractionError>)
    ensures
        match spec_locate(text@, marker@) {
            Ok(t) => r is Ok && r->Ok_0@ == t,
            Err(e) => r is Err && r->Err_0 == e,
        },
{
    let n = text.unicode_len();
    let mi = match find_marker(text, marker) {
        Some(p) => p,
        None => {
            return Err(ExtractionError::MarkerNotFound);
        },
    };
    proof {
        lemma_find_from_match(text@, marker@, 0);
    }
    // The marker occurs at mi, so mi + its length stays within the text.
    let e = mi + marker.unicode_len();
    let mut k: usize = e;
    while k < n && text.get_char(k) != '['
        invariant
            e <= k <= n,
            lbracket_from(text@, e as int) == lbracket_from(text@, k as int),
        decreases n - k,
    {
        k += 1;
    }
    if k == n {
        return Err(ExtractionError::UnbalancedBrackets);
    }
    let b = k;
    let mut depth: usize = 0;
    let mut j: usize = b;
    while j < n
        invariant
            b <= j <= n,
            b < n,
            text@[b as int] == '[',
            depth <= j - b,
            j == b ==> depth == 0,
            j > b ==> depth >= 1,
            close_from(text@, b as int, 0) == close_from(text@, j as int, depth as int),
        decreases n - j,
    {
        let c = text.get_char(j);
        let d: usize;
        if c == '[' {
            d = depth + 1;
        } else if c == ']' {
            proof {
                if j == b {
                    assert(c == '[');
                }
            }
            d = depth - 1;
        } else {
            proof {
                if j == b {
                    assert(c == '[');
                }
            }
            d = depth;
        }
        if d == 0 {
            let out = text.substring_char(b, j + 1);
            return Ok(out.to_owned());
        }
        depth = d;
        j += 1;
    }
    Err(ExtractionError::UnbalancedBrackets)
}

// ---------------------------------------------------------------------------
// Laws
// ---------------------------------------------------------------------------

/// Depth adds over concatenation.
proof fn lemma_depth_concat(a: Seq<char>, b: Seq<char>)
    ensures
        depth_of(a + b) == depth_of(a) + depth_of(b),
    decreases b.len(),
{
    if b.len() == 0 {
        assert(a + b =~= a);
    } else {
        lemma_depth_concat(a, b.drop_last());
        assert((a + b).drop_last() =~= a + b.drop_last());
        assert((a + b).last() == b.last());
    }
}

/// Where the scan closes: the depth over the scanned span is back to zero
/// there, and at no earlier position.
proof fn lemma_close_from_props(s: Seq<char>, i: int, d: int)
    requires
        0 <= i,
        close_from(s, i, d) is Some,
    ensures
        ({
            let c = close_from(s, i, d)->0;
            &&& i <= c < s.len()
            &&& d + depth_of(s.subrange(i, c + 1)) == 0
            &&& forall|k: int|
                i <= k < c ==> d + depth_of(#[trigger] s.subrange(i, k + 1)) != 0
        }),
    decreases s.len() - i,
{
    let c = close_from(s, i, d)->0;
    assert(i < s.len());
    let step = s.subrange(i, i + 1);
    assert(step.drop_last() =~= Seq::<char>::empty());
    assert(step.last() == s[i]);
    assert(depth_of(Seq::<char>::empty()) == 0);
    assert(depth_of(step) == bracket_delta(s[i]));
    let d2 = d + bracket_delta(s[i]);
    if d2 == 0 {
        assert(c == i);
    } else {
        lemma_close_from_props(s, i + 1, d2);
        assert forall|k: int| i <= k < c implies d + depth_of(#[trigger] s.subrange(i, k + 1))
            != 0 by {
            if k == i {
                assert(depth_of(s.subrange(i, i + 1)) == bracket_delta(s[i]));
            } else {
                assert(s.subrange(i, k + 1) =~= s.subrange(i, i + 1) + s.subrange(i + 1, k + 1));
                lemma_depth_concat(s.subrange(i, i + 1), s.subrange(i + 1, k + 1));
            }
        }
        assert(s.subrange(i, c + 1) =~= s.subrange(i, i + 1) + s.subrange(i + 1, c + 1));
        lemma_depth_concat(s.subrange(i, i + 1), s.subrange(i + 1, c + 1));
    }
}

/// A found `[` really is one.
proof fn lemma_lbracket_props(s: Seq<char>, i: int)
    requires
        lbracket_from(s, i) is Some,
    ensures
        ({
            let b = lbracket_from(s, i)->0;
            &&& i <= b < s.len()
            &&& s[b] == '['
        }),
    decreases s.len() - i,
{
    if !(i < 0 || i >= s.len()) && s[i] != '[' {
        lemma_lbracket_props(s, i + 1);
    }
}

/// The prefixes of the located array stay at positive depth strictly inside it.
proof fn lemma_prefix_positive(t: Seq<char>, k: int)
    requires
        t.len() > 0,
        t[0] == '[',
        forall|j: int| 0 < j < t.len() ==> depth_of(#[trigger] t.take(j)) != 0,
        0 < k < t.len(),
    ensures
        depth_of(t.take(k)) > 0,
    decreases k,
{
    if k == 1 {
        let p = t.take(1);
        assert(p.drop_last() =~= Seq::<char>::empty());
        assert(p.last() == t[0]);
        assert(depth_of(Seq::<char>::empty()) == 0);
        assert(depth_of(p) == 1);
    } else {
        lemma_prefix_positive(t, k - 1);
        let p = t.take(k);
        assert(p.drop_last() =~= t.take(k - 1));
        assert(p.last() == t[k - 1]);
        assert(depth_of(p) >= depth_of(t.take(k - 1)) - 1);
    }
}

/// On a text without the marker the locator fails with `MarkerNotFound`, and
/// only then.
pub proof fn lemma_locator_marker_not_found(s: Seq<char>, m: Seq<char>)
    ensures
        !contains_marker(s, m) <==> spec_locate(s, m) == Err::<Seq<char>, ExtractionError>(
            ExtractionError::MarkerNotFound,
        ),
{
}

/// What the locator returns is well bracketed: it begins with `[`, its depth
/// never goes negative and is strictly positive strictly inside, and it ends
/// exactly when the depth first returns to zero.
pub proof fn lemma_locator_balanced(s: Seq<char>, m: Seq<char>)
    requires
        spec_locate(s, m) is Ok,
    ensures
        ({
            let t = spec_locate(s, m)->Ok_0;
            &&& t.len() > 0
            &&& t[0] == '['
            &&& depth_of(t) == 0
            &&& forall|k: int| 0 < k < t.len() ==> depth_of(#[trigger] t.take(k)) > 0
            &&& forall|k: int| 0 <= k <= t.len() ==> depth_of(#[trigger] t.take(k)) >= 0
        }),
{
    let mi = find_from(s, m, 0)->0;
    let b = lbracket_from(s, mi + m.len())->0;
    let c = close_from(s, b, 0)->0;
    let t = spec_locate(s, m)->Ok_0;
    lemma_find_from_match(s, m, 0);
    lemma_lbracket_props(s, mi + m.len());
    lemma_close_from_props(s, b, 0);
    assert(t == s.subrange(b, c + 1));
    assert(t[0] == s[b]);
    assert(depth_of(t) == 0);
    assert forall|k: int| 0 < k < t.len() implies depth_of(#[trigger] t.take(k)) != 0 by {
        assert(t.take(k) =~= s.subrange(b, b + k));
        assert(depth_of(s.subrange(b, (b + k - 1) + 1)) != 0);
    }
    assert forall|k: int| 0 < k < t.len() implies depth_of(#[trigger] t.take(k)) > 0 by {
        lemma_prefix_positive(t, k);
    }
    assert forall|k: int| 0 <= k <= t.len() implies depth_of(#[trigger] t.take(k)) >= 0 by {
        if k == 0 {
            assert(t.take(0) =~= Seq::<char>::empty());
        } else if k == t.len() {
            assert(t.take(k) =~= t);
        } else {
            lemma_prefix_positive(t, k);
        }
    }
}

} // verus!
