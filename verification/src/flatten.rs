//! Flattening a chapter-body subtree into reader-friendly paragraphs: runs of
//! text nodes are joined, and blank text nodes act as paragraph separators
//! without ever producing empty paragraphs.

use vstd::prelude::*;

use crate::dom::DomNode;
use crate::text::{is_blank, str_is_blank};

verus! {

/// How one text node changes the paragraph accumulator: blank text starts a
/// new paragraph (only when the current one is non-empty), other text extends
/// the current paragraph, opening one first when none exists.
pub open spec fn flatten_step(acc: Seq<Seq<char>>, text: Seq<char>) -> Seq<Seq<char>> {
    if is_blank(text) {
        if acc.len() > 0 && acc.last().len() > 0 {
            acc.push(Seq::empty())
        } else {
            acc
        }
    } else {
        if acc.len() == 0 {
            acc.push(text)
        } else {
            acc.update(acc.len() - 1, acc.last() + text)
        }
    }
}

/// The paragraph accumulator after walking a subtree depth-first.
pub open spec fn spec_flatten(n: DomNode, acc: Seq<Seq<char>>) -> Seq<Seq<char>>
    decreases n,
{
    match n {
        DomNode::Text { text } => flatten_step(acc, text@),
        DomNode::Comment => acc,
        DomNode::Element { children, .. } => spec_flatten_nodes(children@, 0, acc),
    }
}

/// The paragraph accumulator after walking the subtrees from position `i` on.
pub open spec fn spec_flatten_nodes(nodes: Seq<DomNode>, i: int, acc: Seq<Seq<char>>) -> Seq<
    Seq<char>,
>
    decreases nodes, nodes.len() - i,
{
    if i < 0 || i >= nodes.len() {
        acc
    } else {
        spec_flatten_nodes(nodes, i + 1, spec_flatten(nodes[i], acc))
    }
}

/// The paragraphs of a subtree: the accumulator from an empty start, with a
/// trailing empty paragraph (left by a final separator) removed.
pub open spec fn flatten_of(n: DomNode) -> Seq<Seq<char>> {
    let raw = spec_flatten(n, Seq::empty());
    if raw.len() > 0 && raw.last().len() == 0 {
        raw.drop_last()
    } else {
        raw
    }
}

#[verifier::loop_isolation(false)]
fn flatten_into(n: &DomNode, content: &mut Vec<String>)
    ensures
        final(content).deep_view() == spec_flatten(*n, old(content).deep_view()),
    decreases *n,
{
    match n {
        DomNode::Text { text } => {
            let ghost acc = content.deep_view();
            if str_is_blank(text.as_str()) {
                let len = content.len();
                if len > 0 && !content[len - 1].as_str().is_empty() {
                    content.push(String::new());
                    proof {
                        assert(content.deep_view() =~= acc.push(Seq::empty()));
                    }
                } else {
                    proof {
                        if len > 0 {
                            assert(acc.last() == content@[len - 1]@);
                        }
                        assert(content.deep_view() =~= flatten_step(acc, text@));
                    }
                }
            } else {
                let len = content.len();
                if len == 0 {
                    content.push(text.clone());
                    proof {
                        assert(content.deep_view() =~= acc.push(text@));
                    }
                } else {
                    let mut last = match content.pop() {
                        Some(s) => s,
                        None => String::new(),
                    };
                    last.append(text.as_str());
                    content.push(last);
                    proof {
                        assert(content.deep_view() =~= acc.update(
                            acc.len() - 1,
                            acc.last() + text@,
                        ));
                    }
                }
            }
        },
        DomNode::Comment => {},
        DomNode::Element { children, .. } => {
            let ghost acc = content.deep_view();
            let n_children = children.len();
            let mut i: usize = 0;
            while i < n_children
                invariant
                    i <= n_children,
                    spec_flatten_nodes(children@, 0, acc) == spec_flatten_nodes(
                        children@,
                        i as int,
                        content.deep_view(),
                    ),
                decreases n_children - i,
            {
                proof {
                    assert(decreases_to!(*n => *children));
                    assert(decreases_to!(*children => children@));
                    assert(decreases_to!(children@ => children@[i as int]));
                }
                flatten_into(&children[i], content);
                i += 1;
            }
        },
    }
}

impl DomNode {
    /// The ordered paragraphs of this subtree.
    pub fn flatten_content(&self) -> (r: Vec<String>)
        ensures
            r.deep_view() == flatten_of(*self),
    {
        let mut content: Vec<String> = Vec::new();
        proof {
            assert(content.deep_view() =~= Seq::<Seq<char>>::empty());
        }
        flatten_into(self, &mut content);
        let len = content.len();
        if len > 0 && content[len - 1].as_str().is_empty() {
            let ghost before = content.deep_view();
            let _trailing = content.pop();
            proof {
                assert(before.last() == before[len - 1]);
                assert(content.deep_view() =~= before.drop_last());
            }
        }
        content
    }
}

// ---------------------------------------------------------------------------
// Laws
// ---------------------------------------------------------------------------

/// Every paragraph of the accumulator but the last is non-empty.
pub open spec fn all_but_last_nonempty(s: Seq<Seq<char>>) -> bool {
    forall|i: int| 0 <= i < s.len() - 1 ==> #[trigger] s[i].len() > 0
}

proof fn lemma_step_keeps_nonempty(acc: Seq<Seq<char>>, text: Seq<char>)
    requires
        all_but_last_nonempty(acc),
    ensures
        all_but_last_nonempty(flatten_step(acc, text)),
{
    let out = flatten_step(acc, text);
    if is_blank(text) {
        if acc.len() > 0 && acc.last().len() > 0 {
            assert forall|i: int| 0 <= i < out.len() - 1 implies #[trigger] out[i].len() > 0 by {
                assert(out[i] == acc[i]);
                if i == acc.len() - 1 {
                    assert(acc[i] == acc.last());
                }
            }
        }
    } else {
        if acc.len() == 0 {
        } else {
            assert forall|i: int| 0 <= i < out.len() - 1 implies #[trigger] out[i].len() > 0 by {
                assert(out[i] == acc[i]);
            }
        }
    }
}

proof fn lemma_flatten_keeps_nonempty(n: DomNode, acc: Seq<Seq<char>>)
    requires
        all_but_last_nonempty(acc),
    ensures
        all_but_last_nonempty(spec_flatten(n, acc)),
    decreases n,
{
    match n {
        DomNode::Text { text } => {
            lemma_step_keeps_nonempty(acc, text@);
        },
        DomNode::Comment => {},
        DomNode::Element { children, .. } => {
            lemma_flatten_nodes_keeps_nonempty(children@, 0, acc);
        },
    }
}

proof fn lemma_flatten_nodes_keeps_nonempty(nodes: Seq<DomNode>, i: int, acc: Seq<Seq<char>>)
    requires
        all_but_last_nonempty(acc),
    ensures
        all_but_last_nonempty(spec_flatten_nodes(nodes, i, acc)),
    decreases nodes, nodes.len() - i,
{
    if 0 <= i < nodes.len() {
        lemma_flatten_keeps_nonempty(nodes[i], acc);
        lemma_flatten_nodes_keeps_nonempty(nodes, i + 1, spec_flatten(nodes[i], acc));
    }
}

/// Flattening never yields an empty paragraph: in particular the output never
/// begins or ends with one, and never holds two in a row.
pub proof fn lemma_flatten_no_empty_paragraphs(n: DomNode)
    ensures
        forall|i: int| 0 <= i < flatten_of(n).len() ==> #[trigger] flatten_of(n)[i].len() > 0,
{
    lemma_flatten_keeps_nonempty(n, Seq::empty());
    let raw = spec_flatten(n, Seq::empty());
    let out = flatten_of(n);
    assert forall|i: int| 0 <= i < out.len() implies #[trigger] out[i].len() > 0 by {
        if raw.len() > 0 && raw.last().len() == 0 {
            assert(out[i] == raw[i]);
        } else {
            assert(out[i] == raw[i]);
            if i == raw.len() - 1 {
                assert(raw[i] == raw.last());
            }
        }
    }
}

/// Whether every text node of a subtree is blank.
pub open spec fn all_blank(n: DomNode) -> bool
    decreases n,
{
    match n {
        DomNode::Text { text } => is_blank(text@),
        DomNode::Comment => true,
        DomNode::Element { children, .. } => all_blank_nodes(children@, 0),
    }
}

pub open spec fn all_blank_nodes(nodes: Seq<DomNode>, i: int) -> bool
    decreases nodes, nodes.len() - i,
{
    if i < 0 || i >= nodes.len() {
        true
    } else {
        all_blank(nodes[i]) && all_blank_nodes(nodes, i + 1)
    }
}

proof fn lemma_flatten_blank_unchanged(n: DomNode, acc: Seq<Seq<char>>)
    requires
        all_blank(n),
        acc.len() == 0,
    ensures
        spec_flatten(n, acc) == acc,
    decreases n,
{
    match n {
        DomNode::Text { text } => {},
        DomNode::Comment => {},
        DomNode::Element { children, .. } => {
            lemma_flatten_nodes_blank_unchanged(children@, 0, acc);
        },
    }
}

proof fn lemma_flatten_nodes_blank_unchanged(nodes: Seq<DomNode>, i: int, acc: Seq<Seq<char>>)
    requires
        all_blank_nodes(nodes, i),
        acc.len() == 0,
    ensures
        spec_flatten_nodes(nodes, i, acc) == acc,
    decreases nodes, nodes.len() - i,
{
    if 0 <= i < nodes.len() {
        lemma_flatten_blank_unchanged(nodes[i], acc);
        lemma_flatten_nodes_blank_unchanged(nodes, i + 1, spec_flatten(nodes[i], acc));
    }
}

/// A subtree whose text is all blank flattens to no paragraphs at all.
pub proof fn lemma_flatten_all_blank(n: DomNode)
    requires
        all_blank(n),
    ensures
        flatten_of(n).len() == 0,
{
    lemma_flatten_blank_unchanged(n, Seq::empty());
}

} // verus!
