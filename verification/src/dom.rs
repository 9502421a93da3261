//! A minimal parsed-document model: a tree of element, text and comment
//! nodes, with attribute lookup, descendant search by tag or class, combined
//! text, and traversal along a fixed child-index path.

use vstd::prelude::*;

use crate::text::words_of;

verus! {

/// One node of a parsed document.
#[derive(Debug)]
pub enum DomNode {
    /// An element, with its tag name, attributes in document order, and children.
    Element { tag: String, attrs: Vec<(String, String)>, children: Vec<DomNode> },
    /// A text node.
    Text { text: String },
    /// A comment (its content is never read).
    Comment,
}

/// What descendant search looks for: a tag name, or a class-attribute word.
#[derive(Debug)]
pub enum Selector {
    Tag(String),
    Class(String),
}

// ---------------------------------------------------------------------------
// String equality
// ---------------------------------------------------------------------------

/// Decide whether two texts hold the same characters.
pub fn str_eq(a: &str, b: &str) -> (r: bool)
    ensures
        r == (a@ == b@),
{
    let n = a.unicode_len();
    if n != b.unicode_len() {
        proof {
            assert(a@ != b@);
        }
        return false;
    }
    let mut i: usize = 0;
    while i < n
        invariant
            i <= n,
            n == a@.len() && n == b@.len(),
            forall|j: int| 0 <= j < i ==> a@[j] == b@[j],
        decreases n - i,
    {
        if a.get_char(i) != b.get_char(i) {
            return false;
        }
        i += 1;
    }
    proof {
        assert(a@ =~= b@);
    }
    true
}

// ---------------------------------------------------------------------------
// Attributes
// ---------------------------------------------------------------------------

/// The value of the first attribute named `name`, searching from position `i`.
pub open spec fn attr_lookup_from(
    attrs: Seq<(String, String)>,
    name: Seq<char>,
    i: int,
) -> Option<Seq<char>>
    decreases attrs.len() - i,
{
    if i < 0 || i >= attrs.len() {
        None
    } else if attrs[i].0@ == name {
        Some(attrs[i].1@)
    } else {
        attr_lookup_from(attrs, name, i + 1)
    }
}

/// The value of the attribute named `name` of a node, if the node is an
/// element that has one.
pub open spec fn spec_attr(n: DomNode, name: Seq<char>) -> Option<Seq<char>> {
    match n {
        DomNode::Element { attrs, .. } => attr_lookup_from(attrs@, name, 0),
        _ => None,
    }
}

impl DomNode {
    /// Look up an attribute by name, as the first attribute entry that carries it.
    #[verifier::loop_isolation(false)]
    pub fn attr<'a>(&'a self, name: &str) -> (r: Option<&'a String>)
        ensures
            match spec_attr(*self, name@) {
                Some(v) => r is Some && r->0@ == v,
                None => r is None,
            },
    {
        match self {
            DomNode::Element { attrs, .. } => {
                let mut i: usize = 0;
                let n = attrs.len();
                while i < n
                    invariant
                        i <= n,
                        n == attrs@.len(),
                        attr_lookup_from(attrs@, name@, 0) == attr_lookup_from(
                            attrs@,
                            name@,
                            i as int,
                        ),
                    decreases n - i,
                {
                    if str_eq(attrs[i].0.as_str(), name) {
                        proof {
                            assert(attr_lookup_from(attrs@, name@, i as int) == Some(
                                attrs@[i as int].1@,
                            ));
                        }
                        return Some(&attrs[i].1);
                    }
                    proof {
                        assert(attrs@[i as int].0@ != name@);
                    }
                    i += 1;
                }
                proof {
                    assert(attr_lookup_from(attrs@, name@, n as int) is None);
                }
                None
            },
            _ => None,
        }
    }
}

// ---------------------------------------------------------------------------
// Combined text
// ---------------------------------------------------------------------------

/// The combined text of a node: its own text, or the text of its children in order.
pub open spec fn text_of(n: DomNode) -> Seq<char>
    decreases n,
{
    match n {
        DomNode::Text { text } => text@,
        DomNode::Comment => Seq::empty(),
        DomNode::Element { children, .. } => text_of_nodes(children@, 0),
    }
}

/// The combined text of the nodes from position `i` on.
pub open spec fn text_of_nodes(nodes: Seq<DomNode>, i: int) -> Seq<char>
    decreases nodes, nodes.len() - i,
{
    if i < 0 || i >= nodes.len() {
        Seq::empty()
    } else {
        text_of(nodes[i]) + text_of_nodes(nodes, i + 1)
    }
}

#[verifier::loop_isolation(false)]
fn append_text(n: &DomNode, out: &mut String)
    ensures
        final(out)@ == old(out)@ + text_of(*n),
    decreases *n,
{
    match n {
        DomNode::Text { text } => {
            out.append(text.as_str());
        },
        DomNode::Comment => {
            proof {
                assert(old(out)@ + text_of(*n) =~= old(out)@);
            }
        },
        DomNode::Element { children, .. } => {
            let ghost start = out@;
            let n_children = children.len();
            let mut i: usize = 0;
            proof {
                assert(start + text_of_nodes(children@, 0) =~= start + text_of_nodes(
                    children@,
                    0,
                ));
            }
            while i < n_children
                invariant
                    i <= n_children,
                    n_children == children@.len(),
                    start + text_of_nodes(children@, 0) =~= out@ + text_of_nodes(
                        children@,
                        i as int,
                    ),
                decreases n_children - i,
            {
                let ghost before = out@;
                proof {
                    assert(decreases_to!(*n => *children));
                    assert(decreases_to!(*children => children@));
                    assert(decreases_to!(children@ => children@[i as int]));
                }
                append_text(&children[i], out);
                proof {
                    assert(before + (text_of(children@[i as int]) + text_of_nodes(
                        children@,
                        i as int + 1,
                    )) =~= out@ + text_of_nodes(children@, i as int + 1));
                }
                i += 1;
            }
            proof {
                assert(text_of_nodes(children@, n_children as int) =~= Seq::<char>::empty());
                assert(out@ + text_of_nodes(children@, n_children as int) =~= out@);
                assert(out@ =~= start + text_of(*n));
            }
        },
    }
}

impl DomNode {
    /// The combined text of this node and its descendants, in document order.
    pub fn node_text(&self) -> (r: String)
        ensures
            r@ == text_of(*self),
    {
        let mut out = String::new();
        append_text(self, &mut out);
        proof {
            assert(Seq::<char>::empty() + text_of(*self) =~= text_of(*self));
        }
        out
    }
}

// ---------------------------------------------------------------------------
// Descendant search
// ---------------------------------------------------------------------------

impl Selector {
    /// Whether this selector goes by tag name (else by class word).
    pub open spec fn by_tag(self) -> bool {
        self is Tag
    }

    /// The tag name or class word looked for.
    pub open spec fn sel_name(self) -> Seq<char> {
        match self {
            Selector::Tag(t) => t@,
            Selector::Class(c) => c@,
        }
    }
}

/// Whether a node is an element with the given tag name (`by_tag`) or with
/// `name` among the words of its class attribute.
pub open spec fn sel_matches_name(n: DomNode, by_tag: bool, name: Seq<char>) -> bool {
    match n {
        DomNode::Element { tag, attrs, .. } => {
            if by_tag {
                tag@ == name
            } else {
                match attr_lookup_from(attrs@, "class"@, 0) {
                    Some(v) => words_of(v).contains(name),
                    None => false,
                }
            }
        },
        _ => false,
    }
}

/// Whether a node is an element matched by the selector.
pub open spec fn sel_matches(n: DomNode, sel: Selector) -> bool {
    sel_matches_name(n, sel.by_tag(), sel.sel_name())
}

/// The matching nodes of a subtree, in document order (the node itself first).
pub open spec fn matches_in_name(n: DomNode, by_tag: bool, name: Seq<char>) -> Seq<DomNode>
    decreases n,
{
    match n {
        DomNode::Element { children, .. } => {
            let head: Seq<DomNode> = if sel_matches_name(n, by_tag, name) {
                seq![n]
            } else {
                Seq::empty()
            };
            head + matches_in_nodes(children@, 0, by_tag, name)
        },
        _ => Seq::empty(),
    }
}

/// The matching nodes of the subtrees of the nodes from position `i` on.
pub open spec fn matches_in_nodes(nodes: Seq<DomNode>, i: int, by_tag: bool, name: Seq<
    char,
>) -> Seq<DomNode>
    decreases nodes, nodes.len() - i,
{
    if i < 0 || i >= nodes.len() {
        Seq::empty()
    } else {
        matches_in_name(nodes[i], by_tag, name) + matches_in_nodes(nodes, i + 1, by_tag, name)
    }
}

/// The matching nodes of a subtree, by a selector value.
pub open spec fn matches_in(n: DomNode, sel: Selector) -> Seq<DomNode> {
    matches_in_name(n, sel.by_tag(), sel.sel_name())
}

/// The references of a node sequence, as values.
pub open spec fn deref_nodes(s: Seq<&DomNode>) -> Seq<DomNode> {
    s.map_values(|p: &DomNode| *p)
}

/// Decide whether the selector matches a node.
#[verifier::loop_isolation(false)]
pub fn matches_selector(n: &DomNode, sel: &Selector) -> (r: bool)
    ensures
        r == sel_matches(*n, *sel),
{
    match n {
        DomNode::Element { tag, attrs, .. } => match sel {
            Selector::Tag(t) => str_eq(tag.as_str(), t.as_str()),
            Selector::Class(c) => {
                let v = n.attr("class");
                match v {
                    Some(v) => {
                        let ws = crate::text::split_words(v.as_str());
                        let n_words = ws.len();
                        let mut i: usize = 0;
                        while i < n_words
                            invariant
                                i <= n_words,
                                n_words == ws.deep_view().len(),
                                ws.deep_view() == words_of(v@),
                                forall|j: int| 0 <= j < i ==> ws.deep_view()[j] != c@,
                            decreases n_words - i,
                        {
                            if str_eq(ws[i].as_str(), c.as_str()) {
                                proof {
                                    assert(ws.deep_view()[i as int] == ws@[i as int]@);
                                    assert(words_of(v@)[i as int] == c@);
                                    assert(words_of(v@).contains(c@));
                                    assert(spec_attr(*n, "class"@) == Some(v@));
                                    assert(sel_matches(*n, *sel));
                                }
                                return true;
                            }
                            proof {
                                assert(ws.deep_view()[i as int] == ws@[i as int]@);
                            }
                            i += 1;
                        }
                        proof {
                            assert(!words_of(v@).contains(c@));
                        }
                        false
                    },
                    None => false,
                }
            },
        },
        _ => false,
    }
}

#[verifier::loop_isolation(false)]
fn collect_matching<'a>(n: &'a DomNode, sel: &Selector, out: &mut Vec<&'a DomNode>)
    ensures
        deref_nodes(final(out)@) == deref_nodes(old(out)@) + matches_in(*n, *sel),
    decreases *n,
{
    let ghost start = deref_nodes(out@);
    let is_match = matches_selector(n, sel);
    if is_match {
        out.push(n);
        proof {
            assert(deref_nodes(out@) =~= start.push(*n));
        }
    }
    match n {
        DomNode::Element { children, .. } => {
            let ghost after_head = deref_nodes(out@);
            proof {
                if sel_matches(*n, *sel) {
                    assert(after_head =~= start + seq![*n]);
                } else {
                    assert(after_head =~= start + Seq::<DomNode>::empty());
                }
            }
            let n_children = children.len();
            let mut i: usize = 0;
            while i < n_children
                invariant
                    i <= n_children,
                    n_children == children@.len(),
                    start + matches_in(*n, *sel) =~= deref_nodes(out@) + matches_in_nodes(
                        children@,
                        i as int,
                        sel.by_tag(),
                        sel.sel_name(),
                    ),
                decreases n_children - i,
            {
                let ghost before = deref_nodes(out@);
                proof {
                    assert(decreases_to!(*n => *children));
                    assert(decreases_to!(*children => children@));
                    assert(decreases_to!(children@ => children@[i as int]));
                }
                collect_matching(&children[i], sel, out);
                proof {
                    assert(before + (matches_in(children@[i as int], *sel) + matches_in_nodes(
                        children@,
                        i as int + 1,
                        sel.by_tag(),
                        sel.sel_name(),
                    )) =~= deref_nodes(out@) + matches_in_nodes(
                        children@,
                        i as int + 1,
                        sel.by_tag(),
                        sel.sel_name(),
                    ));
                }
                i += 1;
            }
            proof {
                assert(matches_in_nodes(children@, n_children as int, sel.by_tag(), sel.sel_name())
                    =~= Seq::<DomNode>::empty());
                assert(deref_nodes(out@) + matches_in_nodes(
                    children@,
                    n_children as int,
                    sel.by_tag(),
                    sel.sel_name(),
                ) =~= deref_nodes(out@));
            }
        },
        _ => {
            proof {
                assert(matches_in(*n, *sel) =~= Seq::<DomNode>::empty());
                assert(deref_nodes(out@) =~= start + matches_in(*n, *sel));
            }
        },
    }
}

impl DomNode {
    /// All elements of this subtree that the selector matches, in document order.
    pub fn find_all<'a>(&'a self, sel: &Selector) -> (r: Vec<&'a DomNode>)
        ensures
            deref_nodes(r@) == matches_in(*self, *sel),
    {
        let mut out: Vec<&DomNode> = Vec::new();
        proof {
            assert(deref_nodes(out@) =~= Seq::<DomNode>::empty());
        }
        collect_matching(self, sel, &mut out);
        proof {
            assert(Seq::<DomNode>::empty() + matches_in(*self, *sel) =~= matches_in(
                *self,
                *sel,
            ));
        }
        out
    }

    /// The first element of this subtree that the selector matches.
    pub fn find_first<'a>(&'a self, sel: &Selector) -> (r: Option<&'a DomNode>)
        ensures
            matches_in(*self, *sel).len() == 0 ==> r is None,
            matches_in(*self, *sel).len() > 0 ==> r is Some && *r->0 == matches_in(
                *self,
                *sel,
            )[0],
    {
        let all = self.find_all(sel);
        if all.len() > 0 {
            proof {
                assert(deref_nodes(all@)[0] == *all@[0]);
            }
            Some(all[0])
        } else {
            None
        }
    }
}

// ---------------------------------------------------------------------------
// Index-path traversal
// ---------------------------------------------------------------------------

/// The child of a node at one index, if the node is an element with that many children.
pub open spec fn child_at(n: DomNode, i: int) -> Option<DomNode> {
    match n {
        DomNode::Element { children, .. } => {
            if 0 <= i < children@.len() {
                Some(children@[i])
            } else {
                None
            }
        },
        _ => None,
    }
}

/// The node reached by following the child indices of `path` from position `i` on.
pub open spec fn descend(n: DomNode, path: Seq<usize>, i: int) -> Option<DomNode>
    decreases path.len() - i,
{
    if i < 0 || i >= path.len() {
        Some(n)
    } else {
        match child_at(n, path[i] as int) {
            Some(c) => descend(c, path, i + 1),
            None => None,
        }
    }
}

/// What following a whole index path yields; the empty path reaches nothing.
pub open spec fn spec_traverse(n: DomNode, path: Seq<usize>) -> Option<DomNode> {
    if path.len() == 0 {
        None
    } else {
        descend(n, path, 0)
    }
}

/// Resolve a fixed sequence of child indices from a starting node.
pub fn traverse<'a>(n: &'a DomNode, path: &Vec<usize>) -> (r: Option<&'a DomNode>)
    ensures
        match spec_traverse(*n, path@) {
            Some(m) => r is Some && *r->0 == m,
            None => r is None,
        },
{
    if path.len() == 0 {
        return None;
    }
    let mut cur: &DomNode = n;
    let steps = path.len();
    let mut i: usize = 0;
    while i < steps
        invariant
            i <= steps,
            steps == path@.len(),
            descend(*n, path@, 0) == descend(*cur, path@, i as int),
        decreases steps - i,
    {
        match cur {
            DomNode::Element { children, .. } => {
                let idx = path[i];
                if idx < children.len() {
                    cur = &children[idx];
                    i += 1;
                } else {
                    return None;
                }
            },
            _ => {
                return None;
            },
        }
    }
    Some(cur)
}

// ---------------------------------------------------------------------------
// Parsing fetched pages (outside boundary)
// ---------------------------------------------------------------------------

#[verifier::external_type_specification]
#[verifier::external_body]
pub struct ExDocument(select::document::Document);

/// The document tree that parsing a text as HTML yields. Parsing is a pure
/// function of the text, so the result carries a name that the parse wrapper's
/// contract speaks of.
pub uninterp spec fn parsed_document(html: Seq<char>) -> DomNode;

/// Relies on select::document::Document::nth, Node::data, Node::children and
/// Node::index: reads one node of a parsed document and its subtree into the
/// library's tree. A helper of `dom_from_html` alone.
#[verifier::external_body]
fn convert_node_at(doc: &select::document::Document, index: usize) -> DomNode {
    match doc.nth(index) {
        None => DomNode::Comment,
        Some(n) => match n.data() {
            select::node::Data::Element(name, attrs) => DomNode::Element {
                tag: name.local.to_string(),
                attrs: attrs.iter().map(|(k, v)| (k.local.to_string(), v.to_string())).collect(),
                children: n.children().map(|c| convert_node_at(doc, c.index())).collect(),
            },
            select::node::Data::Text(t) => DomNode::Text { text: t.to_string() },
            select::node::Data::Comment(_) => DomNode::Comment,
        },
    }
}

/// Relies on select::document::Document::from, which parses HTML text with
/// html5ever (a pure function of the text that always produces an `html`
/// element); the wrapper returns that element's subtree as the library's tree.
#[verifier::external_body]
pub(crate) fn dom_from_html(html: &str) -> (r: DomNode)
    ensures
        r == parsed_document(html@),
{
    let doc = select::document::Document::from(html);
    match doc.find(select::predicate::Name("html")).next() {
        Some(n) => convert_node_at(&doc, n.index()),
        None => DomNode::Comment,
    }
}

} // verus!
