//! The XML document tree that both conversion directions share, together
//! with the character escaping used for text content and attribute values.
//!
//! An element holds a name, a list of attributes and a list of children; a
//! child is either another element or a run of text.  The scenario schema
//! never mixes text and element children, and the well-formedness predicate
//! [`elem_wf`] pins that down.

use vstd::prelude::*;

use crate::text::is_name;
use crate::text::is_ws_char;
use crate::text::push_str_chars;

verus! {

/// One attribute: `name="value"`.
pub struct XmlAttr {
    pub name: String,
    pub value: String,
}

/// One child of an element: a nested element or a run of text.
pub enum XmlNode {
    Elem(XmlElem),
    Text(String),
}

/// An element: name, attributes, children.
pub struct XmlElem {
    pub name: String,
    pub attrs: Vec<XmlAttr>,
    pub children: Vec<XmlNode>,
}

/// Mathematical value of an attribute.
pub struct AttrV {
    pub name: Seq<char>,
    pub value: Seq<char>,
}

/// Mathematical value of a node.
pub enum NodeV {
    Elem(ElemV),
    Text(Seq<char>),
}

/// Mathematical value of an element.
pub struct ElemV {
    pub name: Seq<char>,
    pub attrs: Seq<AttrV>,
    pub children: Seq<NodeV>,
}

impl View for XmlAttr {
    type V = AttrV;

    open spec fn view(&self) -> AttrV {
        AttrV { name: self.name@, value: self.value@ }
    }
}

/// The values of an attribute list.
pub open spec fn attrs_view(v: Seq<XmlAttr>) -> Seq<AttrV> {
    Seq::new(v.len(), |i: int| v[i]@)
}

/// Appending an attribute appends its value.
pub proof fn lemma_attrs_view_push(v: Seq<XmlAttr>, a: XmlAttr)
    ensures
        attrs_view(v.push(a)) == attrs_view(v).push(a@),
{
    assert forall|q: int| 0 <= q < v.len() + 1 implies attrs_view(v.push(a))[q] == attrs_view(
        v,
    ).push(a@)[q] by {
        if q < v.len() {
            assert(v.push(a)[q] == v[q]);
        } else {
            assert(v.push(a)[q] == a);
        }
    }
    assert(attrs_view(v.push(a)) =~= attrs_view(v).push(a@));
}

/// The value of a node, recursively.
pub open spec fn node_view(n: XmlNode) -> NodeV
    decreases n,
{
    match n {
        XmlNode::Elem(e) => NodeV::Elem(
            ElemV {
                name: e.name@,
                attrs: attrs_view(e.attrs@),
                children: nodes_view(e.children@),
            },
        ),
        XmlNode::Text(t) => NodeV::Text(t@),
    }
}

/// The values of a list of nodes.
pub open spec fn nodes_view(v: Seq<XmlNode>) -> Seq<NodeV>
    decreases v,
{
    if v.len() == 0 {
        Seq::empty()
    } else {
        nodes_view(v.drop_last()).push(node_view(v.last()))
    }
}

impl View for XmlNode {
    type V = NodeV;

    open spec fn view(&self) -> NodeV {
        node_view(*self)
    }
}

impl View for XmlElem {
    type V = ElemV;

    open spec fn view(&self) -> ElemV {
        ElemV {
            name: self.name@,
            attrs: attrs_view(self.attrs@),
            children: nodes_view(self.children@),
        }
    }
}

/// The node values keep the length of the node list.
pub proof fn lemma_nodes_view_len(v: Seq<XmlNode>)
    ensures
        nodes_view(v).len() == v.len(),
    decreases v,
{
    if v.len() > 0 {
        lemma_nodes_view_len(v.drop_last());
    }
}

/// The node values are the values of the nodes, position by position.
pub proof fn lemma_nodes_view_index(v: Seq<XmlNode>, i: int)
    requires
        0 <= i < v.len(),
    ensures
        nodes_view(v).len() == v.len(),
        nodes_view(v)[i] == node_view(v[i]),
    decreases v,
{
    lemma_nodes_view_len(v);
    if i < v.len() - 1 {
        lemma_nodes_view_index(v.drop_last(), i);
    }
}

/// Appending a node appends its value.
pub proof fn lemma_nodes_view_push(v: Seq<XmlNode>, n: XmlNode)
    ensures
        nodes_view(v.push(n)) == nodes_view(v).push(node_view(n)),
{
    assert(v.push(n).drop_last() =~= v);
    assert(v.push(n).last() == n);
}

/// Prepending a node prepends its value.
pub proof fn lemma_nodes_view_cons(n: XmlNode, v: Seq<XmlNode>)
    ensures
        nodes_view(seq![n] + v) == seq![node_view(n)] + nodes_view(v),
    decreases v,
{
    if v.len() == 0 {
        assert(seq![n] + v =~= seq![n]);
        assert(nodes_view(Seq::<XmlNode>::empty()) =~= Seq::<NodeV>::empty());
        assert(seq![n].drop_last() =~= Seq::<XmlNode>::empty());
        assert(seq![n].last() == n);
        assert(nodes_view(seq![n] + v) =~= seq![node_view(n)] + nodes_view(v));
    } else {
        let w = seq![n] + v;
        assert(w.drop_last() =~= seq![n] + v.drop_last());
        assert(w.last() == v.last());
        lemma_nodes_view_cons(n, v.drop_last());
        assert(nodes_view(w) == nodes_view(seq![n] + v.drop_last()).push(node_view(v.last())));
        assert(nodes_view(seq![n] + v) =~= seq![node_view(n)] + nodes_view(v));
    }
}

/// Text that disappears between markup: empty or whitespace only.
pub open spec fn all_ws(s: Seq<char>) -> bool {
    forall|i: int| 0 <= i < s.len() ==> is_ws_char(s[i])
}

/// A well-formed text run: something a reader can tell apart from the
/// whitespace that the writer lays out around markup.
pub open spec fn text_wf(t: Seq<char>) -> bool {
    t.len() > 0 && !all_ws(t)
}

/// Well-formedness of an attribute: a proper markup name.  The value may be
/// any text; escaping keeps it inside one pair of quotes.
pub open spec fn attr_wf(a: AttrV) -> bool {
    is_name(a.name)
}

/// Well-formedness of an element: a proper markup name, well-formed
/// attributes, and either a single text run or element children only.
pub open spec fn elem_wf(e: ElemV) -> bool
    decreases e,
{
    &&& is_name(e.name)
    &&& forall|i: int| 0 <= i < e.attrs.len() ==> attr_wf(#[trigger] e.attrs[i])
    &&& (e.children.len() == 1 && e.children[0] is Text || text_free(e.children))
    &&& nodes_wf(e.children)
}

/// No text runs among these nodes.
pub open spec fn text_free(v: Seq<NodeV>) -> bool {
    forall|i: int| 0 <= i < v.len() ==> #[trigger] v[i] is Elem
}

/// Well-formedness of a node.
pub open spec fn node_wf(n: NodeV) -> bool
    decreases n,
{
    match n {
        NodeV::Elem(e) => elem_wf(e),
        NodeV::Text(t) => text_wf(t),
    }
}

/// Well-formedness of every node of a list.
pub open spec fn nodes_wf(v: Seq<NodeV>) -> bool
    decreases v,
{
    if v.len() == 0 {
        true
    } else {
        nodes_wf(v.drop_last()) && node_wf(v.last())
    }
}

/// The expansion the writer gives one character of text or attribute value.
pub open spec fn esc_char(c: char) -> Seq<char> {
    if c == '&' {
        seq!['&', 'a', 'm', 'p', ';']
    } else if c == '<' {
        seq!['&', 'l', 't', ';']
    } else if c == '>' {
        seq!['&', 'g', 't', ';']
    } else if c == '"' {
        seq!['&', 'q', 'u', 'o', 't', ';']
    } else if c == '\'' {
        seq!['&', 'a', 'p', 'o', 's', ';']
    } else {
        seq![c]
    }
}

/// Escaped form of a whole text.
pub open spec fn escape_seq(s: Seq<char>) -> Seq<char>
    decreases s.len(),
{
    if s.len() == 0 {
        Seq::empty()
    } else {
        esc_char(s[0]) + escape_seq(s.subrange(1, s.len() as int))
    }
}

/// Escaping one more character at the end appends its expansion.
pub proof fn lemma_escape_snoc(s: Seq<char>, c: char)
    ensures
        escape_seq(s.push(c)) == escape_seq(s) + esc_char(c),
    decreases s.len(),
{
    let sp = s.push(c);
    if s.len() == 0 {
        assert(sp.subrange(1, sp.len() as int) =~= Seq::<char>::empty());
        assert(escape_seq(Seq::<char>::empty()) =~= Seq::<char>::empty());
        assert(s =~= Seq::<char>::empty());
        assert(sp[0] == c);
        assert(escape_seq(sp) =~= escape_seq(s) + esc_char(c));
    } else {
        assert(sp.subrange(1, sp.len() as int) =~= s.subrange(1, s.len() as int).push(c));
        lemma_escape_snoc(s.subrange(1, s.len() as int), c);
        assert(escape_seq(sp) =~= escape_seq(s) + esc_char(c));
    }
}

/// One escaped character holds no markup delimiter.
pub proof fn lemma_esc_char_no_delims(c: char)
    ensures
        forall|i: int|
            0 <= i < esc_char(c).len() ==> #[trigger] esc_char(c)[i] != '<' && esc_char(c)[i]
                != '"' && esc_char(c)[i] != '>',
{
    let e = esc_char(c);
    if c == '&' || c == '"' || c == '\'' {
        assert forall|i: int| 0 <= i < e.len() implies #[trigger] e[i] != '<' && e[i] != '"'
            && e[i] != '>' by {
            assert(i == 0 || i == 1 || i == 2 || i == 3 || i == 4 || i == 5);
        }
    } else if c == '<' || c == '>' {
        assert forall|i: int| 0 <= i < e.len() implies #[trigger] e[i] != '<' && e[i] != '"'
            && e[i] != '>' by {
            assert(i == 0 || i == 1 || i == 2 || i == 3);
        }
    } else {
        assert(e[0] == c);
    }
}

/// Escaped text holds no markup delimiter.
pub proof fn lemma_escape_no_delims(s: Seq<char>)
    ensures
        forall|i: int|
            0 <= i < escape_seq(s).len() ==> #[trigger] escape_seq(s)[i] != '<'
                && escape_seq(s)[i] != '"' && escape_seq(s)[i] != '>',
    decreases s.len(),
{
    if s.len() > 0 {
        let e0 = esc_char(s[0]);
        let rest = escape_seq(s.subrange(1, s.len() as int));
        lemma_esc_char_no_delims(s[0]);
        lemma_escape_no_delims(s.subrange(1, s.len() as int));
        assert(escape_seq(s) == e0 + rest);
        assert forall|i: int|
            0 <= i < escape_seq(s).len() implies #[trigger] escape_seq(s)[i] != '<'
            && escape_seq(s)[i] != '"' && escape_seq(s)[i] != '>' by {
            if i < e0.len() {
                assert(escape_seq(s)[i] == e0[i]);
            } else {
                assert(escape_seq(s)[i] == rest[i - e0.len()]);
            }
        }
    }
}

/// A well-formed node list is well formed at every position.
pub proof fn lemma_nodes_wf_index(v: Seq<NodeV>, i: int)
    requires
        nodes_wf(v),
        0 <= i < v.len(),
    ensures
        node_wf(v[i]),
    decreases v,
{
    if i < v.len() - 1 {
        lemma_nodes_wf_index(v.drop_last(), i);
    }
}

/// Well-formedness at every position makes a well-formed node list.
pub proof fn lemma_nodes_wf_all(v: Seq<NodeV>)
    requires
        forall|i: int| 0 <= i < v.len() ==> node_wf(#[trigger] v[i]),
    ensures
        nodes_wf(v),
    decreases v,
{
    if v.len() > 0 {
        assert(forall|i: int|
            0 <= i < v.drop_last().len() ==> node_wf(#[trigger] v.drop_last()[i]));
        lemma_nodes_wf_all(v.drop_last());
    }
}

} // verus!

// The writer: every function states exactly which characters it appends, so
// that the reader below can be proved to take the document back apart.

use crate::text::str_to_chars;

verus! {

/// The text of an element at a nesting depth.
pub open spec fn elem_height(e: ElemV) -> nat
    decreases e,
{
    1 + nodes_height(e.children)
}

/// The height of the tallest node of a list.
pub open spec fn nodes_height(v: Seq<NodeV>) -> nat
    decreases v,
{
    if v.len() == 0 {
        0
    } else if nodes_height(v.drop_last()) > node_height(v.last()) {
        nodes_height(v.drop_last())
    } else {
        node_height(v.last())
    }
}

/// The height of a node; a text run has none.
pub open spec fn node_height(n: NodeV) -> nat
    decreases n,
{
    match n {
        NodeV::Elem(e) => elem_height(e),
        NodeV::Text(_) => 0,
    }
}

/// No node of a list is taller than the list.
pub proof fn lemma_nodes_height_index(v: Seq<NodeV>, i: int)
    requires
        0 <= i < v.len(),
    ensures
        node_height(v[i]) <= nodes_height(v),
    decreases v,
{
    if i < v.len() - 1 {
        lemma_nodes_height_index(v.drop_last(), i);
    }
}

/// A list of nodes of bounded height has bounded height.
pub proof fn lemma_nodes_height_all(v: Seq<NodeV>, h: nat)
    requires
        forall|i: int| 0 <= i < v.len() ==> node_height(#[trigger] v[i]) <= h,
    ensures
        nodes_height(v) <= h,
    decreases v,
{
    if v.len() > 0 {
        assert(forall|i: int|
            0 <= i < v.drop_last().len() ==> node_height(#[trigger] v.drop_last()[i]) <= h);
        lemma_nodes_height_all(v.drop_last(), h);
    }
}

/// The text content of a text node.
pub open spec fn text_of(n: NodeV) -> Seq<char> {
    match n {
        NodeV::Text(t) => t,
        NodeV::Elem(_) => Seq::empty(),
    }
}

/// Four spaces of indentation for each level of nesting.
pub open spec fn indent(d: nat) -> Seq<char>
    decreases d,
{
    if d == 0 {
        Seq::empty()
    } else {
        indent((d - 1) as nat) + seq![' ', ' ', ' ', ' ']
    }
}

/// The text of one attribute, leading space included.
pub open spec fn attr_text(a: AttrV) -> Seq<char> {
    seq![' '] + a.name + seq!['=', '"'] + escape_seq(a.value) + seq!['"']
}

/// The text of an attribute list.
pub open spec fn attrs_text(v: Seq<AttrV>) -> Seq<char>
    decreases v,
{
    if v.len() == 0 {
        Seq::empty()
    } else {
        attrs_text(v.drop_last()) + attr_text(v.last())
    }
}

/// The text of an element at nesting depth `d`: a self-closing tag when it
/// has no children, an inline text element when it has a single text run,
/// and an indented block of child elements otherwise.
pub open spec fn elem_text(e: ElemV, d: nat) -> Seq<char>
    decreases e,
{
    let open = seq!['<'] + e.name + attrs_text(e.attrs);
    if e.children.len() == 0 {
        open + seq!['/', '>']
    } else if e.children.len() == 1 && e.children[0] is Text {
        open + seq!['>'] + escape_seq(text_of(e.children[0])) + seq!['<', '/'] + e.name
            + seq!['>']
    } else {
        open + seq!['>'] + children_text(e.children, d + 1) + seq!['\n'] + indent(d)
            + seq!['<', '/'] + e.name + seq!['>']
    }
}

/// The text of a list of child nodes, each on its own indented line.
pub open spec fn children_text(v: Seq<NodeV>, d: nat) -> Seq<char>
    decreases v,
{
    if v.len() == 0 {
        Seq::empty()
    } else {
        children_text(v.drop_last(), d) + seq!['\n'] + indent(d) + node_text(v.last(), d)
    }
}

/// The text of one node.
pub open spec fn node_text(n: NodeV, d: nat) -> Seq<char>
    decreases n,
{
    match n {
        NodeV::Elem(e) => elem_text(e, d),
        NodeV::Text(t) => escape_seq(t),
    }
}

/// The text of a whole document: declaration, document type, root element.
pub open spec fn doc_text(root: ElemV) -> Seq<char> {
    "<?xml version=\"1.0\"?>\n<!DOCTYPE simulation SYSTEM \"fers-xml.dtd\">\n"@ + elem_text(
        root,
        0,
    )
}

/// Appends the escaped form of a text.
pub fn write_escaped(out: &mut Vec<char>, s: &str)
    ensures
        final(out)@ == old(out)@ + escape_seq(s@),
{
    let n: usize = s.unicode_len();
    let mut i: usize = 0;
    while i < n
        invariant
            n == s@.len(),
            i <= n,
            out@ == old(out)@ + escape_seq(s@.subrange(0, i as int)),
        decreases n - i,
    {
        let c = s.get_char(i);
        if c == '&' {
            out.push('&');
            out.push('a');
            out.push('m');
            out.push('p');
            out.push(';');
        } else if c == '<' {
            out.push('&');
            out.push('l');
            out.push('t');
            out.push(';');
        } else if c == '>' {
            out.push('&');
            out.push('g');
            out.push('t');
            out.push(';');
        } else if c == '"' {
            out.push('&');
            out.push('q');
            out.push('u');
            out.push('o');
            out.push('t');
            out.push(';');
        } else if c == '\'' {
            out.push('&');
            out.push('a');
            out.push('p');
            out.push('o');
            out.push('s');
            out.push(';');
        } else {
            out.push(c);
        }
        proof {
            lemma_escape_snoc(s@.subrange(0, i as int), c);
            assert(s@.subrange(0, i as int).push(c) =~= s@.subrange(0, i + 1 as int));
            assert(out@ =~= old(out)@ + escape_seq(s@.subrange(0, i + 1 as int)));
        }
        i = i + 1;
    }
    proof {
        assert(s@.subrange(0, n as int) =~= s@);
    }
}

/// Appends the text of an attribute list.
pub fn write_attrs(out: &mut Vec<char>, attrs: &Vec<XmlAttr>)
    ensures
        final(out)@ == old(out)@ + attrs_text(Seq::new(attrs@.len(), |i: int| attrs@[i]@)),
{
    let ghost av = Seq::new(attrs@.len(), |i: int| attrs@[i]@);
    let mut i: usize = 0;
    while i < attrs.len()
        invariant
            av == Seq::new(attrs@.len(), |i: int| attrs@[i]@),
            i <= attrs@.len(),
            out@ == old(out)@ + attrs_text(av.subrange(0, i as int)),
        decreases attrs@.len() - i,
    {
        out.push(' ');
        push_str_chars(out, attrs[i].name.as_str());
        out.push('=');
        out.push('"');
        write_escaped(out, attrs[i].value.as_str());
        out.push('"');
        proof {
            assert(av.subrange(0, i + 1 as int).drop_last() =~= av.subrange(0, i as int));
            assert(av.subrange(0, i + 1 as int).last() == av[i as int]);
            assert(out@ =~= old(out)@ + attrs_text(av.subrange(0, i + 1 as int)));
        }
        i = i + 1;
    }
    proof {
        assert(av.subrange(0, av.len() as int) =~= av);
    }
}

/// Appends the indentation of a nesting depth.
pub fn write_indent(out: &mut Vec<char>, d: usize)
    ensures
        final(out)@ == old(out)@ + indent(d as nat),
{
    let mut i: usize = 0;
    while i < d
        invariant
            i <= d,
            out@ == old(out)@ + indent(i as nat),
        decreases d - i,
    {
        out.push(' ');
        out.push(' ');
        out.push(' ');
        out.push(' ');
        proof {
            assert(out@ =~= old(out)@ + indent((i + 1) as nat));
        }
        i = i + 1;
    }
}

/// Appends the text of an element.
pub fn write_elem(out: &mut Vec<char>, e: &XmlElem, d: usize)
    requires
        d as nat + elem_height(e@) <= usize::MAX as nat,
    ensures
        final(out)@ == old(out)@ + elem_text(e@, d as nat),
    decreases *e,
{
    out.push('<');
    push_str_chars(out, e.name.as_str());
    write_attrs(out, &e.attrs);
    let n = e.children.len();
    let only_text = n == 1 && (match &e.children[0] {
        XmlNode::Text(_) => true,
        XmlNode::Elem(_) => false,
    });
    proof {
        lemma_nodes_view_len(e.children@);
        if e.children@.len() > 0 {
            lemma_nodes_view_index(e.children@, 0);
        }
    }
    if n == 0 {
        out.push('/');
        out.push('>');
        proof {
            assert(out@ =~= old(out)@ + elem_text(e@, d as nat));
        }
    } else if only_text {
        out.push('>');
        match &e.children[0] {
            XmlNode::Text(t) => write_escaped(out, t.as_str()),
            XmlNode::Elem(_) => (),
        }
        out.push('<');
        out.push('/');
        push_str_chars(out, e.name.as_str());
        out.push('>');
        proof {
            assert(out@ =~= old(out)@ + elem_text(e@, d as nat));
        }
    } else {
        out.push('>');
        let ghost cv = nodes_view(e.children@);
        let mut i: usize = 0;
        while i < n
            invariant
                n == e.children@.len(),
                cv == nodes_view(e.children@),
                cv.len() == n,
                i <= n,
                d as nat + elem_height(e@) <= usize::MAX as nat,
                elem_height(e@) == 1 + nodes_height(cv),
                out@ == old(out)@ + (seq!['<'] + e@.name + attrs_text(e@.attrs)) + seq!['>']
                    + children_text(cv.subrange(0, i as int), d as nat + 1),
            decreases n - i,
        {
            out.push('\n');
            write_indent(out, d + 1);
            proof {
                lemma_nodes_view_index(e.children@, i as int);
                lemma_nodes_height_index(cv, i as int);
                assert(decreases_to!(*e => e.children@[i as int]));
            }
            write_node(out, &e.children[i], d + 1);
            proof {
                assert(cv.subrange(0, i + 1 as int).drop_last() =~= cv.subrange(0, i as int));
                assert(cv.subrange(0, i + 1 as int).last() == cv[i as int]);
                assert(out@ =~= old(out)@ + (seq!['<'] + e@.name + attrs_text(e@.attrs))
                    + seq!['>'] + children_text(cv.subrange(0, i + 1 as int), d as nat + 1));
            }
            i = i + 1;
        }
        out.push('\n');
        write_indent(out, d);
        out.push('<');
        out.push('/');
        push_str_chars(out, e.name.as_str());
        out.push('>');
        proof {
            assert(cv.subrange(0, cv.len() as int) =~= cv);
            assert(out@ =~= old(out)@ + elem_text(e@, d as nat));
        }
    }
}

/// Appends the text of one node.
pub fn write_node(out: &mut Vec<char>, nd: &XmlNode, d: usize)
    requires
        d as nat + node_height(nd@) <= usize::MAX as nat,
    ensures
        final(out)@ == old(out)@ + node_text(nd@, d as nat),
    decreases *nd,
{
    match nd {
        XmlNode::Text(t) => write_escaped(out, t.as_str()),
        XmlNode::Elem(e) => write_elem(out, e, d),
    }
}

/// Writes a whole document: declaration, document type, root element.
pub fn write_document(root: &XmlElem) -> (r: Vec<char>)
    requires
        elem_height(root@) <= usize::MAX as nat,
    ensures
        r@ == doc_text(root@),
{
    let mut out: Vec<char> = Vec::new();
    push_str_chars(
        &mut out,
        "<?xml version=\"1.0\"?>\n<!DOCTYPE simulation SYSTEM \"fers-xml.dtd\">\n",
    );
    write_elem(&mut out, root, 0);
    proof {
        assert(out@ =~= doc_text(root@));
    }
    out
}

} // verus!

// Subrange view lemma used by the readers of the tree.

verus! {

/// Taking values commutes with taking a subrange of a node list.
pub proof fn lemma_nodes_view_subrange(v: Seq<XmlNode>, a: int, b: int)
    requires
        0 <= a <= b <= v.len(),
    ensures
        nodes_view(v.subrange(a, b)) == nodes_view(v).subrange(a, b),
{
    lemma_nodes_view_len(v);
    lemma_nodes_view_len(v.subrange(a, b));
    assert forall|i: int| 0 <= i < b - a implies nodes_view(v.subrange(a, b))[i] == nodes_view(
        v,
    ).subrange(a, b)[i] by {
        lemma_nodes_view_index(v.subrange(a, b), i);
        lemma_nodes_view_index(v, a + i);
        assert(v.subrange(a, b)[i] == v[a + i]);
    }
    assert(nodes_view(v.subrange(a, b)) =~= nodes_view(v).subrange(a, b));
}

} // verus!
