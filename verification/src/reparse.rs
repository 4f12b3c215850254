//! The textual round-trip law: the reader of [`crate::parse`] takes a
//! document written by [`crate::xml`] back to exactly the tree it was
//! written from.  Together with the structural law of
//! [`crate::roundtrip`], this closes the loop from a scenario through its
//! document text and back.

use vstd::prelude::*;

use crate::parse::ent_match;
use crate::parse::sp_attrs;
use crate::parse::sp_children;
use crate::parse::sp_content;
use crate::parse::sp_doc;
use crate::parse::sp_elem;
use crate::parse::sp_gt;
use crate::parse::sp_name_end;
use crate::parse::sp_qm;
use crate::parse::sp_quote;
use crate::parse::sp_raw;
use crate::parse::sp_unescape;
use crate::parse::sp_ws;
use crate::parse::starts_with_seq;
use crate::text::is_name;
use crate::text::is_name_char;
use crate::text::is_ws_char;
use crate::xml::all_ws;
use crate::xml::attr_text;
use crate::xml::attr_wf;
use crate::xml::attrs_text;
use crate::xml::children_text;
use crate::xml::doc_text;
use crate::xml::elem_text;
use crate::xml::elem_wf;
use crate::xml::esc_char;
use crate::xml::escape_seq;
use crate::xml::indent;
use crate::xml::lemma_escape_no_delims;
use crate::xml::node_text;
use crate::xml::node_wf;
use crate::xml::nodes_wf;
use crate::xml::text_free;
use crate::xml::text_of;
use crate::xml::text_wf;
use crate::xml::AttrV;
use crate::xml::ElemV;
use crate::xml::NodeV;

verus! {

/// A whitespace run ends exactly at its first non-whitespace character.
pub proof fn lemma_scan_ws(s: Seq<char>, i: int, j: int)
    requires
        0 <= i <= j <= s.len(),
        forall|k: int| i <= k < j ==> is_ws_char(#[trigger] s[k]),
        j == s.len() || !is_ws_char(s[j]),
    ensures
        sp_ws(s, i) == j,
    decreases j - i,
{
    if i < j {
        lemma_scan_ws(s, i + 1, j);
    }
}

/// A run without `<` ends exactly at the first `<`.
pub proof fn lemma_scan_raw(s: Seq<char>, i: int, j: int)
    requires
        0 <= i <= j <= s.len(),
        forall|k: int| i <= k < j ==> #[trigger] s[k] != '<',
        j == s.len() || s[j] == '<',
    ensures
        sp_raw(s, i) == j,
    decreases j - i,
{
    if i < j {
        lemma_scan_raw(s, i + 1, j);
    }
}

/// A run without `"` ends exactly at the first `"`.
pub proof fn lemma_scan_quote(s: Seq<char>, i: int, j: int)
    requires
        0 <= i <= j <= s.len(),
        forall|k: int| i <= k < j ==> #[trigger] s[k] != '"',
        j == s.len() || s[j] == '"',
    ensures
        sp_quote(s, i) == j,
    decreases j - i,
{
    if i < j {
        lemma_scan_quote(s, i + 1, j);
    }
}

/// A run of name characters ends exactly at the first other character.
pub proof fn lemma_scan_name(s: Seq<char>, i: int, j: int)
    requires
        0 <= i <= j <= s.len(),
        forall|k: int| i <= k < j ==> is_name_char(#[trigger] s[k]),
        j == s.len() || !is_name_char(s[j]),
    ensures
        sp_name_end(s, i) == j,
    decreases j - i,
{
    if i < j {
        lemma_scan_name(s, i + 1, j);
    }
}

/// A run without `?>` ends exactly at the first `?>`.
pub proof fn lemma_scan_qm(s: Seq<char>, i: int, j: int)
    requires
        0 <= i <= j,
        j + 1 < s.len(),
        forall|k: int| i <= k < j ==> !(#[trigger] s[k] == '?' && s[k + 1] == '>'),
        s[j] == '?' && s[j + 1] == '>',
    ensures
        sp_qm(s, i) == Some(j + 2),
    decreases j - i,
{
    if i < j {
        lemma_scan_qm(s, i + 1, j);
    }
}

/// A run without `>` ends exactly at the first `>`.
pub proof fn lemma_scan_gt(s: Seq<char>, i: int, j: int)
    requires
        0 <= i <= j < s.len(),
        forall|k: int| i <= k < j ==> #[trigger] s[k] != '>',
        s[j] == '>',
    ensures
        sp_gt(s, i) == Some(j + 1),
    decreases j - i,
{
    if i < j {
        lemma_scan_gt(s, i + 1, j);
    }
}

/// Unescaping inverts escaping.
pub proof fn lemma_unescape_escape(t: Seq<char>)
    ensures
        sp_unescape(escape_seq(t)) == Some(t),
    decreases t.len(),
{
    let s = escape_seq(t);
    if t.len() == 0 {
        assert(s.len() == 0);
        assert(t =~= Seq::<char>::empty());
    } else {
        let c = t[0];
        let rest = t.subrange(1, t.len() as int);
        let erest = escape_seq(rest);
        lemma_unescape_escape(rest);
        assert(s == esc_char(c) + erest);
        assert(s.len() == esc_char(c).len() + erest.len());
        if c == '&' {
            assert(s[0] == '&');
            assert(s.subrange(0, 5) =~= esc_char('&'));
            assert(starts_with_seq(s, esc_char('&')));
            assert(ent_match(s) == Some(('&', 5int)));
            assert(s.subrange(5, s.len() as int) =~= erest);
            assert(seq!['&'] + rest =~= t);
        } else if c == '<' {
            assert(s[0] == '&');
            assert(s[1] == 'l');
            if s.len() >= 5 {
                assert(!starts_with_seq(s, esc_char('&'))) by {
                    if starts_with_seq(s, esc_char('&')) {
                        assert(s.subrange(0, 5)[1] == s[1]);
                    }
                }
            }
            assert(s.subrange(0, 4) =~= esc_char('<'));
            assert(starts_with_seq(s, esc_char('<')));
            assert(ent_match(s) == Some(('<', 4int)));
            assert(s.subrange(4, s.len() as int) =~= erest);
            assert(seq!['<'] + rest =~= t);
        } else if c == '>' {
            assert(s[0] == '&');
            assert(s[1] == 'g');
            if s.len() >= 5 {
                assert(!starts_with_seq(s, esc_char('&'))) by {
                    if starts_with_seq(s, esc_char('&')) {
                        assert(s.subrange(0, 5)[1] == s[1]);
                    }
                }
            }
            assert(!starts_with_seq(s, esc_char('<'))) by {
                if starts_with_seq(s, esc_char('<')) {
                    assert(s.subrange(0, 4)[1] == s[1]);
                }
            }
            assert(s.subrange(0, 4) =~= esc_char('>'));
            assert(starts_with_seq(s, esc_char('>')));
            assert(ent_match(s) == Some(('>', 4int)));
            assert(s.subrange(4, s.len() as int) =~= erest);
            assert(seq!['>'] + rest =~= t);
        } else if c == '"' {
            assert(s[0] == '&');
            assert(s[1] == 'q');
            if s.len() >= 5 {
                assert(!starts_with_seq(s, esc_char('&'))) by {
                    if starts_with_seq(s, esc_char('&')) {
                        assert(s.subrange(0, 5)[1] == s[1]);
                    }
                }
            }
            assert(!starts_with_seq(s, esc_char('<'))) by {
                if starts_with_seq(s, esc_char('<')) {
                    assert(s.subrange(0, 4)[1] == s[1]);
                }
            }
            assert(!starts_with_seq(s, esc_char('>'))) by {
                if starts_with_seq(s, esc_char('>')) {
                    assert(s.subrange(0, 4)[1] == s[1]);
                }
            }
            assert(s.subrange(0, 6) =~= esc_char('"'));
            assert(starts_with_seq(s, esc_char('"')));
            assert(ent_match(s) == Some(('"', 6int)));
            assert(s.subrange(6, s.len() as int) =~= erest);
            assert(seq!['"'] + rest =~= t);
        } else if c == '\'' {
            assert(s[0] == '&');
            assert(s[1] == 'a');
            assert(s[2] == 'p');
            if s.len() >= 5 {
                assert(!starts_with_seq(s, esc_char('&'))) by {
                    if starts_with_seq(s, esc_char('&')) {
                        assert(s.subrange(0, 5)[2] == s[2]);
                    }
                }
            }
            assert(!starts_with_seq(s, esc_char('<'))) by {
                if starts_with_seq(s, esc_char('<')) {
                    assert(s.subrange(0, 4)[1] == s[1]);
                }
            }
            assert(!starts_with_seq(s, esc_char('>'))) by {
                if starts_with_seq(s, esc_char('>')) {
                    assert(s.subrange(0, 4)[1] == s[1]);
                }
            }
            if s.len() >= 6 {
                assert(!starts_with_seq(s, esc_char('"'))) by {
                    if starts_with_seq(s, esc_char('"')) {
                        assert(s.subrange(0, 6)[1] == s[1]);
                    }
                }
            }
            assert(s.subrange(0, 6) =~= esc_char('\''));
            assert(starts_with_seq(s, esc_char('\'')));
            assert(ent_match(s) == Some(('\'', 6int)));
            assert(s.subrange(6, s.len() as int) =~= erest);
            assert(seq!['\''] + rest =~= t);
        } else {
            assert(s[0] == c);
            assert(s.subrange(1, s.len() as int) =~= erest);
            assert(seq![c] + rest =~= t);
        }
    }
}

} // verus!

// Reading back an attribute list.

verus! {

/// Splitting an attribute list's text at its first attribute.
pub proof fn lemma_attrs_text_cons(v: Seq<AttrV>)
    requires
        v.len() > 0,
    ensures
        attrs_text(v) == attr_text(v[0]) + attrs_text(v.subrange(1, v.len() as int)),
    decreases v.len(),
{
    if v.len() == 1 {
        assert(v.drop_last() =~= Seq::<AttrV>::empty());
        assert(attrs_text(Seq::<AttrV>::empty()) =~= Seq::<char>::empty());
        assert(v.subrange(1, v.len() as int) =~= Seq::<AttrV>::empty());
        assert(v.last() == v[0]);
        assert(attrs_text(v) =~= attr_text(v[0]) + attrs_text(v.subrange(1, v.len() as int)));
    } else {
        let w = v.drop_last();
        lemma_attrs_text_cons(w);
        assert(w[0] == v[0]);
        assert(v.subrange(1, v.len() as int).drop_last() =~= w.subrange(1, w.len() as int));
        assert(v.subrange(1, v.len() as int).last() == v.last());
        assert(attrs_text(v.subrange(1, v.len() as int)) == attrs_text(
            w.subrange(1, w.len() as int),
        ) + attr_text(v.last()));
        assert(attrs_text(v) =~= attr_text(v[0]) + attrs_text(v.subrange(1, v.len() as int)));
    }
}

/// Reading the text of a well-formed attribute list, standing right before
/// the character that closes the start tag, yields exactly that list.
#[verifier::rlimit(100)]
pub proof fn lemma_parse_attrs(s: Seq<char>, i: int, attrs: Seq<AttrV>, j: int)
    requires
        0 <= i <= j <= s.len(),
        j - i == attrs_text(attrs).len(),
        s.subrange(i, j) == attrs_text(attrs),
        j < s.len(),
        s[j] == '>' || s[j] == '/',
        forall|k: int| 0 <= k < attrs.len() ==> attr_wf(#[trigger] attrs[k]),
    ensures
        sp_attrs(s, i) == Some((attrs, j)),
    decreases attrs.len(),
{
    if attrs.len() == 0 {
        assert(attrs_text(attrs).len() == 0);
        assert(j == i);
        lemma_scan_ws(s, i, i);
        assert(sp_attrs(s, i) == Some((Seq::<AttrV>::empty(), i)));
        assert(attrs =~= Seq::<AttrV>::empty());
    } else {
        let a = attrs[0];
        let rest = attrs.subrange(1, attrs.len() as int);
        lemma_attrs_text_cons(attrs);
        let at = attr_text(a);
        let n = a.name.len() as int;
        let ev = escape_seq(a.value);
        let ne = i + 1 + n;
        let ve = ne + 2 + ev.len() as int;
        let i2 = ve + 1;
        assert(at.len() == 1 + n + 2 + ev.len() + 1);
        assert(i2 <= j);
        assert forall|k: int| i <= k < j implies s[k] == (at + attrs_text(rest))[k - i] by {
            assert(s.subrange(i, j)[k - i] == s[k]);
        }
        assert(attr_wf(attrs[0]));
        assert(is_name(a.name));
        // The single leading space.
        assert(at[0] == ' ');
        assert(s[i] == ' ');
        assert(at[1] == (seq![' '] + a.name)[1]);
        assert(s[i + 1] == a.name[0]);
        assert(is_name_char(a.name[0]));
        lemma_scan_ws(s, i, i + 1);
        // The name run.
        assert forall|k: int| i + 1 <= k < ne implies is_name_char(#[trigger] s[k]) by {
            assert(at[k - i] == a.name[k - i - 1]);
        }
        assert(at[1 + n] == '=');
        assert(s[ne] == '=');
        lemma_scan_name(s, i + 1, ne);
        assert(at[2 + n] == '"');
        assert(s[ne + 1] == '"');
        // The escaped value and its closing quote.
        lemma_escape_no_delims(a.value);
        assert forall|k: int| ne + 2 <= k < ve implies #[trigger] s[k] != '"' by {
            assert(at[k - i] == ev[k - i - 3 - n]);
        }
        assert(at[3 + n + ev.len()] == '"');
        assert(s[ve] == '"');
        lemma_scan_quote(s, ne + 2, ve);
        assert(s.subrange(ne + 2, ve) =~= ev) by {
            assert forall|q: int| 0 <= q < ev.len() implies s.subrange(ne + 2, ve)[q] == ev[q] by {
                assert(s[ne + 2 + q] == at[3 + n + q]);
                assert(at[3 + n + q] == ev[q]);
            }
        }
        lemma_unescape_escape(a.value);
        assert(sp_unescape(s.subrange(ne + 2, ve)) == Some(a.value));
        // The remaining attributes.
        assert(s.subrange(i2, j) =~= attrs_text(rest)) by {
            assert forall|q: int| 0 <= q < j - i2 implies s.subrange(i2, j)[q] == attrs_text(
                rest,
            )[q] by {
                assert(s[i2 + q] == (at + attrs_text(rest))[i2 + q - i]);
            }
        }
        assert(forall|k: int| 0 <= k < rest.len() ==> attr_wf(#[trigger] rest[k]));
        lemma_parse_attrs(s, i2, rest, j);
        assert(s.subrange(i + 1, ne) =~= a.name) by {
            assert forall|q: int| 0 <= q < n implies s.subrange(i + 1, ne)[q] == a.name[q] by {
                assert(s[i + 1 + q] == at[1 + q]);
                assert(at[1 + q] == a.name[q]);
            }
        }
        assert(seq![AttrV { name: s.subrange(i + 1, ne), value: a.value }] + rest =~= attrs);
    }
}

} // verus!

// Reading back a whole element.

verus! {

/// Indentation is made of spaces.
pub proof fn lemma_indent_chars(d: nat)
    ensures
        indent(d).len() == 4 * d,
        forall|q: int| 0 <= q < indent(d).len() ==> #[trigger] indent(d)[q] == ' ',
    decreases d,
{
    if d > 0 {
        lemma_indent_chars((d - 1) as nat);
    }
}

/// The escaped form of visible text stays visible.
pub proof fn lemma_escape_not_all_ws(t: Seq<char>)
    requires
        t.len() > 0,
        !all_ws(t),
    ensures
        !all_ws(escape_seq(t)),
        escape_seq(t).len() > 0,
    decreases t.len(),
{
    let c = t[0];
    let rest = t.subrange(1, t.len() as int);
    let s = escape_seq(t);
    assert(s == esc_char(c) + rest_esc(t));
    if !is_ws_char(c) {
        if c == '&' || c == '<' || c == '>' || c == '"' || c == '\'' {
            assert(s[0] == '&');
            assert(!is_ws_char(s[0]));
        } else {
            assert(s[0] == c);
        }
        assert(!all_ws(s));
    } else {
        assert(!all_ws(rest)) by {
            let w = choose|q: int| 0 <= q < t.len() && !is_ws_char(#[trigger] t[q]);
            assert(rest[w - 1] == t[w]);
        }
        assert(rest.len() > 0);
        lemma_escape_not_all_ws(rest);
        let w2 = choose|q: int|
            0 <= q < escape_seq(rest).len() && !is_ws_char(#[trigger] escape_seq(rest)[q]);
        assert(esc_char(c).len() == 1);
        assert(s[1 + w2] == escape_seq(rest)[w2]);
        assert(!all_ws(s));
    }
}

/// The tail of an escaped text.
pub open spec fn rest_esc(t: Seq<char>) -> Seq<char> {
    escape_seq(t.subrange(1, t.len() as int))
}

/// Splitting a child list's text at its first child.
pub proof fn lemma_children_text_cons(v: Seq<NodeV>, d: nat)
    requires
        v.len() > 0,
    ensures
        children_text(v, d) == (seq!['\n'] + indent(d) + node_text(v[0], d)) + children_text(
            v.subrange(1, v.len() as int),
            d,
        ),
    decreases v.len(),
{
    if v.len() == 1 {
        assert(v.drop_last() =~= Seq::<NodeV>::empty());
        assert(children_text(Seq::<NodeV>::empty(), d) =~= Seq::<char>::empty());
        assert(v.subrange(1, v.len() as int) =~= Seq::<NodeV>::empty());
        assert(v.last() == v[0]);
        assert(children_text(v, d) =~= (seq!['\n'] + indent(d) + node_text(v[0], d))
            + children_text(v.subrange(1, v.len() as int), d));
    } else {
        let w = v.drop_last();
        lemma_children_text_cons(w, d);
        assert(w[0] == v[0]);
        assert(v.subrange(1, v.len() as int).drop_last() =~= w.subrange(1, w.len() as int));
        assert(v.subrange(1, v.len() as int).last() == v.last());
        assert(children_text(v.subrange(1, v.len() as int), d) == children_text(
            w.subrange(1, w.len() as int),
            d,
        ) + seq!['\n'] + indent(d) + node_text(v.last(), d));
        assert(children_text(v, d) =~= (seq!['\n'] + indent(d) + node_text(v[0], d))
            + children_text(v.subrange(1, v.len() as int), d));
    }
}

/// A matching slice of a matching region.
pub proof fn lemma_slice_of_match(s: Seq<char>, i: int, full: Seq<char>, a: int, b: int)
    requires
        0 <= i,
        i + full.len() <= s.len(),
        s.subrange(i, i + full.len() as int) == full,
        0 <= a <= b <= full.len(),
    ensures
        s.subrange(i + a, i + b) == full.subrange(a, b),
{
    assert forall|q: int| 0 <= q < b - a implies s.subrange(i + a, i + b)[q] == full.subrange(
        a,
        b,
    )[q] by {
        assert(s.subrange(i, i + full.len() as int)[a + q] == s[i + a + q]);
    }
    assert(s.subrange(i + a, i + b) =~= full.subrange(a, b));
}

/// One matching character of a matching region.
pub proof fn lemma_char_of_match(s: Seq<char>, i: int, full: Seq<char>, k: int)
    requires
        0 <= i,
        i + full.len() <= s.len(),
        s.subrange(i, i + full.len() as int) == full,
        0 <= k < full.len(),
    ensures
        s[i + k] == full[k],
{
    assert(s.subrange(i, i + full.len() as int)[k] == s[i + k]);
}

/// Dropping the first node keeps a node list well formed.
pub proof fn lemma_nodes_wf_drop_first(v: Seq<NodeV>)
    requires
        nodes_wf(v),
        v.len() > 0,
    ensures
        nodes_wf(v.subrange(1, v.len() as int)),
{
    let rest = v.subrange(1, v.len() as int);
    assert forall|q: int| 0 <= q < rest.len() implies node_wf(#[trigger] rest[q]) by {
        crate::xml::lemma_nodes_wf_index(v, q + 1);
    }
    crate::xml::lemma_nodes_wf_all(rest);
}

/// The shared head of every written element: the name scan and the
/// attribute list land exactly on the character that closes the start tag.
#[verifier::rlimit(100)]
proof fn lemma_parse_elem_head(t: ElemV, d: nat, s: Seq<char>, i: int)
    requires
        elem_wf(t),
        0 <= i,
        i + elem_text(t, d).len() <= s.len(),
        s.subrange(i, i + elem_text(t, d).len() as int) == elem_text(t, d),
    ensures
        ({
            let n = t.name.len() as int;
            let ne = i + 1 + n;
            let ja = ne + attrs_text(t.attrs).len() as int;
            &&& ja + 1 < i + elem_text(t, d).len()
            &&& s[i] == '<'
            &&& sp_name_end(s, i + 1) == ne
            &&& s.subrange(i + 1, ne) == t.name
            &&& sp_attrs(s, ne) == Some((t.attrs, ja))
            &&& s[ja] == (if t.children.len() == 0 {
                '/'
            } else {
                '>'
            })
        }),
{
    let et = elem_text(t, d);
    let ll = et.len() as int;
    let n = t.name.len() as int;
    let at = attrs_text(t.attrs);
    let ne = i + 1 + n;
    let ja = ne + at.len() as int;
    assert forall|k: int| i <= k < i + ll implies s[k] == et[k - i] by {
        assert(s.subrange(i, i + ll)[k - i] == s[k]);
    }
    assert(et[0] == '<');
    assert(s[i] == '<');
    assert forall|k: int| i + 1 <= k < ne implies is_name_char(#[trigger] s[k]) by {
        assert(et[k - i] == t.name[k - i - 1]);
    }
    assert(n > 0);
    if at.len() > 0 {
        lemma_attrs_text_cons(t.attrs);
        assert(t.attrs.len() > 0);
        assert(at[0] == attr_text(t.attrs[0])[0]);
        assert(at[0] == ' ');
        assert(et[1 + n] == ' ');
    } else {
        if t.children.len() == 0 {
            assert(et[1 + n] == '/');
        } else if t.children.len() == 1 && t.children[0] is Text {
            assert(et[1 + n] == '>');
        } else {
            assert(et[1 + n] == '>');
        }
    }
    assert(!is_name_char(s[ne]));
    lemma_scan_name(s, i + 1, ne);
    assert(s.subrange(i + 1, ne) =~= t.name) by {
        assert forall|q: int| 0 <= q < n implies s.subrange(i + 1, ne)[q] == t.name[q] by {
            assert(s[i + 1 + q] == et[1 + q]);
        }
    }
    assert forall|q: int| 0 <= q < at.len() implies s[ne + q] == at[q] by {
        assert(et[1 + n + q] == at[q]);
    }
    assert(s.subrange(ne, ja) =~= at);
    if t.children.len() == 0 {
        assert(et[1 + n + at.len()] == '/');
        assert(s[ja] == '/');
    } else if t.children.len() == 1 && t.children[0] is Text {
        assert(et[1 + n + at.len()] == '>');
        assert(s[ja] == '>');
    } else {
        assert(et[1 + n + at.len()] == '>');
        assert(s[ja] == '>');
    }
    lemma_parse_attrs(s, ne, t.attrs, ja);
}

/// Reading a written self-closing element.
#[verifier::rlimit(100)]
proof fn lemma_parse_elem_empty(t: ElemV, d: nat, s: Seq<char>, i: int)
    requires
        elem_wf(t),
        0 <= i,
        i + elem_text(t, d).len() <= s.len(),
        s.subrange(i, i + elem_text(t, d).len() as int) == elem_text(t, d),
        t.children.len() == 0,
    ensures
        sp_elem(s, i) == Some((t, i + elem_text(t, d).len() as int)),
{
    let et = elem_text(t, d);
    let ll = et.len() as int;
    let n = t.name.len() as int;
    let at = attrs_text(t.attrs);
    let ne = i + 1 + n;
    let ja = ne + at.len() as int;
    lemma_parse_elem_head(t, d, s, i);
    assert(et[2 + n + at.len()] == '>');
    lemma_char_of_match(s, i, et, 2 + n + at.len() as int);
    assert(s[ja + 1] == '>');
    assert(ja + 2 == i + ll);
    assert(t.children =~= Seq::<NodeV>::empty());
    assert(ElemV { name: s.subrange(i + 1, ne), attrs: t.attrs, children: Seq::empty() } == t);
}

/// Reading a written element holding a single text run.
#[verifier::rlimit(100)]
proof fn lemma_parse_elem_text(t: ElemV, d: nat, s: Seq<char>, i: int)
    requires
        elem_wf(t),
        0 <= i,
        i + elem_text(t, d).len() <= s.len(),
        s.subrange(i, i + elem_text(t, d).len() as int) == elem_text(t, d),
        t.children.len() == 1 && t.children[0] is Text,
    ensures
        sp_elem(s, i) == Some((t, i + elem_text(t, d).len() as int)),
{
    let et = elem_text(t, d);
    let ll = et.len() as int;
    let n = t.name.len() as int;
    let at = attrs_text(t.attrs);
    let ne = i + 1 + n;
    let ja = ne + at.len() as int;
    assert forall|k: int| i <= k < i + ll implies s[k] == et[k - i] by {
        assert(s.subrange(i, i + ll)[k - i] == s[k]);
    }
    let open = seq!['<'] + t.name + at;
    assert(et[0] == '<');
    assert(s[i] == '<');
    assert forall|k: int| i + 1 <= k < ne implies is_name_char(#[trigger] s[k]) by {
        assert(et[k - i] == t.name[k - i - 1]);
    }
    assert(n > 0);
    // The character after the name is never a name character: a space when
    // attributes follow, else the character that closes the start tag.
    if at.len() > 0 {
        lemma_attrs_text_cons(t.attrs);
        assert(t.attrs.len() > 0);
        assert(at[0] == attr_text(t.attrs[0])[0]);
        assert(at[0] == ' ');
        assert(et[1 + n] == ' ');
    } else {
        if t.children.len() == 0 {
            assert(et[1 + n] == '/');
        } else if t.children.len() == 1 && t.children[0] is Text {
            assert(et[1 + n] == '>');
        } else {
            assert(et[1 + n] == '>');
        }
    }
    assert(!is_name_char(s[ne]));
    lemma_scan_name(s, i + 1, ne);
    assert(s.subrange(i + 1, ne) =~= t.name) by {
        assert forall|q: int| 0 <= q < n implies s.subrange(i + 1, ne)[q] == t.name[q] by {
            assert(s[i + 1 + q] == et[1 + q]);
        }
    }
    // The attribute list, up to the closing character of the start tag.
    assert forall|q: int| 0 <= q < at.len() implies s[ne + q] == at[q] by {
        assert(et[1 + n + q] == at[q]);
    }
    assert(s.subrange(ne, ja) =~= at);
    let txt = text_of(t.children[0]);
    let ev = escape_seq(txt);
    assert(et == open + seq!['>'] + ev + seq!['<', '/'] + t.name + seq!['>']);
    assert(s[ja] == '>');
    lemma_parse_attrs(s, ne, t.attrs, ja);
    let k = ja + 1;
    let re = k + ev.len() as int;
    lemma_escape_no_delims(txt);
    assert forall|q: int| k <= q < re implies #[trigger] s[q] != '<' by {
        assert(et[q - i] == ev[q - i - (2 + n + at.len())]);
    }
    assert(et[re - i] == '<');
    assert(s[re] == '<');
    lemma_scan_raw(s, k, re);
    assert(s.subrange(k, re) =~= ev) by {
        assert forall|q: int| 0 <= q < ev.len() implies s.subrange(k, re)[q] == ev[q] by {
            assert(s[k + q] == et[k + q - i]);
        }
    }
    assert(node_wf(t.children[0]));
    assert(text_wf(txt));
    lemma_escape_not_all_ws(txt);
    assert(!all_ws(s.subrange(k, re)));
    lemma_unescape_escape(txt);
    assert(et[re + 1 - i] == '/');
    assert(s[re + 1] == '/');
    let ce = re + 2 + n;
    assert forall|q: int| re + 2 <= q < ce implies is_name_char(#[trigger] s[q]) by {
        assert(et[q - i] == t.name[q - (re + 2)]);
    }
    assert(et[ce - i] == '>');
    assert(s[ce] == '>');
    lemma_scan_name(s, re + 2, ce);
    assert(s.subrange(re + 2, ce) =~= t.name) by {
        assert forall|q: int| 0 <= q < n implies s.subrange(re + 2, ce)[q] == t.name[q] by {
            assert(s[re + 2 + q] == et[re + 2 + q - i]);
        }
    }
    assert(ce + 1 == i + ll);
    assert(t.children =~= seq![NodeV::Text(txt)]);
    assert(sp_content(s, k, s.subrange(i + 1, ne), t.attrs) == Some(
        (ElemV { name: s.subrange(i + 1, ne), attrs: t.attrs, children: seq![NodeV::Text(txt)] }, ce + 1),
    ));
    assert(ElemV {
        name: s.subrange(i + 1, ne),
        attrs: t.attrs,
        children: seq![NodeV::Text(txt)],
    } == t);
}

/// Region facts of a written block element: the children's text, the
/// whitespace before the closing tag, and the closing tag itself.
#[verifier::rlimit(100)]
proof fn lemma_parse_elem_block_tail(t: ElemV, d: nat, s: Seq<char>, i: int)
    requires
        elem_wf(t),
        0 <= i,
        i + elem_text(t, d).len() <= s.len(),
        s.subrange(i, i + elem_text(t, d).len() as int) == elem_text(t, d),
        !(t.children.len() == 0),
        !(t.children.len() == 1 && t.children[0] is Text),
    ensures
        ({
            let n = t.name.len() as int;
            let ne = i + 1 + n;
            let ja = ne + attrs_text(t.attrs).len() as int;
            let k = ja + 1;
            let ct = children_text(t.children, d + 1);
            let pc = k + ct.len() as int;
            let m = pc + 1 + 4 * d;
            let ce = m + 2 + n;
            &&& s.subrange(k, pc) == ct
            &&& forall|q: int| pc <= q < m ==> is_ws_char(#[trigger] s[q])
            &&& m + 1 < s.len()
            &&& s[m] == '<'
            &&& s[m + 1] == '/'
            &&& sp_name_end(s, m + 2) == ce
            &&& s.subrange(m + 2, ce) == t.name
            &&& ce < s.len()
            &&& s[ce] == '>'
            &&& ce + 1 == i + elem_text(t, d).len()
        }),
{
    let et = elem_text(t, d);
    let ll = et.len() as int;
    let n = t.name.len() as int;
    let at = attrs_text(t.attrs);
    let ne = i + 1 + n;
    let ja = ne + at.len() as int;
    assert forall|k: int| i <= k < i + ll implies s[k] == et[k - i] by {
        assert(s.subrange(i, i + ll)[k - i] == s[k]);
    }
    let open = seq!['<'] + t.name + at;
    let ct = children_text(t.children, d + 1);
    assert(et == open + seq!['>'] + ct + seq!['\n'] + indent(d) + seq!['<', '/'] + t.name
        + seq!['>']);
    let k = ja + 1;
    let pc = k + ct.len() as int;
    let m = pc + 1 + 4 * d;
    lemma_indent_chars(d);
    assert(et[pc - i] == '\n');
    assert forall|q: int| pc + 1 <= q < m implies is_ws_char(#[trigger] s[q]) by {
        assert(et[q - i] == indent(d)[q - pc - 1]);
    }
    assert(s[pc] == '\n');
    assert(et[m - i] == '<');
    assert(s[m] == '<');
    assert(et[m + 1 - i] == '/');
    assert(s[m + 1] == '/');
    assert(s.subrange(k, pc) =~= ct) by {
        assert forall|q: int| 0 <= q < ct.len() implies s.subrange(k, pc)[q] == ct[q] by {
            assert(s[k + q] == et[k + q - i]);
        }
    }
    let ce = m + 2 + n;
    assert forall|q: int| m + 2 <= q < ce implies is_name_char(#[trigger] s[q]) by {
        assert(et[q - i] == t.name[q - (m + 2)]);
    }
    assert(et[ce - i] == '>');
    assert(s[ce] == '>');
    lemma_scan_name(s, m + 2, ce);
    assert(s.subrange(m + 2, ce) =~= t.name) by {
        assert forall|q: int| 0 <= q < n implies s.subrange(m + 2, ce)[q] == t.name[q] by {
            assert(s[m + 2 + q] == et[m + 2 + q - i]);
        }
    }
}

/// The raw run after a block element's start tag is the line break and the
/// indentation before its first child.
#[verifier::rlimit(100)]
proof fn lemma_parse_elem_block_raw(t: ElemV, d: nat, s: Seq<char>, i: int)
    requires
        elem_wf(t),
        0 <= i,
        i + elem_text(t, d).len() <= s.len(),
        s.subrange(i, i + elem_text(t, d).len() as int) == elem_text(t, d),
        !(t.children.len() == 0),
        !(t.children.len() == 1 && t.children[0] is Text),
    ensures
        ({
            let n = t.name.len() as int;
            let k = i + 2 + n + attrs_text(t.attrs).len() as int;
            let re0 = k + 1 + 4 * (d + 1);
            &&& sp_raw(s, k) == re0
            &&& re0 < s.len()
            &&& all_ws(s.subrange(k, re0))
        }),
{
    let et = elem_text(t, d);
    let ll = et.len() as int;
    let n = t.name.len() as int;
    let at = attrs_text(t.attrs);
    let ne = i + 1 + n;
    let ja = ne + at.len() as int;
    assert forall|w: int| i <= w < i + ll implies s[w] == et[w - i] by {
        assert(s.subrange(i, i + ll)[w - i] == s[w]);
    }
    let open = seq!['<'] + t.name + at;
    let ct = children_text(t.children, d + 1);
    assert(et == open + seq!['>'] + ct + seq!['\n'] + indent(d) + seq!['<', '/'] + t.name
        + seq!['>']);
    let k = ja + 1;
    assert(t.children.len() > 0);
    lemma_children_text_cons(t.children, (d + 1) as nat);
    let frag0 = seq!['\n'] + indent((d + 1) as nat) + node_text(t.children[0], (d + 1) as nat);
    lemma_indent_chars((d + 1) as nat);
    let re0 = k + 1 + 4 * (d + 1);
    crate::xml::lemma_nodes_wf_index(t.children, 0);
    assert(t.children[0] is Elem);
    let e0 = match t.children[0] {
        NodeV::Elem(e) => e,
        NodeV::Text(_) => arbitrary(),
    };
    assert(node_text(t.children[0], (d + 1) as nat) == elem_text(e0, (d + 1) as nat));
    assert(elem_text(e0, (d + 1) as nat)[0] == '<');
    assert forall|q: int| k <= q < re0 implies #[trigger] s[q] != '<' && is_ws_char(s[q]) by {
        assert(et[q - i] == ct[q - k]);
        assert(ct[q - k] == frag0[q - k]);
        if q == k {
            assert(frag0[0] == '\n');
        } else {
            assert(frag0[q - k] == indent((d + 1) as nat)[q - k - 1]);
        }
    }
    assert(et[re0 - i] == ct[re0 - k]);
    assert(ct[re0 - k] == frag0[re0 - k]);
    assert(frag0[re0 - k] == '<');
    assert(s[re0] == '<');
    lemma_scan_raw(s, k, re0);
    assert(all_ws(s.subrange(k, re0))) by {
        assert forall|q: int| 0 <= q < re0 - k implies is_ws_char(
            #[trigger] s.subrange(k, re0)[q],
        ) by {
            assert(s.subrange(k, re0)[q] == s[k + q]);
        }
    }
}

/// Reading a written element holding child elements.
#[verifier::rlimit(100)]
proof fn lemma_parse_elem_block(t: ElemV, d: nat, s: Seq<char>, i: int)
    requires
        elem_wf(t),
        0 <= i,
        i + elem_text(t, d).len() <= s.len(),
        s.subrange(i, i + elem_text(t, d).len() as int) == elem_text(t, d),
        !(t.children.len() == 0),
        !(t.children.len() == 1 && t.children[0] is Text),
    ensures
        sp_elem(s, i) == Some((t, i + elem_text(t, d).len() as int)),
    decreases t, 0int,
{
    let et = elem_text(t, d);
    let ll = et.len() as int;
    let n = t.name.len() as int;
    let at = attrs_text(t.attrs);
    let ne = i + 1 + n;
    let ja = ne + at.len() as int;
    let k = ja + 1;
    let ct = children_text(t.children, d + 1);
    let pc = k + ct.len() as int;
    let m = pc + 1 + 4 * d;
    let ce = m + 2 + n;
    lemma_parse_elem_head(t, d, s, i);
    lemma_parse_elem_block_tail(t, d, s, i);
    lemma_parse_elem_block_raw(t, d, s, i);
    assert(text_free(t.children));
    lemma_parse_children(t.children, (d + 1) as nat, s, k, m);
    assert(sp_content(s, k, s.subrange(i + 1, ne), t.attrs) == Some(
        (ElemV { name: s.subrange(i + 1, ne), attrs: t.attrs, children: t.children }, ce + 1),
    ));
    assert(ElemV { name: s.subrange(i + 1, ne), attrs: t.attrs, children: t.children } == t);
}

/// Reading the written text of a well-formed element yields exactly that
/// element.
pub proof fn lemma_parse_elem(t: ElemV, d: nat, s: Seq<char>, i: int)
    requires
        elem_wf(t),
        0 <= i,
        i + elem_text(t, d).len() <= s.len(),
        s.subrange(i, i + elem_text(t, d).len() as int) == elem_text(t, d),

    ensures
        sp_elem(s, i) == Some((t, i + elem_text(t, d).len() as int)),
    decreases t, 1int,
{
    if t.children.len() == 0 {
        lemma_parse_elem_empty(t, d, s, i);
    } else if t.children.len() == 1 && t.children[0] is Text {
        lemma_parse_elem_text(t, d, s, i);
    } else {
        lemma_parse_elem_block(t, d, s, i);
    }
}

/// Reading the written text of a well-formed child list, followed by
/// whitespace and the opening of the parent's closing tag, yields exactly
/// those children and stops at the closing tag.
#[verifier::rlimit(100)]
pub proof fn lemma_parse_children(v: Seq<NodeV>, d: nat, s: Seq<char>, i: int, m: int)
    requires
        nodes_wf(v),
        text_free(v),
        0 <= i,
        i + children_text(v, d).len() <= m,
        s.subrange(i, i + children_text(v, d).len() as int) == children_text(v, d),
        forall|q: int| i + children_text(v, d).len() <= q < m ==> is_ws_char(#[trigger] s[q]),
        m + 1 < s.len(),
        s[m] == '<',
        s[m + 1] == '/',
    ensures
        sp_children(s, i) == Some((v, m)),
    decreases v, 1int,
{
    let ct = children_text(v, d);
    if v.len() == 0 {
        assert(ct.len() == 0);
        lemma_scan_ws(s, i, m);
        assert(Seq::<NodeV>::empty() =~= v);
    } else {
        lemma_children_text_cons(v, d);
        let rest = v.subrange(1, v.len() as int);
        let frag0 = seq!['\n'] + indent(d) + node_text(v[0], d);
        let crest = children_text(rest, d);
        assert(ct == frag0 + crest);
        assert forall|k: int| i <= k < i + ct.len() implies s[k] == ct[k - i] by {
            assert(s.subrange(i, i + ct.len() as int)[k - i] == s[k]);
        }
        lemma_indent_chars(d);
        let j0 = i + 1 + 4 * d;
        crate::xml::lemma_nodes_wf_index(v, 0);
        assert(v[0] is Elem);
        let e0 = match v[0] {
            NodeV::Elem(e) => e,
            NodeV::Text(_) => arbitrary(),
        };
        assert(node_text(v[0], d) == elem_text(e0, d));
        let l0 = elem_text(e0, d).len() as int;
        assert forall|q: int| i <= q < j0 implies is_ws_char(#[trigger] s[q]) by {
            assert(ct[q - i] == frag0[q - i]);
            if q == i {
                assert(frag0[0] == '\n');
            } else {
                assert(frag0[q - i] == indent(d)[q - i - 1]);
            }
        }
        assert(elem_wf(e0));
        assert(elem_text(e0, d)[0] == '<');
        assert(ct[j0 - i] == frag0[j0 - i]);
        assert(frag0[j0 - i] == elem_text(e0, d)[0]);
        assert(s[j0] == '<');
        lemma_scan_ws(s, i, j0);
        // The first child's element text.
        assert(s.subrange(j0, j0 + l0) =~= elem_text(e0, d)) by {
            assert forall|q: int| 0 <= q < l0 implies s.subrange(j0, j0 + l0)[q] == elem_text(
                e0,
                d,
            )[q] by {
                assert(s[j0 + q] == ct[j0 + q - i]);
                assert(ct[j0 + q - i] == frag0[j0 + q - i]);
            }
        }
        assert(decreases_to!(v => v[0]));
        lemma_parse_elem(e0, d, s, j0);
        // The element name begins right after the `<`, so this is no
        // closing tag.
        assert(elem_text(e0, d)[1] == e0.name[0]);
        assert(s[j0 + 1] == e0.name[0]);
        assert(is_name_char(e0.name[0]));
        assert(s[j0 + 1] != '/');
        // The rest of the children.
        let i2 = j0 + l0;
        assert(i2 == i + frag0.len());
        assert(s.subrange(i2, i2 + crest.len() as int) =~= crest) by {
            assert forall|q: int| 0 <= q < crest.len() implies s.subrange(
                i2,
                i2 + crest.len() as int,
            )[q] == crest[q] by {
                assert(s[i2 + q] == ct[i2 + q - i]);
            }
        }
        lemma_nodes_wf_drop_first(v);
        assert(text_free(rest));
        assert(forall|q: int|
            i2 + crest.len() <= q < m ==> is_ws_char(#[trigger] s[q]));
        lemma_parse_children(rest, d, s, i2, m);
        assert(seq![NodeV::Elem(e0)] + rest =~= v);
    }
}

} // verus!

// Reading back a whole document.

verus! {

/// Reading the written document of a well-formed tree yields exactly that
/// tree.
#[verifier::rlimit(100)]
pub proof fn lemma_parse_doc(t: ElemV)
    requires
        elem_wf(t),
    ensures
        sp_doc(doc_text(t)) == Some(t),
{
    reveal_strlit("<?xml version=\"1.0\"?>\n<!DOCTYPE simulation SYSTEM \"fers-xml.dtd\">\n");
    let pro = "<?xml version=\"1.0\"?>\n<!DOCTYPE simulation SYSTEM \"fers-xml.dtd\">\n"@;
    let et = elem_text(t, 0);
    let s = doc_text(t);
    assert(pro.len() == 66);
    assert(s == pro + et);
    assert(s.len() == 66 + et.len());
    assert forall|k: int| 0 <= k < 66 implies s[k] == pro[k] by {}
    assert(s[0] == '<');
    assert(!is_ws_char(s[0]));
    lemma_scan_ws(s, 0, 0);
    assert(s[1] == '?');
    assert forall|k: int| 2 <= k < 19 implies !(#[trigger] s[k] == '?' && s[k + 1] == '>') by {
        assert(k == 2 || k == 3 || k == 4 || k == 5 || k == 6 || k == 7 || k == 8 || k == 9 || k == 10 || k == 11 || k == 12 || k == 13 || k == 14 || k == 15 || k == 16 || k == 17 || k == 18);
    }
    assert(s[19] == '?' && s[20] == '>');
    lemma_scan_qm(s, 2, 19);
    assert(sp_qm(s, 2) == Some(21int));
    assert(s[21] == '\n');
    assert(is_ws_char(s[21]));
    assert(s[22] == '<');
    assert(!is_ws_char(s[22]));
    lemma_scan_ws(s, 21, 22);
    assert(s[23] == '!');
    assert forall|k: int| 24 <= k < 64 implies #[trigger] s[k] != '>' by {
        assert(k == 24 || k == 25 || k == 26 || k == 27 || k == 28 || k == 29 || k == 30 || k == 31 || k == 32 || k == 33 || k == 34 || k == 35 || k == 36 || k == 37 || k == 38 || k == 39 || k == 40 || k == 41 || k == 42 || k == 43 || k == 44 || k == 45 || k == 46 || k == 47 || k == 48 || k == 49 || k == 50 || k == 51 || k == 52 || k == 53 || k == 54 || k == 55 || k == 56 || k == 57 || k == 58 || k == 59 || k == 60 || k == 61 || k == 62 || k == 63);
    }
    assert(s[64] == '>');
    lemma_scan_gt(s, 24, 64);
    assert(sp_gt(s, 24) == Some(65int));
    assert(s[65] == '\n');
    assert(s.subrange(66, 66 + et.len() as int) =~= et);
    lemma_parse_elem(t, 0, s, 66);
    assert(et[0] == '<');
    assert(s[66] == '<');
    assert(!is_ws_char(s[66]));
    lemma_scan_ws(s, 65, 66);
    lemma_scan_ws(s, 66 + et.len() as int, s.len() as int);
}

} // verus!

// The fixed markup names of the schema are valid names.

verus! {

/// Validity of one share of the fixed markup names.
#[verifier::rlimit(100)]
pub proof fn lemma_names_valid_0()
    ensures
        is_name("simulation"@),
        is_name("endtime"@),
        is_name("simSamplingRate"@),
        is_name("oversample"@),
        is_name("power"@),
        is_name("frequency"@),
        is_name("phase_offset"@),
        is_name("alpha"@),
        is_name("efficiency"@),
        is_name("azscale"@),
        is_name("platform"@),
        is_name("x"@),
        is_name("time"@),
        is_name("startelevation"@),
        is_name("rotationpath"@),
        is_name("elevation"@),
        is_name("receiver"@),
        is_name("window_length"@),
        is_name("rcs"@),
        is_name("k"@),
        is_name("filename"@),
        is_name("xml"@),
        is_name("nodirect"@),
{
    reveal_strlit("simulation");
    reveal_strlit("endtime");
    reveal_strlit("simSamplingRate");
    reveal_strlit("oversample");
    reveal_strlit("power");
    reveal_strlit("frequency");
    reveal_strlit("phase_offset");
    reveal_strlit("alpha");
    reveal_strlit("efficiency");
    reveal_strlit("azscale");
    reveal_strlit("platform");
    reveal_strlit("x");
    reveal_strlit("time");
    reveal_strlit("startelevation");
    reveal_strlit("rotationpath");
    reveal_strlit("elevation");
    reveal_strlit("receiver");
    reveal_strlit("window_length");
    reveal_strlit("rcs");
    reveal_strlit("k");
    reveal_strlit("filename");
    reveal_strlit("xml");
    reveal_strlit("nodirect");
    assert forall|q: int| 0 <= q < "simulation"@.len() implies is_name_char(#[trigger] "simulation"@[q]) by {
        assert(q == 0 || q == 1 || q == 2 || q == 3 || q == 4 || q == 5 || q == 6 || q == 7 || q == 8 || q == 9);
    }
    assert forall|q: int| 0 <= q < "endtime"@.len() implies is_name_char(#[trigger] "endtime"@[q]) by {
        assert(q == 0 || q == 1 || q == 2 || q == 3 || q == 4 || q == 5 || q == 6);
    }
    assert forall|q: int| 0 <= q < "simSamplingRate"@.len() implies is_name_char(#[trigger] "simSamplingRate"@[q]) by {
        assert(q == 0 || q == 1 || q == 2 || q == 3 || q == 4 || q == 5 || q == 6 || q == 7 || q == 8 || q == 9 || q == 10 || q == 11 || q == 12 || q == 13 || q == 14);
    }
    assert forall|q: int| 0 <= q < "oversample"@.len() implies is_name_char(#[trigger] "oversample"@[q]) by {
        assert(q == 0 || q == 1 || q == 2 || q == 3 || q == 4 || q == 5 || q == 6 || q == 7 || q == 8 || q == 9);
    }
    assert forall|q: int| 0 <= q < "power"@.len() implies is_name_char(#[trigger] "power"@[q]) by {
        assert(q == 0 || q == 1 || q == 2 || q == 3 || q == 4);
    }
    assert forall|q: int| 0 <= q < "frequency"@.len() implies is_name_char(#[trigger] "frequency"@[q]) by {
        assert(q == 0 || q == 1 || q == 2 || q == 3 || q == 4 || q == 5 || q == 6 || q == 7 || q == 8);
    }
    assert forall|q: int| 0 <= q < "phase_offset"@.len() implies is_name_char(#[trigger] "phase_offset"@[q]) by {
        assert(q == 0 || q == 1 || q == 2 || q == 3 || q == 4 || q == 5 || q == 6 || q == 7 || q == 8 || q == 9 || q == 10 || q == 11);
    }
    assert forall|q: int| 0 <= q < "alpha"@.len() implies is_name_char(#[trigger] "alpha"@[q]) by {
        assert(q == 0 || q == 1 || q == 2 || q == 3 || q == 4);
    }
    assert forall|q: int| 0 <= q < "efficiency"@.len() implies is_name_char(#[trigger] "efficiency"@[q]) by {
        assert(q == 0 || q == 1 || q == 2 || q == 3 || q == 4 || q == 5 || q == 6 || q == 7 || q == 8 || q == 9);
    }
    assert forall|q: int| 0 <= q < "azscale"@.len() implies is_name_char(#[trigger] "azscale"@[q]) by {
        assert(q == 0 || q == 1 || q == 2 || q == 3 || q == 4 || q == 5 || q == 6);
    }
    assert forall|q: int| 0 <= q < "platform"@.len() implies is_name_char(#[trigger] "platform"@[q]) by {
        assert(q == 0 || q == 1 || q == 2 || q == 3 || q == 4 || q == 5 || q == 6 || q == 7);
    }
    assert forall|q: int| 0 <= q < "x"@.len() implies is_name_char(#[trigger] "x"@[q]) by {
        assert(q == 0);
    }
    assert forall|q: int| 0 <= q < "time"@.len() implies is_name_char(#[trigger] "time"@[q]) by {
        assert(q == 0 || q == 1 || q == 2 || q == 3);
    }
    assert forall|q: int| 0 <= q < "startelevation"@.len() implies is_name_char(#[trigger] "startelevation"@[q]) by {
        assert(q == 0 || q == 1 || q == 2 || q == 3 || q == 4 || q == 5 || q == 6 || q == 7 || q == 8 || q == 9 || q == 10 || q == 11 || q == 12 || q == 13);
    }
    assert forall|q: int| 0 <= q < "rotationpath"@.len() implies is_name_char(#[trigger] "rotationpath"@[q]) by {
        assert(q == 0 || q == 1 || q == 2 || q == 3 || q == 4 || q == 5 || q == 6 || q == 7 || q == 8 || q == 9 || q == 10 || q == 11);
    }
    assert forall|q: int| 0 <= q < "elevation"@.len() implies is_name_char(#[trigger] "elevation"@[q]) by {
        assert(q == 0 || q == 1 || q == 2 || q == 3 || q == 4 || q == 5 || q == 6 || q == 7 || q == 8);
    }
    assert forall|q: int| 0 <= q < "receiver"@.len() implies is_name_char(#[trigger] "receiver"@[q]) by {
        assert(q == 0 || q == 1 || q == 2 || q == 3 || q == 4 || q == 5 || q == 6 || q == 7);
    }
    assert forall|q: int| 0 <= q < "window_length"@.len() implies is_name_char(#[trigger] "window_length"@[q]) by {
        assert(q == 0 || q == 1 || q == 2 || q == 3 || q == 4 || q == 5 || q == 6 || q == 7 || q == 8 || q == 9 || q == 10 || q == 11 || q == 12);
    }
    assert forall|q: int| 0 <= q < "rcs"@.len() implies is_name_char(#[trigger] "rcs"@[q]) by {
        assert(q == 0 || q == 1 || q == 2);
    }
    assert forall|q: int| 0 <= q < "k"@.len() implies is_name_char(#[trigger] "k"@[q]) by {
        assert(q == 0);
    }
    assert forall|q: int| 0 <= q < "filename"@.len() implies is_name_char(#[trigger] "filename"@[q]) by {
        assert(q == 0 || q == 1 || q == 2 || q == 3 || q == 4 || q == 5 || q == 6 || q == 7);
    }
    assert forall|q: int| 0 <= q < "xml"@.len() implies is_name_char(#[trigger] "xml"@[q]) by {
        assert(q == 0 || q == 1 || q == 2);
    }
    assert forall|q: int| 0 <= q < "nodirect"@.len() implies is_name_char(#[trigger] "nodirect"@[q]) by {
        assert(q == 0 || q == 1 || q == 2 || q == 3 || q == 4 || q == 5 || q == 6 || q == 7);
    }
}

/// Validity of one share of the fixed markup names.
#[verifier::rlimit(100)]
pub proof fn lemma_names_valid_1()
    ensures
        is_name("parameters"@),
        is_name("rate"@),
        is_name("randomseed"@),
        is_name("export"@),
        is_name("carrier"@),
        is_name("freq_offset"@),
        is_name("random_phase_offset_stdev"@),
        is_name("weight"@),
        is_name("beta"@),
        is_name("elscale"@),
        is_name("motionpath"@),
        is_name("y"@),
        is_name("fixedrotation"@),
        is_name("azimuthrate"@),
        is_name("rotationwaypoint"@),
        is_name("monostatic"@),
        is_name("target"@),
        is_name("prf"@),
        is_name("model"@),
        is_name("name"@),
        is_name("binary"@),
        is_name("pattern"@),
        is_name("nopropagationloss"@),
{
    reveal_strlit("parameters");
    reveal_strlit("rate");
    reveal_strlit("randomseed");
    reveal_strlit("export");
    reveal_strlit("carrier");
    reveal_strlit("freq_offset");
    reveal_strlit("random_phase_offset_stdev");
    reveal_strlit("weight");
    reveal_strlit("beta");
    reveal_strlit("elscale");
    reveal_strlit("motionpath");
    reveal_strlit("y");
    reveal_strlit("fixedrotation");
    reveal_strlit("azimuthrate");
    reveal_strlit("rotationwaypoint");
    reveal_strlit("monostatic");
    reveal_strlit("target");
    reveal_strlit("prf");
    reveal_strlit("model");
    reveal_strlit("name");
    reveal_strlit("binary");
    reveal_strlit("pattern");
    reveal_strlit("nopropagationloss");
    assert forall|q: int| 0 <= q < "parameters"@.len() implies is_name_char(#[trigger] "parameters"@[q]) by {
        assert(q == 0 || q == 1 || q == 2 || q == 3 || q == 4 || q == 5 || q == 6 || q == 7 || q == 8 || q == 9);
    }
    assert forall|q: int| 0 <= q < "rate"@.len() implies is_name_char(#[trigger] "rate"@[q]) by {
        assert(q == 0 || q == 1 || q == 2 || q == 3);
    }
    assert forall|q: int| 0 <= q < "randomseed"@.len() implies is_name_char(#[trigger] "randomseed"@[q]) by {
        assert(q == 0 || q == 1 || q == 2 || q == 3 || q == 4 || q == 5 || q == 6 || q == 7 || q == 8 || q == 9);
    }
    assert forall|q: int| 0 <= q < "export"@.len() implies is_name_char(#[trigger] "export"@[q]) by {
        assert(q == 0 || q == 1 || q == 2 || q == 3 || q == 4 || q == 5);
    }
    assert forall|q: int| 0 <= q < "carrier"@.len() implies is_name_char(#[trigger] "carrier"@[q]) by {
        assert(q == 0 || q == 1 || q == 2 || q == 3 || q == 4 || q == 5 || q == 6);
    }
    assert forall|q: int| 0 <= q < "freq_offset"@.len() implies is_name_char(#[trigger] "freq_offset"@[q]) by {
        assert(q == 0 || q == 1 || q == 2 || q == 3 || q == 4 || q == 5 || q == 6 || q == 7 || q == 8 || q == 9 || q == 10);
    }
    assert forall|q: int| 0 <= q < "random_phase_offset_stdev"@.len() implies is_name_char(#[trigger] "random_phase_offset_stdev"@[q]) by {
        assert(q == 0 || q == 1 || q == 2 || q == 3 || q == 4 || q == 5 || q == 6 || q == 7 || q == 8 || q == 9 || q == 10 || q == 11 || q == 12 || q == 13 || q == 14 || q == 15 || q == 16 || q == 17 || q == 18 || q == 19 || q == 20 || q == 21 || q == 22 || q == 23 || q == 24);
    }
    assert forall|q: int| 0 <= q < "weight"@.len() implies is_name_char(#[trigger] "weight"@[q]) by {
        assert(q == 0 || q == 1 || q == 2 || q == 3 || q == 4 || q == 5);
    }
    assert forall|q: int| 0 <= q < "beta"@.len() implies is_name_char(#[trigger] "beta"@[q]) by {
        assert(q == 0 || q == 1 || q == 2 || q == 3);
    }
    assert forall|q: int| 0 <= q < "elscale"@.len() implies is_name_char(#[trigger] "elscale"@[q]) by {
        assert(q == 0 || q == 1 || q == 2 || q == 3 || q == 4 || q == 5 || q == 6);
    }
    assert forall|q: int| 0 <= q < "motionpath"@.len() implies is_name_char(#[trigger] "motionpath"@[q]) by {
        assert(q == 0 || q == 1 || q == 2 || q == 3 || q == 4 || q == 5 || q == 6 || q == 7 || q == 8 || q == 9);
    }
    assert forall|q: int| 0 <= q < "y"@.len() implies is_name_char(#[trigger] "y"@[q]) by {
        assert(q == 0);
    }
    assert forall|q: int| 0 <= q < "fixedrotation"@.len() implies is_name_char(#[trigger] "fixedrotation"@[q]) by {
        assert(q == 0 || q == 1 || q == 2 || q == 3 || q == 4 || q == 5 || q == 6 || q == 7 || q == 8 || q == 9 || q == 10 || q == 11 || q == 12);
    }
    assert forall|q: int| 0 <= q < "azimuthrate"@.len() implies is_name_char(#[trigger] "azimuthrate"@[q]) by {
        assert(q == 0 || q == 1 || q == 2 || q == 3 || q == 4 || q == 5 || q == 6 || q == 7 || q == 8 || q == 9 || q == 10);
    }
    assert forall|q: int| 0 <= q < "rotationwaypoint"@.len() implies is_name_char(#[trigger] "rotationwaypoint"@[q]) by {
        assert(q == 0 || q == 1 || q == 2 || q == 3 || q == 4 || q == 5 || q == 6 || q == 7 || q == 8 || q == 9 || q == 10 || q == 11 || q == 12 || q == 13 || q == 14 || q == 15);
    }
    assert forall|q: int| 0 <= q < "monostatic"@.len() implies is_name_char(#[trigger] "monostatic"@[q]) by {
        assert(q == 0 || q == 1 || q == 2 || q == 3 || q == 4 || q == 5 || q == 6 || q == 7 || q == 8 || q == 9);
    }
    assert forall|q: int| 0 <= q < "target"@.len() implies is_name_char(#[trigger] "target"@[q]) by {
        assert(q == 0 || q == 1 || q == 2 || q == 3 || q == 4 || q == 5);
    }
    assert forall|q: int| 0 <= q < "prf"@.len() implies is_name_char(#[trigger] "prf"@[q]) by {
        assert(q == 0 || q == 1 || q == 2);
    }
    assert forall|q: int| 0 <= q < "model"@.len() implies is_name_char(#[trigger] "model"@[q]) by {
        assert(q == 0 || q == 1 || q == 2 || q == 3 || q == 4);
    }
    assert forall|q: int| 0 <= q < "name"@.len() implies is_name_char(#[trigger] "name"@[q]) by {
        assert(q == 0 || q == 1 || q == 2 || q == 3);
    }
    assert forall|q: int| 0 <= q < "binary"@.len() implies is_name_char(#[trigger] "binary"@[q]) by {
        assert(q == 0 || q == 1 || q == 2 || q == 3 || q == 4 || q == 5);
    }
    assert forall|q: int| 0 <= q < "pattern"@.len() implies is_name_char(#[trigger] "pattern"@[q]) by {
        assert(q == 0 || q == 1 || q == 2 || q == 3 || q == 4 || q == 5 || q == 6);
    }
    assert forall|q: int| 0 <= q < "nopropagationloss"@.len() implies is_name_char(#[trigger] "nopropagationloss"@[q]) by {
        assert(q == 0 || q == 1 || q == 2 || q == 3 || q == 4 || q == 5 || q == 6 || q == 7 || q == 8 || q == 9 || q == 10 || q == 11 || q == 12 || q == 13 || q == 14 || q == 15 || q == 16);
    }
}

/// Validity of one share of the fixed markup names.
#[verifier::rlimit(100)]
pub proof fn lemma_names_valid_2()
    ensures
        is_name("starttime"@),
        is_name("c"@),
        is_name("adc_bits"@),
        is_name("pulse"@),
        is_name("timing"@),
        is_name("random_freq_offset_stdev"@),
        is_name("noise_entry"@),
        is_name("antenna"@),
        is_name("gamma"@),
        is_name("diameter"@),
        is_name("positionwaypoint"@),
        is_name("altitude"@),
        is_name("startazimuth"@),
        is_name("elevationrate"@),
        is_name("azimuth"@),
        is_name("transmitter"@),
        is_name("window_skip"@),
        is_name("noise_temp"@),
        is_name("value"@),
        is_name("type"@),
        is_name("csv"@),
        is_name("interpolation"@),
{
    reveal_strlit("starttime");
    reveal_strlit("c");
    reveal_strlit("adc_bits");
    reveal_strlit("pulse");
    reveal_strlit("timing");
    reveal_strlit("random_freq_offset_stdev");
    reveal_strlit("noise_entry");
    reveal_strlit("antenna");
    reveal_strlit("gamma");
    reveal_strlit("diameter");
    reveal_strlit("positionwaypoint");
    reveal_strlit("altitude");
    reveal_strlit("startazimuth");
    reveal_strlit("elevationrate");
    reveal_strlit("azimuth");
    reveal_strlit("transmitter");
    reveal_strlit("window_skip");
    reveal_strlit("noise_temp");
    reveal_strlit("value");
    reveal_strlit("type");
    reveal_strlit("csv");
    reveal_strlit("interpolation");
    assert forall|q: int| 0 <= q < "starttime"@.len() implies is_name_char(#[trigger] "starttime"@[q]) by {
        assert(q == 0 || q == 1 || q == 2 || q == 3 || q == 4 || q == 5 || q == 6 || q == 7 || q == 8);
    }
    assert forall|q: int| 0 <= q < "c"@.len() implies is_name_char(#[trigger] "c"@[q]) by {
        assert(q == 0);
    }
    assert forall|q: int| 0 <= q < "adc_bits"@.len() implies is_name_char(#[trigger] "adc_bits"@[q]) by {
        assert(q == 0 || q == 1 || q == 2 || q == 3 || q == 4 || q == 5 || q == 6 || q == 7);
    }
    assert forall|q: int| 0 <= q < "pulse"@.len() implies is_name_char(#[trigger] "pulse"@[q]) by {
        assert(q == 0 || q == 1 || q == 2 || q == 3 || q == 4);
    }
    assert forall|q: int| 0 <= q < "timing"@.len() implies is_name_char(#[trigger] "timing"@[q]) by {
        assert(q == 0 || q == 1 || q == 2 || q == 3 || q == 4 || q == 5);
    }
    assert forall|q: int| 0 <= q < "random_freq_offset_stdev"@.len() implies is_name_char(#[trigger] "random_freq_offset_stdev"@[q]) by {
        assert(q == 0 || q == 1 || q == 2 || q == 3 || q == 4 || q == 5 || q == 6 || q == 7 || q == 8 || q == 9 || q == 10 || q == 11 || q == 12 || q == 13 || q == 14 || q == 15 || q == 16 || q == 17 || q == 18 || q == 19 || q == 20 || q == 21 || q == 22 || q == 23);
    }
    assert forall|q: int| 0 <= q < "noise_entry"@.len() implies is_name_char(#[trigger] "noise_entry"@[q]) by {
        assert(q == 0 || q == 1 || q == 2 || q == 3 || q == 4 || q == 5 || q == 6 || q == 7 || q == 8 || q == 9 || q == 10);
    }
    assert forall|q: int| 0 <= q < "antenna"@.len() implies is_name_char(#[trigger] "antenna"@[q]) by {
        assert(q == 0 || q == 1 || q == 2 || q == 3 || q == 4 || q == 5 || q == 6);
    }
    assert forall|q: int| 0 <= q < "gamma"@.len() implies is_name_char(#[trigger] "gamma"@[q]) by {
        assert(q == 0 || q == 1 || q == 2 || q == 3 || q == 4);
    }
    assert forall|q: int| 0 <= q < "diameter"@.len() implies is_name_char(#[trigger] "diameter"@[q]) by {
        assert(q == 0 || q == 1 || q == 2 || q == 3 || q == 4 || q == 5 || q == 6 || q == 7);
    }
    assert forall|q: int| 0 <= q < "positionwaypoint"@.len() implies is_name_char(#[trigger] "positionwaypoint"@[q]) by {
        assert(q == 0 || q == 1 || q == 2 || q == 3 || q == 4 || q == 5 || q == 6 || q == 7 || q == 8 || q == 9 || q == 10 || q == 11 || q == 12 || q == 13 || q == 14 || q == 15);
    }
    assert forall|q: int| 0 <= q < "altitude"@.len() implies is_name_char(#[trigger] "altitude"@[q]) by {
        assert(q == 0 || q == 1 || q == 2 || q == 3 || q == 4 || q == 5 || q == 6 || q == 7);
    }
    assert forall|q: int| 0 <= q < "startazimuth"@.len() implies is_name_char(#[trigger] "startazimuth"@[q]) by {
        assert(q == 0 || q == 1 || q == 2 || q == 3 || q == 4 || q == 5 || q == 6 || q == 7 || q == 8 || q == 9 || q == 10 || q == 11);
    }
    assert forall|q: int| 0 <= q < "elevationrate"@.len() implies is_name_char(#[trigger] "elevationrate"@[q]) by {
        assert(q == 0 || q == 1 || q == 2 || q == 3 || q == 4 || q == 5 || q == 6 || q == 7 || q == 8 || q == 9 || q == 10 || q == 11 || q == 12);
    }
    assert forall|q: int| 0 <= q < "azimuth"@.len() implies is_name_char(#[trigger] "azimuth"@[q]) by {
        assert(q == 0 || q == 1 || q == 2 || q == 3 || q == 4 || q == 5 || q == 6);
    }
    assert forall|q: int| 0 <= q < "transmitter"@.len() implies is_name_char(#[trigger] "transmitter"@[q]) by {
        assert(q == 0 || q == 1 || q == 2 || q == 3 || q == 4 || q == 5 || q == 6 || q == 7 || q == 8 || q == 9 || q == 10);
    }
    assert forall|q: int| 0 <= q < "window_skip"@.len() implies is_name_char(#[trigger] "window_skip"@[q]) by {
        assert(q == 0 || q == 1 || q == 2 || q == 3 || q == 4 || q == 5 || q == 6 || q == 7 || q == 8 || q == 9 || q == 10);
    }
    assert forall|q: int| 0 <= q < "noise_temp"@.len() implies is_name_char(#[trigger] "noise_temp"@[q]) by {
        assert(q == 0 || q == 1 || q == 2 || q == 3 || q == 4 || q == 5 || q == 6 || q == 7 || q == 8 || q == 9);
    }
    assert forall|q: int| 0 <= q < "value"@.len() implies is_name_char(#[trigger] "value"@[q]) by {
        assert(q == 0 || q == 1 || q == 2 || q == 3 || q == 4);
    }
    assert forall|q: int| 0 <= q < "type"@.len() implies is_name_char(#[trigger] "type"@[q]) by {
        assert(q == 0 || q == 1 || q == 2 || q == 3);
    }
    assert forall|q: int| 0 <= q < "csv"@.len() implies is_name_char(#[trigger] "csv"@[q]) by {
        assert(q == 0 || q == 1 || q == 2);
    }
    assert forall|q: int| 0 <= q < "interpolation"@.len() implies is_name_char(#[trigger] "interpolation"@[q]) by {
        assert(q == 0 || q == 1 || q == 2 || q == 3 || q == 4 || q == 5 || q == 6 || q == 7 || q == 8 || q == 9 || q == 10 || q == 11 || q == 12);
    }
}

} // verus!

// Well-formedness of the written tree: every scenario document the writer
// produces is a well-formed tree, so the reader takes it back apart.

use crate::roundtrip::antenna_wf;
use crate::roundtrip::component_wf;
use crate::roundtrip::expected_scenario;
use crate::roundtrip::lemma_scenario_round_trip;
use crate::roundtrip::noise_wf;
use crate::roundtrip::opt_num_wf;
use crate::roundtrip::params_wf;
use crate::roundtrip::platform_wf;
use crate::roundtrip::position_waypoint_wf;
use crate::roundtrip::pulse_wf;
use crate::roundtrip::rotation_waypoint_wf;
use crate::roundtrip::rotation_wf;
use crate::roundtrip::scenario_wf;
use crate::roundtrip::timing_wf;
use crate::scenario::AntennaV;
use crate::scenario::GlobalParametersV;
use crate::scenario::MonostaticV;
use crate::scenario::NoiseEntryV;
use crate::scenario::PlatformComponentV;
use crate::scenario::PlatformV;
use crate::scenario::PositionWaypointV;
use crate::scenario::PulseV;
use crate::scenario::ReceiverV;
use crate::scenario::RotationV;
use crate::scenario::RotationWaypointV;
use crate::scenario::ScenarioV;
use crate::scenario::TargetV;
use crate::scenario::TimingV;
use crate::scenario::TransmitterV;
use crate::schema::antenna_elem;
use crate::schema::component_nodes;
use crate::schema::monostatic_elem;
use crate::schema::motionpath_elem;
use crate::schema::noise_elem;
use crate::schema::params_elem;
use crate::schema::platform_elem;
use crate::schema::position_waypoint_elem;
use crate::schema::pulse_elem;
use crate::schema::push_opt_attr;
use crate::schema::push_opt_text;
use crate::schema::receiver_elem;
use crate::schema::rotation_elem;
use crate::schema::rotation_waypoint_elem;
use crate::schema::scenario_tree;
use crate::schema::target_elem;
use crate::schema::text_el;
use crate::schema::timing_elem;
use crate::schema::transmitter_elem;
use crate::schema::tree_scenario;
use crate::text::all_digits;
use crate::text::dec_digits;
use crate::text::dec_int;
use crate::text::is_digit;
use crate::text::is_number_text;
use crate::text::lemma_dec_digits_digits;
use crate::text::lemma_dec_int_text;
use crate::text::lemma_number_text_not_ws;
use crate::xml::lemma_nodes_wf_all;
use crate::xml::nodes_height;

verus! {

/// A number text is visible: nonempty and not whitespace only.
pub proof fn lemma_number_text_visible(t: Seq<char>)
    requires
        is_number_text(t),
    ensures
        text_wf(t),
{
    lemma_number_text_not_ws(t);
    let w = choose|q: int| 0 <= q < t.len() && !is_ws_char(#[trigger] t[q]);
    assert(!all_ws(t));
}

/// The decimal rendering of a signed number is visible.
pub proof fn lemma_dec_int_visible(n: int)
    ensures
        text_wf(dec_int(n)),
{
    lemma_dec_int_text(n);
    assert(!all_ws(dec_int(n)));
}

/// The decimal rendering of an unsigned number is visible.
pub proof fn lemma_dec_digits_visible(n: nat)
    ensures
        text_wf(dec_digits(n)),
{
    lemma_dec_digits_digits(n);
    assert(is_digit(dec_digits(n)[0]));
    assert(!is_ws_char(dec_digits(n)[0]));
    assert(!all_ws(dec_digits(n)));
}

/// A simple text element over a valid name and visible text is a
/// well-formed node.
pub proof fn lemma_text_node_wf(nm: Seq<char>, txt: Seq<char>)
    requires
        is_name(nm),
        text_wf(txt),
    ensures
        node_wf(NodeV::Elem(text_el(nm, txt))),
        elem_wf(text_el(nm, txt)),
{
    let e = text_el(nm, txt);
    assert(e.children.drop_last() =~= Seq::<NodeV>::empty());
    assert(nodes_wf(Seq::<NodeV>::empty()));
    assert(e.children.last() == NodeV::Text(txt));
    assert(node_wf(NodeV::Text(txt)));
    assert(e.children.len() == 1);
    assert(nodes_wf(e.children.drop_last()) && node_wf(e.children.last()));
    assert(nodes_wf(e.children));
}

/// Appending an optional visible text element keeps a child list
/// well formed and element-only.
pub proof fn lemma_push_opt_text_wf(v: Seq<NodeV>, nm: Seq<char>, o: Option<Seq<char>>)
    requires
        forall|q: int| 0 <= q < v.len() ==> node_wf(#[trigger] v[q]) && v[q] is Elem,
        is_name(nm),
        match o {
            Some(t) => text_wf(t),
            None => true,
        },
    ensures
        forall|q: int|
            0 <= q < push_opt_text(v, nm, o).len() ==> node_wf(#[trigger] push_opt_text(v, nm, o)[q])
                && push_opt_text(v, nm, o)[q] is Elem,
{
    match o {
        Some(t) => {
            lemma_text_node_wf(nm, t);
            let w = push_opt_text(v, nm, o);
            assert forall|q: int| 0 <= q < w.len() implies node_wf(#[trigger] w[q]) && w[q]
                is Elem by {
                if q < v.len() {
                    assert(w[q] == v[q]);
                } else {
                    assert(w[q] == NodeV::Elem(text_el(nm, t)));
                }
            }
        },
        None => {},
    }
}

/// A child list of well-formed elements makes a well-formed element body.
pub proof fn lemma_elem_children_wf(v: Seq<NodeV>)
    requires
        forall|q: int| 0 <= q < v.len() ==> node_wf(#[trigger] v[q]) && v[q] is Elem,
    ensures
        nodes_wf(v),
        text_free(v),
{
    lemma_nodes_wf_all(v);
}

} // verus!

// Per-element well-formedness of the written tree.

verus! {

/// Appending an optional attribute keeps an attribute list well formed.
pub proof fn lemma_push_opt_attr_wf(v: Seq<AttrV>, nm: Seq<char>, o: Option<Seq<char>>)
    requires
        forall|q: int| 0 <= q < v.len() ==> attr_wf(#[trigger] v[q]),
        is_name(nm),
    ensures
        forall|q: int|
            0 <= q < push_opt_attr(v, nm, o).len() ==> attr_wf(#[trigger] push_opt_attr(v, nm, o)[q]),
{
    match o {
        Some(t) => {
            let w = push_opt_attr(v, nm, o);
            assert forall|q: int| 0 <= q < w.len() implies attr_wf(#[trigger] w[q]) by {
                if q < v.len() {
                    assert(w[q] == v[q]);
                } else {
                    assert(w[q] == AttrV { name: nm, value: t });
                }
            }
        },
        None => {},
    }
}

/// The written pulse element is well formed.
pub proof fn lemma_pulse_elem_wf(p: PulseV)
    requires
        pulse_wf(p),
    ensures
        elem_wf(pulse_elem(p)),
{
    lemma_names_valid_0();
    lemma_names_valid_1();
    lemma_names_valid_2();
    let e = pulse_elem(p);
    let base = seq![
        AttrV { name: "name"@, value: p.name },
        AttrV { name: "type"@, value: crate::schema::pulse_type_text(p.pulseType) },
    ];
    assert forall|q: int| 0 <= q < base.len() implies attr_wf(#[trigger] base[q]) by {
        assert(q == 0 || q == 1);
    }
    lemma_push_opt_attr_wf(base, "filename"@, p.filename);
    lemma_number_text_visible(p.power);
    lemma_number_text_visible(p.carrier);
    lemma_text_node_wf("power"@, p.power);
    lemma_text_node_wf("carrier"@, p.carrier);
    assert forall|q: int| 0 <= q < e.children.len() implies node_wf(#[trigger] e.children[q])
        && e.children[q] is Elem by {
        assert(q == 0 || q == 1);
    }
    lemma_elem_children_wf(e.children);
}

/// The written noise entry element is well formed.
pub proof fn lemma_noise_elem_wf(n: NoiseEntryV)
    requires
        noise_wf(n),
    ensures
        elem_wf(noise_elem(n)),
{
    lemma_names_valid_0();
    lemma_names_valid_1();
    lemma_names_valid_2();
    let e = noise_elem(n);
    lemma_number_text_visible(n.alpha);
    lemma_number_text_visible(n.weight);
    lemma_text_node_wf("alpha"@, n.alpha);
    lemma_text_node_wf("weight"@, n.weight);
    assert forall|q: int| 0 <= q < e.children.len() implies node_wf(#[trigger] e.children[q])
        && e.children[q] is Elem by {
        assert(q == 0 || q == 1);
    }
    lemma_elem_children_wf(e.children);
}

/// The written timing element is well formed.
pub proof fn lemma_timing_elem_wf(t: TimingV)
    requires
        timing_wf(t),
    ensures
        elem_wf(timing_elem(t)),
{
    lemma_names_valid_0();
    lemma_names_valid_1();
    lemma_names_valid_2();
    let e = timing_elem(t);
    let base = seq![AttrV { name: "name"@, value: t.name }];
    assert forall|q: int| 0 <= q < e.attrs.len() implies attr_wf(#[trigger] e.attrs[q]) by {
        assert(q == 0);
    }
    let k0 = seq![NodeV::Elem(text_el("frequency"@, t.frequency))];
    lemma_number_text_visible(t.frequency);
    lemma_text_node_wf("frequency"@, t.frequency);
    assert forall|q: int| 0 <= q < k0.len() implies node_wf(#[trigger] k0[q]) && k0[q] is Elem by {
        assert(q == 0);
    }
    match t.freqOffset {
        Some(x) => {
            lemma_number_text_visible(x);
        },
        None => {},
    }
    lemma_push_opt_text_wf(k0, "freq_offset"@, t.freqOffset);
    let k1 = push_opt_text(k0, "freq_offset"@, t.freqOffset);
    match t.randomFreqOffsetStdev {
        Some(x) => {
            lemma_number_text_visible(x);
        },
        None => {},
    }
    lemma_push_opt_text_wf(k1, "random_freq_offset_stdev"@, t.randomFreqOffsetStdev);
    let k2 = push_opt_text(k1, "random_freq_offset_stdev"@, t.randomFreqOffsetStdev);
    match t.phaseOffset {
        Some(x) => {
            lemma_number_text_visible(x);
        },
        None => {},
    }
    lemma_push_opt_text_wf(k2, "phase_offset"@, t.phaseOffset);
    let k3 = push_opt_text(k2, "phase_offset"@, t.phaseOffset);
    match t.randomPhaseOffsetStdev {
        Some(x) => {
            lemma_number_text_visible(x);
        },
        None => {},
    }
    lemma_push_opt_text_wf(k3, "random_phase_offset_stdev"@, t.randomPhaseOffsetStdev);
    let k4 = push_opt_text(k3, "random_phase_offset_stdev"@, t.randomPhaseOffsetStdev);
    let ns = Seq::new(t.noiseEntries.len(), |q: int| NodeV::Elem(noise_elem(t.noiseEntries[q])));
    assert(e.children == k4 + ns);
    assert forall|q: int| 0 <= q < e.children.len() implies node_wf(#[trigger] e.children[q])
        && e.children[q] is Elem by {
        if q < k4.len() {
            assert(e.children[q] == k4[q]);
        } else {
            assert(e.children[q] == ns[q - k4.len()]);
            lemma_noise_elem_wf(t.noiseEntries[q - k4.len()]);
        }
    }
    lemma_elem_children_wf(e.children);
}

/// The written antenna element is well formed.
pub proof fn lemma_antenna_elem_wf(a: AntennaV)
    requires
        antenna_wf(a),
    ensures
        elem_wf(antenna_elem(a)),
{
    lemma_names_valid_0();
    lemma_names_valid_1();
    lemma_names_valid_2();
    let e = antenna_elem(a);
    let base = seq![
        AttrV { name: "name"@, value: a.name },
        AttrV { name: "pattern"@, value: a.pattern },
    ];
    assert forall|q: int| 0 <= q < base.len() implies attr_wf(#[trigger] base[q]) by {
        assert(q == 0 || q == 1);
    }
    lemma_push_opt_attr_wf(base, "filename"@, a.filename);
    match a.efficiency {
        Some(x) => {
            lemma_number_text_visible(x);
        },
        None => {},
    }
    lemma_push_opt_text_wf(Seq::empty(), "efficiency"@, a.efficiency);
    let k0 = push_opt_text(Seq::empty(), "efficiency"@, a.efficiency);
    if a.pattern == "sinc"@ {
        match a.alpha {
            Some(x) => {
                lemma_number_text_visible(x);
            },
            None => {},
        }
        lemma_push_opt_text_wf(k0, "alpha"@, a.alpha);
        let s1 = push_opt_text(k0, "alpha"@, a.alpha);
        match a.beta {
            Some(x) => {
                lemma_number_text_visible(x);
            },
            None => {},
        }
        lemma_push_opt_text_wf(s1, "beta"@, a.beta);
        let s2 = push_opt_text(s1, "beta"@, a.beta);
        match a.gamma {
            Some(x) => {
                lemma_number_text_visible(x);
            },
            None => {},
        }
        lemma_push_opt_text_wf(s2, "gamma"@, a.gamma);
    } else if a.pattern == "gaussian"@ {
        match a.azscale {
            Some(x) => {
                lemma_number_text_visible(x);
            },
            None => {},
        }
        lemma_push_opt_text_wf(k0, "azscale"@, a.azscale);
        let s1 = push_opt_text(k0, "azscale"@, a.azscale);
        match a.elscale {
            Some(x) => {
                lemma_number_text_visible(x);
            },
            None => {},
        }
        lemma_push_opt_text_wf(s1, "elscale"@, a.elscale);
    } else if a.pattern == "squarehorn"@ || a.pattern == "parabolic"@ {
        match a.diameter {
            Some(x) => {
                lemma_number_text_visible(x);
            },
            None => {},
        }
        lemma_push_opt_text_wf(k0, "diameter"@, a.diameter);
    }
    lemma_elem_children_wf(e.children);
}

} // verus!

// Platform, parameter and whole-document well-formedness, and the final
// textual round-trip theorem.

verus! {

/// The written motion waypoint element is well formed.
pub proof fn lemma_position_waypoint_elem_wf(w: PositionWaypointV)
    requires
        position_waypoint_wf(w),
    ensures
        elem_wf(position_waypoint_elem(w)),
{
    lemma_names_valid_0();
    lemma_names_valid_1();
    lemma_names_valid_2();
    let e = position_waypoint_elem(w);
    lemma_number_text_visible(w.x);
    lemma_number_text_visible(w.y);
    lemma_number_text_visible(w.altitude);
    lemma_number_text_visible(w.time);
    lemma_text_node_wf("x"@, w.x);
    lemma_text_node_wf("y"@, w.y);
    lemma_text_node_wf("altitude"@, w.altitude);
    lemma_text_node_wf("time"@, w.time);
    assert forall|q: int| 0 <= q < e.children.len() implies node_wf(#[trigger] e.children[q])
        && e.children[q] is Elem by {
        assert(q == 0 || q == 1 || q == 2 || q == 3);
    }
    lemma_elem_children_wf(e.children);
}

/// The written motion path element is well formed.
pub proof fn lemma_motionpath_elem_wf(p: PlatformV)
    requires
        platform_wf(p),
    ensures
        elem_wf(motionpath_elem(p)),
{
    lemma_names_valid_0();
    lemma_names_valid_1();
    lemma_names_valid_2();
    let e = motionpath_elem(p);
    assert forall|q: int| 0 <= q < e.attrs.len() implies attr_wf(#[trigger] e.attrs[q]) by {
        assert(q == 0);
    }
    assert forall|q: int| 0 <= q < e.children.len() implies node_wf(#[trigger] e.children[q])
        && e.children[q] is Elem by {
        lemma_position_waypoint_elem_wf(p.motionPath.waypoints[q]);
    }
    lemma_elem_children_wf(e.children);
}

/// The written rotation element is well formed.
pub proof fn lemma_rotation_elem_wf(r: RotationV)
    requires
        rotation_wf(r),
    ensures
        elem_wf(rotation_elem(r)),
{
    lemma_names_valid_0();
    lemma_names_valid_1();
    lemma_names_valid_2();
    let e = rotation_elem(r);
    match r {
        RotationV::Fixed(f) => {
            lemma_number_text_visible(f.startAzimuth);
            lemma_number_text_visible(f.startElevation);
            lemma_number_text_visible(f.azimuthRate);
            lemma_number_text_visible(f.elevationRate);
            lemma_text_node_wf("startazimuth"@, f.startAzimuth);
            lemma_text_node_wf("startelevation"@, f.startElevation);
            lemma_text_node_wf("azimuthrate"@, f.azimuthRate);
            lemma_text_node_wf("elevationrate"@, f.elevationRate);
            assert forall|q: int| 0 <= q < e.children.len() implies node_wf(
                #[trigger] e.children[q],
            ) && e.children[q] is Elem by {
                assert(q == 0 || q == 1 || q == 2 || q == 3);
            }
            lemma_elem_children_wf(e.children);
        },
        RotationV::Path(rp) => {
            assert forall|q: int| 0 <= q < e.attrs.len() implies attr_wf(#[trigger] e.attrs[q]) by {
                assert(q == 0);
            }
            assert forall|q: int| 0 <= q < e.children.len() implies node_wf(
                #[trigger] e.children[q],
            ) && e.children[q] is Elem by {
                let w = rp.waypoints[q];
                lemma_number_text_visible(w.azimuth);
                lemma_number_text_visible(w.elevation);
                lemma_number_text_visible(w.time);
                lemma_text_node_wf("azimuth"@, w.azimuth);
                lemma_text_node_wf("elevation"@, w.elevation);
                lemma_text_node_wf("time"@, w.time);
                let we = rotation_waypoint_elem(w);
                assert forall|z: int| 0 <= z < we.children.len() implies node_wf(
                    #[trigger] we.children[z],
                ) && we.children[z] is Elem by {
                    assert(z == 0 || z == 1 || z == 2);
                }
                lemma_elem_children_wf(we.children);
                assert(e.children[q] == NodeV::Elem(we));
            }
            lemma_elem_children_wf(e.children);
        },
    }
}

/// The written component blocks are well formed.
pub proof fn lemma_component_nodes_wf(c: PlatformComponentV, table: Seq<(Seq<char>, Seq<char>)>)
    requires
        component_wf(c),
    ensures
        forall|q: int|
            0 <= q < component_nodes(c, table).len() ==> node_wf(
                #[trigger] component_nodes(c, table)[q],
            ) && component_nodes(c, table)[q] is Elem,
{
    lemma_names_valid_0();
    lemma_names_valid_1();
    lemma_names_valid_2();
    let v = component_nodes(c, table);
    assert forall|q: int| 0 <= q < v.len() implies node_wf(#[trigger] v[q]) && v[q] is Elem by {
        match c {
            PlatformComponentV::NoComponent => {},
            PlatformComponentV::Monostatic(m) => {
                let e = monostatic_elem(m, table);
                let base = seq![
                    AttrV { name: "name"@, value: m.name },
                    AttrV { name: "type"@, value: m.radarType },
                ];
                assert forall|z: int| 0 <= z < base.len() implies attr_wf(#[trigger] base[z]) by {
                    assert(z == 0 || z == 1);
                }
                lemma_push_opt_attr_wf(
                    base,
                    "antenna"@,
                    crate::schema::resolve_ref(table, m.antennaId),
                );
                let b1 = push_opt_attr(base, "antenna"@, crate::schema::resolve_ref(table, m.antennaId));
                lemma_push_opt_attr_wf(b1, "pulse"@, crate::schema::resolve_ref(table, m.pulseId));
                let b2 = push_opt_attr(b1, "pulse"@, crate::schema::resolve_ref(table, m.pulseId));
                lemma_push_opt_attr_wf(b2, "timing"@, crate::schema::resolve_ref(table, m.timingId));
                let b3 = push_opt_attr(b2, "timing"@, crate::schema::resolve_ref(table, m.timingId));
                let b4 = if m.noDirectPaths {
                    b3.push(AttrV { name: "nodirect"@, value: "true"@ })
                } else {
                    b3
                };
                let b5 = if m.noPropagationLoss {
                    b4.push(AttrV { name: "nopropagationloss"@, value: "true"@ })
                } else {
                    b4
                };
                assert forall|z: int| 0 <= z < b5.len() implies attr_wf(#[trigger] b5[z]) by {}
                assert(e.attrs == b5);
                lemma_number_text_visible(m.window_skip);
                lemma_number_text_visible(m.window_length);
                lemma_number_text_visible(m.prf);
                lemma_text_node_wf("window_skip"@, m.window_skip);
                lemma_text_node_wf("window_length"@, m.window_length);
                lemma_text_node_wf("prf"@, m.prf);
                let kb = seq![
                    NodeV::Elem(text_el("window_skip"@, m.window_skip)),
                    NodeV::Elem(text_el("window_length"@, m.window_length)),
                    NodeV::Elem(text_el("prf"@, m.prf)),
                ];
                assert forall|z: int| 0 <= z < kb.len() implies node_wf(#[trigger] kb[z]) && kb[z]
                    is Elem by {
                    assert(z == 0 || z == 1 || z == 2);
                }
                match m.noiseTemperature {
                    Some(x) => {
                        lemma_number_text_visible(x);
                    },
                    None => {},
                }
                lemma_push_opt_text_wf(kb, "noise_temp"@, m.noiseTemperature);
                lemma_elem_children_wf(e.children);
            },
            PlatformComponentV::Transmitter(t) => {
                let e = transmitter_elem(t, table);
                let base = seq![
                    AttrV { name: "name"@, value: t.name },
                    AttrV { name: "type"@, value: t.radarType },
                ];
                assert forall|z: int| 0 <= z < base.len() implies attr_wf(#[trigger] base[z]) by {
                    assert(z == 0 || z == 1);
                }
                lemma_push_opt_attr_wf(
                    base,
                    "antenna"@,
                    crate::schema::resolve_ref(table, t.antennaId),
                );
                let b1 = push_opt_attr(base, "antenna"@, crate::schema::resolve_ref(table, t.antennaId));
                lemma_push_opt_attr_wf(b1, "pulse"@, crate::schema::resolve_ref(table, t.pulseId));
                let b2 = push_opt_attr(b1, "pulse"@, crate::schema::resolve_ref(table, t.pulseId));
                lemma_push_opt_attr_wf(b2, "timing"@, crate::schema::resolve_ref(table, t.timingId));
                lemma_number_text_visible(t.prf);
                lemma_text_node_wf("prf"@, t.prf);
                assert forall|z: int| 0 <= z < e.children.len() implies node_wf(
                    #[trigger] e.children[z],
                ) && e.children[z] is Elem by {
                    assert(z == 0);
                }
                lemma_elem_children_wf(e.children);
            },
            PlatformComponentV::Receiver(r) => {
                let e = receiver_elem(r, table);
                let base = seq![AttrV { name: "name"@, value: r.name }];
                assert forall|z: int| 0 <= z < base.len() implies attr_wf(#[trigger] base[z]) by {
                    assert(z == 0);
                }
                lemma_push_opt_attr_wf(
                    base,
                    "antenna"@,
                    crate::schema::resolve_ref(table, r.antennaId),
                );
                let b1 = push_opt_attr(base, "antenna"@, crate::schema::resolve_ref(table, r.antennaId));
                lemma_push_opt_attr_wf(b1, "timing"@, crate::schema::resolve_ref(table, r.timingId));
                let b2 = push_opt_attr(b1, "timing"@, crate::schema::resolve_ref(table, r.timingId));
                let b3 = if r.noDirectPaths {
                    b2.push(AttrV { name: "nodirect"@, value: "true"@ })
                } else {
                    b2
                };
                let b4 = if r.noPropagationLoss {
                    b3.push(AttrV { name: "nopropagationloss"@, value: "true"@ })
                } else {
                    b3
                };
                assert forall|z: int| 0 <= z < b4.len() implies attr_wf(#[trigger] b4[z]) by {}
                assert(e.attrs == b4);
                lemma_number_text_visible(r.window_skip);
                lemma_number_text_visible(r.window_length);
                lemma_number_text_visible(r.prf);
                lemma_text_node_wf("window_skip"@, r.window_skip);
                lemma_text_node_wf("window_length"@, r.window_length);
                lemma_text_node_wf("prf"@, r.prf);
                let kb = seq![
                    NodeV::Elem(text_el("window_skip"@, r.window_skip)),
                    NodeV::Elem(text_el("window_length"@, r.window_length)),
                    NodeV::Elem(text_el("prf"@, r.prf)),
                ];
                assert forall|z: int| 0 <= z < kb.len() implies node_wf(#[trigger] kb[z]) && kb[z]
                    is Elem by {
                    assert(z == 0 || z == 1 || z == 2);
                }
                match r.noiseTemperature {
                    Some(x) => {
                        lemma_number_text_visible(x);
                    },
                    None => {},
                }
                lemma_push_opt_text_wf(kb, "noise_temp"@, r.noiseTemperature);
                lemma_elem_children_wf(e.children);
            },
            PlatformComponentV::Target(t) => {
                let e = target_elem(t);
                let rbase = seq![AttrV { name: "type"@, value: t.rcs_type }];
                assert forall|z: int| 0 <= z < rbase.len() implies attr_wf(#[trigger] rbase[z]) by {
                    assert(z == 0);
                }
                lemma_push_opt_attr_wf(rbase, "filename"@, t.rcs_filename);
                match t.rcs_value {
                    Some(x) => {
                        lemma_number_text_visible(x);
                    },
                    None => {},
                }
                lemma_push_opt_text_wf(Seq::empty(), "value"@, t.rcs_value);
                let rcs = ElemV {
                    name: "rcs"@,
                    attrs: push_opt_attr(rbase, "filename"@, t.rcs_filename),
                    children: push_opt_text(Seq::empty(), "value"@, t.rcs_value),
                };
                lemma_elem_children_wf(rcs.children);
                assert(elem_wf(rcs));
                if t.rcs_model != "constant"@ {
                    let mbase = seq![AttrV { name: "type"@, value: t.rcs_model }];
                    assert forall|z: int| 0 <= z < mbase.len() implies attr_wf(
                        #[trigger] mbase[z],
                    ) by {
                        assert(z == 0);
                    }
                    match t.rcs_k {
                        Some(x) => {
                            lemma_number_text_visible(x);
                        },
                        None => {},
                    }
                    lemma_push_opt_text_wf(Seq::empty(), "k"@, t.rcs_k);
                    let model = ElemV {
                        name: "model"@,
                        attrs: mbase,
                        children: push_opt_text(Seq::empty(), "k"@, t.rcs_k),
                    };
                    lemma_elem_children_wf(model.children);
                    assert(elem_wf(model));
                    assert forall|z: int| 0 <= z < e.children.len() implies node_wf(
                        #[trigger] e.children[z],
                    ) && e.children[z] is Elem by {
                        assert(z == 0 || z == 1);
                    }
                } else {
                    assert forall|z: int| 0 <= z < e.children.len() implies node_wf(
                        #[trigger] e.children[z],
                    ) && e.children[z] is Elem by {
                        assert(z == 0);
                    }
                }
                assert forall|z: int| 0 <= z < e.attrs.len() implies attr_wf(
                    #[trigger] e.attrs[z],
                ) by {
                    assert(z == 0);
                }
                lemma_elem_children_wf(e.children);
            },
        }
    }
}

/// The written platform element is well formed.
pub proof fn lemma_platform_elem_wf(p: PlatformV, table: Seq<(Seq<char>, Seq<char>)>)
    requires
        platform_wf(p),
    ensures
        elem_wf(platform_elem(p, table)),
{
    lemma_names_valid_0();
    lemma_names_valid_1();
    lemma_names_valid_2();
    let e = platform_elem(p, table);
    assert forall|q: int| 0 <= q < e.attrs.len() implies attr_wf(#[trigger] e.attrs[q]) by {
        assert(q == 0);
    }
    let head = seq![
        NodeV::Elem(motionpath_elem(p)),
        NodeV::Elem(rotation_elem(p.rotation)),
    ];
    let comp = component_nodes(p.component, table);
    assert(e.children == head + comp);
    lemma_motionpath_elem_wf(p);
    lemma_rotation_elem_wf(p.rotation);
    lemma_component_nodes_wf(p.component, table);
    assert forall|q: int| 0 <= q < e.children.len() implies node_wf(#[trigger] e.children[q])
        && e.children[q] is Elem by {
        if q < head.len() {
            assert(e.children[q] == head[q]);
            assert(q == 0 || q == 1);
        } else {
            assert(e.children[q] == comp[q - head.len()]);
        }
    }
    lemma_elem_children_wf(e.children);
}

/// The written parameters block is well formed.
pub proof fn lemma_params_elem_wf(g: GlobalParametersV)
    requires
        params_wf(g),
    ensures
        elem_wf(params_elem(g)),
{
    lemma_names_valid_0();
    lemma_names_valid_1();
    lemma_names_valid_2();
    let e = params_elem(g);
    lemma_number_text_visible(g.start);
    lemma_number_text_visible(g.end);
    lemma_number_text_visible(g.rate);
    lemma_number_text_visible(g.c);
    lemma_text_node_wf("starttime"@, g.start);
    lemma_text_node_wf("endtime"@, g.end);
    lemma_text_node_wf("rate"@, g.rate);
    lemma_text_node_wf("c"@, g.c);
    let k0 = seq![
        NodeV::Elem(text_el("starttime"@, g.start)),
        NodeV::Elem(text_el("endtime"@, g.end)),
        NodeV::Elem(text_el("rate"@, g.rate)),
        NodeV::Elem(text_el("c"@, g.c)),
    ];
    assert forall|q: int| 0 <= q < k0.len() implies node_wf(#[trigger] k0[q]) && k0[q] is Elem by {
        assert(q == 0 || q == 1 || q == 2 || q == 3);
    }
    match g.simSamplingRate {
        Some(x) => {
            lemma_number_text_visible(x);
        },
        None => {},
    }
    lemma_push_opt_text_wf(k0, "simSamplingRate"@, g.simSamplingRate);
    let k1 = push_opt_text(k0, "simSamplingRate"@, g.simSamplingRate);
    let k2 = match g.random_seed {
        Some(v) => k1.push(NodeV::Elem(text_el("randomseed"@, dec_digits(v as nat)))),
        None => k1,
    };
    match g.random_seed {
        Some(v) => {
            lemma_dec_digits_visible(v as nat);
            lemma_text_node_wf("randomseed"@, dec_digits(v as nat));
        },
        None => {},
    }
    assert forall|q: int| 0 <= q < k2.len() implies node_wf(#[trigger] k2[q]) && k2[q] is Elem by {}
    lemma_dec_int_visible(g.adc_bits as int);
    lemma_dec_int_visible(g.oversample_ratio as int);
    lemma_text_node_wf("adc_bits"@, dec_int(g.adc_bits as int));
    lemma_text_node_wf("oversample"@, dec_int(g.oversample_ratio as int));
    let k3 = k2.push(NodeV::Elem(text_el("adc_bits"@, dec_int(g.adc_bits as int))));
    let k4 = k3.push(NodeV::Elem(text_el("oversample"@, dec_int(g.oversample_ratio as int))));
    let ex = ElemV {
        name: "export"@,
        attrs: seq![
            AttrV { name: "binary"@, value: crate::schema::bool_text(g.export.binary) },
            AttrV { name: "csv"@, value: crate::schema::bool_text(g.export.csv) },
            AttrV { name: "xml"@, value: crate::schema::bool_text(g.export.xml) },
        ],
        children: Seq::empty(),
    };
    assert forall|q: int| 0 <= q < ex.attrs.len() implies attr_wf(#[trigger] ex.attrs[q]) by {
        assert(q == 0 || q == 1 || q == 2);
    }
    assert(nodes_wf(Seq::<NodeV>::empty()));
    assert(elem_wf(ex));
    assert(e.children == k4.push(NodeV::Elem(ex)));
    assert forall|q: int| 0 <= q < e.children.len() implies node_wf(#[trigger] e.children[q])
        && e.children[q] is Elem by {}
    lemma_elem_children_wf(e.children);
}

/// The whole written scenario tree is well formed.
pub proof fn lemma_scenario_tree_wf(g: ScenarioV)
    requires
        scenario_wf(g),
    ensures
        elem_wf(scenario_tree(g)),
{
    lemma_names_valid_0();
    lemma_names_valid_1();
    lemma_names_valid_2();
    let e = scenario_tree(g);
    assert forall|q: int| 0 <= q < e.attrs.len() implies attr_wf(#[trigger] e.attrs[q]) by {
        assert(q == 0);
    }
    let table = crate::schema::table_of(g);
    let head = seq![NodeV::Elem(params_elem(g.globalParameters))];
    let k1 = Seq::new(g.pulses.len(), |i: int| NodeV::Elem(pulse_elem(g.pulses[i])));
    let k2 = Seq::new(g.timings.len(), |i: int| NodeV::Elem(timing_elem(g.timings[i])));
    let k3 = Seq::new(g.antennas.len(), |i: int| NodeV::Elem(antenna_elem(g.antennas[i])));
    let k4 = Seq::new(g.platforms.len(), |i: int| NodeV::Elem(platform_elem(g.platforms[i], table)));
    assert(e.children == head + k1 + k2 + k3 + k4);
    assert forall|q: int| 0 <= q < e.children.len() implies node_wf(#[trigger] e.children[q])
        && e.children[q] is Elem by {
        if q < head.len() {
            assert(e.children[q] == head[q]);
            lemma_params_elem_wf(g.globalParameters);
        } else if q < head.len() + k1.len() {
            assert(e.children[q] == k1[q - head.len()]);
            lemma_pulse_elem_wf(g.pulses[q - head.len()]);
        } else if q < head.len() + k1.len() + k2.len() {
            assert(e.children[q] == k2[q - head.len() - k1.len()]);
            lemma_timing_elem_wf(g.timings[q - head.len() - k1.len()]);
        } else if q < head.len() + k1.len() + k2.len() + k3.len() {
            assert(e.children[q] == k3[q - head.len() - k1.len() - k2.len()]);
            lemma_antenna_elem_wf(g.antennas[q - head.len() - k1.len() - k2.len()]);
        } else {
            assert(e.children[q] == k4[q - head.len() - k1.len() - k2.len() - k3.len()]);
            lemma_platform_elem_wf(
                g.platforms[q - head.len() - k1.len() - k2.len() - k3.len()],
                table,
            );
        }
    }
    lemma_elem_children_wf(e.children);
}

/// The textual round trip of a whole well-formed scenario: writing its
/// document and reading the text back yields the same scenario, except
/// that identifiers are synthesized afresh and asset references are
/// re-resolved through the display names they stood for.
pub proof fn lemma_document_round_trip(g: ScenarioV)
    requires
        scenario_wf(g),
    ensures
        crate::xml_handler::doc_scenario(doc_text(scenario_tree(g))) == Some(
            expected_scenario(g),
        ),
{
    lemma_scenario_tree_wf(g);
    lemma_parse_doc(scenario_tree(g));
    lemma_scenario_round_trip(g);
}

} // verus!

// Corollary in the other direction.

verus! {

/// Round trip from a document: a document text that holds a well-formed
/// scenario re-serializes to a document holding the same field values; only
/// the synthesized identifiers differ, and they re-resolve to the same
/// display names.
pub proof fn lemma_reparse_round_trip(s: Seq<char>, g: ScenarioV)
    requires
        crate::xml_handler::doc_scenario(s) == Some(g),
        scenario_wf(g),
    ensures
        crate::xml_handler::doc_scenario(doc_text(scenario_tree(g))) == Some(
            expected_scenario(g),
        ),
{
    lemma_document_round_trip(g);
}

} // verus!
