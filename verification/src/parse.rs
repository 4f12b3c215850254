//! The XML reader: a recursive-descent parser for the document subset the
//! writer in [`crate::xml`] produces — elements with quoted, escaped
//! attributes, either a single run of escaped text or nested elements as
//! content, an optional leading declaration and document type, and free
//! whitespace between markup.
//!
//! Every executable function mirrors a specification function over
//! `Seq<char>` exactly; the round-trip argument is then carried out once,
//! at the specification level, in [`crate::roundtrip`].

use vstd::prelude::*;

use crate::text::chars_to_string;
use crate::text::is_name_char;
use crate::text::is_ws_char;
use crate::text::name_char;
use crate::text::ws_char;
use crate::xml::all_ws;
use crate::xml::attrs_view;
use crate::xml::esc_char;
use crate::xml::AttrV;
use crate::xml::ElemV;
use crate::xml::nodes_view;
use crate::xml::NodeV;
use crate::xml::XmlAttr;
use crate::xml::XmlElem;
use crate::xml::XmlNode;

verus! {

/// First position at or after `i` that does not hold whitespace.
pub open spec fn sp_ws(s: Seq<char>, i: int) -> int
    decreases s.len() - i,
{
    if 0 <= i && i < s.len() && is_ws_char(s[i]) {
        sp_ws(s, i + 1)
    } else {
        i
    }
}

/// First position at or after `i` that holds `<`, or the length.
pub open spec fn sp_raw(s: Seq<char>, i: int) -> int
    decreases s.len() - i,
{
    if 0 <= i && i < s.len() && s[i] != '<' {
        sp_raw(s, i + 1)
    } else {
        i
    }
}

/// First position at or after `i` that holds `"`, or the length.
pub open spec fn sp_quote(s: Seq<char>, i: int) -> int
    decreases s.len() - i,
{
    if 0 <= i && i < s.len() && s[i] != '"' {
        sp_quote(s, i + 1)
    } else {
        i
    }
}

/// First position at or after `i` that does not hold a name character.
pub open spec fn sp_name_end(s: Seq<char>, i: int) -> int
    decreases s.len() - i,
{
    if 0 <= i && i < s.len() && is_name_char(s[i]) {
        sp_name_end(s, i + 1)
    } else {
        i
    }
}

/// Position right after the first `?>` at or after `i`; `None` when there
/// is none.
pub open spec fn sp_qm(s: Seq<char>, i: int) -> Option<int>
    decreases s.len() - i,
{
    if 0 <= i && i + 1 < s.len() {
        if s[i] == '?' && s[i + 1] == '>' {
            Some(i + 2)
        } else {
            sp_qm(s, i + 1)
        }
    } else {
        None
    }
}

/// Position right after the first `>` at or after `i`; `None` when there is
/// none.
pub open spec fn sp_gt(s: Seq<char>, i: int) -> Option<int>
    decreases s.len() - i,
{
    if 0 <= i && i < s.len() {
        if s[i] == '>' {
            Some(i + 1)
        } else {
            sp_gt(s, i + 1)
        }
    } else {
        None
    }
}

/// Whether `s` starts with `p`.
pub open spec fn starts_with_seq(s: Seq<char>, p: Seq<char>) -> bool {
    s.len() >= p.len() && s.subrange(0, p.len() as int) == p
}

/// The entity reference at the head of `s`, as the character it names and
/// the length of the reference.
pub open spec fn ent_match(s: Seq<char>) -> Option<(char, int)> {
    if starts_with_seq(s, esc_char('&')) {
        Some(('&', 5))
    } else if starts_with_seq(s, esc_char('<')) {
        Some(('<', 4))
    } else if starts_with_seq(s, esc_char('>')) {
        Some(('>', 4))
    } else if starts_with_seq(s, esc_char('"')) {
        Some(('"', 6))
    } else if starts_with_seq(s, esc_char('\'')) {
        Some(('\'', 6))
    } else {
        None
    }
}

/// Replaces entity references by the characters they name; `None` on a bare
/// `&` that heads no known reference.
pub open spec fn sp_unescape(s: Seq<char>) -> Option<Seq<char>>
    decreases s.len(),
{
    if s.len() == 0 {
        Some(Seq::empty())
    } else if s[0] == '&' {
        match ent_match(s) {
            None => None,
            Some((c, k)) => if 0 < k <= s.len() {
                match sp_unescape(s.subrange(k, s.len() as int)) {
                    None => None,
                    Some(t) => Some(seq![c] + t),
                }
            } else {
                None
            },
        }
    } else {
        match sp_unescape(s.subrange(1, s.len() as int)) {
            None => None,
            Some(t) => Some(seq![s[0]] + t),
        }
    }
}

/// Reads the attribute list after an element name, up to but not past the
/// `>` or `/` that ends the start tag.
pub open spec fn sp_attrs(s: Seq<char>, i: int) -> Option<(Seq<AttrV>, int)>
    decreases s.len() - i,
{
    if 0 <= i && i <= s.len() {
        let j = sp_ws(s, i);
        if i <= j && j < s.len() {
            if s[j] == '>' || s[j] == '/' {
                Some((Seq::empty(), j))
            } else {
                let ne = sp_name_end(s, j);
                if j < ne && ne + 1 < s.len() && s[ne] == '=' && s[ne + 1] == '"' {
                    let ve = sp_quote(s, ne + 2);
                    if ne + 2 <= ve && ve < s.len() {
                        match sp_unescape(s.subrange(ne + 2, ve)) {
                            None => None,
                            Some(val) => match sp_attrs(s, ve + 1) {
                                None => None,
                                Some((rest, p)) => Some(
                                    (seq![AttrV { name: s.subrange(j, ne), value: val }] + rest, p),
                                ),
                            },
                        }
                    } else {
                        None
                    }
                } else {
                    None
                }
            }
        } else {
            None
        }
    } else {
        None
    }
}

/// Reads one element starting exactly at the `<` at position `i`.
pub open spec fn sp_elem(s: Seq<char>, i: int) -> Option<(ElemV, int)>
    decreases s.len() - i, 0int,
{
    if 0 <= i && i < s.len() && s[i] == '<' {
        let ne = sp_name_end(s, i + 1);
        if i + 1 < ne && ne <= s.len() {
            let name = s.subrange(i + 1, ne);
            match sp_attrs(s, ne) {
                None => None,
                Some((attrs, j)) => if ne <= j && j < s.len() {
                    if s[j] == '/' {
                        if j + 1 < s.len() && s[j + 1] == '>' {
                            Some((ElemV { name, attrs, children: Seq::empty() }, j + 2))
                        } else {
                            None
                        }
                    } else if s[j] == '>' {
                        sp_content(s, j + 1, name, attrs)
                    } else {
                        None
                    }
                } else {
                    None
                },
            }
        } else {
            None
        }
    } else {
        None
    }
}

/// Reads the content and closing tag of an element whose start tag ended
/// right before position `k`.
pub open spec fn sp_content(s: Seq<char>, k: int, name: Seq<char>, attrs: Seq<AttrV>) -> Option<
    (ElemV, int),
>
    decreases s.len() - k, 3int,
{
    if 0 <= k && k <= s.len() {
        let re = sp_raw(s, k);
        if k <= re && re < s.len() {
            let raw = s.subrange(k, re);
            if all_ws(raw) {
                match sp_children(s, k) {
                    None => None,
                    Some((kids, m)) => if k <= m && m + 1 < s.len() && s[m] == '<' && s[m + 1]
                        == '/' {
                        let ce = sp_name_end(s, m + 2);
                        if s.subrange(m + 2, ce) == name && ce < s.len() && s[ce] == '>' {
                            Some((ElemV { name, attrs, children: kids }, ce + 1))
                        } else {
                            None
                        }
                    } else {
                        None
                    },
                }
            } else {
                match sp_unescape(raw) {
                    None => None,
                    Some(t) => if re + 1 < s.len() && s[re + 1] == '/' {
                        let ce = sp_name_end(s, re + 2);
                        if s.subrange(re + 2, ce) == name && ce < s.len() && s[ce] == '>' {
                            Some(
                                (
                                    ElemV { name, attrs, children: seq![NodeV::Text(t)] },
                                    ce + 1,
                                ),
                            )
                        } else {
                            None
                        }
                    } else {
                        None
                    },
                }
            }
        } else {
            None
        }
    } else {
        None
    }
}

/// Reads sibling elements separated by whitespace, stopping right at the
/// `<` of the first closing tag.
pub open spec fn sp_children(s: Seq<char>, i: int) -> Option<(Seq<NodeV>, int)>
    decreases s.len() - i, 2int,
{
    if 0 <= i && i <= s.len() {
        let j = sp_ws(s, i);
        if i <= j && j < s.len() && s[j] == '<' {
            if j + 1 < s.len() && s[j + 1] == '/' {
                Some((Seq::empty(), j))
            } else {
                match sp_elem(s, j) {
                    None => None,
                    Some((e, m)) => if j < m && m <= s.len() {
                        match sp_children(s, m) {
                            None => None,
                            Some((rest, p)) => Some((seq![NodeV::Elem(e)] + rest, p)),
                        }
                    } else {
                        None
                    },
                }
            }
        } else {
            None
        }
    } else {
        None
    }
}

/// Reads a whole document: optional whitespace, an optional `<?...?>`
/// declaration, an optional `<!...>` document type, the root element, and
/// trailing whitespace.
pub open spec fn sp_doc(s: Seq<char>) -> Option<ElemV> {
    let i1 = sp_ws(s, 0);
    let i2 = if i1 + 1 < s.len() && s[i1] == '<' && s[i1 + 1] == '?' {
        sp_qm(s, i1 + 2)
    } else {
        Some(i1)
    };
    match i2 {
        None => None,
        Some(p2) => {
            let i3 = sp_ws(s, p2);
            let i4 = if i3 + 1 < s.len() && s[i3] == '<' && s[i3 + 1] == '!' {
                sp_gt(s, i3 + 2)
            } else {
                Some(i3)
            };
            match i4 {
                None => None,
                Some(p4) => {
                    let i5 = sp_ws(s, p4);
                    match sp_elem(s, i5) {
                        None => None,
                        Some((root, m)) => if 0 <= m && m <= s.len() && sp_ws(s, m) == s.len() {
                            Some(root)
                        } else {
                            None
                        },
                    }
                },
            }
        },
    }
}

} // verus!

// The executable reader, one function per specification function.

verus! {

/// Executable scan matching [`sp_ws`].
pub fn read_ws(s: &[char], i: usize) -> (r: usize)
    requires
        i <= s@.len(),
    ensures
        r as int == sp_ws(s@, i as int),
        i <= r <= s@.len(),
    decreases s@.len() - i,
{
    if i < s.len() && ws_char(s[i]) {
        read_ws(s, i + 1)
    } else {
        i
    }
}

/// Executable scan matching [`sp_raw`].
pub fn read_raw(s: &[char], i: usize) -> (r: usize)
    requires
        i <= s@.len(),
    ensures
        r as int == sp_raw(s@, i as int),
        i <= r <= s@.len(),
    decreases s@.len() - i,
{
    if i < s.len() && s[i] != '<' {
        read_raw(s, i + 1)
    } else {
        i
    }
}

/// Executable scan matching [`sp_quote`].
pub fn read_quote(s: &[char], i: usize) -> (r: usize)
    requires
        i <= s@.len(),
    ensures
        r as int == sp_quote(s@, i as int),
        i <= r <= s@.len(),
    decreases s@.len() - i,
{
    if i < s.len() && s[i] != '"' {
        read_quote(s, i + 1)
    } else {
        i
    }
}

/// Executable scan matching [`sp_name_end`].
pub fn read_name_end(s: &[char], i: usize) -> (r: usize)
    requires
        i <= s@.len(),
    ensures
        r as int == sp_name_end(s@, i as int),
        i <= r <= s@.len(),
    decreases s@.len() - i,
{
    if i < s.len() && name_char(s[i]) {
        read_name_end(s, i + 1)
    } else {
        i
    }
}

/// Executable scan matching [`sp_qm`].
pub fn read_qm(s: &[char], i: usize) -> (r: Option<usize>)
    requires
        i <= s@.len(),
    ensures
        match r {
            Some(p) => sp_qm(s@, i as int) == Some(p as int) && i < p <= s@.len(),
            None => sp_qm(s@, i as int) is None,
        },
    decreases s@.len() - i,
{
    if s.len() - i > 1 {
        if s[i] == '?' && s[i + 1] == '>' {
            Some(i + 2)
        } else {
            read_qm(s, i + 1)
        }
    } else {
        None
    }
}

/// Executable scan matching [`sp_gt`].
pub fn read_gt(s: &[char], i: usize) -> (r: Option<usize>)
    requires
        i <= s@.len(),
    ensures
        match r {
            Some(p) => sp_gt(s@, i as int) == Some(p as int) && i < p <= s@.len(),
            None => sp_gt(s@, i as int) is None,
        },
    decreases s@.len() - i,
{
    if i < s.len() {
        if s[i] == '>' {
            Some(i + 1)
        } else {
            read_gt(s, i + 1)
        }
    } else {
        None
    }
}

/// Whether the slice starts with the given prefix.
pub fn check_prefix(s: &[char], p: &[char]) -> (r: bool)
    ensures
        r == starts_with_seq(s@, p@),
{
    if s.len() < p.len() {
        return false;
    }
    let n = p.len();
    let mut i: usize = 0;
    while i < n
        invariant
            n == p@.len(),
            n <= s@.len(),
            i <= n,
            forall|j: int| 0 <= j < i ==> s@[j] == p@[j],
        decreases n - i,
    {
        if s[i] != p[i] {
            proof {
                assert(s@.subrange(0, p@.len() as int)[i as int] == s@[i as int]);
            }
            return false;
        }
        i = i + 1;
    }
    proof {
        assert(s@.subrange(0, p@.len() as int) =~= p@);
    }
    true
}

/// Executable entity lookup matching [`ent_match`].
fn read_ent(s: &[char]) -> (r: Option<(char, usize)>)
    ensures
        match r {
            Some(ck) => ent_match(s@) == Some((ck.0, ck.1 as int)) && 0 < ck.1 <= s@.len(),
            None => ent_match(s@) is None,
        },
{
    let amp: Vec<char> = vec!['&', 'a', 'm', 'p', ';'];
    let lt: Vec<char> = vec!['&', 'l', 't', ';'];
    let gt: Vec<char> = vec!['&', 'g', 't', ';'];
    let quot: Vec<char> = vec!['&', 'q', 'u', 'o', 't', ';'];
    let apos: Vec<char> = vec!['&', 'a', 'p', 'o', 's', ';'];
    proof {
        assert(amp@ =~= esc_char('&'));
        assert(lt@ =~= esc_char('<'));
        assert(gt@ =~= esc_char('>'));
        assert(quot@ =~= esc_char('"'));
        assert(apos@ =~= esc_char('\''));
    }
    if check_prefix(s, amp.as_slice()) {
        Some(('&', 5))
    } else if check_prefix(s, lt.as_slice()) {
        Some(('<', 4))
    } else if check_prefix(s, gt.as_slice()) {
        Some(('>', 4))
    } else if check_prefix(s, quot.as_slice()) {
        Some(('"', 6))
    } else if check_prefix(s, apos.as_slice()) {
        Some(('\'', 6))
    } else {
        None
    }
}

/// Executable unescaping matching [`sp_unescape`].
pub fn read_unescape(s: &[char]) -> (r: Option<Vec<char>>)
    ensures
        match r {
            Some(v) => sp_unescape(s@) == Some(v@),
            None => sp_unescape(s@) is None,
        },
    decreases s@.len(),
{
    if s.len() == 0 {
        Some(Vec::new())
    } else if s[0] == '&' {
        match read_ent(s) {
            None => None,
            Some((c, k)) => {
                let rest = vstd::slice::slice_subrange(s, k, s.len());
                match read_unescape(rest) {
                    None => None,
                    Some(mut v) => {
                        v.insert(0, c);
                        proof {
                            assert(v@ =~= seq![c] + v@.subrange(1, v@.len() as int));
                        }
                        Some(v)
                    },
                }
            },
        }
    } else {
        let rest = vstd::slice::slice_subrange(s, 1, s.len());
        match read_unescape(rest) {
            None => None,
            Some(mut v) => {
                let c = s[0];
                v.insert(0, c);
                proof {
                    assert(v@ =~= seq![c] + v@.subrange(1, v@.len() as int));
                }
                Some(v)
            },
        }
    }
}

/// Executable attribute reading matching [`sp_attrs`].
pub fn read_attrs(s: &[char], i: usize) -> (r: Option<(Vec<XmlAttr>, usize)>)
    requires
        i <= s@.len(),
    ensures
        match r {
            Some(ap) => sp_attrs(s@, i as int) == Some((attrs_view(ap.0@), ap.1 as int)) && i
                <= ap.1 <= s@.len(),
            None => sp_attrs(s@, i as int) is None,
        },
    decreases s@.len() - i,
{
    let j = read_ws(s, i);
    if !(j < s.len()) {
        return None;
    }
    if s[j] == '>' || s[j] == '/' {
        let empty_attrs: Vec<XmlAttr> = Vec::new();
        proof {
            assert(attrs_view(empty_attrs@) =~= Seq::<AttrV>::empty());
        }
        return Some((empty_attrs, j));
    }
    let ne = read_name_end(s, j);
    if !(j < ne && s.len() - ne > 1 && s[ne] == '=' && s[ne + 1] == '"') {
        return None;
    }
    let ve = read_quote(s, ne + 2);
    if !(ve < s.len()) {
        return None;
    }
    let rawval = vstd::slice::slice_subrange(s, ne + 2, ve);
    match read_unescape(rawval) {
        None => None,
        Some(val) => {
            match read_attrs(s, ve + 1) {
                None => None,
                Some((mut rest, p)) => {
                    let namestr = chars_to_string(vstd::slice::slice_subrange(s, j, ne));
                    let valstr = chars_to_string(val.as_slice());
                    let a = XmlAttr { name: namestr, value: valstr };
                    rest.insert(0, a);
                    proof {
                        let restv = attrs_view(rest@.subrange(1, rest@.len() as int));
                        assert(attrs_view(rest@) =~= seq![
                            AttrV {
                                name: s@.subrange(j as int, ne as int),
                                value: val@,
                            },
                        ] + restv);
                    }
                    Some((rest, p))
                },
            }
        },
    }
}

/// Executable element reading matching [`sp_elem`].
pub fn read_elem(s: &[char], i: usize) -> (r: Option<(XmlElem, usize)>)
    requires
        i <= s@.len(),
    ensures
        match r {
            Some(ep) => sp_elem(s@, i as int) == Some((ep.0@, ep.1 as int)) && i < ep.1
                <= s@.len(),
            None => sp_elem(s@, i as int) is None,
        },
    decreases s@.len() - i, 0int,
{
    if !(i < s.len() && s[i] == '<') {
        return None;
    }
    let ne = read_name_end(s, i + 1);
    if !(i + 1 < ne) {
        return None;
    }
    let name = chars_to_string(vstd::slice::slice_subrange(s, i + 1, ne));
    match read_attrs(s, ne) {
        None => None,
        Some((attrs, j)) => {
            if !(j < s.len()) {
                return None;
            }
            if s[j] == '/' {
                if s.len() - j > 1 && s[j + 1] == '>' {
                    let no_kids: Vec<XmlNode> = Vec::new();
                    proof {
                        assert(nodes_view(no_kids@) =~= Seq::<NodeV>::empty());
                    }
                    let e = XmlElem { name, attrs, children: no_kids };
                    Some((e, j + 2))
                } else {
                    None
                }
            } else if s[j] == '>' {
                read_content(s, j + 1, name, attrs, Ghost(i as int))
            } else {
                None
            }
        },
    }
}

/// Executable content reading matching [`sp_content`]; the ghost argument
/// only ties the result to the enclosing [`sp_elem`] call.
fn read_content(
    s: &[char],
    k: usize,
    name: String,
    attrs: Vec<XmlAttr>,
    Ghost(start): Ghost<int>,
) -> (r: Option<(XmlElem, usize)>)
    requires
        k <= s@.len(),
    ensures
        match r {
            Some(ep) => sp_content(
                s@,
                k as int,
                name@,
                attrs_view(attrs@),
            ) == Some((ep.0@, ep.1 as int)) && k < ep.1 <= s@.len(),
            None => sp_content(
                s@,
                k as int,
                name@,
                attrs_view(attrs@),
            ) is None,
        },
    decreases s@.len() - k, 3int,
{
    let re = read_raw(s, k);
    if !(re < s.len()) {
        return None;
    }
    let raw = vstd::slice::slice_subrange(s, k, re);
    let mut ws_only = true;
    let mut t: usize = 0;
    while t < raw.len()
        invariant
            t <= raw@.len(),
            ws_only == all_ws(raw@.subrange(0, t as int)),
        decreases raw@.len() - t,
    {
        if !ws_char(raw[t]) {
            ws_only = false;
        }
        proof {
            assert(raw@.subrange(0, t + 1 as int).drop_last() =~= raw@.subrange(0, t as int));
            if !is_ws_char(raw@[t as int]) {
                assert(raw@.subrange(0, t + 1 as int)[t as int] == raw@[t as int]);
                assert(!all_ws(raw@.subrange(0, t + 1 as int)));
            } else {
                if all_ws(raw@.subrange(0, t as int)) {
                    assert(forall|q: int|
                        0 <= q < t + 1 ==> is_ws_char(
                            #[trigger] raw@.subrange(0, t + 1 as int)[q],
                        ));
                }
            }
        }
        t = t + 1;
    }
    proof {
        assert(raw@.subrange(0, raw@.len() as int) =~= raw@);
    }
    if ws_only {
        match read_children(s, k) {
            None => None,
            Some((kids, m)) => {
                if !(s.len() - m > 1 && s[m] == '<' && s[m + 1] == '/') {
                    return None;
                }
                let ce = read_name_end(s, m + 2);
                let close = chars_to_string(vstd::slice::slice_subrange(s, m + 2, ce));
                if crate::text::str_eq(close.as_str(), name.as_str()) && ce < s.len() && s[ce]
                    == '>' {
                    let e = XmlElem { name, attrs, children: kids };
                    Some((e, ce + 1))
                } else {
                    None
                }
            },
        }
    } else {
        match read_unescape(raw) {
            None => None,
            Some(txt) => {
                if !(s.len() - re > 1 && s[re + 1] == '/') {
                    return None;
                }
                let ce = read_name_end(s, re + 2);
                let close = chars_to_string(vstd::slice::slice_subrange(s, re + 2, ce));
                if crate::text::str_eq(close.as_str(), name.as_str()) && ce < s.len() && s[ce]
                    == '>' {
                    let tstr = chars_to_string(txt.as_slice());
                    let mut kids: Vec<XmlNode> = Vec::new();
                    kids.push(XmlNode::Text(tstr));
                    let e = XmlElem { name, attrs, children: kids };
                    proof {
                        assert(kids@.drop_last() =~= Seq::<XmlNode>::empty());
                        assert(nodes_view(Seq::<XmlNode>::empty()) =~= Seq::<NodeV>::empty());
                        assert(kids@.last() == XmlNode::Text(tstr));
                        assert(crate::xml::node_view(XmlNode::Text(tstr)) == NodeV::Text(
                            tstr@,
                        ));
                        assert(nodes_view(kids@) =~= seq![NodeV::Text(txt@)]);
                    }
                    Some((e, ce + 1))
                } else {
                    None
                }
            },
        }
    }
}

/// Executable sibling reading matching [`sp_children`].
pub fn read_children(s: &[char], i: usize) -> (r: Option<(Vec<XmlNode>, usize)>)
    requires
        i <= s@.len(),
    ensures
        match r {
            Some(vp) => sp_children(s@, i as int) == Some((nodes_view(vp.0@), vp.1 as int)) && i
                <= vp.1 <= s@.len(),
            None => sp_children(s@, i as int) is None,
        },
    decreases s@.len() - i, 2int,
{
    let j = read_ws(s, i);
    if !(j < s.len() && s[j] == '<') {
        return None;
    }
    if s.len() - j > 1 && s[j + 1] == '/' {
        let none: Vec<XmlNode> = Vec::new();
        proof {
            assert(nodes_view(none@) =~= Seq::<NodeV>::empty());
        }
        return Some((none, j));
    }
    match read_elem(s, j) {
        None => None,
        Some((e, m)) => {
            match read_children(s, m) {
                None => None,
                Some((mut rest, p)) => {
                    proof {
                        crate::xml::lemma_nodes_view_cons(XmlNode::Elem(e), rest@);
                    }
                    let ghost oldrest = rest@;
                    rest.insert(0, XmlNode::Elem(e));
                    proof {
                        assert(rest@ =~= seq![rest@[0]] + oldrest);
                    }
                    Some((rest, p))
                },
            }
        },
    }
}

/// Executable document reading matching [`sp_doc`].
pub fn read_doc(s: &[char]) -> (r: Option<XmlElem>)
    ensures
        match r {
            Some(e) => sp_doc(s@) == Some(e@),
            None => sp_doc(s@) is None,
        },
{
    let i1 = read_ws(s, 0);
    let p2: usize = if s.len() - i1 > 1 && s[i1] == '<' && s[i1 + 1] == '?' {
        match read_qm(s, i1 + 2) {
            None => {
                return None;
            },
            Some(p) => p,
        }
    } else {
        i1
    };
    let i3 = read_ws(s, p2);
    let p4: usize = if s.len() - i3 > 1 && s[i3] == '<' && s[i3 + 1] == '!' {
        match read_gt(s, i3 + 2) {
            None => {
                return None;
            },
            Some(p) => p,
        }
    } else {
        i3
    };
    let i5 = read_ws(s, p4);
    match read_elem(s, i5) {
        None => None,
        Some((root, m)) => {
            let e = read_ws(s, m);
            if e == s.len() {
                Some(root)
            } else {
                None
            }
        },
    }
}

} // verus!
