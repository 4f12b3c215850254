//! The two conversion directions: scenario model to XML document text, and
//! document text back to a scenario model.
//!
//! The serializer is total: it emits exactly the document described by
//! [`crate::schema::scenario_tree`].  The deserializer parses the text with
//! the verified reader of [`crate::parse`] and transforms the resulting
//! tree, synthesizing fresh identifiers and resolving name references
//! through a per-call reference table.

#![allow(non_snake_case)]

use vstd::prelude::*;

use crate::scenario::default_antenna_type_field;
use crate::scenario::default_as_constant;
use crate::scenario::default_as_pulsed;
use crate::scenario::default_gp_id;
use crate::scenario::default_gp_type;
use crate::scenario::default_platform_type_field;
use crate::scenario::default_pulse_type_field;
use crate::scenario::default_timing_type_field;
use crate::scenario::Antenna;
use crate::scenario::GlobalParameters;
use crate::scenario::Monostatic;
use crate::scenario::NoiseEntry;
use crate::scenario::Platform;
use crate::scenario::PlatformComponent;
use crate::scenario::PositionWaypoint;
use crate::scenario::Pulse;
use crate::scenario::Receiver;
use crate::scenario::Rotation;
use crate::scenario::RotationWaypoint;
use crate::scenario::ScenarioState;
use crate::scenario::Target;
use crate::scenario::Timing;
use crate::scenario::Transmitter;
use crate::schema::assoc_last;
use crate::schema::antenna_elem;
use crate::schema::bool_text;
use crate::schema::component_nodes;
use crate::schema::monostatic_elem;
use crate::schema::motionpath_elem;
use crate::schema::noise_elem;
use crate::schema::params_elem;
use crate::schema::platform_elem;
use crate::schema::position_waypoint_elem;
use crate::schema::pulse_elem;
use crate::schema::push_opt_attr;
use crate::schema::push_opt_text;
use crate::schema::receiver_elem;
use crate::schema::resolve_ref;
use crate::schema::rotation_elem;
use crate::schema::rotation_waypoint_elem;
use crate::schema::scenario_tree;
use crate::schema::table_of;
use crate::schema::target_elem;
use crate::schema::text_el;
use crate::schema::timing_elem;
use crate::schema::transmitter_elem;
use crate::text::chars_to_string;
use crate::text::dec_digits;
use crate::text::dec_int;
use crate::text::push_i64_chars;
use crate::text::push_u64_chars;
use crate::text::str_eq;
use crate::xml::doc_text;
use crate::xml::lemma_nodes_view_push;
use crate::xml::nodes_view;
use crate::xml::write_document;
use crate::xml::AttrV;
use crate::xml::NodeV;
use crate::xml::XmlAttr;
use crate::xml::XmlElem;
use crate::xml::XmlNode;

verus! {

/// Turns any displayable error into the single-string form the callers of
/// the transcoder expect.
pub fn map_err<E: core::fmt::Display>(e: E) -> String {
    e.to_string()
}

/// The decimal text of a signed integer field.
pub fn i64_string(n: i64) -> (r: String)
    ensures
        r@ == dec_int(n as int),
{
    let mut v: Vec<char> = Vec::new();
    push_i64_chars(&mut v, n);
    chars_to_string(v.as_slice())
}

/// The decimal text of an unsigned integer field.
pub fn u64_string(n: u64) -> (r: String)
    ensures
        r@ == dec_digits(n as nat),
{
    let mut v: Vec<char> = Vec::new();
    push_u64_chars(&mut v, n);
    chars_to_string(v.as_slice())
}

/// The text of a boolean attribute.
pub fn bool_string(b: bool) -> (r: String)
    ensures
        r@ == bool_text(b),
{
    if b {
        String::from_str("true")
    } else {
        String::from_str("false")
    }
}

/// Appends one simple element holding a run of text, as the document writes
/// scalar fields.
pub fn write_simple_tag(kids: &mut Vec<XmlNode>, tag: &str, value: String)
    ensures
        nodes_view(final(kids)@) == nodes_view(old(kids)@).push(
            NodeV::Elem(text_el(tag@, value@)),
        ),
{
    let ghost valv = value@;
    let mut c: Vec<XmlNode> = Vec::new();
    let tn = XmlNode::Text(value);
    let ghost tng = tn;
    c.push(tn);
    let e = XmlElem { name: String::from_str(tag), attrs: Vec::new(), children: c };
    proof {
        assert(e.children@.drop_last() =~= Seq::<XmlNode>::empty());
        assert(nodes_view(Seq::<XmlNode>::empty()) =~= Seq::<NodeV>::empty());
        assert(e.children@.last() == tng);
        assert(crate::xml::node_view(tng) == NodeV::Text(valv));
        assert(nodes_view(e.children@) =~= seq![NodeV::Text(valv)]);
        assert(Seq::new(e.attrs@.len(), |i: int| e.attrs@[i]@) =~= Seq::<AttrV>::empty());
        assert(e@ == text_el(tag@, valv));
    }
    let ghost before = kids@;
    kids.push(XmlNode::Elem(e));
    proof {
        lemma_nodes_view_push(before, XmlNode::Elem(e));
    }
}

/// Appends a simple element for a present optional field and nothing for an
/// absent one.
pub fn write_optional_tag(kids: &mut Vec<XmlNode>, tag: &str, value: &Option<String>)
    ensures
        nodes_view(final(kids)@) == push_opt_text(
            nodes_view(old(kids)@),
            tag@,
            crate::scenario::opt_view(*value),
        ),
{
    match value {
        Some(t) => write_simple_tag(kids, tag, t.clone()),
        None => (),
    }
}

/// The spec-level contents of an executable reference table.
pub open spec fn table_view(t: Seq<(String, String)>) -> Seq<(Seq<char>, Seq<char>)> {
    Seq::new(t.len(), |i: int| (t[i].0@, t[i].1@))
}

/// Inserting a pair into the table inserts its contents.
pub proof fn lemma_table_view_push(tb: Seq<(String, String)>, pr: (String, String))
    ensures
        table_view(tb.push(pr)) == table_view(tb).push((pr.0@, pr.1@)),
{
    assert forall|q: int| 0 <= q < tb.len() + 1 implies table_view(tb.push(pr))[q]
        == table_view(tb).push((pr.0@, pr.1@))[q] by {
        if q < tb.len() {
            assert(tb.push(pr)[q] == tb[q]);
        } else {
            assert(tb.push(pr)[q] == pr);
        }
    }
    assert(table_view(tb.push(pr)) =~= table_view(tb).push((pr.0@, pr.1@)));
}

/// Looks an identifier up in the reference table; the last insertion wins.
fn table_lookup_slice(t: &[(String, String)], id: &str) -> (r: Option<String>)
    ensures
        match r {
            Some(nm) => assoc_last(table_view(t@), id@) == Some(nm@),
            None => assoc_last(table_view(t@), id@) is None,
        },
    decreases t@.len(),
{
    let n = t.len();
    if n == 0 {
        return None;
    }
    if str_eq(t[n - 1].0.as_str(), id) {
        proof {
            assert(table_view(t@).last() == (t@[n - 1].0@, t@[n - 1].1@));
        }
        Some(t[n - 1].1.clone())
    } else {
        let rest = vstd::slice::slice_subrange(t, 0, n - 1);
        proof {
            assert(table_view(rest@) =~= table_view(t@).drop_last());
            assert(table_view(t@).last() == (t@[n - 1].0@, t@[n - 1].1@));
        }
        table_lookup_slice(rest, id)
    }
}

/// Resolves an optional asset reference to a display name, if the table
/// holds it.
pub fn resolve_id(table: &Vec<(String, String)>, opt: &Option<String>) -> (r: Option<String>)
    ensures
        match r {
            Some(nm) => resolve_ref(table_view(table@), crate::scenario::opt_view(*opt)) == Some(
                nm@,
            ),
            None => resolve_ref(table_view(table@), crate::scenario::opt_view(*opt)) is None,
        },
{
    match opt {
        Some(id) => table_lookup_slice(table.as_slice(), id.as_str()),
        None => None,
    }
}

/// Builds the reference table of a scenario: identifier to display name for
/// every asset, pulses, then timings, then antennas.
pub fn build_ref_table(m: &ScenarioState) -> (r: Vec<(String, String)>)
    ensures
        table_view(r@) == table_of(m@),
{
    let mut t: Vec<(String, String)> = Vec::new();
    let ghost p = Seq::new(m.pulses@.len(), |i: int| (m.pulses@[i].id@, m.pulses@[i].name@));
    let ghost ti = Seq::new(m.timings@.len(), |i: int| (m.timings@[i].id@, m.timings@[i].name@));
    let ghost an = Seq::new(
        m.antennas@.len(),
        |i: int| (m.antennas@[i].id@, m.antennas@[i].name@),
    );
    let mut i: usize = 0;
    while i < m.pulses.len()
        invariant
            i <= m.pulses@.len(),
            p == Seq::new(m.pulses@.len(), |q: int| (m.pulses@[q].id@, m.pulses@[q].name@)),
            table_view(t@) == p.subrange(0, i as int),
        decreases m.pulses@.len() - i,
    {
        let pr = (m.pulses[i].id.clone(), m.pulses[i].name.clone());
        let ghost prg = pr;
        let ghost tb = t@;
        t.push(pr);
        proof {
            lemma_table_view_push(tb, prg);
            assert(p.subrange(0, i + 1 as int) =~= p.subrange(0, i as int).push(p[i as int]));
            assert(p[i as int] == (prg.0@, prg.1@));
        }
        i = i + 1;
    }
    proof {
        assert(p.subrange(0, p.len() as int) =~= p);
    }
    let mut j: usize = 0;
    while j < m.timings.len()
        invariant
            j <= m.timings@.len(),
            ti == Seq::new(m.timings@.len(), |q: int| (m.timings@[q].id@, m.timings@[q].name@)),
            p == Seq::new(m.pulses@.len(), |q: int| (m.pulses@[q].id@, m.pulses@[q].name@)),
            table_view(t@) == p + ti.subrange(0, j as int),
        decreases m.timings@.len() - j,
    {
        let pr = (m.timings[j].id.clone(), m.timings[j].name.clone());
        let ghost prg = pr;
        let ghost tb = t@;
        t.push(pr);
        proof {
            lemma_table_view_push(tb, prg);
            assert(ti.subrange(0, j + 1 as int) =~= ti.subrange(0, j as int).push(ti[j as int]));
            assert(ti[j as int] == (prg.0@, prg.1@));
            assert(table_view(t@) =~= p + ti.subrange(0, j + 1 as int));
        }
        j = j + 1;
    }
    proof {
        assert(ti.subrange(0, ti.len() as int) =~= ti);
    }
    let mut k: usize = 0;
    while k < m.antennas.len()
        invariant
            k <= m.antennas@.len(),
            an == Seq::new(
                m.antennas@.len(),
                |q: int| (m.antennas@[q].id@, m.antennas@[q].name@),
            ),
            ti == Seq::new(m.timings@.len(), |q: int| (m.timings@[q].id@, m.timings@[q].name@)),
            p == Seq::new(m.pulses@.len(), |q: int| (m.pulses@[q].id@, m.pulses@[q].name@)),
            table_view(t@) == p + ti + an.subrange(0, k as int),
        decreases m.antennas@.len() - k,
    {
        let pr = (m.antennas[k].id.clone(), m.antennas[k].name.clone());
        let ghost prg = pr;
        let ghost tb = t@;
        t.push(pr);
        proof {
            lemma_table_view_push(tb, prg);
            assert(an.subrange(0, k + 1 as int) =~= an.subrange(0, k as int).push(an[k as int]));
            assert(an[k as int] == (prg.0@, prg.1@));
            assert(table_view(t@) =~= p + ti + an.subrange(0, k + 1 as int));
        }
        k = k + 1;
    }
    proof {
        assert(an.subrange(0, an.len() as int) =~= an);
        assert(table_view(t@) =~= table_of(m@));
    }
    t
}

} // verus!

// The serializer: one builder per document element, each proved to produce
// exactly the tree of the schema.

use crate::xml::attrs_view;
use crate::xml::lemma_attrs_view_push;

verus! {

/// Appends an attribute for a resolved optional reference.
fn write_ref_attr(
    attrs: &mut Vec<XmlAttr>,
    name: &str,
    table: &Vec<(String, String)>,
    opt: &Option<String>,
)
    ensures
        attrs_view(final(attrs)@) == push_opt_attr(
            attrs_view(old(attrs)@),
            name@,
            resolve_ref(table_view(table@), crate::scenario::opt_view(*opt)),
        ),
{
    match resolve_id(table, opt) {
        Some(nm) => {
            let a = XmlAttr { name: String::from_str(name), value: nm };
            let ghost ag = a;
            let ghost before = attrs@;
            attrs.push(a);
            proof {
                lemma_attrs_view_push(before, ag);
            }
        },
        None => (),
    }
}

/// Appends an attribute for a present optional string.
fn write_opt_attr(attrs: &mut Vec<XmlAttr>, name: &str, opt: &Option<String>)
    ensures
        attrs_view(final(attrs)@) == push_opt_attr(
            attrs_view(old(attrs)@),
            name@,
            crate::scenario::opt_view(*opt),
        ),
{
    match opt {
        Some(f) => {
            let a = XmlAttr { name: String::from_str(name), value: f.clone() };
            let ghost ag = a;
            let ghost before = attrs@;
            attrs.push(a);
            proof {
                lemma_attrs_view_push(before, ag);
            }
        },
        None => (),
    }
}

/// Appends a plain attribute.
fn write_attr(attrs: &mut Vec<XmlAttr>, name: &str, value: String)
    ensures
        attrs_view(final(attrs)@) == attrs_view(old(attrs)@).push(
            AttrV { name: name@, value: value@ },
        ),
{
    let a = XmlAttr { name: String::from_str(name), value };
    let ghost ag = a;
    let ghost before = attrs@;
    attrs.push(a);
    proof {
        lemma_attrs_view_push(before, ag);
    }
}

/// Builds the document element of a pulse.
fn build_pulse(p: &Pulse) -> (r: XmlElem)
    ensures
        r@ == pulse_elem(p@),
{
    let mut attrs: Vec<XmlAttr> = Vec::new();
    proof {
        assert(attrs_view(attrs@) =~= Seq::<AttrV>::empty());
    }
    write_attr(&mut attrs, "name", p.name.clone());
    let cw = str_eq(p.pulseType.as_str(), "cw") || str_eq(p.pulseType.as_str(), "continuous");
    let ty = if cw {
        String::from_str("continuous")
    } else {
        String::from_str("file")
    };
    write_attr(&mut attrs, "type", ty);
    write_opt_attr(&mut attrs, "filename", &p.filename);
    let mut kids: Vec<XmlNode> = Vec::new();
    proof {
        assert(nodes_view(kids@) =~= Seq::<NodeV>::empty());
    }
    write_simple_tag(&mut kids, "power", p.power.clone());
    write_simple_tag(&mut kids, "carrier", p.carrier.clone());
    let e = XmlElem { name: String::from_str("pulse"), attrs, children: kids };
    proof {
        assert(attrs_view(e.attrs@) =~= pulse_elem(p@).attrs);
        assert(nodes_view(e.children@) =~= pulse_elem(p@).children);
    }
    e
}

/// Builds the document element of one noise entry.
fn build_noise(n: &NoiseEntry) -> (r: XmlElem)
    ensures
        r@ == noise_elem(n@),
{
    let mut kids: Vec<XmlNode> = Vec::new();
    proof {
        assert(nodes_view(kids@) =~= Seq::<NodeV>::empty());
    }
    write_simple_tag(&mut kids, "alpha", n.alpha.clone());
    write_simple_tag(&mut kids, "weight", n.weight.clone());
    let e = XmlElem { name: String::from_str("noise_entry"), attrs: Vec::new(), children: kids };
    proof {
        assert(attrs_view(e.attrs@) =~= noise_elem(n@).attrs);
        assert(nodes_view(e.children@) =~= noise_elem(n@).children);
    }
    e
}

/// Builds the document element of a timing source.
fn build_timing(t: &Timing) -> (r: XmlElem)
    ensures
        r@ == timing_elem(t@),
{
    let mut attrs: Vec<XmlAttr> = Vec::new();
    proof {
        assert(attrs_view(attrs@) =~= Seq::<AttrV>::empty());
    }
    write_attr(&mut attrs, "name", t.name.clone());
    let mut kids: Vec<XmlNode> = Vec::new();
    proof {
        assert(nodes_view(kids@) =~= Seq::<NodeV>::empty());
    }
    write_simple_tag(&mut kids, "frequency", t.frequency.clone());
    write_optional_tag(&mut kids, "freq_offset", &t.freqOffset);
    write_optional_tag(&mut kids, "random_freq_offset_stdev", &t.randomFreqOffsetStdev);
    write_optional_tag(&mut kids, "phase_offset", &t.phaseOffset);
    write_optional_tag(&mut kids, "random_phase_offset_stdev", &t.randomPhaseOffsetStdev);
    let ghost head = nodes_view(kids@);
    let ghost ns = Seq::new(
        t.noiseEntries@.len(),
        |i: int| NodeV::Elem(noise_elem(t.noiseEntries@[i]@)),
    );
    let mut i: usize = 0;
    while i < t.noiseEntries.len()
        invariant
            i <= t.noiseEntries@.len(),
            ns == Seq::new(
                t.noiseEntries@.len(),
                |q: int| NodeV::Elem(noise_elem(t.noiseEntries@[q]@)),
            ),
            nodes_view(kids@) == head + ns.subrange(0, i as int),
        decreases t.noiseEntries@.len() - i,
    {
        let ne = build_noise(&t.noiseEntries[i]);
        let ghost neg = ne;
        let ghost before = kids@;
        kids.push(XmlNode::Elem(ne));
        proof {
            lemma_nodes_view_push(before, XmlNode::Elem(neg));
            assert(nodes_view(kids@) =~= head + ns.subrange(0, i + 1 as int));
        }
        i = i + 1;
    }
    let e = XmlElem { name: String::from_str("timing"), attrs, children: kids };
    proof {
        assert(ns.subrange(0, ns.len() as int) =~= ns);
        assert(attrs_view(e.attrs@) =~= timing_elem(t@).attrs);
        assert(nodes_view(e.children@) =~= timing_elem(t@).children);
    }
    e
}

/// Builds the document element of an antenna.
fn build_antenna(a: &Antenna) -> (r: XmlElem)
    ensures
        r@ == antenna_elem(a@),
{
    let mut attrs: Vec<XmlAttr> = Vec::new();
    proof {
        assert(attrs_view(attrs@) =~= Seq::<AttrV>::empty());
    }
    write_attr(&mut attrs, "name", a.name.clone());
    write_attr(&mut attrs, "pattern", a.pattern.clone());
    write_opt_attr(&mut attrs, "filename", &a.filename);
    let mut kids: Vec<XmlNode> = Vec::new();
    proof {
        assert(nodes_view(kids@) =~= Seq::<NodeV>::empty());
    }
    write_optional_tag(&mut kids, "efficiency", &a.efficiency);
    if str_eq(a.pattern.as_str(), "sinc") {
        write_optional_tag(&mut kids, "alpha", &a.alpha);
        write_optional_tag(&mut kids, "beta", &a.beta);
        write_optional_tag(&mut kids, "gamma", &a.gamma);
    } else if str_eq(a.pattern.as_str(), "gaussian") {
        write_optional_tag(&mut kids, "azscale", &a.azscale);
        write_optional_tag(&mut kids, "elscale", &a.elscale);
    } else if str_eq(a.pattern.as_str(), "squarehorn") || str_eq(a.pattern.as_str(), "parabolic") {
        write_optional_tag(&mut kids, "diameter", &a.diameter);
    }
    let e = XmlElem { name: String::from_str("antenna"), attrs, children: kids };
    proof {
        assert(attrs_view(e.attrs@) =~= antenna_elem(a@).attrs);
        assert(nodes_view(e.children@) =~= antenna_elem(a@).children);
    }
    e
}

/// Builds the document element of one motion waypoint.
fn build_position_waypoint(w: &PositionWaypoint) -> (r: XmlElem)
    ensures
        r@ == position_waypoint_elem(w@),
{
    let mut kids: Vec<XmlNode> = Vec::new();
    proof {
        assert(nodes_view(kids@) =~= Seq::<NodeV>::empty());
    }
    write_simple_tag(&mut kids, "x", w.x.clone());
    write_simple_tag(&mut kids, "y", w.y.clone());
    write_simple_tag(&mut kids, "altitude", w.altitude.clone());
    write_simple_tag(&mut kids, "time", w.time.clone());
    let e = XmlElem {
        name: String::from_str("positionwaypoint"),
        attrs: Vec::new(),
        children: kids,
    };
    proof {
        assert(attrs_view(e.attrs@) =~= position_waypoint_elem(w@).attrs);
        assert(nodes_view(e.children@) =~= position_waypoint_elem(w@).children);
    }
    e
}

/// Builds the motion path element of a platform.
fn build_motionpath(p: &Platform) -> (r: XmlElem)
    ensures
        r@ == motionpath_elem(p@),
{
    let mut attrs: Vec<XmlAttr> = Vec::new();
    proof {
        assert(attrs_view(attrs@) =~= Seq::<AttrV>::empty());
    }
    write_attr(&mut attrs, "interpolation", p.motionPath.interpolation.clone());
    let mut kids: Vec<XmlNode> = Vec::new();
    let ghost ws = Seq::new(
        p.motionPath.waypoints@.len(),
        |i: int| NodeV::Elem(position_waypoint_elem(p.motionPath.waypoints@[i]@)),
    );
    proof {
        assert(nodes_view(kids@) =~= Seq::<NodeV>::empty());
    }
    let mut i: usize = 0;
    while i < p.motionPath.waypoints.len()
        invariant
            i <= p.motionPath.waypoints@.len(),
            ws == Seq::new(
                p.motionPath.waypoints@.len(),
                |q: int| NodeV::Elem(position_waypoint_elem(p.motionPath.waypoints@[q]@)),
            ),
            nodes_view(kids@) == ws.subrange(0, i as int),
        decreases p.motionPath.waypoints@.len() - i,
    {
        let we = build_position_waypoint(&p.motionPath.waypoints[i]);
        let ghost weg = we;
        let ghost before = kids@;
        kids.push(XmlNode::Elem(we));
        proof {
            lemma_nodes_view_push(before, XmlNode::Elem(weg));
            assert(nodes_view(kids@) =~= ws.subrange(0, i + 1 as int));
        }
        i = i + 1;
    }
    let e = XmlElem { name: String::from_str("motionpath"), attrs, children: kids };
    proof {
        assert(ws.subrange(0, ws.len() as int) =~= ws);
        assert(attrs_view(e.attrs@) =~= motionpath_elem(p@).attrs);
        assert(nodes_view(e.children@) =~= motionpath_elem(p@).children);
    }
    e
}

/// Builds the rotation element of a platform.
fn build_rotation(r: &Rotation) -> (res: XmlElem)
    ensures
        res@ == rotation_elem(r@),
{
    match r {
        Rotation::Fixed(f) => {
            let mut kids: Vec<XmlNode> = Vec::new();
            proof {
                assert(nodes_view(kids@) =~= Seq::<NodeV>::empty());
            }
            write_simple_tag(&mut kids, "startazimuth", f.startAzimuth.clone());
            write_simple_tag(&mut kids, "startelevation", f.startElevation.clone());
            write_simple_tag(&mut kids, "azimuthrate", f.azimuthRate.clone());
            write_simple_tag(&mut kids, "elevationrate", f.elevationRate.clone());
            let e = XmlElem {
                name: String::from_str("fixedrotation"),
                attrs: Vec::new(),
                children: kids,
            };
            proof {
                assert(attrs_view(e.attrs@) =~= rotation_elem(r@).attrs);
                assert(nodes_view(e.children@) =~= rotation_elem(r@).children);
            }
            e
        },
        Rotation::Path(p) => {
            let mut attrs: Vec<XmlAttr> = Vec::new();
            proof {
                assert(attrs_view(attrs@) =~= Seq::<AttrV>::empty());
            }
            write_attr(&mut attrs, "interpolation", p.interpolation.clone());
            let mut kids: Vec<XmlNode> = Vec::new();
            let ghost ws = Seq::new(
                p.waypoints@.len(),
                |i: int| NodeV::Elem(rotation_waypoint_elem(p.waypoints@[i]@)),
            );
            proof {
                assert(nodes_view(kids@) =~= Seq::<NodeV>::empty());
            }
            let mut i: usize = 0;
            while i < p.waypoints.len()
                invariant
                    i <= p.waypoints@.len(),
                    ws == Seq::new(
                        p.waypoints@.len(),
                        |q: int| NodeV::Elem(rotation_waypoint_elem(p.waypoints@[q]@)),
                    ),
                    nodes_view(kids@) == ws.subrange(0, i as int),
                decreases p.waypoints@.len() - i,
            {
                let w = &p.waypoints[i];
                let mut wk: Vec<XmlNode> = Vec::new();
                proof {
                    assert(nodes_view(wk@) =~= Seq::<NodeV>::empty());
                }
                write_simple_tag(&mut wk, "azimuth", w.azimuth.clone());
                write_simple_tag(&mut wk, "elevation", w.elevation.clone());
                write_simple_tag(&mut wk, "time", w.time.clone());
                let we = XmlElem {
                    name: String::from_str("rotationwaypoint"),
                    attrs: Vec::new(),
                    children: wk,
                };
                proof {
                    let wv = p.waypoints@[i as int]@;
                    assert(attrs_view(we.attrs@) =~= rotation_waypoint_elem(wv).attrs);
                    assert(nodes_view(we.children@) =~= rotation_waypoint_elem(wv).children);
                }
                let ghost weg = we;
                let ghost before = kids@;
                kids.push(XmlNode::Elem(we));
                proof {
                    lemma_nodes_view_push(before, XmlNode::Elem(weg));
                    assert(nodes_view(kids@) =~= ws.subrange(0, i + 1 as int));
                }
                i = i + 1;
            }
            let e = XmlElem { name: String::from_str("rotationpath"), attrs, children: kids };
            proof {
                assert(ws.subrange(0, ws.len() as int) =~= ws);
                assert(attrs_view(e.attrs@) =~= rotation_elem(r@).attrs);
                assert(nodes_view(e.children@) =~= rotation_elem(r@).children);
            }
            e
        },
    }
}

} // verus!

// The component, parameters and root builders, and the serializer entry
// point.

verus! {

/// Builds the document element of a receiver component.
fn build_receiver(r: &Receiver, table: &Vec<(String, String)>) -> (res: XmlElem)
    ensures
        res@ == receiver_elem(r@, table_view(table@)),
{
    let mut attrs: Vec<XmlAttr> = Vec::new();
    proof {
        assert(attrs_view(attrs@) =~= Seq::<AttrV>::empty());
    }
    write_attr(&mut attrs, "name", r.name.clone());
    write_ref_attr(&mut attrs, "antenna", table, &r.antennaId);
    write_ref_attr(&mut attrs, "timing", table, &r.timingId);
    if r.noDirectPaths {
        write_attr(&mut attrs, "nodirect", String::from_str("true"));
    }
    if r.noPropagationLoss {
        write_attr(&mut attrs, "nopropagationloss", String::from_str("true"));
    }
    let mut kids: Vec<XmlNode> = Vec::new();
    proof {
        assert(nodes_view(kids@) =~= Seq::<NodeV>::empty());
    }
    write_simple_tag(&mut kids, "window_skip", r.window_skip.clone());
    write_simple_tag(&mut kids, "window_length", r.window_length.clone());
    write_simple_tag(&mut kids, "prf", r.prf.clone());
    write_optional_tag(&mut kids, "noise_temp", &r.noiseTemperature);
    let e = XmlElem { name: String::from_str("receiver"), attrs, children: kids };
    proof {
        assert(attrs_view(e.attrs@) =~= receiver_elem(r@, table_view(table@)).attrs);
        assert(nodes_view(e.children@) =~= receiver_elem(r@, table_view(table@)).children);
    }
    e
}

/// Builds the document element of a transmitter component.
fn build_transmitter(t: &Transmitter, table: &Vec<(String, String)>) -> (res: XmlElem)
    ensures
        res@ == transmitter_elem(t@, table_view(table@)),
{
    let mut attrs: Vec<XmlAttr> = Vec::new();
    proof {
        assert(attrs_view(attrs@) =~= Seq::<AttrV>::empty());
    }
    write_attr(&mut attrs, "name", t.name.clone());
    write_attr(&mut attrs, "type", t.radarType.clone());
    write_ref_attr(&mut attrs, "antenna", table, &t.antennaId);
    write_ref_attr(&mut attrs, "pulse", table, &t.pulseId);
    write_ref_attr(&mut attrs, "timing", table, &t.timingId);
    let mut kids: Vec<XmlNode> = Vec::new();
    proof {
        assert(nodes_view(kids@) =~= Seq::<NodeV>::empty());
    }
    write_simple_tag(&mut kids, "prf", t.prf.clone());
    let e = XmlElem { name: String::from_str("transmitter"), attrs, children: kids };
    proof {
        assert(attrs_view(e.attrs@) =~= transmitter_elem(t@, table_view(table@)).attrs);
        assert(nodes_view(e.children@) =~= transmitter_elem(t@, table_view(table@)).children);
    }
    e
}

/// Builds the document element of a monostatic component.
fn build_monostatic(m: &Monostatic, table: &Vec<(String, String)>) -> (res: XmlElem)
    ensures
        res@ == monostatic_elem(m@, table_view(table@)),
{
    let mut attrs: Vec<XmlAttr> = Vec::new();
    proof {
        assert(attrs_view(attrs@) =~= Seq::<AttrV>::empty());
    }
    write_attr(&mut attrs, "name", m.name.clone());
    write_attr(&mut attrs, "type", m.radarType.clone());
    write_ref_attr(&mut attrs, "antenna", table, &m.antennaId);
    write_ref_attr(&mut attrs, "pulse", table, &m.pulseId);
    write_ref_attr(&mut attrs, "timing", table, &m.timingId);
    if m.noDirectPaths {
        write_attr(&mut attrs, "nodirect", String::from_str("true"));
    }
    if m.noPropagationLoss {
        write_attr(&mut attrs, "nopropagationloss", String::from_str("true"));
    }
    let mut kids: Vec<XmlNode> = Vec::new();
    proof {
        assert(nodes_view(kids@) =~= Seq::<NodeV>::empty());
    }
    write_simple_tag(&mut kids, "window_skip", m.window_skip.clone());
    write_simple_tag(&mut kids, "window_length", m.window_length.clone());
    write_simple_tag(&mut kids, "prf", m.prf.clone());
    write_optional_tag(&mut kids, "noise_temp", &m.noiseTemperature);
    let e = XmlElem { name: String::from_str("monostatic"), attrs, children: kids };
    proof {
        assert(attrs_view(e.attrs@) =~= monostatic_elem(m@, table_view(table@)).attrs);
        assert(nodes_view(e.children@) =~= monostatic_elem(m@, table_view(table@)).children);
    }
    e
}

/// Builds the document element of a target component.
fn build_target(t: &Target) -> (res: XmlElem)
    ensures
        res@ == target_elem(t@),
{
    let mut rcs_attrs: Vec<XmlAttr> = Vec::new();
    proof {
        assert(attrs_view(rcs_attrs@) =~= Seq::<AttrV>::empty());
    }
    write_attr(&mut rcs_attrs, "type", t.rcs_type.clone());
    write_opt_attr(&mut rcs_attrs, "filename", &t.rcs_filename);
    let mut rcs_kids: Vec<XmlNode> = Vec::new();
    proof {
        assert(nodes_view(rcs_kids@) =~= Seq::<NodeV>::empty());
    }
    write_optional_tag(&mut rcs_kids, "value", &t.rcs_value);
    let rcs = XmlElem { name: String::from_str("rcs"), attrs: rcs_attrs, children: rcs_kids };
    let mut kids: Vec<XmlNode> = Vec::new();
    proof {
        assert(nodes_view(kids@) =~= Seq::<NodeV>::empty());
    }
    let ghost rcsg = rcs;
    let ghost before0 = kids@;
    kids.push(XmlNode::Elem(rcs));
    proof {
        lemma_nodes_view_push(before0, XmlNode::Elem(rcsg));
    }
    if !str_eq(t.rcs_model.as_str(), "constant") {
        let mut model_attrs: Vec<XmlAttr> = Vec::new();
        proof {
            assert(attrs_view(model_attrs@) =~= Seq::<AttrV>::empty());
        }
        write_attr(&mut model_attrs, "type", t.rcs_model.clone());
        let mut model_kids: Vec<XmlNode> = Vec::new();
        proof {
            assert(nodes_view(model_kids@) =~= Seq::<NodeV>::empty());
        }
        write_optional_tag(&mut model_kids, "k", &t.rcs_k);
        let model = XmlElem {
            name: String::from_str("model"),
            attrs: model_attrs,
            children: model_kids,
        };
        let ghost modelg = model;
        let ghost before1 = kids@;
        kids.push(XmlNode::Elem(model));
        proof {
            lemma_nodes_view_push(before1, XmlNode::Elem(modelg));
        }
    }
    let mut attrs: Vec<XmlAttr> = Vec::new();
    proof {
        assert(attrs_view(attrs@) =~= Seq::<AttrV>::empty());
    }
    write_attr(&mut attrs, "name", t.name.clone());
    let e = XmlElem { name: String::from_str("target"), attrs, children: kids };
    proof {
        assert(attrs_view(e.attrs@) =~= target_elem(t@).attrs);
        assert(nodes_view(e.children@) =~= target_elem(t@).children);
    }
    e
}

/// Builds the document element of a platform, resolving its component's
/// asset references through the table.
fn build_platform(p: &Platform, table: &Vec<(String, String)>) -> (res: XmlElem)
    ensures
        res@ == platform_elem(p@, table_view(table@)),
{
    let mut attrs: Vec<XmlAttr> = Vec::new();
    proof {
        assert(attrs_view(attrs@) =~= Seq::<AttrV>::empty());
    }
    write_attr(&mut attrs, "name", p.name.clone());
    let mut kids: Vec<XmlNode> = Vec::new();
    proof {
        assert(nodes_view(kids@) =~= Seq::<NodeV>::empty());
    }
    let mp = build_motionpath(p);
    let ghost mpg = mp;
    let ghost b0 = kids@;
    kids.push(XmlNode::Elem(mp));
    proof {
        lemma_nodes_view_push(b0, XmlNode::Elem(mpg));
    }
    let rot = build_rotation(&p.rotation);
    let ghost rotg = rot;
    let ghost b1 = kids@;
    kids.push(XmlNode::Elem(rot));
    proof {
        lemma_nodes_view_push(b1, XmlNode::Elem(rotg));
    }
    match &p.component {
        PlatformComponent::NoComponent => (),
        PlatformComponent::Monostatic(m) => {
            let c = build_monostatic(m, table);
            let ghost cg = c;
            let ghost b2 = kids@;
            kids.push(XmlNode::Elem(c));
            proof {
                lemma_nodes_view_push(b2, XmlNode::Elem(cg));
            }
        },
        PlatformComponent::Transmitter(t) => {
            let c = build_transmitter(t, table);
            let ghost cg = c;
            let ghost b2 = kids@;
            kids.push(XmlNode::Elem(c));
            proof {
                lemma_nodes_view_push(b2, XmlNode::Elem(cg));
            }
        },
        PlatformComponent::Receiver(r) => {
            let c = build_receiver(r, table);
            let ghost cg = c;
            let ghost b2 = kids@;
            kids.push(XmlNode::Elem(c));
            proof {
                lemma_nodes_view_push(b2, XmlNode::Elem(cg));
            }
        },
        PlatformComponent::Target(t) => {
            let c = build_target(t);
            let ghost cg = c;
            let ghost b2 = kids@;
            kids.push(XmlNode::Elem(c));
            proof {
                lemma_nodes_view_push(b2, XmlNode::Elem(cg));
            }
        },
    }
    let e = XmlElem { name: String::from_str("platform"), attrs, children: kids };
    proof {
        assert(attrs_view(e.attrs@) =~= platform_elem(p@, table_view(table@)).attrs);
        assert(nodes_view(e.children@) =~= platform_elem(p@, table_view(table@)).children);
    }
    e
}

/// Builds the parameters block.
fn build_params(g: &GlobalParameters) -> (res: XmlElem)
    ensures
        res@ == params_elem(g@),
{
    let mut kids: Vec<XmlNode> = Vec::new();
    proof {
        assert(nodes_view(kids@) =~= Seq::<NodeV>::empty());
    }
    write_simple_tag(&mut kids, "starttime", g.start.clone());
    write_simple_tag(&mut kids, "endtime", g.end.clone());
    write_simple_tag(&mut kids, "rate", g.rate.clone());
    write_simple_tag(&mut kids, "c", g.c.clone());
    write_optional_tag(&mut kids, "simSamplingRate", &g.simSamplingRate);
    match g.random_seed {
        Some(v) => write_simple_tag(&mut kids, "randomseed", u64_string(v)),
        None => (),
    }
    write_simple_tag(&mut kids, "adc_bits", i64_string(g.adc_bits));
    write_simple_tag(&mut kids, "oversample", i64_string(g.oversample_ratio));
    let mut ex_attrs: Vec<XmlAttr> = Vec::new();
    proof {
        assert(attrs_view(ex_attrs@) =~= Seq::<AttrV>::empty());
    }
    write_attr(&mut ex_attrs, "binary", bool_string(g.export.binary));
    write_attr(&mut ex_attrs, "csv", bool_string(g.export.csv));
    write_attr(&mut ex_attrs, "xml", bool_string(g.export.xml));
    let ex = XmlElem { name: String::from_str("export"), attrs: ex_attrs, children: Vec::new() };
    proof {
        assert(nodes_view(ex.children@) =~= Seq::<NodeV>::empty());
        assert(attrs_view(ex.attrs@) =~= seq![
            AttrV { name: "binary"@, value: bool_text(g.export.binary) },
            AttrV { name: "csv"@, value: bool_text(g.export.csv) },
            AttrV { name: "xml"@, value: bool_text(g.export.xml) },
        ]);
    }
    let ghost exg = ex;
    let ghost b0 = kids@;
    kids.push(XmlNode::Elem(ex));
    proof {
        lemma_nodes_view_push(b0, XmlNode::Elem(exg));
    }
    let e = XmlElem { name: String::from_str("parameters"), attrs: Vec::new(), children: kids };
    proof {
        assert(attrs_view(e.attrs@) =~= params_elem(g@).attrs);
        assert(nodes_view(e.children@) =~= params_elem(g@).children);
    }
    e
}

/// Builds the whole document tree of a scenario.
fn build_scenario_elem(m: &ScenarioState, table: &Vec<(String, String)>) -> (res: XmlElem)
    requires
        table_view(table@) == table_of(m@),
    ensures
        res@ == scenario_tree(m@),
{
    let ghost tv = table_of(m@);
    let mut kids: Vec<XmlNode> = Vec::new();
    proof {
        assert(nodes_view(kids@) =~= Seq::<NodeV>::empty());
    }
    let pe = build_params(&m.globalParameters);
    let ghost peg = pe;
    let ghost b0 = kids@;
    kids.push(XmlNode::Elem(pe));
    proof {
        lemma_nodes_view_push(b0, XmlNode::Elem(peg));
    }
    let ghost head = seq![NodeV::Elem(params_elem(m.globalParameters@))];
    let ghost k1 = Seq::new(m.pulses@.len(), |i: int| NodeV::Elem(pulse_elem(m.pulses@[i]@)));
    let ghost k2 = Seq::new(m.timings@.len(), |i: int| NodeV::Elem(timing_elem(m.timings@[i]@)));
    let ghost k3 = Seq::new(
        m.antennas@.len(),
        |i: int| NodeV::Elem(antenna_elem(m.antennas@[i]@)),
    );
    let ghost k4 = Seq::new(
        m.platforms@.len(),
        |i: int| NodeV::Elem(platform_elem(m.platforms@[i]@, tv)),
    );
    proof {
        assert(nodes_view(kids@) =~= head + k1.subrange(0, 0));
    }
    let mut i: usize = 0;
    while i < m.pulses.len()
        invariant
            i <= m.pulses@.len(),
            k1 == Seq::new(m.pulses@.len(), |q: int| NodeV::Elem(pulse_elem(m.pulses@[q]@))),
            nodes_view(kids@) == head + k1.subrange(0, i as int),
        decreases m.pulses@.len() - i,
    {
        let e = build_pulse(&m.pulses[i]);
        let ghost eg = e;
        let ghost b = kids@;
        kids.push(XmlNode::Elem(e));
        proof {
            lemma_nodes_view_push(b, XmlNode::Elem(eg));
            assert(nodes_view(kids@) =~= head + k1.subrange(0, i + 1 as int));
        }
        i = i + 1;
    }
    proof {
        assert(k1.subrange(0, k1.len() as int) =~= k1);
        assert(nodes_view(kids@) =~= head + k1 + k2.subrange(0, 0));
    }
    let mut j: usize = 0;
    while j < m.timings.len()
        invariant
            j <= m.timings@.len(),
            k1 == Seq::new(m.pulses@.len(), |q: int| NodeV::Elem(pulse_elem(m.pulses@[q]@))),
            k2 == Seq::new(m.timings@.len(), |q: int| NodeV::Elem(timing_elem(m.timings@[q]@))),
            nodes_view(kids@) == head + k1 + k2.subrange(0, j as int),
        decreases m.timings@.len() - j,
    {
        let e = build_timing(&m.timings[j]);
        let ghost eg = e;
        let ghost b = kids@;
        kids.push(XmlNode::Elem(e));
        proof {
            lemma_nodes_view_push(b, XmlNode::Elem(eg));
            assert(nodes_view(kids@) =~= head + k1 + k2.subrange(0, j + 1 as int));
        }
        j = j + 1;
    }
    proof {
        assert(k2.subrange(0, k2.len() as int) =~= k2);
        assert(nodes_view(kids@) =~= head + k1 + k2 + k3.subrange(0, 0));
    }
    let mut k: usize = 0;
    while k < m.antennas.len()
        invariant
            k <= m.antennas@.len(),
            k1 == Seq::new(m.pulses@.len(), |q: int| NodeV::Elem(pulse_elem(m.pulses@[q]@))),
            k2 == Seq::new(m.timings@.len(), |q: int| NodeV::Elem(timing_elem(m.timings@[q]@))),
            k3 == Seq::new(
                m.antennas@.len(),
                |q: int| NodeV::Elem(antenna_elem(m.antennas@[q]@)),
            ),
            nodes_view(kids@) == head + k1 + k2 + k3.subrange(0, k as int),
        decreases m.antennas@.len() - k,
    {
        let e = build_antenna(&m.antennas[k]);
        let ghost eg = e;
        let ghost b = kids@;
        kids.push(XmlNode::Elem(e));
        proof {
            lemma_nodes_view_push(b, XmlNode::Elem(eg));
            assert(nodes_view(kids@) =~= head + k1 + k2 + k3.subrange(0, k + 1 as int));
        }
        k = k + 1;
    }
    proof {
        assert(k3.subrange(0, k3.len() as int) =~= k3);
        assert(nodes_view(kids@) =~= head + k1 + k2 + k3 + k4.subrange(0, 0));
    }
    let mut q: usize = 0;
    while q < m.platforms.len()
        invariant
            q <= m.platforms@.len(),
            table_view(table@) == tv,
            tv == table_of(m@),
            k1 == Seq::new(m.pulses@.len(), |w: int| NodeV::Elem(pulse_elem(m.pulses@[w]@))),
            k2 == Seq::new(m.timings@.len(), |w: int| NodeV::Elem(timing_elem(m.timings@[w]@))),
            k3 == Seq::new(
                m.antennas@.len(),
                |w: int| NodeV::Elem(antenna_elem(m.antennas@[w]@)),
            ),
            k4 == Seq::new(
                m.platforms@.len(),
                |w: int| NodeV::Elem(platform_elem(m.platforms@[w]@, tv)),
            ),
            nodes_view(kids@) == head + k1 + k2 + k3 + k4.subrange(0, q as int),
        decreases m.platforms@.len() - q,
    {
        let e = build_platform(&m.platforms[q], table);
        let ghost eg = e;
        let ghost b = kids@;
        kids.push(XmlNode::Elem(e));
        proof {
            lemma_nodes_view_push(b, XmlNode::Elem(eg));
            assert(nodes_view(kids@) =~= head + k1 + k2 + k3 + k4.subrange(0, q + 1 as int));
        }
        q = q + 1;
    }
    let mut attrs: Vec<XmlAttr> = Vec::new();
    proof {
        assert(attrs_view(attrs@) =~= Seq::<AttrV>::empty());
    }
    write_attr(&mut attrs, "name", m.globalParameters.simulation_name.clone());
    let e = XmlElem { name: String::from_str("simulation"), attrs, children: kids };
    proof {
        assert(k4.subrange(0, k4.len() as int) =~= k4);
        assert(attrs_view(e.attrs@) =~= scenario_tree(m@).attrs);
        assert(nodes_view(e.children@) =~= scenario_tree(m@).children);
    }
    e
}

/// Serializes a scenario to its XML document text.  Serialization is total:
/// every scenario produces exactly the document its schema tree describes.
pub fn generate_xml_from_state(scenario: ScenarioState) -> (r: Result<String, String>)
    ensures
        match r {
            Ok(text) => text@ == doc_text(scenario_tree(scenario@)),
            Err(_) => false,
        },
{
    let table = build_ref_table(&scenario);
    let root = build_scenario_elem(&scenario, &table);
    proof {
        crate::schema::lemma_scenario_tree_height(scenario@);
    }
    let chars = write_document(&root);
    Ok(chars_to_string(chars.as_slice()))
}

} // verus!

// The deserializer: the executable transform mirrors the mathematical one
// of the schema, element by element.

use crate::schema::bool_of_text;
use crate::schema::elems_named;
use crate::schema::find_attr;
use crate::schema::find_child;
use crate::schema::lookup_name;
use crate::schema::ntable_of;
use crate::schema::num_child;
use crate::schema::opt_bool_attr;
use crate::schema::opt_num_child;
use crate::schema::synth_id;
use crate::schema::synth_id2;
use crate::schema::text_content;
use crate::schema::tr_antenna;
use crate::schema::tr_antennas;
use crate::schema::tr_component;
use crate::schema::tr_export;
use crate::schema::tr_i64_child;
use crate::schema::tr_noise;
use crate::schema::tr_noises;
use crate::schema::tr_params;
use crate::schema::tr_platform;
use crate::schema::tr_platforms;
use crate::schema::tr_position_waypoint;
use crate::schema::tr_position_waypoints;
use crate::schema::tr_pulse;
use crate::schema::tr_pulses;
use crate::schema::tr_rotation;
use crate::schema::tr_rotation_waypoint;
use crate::schema::tr_rotation_waypoints;
use crate::schema::tr_seed;
use crate::schema::tr_timing;
use crate::schema::tr_timings;
use crate::schema::tree_scenario;
use crate::scenario::MotionPath;
use crate::scenario::ExportOptions;
use crate::scenario::FixedRotation;
use crate::scenario::RotationPath;
use crate::text::check_number;
use crate::text::parse_i64_chars;
use crate::text::parse_u64_chars;
use crate::text::push_str_chars;
use crate::text::push_u64_chars as push_u64_digits;
use crate::text::str_to_chars;
use crate::xml::lemma_nodes_view_index;
use crate::xml::lemma_nodes_view_subrange;

verus! {

/// The first attribute of that name, if any.
fn find_attr_x(attrs: &[XmlAttr], name: &str) -> (r: Option<String>)
    ensures
        match r {
            Some(s) => find_attr(attrs_view(attrs@), name@) == Some(s@),
            None => find_attr(attrs_view(attrs@), name@) is None,
        },
    decreases attrs@.len(),
{
    if attrs.len() == 0 {
        None
    } else if str_eq(attrs[0].name.as_str(), name) {
        Some(attrs[0].value.clone())
    } else {
        let rest = vstd::slice::slice_subrange(attrs, 1, attrs.len());
        proof {
            assert(attrs_view(rest@) =~= attrs_view(attrs@).subrange(
                1,
                attrs_view(attrs@).len() as int,
            ));
            assert(attrs_view(attrs@)[0] == attrs@[0]@);
        }
        find_attr_x(rest, name)
    }
}

/// The first child element of that name, if any.
fn find_child_x<'a>(v: &'a [XmlNode], name: &str) -> (r: Option<&'a XmlElem>)
    ensures
        match r {
            Some(e) => find_child(nodes_view(v@), name@) == Some(e@),
            None => find_child(nodes_view(v@), name@) is None,
        },
    decreases v@.len(),
{
    if v.len() == 0 {
        proof {
            crate::xml::lemma_nodes_view_len(v@);
        }
        return None;
    }
    proof {
        lemma_nodes_view_index(v@, 0);
    }
    let hit = match &v[0] {
        XmlNode::Elem(e) => str_eq(e.name.as_str(), name),
        XmlNode::Text(_) => false,
    };
    if hit {
        match &v[0] {
            XmlNode::Elem(e) => Some(e),
            XmlNode::Text(_) => None,
        }
    } else {
        let rest = vstd::slice::slice_subrange(v, 1, v.len());
        proof {
            lemma_nodes_view_subrange(v@, 1, v@.len() as int);
        }
        find_child_x(rest, name)
    }
}

/// All child elements of that name, in order.
fn collect_named<'a>(v: &'a [XmlNode], name: &str) -> (r: Vec<&'a XmlElem>)
    ensures
        Seq::new(r@.len(), |i: int| r@[i]@) == elems_named(nodes_view(v@), name@),
    decreases v@.len(),
{
    if v.len() == 0 {
        let out: Vec<&'a XmlElem> = Vec::new();
        proof {
            crate::xml::lemma_nodes_view_len(v@);
            assert(Seq::new(out@.len(), |i: int| out@[i]@) =~= elems_named(
                nodes_view(v@),
                name@,
            ));
        }
        return out;
    }
    proof {
        lemma_nodes_view_index(v@, 0);
    }
    let rest = vstd::slice::slice_subrange(v, 1, v.len());
    proof {
        lemma_nodes_view_subrange(v@, 1, v@.len() as int);
    }
    let mut out = collect_named(rest, name);
    let ghost outv = Seq::new(out@.len(), |i: int| out@[i]@);
    let hit = match &v[0] {
        XmlNode::Elem(e) => str_eq(e.name.as_str(), name),
        XmlNode::Text(_) => false,
    };
    if hit {
        match &v[0] {
            XmlNode::Elem(e) => {
                out.insert(0, e);
                proof {
                    assert forall|i: int| 0 <= i < out@.len() implies Seq::new(
                        out@.len(),
                        |q: int| out@[q]@,
                    )[i] == (seq![e@] + outv)[i] by {
                        if i > 0 {
                            assert(out@[i] == out@.subrange(1, out@.len() as int)[i - 1]);
                        }
                    }
                    assert(Seq::new(out@.len(), |q: int| out@[q]@) =~= seq![e@] + outv);
                }
            },
            XmlNode::Text(_) => (),
        }
    }
    out
}

/// The text an element holds.
fn text_content_x(e: &XmlElem) -> (r: Option<String>)
    ensures
        match r {
            Some(s) => text_content(e@) == Some(s@),
            None => text_content(e@) is None,
        },
{
    proof {
        crate::xml::lemma_nodes_view_len(e.children@);
    }
    if e.children.len() == 0 {
        Some(String::new())
    } else if e.children.len() == 1 {
        proof {
            lemma_nodes_view_index(e.children@, 0);
        }
        match &e.children[0] {
            XmlNode::Text(t) => Some(t.clone()),
            XmlNode::Elem(_) => None,
        }
    } else {
        None
    }
}

/// A required scalar child holding a number.
fn num_child_x(e: &XmlElem, name: &str) -> (r: Result<String, String>)
    ensures
        match r {
            Ok(s) => num_child(e@, name@) == Some(s@),
            Err(_) => num_child(e@, name@) is None,
        },
{
    match find_child_x(e.children.as_slice(), name) {
        None => Err(String::from_str("missing required field")),
        Some(c) => match text_content_x(c) {
            None => Err(String::from_str("field does not hold plain text")),
            Some(t) => {
                let chars = str_to_chars(t.as_str());
                if check_number(chars.as_slice()) {
                    Ok(t)
                } else {
                    Err(String::from_str("field does not hold a number"))
                }
            },
        },
    }
}

/// An optional scalar child; present text must hold a number.
fn opt_num_child_x(e: &XmlElem, name: &str) -> (r: Result<Option<String>, String>)
    ensures
        match r {
            Ok(s) => opt_num_child(e@, name@) == Some(crate::scenario::opt_view(s)),
            Err(_) => opt_num_child(e@, name@) is None,
        },
{
    match find_child_x(e.children.as_slice(), name) {
        None => Ok(None),
        Some(c) => match text_content_x(c) {
            None => Err(String::from_str("field does not hold plain text")),
            Some(t) => {
                let chars = str_to_chars(t.as_str());
                if check_number(chars.as_slice()) {
                    Ok(Some(t))
                } else {
                    Err(String::from_str("field does not hold a number"))
                }
            },
        },
    }
}

/// A boolean out of an attribute text.
fn bool_of_text_x(t: &str) -> (r: Option<bool>)
    ensures
        match r {
            Some(b) => bool_of_text(t@) == Some(b),
            None => bool_of_text(t@) is None,
        },
{
    if str_eq(t, "true") || str_eq(t, "1") {
        Some(true)
    } else if str_eq(t, "false") || str_eq(t, "0") {
        Some(false)
    } else {
        None
    }
}

/// An optional boolean attribute, `false` when absent.
fn opt_bool_attr_x(attrs: &[XmlAttr], name: &str) -> (r: Result<bool, String>)
    ensures
        match r {
            Ok(b) => opt_bool_attr(attrs_view(attrs@), name@) == Some(b),
            Err(_) => opt_bool_attr(attrs_view(attrs@), name@) is None,
        },
{
    match find_attr_x(attrs, name) {
        None => Ok(false),
        Some(t) => match bool_of_text_x(t.as_str()) {
            Some(b) => Ok(b),
            None => Err(String::from_str("attribute does not hold a boolean")),
        },
    }
}

/// The synthesized identifier of the entity at a position.
fn synth_id_x(prefix: &str, i: usize) -> (r: String)
    ensures
        r@ == synth_id(prefix@, i as int),
{
    let mut v: Vec<char> = Vec::new();
    push_str_chars(&mut v, prefix);
    push_u64_digits(&mut v, i as u64);
    chars_to_string(v.as_slice())
}

/// The synthesized identifier of a nested entity.
fn synth_id2_x(prefix: &str, i: usize, j: usize) -> (r: String)
    ensures
        r@ == synth_id2(prefix@, i as int, j as int),
{
    let mut v: Vec<char> = Vec::new();
    push_str_chars(&mut v, prefix);
    push_u64_digits(&mut v, i as u64);
    v.push('-');
    push_u64_digits(&mut v, j as u64);
    chars_to_string(v.as_slice())
}

} // verus!

// The per-entity transforms.

verus! {

/// Maps a pulse element at a list position to a pulse asset.
fn tr_pulse_x(e: &XmlElem, i: usize) -> (r: Result<Pulse, String>)
    ensures
        match r {
            Ok(p) => tr_pulse(e@, i as int) == Some(p@),
            Err(_) => tr_pulse(e@, i as int) is None,
        },
{
    let name = match find_attr_x(e.attrs.as_slice(), "name") {
        Some(n) => n,
        None => {
            return Err(String::from_str("pulse without a name"));
        },
    };
    let ptype = match find_attr_x(e.attrs.as_slice(), "type") {
        Some(t) => t,
        None => {
            return Err(String::from_str("pulse without a type"));
        },
    };
    let power = num_child_x(e, "power")?;
    let carrier = num_child_x(e, "carrier")?;
    let pulse_type = if str_eq(ptype.as_str(), "continuous") {
        String::from_str("cw")
    } else {
        ptype
    };
    Ok(
        Pulse {
            id: synth_id_x("pulse-", i),
            type_tag: default_pulse_type_field(),
            name,
            pulseType: pulse_type,
            power,
            carrier,
            filename: find_attr_x(e.attrs.as_slice(), "filename"),
        },
    )
}

/// Maps a noise entry element to a noise entry.
fn tr_noise_x(e: &XmlElem, i: usize, j: usize) -> (r: Result<NoiseEntry, String>)
    ensures
        match r {
            Ok(n) => tr_noise(e@, i as int, j as int) == Some(n@),
            Err(_) => tr_noise(e@, i as int, j as int) is None,
        },
{
    let alpha = num_child_x(e, "alpha")?;
    let weight = num_child_x(e, "weight")?;
    Ok(NoiseEntry { id: synth_id2_x("noise-", i, j), alpha, weight })
}

/// Maps the noise entries of the timing at a position.
fn tr_noises_x(els: &[&XmlElem], i: usize) -> (r: Result<Vec<NoiseEntry>, String>)
    ensures
        match r {
            Ok(v) => tr_noises(Seq::new(els@.len(), |q: int| els@[q]@), i as int) == Some(
                Seq::new(v@.len(), |q: int| v@[q]@),
            ),
            Err(_) => tr_noises(Seq::new(els@.len(), |q: int| els@[q]@), i as int) is None,
        },
    decreases els@.len(),
{
    let ghost elseq = Seq::new(els@.len(), |q: int| els@[q]@);
    let n = els.len();
    if n == 0 {
        let out: Vec<NoiseEntry> = Vec::new();
        proof {
            assert(Seq::new(out@.len(), |q: int| out@[q]@) =~= Seq::<
                crate::scenario::NoiseEntryV,
            >::empty());
        }
        return Ok(out);
    }
    let rest = vstd::slice::slice_subrange(els, 0, n - 1);
    proof {
        assert(Seq::new(rest@.len(), |q: int| rest@[q]@) =~= elseq.drop_last());
    }
    let mut v = tr_noises_x(rest, i)?;
    let ne = tr_noise_x(els[n - 1], i, n - 1)?;
    let ghost before = v@;
    v.push(ne);
    proof {
        assert(Seq::new(v@.len(), |q: int| v@[q]@) =~= Seq::new(
            before.len(),
            |q: int| before[q]@,
        ).push(v@.last()@));
        assert(elseq.last() == els@[n - 1]@);
    }
    Ok(v)
}

/// Maps a timing element at a list position to a timing asset.
fn tr_timing_x(e: &XmlElem, i: usize) -> (r: Result<Timing, String>)
    ensures
        match r {
            Ok(t) => tr_timing(e@, i as int) == Some(t@),
            Err(_) => tr_timing(e@, i as int) is None,
        },
{
    let name = match find_attr_x(e.attrs.as_slice(), "name") {
        Some(n) => n,
        None => {
            return Err(String::from_str("timing without a name"));
        },
    };
    let frequency = num_child_x(e, "frequency")?;
    let fo = opt_num_child_x(e, "freq_offset")?;
    let rfo = opt_num_child_x(e, "random_freq_offset_stdev")?;
    let po = opt_num_child_x(e, "phase_offset")?;
    let rpo = opt_num_child_x(e, "random_phase_offset_stdev")?;
    let noise_els = collect_named(e.children.as_slice(), "noise_entry");
    let ns = tr_noises_x(noise_els.as_slice(), i)?;
    Ok(
        Timing {
            id: synth_id_x("timing-", i),
            type_tag: default_timing_type_field(),
            name,
            frequency,
            freqOffset: fo,
            randomFreqOffsetStdev: rfo,
            phaseOffset: po,
            randomPhaseOffsetStdev: rpo,
            noiseEntries: ns,
        },
    )
}

/// Maps an antenna element at a list position to an antenna asset.
fn tr_antenna_x(e: &XmlElem, i: usize) -> (r: Result<Antenna, String>)
    ensures
        match r {
            Ok(a) => tr_antenna(e@, i as int) == Some(a@),
            Err(_) => tr_antenna(e@, i as int) is None,
        },
{
    let name = match find_attr_x(e.attrs.as_slice(), "name") {
        Some(n) => n,
        None => {
            return Err(String::from_str("antenna without a name"));
        },
    };
    let pattern = match find_attr_x(e.attrs.as_slice(), "pattern") {
        Some(p) => p,
        None => {
            return Err(String::from_str("antenna without a pattern"));
        },
    };
    let efficiency = opt_num_child_x(e, "efficiency")?;
    let alpha = opt_num_child_x(e, "alpha")?;
    let beta = opt_num_child_x(e, "beta")?;
    let gamma = opt_num_child_x(e, "gamma")?;
    let azscale = opt_num_child_x(e, "azscale")?;
    let elscale = opt_num_child_x(e, "elscale")?;
    let diameter = opt_num_child_x(e, "diameter")?;
    Ok(
        Antenna {
            id: synth_id_x("antenna-", i),
            type_tag: default_antenna_type_field(),
            name,
            pattern,
            filename: find_attr_x(e.attrs.as_slice(), "filename"),
            efficiency,
            alpha,
            beta,
            gamma,
            azscale,
            elscale,
            diameter,
        },
    )
}

} // verus!

// The platform transforms and the deserializer entry points.

verus! {

/// Maps a motion waypoint element to a waypoint.
fn tr_position_waypoint_x(e: &XmlElem, i: usize, j: usize) -> (r: Result<PositionWaypoint, String>)
    ensures
        match r {
            Ok(w) => tr_position_waypoint(e@, i as int, j as int) == Some(w@),
            Err(_) => tr_position_waypoint(e@, i as int, j as int) is None,
        },
{
    let x = num_child_x(e, "x")?;
    let y = num_child_x(e, "y")?;
    let altitude = num_child_x(e, "altitude")?;
    let time = num_child_x(e, "time")?;
    Ok(PositionWaypoint { id: synth_id2_x("wp-", i, j), x, y, altitude, time })
}

/// Maps the motion waypoints of the platform at a position.
fn tr_position_waypoints_x(els: &[&XmlElem], i: usize) -> (r: Result<Vec<PositionWaypoint>, String>)
    ensures
        match r {
            Ok(v) => tr_position_waypoints(Seq::new(els@.len(), |q: int| els@[q]@), i as int)
                == Some(Seq::new(v@.len(), |q: int| v@[q]@)),
            Err(_) => tr_position_waypoints(
                Seq::new(els@.len(), |q: int| els@[q]@),
                i as int,
            ) is None,
        },
    decreases els@.len(),
{
    let ghost elseq = Seq::new(els@.len(), |q: int| els@[q]@);
    let n = els.len();
    if n == 0 {
        let out: Vec<PositionWaypoint> = Vec::new();
        proof {
            assert(Seq::new(out@.len(), |q: int| out@[q]@) =~= Seq::<
                crate::scenario::PositionWaypointV,
            >::empty());
        }
        return Ok(out);
    }
    let rest = vstd::slice::slice_subrange(els, 0, n - 1);
    proof {
        assert(Seq::new(rest@.len(), |q: int| rest@[q]@) =~= elseq.drop_last());
    }
    let mut v = tr_position_waypoints_x(rest, i)?;
    let w = tr_position_waypoint_x(els[n - 1], i, n - 1)?;
    let ghost before = v@;
    v.push(w);
    proof {
        assert(Seq::new(v@.len(), |q: int| v@[q]@) =~= Seq::new(
            before.len(),
            |q: int| before[q]@,
        ).push(v@.last()@));
        assert(elseq.last() == els@[n - 1]@);
    }
    Ok(v)
}

/// Maps a rotation waypoint element to a waypoint.
fn tr_rotation_waypoint_x(e: &XmlElem, i: usize, j: usize) -> (r: Result<RotationWaypoint, String>)
    ensures
        match r {
            Ok(w) => tr_rotation_waypoint(e@, i as int, j as int) == Some(w@),
            Err(_) => tr_rotation_waypoint(e@, i as int, j as int) is None,
        },
{
    let azimuth = num_child_x(e, "azimuth")?;
    let elevation = num_child_x(e, "elevation")?;
    let time = num_child_x(e, "time")?;
    Ok(RotationWaypoint { id: synth_id2_x("rwp-", i, j), azimuth, elevation, time })
}

/// Maps the rotation waypoints of the platform at a position.
fn tr_rotation_waypoints_x(els: &[&XmlElem], i: usize) -> (r: Result<Vec<RotationWaypoint>, String>)
    ensures
        match r {
            Ok(v) => tr_rotation_waypoints(Seq::new(els@.len(), |q: int| els@[q]@), i as int)
                == Some(Seq::new(v@.len(), |q: int| v@[q]@)),
            Err(_) => tr_rotation_waypoints(
                Seq::new(els@.len(), |q: int| els@[q]@),
                i as int,
            ) is None,
        },
    decreases els@.len(),
{
    let ghost elseq = Seq::new(els@.len(), |q: int| els@[q]@);
    let n = els.len();
    if n == 0 {
        let out: Vec<RotationWaypoint> = Vec::new();
        proof {
            assert(Seq::new(out@.len(), |q: int| out@[q]@) =~= Seq::<
                crate::scenario::RotationWaypointV,
            >::empty());
        }
        return Ok(out);
    }
    let rest = vstd::slice::slice_subrange(els, 0, n - 1);
    proof {
        assert(Seq::new(rest@.len(), |q: int| rest@[q]@) =~= elseq.drop_last());
    }
    let mut v = tr_rotation_waypoints_x(rest, i)?;
    let w = tr_rotation_waypoint_x(els[n - 1], i, n - 1)?;
    let ghost before = v@;
    v.push(w);
    proof {
        assert(Seq::new(v@.len(), |q: int| v@[q]@) =~= Seq::new(
            before.len(),
            |q: int| before[q]@,
        ).push(v@.last()@));
        assert(elseq.last() == els@[n - 1]@);
    }
    Ok(v)
}

/// Maps the rotation of a platform element: fixed, path, or the zeroed
/// fixed fallback for a platform without either block.
fn tr_rotation_x(e: &XmlElem, i: usize) -> (r: Result<Rotation, String>)
    ensures
        match r {
            Ok(rot) => tr_rotation(e@, i as int) == Some(rot@),
            Err(_) => tr_rotation(e@, i as int) is None,
        },
{
    match find_child_x(e.children.as_slice(), "fixedrotation") {
        Some(f) => {
            let sa = num_child_x(f, "startazimuth")?;
            let se = num_child_x(f, "startelevation")?;
            let ar = num_child_x(f, "azimuthrate")?;
            let er = num_child_x(f, "elevationrate")?;
            Ok(
                Rotation::Fixed(
                    FixedRotation {
                        startAzimuth: sa,
                        startElevation: se,
                        azimuthRate: ar,
                        elevationRate: er,
                    },
                ),
            )
        },
        None => match find_child_x(e.children.as_slice(), "rotationpath") {
            Some(rp) => {
                let interp = match find_attr_x(rp.attrs.as_slice(), "interpolation") {
                    Some(t) => t,
                    None => {
                        return Err(String::from_str("rotation path without interpolation"));
                    },
                };
                let wels = collect_named(rp.children.as_slice(), "rotationwaypoint");
                let ws = tr_rotation_waypoints_x(wels.as_slice(), i)?;
                Ok(Rotation::Path(RotationPath { interpolation: interp, waypoints: ws }))
            },
            None => Ok(
                Rotation::Fixed(
                    FixedRotation {
                        startAzimuth: String::from_str("0"),
                        startElevation: String::from_str("0"),
                        azimuthRate: String::from_str("0"),
                        elevationRate: String::from_str("0"),
                    },
                ),
            ),
        },
    }
}

/// Resolves an optional name attribute through the name table.
fn lookup_name_x(table: &Vec<(String, String)>, opt: Option<String>) -> (r: Option<String>)
    ensures
        match r {
            Some(id) => lookup_name(table_view(table@), crate::scenario::opt_view(opt)) == Some(
                id@,
            ),
            None => lookup_name(table_view(table@), crate::scenario::opt_view(opt)) is None,
        },
{
    match opt {
        Some(n) => table_lookup_slice(table.as_slice(), n.as_str()),
        None => None,
    }
}

/// Maps the component of a platform element.
fn tr_component_x(e: &XmlElem, table: &Vec<(String, String)>) -> (r: Result<
    PlatformComponent,
    String,
>)
    ensures
        match r {
            Ok(c) => tr_component(e@, table_view(table@)) == Some(c@),
            Err(_) => tr_component(e@, table_view(table@)) is None,
        },
{
    match find_child_x(e.children.as_slice(), "monostatic") {
        Some(c) => {
            let nm = match find_attr_x(c.attrs.as_slice(), "name") {
                Some(n) => n,
                None => {
                    return Err(String::from_str("monostatic block without a name"));
                },
            };
            let wsk = num_child_x(c, "window_skip")?;
            let wl = num_child_x(c, "window_length")?;
            let prf = num_child_x(c, "prf")?;
            let nt = opt_num_child_x(c, "noise_temp")?;
            let nd = opt_bool_attr_x(c.attrs.as_slice(), "nodirect")?;
            let np = opt_bool_attr_x(c.attrs.as_slice(), "nopropagationloss")?;
            let radar_type = match find_attr_x(c.attrs.as_slice(), "type") {
                Some(t) => t,
                None => default_as_pulsed(),
            };
            Ok(
                PlatformComponent::Monostatic(
                    Monostatic {
                        name: nm,
                        radarType: radar_type,
                        window_skip: wsk,
                        window_length: wl,
                        prf,
                        antennaId: lookup_name_x(table, find_attr_x(c.attrs.as_slice(), "antenna")),
                        pulseId: lookup_name_x(table, find_attr_x(c.attrs.as_slice(), "pulse")),
                        timingId: lookup_name_x(table, find_attr_x(c.attrs.as_slice(), "timing")),
                        noiseTemperature: nt,
                        noDirectPaths: nd,
                        noPropagationLoss: np,
                    },
                ),
            )
        },
        None => match find_child_x(e.children.as_slice(), "transmitter") {
            Some(c) => {
                let nm = match find_attr_x(c.attrs.as_slice(), "name") {
                    Some(n) => n,
                    None => {
                        return Err(String::from_str("transmitter block without a name"));
                    },
                };
                let prf = num_child_x(c, "prf")?;
                let radar_type = match find_attr_x(c.attrs.as_slice(), "type") {
                    Some(t) => t,
                    None => default_as_pulsed(),
                };
                Ok(
                    PlatformComponent::Transmitter(
                        Transmitter {
                            name: nm,
                            radarType: radar_type,
                            prf,
                            antennaId: lookup_name_x(
                                table,
                                find_attr_x(c.attrs.as_slice(), "antenna"),
                            ),
                            pulseId: lookup_name_x(
                                table,
                                find_attr_x(c.attrs.as_slice(), "pulse"),
                            ),
                            timingId: lookup_name_x(
                                table,
                                find_attr_x(c.attrs.as_slice(), "timing"),
                            ),
                        },
                    ),
                )
            },
            None => match find_child_x(e.children.as_slice(), "receiver") {
                Some(c) => {
                    let nm = match find_attr_x(c.attrs.as_slice(), "name") {
                        Some(n) => n,
                        None => {
                            return Err(String::from_str("receiver block without a name"));
                        },
                    };
                    let wsk = num_child_x(c, "window_skip")?;
                    let wl = num_child_x(c, "window_length")?;
                    let prf = num_child_x(c, "prf")?;
                    let nt = opt_num_child_x(c, "noise_temp")?;
                    let nd = opt_bool_attr_x(c.attrs.as_slice(), "nodirect")?;
                    let np = opt_bool_attr_x(c.attrs.as_slice(), "nopropagationloss")?;
                    Ok(
                        PlatformComponent::Receiver(
                            Receiver {
                                name: nm,
                                window_skip: wsk,
                                window_length: wl,
                                prf,
                                antennaId: lookup_name_x(
                                    table,
                                    find_attr_x(c.attrs.as_slice(), "antenna"),
                                ),
                                timingId: lookup_name_x(
                                    table,
                                    find_attr_x(c.attrs.as_slice(), "timing"),
                                ),
                                noiseTemperature: nt,
                                noDirectPaths: nd,
                                noPropagationLoss: np,
                            },
                        ),
                    )
                },
                None => match find_child_x(e.children.as_slice(), "target") {
                    Some(c) => {
                        let nm = match find_attr_x(c.attrs.as_slice(), "name") {
                            Some(n) => n,
                            None => {
                                return Err(String::from_str("target block without a name"));
                            },
                        };
                        let rcs = match find_child_x(c.children.as_slice(), "rcs") {
                            Some(r) => r,
                            None => {
                                return Err(
                                    String::from_str("target without a cross-section block"),
                                );
                            },
                        };
                        let rt = match find_attr_x(rcs.attrs.as_slice(), "type") {
                            Some(t) => t,
                            None => {
                                return Err(
                                    String::from_str("cross-section block without a type"),
                                );
                            },
                        };
                        let rv = opt_num_child_x(rcs, "value")?;
                        let rcs_filename = find_attr_x(rcs.attrs.as_slice(), "filename");
                        match find_child_x(c.children.as_slice(), "model") {
                            Some(md) => {
                                let mt = match find_attr_x(md.attrs.as_slice(), "type") {
                                    Some(t) => t,
                                    None => {
                                        return Err(
                                            String::from_str("model block without a type"),
                                        );
                                    },
                                };
                                let k = opt_num_child_x(md, "k")?;
                                Ok(
                                    PlatformComponent::Target(
                                        Target {
                                            name: nm,
                                            rcs_type: rt,
                                            rcs_value: rv,
                                            rcs_filename,
                                            rcs_model: mt,
                                            rcs_k: k,
                                        },
                                    ),
                                )
                            },
                            None => Ok(
                                PlatformComponent::Target(
                                    Target {
                                        name: nm,
                                        rcs_type: rt,
                                        rcs_value: rv,
                                        rcs_filename,
                                        rcs_model: default_as_constant(),
                                        rcs_k: None,
                                    },
                                ),
                            ),
                        }
                    },
                    None => Ok(PlatformComponent::NoComponent),
                },
            },
        },
    }
}

/// Maps a platform element at a list position to a platform.
fn tr_platform_x(e: &XmlElem, i: usize, table: &Vec<(String, String)>) -> (r: Result<
    Platform,
    String,
>)
    ensures
        match r {
            Ok(p) => tr_platform(e@, i as int, table_view(table@)) == Some(p@),
            Err(_) => tr_platform(e@, i as int, table_view(table@)) is None,
        },
{
    let name = match find_attr_x(e.attrs.as_slice(), "name") {
        Some(n) => n,
        None => {
            return Err(String::from_str("platform without a name"));
        },
    };
    let mp = match find_child_x(e.children.as_slice(), "motionpath") {
        Some(m) => m,
        None => {
            return Err(String::from_str("platform without a motion path"));
        },
    };
    let interp = match find_attr_x(mp.attrs.as_slice(), "interpolation") {
        Some(t) => t,
        None => {
            return Err(String::from_str("motion path without interpolation"));
        },
    };
    let wels = collect_named(mp.children.as_slice(), "positionwaypoint");
    let ws = tr_position_waypoints_x(wels.as_slice(), i)?;
    let rot = tr_rotation_x(e, i)?;
    let comp = tr_component_x(e, table)?;
    Ok(
        Platform {
            id: synth_id_x("platform-", i),
            type_tag: default_platform_type_field(),
            name,
            motionPath: MotionPath { interpolation: interp, waypoints: ws },
            rotation: rot,
            component: comp,
        },
    )
}

} // verus!

// The whole-document transform and the deserializer entry points.

verus! {

/// Maps a list of pulse elements.
fn tr_pulses_x(els: &[&XmlElem]) -> (r: Result<Vec<Pulse>, String>)
    ensures
        match r {
            Ok(v) => tr_pulses(Seq::new(els@.len(), |q: int| els@[q]@)) == Some(
                Seq::new(v@.len(), |q: int| v@[q]@),
            ),
            Err(_) => tr_pulses(Seq::new(els@.len(), |q: int| els@[q]@)) is None,
        },
    decreases els@.len(),
{
    let ghost elseq = Seq::new(els@.len(), |q: int| els@[q]@);
    let n = els.len();
    if n == 0 {
        let out: Vec<Pulse> = Vec::new();
        proof {
            assert(Seq::new(out@.len(), |q: int| out@[q]@) =~= Seq::<
                crate::scenario::PulseV,
            >::empty());
        }
        return Ok(out);
    }
    let rest = vstd::slice::slice_subrange(els, 0, n - 1);
    proof {
        assert(Seq::new(rest@.len(), |q: int| rest@[q]@) =~= elseq.drop_last());
    }
    let mut v = tr_pulses_x(rest)?;
    let p = tr_pulse_x(els[n - 1], n - 1)?;
    let ghost before = v@;
    v.push(p);
    proof {
        assert(Seq::new(v@.len(), |q: int| v@[q]@) =~= Seq::new(
            before.len(),
            |q: int| before[q]@,
        ).push(v@.last()@));
        assert(elseq.last() == els@[n - 1]@);
    }
    Ok(v)
}

/// Maps a list of timing elements.
fn tr_timings_x(els: &[&XmlElem]) -> (r: Result<Vec<Timing>, String>)
    ensures
        match r {
            Ok(v) => tr_timings(Seq::new(els@.len(), |q: int| els@[q]@)) == Some(
                Seq::new(v@.len(), |q: int| v@[q]@),
            ),
            Err(_) => tr_timings(Seq::new(els@.len(), |q: int| els@[q]@)) is None,
        },
    decreases els@.len(),
{
    let ghost elseq = Seq::new(els@.len(), |q: int| els@[q]@);
    let n = els.len();
    if n == 0 {
        let out: Vec<Timing> = Vec::new();
        proof {
            assert(Seq::new(out@.len(), |q: int| out@[q]@) =~= Seq::<
                crate::scenario::TimingV,
            >::empty());
        }
        return Ok(out);
    }
    let rest = vstd::slice::slice_subrange(els, 0, n - 1);
    proof {
        assert(Seq::new(rest@.len(), |q: int| rest@[q]@) =~= elseq.drop_last());
    }
    let mut v = tr_timings_x(rest)?;
    let t = tr_timing_x(els[n - 1], n - 1)?;
    let ghost before = v@;
    v.push(t);
    proof {
        assert(Seq::new(v@.len(), |q: int| v@[q]@) =~= Seq::new(
            before.len(),
            |q: int| before[q]@,
        ).push(v@.last()@));
        assert(elseq.last() == els@[n - 1]@);
    }
    Ok(v)
}

/// Maps a list of antenna elements.
fn tr_antennas_x(els: &[&XmlElem]) -> (r: Result<Vec<Antenna>, String>)
    ensures
        match r {
            Ok(v) => tr_antennas(Seq::new(els@.len(), |q: int| els@[q]@)) == Some(
                Seq::new(v@.len(), |q: int| v@[q]@),
            ),
            Err(_) => tr_antennas(Seq::new(els@.len(), |q: int| els@[q]@)) is None,
        },
    decreases els@.len(),
{
    let ghost elseq = Seq::new(els@.len(), |q: int| els@[q]@);
    let n = els.len();
    if n == 0 {
        let out: Vec<Antenna> = Vec::new();
        proof {
            assert(Seq::new(out@.len(), |q: int| out@[q]@) =~= Seq::<
                crate::scenario::AntennaV,
            >::empty());
        }
        return Ok(out);
    }
    let rest = vstd::slice::slice_subrange(els, 0, n - 1);
    proof {
        assert(Seq::new(rest@.len(), |q: int| rest@[q]@) =~= elseq.drop_last());
    }
    let mut v = tr_antennas_x(rest)?;
    let a = tr_antenna_x(els[n - 1], n - 1)?;
    let ghost before = v@;
    v.push(a);
    proof {
        assert(Seq::new(v@.len(), |q: int| v@[q]@) =~= Seq::new(
            before.len(),
            |q: int| before[q]@,
        ).push(v@.last()@));
        assert(elseq.last() == els@[n - 1]@);
    }
    Ok(v)
}

/// Maps a list of platform elements.
fn tr_platforms_x(els: &[&XmlElem], table: &Vec<(String, String)>) -> (r: Result<
    Vec<Platform>,
    String,
>)
    ensures
        match r {
            Ok(v) => tr_platforms(Seq::new(els@.len(), |q: int| els@[q]@), table_view(table@))
                == Some(Seq::new(v@.len(), |q: int| v@[q]@)),
            Err(_) => tr_platforms(
                Seq::new(els@.len(), |q: int| els@[q]@),
                table_view(table@),
            ) is None,
        },
    decreases els@.len(),
{
    let ghost elseq = Seq::new(els@.len(), |q: int| els@[q]@);
    let n = els.len();
    if n == 0 {
        let out: Vec<Platform> = Vec::new();
        proof {
            assert(Seq::new(out@.len(), |q: int| out@[q]@) =~= Seq::<
                crate::scenario::PlatformV,
            >::empty());
        }
        return Ok(out);
    }
    let rest = vstd::slice::slice_subrange(els, 0, n - 1);
    proof {
        assert(Seq::new(rest@.len(), |q: int| rest@[q]@) =~= elseq.drop_last());
    }
    let mut v = tr_platforms_x(rest, table)?;
    let p = tr_platform_x(els[n - 1], n - 1, table)?;
    let ghost before = v@;
    v.push(p);
    proof {
        assert(Seq::new(v@.len(), |q: int| v@[q]@) =~= Seq::new(
            before.len(),
            |q: int| before[q]@,
        ).push(v@.last()@));
        assert(elseq.last() == els@[n - 1]@);
    }
    Ok(v)
}

/// Maps a parameters block.
fn tr_params_x(e: &XmlElem, sim_name: String) -> (r: Result<GlobalParameters, String>)
    ensures
        match r {
            Ok(g) => tr_params(e@, sim_name@) == Some(g@),
            Err(_) => tr_params(e@, sim_name@) is None,
        },
{
    let start = num_child_x(e, "starttime")?;
    let end = num_child_x(e, "endtime")?;
    let rate = num_child_x(e, "rate")?;
    let c = num_child_x(e, "c")?;
    let ssr = opt_num_child_x(e, "simSamplingRate")?;
    let seed: Option<u64> = match find_child_x(e.children.as_slice(), "randomseed") {
        None => None,
        Some(sc) => match text_content_x(sc) {
            None => {
                return Err(String::from_str("random seed does not hold plain text"));
            },
            Some(t) => {
                let chars = str_to_chars(t.as_str());
                match parse_u64_chars(chars.as_slice()) {
                    Some(vl) => Some(vl),
                    None => {
                        return Err(String::from_str("random seed is not an unsigned integer"));
                    },
                }
            },
        },
    };
    let adc = tr_i64_child_x(e, "adc_bits")?;
    let ovs = tr_i64_child_x(e, "oversample")?;
    let ex = match find_child_x(e.children.as_slice(), "export") {
        Some(x) => x,
        None => {
            return Err(String::from_str("parameters without an export block"));
        },
    };
    let export = tr_export_x(ex)?;
    Ok(
        GlobalParameters {
            id: default_gp_id(),
            type_tag: default_gp_type(),
            simulation_name: sim_name,
            start,
            end,
            rate,
            simSamplingRate: ssr,
            c,
            random_seed: seed,
            adc_bits: adc,
            oversample_ratio: ovs,
            export,
        },
    )
}

/// A required signed integer child.
fn tr_i64_child_x(e: &XmlElem, name: &str) -> (r: Result<i64, String>)
    ensures
        match r {
            Ok(v) => tr_i64_child(e@, name@) == Some(v),
            Err(_) => tr_i64_child(e@, name@) is None,
        },
{
    match find_child_x(e.children.as_slice(), name) {
        None => Err(String::from_str("missing required integer field")),
        Some(c) => match text_content_x(c) {
            None => Err(String::from_str("integer field does not hold plain text")),
            Some(t) => {
                let chars = str_to_chars(t.as_str());
                match parse_i64_chars(chars.as_slice()) {
                    Some(v) => Ok(v),
                    None => Err(String::from_str("field is not a signed integer")),
                }
            },
        },
    }
}

/// Maps an export element's attributes.
fn tr_export_x(e: &XmlElem) -> (r: Result<ExportOptions, String>)
    ensures
        match r {
            Ok(x) => tr_export(e@) == Some(x@),
            Err(_) => tr_export(e@) is None,
        },
{
    let bt = match find_attr_x(e.attrs.as_slice(), "binary") {
        Some(t) => t,
        None => {
            return Err(String::from_str("export block without a binary switch"));
        },
    };
    let b = match bool_of_text_x(bt.as_str()) {
        Some(b) => b,
        None => {
            return Err(String::from_str("export switch is not a boolean"));
        },
    };
    let ct = match find_attr_x(e.attrs.as_slice(), "csv") {
        Some(t) => t,
        None => {
            return Err(String::from_str("export block without a csv switch"));
        },
    };
    let cv = match bool_of_text_x(ct.as_str()) {
        Some(b) => b,
        None => {
            return Err(String::from_str("export switch is not a boolean"));
        },
    };
    let xt = match find_attr_x(e.attrs.as_slice(), "xml") {
        Some(t) => t,
        None => {
            return Err(String::from_str("export block without an xml switch"));
        },
    };
    let x = match bool_of_text_x(xt.as_str()) {
        Some(b) => b,
        None => {
            return Err(String::from_str("export switch is not a boolean"));
        },
    };
    Ok(ExportOptions { xml: x, csv: cv, binary: b })
}

/// Builds the name-to-identifier table of the parsed assets.
fn build_ntable(pulses: &Vec<Pulse>, timings: &Vec<Timing>, antennas: &Vec<Antenna>) -> (r: Vec<
    (String, String),
>)
    ensures
        table_view(r@) == ntable_of(
            Seq::new(pulses@.len(), |i: int| pulses@[i]@),
            Seq::new(timings@.len(), |i: int| timings@[i]@),
            Seq::new(antennas@.len(), |i: int| antennas@[i]@),
        ),
{
    let ghost pv = Seq::new(pulses@.len(), |i: int| pulses@[i]@);
    let ghost tv = Seq::new(timings@.len(), |i: int| timings@[i]@);
    let ghost av = Seq::new(antennas@.len(), |i: int| antennas@[i]@);
    let ghost p = Seq::new(pv.len(), |i: int| (pv[i].name, pv[i].id));
    let ghost ti = Seq::new(tv.len(), |i: int| (tv[i].name, tv[i].id));
    let ghost an = Seq::new(av.len(), |i: int| (av[i].name, av[i].id));
    let mut t: Vec<(String, String)> = Vec::new();
    let mut i: usize = 0;
    while i < pulses.len()
        invariant
            i <= pulses@.len(),
            pv == Seq::new(pulses@.len(), |q: int| pulses@[q]@),
            p == Seq::new(pv.len(), |q: int| (pv[q].name, pv[q].id)),
            table_view(t@) == p.subrange(0, i as int),
        decreases pulses@.len() - i,
    {
        let pr = (pulses[i].name.clone(), pulses[i].id.clone());
        let ghost prg = pr;
        let ghost tb = t@;
        t.push(pr);
        proof {
            lemma_table_view_push(tb, prg);
            assert(p.subrange(0, i + 1 as int) =~= p.subrange(0, i as int).push(p[i as int]));
            assert(p[i as int] == (prg.0@, prg.1@));
        }
        i = i + 1;
    }
    proof {
        assert(p.subrange(0, p.len() as int) =~= p);
    }
    let mut j: usize = 0;
    while j < timings.len()
        invariant
            j <= timings@.len(),
            pv == Seq::new(pulses@.len(), |q: int| pulses@[q]@),
            tv == Seq::new(timings@.len(), |q: int| timings@[q]@),
            p == Seq::new(pv.len(), |q: int| (pv[q].name, pv[q].id)),
            ti == Seq::new(tv.len(), |q: int| (tv[q].name, tv[q].id)),
            table_view(t@) == p + ti.subrange(0, j as int),
        decreases timings@.len() - j,
    {
        let pr = (timings[j].name.clone(), timings[j].id.clone());
        let ghost prg = pr;
        let ghost tb = t@;
        t.push(pr);
        proof {
            lemma_table_view_push(tb, prg);
            assert(ti.subrange(0, j + 1 as int) =~= ti.subrange(0, j as int).push(ti[j as int]));
            assert(ti[j as int] == (prg.0@, prg.1@));
            assert(table_view(t@) =~= p + ti.subrange(0, j + 1 as int));
        }
        j = j + 1;
    }
    proof {
        assert(ti.subrange(0, ti.len() as int) =~= ti);
    }
    let mut k: usize = 0;
    while k < antennas.len()
        invariant
            k <= antennas@.len(),
            pv == Seq::new(pulses@.len(), |q: int| pulses@[q]@),
            tv == Seq::new(timings@.len(), |q: int| timings@[q]@),
            av == Seq::new(antennas@.len(), |q: int| antennas@[q]@),
            p == Seq::new(pv.len(), |q: int| (pv[q].name, pv[q].id)),
            ti == Seq::new(tv.len(), |q: int| (tv[q].name, tv[q].id)),
            an == Seq::new(av.len(), |q: int| (av[q].name, av[q].id)),
            table_view(t@) == p + ti + an.subrange(0, k as int),
        decreases antennas@.len() - k,
    {
        let pr = (antennas[k].name.clone(), antennas[k].id.clone());
        let ghost prg = pr;
        let ghost tb = t@;
        t.push(pr);
        proof {
            lemma_table_view_push(tb, prg);
            assert(an.subrange(0, k + 1 as int) =~= an.subrange(0, k as int).push(an[k as int]));
            assert(an[k as int] == (prg.0@, prg.1@));
            assert(table_view(t@) =~= p + ti + an.subrange(0, k + 1 as int));
        }
        k = k + 1;
    }
    proof {
        assert(an.subrange(0, an.len() as int) =~= an);
        assert(table_view(t@) =~= ntable_of(pv, tv, av));
    }
    t
}

/// Transforms a parsed document tree into a scenario, synthesizing
/// identifiers and resolving name references; fails exactly where the tree
/// does not fit the schema.
pub fn transform_xml_to_state(tree: &XmlElem) -> (r: Result<ScenarioState, String>)
    ensures
        match r {
            Ok(m) => tree_scenario(tree@) == Some(m@),
            Err(_) => tree_scenario(tree@) is None,
        },
{
    if !str_eq(tree.name.as_str(), "simulation") {
        return Err(String::from_str("document element is not a simulation"));
    }
    let sim_name = match find_attr_x(tree.attrs.as_slice(), "name") {
        Some(n) => n,
        None => {
            return Err(String::from_str("simulation without a name"));
        },
    };
    let pe = match find_child_x(tree.children.as_slice(), "parameters") {
        Some(p) => p,
        None => {
            return Err(String::from_str("simulation without a parameters block"));
        },
    };
    let params = tr_params_x(pe, sim_name)?;
    let pulse_els = collect_named(tree.children.as_slice(), "pulse");
    let pulses = tr_pulses_x(pulse_els.as_slice())?;
    let timing_els = collect_named(tree.children.as_slice(), "timing");
    let timings = tr_timings_x(timing_els.as_slice())?;
    let antenna_els = collect_named(tree.children.as_slice(), "antenna");
    let antennas = tr_antennas_x(antenna_els.as_slice())?;
    let table = build_ntable(&pulses, &timings, &antennas);
    let platform_els = collect_named(tree.children.as_slice(), "platform");
    let platforms = tr_platforms_x(platform_els.as_slice(), &table)?;
    Ok(ScenarioState { globalParameters: params, pulses, timings, antennas, platforms })
}

/// The scenario a document text holds, mathematically: the text must parse
/// into a tree and the tree must fit the schema.
pub open spec fn doc_scenario(s: Seq<char>) -> Option<crate::scenario::ScenarioV> {
    match crate::parse::sp_doc(s) {
        None => None,
        Some(t) => tree_scenario(t),
    }
}

/// Deserializes a document text into a scenario: parses the text with the
/// verified reader and transforms the tree.  Fails exactly on text that is
/// not well formed or does not fit the schema.
pub fn parse_xml_to_state(xml_content: String) -> (r: Result<ScenarioState, String>)
    ensures
        match r {
            Ok(m) => doc_scenario(xml_content@) == Some(m@),
            Err(_) => doc_scenario(xml_content@) is None,
        },
{
    let chars = str_to_chars(xml_content.as_str());
    match crate::parse::read_doc(chars.as_slice()) {
        None => Err(String::from_str("malformed XML document")),
        Some(tree) => transform_xml_to_state(&tree),
    }
}

} // verus!
