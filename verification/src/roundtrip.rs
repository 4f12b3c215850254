//! The round-trip laws of the transcoder: mapping a scenario to its
//! document tree and transforming the tree back yields the same scenario,
//! except that identifiers are synthesized afresh and re-resolve to the
//! same display names.

use vstd::prelude::*;

use crate::scenario::AntennaV;
use crate::scenario::GlobalParametersV;
use crate::scenario::MonostaticV;
use crate::scenario::NoiseEntryV;
use crate::scenario::PlatformComponentV;
use crate::scenario::PlatformV;
use crate::scenario::PositionWaypointV;
use crate::scenario::PulseV;
use crate::scenario::ReceiverV;
use crate::scenario::RotationV;
use crate::scenario::RotationWaypointV;
use crate::scenario::ScenarioV;
use crate::scenario::TargetV;
use crate::scenario::TimingV;
use crate::scenario::TransmitterV;
use crate::schema::elem_of;
use crate::schema::elems_named;
use crate::schema::find_attr;
use crate::schema::find_child;
use crate::schema::push_opt_attr;
use crate::schema::push_opt_text;
use crate::schema::text_el;
use crate::text::is_number_text;
use crate::xml::AttrV;
use crate::xml::ElemV;
use crate::xml::NodeV;

verus! {

/// Splitting a node list splits the search for a child.
pub proof fn lemma_find_child_concat(v1: Seq<NodeV>, v2: Seq<NodeV>, name: Seq<char>)
    ensures
        find_child(v1 + v2, name) == match find_child(v1, name) {
            Some(e) => Some(e),
            None => find_child(v2, name),
        },
    decreases v1.len(),
{
    if v1.len() == 0 {
        assert(v1 + v2 =~= v2);
    } else {
        assert((v1 + v2).subrange(1, (v1 + v2).len() as int) =~= v1.subrange(
            1,
            v1.len() as int,
        ) + v2);
        assert((v1 + v2)[0] == v1[0]);
        lemma_find_child_concat(v1.subrange(1, v1.len() as int), v2, name);
    }
}

/// A child of another name is not found.
pub proof fn lemma_find_child_absent(v: Seq<NodeV>, name: Seq<char>)
    requires
        forall|i: int|
            0 <= i < v.len() ==> !(#[trigger] v[i] is Elem && elem_of(v[i]).name == name),
    ensures
        find_child(v, name) is None,
    decreases v.len(),
{
    if v.len() > 0 {
        assert(!(v[0] is Elem && elem_of(v[0]).name == name));
        assert(forall|i: int|
            0 <= i < v.subrange(1, v.len() as int).len() ==> !(#[trigger] v.subrange(
                1,
                v.len() as int,
            )[i] is Elem && elem_of(v.subrange(1, v.len() as int)[i]).name == name));
        lemma_find_child_absent(v.subrange(1, v.len() as int), name);
    }
}

/// Splitting a node list splits the collection of named children.
pub proof fn lemma_elems_named_concat(v1: Seq<NodeV>, v2: Seq<NodeV>, name: Seq<char>)
    ensures
        elems_named(v1 + v2, name) == elems_named(v1, name) + elems_named(v2, name),
    decreases v1.len(),
{
    if v1.len() == 0 {
        assert(v1 + v2 =~= v2);
        assert(elems_named(v1, name) =~= Seq::<ElemV>::empty());
        assert(elems_named(v1 + v2, name) =~= elems_named(v1, name) + elems_named(v2, name));
    } else {
        assert((v1 + v2).subrange(1, (v1 + v2).len() as int) =~= v1.subrange(
            1,
            v1.len() as int,
        ) + v2);
        assert((v1 + v2)[0] == v1[0]);
        lemma_elems_named_concat(v1.subrange(1, v1.len() as int), v2, name);
        assert(elems_named(v1 + v2, name) =~= elems_named(v1, name) + elems_named(v2, name));
    }
}

/// A list whose elements all carry the name collects to exactly those
/// elements.
pub proof fn lemma_elems_named_all(v: Seq<NodeV>, name: Seq<char>)
    requires
        forall|i: int| 0 <= i < v.len() ==> #[trigger] v[i] is Elem && elem_of(v[i]).name == name,
    ensures
        elems_named(v, name) == Seq::new(v.len(), |i: int| elem_of(v[i])),
    decreases v.len(),
{
    if v.len() == 0 {
        assert(elems_named(v, name) =~= Seq::new(v.len(), |i: int| elem_of(v[i])));
    } else {
        let rest = v.subrange(1, v.len() as int);
        assert(forall|i: int|
            0 <= i < rest.len() ==> #[trigger] rest[i] is Elem && elem_of(rest[i]).name == name);
        lemma_elems_named_all(rest, name);
        assert(v[0] is Elem && elem_of(v[0]).name == name);
        assert(elems_named(v, name) == seq![elem_of(v[0])] + elems_named(rest, name));
        assert(elems_named(v, name) =~= Seq::new(v.len(), |i: int| elem_of(v[i])));
    }
}

/// A list with no element of the name collects to nothing.
pub proof fn lemma_elems_named_none(v: Seq<NodeV>, name: Seq<char>)
    requires
        forall|i: int|
            0 <= i < v.len() ==> !(#[trigger] v[i] is Elem && elem_of(v[i]).name == name),
    ensures
        elems_named(v, name) == Seq::<ElemV>::empty(),
    decreases v.len(),
{
    if v.len() > 0 {
        let rest = v.subrange(1, v.len() as int);
        assert(forall|i: int|
            0 <= i < rest.len() ==> !(#[trigger] rest[i] is Elem && elem_of(rest[i]).name
                == name));
        lemma_elems_named_none(rest, name);
    }
}

} // verus!

// Search lemmas over grown lists, and the facts about the fixed markup
// names that the evaluation below needs.

verus! {

/// Appending an attribute only extends a failed search.
pub proof fn lemma_find_attr_push(v: Seq<AttrV>, a: AttrV, name: Seq<char>)
    ensures
        find_attr(v.push(a), name) == match find_attr(v, name) {
            Some(t) => Some(t),
            None => if a.name == name {
                Some(a.value)
            } else {
                None
            },
        },
    decreases v.len(),
{
    if v.len() == 0 {
        assert(v.push(a)[0] == a);
        assert(v.push(a).subrange(1, v.push(a).len() as int) =~= Seq::<AttrV>::empty());
        assert(find_attr(Seq::<AttrV>::empty(), name) is None);
        assert(find_attr(v, name) is None);
    } else {
        assert(v.push(a)[0] == v[0]);
        assert(v.push(a).subrange(1, v.push(a).len() as int) =~= v.subrange(
            1,
            v.len() as int,
        ).push(a));
        lemma_find_attr_push(v.subrange(1, v.len() as int), a, name);
    }
}

/// Appending a node only extends a failed search for a child.
pub proof fn lemma_find_child_push(v: Seq<NodeV>, n: NodeV, name: Seq<char>)
    ensures
        find_child(v.push(n), name) == match find_child(v, name) {
            Some(e) => Some(e),
            None => if n is Elem && elem_of(n).name == name {
                Some(elem_of(n))
            } else {
                None
            },
        },
    decreases v.len(),
{
    if v.len() == 0 {
        assert(v.push(n)[0] == n);
        assert(v.push(n).subrange(1, v.push(n).len() as int) =~= Seq::<NodeV>::empty());
        assert(find_child(Seq::<NodeV>::empty(), name) is None);
        assert(find_child(v, name) is None);
    } else {
        assert(v.push(n)[0] == v[0]);
        assert(v.push(n).subrange(1, v.push(n).len() as int) =~= v.subrange(
            1,
            v.len() as int,
        ).push(n));
        lemma_find_child_push(v.subrange(1, v.len() as int), n, name);
    }
}

/// Lengths of the markup names of the schema, and the few disequalities
/// that lengths alone do not settle.
pub proof fn lemma_schema_names()
    ensures
        "simulation"@.len() == 10,
        "parameters"@.len() == 10,
        "starttime"@.len() == 9,
        "endtime"@.len() == 7,
        "rate"@.len() == 4,
        "c"@.len() == 1,
        "simSamplingRate"@.len() == 15,
        "randomseed"@.len() == 10,
        "adc_bits"@.len() == 8,
        "oversample"@.len() == 10,
        "export"@.len() == 6,
        "binary"@.len() == 6,
        "csv"@.len() == 3,
        "xml"@.len() == 3,
        "name"@.len() == 4,
        "type"@.len() == 4,
        "filename"@.len() == 8,
        "power"@.len() == 5,
        "carrier"@.len() == 7,
        "frequency"@.len() == 9,
        "freq_offset"@.len() == 11,
        "random_freq_offset_stdev"@.len() == 24,
        "phase_offset"@.len() == 12,
        "random_phase_offset_stdev"@.len() == 25,
        "noise_entry"@.len() == 11,
        "alpha"@.len() == 5,
        "weight"@.len() == 6,
        "pattern"@.len() == 7,
        "efficiency"@.len() == 10,
        "beta"@.len() == 4,
        "gamma"@.len() == 5,
        "azscale"@.len() == 7,
        "elscale"@.len() == 7,
        "diameter"@.len() == 8,
        "pulse"@.len() == 5,
        "timing"@.len() == 6,
        "antenna"@.len() == 7,
        "platform"@.len() == 8,
        "motionpath"@.len() == 10,
        "interpolation"@.len() == 13,
        "positionwaypoint"@.len() == 16,
        "x"@.len() == 1,
        "y"@.len() == 1,
        "altitude"@.len() == 8,
        "time"@.len() == 4,
        "fixedrotation"@.len() == 13,
        "rotationpath"@.len() == 12,
        "rotationwaypoint"@.len() == 16,
        "startazimuth"@.len() == 12,
        "startelevation"@.len() == 14,
        "azimuthrate"@.len() == 11,
        "elevationrate"@.len() == 13,
        "azimuth"@.len() == 7,
        "elevation"@.len() == 9,
        "monostatic"@.len() == 10,
        "transmitter"@.len() == 11,
        "receiver"@.len() == 8,
        "target"@.len() == 6,
        "window_skip"@.len() == 11,
        "window_length"@.len() == 13,
        "prf"@.len() == 3,
        "noise_temp"@.len() == 10,
        "nodirect"@.len() == 8,
        "nopropagationloss"@.len() == 17,
        "rcs"@.len() == 3,
        "model"@.len() == 5,
        "value"@.len() == 5,
        "k"@.len() == 1,
        "true"@.len() == 4,
        "false"@.len() == 5,
        "1"@.len() == 1,
        "0"@.len() == 1,
        "continuous"@.len() == 10,
        "cw"@.len() == 2,
        "file"@.len() == 4,
        "pulsed"@.len() == 6,
        "constant"@.len() == 8,
        "sinc"@.len() == 4,
        "gaussian"@.len() == 8,
        "squarehorn"@.len() == 10,
        "parabolic"@.len() == 9,
        "randomseed"@ != "oversample"@,
        "name"@ != "type"@,
        "csv"@ != "xml"@,
        "freq_offset"@ != "noise_entry"@,
        "alpha"@ != "gamma"@,
        "azscale"@ != "elscale"@,
        "x"@ != "y"@,
        "motionpath"@ != "monostatic"@,
        "motionpath"@ != "parameters"@,
        "motionpath"@ != "randomseed"@,
        "monostatic"@ != "parameters"@,
        "parameters"@ != "randomseed"@,
        "parameters"@ != "oversample"@,
        "simulation"@ != "parameters"@,
        "simulation"@ != "motionpath"@,
        "simulation"@ != "monostatic"@,
        "positionwaypoint"@ != "rotationwaypoint"@,
        "azimuthrate"@ != "transmitter"@,
        "azimuthrate"@ != "window_skip"@,
        "transmitter"@ != "window_skip"@,
        "fixedrotation"@ != "interpolation"@,
        "fixedrotation"@ != "window_length"@,
        "interpolation"@ != "window_length"@,
        "fixedrotation"@ != "elevationrate"@,
        "interpolation"@ != "elevationrate"@,
        "window_length"@ != "elevationrate"@,
        "power"@ != "alpha"@,
        "power"@ != "gamma"@,
        "power"@ != "model"@,
        "power"@ != "value"@,
        "power"@ != "pulse"@,
        "alpha"@ != "model"@,
        "alpha"@ != "value"@,
        "alpha"@ != "pulse"@,
        "gamma"@ != "model"@,
        "gamma"@ != "value"@,
        "gamma"@ != "pulse"@,
        "model"@ != "value"@,
        "model"@ != "pulse"@,
        "value"@ != "pulse"@,
        "rate"@ != "name"@,
        "rate"@ != "type"@,
        "rate"@ != "beta"@,
        "rate"@ != "time"@,
        "rate"@ != "true"@,
        "rate"@ != "file"@,
        "name"@ != "beta"@,
        "name"@ != "time"@,
        "name"@ != "true"@,
        "name"@ != "file"@,
        "type"@ != "beta"@,
        "type"@ != "time"@,
        "type"@ != "true"@,
        "type"@ != "file"@,
        "beta"@ != "time"@,
        "beta"@ != "true"@,
        "beta"@ != "file"@,
        "time"@ != "true"@,
        "time"@ != "file"@,
        "true"@ != "file"@,
        "c"@ != "x"@,
        "c"@ != "y"@,
        "c"@ != "k"@,
        "c"@ != "1"@,
        "c"@ != "0"@,
        "x"@ != "k"@,
        "x"@ != "1"@,
        "x"@ != "0"@,
        "y"@ != "k"@,
        "y"@ != "1"@,
        "y"@ != "0"@,
        "k"@ != "1"@,
        "k"@ != "0"@,
        "1"@ != "0"@,
        "export"@ != "binary"@,
        "export"@ != "weight"@,
        "export"@ != "timing"@,
        "export"@ != "target"@,
        "export"@ != "pulsed"@,
        "binary"@ != "weight"@,
        "binary"@ != "timing"@,
        "binary"@ != "target"@,
        "timing"@ != "target"@,
        "timing"@ != "weight"@,
        "weight"@ != "target"@,
        "endtime"@ != "carrier"@,
        "endtime"@ != "pattern"@,
        "endtime"@ != "antenna"@,
        "endtime"@ != "azscale"@,
        "endtime"@ != "elscale"@,
        "endtime"@ != "azimuth"@,
        "carrier"@ != "pattern"@,
        "carrier"@ != "antenna"@,
        "carrier"@ != "azscale"@,
        "carrier"@ != "elscale"@,
        "carrier"@ != "azimuth"@,
        "pattern"@ != "antenna"@,
        "pattern"@ != "azscale"@,
        "pattern"@ != "elscale"@,
        "pattern"@ != "azimuth"@,
        "antenna"@ != "azscale"@,
        "antenna"@ != "elscale"@,
        "antenna"@ != "azimuth"@,
        "azscale"@ != "azimuth"@,
        "elscale"@ != "azimuth"@,
        "adc_bits"@ != "filename"@,
        "adc_bits"@ != "altitude"@,
        "adc_bits"@ != "platform"@,
        "adc_bits"@ != "receiver"@,
        "adc_bits"@ != "nodirect"@,
        "adc_bits"@ != "constant"@,
        "filename"@ != "altitude"@,
        "filename"@ != "platform"@,
        "filename"@ != "receiver"@,
        "filename"@ != "nodirect"@,
        "filename"@ != "constant"@,
        "altitude"@ != "platform"@,
        "altitude"@ != "receiver"@,
        "altitude"@ != "nodirect"@,
        "platform"@ != "receiver"@,
        "platform"@ != "nodirect"@,
        "receiver"@ != "nodirect"@,
        "starttime"@ != "frequency"@,
        "starttime"@ != "elevation"@,
        "starttime"@ != "parabolic"@,
        "frequency"@ != "elevation"@,
        "randomseed"@ != "efficiency"@,
        "randomseed"@ != "noise_temp"@,
        "randomseed"@ != "continuous"@,
        "randomseed"@ != "monostatic"@,
        "oversample"@ != "efficiency"@,
        "oversample"@ != "noise_temp"@,
        "oversample"@ != "motionpath"@,
        "oversample"@ != "monostatic"@,
        "efficiency"@ != "noise_temp"@,
        "efficiency"@ != "motionpath"@,
        "efficiency"@ != "monostatic"@,
        "noise_temp"@ != "motionpath"@,
        "noise_temp"@ != "monostatic"@,
        "freq_offset"@ != "azimuthrate"@,
        "freq_offset"@ != "transmitter"@,
        "freq_offset"@ != "window_skip"@,
        "noise_entry"@ != "azimuthrate"@,
        "noise_entry"@ != "transmitter"@,
        "noise_entry"@ != "window_skip"@,
        "phase_offset"@ != "rotationpath"@,
        "phase_offset"@ != "startazimuth"@,
        "rotationpath"@ != "startazimuth"@,
        "prf"@ != "csv"@,
        "prf"@ != "xml"@,
        "prf"@ != "rcs"@,
        "csv"@ != "rcs"@,
        "xml"@ != "rcs"@,
{
    reveal_strlit("simulation");
    reveal_strlit("parameters");
    reveal_strlit("starttime");
    reveal_strlit("endtime");
    reveal_strlit("rate");
    reveal_strlit("c");
    reveal_strlit("simSamplingRate");
    reveal_strlit("randomseed");
    reveal_strlit("adc_bits");
    reveal_strlit("oversample");
    reveal_strlit("export");
    reveal_strlit("binary");
    reveal_strlit("csv");
    reveal_strlit("xml");
    reveal_strlit("name");
    reveal_strlit("type");
    reveal_strlit("filename");
    reveal_strlit("power");
    reveal_strlit("carrier");
    reveal_strlit("frequency");
    reveal_strlit("freq_offset");
    reveal_strlit("random_freq_offset_stdev");
    reveal_strlit("phase_offset");
    reveal_strlit("random_phase_offset_stdev");
    reveal_strlit("noise_entry");
    reveal_strlit("alpha");
    reveal_strlit("weight");
    reveal_strlit("pattern");
    reveal_strlit("efficiency");
    reveal_strlit("beta");
    reveal_strlit("gamma");
    reveal_strlit("azscale");
    reveal_strlit("elscale");
    reveal_strlit("diameter");
    reveal_strlit("pulse");
    reveal_strlit("timing");
    reveal_strlit("antenna");
    reveal_strlit("platform");
    reveal_strlit("motionpath");
    reveal_strlit("interpolation");
    reveal_strlit("positionwaypoint");
    reveal_strlit("x");
    reveal_strlit("y");
    reveal_strlit("altitude");
    reveal_strlit("time");
    reveal_strlit("fixedrotation");
    reveal_strlit("rotationpath");
    reveal_strlit("rotationwaypoint");
    reveal_strlit("startazimuth");
    reveal_strlit("startelevation");
    reveal_strlit("azimuthrate");
    reveal_strlit("elevationrate");
    reveal_strlit("azimuth");
    reveal_strlit("elevation");
    reveal_strlit("monostatic");
    reveal_strlit("transmitter");
    reveal_strlit("receiver");
    reveal_strlit("target");
    reveal_strlit("window_skip");
    reveal_strlit("window_length");
    reveal_strlit("prf");
    reveal_strlit("noise_temp");
    reveal_strlit("nodirect");
    reveal_strlit("nopropagationloss");
    reveal_strlit("rcs");
    reveal_strlit("model");
    reveal_strlit("value");
    reveal_strlit("k");
    reveal_strlit("true");
    reveal_strlit("false");
    reveal_strlit("1");
    reveal_strlit("0");
    reveal_strlit("continuous");
    reveal_strlit("cw");
    reveal_strlit("file");
    reveal_strlit("pulsed");
    reveal_strlit("constant");
    reveal_strlit("parabolic");
    reveal_strlit("sinc");
    reveal_strlit("gaussian");
    reveal_strlit("squarehorn");
    assert("randomseed"@[0] == 'r' && "oversample"@[0] == 'o');
    assert("name"@[0] == 'n' && "type"@[0] == 't');
    assert("csv"@[0] == 'c' && "xml"@[0] == 'x');
    assert("freq_offset"@[0] == 'f' && "noise_entry"@[0] == 'n');
    assert("alpha"@[0] == 'a' && "gamma"@[0] == 'g');
    assert("azscale"@[0] == 'a' && "elscale"@[0] == 'e');
    assert("x"@[0] == 'x' && "y"@[0] == 'y');
    assert("motionpath"@[2] == 't' && "monostatic"@[2] == 'n');
    assert("motionpath"@[0] == 'm' && "parameters"@[0] == 'p');
    assert("motionpath"@[0] == 'm' && "randomseed"@[0] == 'r');
    assert("monostatic"@[0] == 'm' && "parameters"@[0] == 'p');
    assert("parameters"@[0] == 'p' && "randomseed"@[0] == 'r');
    assert("parameters"@[0] == 'p' && "oversample"@[0] == 'o');
    assert("simulation"@[0] == 's' && "parameters"@[0] == 'p');
    assert("simulation"@[0] == 's' && "motionpath"@[0] == 'm');
    assert("simulation"@[0] == 's' && "monostatic"@[0] == 'm');
    assert("positionwaypoint"@[0] == 'p' && "rotationwaypoint"@[0] == 'r');
    assert("azimuthrate"@[0] == 'a' && "transmitter"@[0] == 't');
    assert("azimuthrate"@[0] == 'a' && "window_skip"@[0] == 'w');
    assert("transmitter"@[0] == 't' && "window_skip"@[0] == 'w');
    assert("fixedrotation"@[0] == 'f' && "interpolation"@[0] == 'i');
    assert("fixedrotation"@[0] == 'f' && "window_length"@[0] == 'w');
    assert("interpolation"@[0] == 'i' && "window_length"@[0] == 'w');
    assert("fixedrotation"@[0] == 'f' && "elevationrate"@[0] == 'e');
    assert("interpolation"@[0] == 'i' && "elevationrate"@[0] == 'e');
    assert("window_length"@[0] == 'w' && "elevationrate"@[0] == 'e');
    assert("power"@[0] == 'p' && "alpha"@[0] == 'a');
    assert("power"@[0] == 'p' && "gamma"@[0] == 'g');
    assert("power"@[0] == 'p' && "model"@[0] == 'm');
    assert("power"@[0] == 'p' && "value"@[0] == 'v');
    assert("power"@[1] == 'o' && "pulse"@[1] == 'u');
    assert("alpha"@[0] == 'a' && "model"@[0] == 'm');
    assert("alpha"@[0] == 'a' && "value"@[0] == 'v');
    assert("alpha"@[0] == 'a' && "pulse"@[0] == 'p');
    assert("gamma"@[0] == 'g' && "model"@[0] == 'm');
    assert("gamma"@[0] == 'g' && "value"@[0] == 'v');
    assert("gamma"@[0] == 'g' && "pulse"@[0] == 'p');
    assert("model"@[0] == 'm' && "value"@[0] == 'v');
    assert("model"@[0] == 'm' && "pulse"@[0] == 'p');
    assert("value"@[0] == 'v' && "pulse"@[0] == 'p');
    assert("rate"@[0] == 'r' && "name"@[0] == 'n');
    assert("rate"@[0] == 'r' && "type"@[0] == 't');
    assert("rate"@[0] == 'r' && "beta"@[0] == 'b');
    assert("rate"@[0] == 'r' && "time"@[0] == 't');
    assert("rate"@[0] == 'r' && "true"@[0] == 't');
    assert("rate"@[0] == 'r' && "file"@[0] == 'f');
    assert("name"@[0] == 'n' && "beta"@[0] == 'b');
    assert("name"@[0] == 'n' && "time"@[0] == 't');
    assert("name"@[0] == 'n' && "true"@[0] == 't');
    assert("name"@[0] == 'n' && "file"@[0] == 'f');
    assert("type"@[0] == 't' && "beta"@[0] == 'b');
    assert("type"@[1] == 'y' && "time"@[1] == 'i');
    assert("type"@[1] == 'y' && "true"@[1] == 'r');
    assert("type"@[0] == 't' && "file"@[0] == 'f');
    assert("beta"@[0] == 'b' && "time"@[0] == 't');
    assert("beta"@[0] == 'b' && "true"@[0] == 't');
    assert("beta"@[0] == 'b' && "file"@[0] == 'f');
    assert("time"@[1] == 'i' && "true"@[1] == 'r');
    assert("time"@[0] == 't' && "file"@[0] == 'f');
    assert("true"@[0] == 't' && "file"@[0] == 'f');
    assert("c"@[0] == 'c' && "x"@[0] == 'x');
    assert("c"@[0] == 'c' && "y"@[0] == 'y');
    assert("c"@[0] == 'c' && "k"@[0] == 'k');
    assert("c"@[0] == 'c' && "1"@[0] == '1');
    assert("c"@[0] == 'c' && "0"@[0] == '0');
    assert("x"@[0] == 'x' && "k"@[0] == 'k');
    assert("x"@[0] == 'x' && "1"@[0] == '1');
    assert("x"@[0] == 'x' && "0"@[0] == '0');
    assert("y"@[0] == 'y' && "k"@[0] == 'k');
    assert("y"@[0] == 'y' && "1"@[0] == '1');
    assert("y"@[0] == 'y' && "0"@[0] == '0');
    assert("k"@[0] == 'k' && "1"@[0] == '1');
    assert("k"@[0] == 'k' && "0"@[0] == '0');
    assert("1"@[0] == '1' && "0"@[0] == '0');
    assert("export"@[0] == 'e' && "binary"@[0] == 'b');
    assert("export"@[0] == 'e' && "weight"@[0] == 'w');
    assert("export"@[0] == 'e' && "timing"@[0] == 't');
    assert("export"@[0] == 'e' && "target"@[0] == 't');
    assert("export"@[0] == 'e' && "pulsed"@[0] == 'p');
    assert("binary"@[0] == 'b' && "weight"@[0] == 'w');
    assert("binary"@[0] == 'b' && "timing"@[0] == 't');
    assert("binary"@[0] == 'b' && "target"@[0] == 't');
    assert("timing"@[1] == 'i' && "target"@[1] == 'a');
    assert("timing"@[0] == 't' && "weight"@[0] == 'w');
    assert("weight"@[0] == 'w' && "target"@[0] == 't');
    assert("endtime"@[0] == 'e' && "carrier"@[0] == 'c');
    assert("endtime"@[0] == 'e' && "pattern"@[0] == 'p');
    assert("endtime"@[0] == 'e' && "antenna"@[0] == 'a');
    assert("endtime"@[0] == 'e' && "azscale"@[0] == 'a');
    assert("endtime"@[1] == 'n' && "elscale"@[1] == 'l');
    assert("endtime"@[0] == 'e' && "azimuth"@[0] == 'a');
    assert("carrier"@[0] == 'c' && "pattern"@[0] == 'p');
    assert("carrier"@[0] == 'c' && "antenna"@[0] == 'a');
    assert("carrier"@[0] == 'c' && "azscale"@[0] == 'a');
    assert("carrier"@[0] == 'c' && "elscale"@[0] == 'e');
    assert("carrier"@[0] == 'c' && "azimuth"@[0] == 'a');
    assert("pattern"@[0] == 'p' && "antenna"@[0] == 'a');
    assert("pattern"@[0] == 'p' && "azscale"@[0] == 'a');
    assert("pattern"@[0] == 'p' && "elscale"@[0] == 'e');
    assert("pattern"@[0] == 'p' && "azimuth"@[0] == 'a');
    assert("antenna"@[1] == 'n' && "azscale"@[1] == 'z');
    assert("antenna"@[0] == 'a' && "elscale"@[0] == 'e');
    assert("antenna"@[1] == 'n' && "azimuth"@[1] == 'z');
    assert("azscale"@[2] == 's' && "azimuth"@[2] == 'i');
    assert("elscale"@[0] == 'e' && "azimuth"@[0] == 'a');
    assert("adc_bits"@[0] == 'a' && "filename"@[0] == 'f');
    assert("adc_bits"@[1] == 'd' && "altitude"@[1] == 'l');
    assert("adc_bits"@[0] == 'a' && "platform"@[0] == 'p');
    assert("adc_bits"@[0] == 'a' && "receiver"@[0] == 'r');
    assert("adc_bits"@[0] == 'a' && "nodirect"@[0] == 'n');
    assert("adc_bits"@[0] == 'a' && "constant"@[0] == 'c');
    assert("filename"@[0] == 'f' && "altitude"@[0] == 'a');
    assert("filename"@[0] == 'f' && "platform"@[0] == 'p');
    assert("filename"@[0] == 'f' && "receiver"@[0] == 'r');
    assert("filename"@[0] == 'f' && "nodirect"@[0] == 'n');
    assert("filename"@[0] == 'f' && "constant"@[0] == 'c');
    assert("altitude"@[0] == 'a' && "platform"@[0] == 'p');
    assert("altitude"@[0] == 'a' && "receiver"@[0] == 'r');
    assert("altitude"@[0] == 'a' && "nodirect"@[0] == 'n');
    assert("platform"@[0] == 'p' && "receiver"@[0] == 'r');
    assert("platform"@[0] == 'p' && "nodirect"@[0] == 'n');
    assert("receiver"@[0] == 'r' && "nodirect"@[0] == 'n');
    assert("starttime"@[0] == 's' && "frequency"@[0] == 'f');
    assert("starttime"@[0] == 's' && "elevation"@[0] == 'e');
    assert("starttime"@[0] == 's' && "parabolic"@[0] == 'p');
    assert("frequency"@[0] == 'f' && "elevation"@[0] == 'e');
    assert("randomseed"@[0] == 'r' && "efficiency"@[0] == 'e');
    assert("randomseed"@[0] == 'r' && "noise_temp"@[0] == 'n');
    assert("randomseed"@[0] == 'r' && "continuous"@[0] == 'c');
    assert("randomseed"@[0] == 'r' && "monostatic"@[0] == 'm');
    assert("oversample"@[0] == 'o' && "efficiency"@[0] == 'e');
    assert("oversample"@[0] == 'o' && "noise_temp"@[0] == 'n');
    assert("oversample"@[0] == 'o' && "motionpath"@[0] == 'm');
    assert("oversample"@[0] == 'o' && "monostatic"@[0] == 'm');
    assert("efficiency"@[0] == 'e' && "noise_temp"@[0] == 'n');
    assert("efficiency"@[0] == 'e' && "motionpath"@[0] == 'm');
    assert("efficiency"@[0] == 'e' && "monostatic"@[0] == 'm');
    assert("noise_temp"@[0] == 'n' && "motionpath"@[0] == 'm');
    assert("noise_temp"@[0] == 'n' && "monostatic"@[0] == 'm');
    assert("freq_offset"@[0] == 'f' && "azimuthrate"@[0] == 'a');
    assert("freq_offset"@[0] == 'f' && "transmitter"@[0] == 't');
    assert("freq_offset"@[0] == 'f' && "window_skip"@[0] == 'w');
    assert("noise_entry"@[0] == 'n' && "azimuthrate"@[0] == 'a');
    assert("noise_entry"@[0] == 'n' && "transmitter"@[0] == 't');
    assert("noise_entry"@[0] == 'n' && "window_skip"@[0] == 'w');
    assert("phase_offset"@[0] == 'p' && "rotationpath"@[0] == 'r');
    assert("phase_offset"@[0] == 'p' && "startazimuth"@[0] == 's');
    assert("rotationpath"@[0] == 'r' && "startazimuth"@[0] == 's');
    assert("prf"@[0] == 'p' && "csv"@[0] == 'c');
    assert("prf"@[0] == 'p' && "xml"@[0] == 'x');
    assert("prf"@[0] == 'p' && "rcs"@[0] == 'r');
    assert("csv"@[0] == 'c' && "rcs"@[0] == 'r');
    assert("xml"@[0] == 'x' && "rcs"@[0] == 'r');
}

} // verus!

// Well-formedness of a scenario value: what the editing surface provides
// and the document schema can carry faithfully.

verus! {

/// A present optional field must hold a number.
pub open spec fn opt_num_wf(o: Option<Seq<char>>) -> bool {
    match o {
        Some(t) => is_number_text(t),
        None => true,
    }
}

/// Well-formed global parameters.
pub open spec fn params_wf(g: GlobalParametersV) -> bool {
    &&& g.id == "global-parameters"@
    &&& g.type_tag == "GlobalParameters"@
    &&& is_number_text(g.start)
    &&& is_number_text(g.end)
    &&& is_number_text(g.rate)
    &&& is_number_text(g.c)
    &&& opt_num_wf(g.simSamplingRate)
}

/// A well-formed pulse: a normalized kind tag and numeric scalars.
pub open spec fn pulse_wf(p: PulseV) -> bool {
    &&& p.type_tag == "Pulse"@
    &&& (p.pulseType == "cw"@ || p.pulseType == "file"@)
    &&& is_number_text(p.power)
    &&& is_number_text(p.carrier)
}

/// A well-formed noise entry.
pub open spec fn noise_wf(n: NoiseEntryV) -> bool {
    is_number_text(n.alpha) && is_number_text(n.weight)
}

/// A well-formed timing source.
pub open spec fn timing_wf(t: TimingV) -> bool {
    &&& t.type_tag == "Timing"@
    &&& is_number_text(t.frequency)
    &&& opt_num_wf(t.freqOffset)
    &&& opt_num_wf(t.randomFreqOffsetStdev)
    &&& opt_num_wf(t.phaseOffset)
    &&& opt_num_wf(t.randomPhaseOffsetStdev)
    &&& forall|j: int| 0 <= j < t.noiseEntries.len() ==> noise_wf(#[trigger] t.noiseEntries[j])
}

/// A well-formed antenna: numeric parameters, and only the parameters of
/// its own pattern present.
pub open spec fn antenna_wf(a: AntennaV) -> bool {
    &&& a.type_tag == "Antenna"@
    &&& opt_num_wf(a.efficiency)
    &&& opt_num_wf(a.alpha)
    &&& opt_num_wf(a.beta)
    &&& opt_num_wf(a.gamma)
    &&& opt_num_wf(a.azscale)
    &&& opt_num_wf(a.elscale)
    &&& opt_num_wf(a.diameter)
    &&& (a.pattern == "sinc"@ || (a.alpha is None && a.beta is None && a.gamma is None))
    &&& (a.pattern == "gaussian"@ || (a.azscale is None && a.elscale is None))
    &&& (a.pattern == "squarehorn"@ || a.pattern == "parabolic"@ || a.diameter is None)
}

/// A well-formed motion waypoint.
pub open spec fn position_waypoint_wf(w: PositionWaypointV) -> bool {
    is_number_text(w.x) && is_number_text(w.y) && is_number_text(w.altitude) && is_number_text(
        w.time,
    )
}

/// A well-formed rotation waypoint.
pub open spec fn rotation_waypoint_wf(w: RotationWaypointV) -> bool {
    is_number_text(w.azimuth) && is_number_text(w.elevation) && is_number_text(w.time)
}

/// A well-formed rotation.
pub open spec fn rotation_wf(r: RotationV) -> bool {
    match r {
        RotationV::Fixed(f) => is_number_text(f.startAzimuth) && is_number_text(f.startElevation)
            && is_number_text(f.azimuthRate) && is_number_text(f.elevationRate),
        RotationV::Path(p) => forall|j: int|
            0 <= j < p.waypoints.len() ==> rotation_waypoint_wf(#[trigger] p.waypoints[j]),
    }
}

/// A well-formed component: numeric scalars, and no fluctuation constant
/// for the default model.
pub open spec fn component_wf(c: PlatformComponentV) -> bool {
    match c {
        PlatformComponentV::NoComponent => true,
        PlatformComponentV::Monostatic(m) => is_number_text(m.window_skip) && is_number_text(
            m.window_length,
        ) && is_number_text(m.prf) && opt_num_wf(m.noiseTemperature),
        PlatformComponentV::Transmitter(t) => is_number_text(t.prf),
        PlatformComponentV::Receiver(r) => is_number_text(r.window_skip) && is_number_text(
            r.window_length,
        ) && is_number_text(r.prf) && opt_num_wf(r.noiseTemperature),
        PlatformComponentV::Target(t) => opt_num_wf(t.rcs_value) && opt_num_wf(t.rcs_k) && (
        t.rcs_model == "constant"@ ==> t.rcs_k is None),
    }
}

/// A well-formed platform.
pub open spec fn platform_wf(p: PlatformV) -> bool {
    &&& p.type_tag == "Platform"@
    &&& forall|j: int|
        0 <= j < p.motionPath.waypoints.len() ==> position_waypoint_wf(
            #[trigger] p.motionPath.waypoints[j],
        )
    &&& rotation_wf(p.rotation)
    &&& component_wf(p.component)
}

/// A well-formed scenario: every entity well formed.
pub open spec fn scenario_wf(g: ScenarioV) -> bool {
    &&& params_wf(g.globalParameters)
    &&& forall|i: int| 0 <= i < g.pulses.len() ==> pulse_wf(#[trigger] g.pulses[i])
    &&& forall|i: int| 0 <= i < g.timings.len() ==> timing_wf(#[trigger] g.timings[i])
    &&& forall|i: int| 0 <= i < g.antennas.len() ==> antenna_wf(#[trigger] g.antennas[i])
    &&& forall|i: int| 0 <= i < g.platforms.len() ==> platform_wf(#[trigger] g.platforms[i])
}

/// Searching a child among optionally appended text elements.
pub proof fn lemma_find_child_push_opt(
    k: Seq<NodeV>,
    nm: Seq<char>,
    v: Option<Seq<char>>,
    name: Seq<char>,
)
    ensures
        find_child(push_opt_text(k, nm, v), name) == match find_child(k, name) {
            Some(e) => Some(e),
            None => match v {
                Some(t) => if nm == name {
                    Some(text_el(nm, t))
                } else {
                    None
                },
                None => None,
            },
        },
{
    match v {
        Some(t) => {
            lemma_find_child_push(k, NodeV::Elem(text_el(nm, t)), name);
        },
        None => {},
    }
}

/// Searching an attribute among optionally appended attributes.
pub proof fn lemma_find_attr_push_opt(
    k: Seq<AttrV>,
    nm: Seq<char>,
    v: Option<Seq<char>>,
    name: Seq<char>,
)
    ensures
        find_attr(push_opt_attr(k, nm, v), name) == match find_attr(k, name) {
            Some(t) => Some(t),
            None => match v {
                Some(t) => if nm == name {
                    Some(t)
                } else {
                    None
                },
                None => None,
            },
        },
{
    match v {
        Some(t) => {
            lemma_find_attr_push(k, AttrV { name: nm, value: t }, name);
        },
        None => {},
    }
}

} // verus!

// Element-level round trips: transforming the element an entity maps to
// gives the entity back, with a freshly synthesized identifier.

use crate::schema::antenna_elem;
use crate::schema::noise_elem;
use crate::schema::num_child;
use crate::schema::opt_num_child;
use crate::schema::pulse_elem;
use crate::schema::synth_id;
use crate::schema::synth_id2;
use crate::schema::timing_elem;
use crate::schema::tr_antenna;
use crate::schema::tr_noise;
use crate::schema::tr_pulse;
use crate::schema::tr_timing;

verus! {

/// Transforming the element of a well-formed pulse gives the pulse back.
pub proof fn lemma_tr_pulse_round(p: PulseV, i: int)
    requires
        pulse_wf(p),
    ensures
        tr_pulse(pulse_elem(p), i) == Some(PulseV { id: synth_id("pulse-"@, i), ..p }),
{
    lemma_schema_names();
    let e = pulse_elem(p);
    let a0 = AttrV { name: "name"@, value: p.name };
    let a1 = AttrV { name: "type"@, value: crate::schema::pulse_type_text(p.pulseType) };
    let base = Seq::<AttrV>::empty().push(a0).push(a1);
    assert(seq![a0, a1] =~= base);
    assert(find_attr(Seq::<AttrV>::empty(), "name"@) is None);
    lemma_find_attr_push(Seq::<AttrV>::empty(), a0, "name"@);
    lemma_find_attr_push(Seq::<AttrV>::empty().push(a0), a1, "name"@);
    lemma_find_attr_push_opt(base, "filename"@, p.filename, "name"@);
    assert(find_attr(e.attrs, "name"@) == Some(p.name));
    assert(find_attr(Seq::<AttrV>::empty(), "type"@) is None);
    lemma_find_attr_push(Seq::<AttrV>::empty(), a0, "type"@);
    lemma_find_attr_push(Seq::<AttrV>::empty().push(a0), a1, "type"@);
    lemma_find_attr_push_opt(base, "filename"@, p.filename, "type"@);
    assert(find_attr(e.attrs, "type"@) == Some(crate::schema::pulse_type_text(p.pulseType)));
    assert(find_attr(Seq::<AttrV>::empty(), "filename"@) is None);
    lemma_find_attr_push(Seq::<AttrV>::empty(), a0, "filename"@);
    lemma_find_attr_push(Seq::<AttrV>::empty().push(a0), a1, "filename"@);
    lemma_find_attr_push_opt(base, "filename"@, p.filename, "filename"@);
    assert(find_attr(e.attrs, "filename"@) == p.filename);
    let n0 = NodeV::Elem(text_el("power"@, p.power));
    let n1 = NodeV::Elem(text_el("carrier"@, p.carrier));
    let kids = Seq::<NodeV>::empty().push(n0).push(n1);
    assert(e.children =~= kids);
    assert(find_child(Seq::<NodeV>::empty(), "power"@) is None);
    lemma_find_child_push(Seq::<NodeV>::empty(), n0, "power"@);
    lemma_find_child_push(Seq::<NodeV>::empty().push(n0), n1, "power"@);
    assert(find_child(e.children, "power"@) == Some(text_el("power"@, p.power)));
    assert(find_child(Seq::<NodeV>::empty(), "carrier"@) is None);
    lemma_find_child_push(Seq::<NodeV>::empty(), n0, "carrier"@);
    lemma_find_child_push(Seq::<NodeV>::empty().push(n0), n1, "carrier"@);
    assert(find_child(e.children, "carrier"@) == Some(text_el("carrier"@, p.carrier)));
    assert(num_child(e, "power"@) == Some(p.power));
    assert(num_child(e, "carrier"@) == Some(p.carrier));
    if p.pulseType == "cw"@ {
        assert(crate::schema::pulse_type_text(p.pulseType) == "continuous"@);
    } else {
        assert(crate::schema::pulse_type_text(p.pulseType) == "file"@);
    }
    assert(tr_pulse(e, i) == Some(PulseV { id: synth_id("pulse-"@, i), ..p }));
}

} // verus!

// Asset-level round trips.

verus! {

/// Transforming the element of a well-formed noise entry gives it back.
pub proof fn lemma_tr_noise_round(n: NoiseEntryV, i: int, j: int)
    requires
        noise_wf(n),
    ensures
        tr_noise(noise_elem(n), i, j) == Some(
            NoiseEntryV { id: synth_id2("noise-"@, i, j), ..n },
        ),
{
    lemma_schema_names();
    let e = noise_elem(n);
    let n0 = NodeV::Elem(text_el("alpha"@, n.alpha));
    let n1 = NodeV::Elem(text_el("weight"@, n.weight));
    let kids = Seq::<NodeV>::empty().push(n0).push(n1);
    assert(e.children =~= kids);
    assert(find_child(Seq::<NodeV>::empty(), "alpha"@) is None);
    lemma_find_child_push(Seq::<NodeV>::empty(), n0, "alpha"@);
    lemma_find_child_push(Seq::<NodeV>::empty().push(n0), n1, "alpha"@);
    assert(find_child(Seq::<NodeV>::empty(), "weight"@) is None);
    lemma_find_child_push(Seq::<NodeV>::empty(), n0, "weight"@);
    lemma_find_child_push(Seq::<NodeV>::empty().push(n0), n1, "weight"@);
    assert(num_child(e, "alpha"@) == Some(n.alpha));
    assert(num_child(e, "weight"@) == Some(n.weight));
}

/// Transforming the noise entries of a well-formed timing gives them back.
pub proof fn lemma_tr_noises_round(ns: Seq<NoiseEntryV>, i: int, upto: int)
    requires
        forall|j: int| 0 <= j < ns.len() ==> noise_wf(#[trigger] ns[j]),
        0 <= upto <= ns.len(),
    ensures
        crate::schema::tr_noises(
            Seq::new(upto as nat, |j: int| noise_elem(ns[j])),
            i,
        ) == Some(
            Seq::new(upto as nat, |j: int| NoiseEntryV { id: synth_id2("noise-"@, i, j), ..ns[j] }),
        ),
    decreases upto,
{
    let els = Seq::new(upto as nat, |j: int| noise_elem(ns[j]));
    let exp = Seq::new(upto as nat, |j: int| NoiseEntryV { id: synth_id2("noise-"@, i, j), ..ns[j] });
    if upto == 0 {
        assert(els.len() == 0);
        assert(exp =~= Seq::<NoiseEntryV>::empty());
    } else {
        lemma_tr_noises_round(ns, i, upto - 1);
        assert(els.drop_last() =~= Seq::new((upto - 1) as nat, |j: int| noise_elem(ns[j])));
        assert(els.last() == noise_elem(ns[upto - 1]));
        lemma_tr_noise_round(ns[upto - 1], i, upto - 1);
        assert(exp =~= Seq::new(
            (upto - 1) as nat,
            |j: int| NoiseEntryV { id: synth_id2("noise-"@, i, j), ..ns[j] },
        ).push(NoiseEntryV { id: synth_id2("noise-"@, i, upto - 1), ..ns[upto - 1] }));
    }
}

/// Transforming the element of a well-formed timing gives the timing back.
pub proof fn lemma_tr_timing_round(t: TimingV, i: int)
    requires
        timing_wf(t),
    ensures
        tr_timing(timing_elem(t), i) == Some(
            TimingV {
                id: synth_id("timing-"@, i),
                noiseEntries: Seq::new(
                    t.noiseEntries.len(),
                    |j: int| NoiseEntryV { id: synth_id2("noise-"@, i, j), ..t.noiseEntries[j] },
                ),
                ..t
            },
        ),
{
    lemma_schema_names();
    let e = timing_elem(t);
    let a0 = AttrV { name: "name"@, value: t.name };
    assert(e.attrs =~= Seq::<AttrV>::empty().push(a0));
    assert(find_attr(Seq::<AttrV>::empty(), "name"@) is None);
    lemma_find_attr_push(Seq::<AttrV>::empty(), a0, "name"@);
    assert(find_attr(e.attrs, "name"@) == Some(t.name));
    let k0 = seq![NodeV::Elem(text_el("frequency"@, t.frequency))];
    let k1 = push_opt_text(k0, "freq_offset"@, t.freqOffset);
    let k2 = push_opt_text(k1, "random_freq_offset_stdev"@, t.randomFreqOffsetStdev);
    let k3 = push_opt_text(k2, "phase_offset"@, t.phaseOffset);
    let k4 = push_opt_text(k3, "random_phase_offset_stdev"@, t.randomPhaseOffsetStdev);
    let ns = Seq::new(t.noiseEntries.len(), |j: int| NodeV::Elem(noise_elem(t.noiseEntries[j])));
    assert(e.children == k4 + ns);
    assert(k0 =~= Seq::<NodeV>::empty().push(k0[0]));
    assert forall|q: int| 0 <= q < ns.len() implies #[trigger] ns[q] is Elem && elem_of(ns[q]).name
        == "noise_entry"@ by {}
    let names = seq![
        "frequency"@,
        "freq_offset"@,
        "random_freq_offset_stdev"@,
        "phase_offset"@,
        "random_phase_offset_stdev"@,
        "noise_entry"@,
    ];
    assert forall|w: int| 0 <= w < names.len() implies {
        let nm = #[trigger] names[w];
        find_child(e.children, nm) == match find_child(k4, nm) {
            Some(x) => Some(x),
            None => if nm == "noise_entry"@ && ns.len() > 0 {
                Some(elem_of(ns[0]))
            } else {
                None
            },
        }
    } by {
        let nm = names[w];
        lemma_find_child_concat(k4, ns, nm);
        if nm != "noise_entry"@ {
            assert forall|q: int| 0 <= q < ns.len() implies !(#[trigger] ns[q] is Elem && elem_of(
                ns[q],
            ).name == nm) by {}
            lemma_find_child_absent(ns, nm);
        } else {
            if ns.len() > 0 {
                assert(find_child(ns, "noise_entry"@) == Some(elem_of(ns[0])));
            }
        }
    }
    assert forall|w: int| 0 <= w < names.len() implies {
        let nm = #[trigger] names[w];
        find_child(k4, nm) == (if nm == "frequency"@ {
            Some(text_el("frequency"@, t.frequency))
        } else if nm == "freq_offset"@ {
            match t.freqOffset {
                Some(x) => Some(text_el(nm, x)),
                None => None,
            }
        } else if nm == "random_freq_offset_stdev"@ {
            match t.randomFreqOffsetStdev {
                Some(x) => Some(text_el(nm, x)),
                None => None,
            }
        } else if nm == "phase_offset"@ {
            match t.phaseOffset {
                Some(x) => Some(text_el(nm, x)),
                None => None,
            }
        } else if nm == "random_phase_offset_stdev"@ {
            match t.randomPhaseOffsetStdev {
                Some(x) => Some(text_el(nm, x)),
                None => None,
            }
        } else {
            None
        })
    } by {
        let nm = names[w];
        assert(find_child(Seq::<NodeV>::empty(), nm) is None);
        lemma_find_child_push(Seq::<NodeV>::empty(), k0[0], nm);
        lemma_find_child_push_opt(k0, "freq_offset"@, t.freqOffset, nm);
        lemma_find_child_push_opt(k1, "random_freq_offset_stdev"@, t.randomFreqOffsetStdev, nm);
        lemma_find_child_push_opt(k2, "phase_offset"@, t.phaseOffset, nm);
        lemma_find_child_push_opt(k3, "random_phase_offset_stdev"@, t.randomPhaseOffsetStdev, nm);
    }
    assert(num_child(e, "frequency"@) == Some(t.frequency));
    assert(opt_num_child(e, "freq_offset"@) == Some(t.freqOffset));
    assert(opt_num_child(e, "random_freq_offset_stdev"@) == Some(t.randomFreqOffsetStdev));
    assert(opt_num_child(e, "phase_offset"@) == Some(t.phaseOffset));
    assert(opt_num_child(e, "random_phase_offset_stdev"@) == Some(t.randomPhaseOffsetStdev));
    assert forall|q: int| 0 <= q < k4.len() implies !(#[trigger] k4[q] is Elem && elem_of(
        k4[q],
    ).name == "noise_entry"@) by {}
    lemma_elems_named_concat(k4, ns, "noise_entry"@);
    lemma_elems_named_none(k4, "noise_entry"@);
    lemma_elems_named_all(ns, "noise_entry"@);
    assert(elems_named(e.children, "noise_entry"@) =~= Seq::new(
        t.noiseEntries.len(),
        |j: int| noise_elem(t.noiseEntries[j]),
    ));
    lemma_tr_noises_round(t.noiseEntries, i, t.noiseEntries.len() as int);
}

} // verus!

// Antenna and parameter round trips.

verus! {


/// The scalar child an antenna element is expected to hold for each of its
/// optional parameter names.
pub open spec fn find_chain(a: AntennaV, nm: Seq<char>) -> Option<ElemV> {
    match (if nm == "efficiency"@ {
        a.efficiency
    } else if nm == "alpha"@ {
        a.alpha
    } else if nm == "beta"@ {
        a.beta
    } else if nm == "gamma"@ {
        a.gamma
    } else if nm == "azscale"@ {
        a.azscale
    } else if nm == "elscale"@ {
        a.elscale
    } else {
        a.diameter
    }) {
        Some(t) => Some(text_el(nm, t)),
        None => None,
    }
}

/// Transforming the element of a well-formed antenna gives the antenna
/// back: its own pattern's parameters survive, and no others existed.
#[verifier::rlimit(100)]
pub proof fn lemma_tr_antenna_round(a: AntennaV, i: int)
    requires
        antenna_wf(a),
    ensures
        tr_antenna(antenna_elem(a), i) == Some(AntennaV { id: synth_id("antenna-"@, i), ..a }),
{
    lemma_schema_names();
    let e = antenna_elem(a);
    let a0 = AttrV { name: "name"@, value: a.name };
    let a1 = AttrV { name: "pattern"@, value: a.pattern };
    let base = Seq::<AttrV>::empty().push(a0).push(a1);
    assert(seq![a0, a1] =~= base);
    let attr_names = seq!["name"@, "pattern"@, "filename"@];
    assert forall|w: int| 0 <= w < attr_names.len() implies {
        let nm = #[trigger] attr_names[w];
        find_attr(e.attrs, nm) == (if nm == "name"@ {
            Some(a.name)
        } else if nm == "pattern"@ {
            Some(a.pattern)
        } else {
            a.filename
        })
    } by {
        let nm = attr_names[w];
        assert(find_attr(Seq::<AttrV>::empty(), nm) is None);
        lemma_find_attr_push(Seq::<AttrV>::empty(), a0, nm);
        lemma_find_attr_push(Seq::<AttrV>::empty().push(a0), a1, nm);
        lemma_find_attr_push_opt(base, "filename"@, a.filename, nm);
    }
    let k0 = push_opt_text(Seq::empty(), "efficiency"@, a.efficiency);
    let names7 = seq![
        "efficiency"@,
        "alpha"@,
        "beta"@,
        "gamma"@,
        "azscale"@,
        "elscale"@,
        "diameter"@,
    ];
    assert forall|w: int| 0 <= w < names7.len() implies find_child(e.children, #[trigger] names7[w])
        == find_chain(a, names7[w]) by {
        let nm = names7[w];
        assert(w == 0 || w == 1 || w == 2 || w == 3 || w == 4 || w == 5 || w == 6);
        assert(nm == "efficiency"@ || nm == "alpha"@ || nm == "beta"@ || nm == "gamma"@ || nm
            == "azscale"@ || nm == "elscale"@ || nm == "diameter"@);
        assert(find_child(Seq::<NodeV>::empty(), nm) is None);
        lemma_find_child_push_opt(Seq::empty(), "efficiency"@, a.efficiency, nm);
        if a.pattern == "sinc"@ {
            let s1 = push_opt_text(k0, "alpha"@, a.alpha);
            let s2 = push_opt_text(s1, "beta"@, a.beta);
            lemma_find_child_push_opt(k0, "alpha"@, a.alpha, nm);
            lemma_find_child_push_opt(s1, "beta"@, a.beta, nm);
            lemma_find_child_push_opt(s2, "gamma"@, a.gamma, nm);
            assert(e.children == push_opt_text(s2, "gamma"@, a.gamma));
            assert(find_child(e.children, nm) == find_chain(a, nm));
            assert(find_child(k0, nm) == (if nm == "efficiency"@ && a.efficiency is Some {
                Some(text_el(nm, a.efficiency->0))
            } else {
                None
            }));
            assert(find_child(s1, nm) == (if nm == "efficiency"@ && a.efficiency is Some {
                Some(text_el(nm, a.efficiency->0))
            } else if nm == "alpha"@ && a.alpha is Some {
                Some(text_el(nm, a.alpha->0))
            } else {
                None
            }));
        } else if a.pattern == "gaussian"@ {
            let s1 = push_opt_text(k0, "azscale"@, a.azscale);
            lemma_find_child_push_opt(k0, "azscale"@, a.azscale, nm);
            lemma_find_child_push_opt(s1, "elscale"@, a.elscale, nm);
            assert(e.children == push_opt_text(s1, "elscale"@, a.elscale));
            assert(find_child(e.children, nm) == find_chain(a, nm));
        } else if a.pattern == "squarehorn"@ || a.pattern == "parabolic"@ {
            lemma_find_child_push_opt(k0, "diameter"@, a.diameter, nm);
            assert(e.children == push_opt_text(k0, "diameter"@, a.diameter));
            assert(find_child(e.children, nm) == find_chain(a, nm));
        } else {
            assert(e.children == k0);
            assert(find_child(e.children, nm) == find_chain(a, nm));
        }
    }
    assert(opt_num_child(e, "efficiency"@) == Some(a.efficiency));
    assert(opt_num_child(e, "alpha"@) == Some(a.alpha));
    assert(opt_num_child(e, "beta"@) == Some(a.beta));
    assert(opt_num_child(e, "gamma"@) == Some(a.gamma));
    assert(opt_num_child(e, "azscale"@) == Some(a.azscale));
    assert(opt_num_child(e, "elscale"@) == Some(a.elscale));
    assert(opt_num_child(e, "diameter"@) == Some(a.diameter));
    assert(tr_antenna(e, i) == Some(AntennaV { id: synth_id("antenna-"@, i), ..a }));
}

} // verus!

// Parameter block round trip.

use crate::schema::bool_text;
use crate::schema::params_elem;
use crate::schema::tr_params;
use crate::text::dec_digits;
use crate::text::dec_int;
use crate::text::lemma_dec_digits_digits;
use crate::text::lemma_dec_int_text;
use crate::text::lemma_digits_val_dec;

verus! {

/// Reading back a written boolean attribute gives the boolean.
pub proof fn lemma_bool_text_round(b: bool)
    ensures
        crate::schema::bool_of_text(bool_text(b)) == Some(b),
{
    lemma_schema_names();
}

/// Transforming the parameters block of well-formed global parameters,
/// with the simulation name handed back in, gives the parameters back.
pub proof fn lemma_tr_params_round(g: GlobalParametersV)
    requires
        params_wf(g),
    ensures
        tr_params(params_elem(g), g.simulation_name) == Some(g),
{
    lemma_schema_names();
    let e = params_elem(g);
    let n0 = NodeV::Elem(text_el("starttime"@, g.start));
    let n1 = NodeV::Elem(text_el("endtime"@, g.end));
    let n2 = NodeV::Elem(text_el("rate"@, g.rate));
    let n3 = NodeV::Elem(text_el("c"@, g.c));
    let k0 = Seq::<NodeV>::empty().push(n0).push(n1).push(n2).push(n3);
    assert(seq![n0, n1, n2, n3] =~= k0);
    let k1 = push_opt_text(k0, "simSamplingRate"@, g.simSamplingRate);
    let k2 = match g.random_seed {
        Some(v) => k1.push(NodeV::Elem(text_el("randomseed"@, dec_digits(v as nat)))),
        None => k1,
    };
    let k3 = k2.push(NodeV::Elem(text_el("adc_bits"@, dec_int(g.adc_bits as int))));
    let k4 = k3.push(NodeV::Elem(text_el("oversample"@, dec_int(g.oversample_ratio as int))));
    let ex = ElemV {
        name: "export"@,
        attrs: seq![
            AttrV { name: "binary"@, value: bool_text(g.export.binary) },
            AttrV { name: "csv"@, value: bool_text(g.export.csv) },
            AttrV { name: "xml"@, value: bool_text(g.export.xml) },
        ],
        children: Seq::empty(),
    };
    let k5 = k4.push(NodeV::Elem(ex));
    assert(e.children == k5);
    let names9 = seq![
        "starttime"@,
        "endtime"@,
        "rate"@,
        "c"@,
        "simSamplingRate"@,
        "randomseed"@,
        "adc_bits"@,
        "oversample"@,
        "export"@,
    ];
    assert forall|w: int| 0 <= w < names9.len() implies find_child(e.children, #[trigger] names9[w])
        == params_child(g, names9[w]) by {
        let nm = names9[w];
        assert(w == 0 || w == 1 || w == 2 || w == 3 || w == 4 || w == 5 || w == 6 || w == 7 || w
            == 8);
        assert(find_child(Seq::<NodeV>::empty(), nm) is None);
        lemma_find_child_push(Seq::<NodeV>::empty(), n0, nm);
        lemma_find_child_push(Seq::<NodeV>::empty().push(n0), n1, nm);
        lemma_find_child_push(Seq::<NodeV>::empty().push(n0).push(n1), n2, nm);
        lemma_find_child_push(Seq::<NodeV>::empty().push(n0).push(n1).push(n2), n3, nm);
        lemma_find_child_push_opt(k0, "simSamplingRate"@, g.simSamplingRate, nm);
        match g.random_seed {
            Some(v) => {
                lemma_find_child_push(
                    k1,
                    NodeV::Elem(text_el("randomseed"@, dec_digits(v as nat))),
                    nm,
                );
            },
            None => {},
        }
        lemma_find_child_push(k2, NodeV::Elem(text_el("adc_bits"@, dec_int(g.adc_bits as int))), nm);
        lemma_find_child_push(
            k3,
            NodeV::Elem(text_el("oversample"@, dec_int(g.oversample_ratio as int))),
            nm,
        );
        lemma_find_child_push(k4, NodeV::Elem(ex), nm);
        lemma_dec_int_text(g.adc_bits as int);
        lemma_dec_int_text(g.oversample_ratio as int);
        match g.random_seed {
            Some(v) => {
                lemma_dec_digits_digits(v as nat);
            },
            None => {},
        }
    }
    assert(num_child(e, "starttime"@) == Some(g.start));
    assert(num_child(e, "endtime"@) == Some(g.end));
    assert(num_child(e, "rate"@) == Some(g.rate));
    assert(num_child(e, "c"@) == Some(g.c));
    assert(opt_num_child(e, "simSamplingRate"@) == Some(g.simSamplingRate));
    match g.random_seed {
        Some(v) => {
            lemma_dec_digits_digits(v as nat);
            lemma_digits_val_dec(v as nat);
            assert(crate::schema::tr_seed(e) == Some(Some(v)));
        },
        None => {
            assert(crate::schema::tr_seed(e) == Some(None::<u64>));
        },
    }
    lemma_dec_int_text(g.adc_bits as int);
    lemma_dec_int_text(g.oversample_ratio as int);
    assert(crate::schema::tr_i64_child(e, "adc_bits"@) == Some(g.adc_bits));
    assert(crate::schema::tr_i64_child(e, "oversample"@) == Some(g.oversample_ratio));
    let b0 = AttrV { name: "binary"@, value: bool_text(g.export.binary) };
    let b1 = AttrV { name: "csv"@, value: bool_text(g.export.csv) };
    let b2 = AttrV { name: "xml"@, value: bool_text(g.export.xml) };
    assert(ex.attrs =~= Seq::<AttrV>::empty().push(b0).push(b1).push(b2));
    let bnames = seq!["binary"@, "csv"@, "xml"@];
    assert forall|w: int| 0 <= w < bnames.len() implies find_attr(ex.attrs, #[trigger] bnames[w])
        == Some(
        if bnames[w] == "binary"@ {
            bool_text(g.export.binary)
        } else if bnames[w] == "csv"@ {
            bool_text(g.export.csv)
        } else {
            bool_text(g.export.xml)
        },
    ) by {
        let nm = bnames[w];
        assert(w == 0 || w == 1 || w == 2);
        assert(find_attr(Seq::<AttrV>::empty(), nm) is None);
        lemma_find_attr_push(Seq::<AttrV>::empty(), b0, nm);
        lemma_find_attr_push(Seq::<AttrV>::empty().push(b0), b1, nm);
        lemma_find_attr_push(Seq::<AttrV>::empty().push(b0).push(b1), b2, nm);
    }
    lemma_bool_text_round(g.export.binary);
    lemma_bool_text_round(g.export.csv);
    lemma_bool_text_round(g.export.xml);
    assert(crate::schema::tr_export(ex) == Some(g.export));
    assert(tr_params(e, g.simulation_name) == Some(g));
}

/// The scalar child a parameters block is expected to hold for each of its
/// field names.
pub open spec fn params_child(g: GlobalParametersV, nm: Seq<char>) -> Option<ElemV> {
    if nm == "starttime"@ {
        Some(text_el(nm, g.start))
    } else if nm == "endtime"@ {
        Some(text_el(nm, g.end))
    } else if nm == "rate"@ {
        Some(text_el(nm, g.rate))
    } else if nm == "c"@ {
        Some(text_el(nm, g.c))
    } else if nm == "simSamplingRate"@ {
        match g.simSamplingRate {
            Some(t) => Some(text_el(nm, t)),
            None => None,
        }
    } else if nm == "randomseed"@ {
        match g.random_seed {
            Some(v) => Some(text_el(nm, dec_digits(v as nat))),
            None => None,
        }
    } else if nm == "adc_bits"@ {
        Some(text_el(nm, dec_int(g.adc_bits as int)))
    } else if nm == "oversample"@ {
        Some(text_el(nm, dec_int(g.oversample_ratio as int)))
    } else {
        Some(
            ElemV {
                name: "export"@,
                attrs: seq![
                    AttrV { name: "binary"@, value: bool_text(g.export.binary) },
                    AttrV { name: "csv"@, value: bool_text(g.export.csv) },
                    AttrV { name: "xml"@, value: bool_text(g.export.xml) },
                ],
                children: Seq::empty(),
            },
        )
    }
}

} // verus!

// Platform-level round trips.

use crate::schema::component_nodes;
use crate::schema::lookup_name;
use crate::schema::monostatic_elem;
use crate::schema::motionpath_elem;
use crate::schema::platform_elem;
use crate::schema::position_waypoint_elem;
use crate::schema::pulse_type_text;
use crate::schema::receiver_elem;
use crate::schema::resolve_ref;
use crate::schema::rotation_elem;
use crate::schema::rotation_waypoint_elem;
use crate::schema::target_elem;
use crate::schema::tr_component;
use crate::schema::tr_platform;
use crate::schema::tr_position_waypoint;
use crate::schema::tr_rotation;
use crate::schema::tr_rotation_waypoint;
use crate::schema::transmitter_elem;

verus! {

/// Transforming the element of a well-formed motion waypoint gives it
/// back.
pub proof fn lemma_tr_position_waypoint_round(w: PositionWaypointV, i: int, j: int)
    requires
        position_waypoint_wf(w),
    ensures
        tr_position_waypoint(position_waypoint_elem(w), i, j) == Some(
            PositionWaypointV { id: synth_id2("wp-"@, i, j), ..w },
        ),
{
    lemma_schema_names();
    let e = position_waypoint_elem(w);
    let n0 = NodeV::Elem(text_el("x"@, w.x));
    let n1 = NodeV::Elem(text_el("y"@, w.y));
    let n2 = NodeV::Elem(text_el("altitude"@, w.altitude));
    let n3 = NodeV::Elem(text_el("time"@, w.time));
    let k = Seq::<NodeV>::empty().push(n0).push(n1).push(n2).push(n3);
    assert(e.children =~= k);
    let names4 = seq!["x"@, "y"@, "altitude"@, "time"@];
    assert forall|q: int| 0 <= q < names4.len() implies find_child(e.children, #[trigger] names4[q])
        == Some(
        if names4[q] == "x"@ {
            text_el("x"@, w.x)
        } else if names4[q] == "y"@ {
            text_el("y"@, w.y)
        } else if names4[q] == "altitude"@ {
            text_el("altitude"@, w.altitude)
        } else {
            text_el("time"@, w.time)
        },
    ) by {
        let nm = names4[q];
        assert(q == 0 || q == 1 || q == 2 || q == 3);
        assert(find_child(Seq::<NodeV>::empty(), nm) is None);
        lemma_find_child_push(Seq::<NodeV>::empty(), n0, nm);
        lemma_find_child_push(Seq::<NodeV>::empty().push(n0), n1, nm);
        lemma_find_child_push(Seq::<NodeV>::empty().push(n0).push(n1), n2, nm);
        lemma_find_child_push(Seq::<NodeV>::empty().push(n0).push(n1).push(n2), n3, nm);
    }
}

/// Transforming the motion waypoints of the platform at a position gives
/// them back.
pub proof fn lemma_tr_position_waypoints_round(ws: Seq<PositionWaypointV>, i: int, upto: int)
    requires
        forall|j: int| 0 <= j < ws.len() ==> position_waypoint_wf(#[trigger] ws[j]),
        0 <= upto <= ws.len(),
    ensures
        crate::schema::tr_position_waypoints(
            Seq::new(upto as nat, |j: int| position_waypoint_elem(ws[j])),
            i,
        ) == Some(
            Seq::new(
                upto as nat,
                |j: int| PositionWaypointV { id: synth_id2("wp-"@, i, j), ..ws[j] },
            ),
        ),
    decreases upto,
{
    let els = Seq::new(upto as nat, |j: int| position_waypoint_elem(ws[j]));
    let exp = Seq::new(
        upto as nat,
        |j: int| PositionWaypointV { id: synth_id2("wp-"@, i, j), ..ws[j] },
    );
    if upto == 0 {
        assert(els.len() == 0);
        assert(exp =~= Seq::<PositionWaypointV>::empty());
    } else {
        lemma_tr_position_waypoints_round(ws, i, upto - 1);
        assert(els.drop_last() =~= Seq::new(
            (upto - 1) as nat,
            |j: int| position_waypoint_elem(ws[j]),
        ));
        assert(els.last() == position_waypoint_elem(ws[upto - 1]));
        lemma_tr_position_waypoint_round(ws[upto - 1], i, upto - 1);
        assert(exp =~= Seq::new(
            (upto - 1) as nat,
            |j: int| PositionWaypointV { id: synth_id2("wp-"@, i, j), ..ws[j] },
        ).push(PositionWaypointV { id: synth_id2("wp-"@, i, upto - 1), ..ws[upto - 1] }));
    }
}

/// Transforming the element of a well-formed rotation waypoint gives it
/// back.
pub proof fn lemma_tr_rotation_waypoint_round(w: RotationWaypointV, i: int, j: int)
    requires
        rotation_waypoint_wf(w),
    ensures
        tr_rotation_waypoint(rotation_waypoint_elem(w), i, j) == Some(
            RotationWaypointV { id: synth_id2("rwp-"@, i, j), ..w },
        ),
{
    lemma_schema_names();
    let e = rotation_waypoint_elem(w);
    let n0 = NodeV::Elem(text_el("azimuth"@, w.azimuth));
    let n1 = NodeV::Elem(text_el("elevation"@, w.elevation));
    let n2 = NodeV::Elem(text_el("time"@, w.time));
    let k = Seq::<NodeV>::empty().push(n0).push(n1).push(n2);
    assert(e.children =~= k);
    let names3 = seq!["azimuth"@, "elevation"@, "time"@];
    assert forall|q: int| 0 <= q < names3.len() implies find_child(e.children, #[trigger] names3[q])
        == Some(
        if names3[q] == "azimuth"@ {
            text_el("azimuth"@, w.azimuth)
        } else if names3[q] == "elevation"@ {
            text_el("elevation"@, w.elevation)
        } else {
            text_el("time"@, w.time)
        },
    ) by {
        let nm = names3[q];
        assert(q == 0 || q == 1 || q == 2);
        assert(find_child(Seq::<NodeV>::empty(), nm) is None);
        lemma_find_child_push(Seq::<NodeV>::empty(), n0, nm);
        lemma_find_child_push(Seq::<NodeV>::empty().push(n0), n1, nm);
        lemma_find_child_push(Seq::<NodeV>::empty().push(n0).push(n1), n2, nm);
    }
}

/// Transforming the rotation waypoints of the platform at a position gives
/// them back.
pub proof fn lemma_tr_rotation_waypoints_round(ws: Seq<RotationWaypointV>, i: int, upto: int)
    requires
        forall|j: int| 0 <= j < ws.len() ==> rotation_waypoint_wf(#[trigger] ws[j]),
        0 <= upto <= ws.len(),
    ensures
        crate::schema::tr_rotation_waypoints(
            Seq::new(upto as nat, |j: int| rotation_waypoint_elem(ws[j])),
            i,
        ) == Some(
            Seq::new(
                upto as nat,
                |j: int| RotationWaypointV { id: synth_id2("rwp-"@, i, j), ..ws[j] },
            ),
        ),
    decreases upto,
{
    let els = Seq::new(upto as nat, |j: int| rotation_waypoint_elem(ws[j]));
    let exp = Seq::new(
        upto as nat,
        |j: int| RotationWaypointV { id: synth_id2("rwp-"@, i, j), ..ws[j] },
    );
    if upto == 0 {
        assert(els.len() == 0);
        assert(exp =~= Seq::<RotationWaypointV>::empty());
    } else {
        lemma_tr_rotation_waypoints_round(ws, i, upto - 1);
        assert(els.drop_last() =~= Seq::new(
            (upto - 1) as nat,
            |j: int| rotation_waypoint_elem(ws[j]),
        ));
        assert(els.last() == rotation_waypoint_elem(ws[upto - 1]));
        lemma_tr_rotation_waypoint_round(ws[upto - 1], i, upto - 1);
        assert(exp =~= Seq::new(
            (upto - 1) as nat,
            |j: int| RotationWaypointV { id: synth_id2("rwp-"@, i, j), ..ws[j] },
        ).push(RotationWaypointV { id: synth_id2("rwp-"@, i, upto - 1), ..ws[upto - 1] }));
    }
}

/// The rotation a transformed platform is expected to carry: the same
/// rotation, with fresh waypoint identifiers on a path.
pub open spec fn expected_rotation(r: RotationV, i: int) -> RotationV {
    match r {
        RotationV::Fixed(f) => RotationV::Fixed(f),
        RotationV::Path(p) => RotationV::Path(
            crate::scenario::RotationPathV {
                interpolation: p.interpolation,
                waypoints: Seq::new(
                    p.waypoints.len(),
                    |j: int| RotationWaypointV { id: synth_id2("rwp-"@, i, j), ..p.waypoints[j] },
                ),
            },
        ),
    }
}

/// The component a transformed platform is expected to carry: the same
/// component, with every asset reference re-resolved from the old table's
/// display name through the new one.
pub open spec fn expected_component(
    c: PlatformComponentV,
    table: Seq<(Seq<char>, Seq<char>)>,
    nt: Seq<(Seq<char>, Seq<char>)>,
) -> PlatformComponentV {
    match c {
        PlatformComponentV::NoComponent => PlatformComponentV::NoComponent,
        PlatformComponentV::Monostatic(m) => PlatformComponentV::Monostatic(
            MonostaticV {
                antennaId: lookup_name(nt, resolve_ref(table, m.antennaId)),
                pulseId: lookup_name(nt, resolve_ref(table, m.pulseId)),
                timingId: lookup_name(nt, resolve_ref(table, m.timingId)),
                ..m
            },
        ),
        PlatformComponentV::Transmitter(t) => PlatformComponentV::Transmitter(
            TransmitterV {
                antennaId: lookup_name(nt, resolve_ref(table, t.antennaId)),
                pulseId: lookup_name(nt, resolve_ref(table, t.pulseId)),
                timingId: lookup_name(nt, resolve_ref(table, t.timingId)),
                ..t
            },
        ),
        PlatformComponentV::Receiver(r) => PlatformComponentV::Receiver(
            ReceiverV {
                antennaId: lookup_name(nt, resolve_ref(table, r.antennaId)),
                timingId: lookup_name(nt, resolve_ref(table, r.timingId)),
                ..r
            },
        ),
        PlatformComponentV::Target(t) => PlatformComponentV::Target(t),
    }
}

} // verus!

// Component round trip.

verus! {

/// Transforming the component blocks of a platform element gives the
/// component back, with re-resolved references.
pub proof fn lemma_tr_component_round(
    c: PlatformComponentV,
    table: Seq<(Seq<char>, Seq<char>)>,
    nt: Seq<(Seq<char>, Seq<char>)>,
    e: ElemV,
)
    requires
        component_wf(c),
        find_child(e.children, "monostatic"@) == (match c {
            PlatformComponentV::Monostatic(m) => Some(monostatic_elem(m, table)),
            _ => None::<ElemV>,
        }),
        find_child(e.children, "transmitter"@) == (match c {
            PlatformComponentV::Transmitter(t) => Some(transmitter_elem(t, table)),
            _ => None::<ElemV>,
        }),
        find_child(e.children, "receiver"@) == (match c {
            PlatformComponentV::Receiver(r) => Some(receiver_elem(r, table)),
            _ => None::<ElemV>,
        }),
        find_child(e.children, "target"@) == (match c {
            PlatformComponentV::Target(t) => Some(target_elem(t)),
            _ => None::<ElemV>,
        }),
    ensures
        tr_component(e, nt) == Some(expected_component(c, table, nt)),
{
    lemma_schema_names();
    match c {
        PlatformComponentV::NoComponent => {},
        PlatformComponentV::Monostatic(m) => {
            let ec = monostatic_elem(m, table);
            let a0 = AttrV { name: "name"@, value: m.name };
            let a1 = AttrV { name: "type"@, value: m.radarType };
            let base = Seq::<AttrV>::empty().push(a0).push(a1);
            assert(seq![a0, a1] =~= base);
            let b1 = push_opt_attr(base, "antenna"@, resolve_ref(table, m.antennaId));
            let b2 = push_opt_attr(b1, "pulse"@, resolve_ref(table, m.pulseId));
            let b3 = push_opt_attr(b2, "timing"@, resolve_ref(table, m.timingId));
            let b4 = if m.noDirectPaths {
                b3.push(AttrV { name: "nodirect"@, value: "true"@ })
            } else {
                b3
            };
            let b5 = if m.noPropagationLoss {
                b4.push(AttrV { name: "nopropagationloss"@, value: "true"@ })
            } else {
                b4
            };
            assert(ec.attrs == b5);
            let anames = seq![
                "name"@,
                "type"@,
                "antenna"@,
                "pulse"@,
                "timing"@,
                "nodirect"@,
                "nopropagationloss"@,
            ];
            assert forall|w: int| 0 <= w < anames.len() implies find_attr(
                ec.attrs,
                #[trigger] anames[w],
            ) == (if anames[w] == "name"@ {
                Some(m.name)
            } else if anames[w] == "type"@ {
                Some(m.radarType)
            } else if anames[w] == "antenna"@ {
                resolve_ref(table, m.antennaId)
            } else if anames[w] == "pulse"@ {
                resolve_ref(table, m.pulseId)
            } else if anames[w] == "timing"@ {
                resolve_ref(table, m.timingId)
            } else if anames[w] == "nodirect"@ {
                if m.noDirectPaths {
                    Some("true"@)
                } else {
                    None
                }
            } else {
                if m.noPropagationLoss {
                    Some("true"@)
                } else {
                    None
                }
            }) by {
                let nm = anames[w];
                assert(w == 0 || w == 1 || w == 2 || w == 3 || w == 4 || w == 5 || w == 6);
                assert(find_attr(Seq::<AttrV>::empty(), nm) is None);
                lemma_find_attr_push(Seq::<AttrV>::empty(), a0, nm);
                lemma_find_attr_push(Seq::<AttrV>::empty().push(a0), a1, nm);
                lemma_find_attr_push_opt(base, "antenna"@, resolve_ref(table, m.antennaId), nm);
                lemma_find_attr_push_opt(b1, "pulse"@, resolve_ref(table, m.pulseId), nm);
                lemma_find_attr_push_opt(b2, "timing"@, resolve_ref(table, m.timingId), nm);
                if m.noDirectPaths {
                    lemma_find_attr_push(b3, AttrV { name: "nodirect"@, value: "true"@ }, nm);
                }
                if m.noPropagationLoss {
                    lemma_find_attr_push(
                        b4,
                        AttrV { name: "nopropagationloss"@, value: "true"@ },
                        nm,
                    );
                }
            }
            let n0 = NodeV::Elem(text_el("window_skip"@, m.window_skip));
            let n1 = NodeV::Elem(text_el("window_length"@, m.window_length));
            let n2 = NodeV::Elem(text_el("prf"@, m.prf));
            let kb = Seq::<NodeV>::empty().push(n0).push(n1).push(n2);
            assert(seq![n0, n1, n2] =~= kb);
            let kc = push_opt_text(kb, "noise_temp"@, m.noiseTemperature);
            assert(ec.children == kc);
            let cnames = seq!["window_skip"@, "window_length"@, "prf"@, "noise_temp"@];
            assert forall|w: int| 0 <= w < cnames.len() implies find_child(
                ec.children,
                #[trigger] cnames[w],
            ) == (if cnames[w] == "window_skip"@ {
                Some(text_el("window_skip"@, m.window_skip))
            } else if cnames[w] == "window_length"@ {
                Some(text_el("window_length"@, m.window_length))
            } else if cnames[w] == "prf"@ {
                Some(text_el("prf"@, m.prf))
            } else {
                match m.noiseTemperature {
                    Some(t) => Some(text_el("noise_temp"@, t)),
                    None => None,
                }
            }) by {
                let nm = cnames[w];
                assert(w == 0 || w == 1 || w == 2 || w == 3);
                assert(find_child(Seq::<NodeV>::empty(), nm) is None);
                lemma_find_child_push(Seq::<NodeV>::empty(), n0, nm);
                lemma_find_child_push(Seq::<NodeV>::empty().push(n0), n1, nm);
                lemma_find_child_push(Seq::<NodeV>::empty().push(n0).push(n1), n2, nm);
                lemma_find_child_push_opt(kb, "noise_temp"@, m.noiseTemperature, nm);
            }
            assert(crate::schema::opt_bool_attr(ec.attrs, "nodirect"@) == Some(m.noDirectPaths));
            assert(crate::schema::opt_bool_attr(ec.attrs, "nopropagationloss"@) == Some(
                m.noPropagationLoss,
            ));
            assert(num_child(ec, "window_skip"@) == Some(m.window_skip));
            assert(num_child(ec, "window_length"@) == Some(m.window_length));
            assert(num_child(ec, "prf"@) == Some(m.prf));
            assert(opt_num_child(ec, "noise_temp"@) == Some(m.noiseTemperature));
        },
        PlatformComponentV::Transmitter(t) => {
            let ec = transmitter_elem(t, table);
            let a0 = AttrV { name: "name"@, value: t.name };
            let a1 = AttrV { name: "type"@, value: t.radarType };
            let base = Seq::<AttrV>::empty().push(a0).push(a1);
            assert(seq![a0, a1] =~= base);
            let b1 = push_opt_attr(base, "antenna"@, resolve_ref(table, t.antennaId));
            let b2 = push_opt_attr(b1, "pulse"@, resolve_ref(table, t.pulseId));
            let b3 = push_opt_attr(b2, "timing"@, resolve_ref(table, t.timingId));
            assert(ec.attrs == b3);
            let anames = seq!["name"@, "type"@, "antenna"@, "pulse"@, "timing"@];
            assert forall|w: int| 0 <= w < anames.len() implies find_attr(
                ec.attrs,
                #[trigger] anames[w],
            ) == (if anames[w] == "name"@ {
                Some(t.name)
            } else if anames[w] == "type"@ {
                Some(t.radarType)
            } else if anames[w] == "antenna"@ {
                resolve_ref(table, t.antennaId)
            } else if anames[w] == "pulse"@ {
                resolve_ref(table, t.pulseId)
            } else {
                resolve_ref(table, t.timingId)
            }) by {
                let nm = anames[w];
                assert(w == 0 || w == 1 || w == 2 || w == 3 || w == 4);
                assert(find_attr(Seq::<AttrV>::empty(), nm) is None);
                lemma_find_attr_push(Seq::<AttrV>::empty(), a0, nm);
                lemma_find_attr_push(Seq::<AttrV>::empty().push(a0), a1, nm);
                lemma_find_attr_push_opt(base, "antenna"@, resolve_ref(table, t.antennaId), nm);
                lemma_find_attr_push_opt(b1, "pulse"@, resolve_ref(table, t.pulseId), nm);
                lemma_find_attr_push_opt(b2, "timing"@, resolve_ref(table, t.timingId), nm);
            }
            let n0 = NodeV::Elem(text_el("prf"@, t.prf));
            assert(ec.children =~= Seq::<NodeV>::empty().push(n0));
            assert(find_child(Seq::<NodeV>::empty(), "prf"@) is None);
            lemma_find_child_push(Seq::<NodeV>::empty(), n0, "prf"@);
            assert(num_child(ec, "prf"@) == Some(t.prf));
        },
        PlatformComponentV::Receiver(r) => {
            let ec = receiver_elem(r, table);
            let a0 = AttrV { name: "name"@, value: r.name };
            let base = Seq::<AttrV>::empty().push(a0);
            assert(seq![a0] =~= base);
            let b1 = push_opt_attr(base, "antenna"@, resolve_ref(table, r.antennaId));
            let b2 = push_opt_attr(b1, "timing"@, resolve_ref(table, r.timingId));
            let b3 = if r.noDirectPaths {
                b2.push(AttrV { name: "nodirect"@, value: "true"@ })
            } else {
                b2
            };
            let b4 = if r.noPropagationLoss {
                b3.push(AttrV { name: "nopropagationloss"@, value: "true"@ })
            } else {
                b3
            };
            assert(ec.attrs == b4);
            let anames = seq![
                "name"@,
                "antenna"@,
                "timing"@,
                "nodirect"@,
                "nopropagationloss"@,
            ];
            assert forall|w: int| 0 <= w < anames.len() implies find_attr(
                ec.attrs,
                #[trigger] anames[w],
            ) == (if anames[w] == "name"@ {
                Some(r.name)
            } else if anames[w] == "antenna"@ {
                resolve_ref(table, r.antennaId)
            } else if anames[w] == "timing"@ {
                resolve_ref(table, r.timingId)
            } else if anames[w] == "nodirect"@ {
                if r.noDirectPaths {
                    Some("true"@)
                } else {
                    None
                }
            } else {
                if r.noPropagationLoss {
                    Some("true"@)
                } else {
                    None
                }
            }) by {
                let nm = anames[w];
                assert(w == 0 || w == 1 || w == 2 || w == 3 || w == 4);
                assert(find_attr(Seq::<AttrV>::empty(), nm) is None);
                lemma_find_attr_push(Seq::<AttrV>::empty(), a0, nm);
                lemma_find_attr_push_opt(base, "antenna"@, resolve_ref(table, r.antennaId), nm);
                lemma_find_attr_push_opt(b1, "timing"@, resolve_ref(table, r.timingId), nm);
                if r.noDirectPaths {
                    lemma_find_attr_push(b2, AttrV { name: "nodirect"@, value: "true"@ }, nm);
                }
                if r.noPropagationLoss {
                    lemma_find_attr_push(
                        b3,
                        AttrV { name: "nopropagationloss"@, value: "true"@ },
                        nm,
                    );
                }
            }
            let n0 = NodeV::Elem(text_el("window_skip"@, r.window_skip));
            let n1 = NodeV::Elem(text_el("window_length"@, r.window_length));
            let n2 = NodeV::Elem(text_el("prf"@, r.prf));
            let kb = Seq::<NodeV>::empty().push(n0).push(n1).push(n2);
            assert(seq![n0, n1, n2] =~= kb);
            let kc = push_opt_text(kb, "noise_temp"@, r.noiseTemperature);
            assert(ec.children == kc);
            let cnames = seq!["window_skip"@, "window_length"@, "prf"@, "noise_temp"@];
            assert forall|w: int| 0 <= w < cnames.len() implies find_child(
                ec.children,
                #[trigger] cnames[w],
            ) == (if cnames[w] == "window_skip"@ {
                Some(text_el("window_skip"@, r.window_skip))
            } else if cnames[w] == "window_length"@ {
                Some(text_el("window_length"@, r.window_length))
            } else if cnames[w] == "prf"@ {
                Some(text_el("prf"@, r.prf))
            } else {
                match r.noiseTemperature {
                    Some(t) => Some(text_el("noise_temp"@, t)),
                    None => None,
                }
            }) by {
                let nm = cnames[w];
                assert(w == 0 || w == 1 || w == 2 || w == 3);
                assert(find_child(Seq::<NodeV>::empty(), nm) is None);
                lemma_find_child_push(Seq::<NodeV>::empty(), n0, nm);
                lemma_find_child_push(Seq::<NodeV>::empty().push(n0), n1, nm);
                lemma_find_child_push(Seq::<NodeV>::empty().push(n0).push(n1), n2, nm);
                lemma_find_child_push_opt(kb, "noise_temp"@, r.noiseTemperature, nm);
            }
            assert(crate::schema::opt_bool_attr(ec.attrs, "nodirect"@) == Some(r.noDirectPaths));
            assert(crate::schema::opt_bool_attr(ec.attrs, "nopropagationloss"@) == Some(
                r.noPropagationLoss,
            ));
            assert(num_child(ec, "window_skip"@) == Some(r.window_skip));
            assert(num_child(ec, "window_length"@) == Some(r.window_length));
            assert(num_child(ec, "prf"@) == Some(r.prf));
            assert(opt_num_child(ec, "noise_temp"@) == Some(r.noiseTemperature));
        },
        PlatformComponentV::Target(t) => {
            let ec = target_elem(t);
            let ta = AttrV { name: "name"@, value: t.name };
            assert(ec.attrs =~= Seq::<AttrV>::empty().push(ta));
            assert(find_attr(Seq::<AttrV>::empty(), "name"@) is None);
            lemma_find_attr_push(Seq::<AttrV>::empty(), ta, "name"@);
            assert(find_attr(ec.attrs, "name"@) == Some(t.name));
            let r0 = AttrV { name: "type"@, value: t.rcs_type };
            let rbase = Seq::<AttrV>::empty().push(r0);
            assert(seq![r0] =~= rbase);
            let rcs = ElemV {
                name: "rcs"@,
                attrs: push_opt_attr(rbase, "filename"@, t.rcs_filename),
                children: push_opt_text(Seq::empty(), "value"@, t.rcs_value),
            };
            assert(find_attr(Seq::<AttrV>::empty(), "type"@) is None);
            lemma_find_attr_push(Seq::<AttrV>::empty(), r0, "type"@);
            lemma_find_attr_push_opt(rbase, "filename"@, t.rcs_filename, "type"@);
            assert(find_attr(rcs.attrs, "type"@) == Some(t.rcs_type));
            assert(find_attr(Seq::<AttrV>::empty(), "filename"@) is None);
            lemma_find_attr_push(Seq::<AttrV>::empty(), r0, "filename"@);
            lemma_find_attr_push_opt(rbase, "filename"@, t.rcs_filename, "filename"@);
            assert(find_attr(rcs.attrs, "filename"@) == t.rcs_filename);
            assert(find_child(Seq::<NodeV>::empty(), "value"@) is None);
            lemma_find_child_push_opt(Seq::empty(), "value"@, t.rcs_value, "value"@);
            assert(opt_num_child(rcs, "value"@) == Some(t.rcs_value));
            let kids0 = Seq::<NodeV>::empty().push(NodeV::Elem(rcs));
            assert(seq![NodeV::Elem(rcs)] =~= kids0);
            if t.rcs_model != "constant"@ {
                let model = ElemV {
                    name: "model"@,
                    attrs: seq![AttrV { name: "type"@, value: t.rcs_model }],
                    children: push_opt_text(Seq::empty(), "k"@, t.rcs_k),
                };
                let kids1 = kids0.push(NodeV::Elem(model));
                assert(ec.children == kids1);
                assert(find_child(Seq::<NodeV>::empty(), "rcs"@) is None);
                lemma_find_child_push(Seq::<NodeV>::empty(), NodeV::Elem(rcs), "rcs"@);
                lemma_find_child_push(kids0, NodeV::Elem(model), "rcs"@);
                assert(find_child(ec.children, "rcs"@) == Some(rcs));
                assert(find_child(Seq::<NodeV>::empty(), "model"@) is None);
                lemma_find_child_push(Seq::<NodeV>::empty(), NodeV::Elem(rcs), "model"@);
                lemma_find_child_push(kids0, NodeV::Elem(model), "model"@);
                assert(find_child(ec.children, "model"@) == Some(model));
                let m0 = AttrV { name: "type"@, value: t.rcs_model };
                assert(model.attrs =~= Seq::<AttrV>::empty().push(m0));
                lemma_find_attr_push(Seq::<AttrV>::empty(), m0, "type"@);
                assert(find_attr(model.attrs, "type"@) == Some(t.rcs_model));
                assert(find_child(Seq::<NodeV>::empty(), "k"@) is None);
                lemma_find_child_push_opt(Seq::empty(), "k"@, t.rcs_k, "k"@);
                assert(opt_num_child(model, "k"@) == Some(t.rcs_k));
            } else {
                assert(ec.children == kids0);
                assert(find_child(Seq::<NodeV>::empty(), "rcs"@) is None);
                lemma_find_child_push(Seq::<NodeV>::empty(), NodeV::Elem(rcs), "rcs"@);
                assert(find_child(ec.children, "rcs"@) == Some(rcs));
                lemma_find_child_push(Seq::<NodeV>::empty(), NodeV::Elem(rcs), "model"@);
                assert(find_child(ec.children, "model"@) is None);
            }
        },
    }
}

} // verus!

// Platform round trip and the whole-scenario theorem.

use crate::scenario::MotionPathV;
use crate::schema::ntable_of;
use crate::schema::scenario_tree;
use crate::schema::table_of;
use crate::schema::tr_antennas;
use crate::schema::tr_platforms;
use crate::schema::tr_pulses;
use crate::schema::tr_timings;
use crate::schema::tree_scenario;

verus! {

/// The platform a transformed platform element is expected to map to.
pub open spec fn expected_platform(
    p: PlatformV,
    i: int,
    table: Seq<(Seq<char>, Seq<char>)>,
    nt: Seq<(Seq<char>, Seq<char>)>,
) -> PlatformV {
    PlatformV {
        id: synth_id("platform-"@, i),
        type_tag: "Platform"@,
        name: p.name,
        motionPath: MotionPathV {
            interpolation: p.motionPath.interpolation,
            waypoints: Seq::new(
                p.motionPath.waypoints.len(),
                |j: int| PositionWaypointV {
                    id: synth_id2("wp-"@, i, j),
                    ..p.motionPath.waypoints[j]
                },
            ),
        },
        rotation: expected_rotation(p.rotation, i),
        component: expected_component(p.component, table, nt),
    }
}

/// Transforming the element of a well-formed platform gives the platform
/// back, with fresh identifiers and re-resolved references.
pub proof fn lemma_tr_platform_round(
    p: PlatformV,
    i: int,
    table: Seq<(Seq<char>, Seq<char>)>,
    nt: Seq<(Seq<char>, Seq<char>)>,
)
    requires
        platform_wf(p),
    ensures
        tr_platform(platform_elem(p, table), i, nt) == Some(expected_platform(p, i, table, nt)),
{
    lemma_schema_names();
    let e = platform_elem(p, table);
    let pa = AttrV { name: "name"@, value: p.name };
    assert(e.attrs =~= Seq::<AttrV>::empty().push(pa));
    assert(find_attr(Seq::<AttrV>::empty(), "name"@) is None);
    lemma_find_attr_push(Seq::<AttrV>::empty(), pa, "name"@);
    assert(find_attr(e.attrs, "name"@) == Some(p.name));
    let mpn = NodeV::Elem(motionpath_elem(p));
    let rotn = NodeV::Elem(rotation_elem(p.rotation));
    let head = Seq::<NodeV>::empty().push(mpn).push(rotn);
    assert(seq![mpn, rotn] =~= head);
    let comp = component_nodes(p.component, table);
    assert(e.children == seq![mpn, rotn] + comp);
    assert(e.children =~= head + comp);
    let pnames = seq![
        "motionpath"@,
        "fixedrotation"@,
        "rotationpath"@,
        "monostatic"@,
        "transmitter"@,
        "receiver"@,
        "target"@,
    ];
    assert forall|w: int| 0 <= w < pnames.len() implies find_child(
        e.children,
        #[trigger] pnames[w],
    ) == platform_child(p, table, pnames[w]) by {
        let nm = pnames[w];
        assert(w == 0 || w == 1 || w == 2 || w == 3 || w == 4 || w == 5 || w == 6);
        lemma_find_child_concat(head, comp, nm);
        assert(find_child(Seq::<NodeV>::empty(), nm) is None);
        lemma_find_child_push(Seq::<NodeV>::empty(), mpn, nm);
        lemma_find_child_push(Seq::<NodeV>::empty().push(mpn), rotn, nm);
        match p.component {
            PlatformComponentV::NoComponent => {
                assert(comp =~= Seq::<NodeV>::empty());
            },
            PlatformComponentV::Monostatic(m) => {
                let cn = NodeV::Elem(monostatic_elem(m, table));
                assert(comp =~= Seq::<NodeV>::empty().push(cn));
                lemma_find_child_push(Seq::<NodeV>::empty(), cn, nm);
            },
            PlatformComponentV::Transmitter(t) => {
                let cn = NodeV::Elem(transmitter_elem(t, table));
                assert(comp =~= Seq::<NodeV>::empty().push(cn));
                lemma_find_child_push(Seq::<NodeV>::empty(), cn, nm);
            },
            PlatformComponentV::Receiver(r) => {
                let cn = NodeV::Elem(receiver_elem(r, table));
                assert(comp =~= Seq::<NodeV>::empty().push(cn));
                lemma_find_child_push(Seq::<NodeV>::empty(), cn, nm);
            },
            PlatformComponentV::Target(t) => {
                let cn = NodeV::Elem(target_elem(t));
                assert(comp =~= Seq::<NodeV>::empty().push(cn));
                lemma_find_child_push(Seq::<NodeV>::empty(), cn, nm);
            },
        }
    }
    // Motion path.
    let mp = motionpath_elem(p);
    let ia = AttrV { name: "interpolation"@, value: p.motionPath.interpolation };
    assert(mp.attrs =~= Seq::<AttrV>::empty().push(ia));
    assert(find_attr(Seq::<AttrV>::empty(), "interpolation"@) is None);
    lemma_find_attr_push(Seq::<AttrV>::empty(), ia, "interpolation"@);
    assert(find_attr(mp.attrs, "interpolation"@) == Some(p.motionPath.interpolation));
    let wnodes = Seq::new(
        p.motionPath.waypoints.len(),
        |j: int| NodeV::Elem(position_waypoint_elem(p.motionPath.waypoints[j])),
    );
    assert(mp.children == wnodes);
    assert forall|q: int| 0 <= q < wnodes.len() implies #[trigger] wnodes[q] is Elem && elem_of(
        wnodes[q],
    ).name == "positionwaypoint"@ by {}
    lemma_elems_named_all(wnodes, "positionwaypoint"@);
    assert(elems_named(mp.children, "positionwaypoint"@) =~= Seq::new(
        p.motionPath.waypoints.len(),
        |j: int| position_waypoint_elem(p.motionPath.waypoints[j]),
    ));
    lemma_tr_position_waypoints_round(
        p.motionPath.waypoints,
        i,
        p.motionPath.waypoints.len() as int,
    );
    // Rotation.
    match p.rotation {
        RotationV::Fixed(f) => {
            let fe = rotation_elem(p.rotation);
            let f0 = NodeV::Elem(text_el("startazimuth"@, f.startAzimuth));
            let f1 = NodeV::Elem(text_el("startelevation"@, f.startElevation));
            let f2 = NodeV::Elem(text_el("azimuthrate"@, f.azimuthRate));
            let f3 = NodeV::Elem(text_el("elevationrate"@, f.elevationRate));
            let fk = Seq::<NodeV>::empty().push(f0).push(f1).push(f2).push(f3);
            assert(fe.children =~= fk);
            let fnames = seq![
                "startazimuth"@,
                "startelevation"@,
                "azimuthrate"@,
                "elevationrate"@,
            ];
            assert forall|q: int| 0 <= q < fnames.len() implies find_child(
                fe.children,
                #[trigger] fnames[q],
            ) == Some(
                if fnames[q] == "startazimuth"@ {
                    text_el("startazimuth"@, f.startAzimuth)
                } else if fnames[q] == "startelevation"@ {
                    text_el("startelevation"@, f.startElevation)
                } else if fnames[q] == "azimuthrate"@ {
                    text_el("azimuthrate"@, f.azimuthRate)
                } else {
                    text_el("elevationrate"@, f.elevationRate)
                },
            ) by {
                let nm = fnames[q];
                assert(q == 0 || q == 1 || q == 2 || q == 3);
                assert(find_child(Seq::<NodeV>::empty(), nm) is None);
                lemma_find_child_push(Seq::<NodeV>::empty(), f0, nm);
                lemma_find_child_push(Seq::<NodeV>::empty().push(f0), f1, nm);
                lemma_find_child_push(Seq::<NodeV>::empty().push(f0).push(f1), f2, nm);
                lemma_find_child_push(Seq::<NodeV>::empty().push(f0).push(f1).push(f2), f3, nm);
            }
            assert(num_child(fe, "startazimuth"@) == Some(f.startAzimuth));
            assert(num_child(fe, "startelevation"@) == Some(f.startElevation));
            assert(num_child(fe, "azimuthrate"@) == Some(f.azimuthRate));
            assert(num_child(fe, "elevationrate"@) == Some(f.elevationRate));
            assert(tr_rotation(e, i) == Some(expected_rotation(p.rotation, i)));
        },
        RotationV::Path(rp) => {
            let re = rotation_elem(p.rotation);
            let ra = AttrV { name: "interpolation"@, value: rp.interpolation };
            assert(re.attrs =~= Seq::<AttrV>::empty().push(ra));
            lemma_find_attr_push(Seq::<AttrV>::empty(), ra, "interpolation"@);
            assert(find_attr(re.attrs, "interpolation"@) == Some(rp.interpolation));
            let rnodes = Seq::new(
                rp.waypoints.len(),
                |j: int| NodeV::Elem(rotation_waypoint_elem(rp.waypoints[j])),
            );
            assert(re.children == rnodes);
            assert forall|q: int| 0 <= q < rnodes.len() implies #[trigger] rnodes[q] is Elem
                && elem_of(rnodes[q]).name == "rotationwaypoint"@ by {}
            lemma_elems_named_all(rnodes, "rotationwaypoint"@);
            assert(elems_named(re.children, "rotationwaypoint"@) =~= Seq::new(
                rp.waypoints.len(),
                |j: int| rotation_waypoint_elem(rp.waypoints[j]),
            ));
            lemma_tr_rotation_waypoints_round(rp.waypoints, i, rp.waypoints.len() as int);
            assert(tr_rotation(e, i) == Some(expected_rotation(p.rotation, i)));
        },
    }
    // Component.
    lemma_tr_component_round(p.component, table, nt, e);
    assert(tr_platform(e, i, nt) == Some(expected_platform(p, i, table, nt)));
}

/// The child element a platform element holds for each relevant name.
pub open spec fn platform_child(
    p: PlatformV,
    table: Seq<(Seq<char>, Seq<char>)>,
    nm: Seq<char>,
) -> Option<ElemV> {
    if nm == "motionpath"@ {
        Some(motionpath_elem(p))
    } else if nm == "fixedrotation"@ {
        match p.rotation {
            RotationV::Fixed(_) => Some(rotation_elem(p.rotation)),
            RotationV::Path(_) => None,
        }
    } else if nm == "rotationpath"@ {
        match p.rotation {
            RotationV::Fixed(_) => None,
            RotationV::Path(_) => Some(rotation_elem(p.rotation)),
        }
    } else if nm == "monostatic"@ {
        match p.component {
            PlatformComponentV::Monostatic(m) => Some(monostatic_elem(m, table)),
            _ => None,
        }
    } else if nm == "transmitter"@ {
        match p.component {
            PlatformComponentV::Transmitter(t) => Some(transmitter_elem(t, table)),
            _ => None,
        }
    } else if nm == "receiver"@ {
        match p.component {
            PlatformComponentV::Receiver(r) => Some(receiver_elem(r, table)),
            _ => None,
        }
    } else {
        match p.component {
            PlatformComponentV::Target(t) => Some(target_elem(t)),
            _ => None,
        }
    }
}

} // verus!

// List round trips and the main theorem.

verus! {

/// Transforming the pulse elements of a well-formed scenario gives the
/// pulses back.
pub proof fn lemma_tr_pulses_round(ps: Seq<PulseV>, upto: int)
    requires
        forall|i: int| 0 <= i < ps.len() ==> pulse_wf(#[trigger] ps[i]),
        0 <= upto <= ps.len(),
    ensures
        tr_pulses(Seq::new(upto as nat, |i: int| pulse_elem(ps[i]))) == Some(
            Seq::new(upto as nat, |i: int| PulseV { id: synth_id("pulse-"@, i), ..ps[i] }),
        ),
    decreases upto,
{
    let els = Seq::new(upto as nat, |i: int| pulse_elem(ps[i]));
    let exp = Seq::new(upto as nat, |i: int| PulseV { id: synth_id("pulse-"@, i), ..ps[i] });
    if upto == 0 {
        assert(els.len() == 0);
        assert(exp =~= Seq::<PulseV>::empty());
    } else {
        lemma_tr_pulses_round(ps, upto - 1);
        assert(els.drop_last() =~= Seq::new((upto - 1) as nat, |i: int| pulse_elem(ps[i])));
        assert(els.last() == pulse_elem(ps[upto - 1]));
        lemma_tr_pulse_round(ps[upto - 1], upto - 1);
        assert(exp =~= Seq::new(
            (upto - 1) as nat,
            |i: int| PulseV { id: synth_id("pulse-"@, i), ..ps[i] },
        ).push(PulseV { id: synth_id("pulse-"@, upto - 1), ..ps[upto - 1] }));
    }
}

/// Transforming the timing elements of a well-formed scenario gives the
/// timings back.
pub proof fn lemma_tr_timings_round(ts: Seq<TimingV>, upto: int)
    requires
        forall|i: int| 0 <= i < ts.len() ==> timing_wf(#[trigger] ts[i]),
        0 <= upto <= ts.len(),
    ensures
        tr_timings(Seq::new(upto as nat, |i: int| timing_elem(ts[i]))) == Some(
            Seq::new(
                upto as nat,
                |i: int| TimingV {
                    id: synth_id("timing-"@, i),
                    noiseEntries: Seq::new(
                        ts[i].noiseEntries.len(),
                        |j: int| NoiseEntryV {
                            id: synth_id2("noise-"@, i, j),
                            ..ts[i].noiseEntries[j]
                        },
                    ),
                    ..ts[i]
                },
            ),
        ),
    decreases upto,
{
    let els = Seq::new(upto as nat, |i: int| timing_elem(ts[i]));
    let exp = Seq::new(
        upto as nat,
        |i: int| TimingV {
            id: synth_id("timing-"@, i),
            noiseEntries: Seq::new(
                ts[i].noiseEntries.len(),
                |j: int| NoiseEntryV { id: synth_id2("noise-"@, i, j), ..ts[i].noiseEntries[j] },
            ),
            ..ts[i]
        },
    );
    if upto == 0 {
        assert(els.len() == 0);
        assert(exp =~= Seq::<TimingV>::empty());
    } else {
        lemma_tr_timings_round(ts, upto - 1);
        assert(els.drop_last() =~= Seq::new((upto - 1) as nat, |i: int| timing_elem(ts[i])));
        assert(els.last() == timing_elem(ts[upto - 1]));
        lemma_tr_timing_round(ts[upto - 1], upto - 1);
        assert(exp =~= exp.subrange(0, upto - 1).push(exp[upto - 1]));
        assert(exp.subrange(0, upto - 1) =~= Seq::new(
            (upto - 1) as nat,
            |i: int| TimingV {
                id: synth_id("timing-"@, i),
                noiseEntries: Seq::new(
                    ts[i].noiseEntries.len(),
                    |j: int| NoiseEntryV {
                        id: synth_id2("noise-"@, i, j),
                        ..ts[i].noiseEntries[j]
                    },
                ),
                ..ts[i]
            },
        ));
    }
}

/// Transforming the antenna elements of a well-formed scenario gives the
/// antennas back.
pub proof fn lemma_tr_antennas_round(avs: Seq<AntennaV>, upto: int)
    requires
        forall|i: int| 0 <= i < avs.len() ==> antenna_wf(#[trigger] avs[i]),
        0 <= upto <= avs.len(),
    ensures
        tr_antennas(Seq::new(upto as nat, |i: int| antenna_elem(avs[i]))) == Some(
            Seq::new(upto as nat, |i: int| AntennaV { id: synth_id("antenna-"@, i), ..avs[i] }),
        ),
    decreases upto,
{
    let els = Seq::new(upto as nat, |i: int| antenna_elem(avs[i]));
    let exp = Seq::new(upto as nat, |i: int| AntennaV { id: synth_id("antenna-"@, i), ..avs[i] });
    if upto == 0 {
        assert(els.len() == 0);
        assert(exp =~= Seq::<AntennaV>::empty());
    } else {
        lemma_tr_antennas_round(avs, upto - 1);
        assert(els.drop_last() =~= Seq::new((upto - 1) as nat, |i: int| antenna_elem(avs[i])));
        assert(els.last() == antenna_elem(avs[upto - 1]));
        lemma_tr_antenna_round(avs[upto - 1], upto - 1);
        assert(exp =~= Seq::new(
            (upto - 1) as nat,
            |i: int| AntennaV { id: synth_id("antenna-"@, i), ..avs[i] },
        ).push(AntennaV { id: synth_id("antenna-"@, upto - 1), ..avs[upto - 1] }));
    }
}

/// Transforming the platform elements of a well-formed scenario gives the
/// platforms back.
pub proof fn lemma_tr_platforms_round(
    pls: Seq<PlatformV>,
    upto: int,
    table: Seq<(Seq<char>, Seq<char>)>,
    nt: Seq<(Seq<char>, Seq<char>)>,
)
    requires
        forall|i: int| 0 <= i < pls.len() ==> platform_wf(#[trigger] pls[i]),
        0 <= upto <= pls.len(),
    ensures
        tr_platforms(Seq::new(upto as nat, |i: int| platform_elem(pls[i], table)), nt) == Some(
            Seq::new(upto as nat, |i: int| expected_platform(pls[i], i, table, nt)),
        ),
    decreases upto,
{
    let els = Seq::new(upto as nat, |i: int| platform_elem(pls[i], table));
    let exp = Seq::new(upto as nat, |i: int| expected_platform(pls[i], i, table, nt));
    if upto == 0 {
        assert(els.len() == 0);
        assert(exp =~= Seq::<PlatformV>::empty());
    } else {
        lemma_tr_platforms_round(pls, upto - 1, table, nt);
        assert(els.drop_last() =~= Seq::new(
            (upto - 1) as nat,
            |i: int| platform_elem(pls[i], table),
        ));
        assert(els.last() == platform_elem(pls[upto - 1], table));
        lemma_tr_platform_round(pls[upto - 1], upto - 1, table, nt);
        assert(exp =~= Seq::new(
            (upto - 1) as nat,
            |i: int| expected_platform(pls[i], i, table, nt),
        ).push(expected_platform(pls[upto - 1], upto - 1, table, nt)));
    }
}

/// The scenario a round trip through the document tree is expected to
/// yield: the same scenario with fresh identifiers and re-resolved
/// references.
pub open spec fn expected_scenario(g: ScenarioV) -> ScenarioV {
    let pulses = Seq::new(
        g.pulses.len(),
        |i: int| PulseV { id: synth_id("pulse-"@, i), ..g.pulses[i] },
    );
    let timings = Seq::new(
        g.timings.len(),
        |i: int| TimingV {
            id: synth_id("timing-"@, i),
            noiseEntries: Seq::new(
                g.timings[i].noiseEntries.len(),
                |j: int| NoiseEntryV {
                    id: synth_id2("noise-"@, i, j),
                    ..g.timings[i].noiseEntries[j]
                },
            ),
            ..g.timings[i]
        },
    );
    let antennas = Seq::new(
        g.antennas.len(),
        |i: int| AntennaV { id: synth_id("antenna-"@, i), ..g.antennas[i] },
    );
    let nt = ntable_of(pulses, timings, antennas);
    ScenarioV {
        globalParameters: g.globalParameters,
        pulses,
        timings,
        antennas,
        platforms: Seq::new(
            g.platforms.len(),
            |i: int| expected_platform(g.platforms[i], i, table_of(g), nt),
        ),
    }
}

/// Round trip of a whole well-formed scenario through its document tree:
/// transforming the tree the scenario maps to succeeds and yields the same
/// scenario, except that identifiers are synthesized afresh and asset
/// references are re-resolved through the display names they stood for.
#[verifier::rlimit(100)]
pub proof fn lemma_scenario_round_trip(g: ScenarioV)
    requires
        scenario_wf(g),
    ensures
        tree_scenario(scenario_tree(g)) == Some(expected_scenario(g)),
{
    lemma_schema_names();
    let e = scenario_tree(g);
    let sa = AttrV { name: "name"@, value: g.globalParameters.simulation_name };
    assert(e.attrs =~= Seq::<AttrV>::empty().push(sa));
    assert(find_attr(Seq::<AttrV>::empty(), "name"@) is None);
    lemma_find_attr_push(Seq::<AttrV>::empty(), sa, "name"@);
    assert(find_attr(e.attrs, "name"@) == Some(g.globalParameters.simulation_name));
    let table = table_of(g);
    let head = seq![NodeV::Elem(params_elem(g.globalParameters))];
    let k1 = Seq::new(g.pulses.len(), |i: int| NodeV::Elem(pulse_elem(g.pulses[i])));
    let k2 = Seq::new(g.timings.len(), |i: int| NodeV::Elem(timing_elem(g.timings[i])));
    let k3 = Seq::new(g.antennas.len(), |i: int| NodeV::Elem(antenna_elem(g.antennas[i])));
    let k4 = Seq::new(g.platforms.len(), |i: int| NodeV::Elem(platform_elem(g.platforms[i], table)));
    assert(e.children == head + k1 + k2 + k3 + k4);
    // The parameters block is the first child; no asset is named like it.
    assert(head =~= Seq::<NodeV>::empty().push(head[0]));
    lemma_find_child_concat(head, k1 + k2 + k3 + k4, "parameters"@);
    assert((head + k1 + k2 + k3 + k4) =~= head + (k1 + k2 + k3 + k4));
    assert(find_child(Seq::<NodeV>::empty(), "parameters"@) is None);
    lemma_find_child_push(Seq::<NodeV>::empty(), head[0], "parameters"@);
    assert(find_child(e.children, "parameters"@) == Some(params_elem(g.globalParameters)));
    lemma_tr_params_round(g.globalParameters);
    // Collect each asset list.
    let names4 = seq!["pulse"@, "timing"@, "antenna"@, "platform"@];
    assert forall|w: int| 0 <= w < names4.len() implies elems_named(
        e.children,
        #[trigger] names4[w],
    ) == (if names4[w] == "pulse"@ {
        Seq::new(g.pulses.len(), |i: int| pulse_elem(g.pulses[i]))
    } else if names4[w] == "timing"@ {
        Seq::new(g.timings.len(), |i: int| timing_elem(g.timings[i]))
    } else if names4[w] == "antenna"@ {
        Seq::new(g.antennas.len(), |i: int| antenna_elem(g.antennas[i]))
    } else {
        Seq::new(g.platforms.len(), |i: int| platform_elem(g.platforms[i], table))
    }) by {
        let nm = names4[w];
        assert(w == 0 || w == 1 || w == 2 || w == 3);
        assert(k2 + k3 + k4 =~= k2 + (k3 + k4));
        assert(k1 + k2 + k3 + k4 =~= k1 + (k2 + (k3 + k4)));
        assert(e.children =~= head + (k1 + (k2 + (k3 + k4))));
        lemma_elems_named_concat(head, k1 + (k2 + (k3 + k4)), nm);
        lemma_elems_named_concat(k1, k2 + (k3 + k4), nm);
        lemma_elems_named_concat(k2, k3 + k4, nm);
        lemma_elems_named_concat(k3, k4, nm);
        assert(forall|q: int|
            0 <= q < head.len() ==> #[trigger] head[q] is Elem && elem_of(head[q]).name
                == "parameters"@);
        lemma_elems_named_none(head, nm);
        if nm == "pulse"@ {
            lemma_elems_named_all(k1, nm);
            lemma_elems_named_none(k2, nm);
            lemma_elems_named_none(k3, nm);
            lemma_elems_named_none(k4, nm);
            assert(elems_named(e.children, nm) =~= Seq::new(
                g.pulses.len(),
                |i: int| pulse_elem(g.pulses[i]),
            ));
        } else if nm == "timing"@ {
            lemma_elems_named_none(k1, nm);
            lemma_elems_named_all(k2, nm);
            lemma_elems_named_none(k3, nm);
            lemma_elems_named_none(k4, nm);
            assert(elems_named(e.children, nm) =~= Seq::new(
                g.timings.len(),
                |i: int| timing_elem(g.timings[i]),
            ));
        } else if nm == "antenna"@ {
            lemma_elems_named_none(k1, nm);
            lemma_elems_named_none(k2, nm);
            lemma_elems_named_all(k3, nm);
            lemma_elems_named_none(k4, nm);
            assert(elems_named(e.children, nm) =~= Seq::new(
                g.antennas.len(),
                |i: int| antenna_elem(g.antennas[i]),
            ));
        } else {
            lemma_elems_named_none(k1, nm);
            lemma_elems_named_none(k2, nm);
            lemma_elems_named_none(k3, nm);
            lemma_elems_named_all(k4, nm);
            assert(elems_named(e.children, nm) =~= Seq::new(
                g.platforms.len(),
                |i: int| platform_elem(g.platforms[i], table),
            ));
        }
    }
    lemma_tr_pulses_round(g.pulses, g.pulses.len() as int);
    lemma_tr_timings_round(g.timings, g.timings.len() as int);
    lemma_tr_antennas_round(g.antennas, g.antennas.len() as int);
    let pulses2 = Seq::new(
        g.pulses.len(),
        |i: int| PulseV { id: synth_id("pulse-"@, i), ..g.pulses[i] },
    );
    let timings2 = Seq::new(
        g.timings.len(),
        |i: int| TimingV {
            id: synth_id("timing-"@, i),
            noiseEntries: Seq::new(
                g.timings[i].noiseEntries.len(),
                |j: int| NoiseEntryV {
                    id: synth_id2("noise-"@, i, j),
                    ..g.timings[i].noiseEntries[j]
                },
            ),
            ..g.timings[i]
        },
    );
    let antennas2 = Seq::new(
        g.antennas.len(),
        |i: int| AntennaV { id: synth_id("antenna-"@, i), ..g.antennas[i] },
    );
    let nt = ntable_of(pulses2, timings2, antennas2);
    lemma_tr_platforms_round(g.platforms, g.platforms.len() as int, table, nt);
    assert(tree_scenario(e) == Some(expected_scenario(g)));
}

} // verus!

// Individual laws: omission of absent optional fields, reference
// resolution, and exhaustiveness of the component variants.

verus! {

/// An absent optional field never appears in the document: the pulse
/// filename attribute, the optional sampling rate and seed of the
/// parameters block, and the optional noise temperature of a receiver are
/// rendered exactly when they are present.
pub proof fn lemma_optional_field_omission(
    p: PulseV,
    g: GlobalParametersV,
    r: ReceiverV,
    table: Seq<(Seq<char>, Seq<char>)>,
)
    ensures
        find_attr(pulse_elem(p).attrs, "filename"@) == p.filename,
        find_child(params_elem(g).children, "simSamplingRate"@) is Some <==> g.simSamplingRate
            is Some,
        find_child(params_elem(g).children, "randomseed"@) is Some <==> g.random_seed is Some,
        find_child(receiver_elem(r, table).children, "noise_temp"@) is Some
            <==> r.noiseTemperature is Some,
{
    lemma_schema_names();
    let a0 = AttrV { name: "name"@, value: p.name };
    let a1 = AttrV { name: "type"@, value: pulse_type_text(p.pulseType) };
    let base = Seq::<AttrV>::empty().push(a0).push(a1);
    assert(seq![a0, a1] =~= base);
    assert(find_attr(Seq::<AttrV>::empty(), "filename"@) is None);
    lemma_find_attr_push(Seq::<AttrV>::empty(), a0, "filename"@);
    lemma_find_attr_push(Seq::<AttrV>::empty().push(a0), a1, "filename"@);
    lemma_find_attr_push_opt(base, "filename"@, p.filename, "filename"@);
    let n0 = NodeV::Elem(text_el("starttime"@, g.start));
    let n1 = NodeV::Elem(text_el("endtime"@, g.end));
    let n2 = NodeV::Elem(text_el("rate"@, g.rate));
    let n3 = NodeV::Elem(text_el("c"@, g.c));
    let k0 = Seq::<NodeV>::empty().push(n0).push(n1).push(n2).push(n3);
    assert(seq![n0, n1, n2, n3] =~= k0);
    let k1 = push_opt_text(k0, "simSamplingRate"@, g.simSamplingRate);
    let k2 = match g.random_seed {
        Some(v) => k1.push(NodeV::Elem(text_el("randomseed"@, dec_digits(v as nat)))),
        None => k1,
    };
    let k3 = k2.push(NodeV::Elem(text_el("adc_bits"@, dec_int(g.adc_bits as int))));
    let k4 = k3.push(NodeV::Elem(text_el("oversample"@, dec_int(g.oversample_ratio as int))));
    let ex = ElemV {
        name: "export"@,
        attrs: seq![
            AttrV { name: "binary"@, value: bool_text(g.export.binary) },
            AttrV { name: "csv"@, value: bool_text(g.export.csv) },
            AttrV { name: "xml"@, value: bool_text(g.export.xml) },
        ],
        children: Seq::empty(),
    };
    assert(params_elem(g).children == k4.push(NodeV::Elem(ex)));
    let pnames = seq!["simSamplingRate"@, "randomseed"@];
    assert forall|w: int| 0 <= w < pnames.len() implies find_child(
        params_elem(g).children,
        #[trigger] pnames[w],
    ) == (if pnames[w] == "simSamplingRate"@ {
        match g.simSamplingRate {
            Some(t) => Some(text_el("simSamplingRate"@, t)),
            None => None,
        }
    } else {
        match g.random_seed {
            Some(v) => Some(text_el("randomseed"@, dec_digits(v as nat))),
            None => None,
        }
    }) by {
        let nm = pnames[w];
        assert(w == 0 || w == 1);
        assert(find_child(Seq::<NodeV>::empty(), nm) is None);
        lemma_find_child_push(Seq::<NodeV>::empty(), n0, nm);
        lemma_find_child_push(Seq::<NodeV>::empty().push(n0), n1, nm);
        lemma_find_child_push(Seq::<NodeV>::empty().push(n0).push(n1), n2, nm);
        lemma_find_child_push(Seq::<NodeV>::empty().push(n0).push(n1).push(n2), n3, nm);
        lemma_find_child_push_opt(k0, "simSamplingRate"@, g.simSamplingRate, nm);
        match g.random_seed {
            Some(v) => {
                lemma_find_child_push(
                    k1,
                    NodeV::Elem(text_el("randomseed"@, dec_digits(v as nat))),
                    nm,
                );
            },
            None => {},
        }
        lemma_find_child_push(k2, NodeV::Elem(text_el("adc_bits"@, dec_int(g.adc_bits as int))), nm);
        lemma_find_child_push(
            k3,
            NodeV::Elem(text_el("oversample"@, dec_int(g.oversample_ratio as int))),
            nm,
        );
        lemma_find_child_push(k4, NodeV::Elem(ex), nm);
    }
    let r0 = NodeV::Elem(text_el("window_skip"@, r.window_skip));
    let r1 = NodeV::Elem(text_el("window_length"@, r.window_length));
    let r2 = NodeV::Elem(text_el("prf"@, r.prf));
    let rb = Seq::<NodeV>::empty().push(r0).push(r1).push(r2);
    assert(seq![r0, r1, r2] =~= rb);
    assert(receiver_elem(r, table).children == push_opt_text(rb, "noise_temp"@, r.noiseTemperature));
    assert(find_child(Seq::<NodeV>::empty(), "noise_temp"@) is None);
    lemma_find_child_push(Seq::<NodeV>::empty(), r0, "noise_temp"@);
    lemma_find_child_push(Seq::<NodeV>::empty().push(r0), r1, "noise_temp"@);
    lemma_find_child_push(Seq::<NodeV>::empty().push(r0).push(r1), r2, "noise_temp"@);
    lemma_find_child_push_opt(rb, "noise_temp"@, r.noiseTemperature, "noise_temp"@);
}

/// Reference resolution: a transmitter's antenna reference is rendered as
/// an attribute holding the referenced asset's display name exactly when
/// the reference table resolves the identifier; a dangling reference
/// leaves the attribute out.
pub proof fn lemma_reference_resolution(t: TransmitterV, table: Seq<(Seq<char>, Seq<char>)>)
    ensures
        find_attr(transmitter_elem(t, table).attrs, "antenna"@) == resolve_ref(
            table,
            t.antennaId,
        ),
        find_attr(transmitter_elem(t, table).attrs, "pulse"@) == resolve_ref(table, t.pulseId),
        find_attr(transmitter_elem(t, table).attrs, "timing"@) == resolve_ref(
            table,
            t.timingId,
        ),
{
    lemma_schema_names();
    let a0 = AttrV { name: "name"@, value: t.name };
    let a1 = AttrV { name: "type"@, value: t.radarType };
    let base = Seq::<AttrV>::empty().push(a0).push(a1);
    assert(seq![a0, a1] =~= base);
    let b1 = push_opt_attr(base, "antenna"@, resolve_ref(table, t.antennaId));
    let b2 = push_opt_attr(b1, "pulse"@, resolve_ref(table, t.pulseId));
    let anames = seq!["antenna"@, "pulse"@, "timing"@];
    assert forall|w: int| 0 <= w < anames.len() implies find_attr(
        transmitter_elem(t, table).attrs,
        #[trigger] anames[w],
    ) == (if anames[w] == "antenna"@ {
        resolve_ref(table, t.antennaId)
    } else if anames[w] == "pulse"@ {
        resolve_ref(table, t.pulseId)
    } else {
        resolve_ref(table, t.timingId)
    }) by {
        let nm = anames[w];
        assert(w == 0 || w == 1 || w == 2);
        assert(find_attr(Seq::<AttrV>::empty(), nm) is None);
        lemma_find_attr_push(Seq::<AttrV>::empty(), a0, nm);
        lemma_find_attr_push(Seq::<AttrV>::empty().push(a0), a1, nm);
        lemma_find_attr_push_opt(base, "antenna"@, resolve_ref(table, t.antennaId), nm);
        lemma_find_attr_push_opt(b1, "pulse"@, resolve_ref(table, t.pulseId), nm);
        lemma_find_attr_push_opt(b2, "timing"@, resolve_ref(table, t.timingId), nm);
    }
}

/// Variant exhaustiveness, downward: each component value contributes
/// exactly one block, or none for a platform without a role; and a
/// platform element with no component block at all transforms to a
/// platform without a role.
pub proof fn lemma_component_exhaustive(
    c: PlatformComponentV,
    table: Seq<(Seq<char>, Seq<char>)>,
    nt: Seq<(Seq<char>, Seq<char>)>,
    e: ElemV,
)
    requires
        find_child(e.children, "monostatic"@) is None,
        find_child(e.children, "transmitter"@) is None,
        find_child(e.children, "receiver"@) is None,
        find_child(e.children, "target"@) is None,
    ensures
        component_nodes(c, table).len() == (if c is NoComponent {
            0int
        } else {
            1int
        }),
        tr_component(e, nt) == Some(PlatformComponentV::NoComponent),
{
    match c {
        PlatformComponentV::NoComponent => {},
        PlatformComponentV::Monostatic(_) => {},
        PlatformComponentV::Transmitter(_) => {},
        PlatformComponentV::Receiver(_) => {},
        PlatformComponentV::Target(_) => {},
    }
}

} // verus!

// Re-resolution of references: the fresh identifiers the transform hands
// out resolve back to exactly the display names the old identifiers stood
// for.

use crate::schema::assoc_last;

verus! {

/// An association hit names an entry of the table.
pub proof fn lemma_assoc_entry(p: Seq<(Seq<char>, Seq<char>)>, k: Seq<char>)
    requires
        assoc_last(p, k) is Some,
    ensures
        exists|j: int|
            0 <= j < p.len() && #[trigger] p[j].0 == k && p[j].1 == assoc_last(p, k)->0,
    decreases p.len(),
{
    if p.last().0 == k {
        assert(p[p.len() - 1].0 == k && p[p.len() - 1].1 == assoc_last(p, k)->0);
    } else {
        lemma_assoc_entry(p.drop_last(), k);
        let j = choose|j: int|
            0 <= j < p.drop_last().len() && #[trigger] p.drop_last()[j].0 == k
                && p.drop_last()[j].1 == assoc_last(p.drop_last(), k)->0;
        assert(p[j].0 == k && p[j].1 == assoc_last(p, k)->0);
    }
}

/// The swapped table.
pub open spec fn flip_table(p: Seq<(Seq<char>, Seq<char>)>) -> Seq<(Seq<char>, Seq<char>)> {
    Seq::new(p.len(), |i: int| (p[i].1, p[i].0))
}

/// In a table whose values are pairwise distinct, looking a found value up
/// in the swapped table gives the key back.
pub proof fn lemma_assoc_inverse(p: Seq<(Seq<char>, Seq<char>)>, k: Seq<char>)
    requires
        forall|i: int, j: int|
            0 <= i < p.len() && 0 <= j < p.len() && i != j ==> #[trigger] p[i].1 != #[trigger] p[j].1,
        assoc_last(p, k) is Some,
    ensures
        assoc_last(flip_table(p), assoc_last(p, k)->0) == Some(k),
    decreases p.len(),
{
    let v = assoc_last(p, k)->0;
    let f = flip_table(p);
    assert(f.last() == (p.last().1, p.last().0));
    if p.last().0 == k {
        assert(assoc_last(f, v) == Some(p.last().0));
    } else {
        lemma_assoc_entry(p.drop_last(), k);
        let j = choose|j: int|
            0 <= j < p.drop_last().len() && #[trigger] p.drop_last()[j].0 == k
                && p.drop_last()[j].1 == assoc_last(p.drop_last(), k)->0;
        assert(p[j].1 == v);
        assert(p.last().1 != v);
        assert(f.drop_last() =~= flip_table(p.drop_last()));
        assert(forall|i: int, w: int|
            0 <= i < p.drop_last().len() && 0 <= w < p.drop_last().len() && i != w
                ==> #[trigger] p.drop_last()[i].1 != #[trigger] p.drop_last()[w].1);
        lemma_assoc_inverse(p.drop_last(), k);
    }
}

/// The synthesized asset identifiers of a round-tripped scenario are
/// pairwise distinct: they differ in their prefix between entity kinds and
/// in their decimal position within one kind.
pub proof fn lemma_synth_asset_ids_distinct(g: ScenarioV)
    ensures
        ({
            let g2 = expected_scenario(g);
            let nt = ntable_of(g2.pulses, g2.timings, g2.antennas);
            forall|i: int, j: int|
                0 <= i < nt.len() && 0 <= j < nt.len() && i != j ==> #[trigger] nt[i].1
                    != #[trigger] nt[j].1
        }),
{
    reveal_strlit("pulse-");
    reveal_strlit("timing-");
    reveal_strlit("antenna-");
    assert("pulse-"@.len() == 6);
    assert("timing-"@.len() == 7);
    assert("antenna-"@.len() == 8);
    assert("pulse-"@[0] == 'p' && "timing-"@[0] == 't' && "antenna-"@[0] == 'a');
    let g2 = expected_scenario(g);
    let nt = ntable_of(g2.pulses, g2.timings, g2.antennas);
    let np = g2.pulses.len() as int;
    let ntm = g2.timings.len() as int;
    let na = g2.antennas.len() as int;
    assert forall|i: int, j: int|
        0 <= i < nt.len() && 0 <= j < nt.len() && i != j implies #[trigger] nt[i].1
        != #[trigger] nt[j].1 by {
        let a = nt[i].1;
        let b = nt[j].1;
        assert(nt[i].1 == synth_kind_id(g2, i));
        assert(nt[j].1 == synth_kind_id(g2, j));
        lemma_synth_kind_ids_differ(g2, i, j);
    }
}

/// The identifier at a position of the fresh name table.
pub open spec fn synth_kind_id(g2: ScenarioV, i: int) -> Seq<char> {
    let np = g2.pulses.len() as int;
    let ntm = g2.timings.len() as int;
    if i < np {
        synth_id("pulse-"@, i)
    } else if i < np + ntm {
        synth_id("timing-"@, i - np)
    } else {
        synth_id("antenna-"@, i - np - ntm)
    }
}

/// Two distinct positions of the fresh name table carry distinct
/// identifiers.
proof fn lemma_synth_kind_ids_differ(g2: ScenarioV, i: int, j: int)
    requires
        0 <= i < g2.pulses.len() + g2.timings.len() + g2.antennas.len(),
        0 <= j < g2.pulses.len() + g2.timings.len() + g2.antennas.len(),
        i != j,
    ensures
        synth_kind_id(g2, i) != synth_kind_id(g2, j),
{
    reveal_strlit("pulse-");
    reveal_strlit("timing-");
    reveal_strlit("antenna-");
    assert("pulse-"@.len() == 6);
    assert("timing-"@.len() == 7);
    assert("antenna-"@.len() == 8);
    assert("pulse-"@[0] == 'p' && "timing-"@[0] == 't' && "antenna-"@[0] == 'a');
    let a = synth_kind_id(g2, i);
    let b = synth_kind_id(g2, j);
    let np = g2.pulses.len() as int;
    let ntm = g2.timings.len() as int;
    lemma_synth_id_prefix_first(a, i, np, ntm);
    lemma_synth_id_prefix_first(b, j, np, ntm);
    if (i < np) == (j < np) && (i < np + ntm) == (j < np + ntm) {
        // Same entity kind: the decimal positions differ.
        let pre: Seq<char> = if i < np {
            "pulse-"@
        } else if i < np + ntm {
            "timing-"@
        } else {
            "antenna-"@
        };
        let x: int = if i < np {
            i
        } else if i < np + ntm {
            i - np
        } else {
            i - np - ntm
        };
        let y: int = if j < np {
            j
        } else if j < np + ntm {
            j - np
        } else {
            j - np - ntm
        };
        assert(a == pre + dec_digits(x as nat));
        assert(b == pre + dec_digits(y as nat));
        assert(x != y);
        if a == b {
            assert(dec_digits(x as nat) =~= dec_digits(y as nat)) by {
                assert forall|q: int| 0 <= q < dec_digits(x as nat).len() implies #[trigger] dec_digits(
                    x as nat,
                )[q] == dec_digits(y as nat)[q] by {
                    assert(a[pre.len() + q] == dec_digits(x as nat)[q]);
                    assert(b[pre.len() + q] == dec_digits(y as nat)[q]);
                }
            }
            lemma_digits_val_dec(x as nat);
            lemma_digits_val_dec(y as nat);
            assert(false);
        }
    } else {
        // Different entity kinds: the first character differs.
        assert(a[0] != b[0]);
    }
}

/// The first character of a synthesized identifier is its kind's first
/// letter.
proof fn lemma_synth_id_prefix_first(s: Seq<char>, i: int, np: int, ntm: int)
    requires
        np >= 0,
        ntm >= 0,
        s == (if i < np {
            synth_id("pulse-"@, i)
        } else if i < np + ntm {
            synth_id("timing-"@, i - np)
        } else {
            synth_id("antenna-"@, i - np - ntm)
        }),
    ensures
        s.len() > 0,
        i < np ==> s[0] == "pulse-"@[0] && s.len() > "pulse-"@.len(),
        !(i < np) && i < np + ntm ==> s[0] == "timing-"@[0] && s.len() > "timing-"@.len(),
        !(i < np + ntm) ==> s[0] == "antenna-"@[0] && s.len() > "antenna-"@.len(),
{
    reveal_strlit("pulse-");
    reveal_strlit("timing-");
    reveal_strlit("antenna-");
    if i < np {
        crate::text::lemma_dec_digits_digits(i as nat);
        assert(dec_digits(i as nat).len() > 0);
        assert(s[0] == "pulse-"@[0]);
    } else if i < np + ntm {
        crate::text::lemma_dec_digits_digits((i - np) as nat);
        assert(dec_digits((i - np) as nat).len() > 0);
        assert(s[0] == "timing-"@[0]);
    } else {
        crate::text::lemma_dec_digits_digits((i - np - ntm) as nat);
        assert(dec_digits((i - np - ntm) as nat).len() > 0);
        assert(s[0] == "antenna-"@[0]);
    }
}

} // verus!

// The reference law itself.

verus! {

/// A key that occurs in the table is found.
pub proof fn lemma_assoc_found(p: Seq<(Seq<char>, Seq<char>)>, k: Seq<char>)
    requires
        exists|j: int| 0 <= j < p.len() && #[trigger] p[j].0 == k,
    ensures
        assoc_last(p, k) is Some,
    decreases p.len(),
{
    if p.last().0 != k {
        let j = choose|j: int| 0 <= j < p.len() && #[trigger] p[j].0 == k;
        assert(p.drop_last()[j].0 == k);
        lemma_assoc_found(p.drop_last(), k);
    }
}

/// Asset references survive the round trip: the display name the new
/// reference resolves to in the round-tripped scenario is exactly the name
/// the old reference resolved to, and a dangling or absent reference stays
/// unresolved.
pub proof fn lemma_reference_reresolution(g: ScenarioV, r: Option<Seq<char>>)
    ensures
        ({
            let g2 = expected_scenario(g);
            let nt = ntable_of(g2.pulses, g2.timings, g2.antennas);
            resolve_ref(table_of(g2), lookup_name(nt, resolve_ref(table_of(g), r)))
                == resolve_ref(table_of(g), r)
        }),
{
    let g2 = expected_scenario(g);
    let nt = ntable_of(g2.pulses, g2.timings, g2.antennas);
    let old_name = resolve_ref(table_of(g), r);
    match old_name {
        None => {},
        Some(nm) => {
            let id = r->0;
            lemma_assoc_entry(table_of(g), id);
            let j = choose|j: int|
                0 <= j < table_of(g).len() && #[trigger] table_of(g)[j].0 == id && table_of(
                    g,
                )[j].1 == nm;
            let np = g.pulses.len() as int;
            let ntm = g.timings.len() as int;
            assert(nt.len() == table_of(g).len());
            assert(nt[j].0 == nm) by {
                if j < np {
                    assert(table_of(g)[j].1 == g.pulses[j].name);
                    assert(nt[j].0 == g2.pulses[j].name);
                    assert(g2.pulses[j].name == g.pulses[j].name);
                } else if j < np + ntm {
                    assert(table_of(g)[j].1 == g.timings[j - np].name);
                    assert(nt[j].0 == g2.timings[j - np].name);
                    assert(g2.timings[j - np].name == g.timings[j - np].name);
                } else {
                    assert(table_of(g)[j].1 == g.antennas[j - np - ntm].name);
                    assert(nt[j].0 == g2.antennas[j - np - ntm].name);
                    assert(g2.antennas[j - np - ntm].name == g.antennas[j - np - ntm].name);
                }
            }
            lemma_assoc_found(nt, nm);
            lemma_synth_asset_ids_distinct(g);
            lemma_assoc_inverse(nt, nm);
            assert(table_of(g2) =~= flip_table(nt)) by {
                assert forall|q: int| 0 <= q < nt.len() implies table_of(g2)[q] == flip_table(
                    nt,
                )[q] by {
                    if q < np {
                        assert(table_of(g2)[q] == (g2.pulses[q].id, g2.pulses[q].name));
                        assert(nt[q] == (g2.pulses[q].name, g2.pulses[q].id));
                    } else if q < np + ntm {
                        assert(table_of(g2)[q] == (g2.timings[q - np].id, g2.timings[q - np].name));
                        assert(nt[q] == (g2.timings[q - np].name, g2.timings[q - np].id));
                    } else {
                        assert(table_of(g2)[q] == (
                            g2.antennas[q - np - ntm].id,
                            g2.antennas[q - np - ntm].name,
                        ));
                        assert(nt[q] == (
                            g2.antennas[q - np - ntm].name,
                            g2.antennas[q - np - ntm].id,
                        ));
                    }
                }
            }
        },
    }
}

} // verus!
