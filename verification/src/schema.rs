//! The document schema, stated as a mathematical function from the scenario
//! model to the XML tree of [`crate::xml`].
//!
//! [`scenario_tree`] is the single source of truth for the document shape:
//! the writer in [`crate::xml_handler`] is proved to emit exactly this tree,
//! and the reader is proved to map it back to an equivalent model.  The
//! reference table that resolves asset identifiers to display names is the
//! spec-level twin of the table the serializer builds.

use vstd::prelude::*;

use crate::scenario::AntennaV;
use crate::scenario::ExportOptionsV;
use crate::scenario::FixedRotationV;
use crate::scenario::GlobalParametersV;
use crate::scenario::MotionPathV;
use crate::scenario::RotationPathV;
use crate::scenario::MonostaticV;
use crate::scenario::NoiseEntryV;
use crate::scenario::PlatformComponentV;
use crate::scenario::PlatformV;
use crate::scenario::PositionWaypointV;
use crate::scenario::PulseV;
use crate::scenario::ReceiverV;
use crate::scenario::RotationV;
use crate::scenario::RotationWaypointV;
use crate::scenario::ScenarioV;
use crate::scenario::TargetV;
use crate::scenario::TimingV;
use crate::scenario::TransmitterV;
use crate::text::dec_digits;
use crate::text::dec_int;
use crate::xml::AttrV;
use crate::xml::ElemV;
use crate::xml::NodeV;

verus! {

/// An element holding a single run of text and nothing else.
pub open spec fn text_el(name: Seq<char>, value: Seq<char>) -> ElemV {
    ElemV { name, attrs: Seq::empty(), children: seq![NodeV::Text(value)] }
}

/// Appends a simple text element for a present optional field; leaves the
/// children alone for an absent one.
pub open spec fn push_opt_text(kids: Seq<NodeV>, name: Seq<char>, v: Option<Seq<char>>) -> Seq<
    NodeV,
> {
    match v {
        Some(t) => kids.push(NodeV::Elem(text_el(name, t))),
        None => kids,
    }
}

/// Appends an attribute for a present optional value; leaves the list alone
/// for an absent one.
pub open spec fn push_opt_attr(attrs: Seq<AttrV>, name: Seq<char>, v: Option<Seq<char>>) -> Seq<
    AttrV,
> {
    match v {
        Some(t) => attrs.push(AttrV { name, value: t }),
        None => attrs,
    }
}

/// The text of a boolean attribute.
pub open spec fn bool_text(b: bool) -> Seq<char> {
    if b {
        "true"@
    } else {
        "false"@
    }
}

/// Looks a key up in an association list where the last insertion wins.
pub open spec fn assoc_last(t: Seq<(Seq<char>, Seq<char>)>, k: Seq<char>) -> Option<Seq<char>>
    decreases t.len(),
{
    if t.len() == 0 {
        None
    } else if t.last().0 == k {
        Some(t.last().1)
    } else {
        assoc_last(t.drop_last(), k)
    }
}

/// The reference table of a scenario: identifier to display name, one entry
/// per asset, pulses first, then timings, then antennas.
pub open spec fn table_of(m: ScenarioV) -> Seq<(Seq<char>, Seq<char>)> {
    Seq::new(m.pulses.len(), |i: int| (m.pulses[i].id, m.pulses[i].name)) + Seq::new(
        m.timings.len(),
        |i: int| (m.timings[i].id, m.timings[i].name),
    ) + Seq::new(m.antennas.len(), |i: int| (m.antennas[i].id, m.antennas[i].name))
}

/// The display name an optional asset reference resolves to, if any.
pub open spec fn resolve_ref(
    table: Seq<(Seq<char>, Seq<char>)>,
    opt_id: Option<Seq<char>>,
) -> Option<Seq<char>> {
    match opt_id {
        Some(id) => assoc_last(table, id),
        None => None,
    }
}

/// The serialized pulse kind: continuous wave or file-backed.
pub open spec fn pulse_type_text(t: Seq<char>) -> Seq<char> {
    if t == "cw"@ || t == "continuous"@ {
        "continuous"@
    } else {
        "file"@
    }
}

/// The document element of a pulse asset.
pub open spec fn pulse_elem(p: PulseV) -> ElemV {
    let attrs = seq![
        AttrV { name: "name"@, value: p.name },
        AttrV { name: "type"@, value: pulse_type_text(p.pulseType) },
    ];
    let attrs = push_opt_attr(
        attrs,
        "filename"@,
        p.filename,
    );
    ElemV {
        name: "pulse"@,
        attrs,
        children: seq![
            NodeV::Elem(text_el("power"@, p.power)),
            NodeV::Elem(text_el("carrier"@, p.carrier)),
        ],
    }
}

/// The document element of one noise entry.
pub open spec fn noise_elem(n: NoiseEntryV) -> ElemV {
    ElemV {
        name: "noise_entry"@,
        attrs: Seq::empty(),
        children: seq![
            NodeV::Elem(text_el("alpha"@, n.alpha)),
            NodeV::Elem(text_el("weight"@, n.weight)),
        ],
    }
}

/// The document element of a timing asset.
pub open spec fn timing_elem(t: TimingV) -> ElemV {
    let kids = seq![NodeV::Elem(text_el("frequency"@, t.frequency))];
    let kids = push_opt_text(kids, "freq_offset"@, t.freqOffset);
    let kids = push_opt_text(kids, "random_freq_offset_stdev"@, t.randomFreqOffsetStdev);
    let kids = push_opt_text(kids, "phase_offset"@, t.phaseOffset);
    let kids = push_opt_text(kids, "random_phase_offset_stdev"@, t.randomPhaseOffsetStdev);
    let kids = kids + Seq::new(
        t.noiseEntries.len(),
        |i: int| NodeV::Elem(noise_elem(t.noiseEntries[i])),
    );
    ElemV {
        name: "timing"@,
        attrs: seq![AttrV { name: "name"@, value: t.name }],
        children: kids,
    }
}

/// The document element of an antenna asset; only the parameters of its own
/// pattern are rendered.
pub open spec fn antenna_elem(a: AntennaV) -> ElemV {
    let attrs = seq![
        AttrV { name: "name"@, value: a.name },
        AttrV { name: "pattern"@, value: a.pattern },
    ];
    let attrs = push_opt_attr(
        attrs,
        "filename"@,
        a.filename,
    );
    let kids = push_opt_text(Seq::empty(), "efficiency"@, a.efficiency);
    let kids = if a.pattern == "sinc"@ {
        let kids = push_opt_text(kids, "alpha"@, a.alpha);
        let kids = push_opt_text(kids, "beta"@, a.beta);
        push_opt_text(kids, "gamma"@, a.gamma)
    } else if a.pattern == "gaussian"@ {
        let kids = push_opt_text(kids, "azscale"@, a.azscale);
        push_opt_text(kids, "elscale"@, a.elscale)
    } else if a.pattern == "squarehorn"@ || a.pattern == "parabolic"@ {
        push_opt_text(kids, "diameter"@, a.diameter)
    } else {
        kids
    };
    ElemV { name: "antenna"@, attrs, children: kids }
}

/// The document element of one motion waypoint.
pub open spec fn position_waypoint_elem(w: PositionWaypointV) -> ElemV {
    ElemV {
        name: "positionwaypoint"@,
        attrs: Seq::empty(),
        children: seq![
            NodeV::Elem(text_el("x"@, w.x)),
            NodeV::Elem(text_el("y"@, w.y)),
            NodeV::Elem(text_el("altitude"@, w.altitude)),
            NodeV::Elem(text_el("time"@, w.time)),
        ],
    }
}

/// The document element of a platform's motion path.
pub open spec fn motionpath_elem(p: PlatformV) -> ElemV {
    ElemV {
        name: "motionpath"@,
        attrs: seq![AttrV { name: "interpolation"@, value: p.motionPath.interpolation }],
        children: Seq::new(
            p.motionPath.waypoints.len(),
            |i: int| NodeV::Elem(position_waypoint_elem(p.motionPath.waypoints[i])),
        ),
    }
}

/// The document element of one rotation waypoint.
pub open spec fn rotation_waypoint_elem(w: RotationWaypointV) -> ElemV {
    ElemV {
        name: "rotationwaypoint"@,
        attrs: Seq::empty(),
        children: seq![
            NodeV::Elem(text_el("azimuth"@, w.azimuth)),
            NodeV::Elem(text_el("elevation"@, w.elevation)),
            NodeV::Elem(text_el("time"@, w.time)),
        ],
    }
}

/// The document element of a platform's rotation.
pub open spec fn rotation_elem(r: RotationV) -> ElemV {
    match r {
        RotationV::Fixed(f) => ElemV {
            name: "fixedrotation"@,
            attrs: Seq::empty(),
            children: seq![
                NodeV::Elem(text_el("startazimuth"@, f.startAzimuth)),
                NodeV::Elem(text_el("startelevation"@, f.startElevation)),
                NodeV::Elem(text_el("azimuthrate"@, f.azimuthRate)),
                NodeV::Elem(text_el("elevationrate"@, f.elevationRate)),
            ],
        },
        RotationV::Path(p) => ElemV {
            name: "rotationpath"@,
            attrs: seq![AttrV { name: "interpolation"@, value: p.interpolation }],
            children: Seq::new(
                p.waypoints.len(),
                |i: int| NodeV::Elem(rotation_waypoint_elem(p.waypoints[i])),
            ),
        },
    }
}

/// The document element of a receiver component.
pub open spec fn receiver_elem(r: ReceiverV, table: Seq<(Seq<char>, Seq<char>)>) -> ElemV {
    let attrs = seq![AttrV { name: "name"@, value: r.name }];
    let attrs = push_opt_attr(attrs, "antenna"@, resolve_ref(table, r.antennaId));
    let attrs = push_opt_attr(attrs, "timing"@, resolve_ref(table, r.timingId));
    let attrs = if r.noDirectPaths {
        attrs.push(AttrV { name: "nodirect"@, value: "true"@ })
    } else {
        attrs
    };
    let attrs = if r.noPropagationLoss {
        attrs.push(AttrV { name: "nopropagationloss"@, value: "true"@ })
    } else {
        attrs
    };
    let kids = seq![
        NodeV::Elem(text_el("window_skip"@, r.window_skip)),
        NodeV::Elem(text_el("window_length"@, r.window_length)),
        NodeV::Elem(text_el("prf"@, r.prf)),
    ];
    let kids = push_opt_text(kids, "noise_temp"@, r.noiseTemperature);
    ElemV { name: "receiver"@, attrs, children: kids }
}

/// The document element of a transmitter component.
pub open spec fn transmitter_elem(t: TransmitterV, table: Seq<(Seq<char>, Seq<char>)>) -> ElemV {
    let attrs = seq![
        AttrV { name: "name"@, value: t.name },
        AttrV { name: "type"@, value: t.radarType },
    ];
    let attrs = push_opt_attr(attrs, "antenna"@, resolve_ref(table, t.antennaId));
    let attrs = push_opt_attr(attrs, "pulse"@, resolve_ref(table, t.pulseId));
    let attrs = push_opt_attr(attrs, "timing"@, resolve_ref(table, t.timingId));
    ElemV {
        name: "transmitter"@,
        attrs,
        children: seq![NodeV::Elem(text_el("prf"@, t.prf))],
    }
}

/// The document element of a monostatic component.
pub open spec fn monostatic_elem(m: MonostaticV, table: Seq<(Seq<char>, Seq<char>)>) -> ElemV {
    let attrs = seq![
        AttrV { name: "name"@, value: m.name },
        AttrV { name: "type"@, value: m.radarType },
    ];
    let attrs = push_opt_attr(attrs, "antenna"@, resolve_ref(table, m.antennaId));
    let attrs = push_opt_attr(attrs, "pulse"@, resolve_ref(table, m.pulseId));
    let attrs = push_opt_attr(attrs, "timing"@, resolve_ref(table, m.timingId));
    let attrs = if m.noDirectPaths {
        attrs.push(AttrV { name: "nodirect"@, value: "true"@ })
    } else {
        attrs
    };
    let attrs = if m.noPropagationLoss {
        attrs.push(AttrV { name: "nopropagationloss"@, value: "true"@ })
    } else {
        attrs
    };
    let kids = seq![
        NodeV::Elem(text_el("window_skip"@, m.window_skip)),
        NodeV::Elem(text_el("window_length"@, m.window_length)),
        NodeV::Elem(text_el("prf"@, m.prf)),
    ];
    let kids = push_opt_text(kids, "noise_temp"@, m.noiseTemperature);
    ElemV { name: "monostatic"@, attrs, children: kids }
}

/// The document element of a target component: a cross-section block and,
/// only for a non-default fluctuation model, a model block.
pub open spec fn target_elem(t: TargetV) -> ElemV {
    let rcs_attrs = seq![AttrV { name: "type"@, value: t.rcs_type }];
    let rcs_attrs = push_opt_attr(
        rcs_attrs,
        "filename"@,
        t.rcs_filename,
    );
    let rcs = ElemV {
        name: "rcs"@,
        attrs: rcs_attrs,
        children: push_opt_text(Seq::empty(), "value"@, t.rcs_value),
    };
    let kids = seq![NodeV::Elem(rcs)];
    let kids = if t.rcs_model != "constant"@ {
        kids.push(
            NodeV::Elem(
                ElemV {
                    name: "model"@,
                    attrs: seq![AttrV { name: "type"@, value: t.rcs_model }],
                    children: push_opt_text(Seq::empty(), "k"@, t.rcs_k),
                },
            ),
        )
    } else {
        kids
    };
    ElemV {
        name: "target"@,
        attrs: seq![AttrV { name: "name"@, value: t.name }],
        children: kids,
    }
}

/// The children a platform's component contributes: none for a platform
/// without a role.
pub open spec fn component_nodes(
    c: PlatformComponentV,
    table: Seq<(Seq<char>, Seq<char>)>,
) -> Seq<NodeV> {
    match c {
        PlatformComponentV::NoComponent => Seq::empty(),
        PlatformComponentV::Monostatic(m) => seq![NodeV::Elem(monostatic_elem(m, table))],
        PlatformComponentV::Transmitter(t) => seq![NodeV::Elem(transmitter_elem(t, table))],
        PlatformComponentV::Receiver(r) => seq![NodeV::Elem(receiver_elem(r, table))],
        PlatformComponentV::Target(t) => seq![NodeV::Elem(target_elem(t))],
    }
}

/// The document element of a platform.
pub open spec fn platform_elem(p: PlatformV, table: Seq<(Seq<char>, Seq<char>)>) -> ElemV {
    ElemV {
        name: "platform"@,
        attrs: seq![AttrV { name: "name"@, value: p.name }],
        children: seq![
            NodeV::Elem(motionpath_elem(p)),
            NodeV::Elem(rotation_elem(p.rotation)),
        ] + component_nodes(p.component, table),
    }
}

/// The parameters block, fields in their fixed order, absent optional
/// fields omitted.
pub open spec fn params_elem(g: GlobalParametersV) -> ElemV {
    let kids = seq![
        NodeV::Elem(text_el("starttime"@, g.start)),
        NodeV::Elem(text_el("endtime"@, g.end)),
        NodeV::Elem(text_el("rate"@, g.rate)),
        NodeV::Elem(text_el("c"@, g.c)),
    ];
    let kids = push_opt_text(kids, "simSamplingRate"@, g.simSamplingRate);
    let kids = match g.random_seed {
        Some(v) => kids.push(NodeV::Elem(text_el("randomseed"@, dec_digits(v as nat)))),
        None => kids,
    };
    let kids = kids.push(NodeV::Elem(text_el("adc_bits"@, dec_int(g.adc_bits as int))));
    let kids = kids.push(NodeV::Elem(text_el("oversample"@, dec_int(g.oversample_ratio as int))));
    let kids = kids.push(
        NodeV::Elem(
            ElemV {
                name: "export"@,
                attrs: seq![
                    AttrV { name: "binary"@, value: bool_text(g.export.binary) },
                    AttrV { name: "csv"@, value: bool_text(g.export.csv) },
                    AttrV { name: "xml"@, value: bool_text(g.export.xml) },
                ],
                children: Seq::empty(),
            },
        ),
    );
    ElemV { name: "parameters"@, attrs: Seq::empty(), children: kids }
}

/// The whole document tree of a scenario: the parameters block, then the
/// asset lists in order, then the platforms.
pub open spec fn scenario_tree(m: ScenarioV) -> ElemV {
    let table = table_of(m);
    let kids = seq![NodeV::Elem(params_elem(m.globalParameters))] + Seq::new(
        m.pulses.len(),
        |i: int| NodeV::Elem(pulse_elem(m.pulses[i])),
    ) + Seq::new(m.timings.len(), |i: int| NodeV::Elem(timing_elem(m.timings[i]))) + Seq::new(
        m.antennas.len(),
        |i: int| NodeV::Elem(antenna_elem(m.antennas[i])),
    ) + Seq::new(
        m.platforms.len(),
        |i: int| NodeV::Elem(platform_elem(m.platforms[i], table)),
    );
    ElemV {
        name: "simulation"@,
        attrs: seq![AttrV { name: "name"@, value: m.globalParameters.simulation_name }],
        children: kids,
    }
}

} // verus!

// Height bounds: the scenario document nests at most five elements deep,
// which lets the writer thread its indentation depth through a `usize`.

use crate::xml::elem_height;
use crate::xml::lemma_nodes_height_all;
use crate::xml::node_height;
use crate::xml::nodes_height;

verus! {

/// A text element is one level tall.
pub proof fn lemma_text_el_height(n: Seq<char>, t: Seq<char>)
    ensures
        elem_height(text_el(n, t)) == 1,
{
    let kids = seq![NodeV::Text(t)];
    assert(kids.drop_last() =~= Seq::<NodeV>::empty());
    assert(nodes_height(Seq::<NodeV>::empty()) == 0);
    assert(kids.last() == NodeV::Text(t));
    assert(node_height(NodeV::Text(t)) == 0);
    assert(nodes_height(kids) == 0);
}

/// Appending an optional text element keeps a height bound of at least one.
pub proof fn lemma_push_opt_text_height(v: Seq<NodeV>, n: Seq<char>, o: Option<Seq<char>>, h: nat)
    requires
        forall|i: int| 0 <= i < v.len() ==> node_height(#[trigger] v[i]) <= h,
        1 <= h,
    ensures
        forall|i: int|
            0 <= i < push_opt_text(v, n, o).len() ==> node_height(
                #[trigger] push_opt_text(v, n, o)[i],
            ) <= h,
{
    match o {
        Some(t) => {
            lemma_text_el_height(n, t);
            let w = push_opt_text(v, n, o);
            assert forall|i: int| 0 <= i < w.len() implies node_height(#[trigger] w[i]) <= h by {
                if i < v.len() {
                    assert(w[i] == v[i]);
                } else {
                    assert(w[i] == NodeV::Elem(text_el(n, t)));
                }
            }
        },
        None => {},
    }
}

/// The parameters block is two levels tall.
pub proof fn lemma_params_elem_height(g: GlobalParametersV)
    ensures
        elem_height(params_elem(g)) <= 3,
{
    let e = params_elem(g);
    assert forall|i: int| 0 <= i < e.children.len() implies node_height(
        #[trigger] e.children[i],
    ) <= 2 by {
        let k0 = seq![
            NodeV::Elem(text_el("starttime"@, g.start)),
            NodeV::Elem(text_el("endtime"@, g.end)),
            NodeV::Elem(text_el("rate"@, g.rate)),
            NodeV::Elem(text_el("c"@, g.c)),
        ];
        lemma_text_el_height("starttime"@, g.start);
        lemma_text_el_height("endtime"@, g.end);
        lemma_text_el_height("rate"@, g.rate);
        lemma_text_el_height("c"@, g.c);
        assert forall|q: int| 0 <= q < k0.len() implies node_height(#[trigger] k0[q]) <= 2 by {
            assert(q == 0 || q == 1 || q == 2 || q == 3);
        }
        lemma_push_opt_text_height(k0, "simSamplingRate"@, g.simSamplingRate, 2);
        let k1 = push_opt_text(k0, "simSamplingRate"@, g.simSamplingRate);
        let k2 = match g.random_seed {
            Some(v) => k1.push(NodeV::Elem(text_el("randomseed"@, dec_digits(v as nat)))),
            None => k1,
        };
        match g.random_seed {
            Some(v) => {
                lemma_text_el_height("randomseed"@, dec_digits(v as nat));
            },
            None => {},
        }
        assert forall|q: int| 0 <= q < k2.len() implies node_height(#[trigger] k2[q]) <= 2 by {}
        let k3 = k2.push(NodeV::Elem(text_el("adc_bits"@, dec_int(g.adc_bits as int))));
        lemma_text_el_height("adc_bits"@, dec_int(g.adc_bits as int));
        let k4 = k3.push(NodeV::Elem(text_el("oversample"@, dec_int(g.oversample_ratio as int))));
        lemma_text_el_height("oversample"@, dec_int(g.oversample_ratio as int));
        let ex = ElemV {
            name: "export"@,
            attrs: seq![
                AttrV { name: "binary"@, value: bool_text(g.export.binary) },
                AttrV { name: "csv"@, value: bool_text(g.export.csv) },
                AttrV { name: "xml"@, value: bool_text(g.export.xml) },
            ],
            children: Seq::empty(),
        };
        assert(nodes_height(Seq::<NodeV>::empty()) == 0);
        assert(elem_height(ex) == 1);
        let k5 = k4.push(NodeV::Elem(ex));
        assert(e.children == k5);
        assert forall|q: int| 0 <= q < k5.len() implies node_height(#[trigger] k5[q]) <= 2 by {}
    }
    lemma_nodes_height_all(e.children, 2);
}

/// An asset element is at most three levels tall.
pub proof fn lemma_pulse_elem_height(p: PulseV)
    ensures
        elem_height(pulse_elem(p)) <= 3,
{
    let e = pulse_elem(p);
    lemma_text_el_height("power"@, p.power);
    lemma_text_el_height("carrier"@, p.carrier);
    assert forall|i: int| 0 <= i < e.children.len() implies node_height(
        #[trigger] e.children[i],
    ) <= 2 by {
        assert(i == 0 || i == 1);
    }
    lemma_nodes_height_all(e.children, 2);
}

/// A noise entry element is two levels tall.
pub proof fn lemma_noise_elem_height(n: NoiseEntryV)
    ensures
        elem_height(noise_elem(n)) <= 2,
{
    let e = noise_elem(n);
    lemma_text_el_height("alpha"@, n.alpha);
    lemma_text_el_height("weight"@, n.weight);
    assert forall|i: int| 0 <= i < e.children.len() implies node_height(
        #[trigger] e.children[i],
    ) <= 1 by {
        assert(i == 0 || i == 1);
    }
    lemma_nodes_height_all(e.children, 1);
}

/// A timing element is at most three levels tall.
pub proof fn lemma_timing_elem_height(t: TimingV)
    ensures
        elem_height(timing_elem(t)) <= 3,
{
    let e = timing_elem(t);
    assert forall|i: int| 0 <= i < e.children.len() implies node_height(
        #[trigger] e.children[i],
    ) <= 2 by {
        let k0 = seq![NodeV::Elem(text_el("frequency"@, t.frequency))];
        lemma_text_el_height("frequency"@, t.frequency);
        assert forall|q: int| 0 <= q < k0.len() implies node_height(#[trigger] k0[q]) <= 2 by {
            assert(q == 0);
        }
        lemma_push_opt_text_height(k0, "freq_offset"@, t.freqOffset, 2);
        let k1 = push_opt_text(k0, "freq_offset"@, t.freqOffset);
        lemma_push_opt_text_height(k1, "random_freq_offset_stdev"@, t.randomFreqOffsetStdev, 2);
        let k2 = push_opt_text(k1, "random_freq_offset_stdev"@, t.randomFreqOffsetStdev);
        lemma_push_opt_text_height(k2, "phase_offset"@, t.phaseOffset, 2);
        let k3 = push_opt_text(k2, "phase_offset"@, t.phaseOffset);
        lemma_push_opt_text_height(k3, "random_phase_offset_stdev"@, t.randomPhaseOffsetStdev, 2);
        let k4 = push_opt_text(k3, "random_phase_offset_stdev"@, t.randomPhaseOffsetStdev);
        let ns = Seq::new(t.noiseEntries.len(), |q: int| NodeV::Elem(noise_elem(t.noiseEntries[q])));
        assert forall|q: int| 0 <= q < ns.len() implies node_height(#[trigger] ns[q]) <= 2 by {
            lemma_noise_elem_height(t.noiseEntries[q]);
        }
        assert(e.children == k4 + ns);
        if i < k4.len() {
            assert(e.children[i] == k4[i]);
        } else {
            assert(e.children[i] == ns[i - k4.len()]);
        }
    }
    lemma_nodes_height_all(e.children, 2);
}

/// An antenna element is at most two levels of children tall.
pub proof fn lemma_antenna_elem_height(a: AntennaV)
    ensures
        elem_height(antenna_elem(a)) <= 3,
{
    let e = antenna_elem(a);
    assert forall|i: int| 0 <= i < e.children.len() implies node_height(
        #[trigger] e.children[i],
    ) <= 2 by {
        let k0 = push_opt_text(Seq::empty(), "efficiency"@, a.efficiency);
        lemma_push_opt_text_height(Seq::empty(), "efficiency"@, a.efficiency, 2);
        if a.pattern == "sinc"@ {
            lemma_push_opt_text_height(k0, "alpha"@, a.alpha, 2);
            let k1 = push_opt_text(k0, "alpha"@, a.alpha);
            lemma_push_opt_text_height(k1, "beta"@, a.beta, 2);
            let k2 = push_opt_text(k1, "beta"@, a.beta);
            lemma_push_opt_text_height(k2, "gamma"@, a.gamma, 2);
        } else if a.pattern == "gaussian"@ {
            lemma_push_opt_text_height(k0, "azscale"@, a.azscale, 2);
            let k1 = push_opt_text(k0, "azscale"@, a.azscale);
            lemma_push_opt_text_height(k1, "elscale"@, a.elscale, 2);
        } else if a.pattern == "squarehorn"@ || a.pattern == "parabolic"@ {
            lemma_push_opt_text_height(k0, "diameter"@, a.diameter, 2);
        }
    }
    lemma_nodes_height_all(e.children, 2);
}

/// A motion or rotation path element is at most three levels tall.
pub proof fn lemma_motionpath_elem_height(p: PlatformV)
    ensures
        elem_height(motionpath_elem(p)) <= 3,
{
    let e = motionpath_elem(p);
    assert forall|i: int| 0 <= i < e.children.len() implies node_height(
        #[trigger] e.children[i],
    ) <= 2 by {
        let w = p.motionPath.waypoints[i];
        let we = position_waypoint_elem(w);
        lemma_text_el_height("x"@, w.x);
        lemma_text_el_height("y"@, w.y);
        lemma_text_el_height("altitude"@, w.altitude);
        lemma_text_el_height("time"@, w.time);
        assert forall|q: int| 0 <= q < we.children.len() implies node_height(
            #[trigger] we.children[q],
        ) <= 1 by {
            assert(q == 0 || q == 1 || q == 2 || q == 3);
        }
        lemma_nodes_height_all(we.children, 1);
        assert(e.children[i] == NodeV::Elem(we));
    }
    lemma_nodes_height_all(e.children, 2);
}

/// A rotation element is at most three levels tall.
pub proof fn lemma_rotation_elem_height(r: RotationV)
    ensures
        elem_height(rotation_elem(r)) <= 3,
{
    let e = rotation_elem(r);
    assert forall|i: int| 0 <= i < e.children.len() implies node_height(
        #[trigger] e.children[i],
    ) <= 2 by {
        match r {
            RotationV::Fixed(f) => {
                lemma_text_el_height("startazimuth"@, f.startAzimuth);
                lemma_text_el_height("startelevation"@, f.startElevation);
                lemma_text_el_height("azimuthrate"@, f.azimuthRate);
                lemma_text_el_height("elevationrate"@, f.elevationRate);
                assert(i == 0 || i == 1 || i == 2 || i == 3);
            },
            RotationV::Path(p) => {
                let w = p.waypoints[i];
                let we = rotation_waypoint_elem(w);
                lemma_text_el_height("azimuth"@, w.azimuth);
                lemma_text_el_height("elevation"@, w.elevation);
                lemma_text_el_height("time"@, w.time);
                assert forall|q: int| 0 <= q < we.children.len() implies node_height(
                    #[trigger] we.children[q],
                ) <= 1 by {
                    assert(q == 0 || q == 1 || q == 2);
                }
                lemma_nodes_height_all(we.children, 1);
                assert(e.children[i] == NodeV::Elem(we));
            },
        }
    }
    lemma_nodes_height_all(e.children, 2);
}

/// A component element is at most three levels tall.
pub proof fn lemma_component_nodes_height(c: PlatformComponentV, table: Seq<(Seq<char>, Seq<char>)>)
    ensures
        forall|i: int|
            0 <= i < component_nodes(c, table).len() ==> node_height(
                #[trigger] component_nodes(c, table)[i],
            ) <= 3,
{
    let v = component_nodes(c, table);
    assert forall|i: int| 0 <= i < v.len() implies node_height(#[trigger] v[i]) <= 3 by {
        match c {
            PlatformComponentV::NoComponent => {},
            PlatformComponentV::Monostatic(m) => {
                let e = monostatic_elem(m, table);
                let k0 = seq![
                    NodeV::Elem(text_el("window_skip"@, m.window_skip)),
                    NodeV::Elem(text_el("window_length"@, m.window_length)),
                    NodeV::Elem(text_el("prf"@, m.prf)),
                ];
                lemma_text_el_height("window_skip"@, m.window_skip);
                lemma_text_el_height("window_length"@, m.window_length);
                lemma_text_el_height("prf"@, m.prf);
                assert forall|q: int| 0 <= q < k0.len() implies node_height(#[trigger] k0[q])
                    <= 2 by {
                    assert(q == 0 || q == 1 || q == 2);
                }
                lemma_push_opt_text_height(k0, "noise_temp"@, m.noiseTemperature, 2);
                lemma_nodes_height_all(e.children, 2);
            },
            PlatformComponentV::Transmitter(t) => {
                let e = transmitter_elem(t, table);
                lemma_text_el_height("prf"@, t.prf);
                assert forall|q: int| 0 <= q < e.children.len() implies node_height(
                    #[trigger] e.children[q],
                ) <= 2 by {
                    assert(q == 0);
                }
                lemma_nodes_height_all(e.children, 2);
            },
            PlatformComponentV::Receiver(r) => {
                let e = receiver_elem(r, table);
                let k0 = seq![
                    NodeV::Elem(text_el("window_skip"@, r.window_skip)),
                    NodeV::Elem(text_el("window_length"@, r.window_length)),
                    NodeV::Elem(text_el("prf"@, r.prf)),
                ];
                lemma_text_el_height("window_skip"@, r.window_skip);
                lemma_text_el_height("window_length"@, r.window_length);
                lemma_text_el_height("prf"@, r.prf);
                assert forall|q: int| 0 <= q < k0.len() implies node_height(#[trigger] k0[q])
                    <= 2 by {
                    assert(q == 0 || q == 1 || q == 2);
                }
                lemma_push_opt_text_height(k0, "noise_temp"@, r.noiseTemperature, 2);
                lemma_nodes_height_all(e.children, 2);
            },
            PlatformComponentV::Target(t) => {
                let e = target_elem(t);
                assert forall|q: int| 0 <= q < e.children.len() implies node_height(
                    #[trigger] e.children[q],
                ) <= 2 by {
                    lemma_push_opt_text_height(Seq::empty(), "value"@, t.rcs_value, 1);
                    let rcs = ElemV {
                        name: "rcs"@,
                        attrs: push_opt_attr(
                            seq![AttrV { name: "type"@, value: t.rcs_type }],
                            "filename"@,
                            t.rcs_filename,
                        ),
                        children: push_opt_text(Seq::empty(), "value"@, t.rcs_value),
                    };
                    lemma_nodes_height_all(rcs.children, 1);
                    lemma_push_opt_text_height(Seq::empty(), "k"@, t.rcs_k, 1);
                    let model = ElemV {
                        name: "model"@,
                        attrs: seq![AttrV { name: "type"@, value: t.rcs_model }],
                        children: push_opt_text(Seq::empty(), "k"@, t.rcs_k),
                    };
                    lemma_nodes_height_all(model.children, 1);
                    assert(q == 0 || q == 1);
                }
                lemma_nodes_height_all(e.children, 2);
            },
        }
    }
}

/// A platform element is at most four levels tall.
pub proof fn lemma_platform_elem_height(p: PlatformV, table: Seq<(Seq<char>, Seq<char>)>)
    ensures
        elem_height(platform_elem(p, table)) <= 4,
{
    let e = platform_elem(p, table);
    let head = seq![
        NodeV::Elem(motionpath_elem(p)),
        NodeV::Elem(rotation_elem(p.rotation)),
    ];
    let comp = component_nodes(p.component, table);
    assert forall|i: int| 0 <= i < e.children.len() implies node_height(
        #[trigger] e.children[i],
    ) <= 3 by {
        lemma_motionpath_elem_height(p);
        lemma_rotation_elem_height(p.rotation);
        lemma_component_nodes_height(p.component, table);
        if i < head.len() {
            assert(e.children[i] == head[i]);
            assert(i == 0 || i == 1);
        } else {
            assert(e.children[i] == comp[i - head.len()]);
        }
    }
    lemma_nodes_height_all(e.children, 3);
}

/// The whole scenario document nests at most five elements deep.
pub proof fn lemma_scenario_tree_height(m: ScenarioV)
    ensures
        elem_height(scenario_tree(m)) <= 5,
{
    let e = scenario_tree(m);
    let table = table_of(m);
    let k0 = seq![NodeV::Elem(params_elem(m.globalParameters))];
    let k1 = Seq::new(m.pulses.len(), |i: int| NodeV::Elem(pulse_elem(m.pulses[i])));
    let k2 = Seq::new(m.timings.len(), |i: int| NodeV::Elem(timing_elem(m.timings[i])));
    let k3 = Seq::new(m.antennas.len(), |i: int| NodeV::Elem(antenna_elem(m.antennas[i])));
    let k4 = Seq::new(m.platforms.len(), |i: int| NodeV::Elem(platform_elem(m.platforms[i], table)));
    assert forall|i: int| 0 <= i < e.children.len() implies node_height(
        #[trigger] e.children[i],
    ) <= 4 by {
        if i < k0.len() {
            assert(e.children[i] == k0[i]);
            lemma_params_elem_height(m.globalParameters);
        } else if i < k0.len() + k1.len() {
            assert(e.children[i] == k1[i - k0.len()]);
            lemma_pulse_elem_height(m.pulses[i - k0.len()]);
        } else if i < k0.len() + k1.len() + k2.len() {
            assert(e.children[i] == k2[i - k0.len() - k1.len()]);
            lemma_timing_elem_height(m.timings[i - k0.len() - k1.len()]);
        } else if i < k0.len() + k1.len() + k2.len() + k3.len() {
            assert(e.children[i] == k3[i - k0.len() - k1.len() - k2.len()]);
            lemma_antenna_elem_height(m.antennas[i - k0.len() - k1.len() - k2.len()]);
        } else {
            assert(e.children[i] == k4[i - k0.len() - k1.len() - k2.len() - k3.len()]);
            lemma_platform_elem_height(
                m.platforms[i - k0.len() - k1.len() - k2.len() - k3.len()],
                table,
            );
        }
    }
    lemma_nodes_height_all(e.children, 4);
}

} // verus!

// The reverse direction: the mathematical transform from a document tree
// back to a scenario value.  `None` marks a schema mismatch.  Identifiers
// are synthesized from the position of each entity, with one prefix per
// entity kind, so they are unique within the converted document.

use crate::text::all_digits;
use crate::text::digits_val;
use crate::text::int_text_val;
use crate::text::is_int_text;
use crate::text::is_number_text;

verus! {

/// The value of the first attribute of that name, if any.
pub open spec fn find_attr(attrs: Seq<AttrV>, name: Seq<char>) -> Option<Seq<char>>
    decreases attrs.len(),
{
    if attrs.len() == 0 {
        None
    } else if attrs[0].name == name {
        Some(attrs[0].value)
    } else {
        find_attr(attrs.subrange(1, attrs.len() as int), name)
    }
}

/// The element behind a node value; a text node yields a nameless element.
pub open spec fn elem_of(n: NodeV) -> ElemV {
    match n {
        NodeV::Elem(e) => e,
        NodeV::Text(_) => ElemV { name: Seq::empty(), attrs: Seq::empty(), children: Seq::empty() },
    }
}

/// The first child element of that name, if any.
pub open spec fn find_child(v: Seq<NodeV>, name: Seq<char>) -> Option<ElemV>
    decreases v.len(),
{
    if v.len() == 0 {
        None
    } else if v[0] is Elem && elem_of(v[0]).name == name {
        Some(elem_of(v[0]))
    } else {
        find_child(v.subrange(1, v.len() as int), name)
    }
}

/// All child elements of that name, in order.
pub open spec fn elems_named(v: Seq<NodeV>, name: Seq<char>) -> Seq<ElemV>
    decreases v.len(),
{
    if v.len() == 0 {
        Seq::empty()
    } else {
        let rest = elems_named(v.subrange(1, v.len() as int), name);
        if v[0] is Elem && elem_of(v[0]).name == name {
            seq![elem_of(v[0])] + rest
        } else {
            rest
        }
    }
}

/// The text an element holds: its single text run, or the empty text for an
/// element without children.
pub open spec fn text_content(e: ElemV) -> Option<Seq<char>> {
    if e.children.len() == 0 {
        Some(Seq::empty())
    } else if e.children.len() == 1 && e.children[0] is Text {
        Some(text_of_node(e.children[0]))
    } else {
        None
    }
}

/// The text behind a text node.
pub open spec fn text_of_node(n: NodeV) -> Seq<char> {
    match n {
        NodeV::Text(t) => t,
        NodeV::Elem(_) => Seq::empty(),
    }
}

/// The text of a required scalar child that must read as a number.
pub open spec fn num_child(e: ElemV, name: Seq<char>) -> Option<Seq<char>> {
    match find_child(e.children, name) {
        None => None,
        Some(c) => match text_content(c) {
            None => None,
            Some(t) => if is_number_text(t) {
                Some(t)
            } else {
                None
            },
        },
    }
}

/// The text of an optional scalar child; present text must read as a
/// number.  The outer option marks failure, the inner one absence.
pub open spec fn opt_num_child(e: ElemV, name: Seq<char>) -> Option<Option<Seq<char>>> {
    match find_child(e.children, name) {
        None => Some(None),
        Some(c) => match text_content(c) {
            None => None,
            Some(t) => if is_number_text(t) {
                Some(Some(t))
            } else {
                None
            },
        },
    }
}

/// A boolean out of an attribute or scalar text.
pub open spec fn bool_of_text(t: Seq<char>) -> Option<bool> {
    if t == "true"@ || t == "1"@ {
        Some(true)
    } else if t == "false"@ || t == "0"@ {
        Some(false)
    } else {
        None
    }
}

/// The synthesized identifier of the entity at a position, one prefix per
/// entity kind.
pub open spec fn synth_id(prefix: Seq<char>, i: int) -> Seq<char> {
    prefix + dec_digits(i as nat)
}

/// The synthesized identifier of a nested entity.
pub open spec fn synth_id2(prefix: Seq<char>, i: int, j: int) -> Seq<char> {
    prefix + dec_digits(i as nat) + seq!['-'] + dec_digits(j as nat)
}

/// The scenario value a pulse element maps to.
pub open spec fn tr_pulse(e: ElemV, i: int) -> Option<PulseV> {
    match find_attr(e.attrs, "name"@) {
        None => None,
        Some(name) => match find_attr(e.attrs, "type"@) {
            None => None,
            Some(ptype) => match num_child(e, "power"@) {
                None => None,
                Some(power) => match num_child(e, "carrier"@) {
                    None => None,
                    Some(carrier) => Some(
                        PulseV {
                            id: synth_id("pulse-"@, i),
                            type_tag: "Pulse"@,
                            name,
                            pulseType: if ptype == "continuous"@ {
                                "cw"@
                            } else {
                                ptype
                            },
                            power,
                            carrier,
                            filename: find_attr(e.attrs, "filename"@),
                        },
                    ),
                },
            },
        },
    }
}

/// The scenario values of a list of pulse elements; any failure fails the
/// whole list.
pub open spec fn tr_pulses(els: Seq<ElemV>) -> Option<Seq<PulseV>>
    decreases els.len(),
{
    if els.len() == 0 {
        Some(Seq::empty())
    } else {
        match tr_pulses(els.drop_last()) {
            None => None,
            Some(v) => match tr_pulse(els.last(), els.len() - 1) {
                None => None,
                Some(p) => Some(v.push(p)),
            },
        }
    }
}

/// The scenario value a noise entry element maps to.
pub open spec fn tr_noise(e: ElemV, i: int, j: int) -> Option<NoiseEntryV> {
    match num_child(e, "alpha"@) {
        None => None,
        Some(alpha) => match num_child(e, "weight"@) {
            None => None,
            Some(weight) => Some(NoiseEntryV { id: synth_id2("noise-"@, i, j), alpha, weight }),
        },
    }
}

/// The scenario values of the noise entries of the timing at position `i`.
pub open spec fn tr_noises(els: Seq<ElemV>, i: int) -> Option<Seq<NoiseEntryV>>
    decreases els.len(),
{
    if els.len() == 0 {
        Some(Seq::empty())
    } else {
        match tr_noises(els.drop_last(), i) {
            None => None,
            Some(v) => match tr_noise(els.last(), i, els.len() - 1) {
                None => None,
                Some(n) => Some(v.push(n)),
            },
        }
    }
}

/// The scenario value a timing element maps to.
pub open spec fn tr_timing(e: ElemV, i: int) -> Option<TimingV> {
    match find_attr(e.attrs, "name"@) {
        None => None,
        Some(name) => match num_child(e, "frequency"@) {
            None => None,
            Some(frequency) => match opt_num_child(e, "freq_offset"@) {
                None => None,
                Some(fo) => match opt_num_child(e, "random_freq_offset_stdev"@) {
                    None => None,
                    Some(rfo) => match opt_num_child(e, "phase_offset"@) {
                        None => None,
                        Some(po) => match opt_num_child(e, "random_phase_offset_stdev"@) {
                            None => None,
                            Some(rpo) => match tr_noises(
                                elems_named(e.children, "noise_entry"@),
                                i,
                            ) {
                                None => None,
                                Some(ns) => Some(
                                    TimingV {
                                        id: synth_id("timing-"@, i),
                                        type_tag: "Timing"@,
                                        name,
                                        frequency,
                                        freqOffset: fo,
                                        randomFreqOffsetStdev: rfo,
                                        phaseOffset: po,
                                        randomPhaseOffsetStdev: rpo,
                                        noiseEntries: ns,
                                    },
                                ),
                            },
                        },
                    },
                },
            },
        },
    }
}

/// The scenario values of a list of timing elements.
pub open spec fn tr_timings(els: Seq<ElemV>) -> Option<Seq<TimingV>>
    decreases els.len(),
{
    if els.len() == 0 {
        Some(Seq::empty())
    } else {
        match tr_timings(els.drop_last()) {
            None => None,
            Some(v) => match tr_timing(els.last(), els.len() - 1) {
                None => None,
                Some(t) => Some(v.push(t)),
            },
        }
    }
}

/// The scenario value an antenna element maps to.
pub open spec fn tr_antenna(e: ElemV, i: int) -> Option<AntennaV> {
    match find_attr(e.attrs, "name"@) {
        None => None,
        Some(name) => match find_attr(e.attrs, "pattern"@) {
            None => None,
            Some(pattern) => match opt_num_child(e, "efficiency"@) {
                None => None,
                Some(efficiency) => match opt_num_child(e, "alpha"@) {
                    None => None,
                    Some(alpha) => match opt_num_child(e, "beta"@) {
                        None => None,
                        Some(beta) => match opt_num_child(e, "gamma"@) {
                            None => None,
                            Some(gamma) => match opt_num_child(e, "azscale"@) {
                                None => None,
                                Some(azscale) => match opt_num_child(e, "elscale"@) {
                                    None => None,
                                    Some(elscale) => match opt_num_child(e, "diameter"@) {
                                        None => None,
                                        Some(diameter) => Some(
                                            AntennaV {
                                                id: synth_id("antenna-"@, i),
                                                type_tag: "Antenna"@,
                                                name,
                                                pattern,
                                                filename: find_attr(e.attrs, "filename"@),
                                                efficiency,
                                                alpha,
                                                beta,
                                                gamma,
                                                azscale,
                                                elscale,
                                                diameter,
                                            },
                                        ),
                                    },
                                },
                            },
                        },
                    },
                },
            },
        },
    }
}

/// The scenario values of a list of antenna elements.
pub open spec fn tr_antennas(els: Seq<ElemV>) -> Option<Seq<AntennaV>>
    decreases els.len(),
{
    if els.len() == 0 {
        Some(Seq::empty())
    } else {
        match tr_antennas(els.drop_last()) {
            None => None,
            Some(v) => match tr_antenna(els.last(), els.len() - 1) {
                None => None,
                Some(a) => Some(v.push(a)),
            },
        }
    }
}

/// The name-to-identifier table of the parsed assets; built in asset list
/// order, the last insertion wins, as on the serialize side.
pub open spec fn ntable_of(
    pulses: Seq<PulseV>,
    timings: Seq<TimingV>,
    antennas: Seq<AntennaV>,
) -> Seq<(Seq<char>, Seq<char>)> {
    Seq::new(pulses.len(), |i: int| (pulses[i].name, pulses[i].id)) + Seq::new(
        timings.len(),
        |i: int| (timings[i].name, timings[i].id),
    ) + Seq::new(antennas.len(), |i: int| (antennas[i].name, antennas[i].id))
}

/// The identifier an optional name attribute resolves to; an absent
/// attribute or an unknown name yields no reference rather than a failure.
pub open spec fn lookup_name(
    table: Seq<(Seq<char>, Seq<char>)>,
    opt_name: Option<Seq<char>>,
) -> Option<Seq<char>> {
    match opt_name {
        Some(n) => assoc_last(table, n),
        None => None,
    }
}

} // verus!

// The platform and parameter transforms, and the whole-document transform.

verus! {

/// The scenario value a motion waypoint element maps to.
pub open spec fn tr_position_waypoint(e: ElemV, i: int, j: int) -> Option<PositionWaypointV> {
    match num_child(e, "x"@) {
        None => None,
        Some(x) => match num_child(e, "y"@) {
            None => None,
            Some(y) => match num_child(e, "altitude"@) {
                None => None,
                Some(altitude) => match num_child(e, "time"@) {
                    None => None,
                    Some(time) => Some(
                        PositionWaypointV { id: synth_id2("wp-"@, i, j), x, y, altitude, time },
                    ),
                },
            },
        },
    }
}

/// The scenario values of the motion waypoints of the platform at `i`.
pub open spec fn tr_position_waypoints(els: Seq<ElemV>, i: int) -> Option<Seq<PositionWaypointV>>
    decreases els.len(),
{
    if els.len() == 0 {
        Some(Seq::empty())
    } else {
        match tr_position_waypoints(els.drop_last(), i) {
            None => None,
            Some(v) => match tr_position_waypoint(els.last(), i, els.len() - 1) {
                None => None,
                Some(w) => Some(v.push(w)),
            },
        }
    }
}

/// The scenario value a rotation waypoint element maps to.
pub open spec fn tr_rotation_waypoint(e: ElemV, i: int, j: int) -> Option<RotationWaypointV> {
    match num_child(e, "azimuth"@) {
        None => None,
        Some(azimuth) => match num_child(e, "elevation"@) {
            None => None,
            Some(elevation) => match num_child(e, "time"@) {
                None => None,
                Some(time) => Some(
                    RotationWaypointV { id: synth_id2("rwp-"@, i, j), azimuth, elevation, time },
                ),
            },
        },
    }
}

/// The scenario values of the rotation waypoints of the platform at `i`.
pub open spec fn tr_rotation_waypoints(els: Seq<ElemV>, i: int) -> Option<Seq<RotationWaypointV>>
    decreases els.len(),
{
    if els.len() == 0 {
        Some(Seq::empty())
    } else {
        match tr_rotation_waypoints(els.drop_last(), i) {
            None => None,
            Some(v) => match tr_rotation_waypoint(els.last(), i, els.len() - 1) {
                None => None,
                Some(w) => Some(v.push(w)),
            },
        }
    }
}

/// The rotation of a platform element: a fixed-rotation block, a
/// rotation-path block, or — with neither present — a zeroed fixed rotation.
pub open spec fn tr_rotation(e: ElemV, i: int) -> Option<RotationV> {
    match find_child(e.children, "fixedrotation"@) {
        Some(f) => match num_child(f, "startazimuth"@) {
            None => None,
            Some(sa) => match num_child(f, "startelevation"@) {
                None => None,
                Some(se) => match num_child(f, "azimuthrate"@) {
                    None => None,
                    Some(ar) => match num_child(f, "elevationrate"@) {
                        None => None,
                        Some(er) => Some(
                            RotationV::Fixed(
                                FixedRotationV {
                                    startAzimuth: sa,
                                    startElevation: se,
                                    azimuthRate: ar,
                                    elevationRate: er,
                                },
                            ),
                        ),
                    },
                },
            },
        },
        None => match find_child(e.children, "rotationpath"@) {
            Some(rp) => match find_attr(rp.attrs, "interpolation"@) {
                None => None,
                Some(interp) => match tr_rotation_waypoints(
                    elems_named(rp.children, "rotationwaypoint"@),
                    i,
                ) {
                    None => None,
                    Some(ws) => Some(
                        RotationV::Path(RotationPathV { interpolation: interp, waypoints: ws }),
                    ),
                },
            },
            None => Some(
                RotationV::Fixed(
                    FixedRotationV {
                        startAzimuth: "0"@,
                        startElevation: "0"@,
                        azimuthRate: "0"@,
                        elevationRate: "0"@,
                    },
                ),
            ),
        },
    }
}

/// An optional boolean attribute; absence means `false`.
pub open spec fn opt_bool_attr(attrs: Seq<AttrV>, name: Seq<char>) -> Option<bool> {
    match find_attr(attrs, name) {
        None => Some(false),
        Some(t) => bool_of_text(t),
    }
}

/// The component of a platform element: the first monostatic, transmitter,
/// receiver or target block; none of them means no role.
pub open spec fn tr_component(
    e: ElemV,
    table: Seq<(Seq<char>, Seq<char>)>,
) -> Option<PlatformComponentV> {
    match find_child(e.children, "monostatic"@) {
        Some(c) => match find_attr(c.attrs, "name"@) {
            None => None,
            Some(nm) => match num_child(c, "window_skip"@) {
                None => None,
                Some(wsk) => match num_child(c, "window_length"@) {
                    None => None,
                    Some(wl) => match num_child(c, "prf"@) {
                        None => None,
                        Some(prf) => match opt_num_child(c, "noise_temp"@) {
                            None => None,
                            Some(nt) => match opt_bool_attr(c.attrs, "nodirect"@) {
                                None => None,
                                Some(nd) => match opt_bool_attr(c.attrs, "nopropagationloss"@) {
                                    None => None,
                                    Some(np) => Some(
                                        PlatformComponentV::Monostatic(
                                            MonostaticV {
                                                name: nm,
                                                radarType: match find_attr(c.attrs, "type"@) {
                                                    Some(t) => t,
                                                    None => "pulsed"@,
                                                },
                                                window_skip: wsk,
                                                window_length: wl,
                                                prf,
                                                antennaId: lookup_name(
                                                    table,
                                                    find_attr(c.attrs, "antenna"@),
                                                ),
                                                pulseId: lookup_name(
                                                    table,
                                                    find_attr(c.attrs, "pulse"@),
                                                ),
                                                timingId: lookup_name(
                                                    table,
                                                    find_attr(c.attrs, "timing"@),
                                                ),
                                                noiseTemperature: nt,
                                                noDirectPaths: nd,
                                                noPropagationLoss: np,
                                            },
                                        ),
                                    ),
                                },
                            },
                        },
                    },
                },
            },
        },
        None => match find_child(e.children, "transmitter"@) {
            Some(c) => match find_attr(c.attrs, "name"@) {
                None => None,
                Some(nm) => match num_child(c, "prf"@) {
                    None => None,
                    Some(prf) => Some(
                        PlatformComponentV::Transmitter(
                            TransmitterV {
                                name: nm,
                                radarType: match find_attr(c.attrs, "type"@) {
                                    Some(t) => t,
                                    None => "pulsed"@,
                                },
                                prf,
                                antennaId: lookup_name(table, find_attr(c.attrs, "antenna"@)),
                                pulseId: lookup_name(table, find_attr(c.attrs, "pulse"@)),
                                timingId: lookup_name(table, find_attr(c.attrs, "timing"@)),
                            },
                        ),
                    ),
                },
            },
            None => match find_child(e.children, "receiver"@) {
                Some(c) => match find_attr(c.attrs, "name"@) {
                    None => None,
                    Some(nm) => match num_child(c, "window_skip"@) {
                        None => None,
                        Some(wsk) => match num_child(c, "window_length"@) {
                            None => None,
                            Some(wl) => match num_child(c, "prf"@) {
                                None => None,
                                Some(prf) => match opt_num_child(c, "noise_temp"@) {
                                    None => None,
                                    Some(nt) => match opt_bool_attr(c.attrs, "nodirect"@) {
                                        None => None,
                                        Some(nd) => match opt_bool_attr(
                                            c.attrs,
                                            "nopropagationloss"@,
                                        ) {
                                            None => None,
                                            Some(np) => Some(
                                                PlatformComponentV::Receiver(
                                                    ReceiverV {
                                                        name: nm,
                                                        window_skip: wsk,
                                                        window_length: wl,
                                                        prf,
                                                        antennaId: lookup_name(
                                                            table,
                                                            find_attr(c.attrs, "antenna"@),
                                                        ),
                                                        timingId: lookup_name(
                                                            table,
                                                            find_attr(c.attrs, "timing"@),
                                                        ),
                                                        noiseTemperature: nt,
                                                        noDirectPaths: nd,
                                                        noPropagationLoss: np,
                                                    },
                                                ),
                                            ),
                                        },
                                    },
                                },
                            },
                        },
                    },
                },
                None => match find_child(e.children, "target"@) {
                    Some(c) => match find_attr(c.attrs, "name"@) {
                        None => None,
                        Some(nm) => match find_child(c.children, "rcs"@) {
                            None => None,
                            Some(rcs) => match find_attr(rcs.attrs, "type"@) {
                                None => None,
                                Some(rt) => match opt_num_child(rcs, "value"@) {
                                    None => None,
                                    Some(rv) => match find_child(c.children, "model"@) {
                                        Some(md) => match find_attr(md.attrs, "type"@) {
                                            None => None,
                                            Some(mt) => match opt_num_child(md, "k"@) {
                                                None => None,
                                                Some(k) => Some(
                                                    PlatformComponentV::Target(
                                                        TargetV {
                                                            name: nm,
                                                            rcs_type: rt,
                                                            rcs_value: rv,
                                                            rcs_filename: find_attr(
                                                                rcs.attrs,
                                                                "filename"@,
                                                            ),
                                                            rcs_model: mt,
                                                            rcs_k: k,
                                                        },
                                                    ),
                                                ),
                                            },
                                        },
                                        None => Some(
                                            PlatformComponentV::Target(
                                                TargetV {
                                                    name: nm,
                                                    rcs_type: rt,
                                                    rcs_value: rv,
                                                    rcs_filename: find_attr(
                                                        rcs.attrs,
                                                        "filename"@,
                                                    ),
                                                    rcs_model: "constant"@,
                                                    rcs_k: None,
                                                },
                                            ),
                                        ),
                                    },
                                },
                            },
                        },
                    },
                    None => Some(PlatformComponentV::NoComponent),
                },
            },
        },
    }
}

/// The scenario value a platform element maps to.
pub open spec fn tr_platform(e: ElemV, i: int, table: Seq<(Seq<char>, Seq<char>)>) -> Option<
    PlatformV,
> {
    match find_attr(e.attrs, "name"@) {
        None => None,
        Some(name) => match find_child(e.children, "motionpath"@) {
            None => None,
            Some(mp) => match find_attr(mp.attrs, "interpolation"@) {
                None => None,
                Some(interp) => match tr_position_waypoints(
                    elems_named(mp.children, "positionwaypoint"@),
                    i,
                ) {
                    None => None,
                    Some(ws) => match tr_rotation(e, i) {
                        None => None,
                        Some(rot) => match tr_component(e, table) {
                            None => None,
                            Some(comp) => Some(
                                PlatformV {
                                    id: synth_id("platform-"@, i),
                                    type_tag: "Platform"@,
                                    name,
                                    motionPath: MotionPathV {
                                        interpolation: interp,
                                        waypoints: ws,
                                    },
                                    rotation: rot,
                                    component: comp,
                                },
                            ),
                        },
                    },
                },
            },
        },
    }
}

/// The scenario values of a list of platform elements.
pub open spec fn tr_platforms(els: Seq<ElemV>, table: Seq<(Seq<char>, Seq<char>)>) -> Option<
    Seq<PlatformV>,
>
    decreases els.len(),
{
    if els.len() == 0 {
        Some(Seq::empty())
    } else {
        match tr_platforms(els.drop_last(), table) {
            None => None,
            Some(v) => match tr_platform(els.last(), els.len() - 1, table) {
                None => None,
                Some(p) => Some(v.push(p)),
            },
        }
    }
}

/// The global parameters a parameters block maps to, together with the
/// simulation name from the document element.
pub open spec fn tr_params(e: ElemV, sim_name: Seq<char>) -> Option<GlobalParametersV> {
    match num_child(e, "starttime"@) {
        None => None,
        Some(start) => match num_child(e, "endtime"@) {
            None => None,
            Some(end) => match num_child(e, "rate"@) {
                None => None,
                Some(rate) => match num_child(e, "c"@) {
                    None => None,
                    Some(c) => match opt_num_child(e, "simSamplingRate"@) {
                        None => None,
                        Some(ssr) => match tr_seed(e) {
                            None => None,
                            Some(seed) => match tr_i64_child(e, "adc_bits"@) {
                                None => None,
                                Some(adc) => match tr_i64_child(e, "oversample"@) {
                                    None => None,
                                    Some(ovs) => match find_child(e.children, "export"@) {
                                        None => None,
                                        Some(ex) => match tr_export(ex) {
                                            None => None,
                                            Some(export) => Some(
                                                GlobalParametersV {
                                                    id: "global-parameters"@,
                                                    type_tag: "GlobalParameters"@,
                                                    simulation_name: sim_name,
                                                    start,
                                                    end,
                                                    rate,
                                                    simSamplingRate: ssr,
                                                    c,
                                                    random_seed: seed,
                                                    adc_bits: adc,
                                                    oversample_ratio: ovs,
                                                    export,
                                                },
                                            ),
                                        },
                                    },
                                },
                            },
                        },
                    },
                },
            },
        },
    }
}

/// The optional random seed: a nonempty string of digits that fits an
/// unsigned machine word.  The outer option marks failure.
pub open spec fn tr_seed(e: ElemV) -> Option<Option<u64>> {
    match find_child(e.children, "randomseed"@) {
        None => Some(None),
        Some(c) => match text_content(c) {
            None => None,
            Some(t) => if all_digits(t) && digits_val(t) <= u64::MAX as nat {
                Some(Some(digits_val(t) as u64))
            } else {
                None
            },
        },
    }
}

/// A required signed integer child that fits a signed machine word.
pub open spec fn tr_i64_child(e: ElemV, name: Seq<char>) -> Option<i64> {
    match find_child(e.children, name) {
        None => None,
        Some(c) => match text_content(c) {
            None => None,
            Some(t) => if is_int_text(t) && i64::MIN as int <= int_text_val(t) <= i64::MAX as int {
                Some(int_text_val(t) as i64)
            } else {
                None
            },
        },
    }
}

/// The export switches of an export element's attributes.
pub open spec fn tr_export(e: ElemV) -> Option<ExportOptionsV> {
    match find_attr(e.attrs, "binary"@) {
        None => None,
        Some(bt) => match bool_of_text(bt) {
            None => None,
            Some(b) => match find_attr(e.attrs, "csv"@) {
                None => None,
                Some(ct) => match bool_of_text(ct) {
                    None => None,
                    Some(cv) => match find_attr(e.attrs, "xml"@) {
                        None => None,
                        Some(xt) => match bool_of_text(xt) {
                            None => None,
                            Some(x) => Some(ExportOptionsV { xml: x, csv: cv, binary: b }),
                        },
                    },
                },
            },
        },
    }
}

/// The scenario a whole document tree maps to: the mathematical content of
/// deserialization.
pub open spec fn tree_scenario(e: ElemV) -> Option<ScenarioV> {
    if e.name != "simulation"@ {
        None
    } else {
        match find_attr(e.attrs, "name"@) {
            None => None,
            Some(sim_name) => match find_child(e.children, "parameters"@) {
                None => None,
                Some(pe) => match tr_params(pe, sim_name) {
                    None => None,
                    Some(params) => match tr_pulses(elems_named(e.children, "pulse"@)) {
                        None => None,
                        Some(pulses) => match tr_timings(elems_named(e.children, "timing"@)) {
                            None => None,
                            Some(timings) => match tr_antennas(
                                elems_named(e.children, "antenna"@),
                            ) {
                                None => None,
                                Some(antennas) => match tr_platforms(
                                    elems_named(e.children, "platform"@),
                                    ntable_of(pulses, timings, antennas),
                                ) {
                                    None => None,
                                    Some(platforms) => Some(
                                        ScenarioV {
                                            globalParameters: params,
                                            pulses,
                                            timings,
                                            antennas,
                                            platforms,
                                        },
                                    ),
                                },
                            },
                        },
                    },
                },
            },
        }
    }
}

} // verus!
