//! End-to-end checks of the transcoder: serialization shape, parsing,
//! reference resolution and the round trip between them.

use fers_scenario::scenario::ExportOptions;
use fers_scenario::scenario::FixedRotation;
use fers_scenario::scenario::GlobalParameters;
use fers_scenario::scenario::MotionPath;
use fers_scenario::scenario::Platform;
use fers_scenario::scenario::PlatformComponent;
use fers_scenario::scenario::Pulse;
use fers_scenario::scenario::Rotation;
use fers_scenario::scenario::ScenarioState;
use fers_scenario::scenario::Transmitter;
use fers_scenario::xml_handler::generate_xml_from_state;
use fers_scenario::xml_handler::parse_xml_to_state;

fn base_params(name: &str) -> GlobalParameters {
    let mut g = GlobalParameters::default();
    g.simulation_name = name.to_string();
    g
}

fn pulse(id: &str, name: &str) -> Pulse {
    Pulse {
        id: id.to_string(),
        type_tag: "Pulse".to_string(),
        name: name.to_string(),
        pulseType: "cw".to_string(),
        power: "10".to_string(),
        carrier: "1e9".to_string(),
        filename: None,
    }
}

fn transmitter_platform(name: &str, pulse_id: Option<String>) -> Platform {
    Platform {
        id: "p1".to_string(),
        type_tag: "Platform".to_string(),
        name: name.to_string(),
        motionPath: MotionPath { interpolation: "static".to_string(), waypoints: Vec::new() },
        rotation: Rotation::Fixed(FixedRotation {
            startAzimuth: "0".to_string(),
            startElevation: "0".to_string(),
            azimuthRate: "0".to_string(),
            elevationRate: "0".to_string(),
        }),
        component: PlatformComponent::Transmitter(Transmitter {
            name: "TX".to_string(),
            radarType: "pulsed".to_string(),
            prf: "1000".to_string(),
            antennaId: None,
            pulseId: pulse_id,
            timingId: None,
        }),
    }
}

#[test]
fn generates_declaration_and_root() {
    let state = ScenarioState {
        globalParameters: base_params("Sim1"),
        pulses: vec![],
        timings: vec![],
        antennas: vec![],
        platforms: vec![],
    };
    let xml = generate_xml_from_state(state).unwrap();
    assert!(xml.starts_with("<?xml version=\"1.0\"?>"));
    assert!(xml.contains("<!DOCTYPE simulation SYSTEM \"fers-xml.dtd\">"));
    assert!(xml.contains("<simulation name=\"Sim1\">"));
    assert!(xml.contains("<starttime>0</starttime>"));
    assert!(xml.contains("<endtime>10</endtime>"));
    assert!(xml.contains("<rate>10000</rate>"));
    assert!(xml.contains("<c>299792458</c>"));
    assert!(xml.contains("<adc_bits>12</adc_bits>"));
    assert!(xml.contains("<oversample>1</oversample>"));
    assert!(xml.contains("<export binary=\"false\" csv=\"false\" xml=\"false\"/>"));
}

#[test]
fn omits_absent_optional_fields() {
    let state = ScenarioState {
        globalParameters: base_params("Sim"),
        pulses: vec![pulse("x1", "P1")],
        timings: vec![],
        antennas: vec![],
        platforms: vec![],
    };
    let xml = generate_xml_from_state(state).unwrap();
    assert!(!xml.contains("simSamplingRate"));
    assert!(!xml.contains("randomseed"));
    assert!(!xml.contains("filename"));
}

#[test]
fn renders_present_optional_fields() {
    let mut g = base_params("Sim");
    g.simSamplingRate = Some("2000".to_string());
    g.random_seed = Some(42);
    let mut p = pulse("x1", "P1");
    p.pulseType = "file".to_string();
    p.filename = Some("wave.csv".to_string());
    let state = ScenarioState {
        globalParameters: g,
        pulses: vec![p],
        timings: vec![],
        antennas: vec![],
        platforms: vec![],
    };
    let xml = generate_xml_from_state(state).unwrap();
    assert!(xml.contains("<simSamplingRate>2000</simSamplingRate>"));
    assert!(xml.contains("<randomseed>42</randomseed>"));
    assert!(xml.contains("<pulse name=\"P1\" type=\"file\" filename=\"wave.csv\">"));
}

#[test]
fn resolves_reference_to_display_name() {
    let state = ScenarioState {
        globalParameters: base_params("Sim"),
        pulses: vec![pulse("pulse-id-x", "TX1")],
        timings: vec![],
        antennas: vec![],
        platforms: vec![transmitter_platform("Plat", Some("pulse-id-x".to_string()))],
    };
    let xml = generate_xml_from_state(state).unwrap();
    assert!(xml.contains("pulse=\"TX1\""));
}

#[test]
fn omits_dangling_reference() {
    let state = ScenarioState {
        globalParameters: base_params("Sim"),
        pulses: vec![pulse("pulse-id-x", "TX1")],
        timings: vec![],
        antennas: vec![],
        platforms: vec![transmitter_platform("Plat", Some("no-such-id".to_string()))],
    };
    let xml = generate_xml_from_state(state).unwrap();
    assert!(!xml.contains("pulse=\""));
}

#[test]
fn parses_scenario_document() {
    let doc = "<?xml version=\"1.0\"?>\n\
        <!DOCTYPE simulation SYSTEM \"fers-xml.dtd\">\n\
        <simulation name=\"Sim1\">\n\
          <parameters>\n\
            <starttime>0</starttime>\n\
            <endtime>10</endtime>\n\
            <rate>1000</rate>\n\
            <c>299792458</c>\n\
            <adc_bits>12</adc_bits>\n\
            <oversample>1</oversample>\n\
            <export binary=\"true\" csv=\"false\" xml=\"false\"/>\n\
          </parameters>\n\
          <pulse name=\"P1\" type=\"continuous\">\n\
            <power>10</power>\n\
            <carrier>1e9</carrier>\n\
          </pulse>\n\
          <platform name=\"Plat\">\n\
            <motionpath interpolation=\"static\"/>\n\
            <transmitter name=\"TX\" type=\"pulsed\" pulse=\"P1\">\n\
              <prf>1000</prf>\n\
            </transmitter>\n\
          </platform>\n\
        </simulation>";
    let state = parse_xml_to_state(doc.to_string()).unwrap();
    assert_eq!(state.globalParameters.simulation_name, "Sim1");
    assert_eq!(state.globalParameters.start, "0");
    assert_eq!(state.globalParameters.end, "10");
    assert_eq!(state.globalParameters.rate, "1000");
    assert_eq!(state.globalParameters.c, "299792458");
    assert_eq!(state.globalParameters.adc_bits, 12);
    assert_eq!(state.globalParameters.oversample_ratio, 1);
    assert!(state.globalParameters.export.binary);
    assert!(!state.globalParameters.export.csv);
    assert_eq!(state.pulses.len(), 1);
    assert_eq!(state.pulses[0].name, "P1");
    assert_eq!(state.pulses[0].pulseType, "cw");
    assert_eq!(state.pulses[0].power, "10");
    assert_eq!(state.pulses[0].carrier, "1e9");
    assert_eq!(state.platforms.len(), 1);
    match &state.platforms[0].component {
        PlatformComponent::Transmitter(t) => {
            assert_eq!(t.name, "TX");
            assert_eq!(t.radarType, "pulsed");
            assert_eq!(t.prf, "1000");
            assert_eq!(t.pulseId.as_deref(), Some(state.pulses[0].id.as_str()));
        },
        _ => panic!("expected a transmitter component"),
    }
    // A platform without a rotation block falls back to a zeroed fixed one.
    match &state.platforms[0].rotation {
        Rotation::Fixed(f) => {
            assert_eq!(f.startAzimuth, "0");
            assert_eq!(f.elevationRate, "0");
        },
        _ => panic!("expected a fixed rotation"),
    }
}

#[test]
fn round_trip_preserves_transmitter_reference() {
    let doc = "<simulation name=\"Sim1\">\
        <parameters><starttime>0</starttime><endtime>10</endtime><rate>1000</rate>\
        <c>299792458</c><adc_bits>12</adc_bits><oversample>1</oversample>\
        <export binary=\"true\" csv=\"false\" xml=\"false\"/></parameters>\
        <pulse name=\"P1\" type=\"continuous\"><power>10</power><carrier>1e9</carrier></pulse>\
        <platform name=\"Plat\"><motionpath interpolation=\"static\"/>\
        <transmitter name=\"TX\" type=\"pulsed\" pulse=\"P1\"><prf>1000</prf></transmitter>\
        </platform></simulation>";
    let first = parse_xml_to_state(doc.to_string()).unwrap();
    let xml = generate_xml_from_state(first).unwrap();
    assert!(xml.contains("pulse=\"P1\""));
    let second = parse_xml_to_state(xml).unwrap();
    assert_eq!(second.pulses.len(), 1);
    assert_eq!(second.pulses[0].name, "P1");
    assert_eq!(second.pulses[0].power, "10");
    assert_eq!(second.pulses[0].carrier, "1e9");
    match &second.platforms[0].component {
        PlatformComponent::Transmitter(t) => {
            assert_eq!(t.pulseId.as_deref(), Some(second.pulses[0].id.as_str()));
        },
        _ => panic!("expected a transmitter component"),
    }
}

#[test]
fn model_round_trip_preserves_values() {
    let mut g = base_params("Loop");
    g.random_seed = Some(7);
    let state = ScenarioState {
        globalParameters: g,
        pulses: vec![pulse("id-a", "P1")],
        timings: vec![],
        antennas: vec![],
        platforms: vec![transmitter_platform("Plat", Some("id-a".to_string()))],
    };
    let xml = generate_xml_from_state(state).unwrap();
    let back = parse_xml_to_state(xml).unwrap();
    assert_eq!(back.globalParameters.simulation_name, "Loop");
    assert_eq!(back.globalParameters.random_seed, Some(7));
    assert_eq!(back.pulses.len(), 1);
    assert_eq!(back.pulses[0].name, "P1");
    assert_eq!(back.pulses[0].pulseType, "cw");
    match &back.platforms[0].component {
        PlatformComponent::Transmitter(t) => {
            assert_eq!(t.pulseId.as_deref(), Some(back.pulses[0].id.as_str()));
            assert_eq!(t.radarType, "pulsed");
        },
        _ => panic!("expected a transmitter component"),
    }
}

#[test]
fn escapes_and_unescapes_markup_characters() {
    let mut g = base_params("A & B <C>");
    g.simulation_name = "A & B <C> \"q\"".to_string();
    let state = ScenarioState {
        globalParameters: g,
        pulses: vec![],
        timings: vec![],
        antennas: vec![],
        platforms: vec![],
    };
    let xml = generate_xml_from_state(state).unwrap();
    assert!(xml.contains("name=\"A &amp; B &lt;C&gt; &quot;q&quot;\""));
    let back = parse_xml_to_state(xml).unwrap();
    assert_eq!(back.globalParameters.simulation_name, "A & B <C> \"q\"");
}

#[test]
fn component_absent_maps_to_none() {
    let doc = "<simulation name=\"S\"><parameters><starttime>0</starttime>\
        <endtime>1</endtime><rate>1</rate><c>3e8</c><adc_bits>8</adc_bits>\
        <oversample>1</oversample><export binary=\"1\" csv=\"0\" xml=\"0\"/></parameters>\
        <platform name=\"P\"><motionpath interpolation=\"linear\"/></platform></simulation>";
    let state = parse_xml_to_state(doc.to_string()).unwrap();
    match &state.platforms[0].component {
        PlatformComponent::NoComponent => {},
        _ => panic!("expected no component"),
    }
}

#[test]
fn rotation_path_parses_back() {
    let doc = "<simulation name=\"S\"><parameters><starttime>0</starttime>\
        <endtime>1</endtime><rate>1</rate><c>3e8</c><adc_bits>8</adc_bits>\
        <oversample>1</oversample><export binary=\"true\" csv=\"false\" xml=\"false\"/>\
        </parameters><platform name=\"P\"><motionpath interpolation=\"linear\"/>\
        <rotationpath interpolation=\"cubic\"><rotationwaypoint><azimuth>10</azimuth>\
        <elevation>20</elevation><time>0.5</time></rotationwaypoint></rotationpath>\
        </platform></simulation>";
    let state = parse_xml_to_state(doc.to_string()).unwrap();
    match &state.platforms[0].rotation {
        Rotation::Path(rp) => {
            assert_eq!(rp.interpolation, "cubic");
            assert_eq!(rp.waypoints.len(), 1);
            assert_eq!(rp.waypoints[0].azimuth, "10");
            assert_eq!(rp.waypoints[0].elevation, "20");
            assert_eq!(rp.waypoints[0].time, "0.5");
        },
        _ => panic!("expected a rotation path"),
    }
    let xml = generate_xml_from_state(state).unwrap();
    assert!(xml.contains("<rotationpath interpolation=\"cubic\">"));
}

#[test]
fn malformed_document_is_rejected() {
    assert!(parse_xml_to_state("<simulation".to_string()).is_err());
    assert!(parse_xml_to_state("not xml at all".to_string()).is_err());
    assert!(parse_xml_to_state("<simulation name=\"S\"></wrong>".to_string()).is_err());
}

#[test]
fn missing_required_field_is_rejected() {
    // No parameters block at all.
    let doc = "<simulation name=\"S\"></simulation>";
    assert!(parse_xml_to_state(doc.to_string()).is_err());
    // A non-numeric rate.
    let doc2 = "<simulation name=\"S\"><parameters><starttime>0</starttime>\
        <endtime>1</endtime><rate>fast</rate><c>3e8</c><adc_bits>8</adc_bits>\
        <oversample>1</oversample><export binary=\"1\" csv=\"0\" xml=\"0\"/></parameters>\
        </simulation>";
    assert!(parse_xml_to_state(doc2.to_string()).is_err());
}

#[test]
fn synthesized_identifiers_are_unique() {
    let doc = "<simulation name=\"S\"><parameters><starttime>0</starttime>\
        <endtime>1</endtime><rate>1</rate><c>3e8</c><adc_bits>8</adc_bits>\
        <oversample>1</oversample><export binary=\"1\" csv=\"0\" xml=\"0\"/></parameters>\
        <pulse name=\"A\" type=\"file\"><power>1</power><carrier>2</carrier></pulse>\
        <pulse name=\"B\" type=\"file\"><power>3</power><carrier>4</carrier></pulse>\
        <timing name=\"T\"><frequency>5</frequency></timing></simulation>";
    let state = parse_xml_to_state(doc.to_string()).unwrap();
    let mut ids: Vec<String> = Vec::new();
    for p in &state.pulses {
        ids.push(p.id.clone());
    }
    for t in &state.timings {
        ids.push(t.id.clone());
    }
    let n = ids.len();
    for i in 0..n {
        for j in (i + 1)..n {
            assert_ne!(ids[i], ids[j]);
        }
    }
}
