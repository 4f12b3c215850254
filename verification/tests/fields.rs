//! Checks of the field-level helpers: defaults, decimal readings, timings,
//! antennas and targets.

use fers_scenario::scenario::Antenna;
use fers_scenario::scenario::GlobalParameters;
use fers_scenario::scenario::InterpolationType;
use fers_scenario::scenario::NoiseEntry;
use fers_scenario::scenario::ScenarioState;
use fers_scenario::scenario::Timing;
use fers_scenario::scenario::default_as_constant;
use fers_scenario::scenario::default_as_isotropic;
use fers_scenario::scenario::default_as_pulsed;
use fers_scenario::scenario::default_as_true;
use fers_scenario::scenario::default_antenna_type_field;
use fers_scenario::scenario::default_gp_id;
use fers_scenario::scenario::default_gp_type;
use fers_scenario::scenario::default_platform_type_field;
use fers_scenario::scenario::default_pulse_type_field;
use fers_scenario::scenario::default_timing_type_field;
use fers_scenario::scenario::PlatformComponent;
use fers_scenario::scenario::Platform;
use fers_scenario::scenario::MotionPath;
use fers_scenario::scenario::PositionWaypoint;
use fers_scenario::scenario::Rotation;
use fers_scenario::scenario::FixedRotation;
use fers_scenario::scenario::Target;
use fers_scenario::xml_handler::generate_xml_from_state;
use fers_scenario::xml_handler::i64_string;
use fers_scenario::xml_handler::map_err;
use fers_scenario::xml_handler::parse_xml_to_state;
use fers_scenario::xml_handler::u64_string;

#[test]
fn default_values_are_fixed() {
    assert!(default_as_true());
    assert_eq!(default_as_pulsed(), "pulsed");
    assert_eq!(default_as_isotropic(), "isotropic");
    assert_eq!(default_as_constant(), "constant");
    assert_eq!(default_gp_id(), "global-parameters");
    assert_eq!(default_gp_type(), "GlobalParameters");
    assert_eq!(default_pulse_type_field(), "Pulse");
    assert_eq!(default_timing_type_field(), "Timing");
    assert_eq!(default_antenna_type_field(), "Antenna");
    assert_eq!(default_platform_type_field(), "Platform");
    let g = GlobalParameters::default();
    assert_eq!(g.id, "global-parameters");
    assert_eq!(g.simulation_name, "FERS Simulation");
    assert_eq!(g.start, "0");
    assert_eq!(g.end, "10");
    assert_eq!(g.rate, "10000");
    assert_eq!(g.c, "299792458");
    assert_eq!(g.adc_bits, 12);
    assert_eq!(g.oversample_ratio, 1);
    assert!(g.simSamplingRate.is_none());
    assert!(g.random_seed.is_none());
    let s = ScenarioState::default();
    assert!(s.pulses.is_empty() && s.platforms.is_empty());
}

#[test]
fn interpolation_type_values_are_distinct() {
    assert_eq!(InterpolationType::Static, InterpolationType::Static);
    assert_ne!(InterpolationType::Static, InterpolationType::Linear);
    assert_ne!(InterpolationType::Linear, InterpolationType::Cubic);
}

#[test]
fn decimal_renderings_are_exact() {
    assert_eq!(u64_string(0), "0");
    assert_eq!(u64_string(42), "42");
    assert_eq!(u64_string(18446744073709551615), "18446744073709551615");
    assert_eq!(i64_string(0), "0");
    assert_eq!(i64_string(12), "12");
    assert_eq!(i64_string(-7), "-7");
    assert_eq!(i64_string(i64::MIN), "-9223372036854775808");
    assert_eq!(i64_string(i64::MAX), "9223372036854775807");
}

#[test]
fn map_err_renders_message() {
    let m = map_err("boom");
    assert_eq!(m, "boom");
}

fn minimal(gp: GlobalParameters) -> ScenarioState {
    ScenarioState {
        globalParameters: gp,
        pulses: vec![],
        timings: vec![],
        antennas: vec![],
        platforms: vec![],
    }
}

#[test]
fn timing_with_noise_entries_round_trips() {
    let mut s = minimal(GlobalParameters::default());
    s.timings.push(Timing {
        id: "t1".to_string(),
        type_tag: "Timing".to_string(),
        name: "Clock".to_string(),
        frequency: "10e6".to_string(),
        freqOffset: Some("0.1".to_string()),
        randomFreqOffsetStdev: None,
        phaseOffset: None,
        randomPhaseOffsetStdev: None,
        noiseEntries: vec![
            NoiseEntry { id: "n1".to_string(), alpha: "-2".to_string(), weight: "0.5".to_string() },
            NoiseEntry { id: "n2".to_string(), alpha: "0".to_string(), weight: "1".to_string() },
        ],
    });
    let xml = generate_xml_from_state(s).unwrap();
    assert!(xml.contains("<timing name=\"Clock\">"));
    assert!(xml.contains("<freq_offset>0.1</freq_offset>"));
    assert!(!xml.contains("phase_offset"));
    let back = parse_xml_to_state(xml).unwrap();
    assert_eq!(back.timings.len(), 1);
    let t = &back.timings[0];
    assert_eq!(t.frequency, "10e6");
    assert_eq!(t.freqOffset.as_deref(), Some("0.1"));
    assert!(t.phaseOffset.is_none());
    assert_eq!(t.noiseEntries.len(), 2);
    assert_eq!(t.noiseEntries[0].alpha, "-2");
    assert_eq!(t.noiseEntries[1].weight, "1");
}

#[test]
fn antenna_renders_only_its_patterns_parameters() {
    let mut s = minimal(GlobalParameters::default());
    s.antennas.push(Antenna {
        id: "a1".to_string(),
        type_tag: "Antenna".to_string(),
        name: "Dish".to_string(),
        pattern: "parabolic".to_string(),
        filename: None,
        efficiency: Some("0.9".to_string()),
        alpha: None,
        beta: None,
        gamma: None,
        azscale: None,
        elscale: None,
        diameter: Some("2.5".to_string()),
    });
    let xml = generate_xml_from_state(s).unwrap();
    assert!(xml.contains("<antenna name=\"Dish\" pattern=\"parabolic\">"));
    assert!(xml.contains("<efficiency>0.9</efficiency>"));
    assert!(xml.contains("<diameter>2.5</diameter>"));
    assert!(!xml.contains("azscale"));
    let back = parse_xml_to_state(xml).unwrap();
    assert_eq!(back.antennas[0].diameter.as_deref(), Some("2.5"));
    assert!(back.antennas[0].alpha.is_none());
}

#[test]
fn target_fluctuation_model_block_only_when_not_constant() {
    let mk = |model: &str, k: Option<&str>| {
        let mut s = minimal(GlobalParameters::default());
        s.platforms.push(Platform {
            id: "p1".to_string(),
            type_tag: "Platform".to_string(),
            name: "T".to_string(),
            motionPath: MotionPath {
                interpolation: "static".to_string(),
                waypoints: vec![PositionWaypoint {
                    id: "w1".to_string(),
                    x: "1".to_string(),
                    y: "2".to_string(),
                    altitude: "3".to_string(),
                    time: "0".to_string(),
                }],
            },
            rotation: Rotation::Fixed(FixedRotation {
                startAzimuth: "0".to_string(),
                startElevation: "0".to_string(),
                azimuthRate: "0".to_string(),
                elevationRate: "0".to_string(),
            }),
            component: PlatformComponent::Target(Target {
                name: "Tgt".to_string(),
                rcs_type: "isotropic".to_string(),
                rcs_value: Some("10".to_string()),
                rcs_filename: None,
                rcs_model: model.to_string(),
                rcs_k: k.map(|v| v.to_string()),
            }),
        });
        generate_xml_from_state(s).unwrap()
    };
    let constant = mk("constant", None);
    assert!(!constant.contains("<model"));
    assert!(constant.contains("<rcs type=\"isotropic\">"));
    assert!(constant.contains("<value>10</value>"));
    let swerling = mk("swerling", Some("1.5"));
    assert!(swerling.contains("<model type=\"swerling\">"));
    assert!(swerling.contains("<k>1.5</k>"));
    let back = parse_xml_to_state(swerling).unwrap();
    match &back.platforms[0].component {
        PlatformComponent::Target(t) => {
            assert_eq!(t.rcs_model, "swerling");
            assert_eq!(t.rcs_k.as_deref(), Some("1.5"));
            assert_eq!(t.rcs_value.as_deref(), Some("10"));
        },
        _ => panic!("expected a target component"),
    }
    let back2 = parse_xml_to_state(constant).unwrap();
    match &back2.platforms[0].component {
        PlatformComponent::Target(t) => {
            assert_eq!(t.rcs_model, "constant");
            assert!(t.rcs_k.is_none());
        },
        _ => panic!("expected a target component"),
    }
    // The motion waypoint survives both directions as well.
    assert_eq!(back2.platforms[0].motionPath.waypoints.len(), 1);
    assert_eq!(back2.platforms[0].motionPath.waypoints[0].altitude, "3");
}

#[test]
fn receiver_switches_round_trip() {
    let doc = "<simulation name=\"S\"><parameters><starttime>0</starttime>\
        <endtime>1</endtime><rate>1</rate><c>3e8</c><adc_bits>8</adc_bits>\
        <oversample>1</oversample><export binary=\"1\" csv=\"0\" xml=\"0\"/></parameters>\
        <platform name=\"P\"><motionpath interpolation=\"static\"/>\
        <receiver name=\"RX\" nodirect=\"true\"><window_skip>1</window_skip>\
        <window_length>2</window_length><prf>3</prf><noise_temp>290</noise_temp>\
        </receiver></platform></simulation>";
    let state = parse_xml_to_state(doc.to_string()).unwrap();
    match &state.platforms[0].component {
        PlatformComponent::Receiver(r) => {
            assert!(r.noDirectPaths);
            assert!(!r.noPropagationLoss);
            assert_eq!(r.noiseTemperature.as_deref(), Some("290"));
        },
        _ => panic!("expected a receiver component"),
    }
    let xml = generate_xml_from_state(state).unwrap();
    assert!(xml.contains("nodirect=\"true\""));
    assert!(!xml.contains("nopropagationloss"));
    let back = parse_xml_to_state(xml).unwrap();
    match &back.platforms[0].component {
        PlatformComponent::Receiver(r) => {
            assert!(r.noDirectPaths && !r.noPropagationLoss);
        },
        _ => panic!("expected a receiver component"),
    }
}
