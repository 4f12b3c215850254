//! Interoperability: the documents this library writes are well-formed XML
//! for the ecosystem parser the surrounding tooling uses.

use fers_scenario::scenario::GlobalParameters;
use fers_scenario::scenario::Pulse;
use fers_scenario::scenario::ScenarioState;
use fers_scenario::xml_handler::generate_xml_from_state;

use quick_xml::events::Event;
use quick_xml::reader::Reader;

#[test]
fn emitted_document_is_well_formed_for_quick_xml() {
    let mut g = GlobalParameters::default();
    g.simulation_name = "Interop & <Test>".to_string();
    let state = ScenarioState {
        globalParameters: g,
        pulses: vec![Pulse {
            id: "x".to_string(),
            type_tag: "Pulse".to_string(),
            name: "P1".to_string(),
            pulseType: "cw".to_string(),
            power: "10".to_string(),
            carrier: "1e9".to_string(),
            filename: None,
        }],
        timings: vec![],
        antennas: vec![],
        platforms: vec![],
    };
    let xml = generate_xml_from_state(state).unwrap();
    let mut reader = Reader::from_str(&xml);
    let mut buf = Vec::new();
    let mut roots = 0;
    let mut pulses = 0;
    let mut sim_name = String::new();
    loop {
        match reader.read_event_into(&mut buf) {
            Ok(Event::Start(e)) => {
                let name = e.name().as_ref().to_string();
                if name == "simulation" {
                    roots += 1;
                    for attr in e.attributes() {
                        let attr = attr.unwrap();
                        if attr.key.as_ref() == "name" {
                            #[allow(deprecated)]
                        {
                            sim_name = attr.unescape_value().unwrap().into_owned();
                        }
                        }
                    }
                }
                if name == "pulse" {
                    pulses += 1;
                }
            },
            Ok(Event::Eof) => break,
            Ok(_) => {},
            Err(e) => panic!("quick-xml rejected the document: {e}"),
        }
        buf.clear();
    }
    assert_eq!(roots, 1);
    assert_eq!(pulses, 1);
    assert_eq!(sim_name, "Interop & <Test>");
}
