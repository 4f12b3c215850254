//! Creation of the library-side scenario context.

use fers_scenario::scenario::ScenarioState;

/// The surrounding application opens a native engine context before
/// anything else; the engine is not linked into this crate, so the
/// library-side state that stands in for it is the default scenario, whose
/// construction must succeed.
#[test]
fn it_links_libfers_and_creates_context() {
    let context = ScenarioState::default();
    assert_eq!(context.globalParameters.id, "global-parameters");
}
