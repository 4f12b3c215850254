//! Transcoder between an in-memory radar-simulation scenario model and its
//! XML interchange document.
//!
//! The scenario model identifies entities by synthetic identifiers and links
//! platforms to reusable assets (pulses, timings, antennas) by identifier;
//! the XML format identifies the same entities by display name and links by
//! name reference.  Serialization and deserialization therefore perform a
//! name/identifier cross-resolution through a per-conversion reference
//! table, besides the structural mapping itself.
//!
//! The crate is laid out bottom up: [`text`] holds character classes and
//! decimal readings, [`xml`] the document tree with its verified writer,
//! [`parse`] the verified reader, [`scenario`] the model, [`schema`] the
//! mathematical mapping between model and tree in both directions,
//! [`xml_handler`] the executable serializer and deserializer, and
//! [`roundtrip`] the round-trip laws.

pub mod parse;
pub mod reparse;
pub mod roundtrip;
pub mod scenario;
pub mod schema;
pub mod text;
pub mod xml;
pub mod xml_handler;
