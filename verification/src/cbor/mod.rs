//! CBOR items and the field maps that messages are made of.
pub mod body;
pub mod code;
pub mod fields;
pub mod item;
pub mod laws;
pub mod reader;
pub mod reading;
pub mod refusals;
pub mod writing;
