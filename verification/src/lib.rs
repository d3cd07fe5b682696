//! gpx is a library for reading and writing GPX (GPS Exchange Format)
//! files, in both of the format's schema generations (1.0 and 1.1).
//!
//! The parser walks a stream of XML structural events and enforces the
//! per-element GPX grammar; the writer regenerates an equivalent event
//! stream from the in-memory document.

pub use crate::reader::read;
pub use crate::writer::write_with_event_writer;
pub use crate::types::{
    Fix, Gpx, GpxCopyright, GpxVersion, Link, Metadata, Person, Point, Rect, Route, Track,
    TrackSegment, Waypoint,
};

pub mod decimal;
pub mod events;
pub mod parser;
pub mod reader;
pub mod roundtrip;
pub mod wf;
pub mod writer;
pub mod text;
pub mod types;

pub mod errors;
