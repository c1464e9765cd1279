//! A verified syntax-highlighting pipeline for an assembly-language viewer.
//!
//! Raw source bytes plus a list of grammar captures are turned into a
//! per-line sequence of text segments, each tagged with at most one capture
//! name; capture names are mapped to colors by a fixed lookup table. The
//! grammar engine that produces the captures is an external collaborator,
//! reached through a small trusted boundary.

pub mod types;

pub mod model;

pub mod segments;

pub mod colors;

pub mod registry;

pub mod engine;

pub mod render;

pub mod laws;
