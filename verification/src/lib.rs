//! Verified core of a keyboard-lighting daemon: a logical lighting state
//! with a pluggable hardware driver, a persistence record format, and a
//! binary command protocol that batches hardware writes.

pub mod color;
pub mod driver;
pub mod keyboard;
pub mod ms1563;
pub mod recording;
pub mod proto;
pub mod response;
