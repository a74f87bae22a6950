//! An interactive candidate picker: fuzzy ranking of a fixed candidate list,
//! saved scopes that narrow later searches, a bounded selection cursor,
//! page-wise windowing and a lazily filled preview cache.

pub mod fuzzy;
pub mod picker;
pub mod preview;
pub mod ranking;
pub mod window;
