//! A location-aware todo tracker.
//!
//! Todos may carry circular geographic trigger zones; the matcher decides
//! which incomplete todos have a zone containing (or near) a live
//! coordinate. Coordinates are held in fixed-point units — degrees scaled
//! by ten million — and distances and radii in whole millimetres, so every
//! rule about matching, storage and validation is stated and proved over
//! plain integers.

pub mod matcher;
pub mod model;
pub mod store;
