//! Face-crop batch planning and thumbnail bookkeeping, with machine-checked contracts.
//!
//! The crate holds the decisions of a photo batch tool: which files of a folder are
//! images, how a detected face rectangle grows into a crop that stays inside its image,
//! what each exported crop is called, which progress events a batch run emits and in
//! what order, and how delivered thumbnails are kept in a bounded, least-recently-used
//! cache. Decoding, detection, drawing and file access are left to the caller, which
//! hands their results in as plain values.

pub mod geometry;
pub mod names;
pub mod collector;
pub mod detection;
pub mod processor;
pub mod protocol;
pub mod cache;
pub mod gallery;
pub mod thumbnail;
pub mod status;
