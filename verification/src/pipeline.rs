//! The whole-image pipeline: block classification, per-format directory
//! decoding, reconstruction of a file tree, and extraction planning.
pub mod block;
pub mod describe;
pub mod detect;
pub mod extract;
pub mod file;
pub mod parse;
pub mod reconstruct;
pub mod vms;
