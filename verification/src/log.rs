//! Companion log text: severity classification of lines, drive metadata
//! hints, and correlation of log lines with tape records.
pub mod parse;
