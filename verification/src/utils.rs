//! Small shared helpers: byte readers, character-level text handling,
//! number formatting, hex dumps, and display sanitising.
pub mod bytes;
pub mod chars;
pub mod fmt;
pub mod hex;
pub mod text;
