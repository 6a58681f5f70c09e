//! Save-set (VMS BACKUP) decoding: Phase-1 block framing, file header,
//! extended header and directory records, and assembly of decoded blocks
//! into files and a directory tree.
pub mod extract;
pub mod vms;
