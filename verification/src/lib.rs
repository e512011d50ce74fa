//! Build-time asset fingerprinting: hash file contents, embed the digest and a
//! marker token in copies of the files, record the renames in a manifest, and
//! clean the marked copies up again.
//!
//! The library holds the logic: digest rendering, fingerprint naming, marker
//! detection, path relativization, the manifest accumulator, and the per-file
//! decisions of the fingerprint and clean walks, stated over a plain model of
//! the file tree. Reading directories, copying files and writing the manifest
//! out are left to the binary around it.

pub mod config;
pub mod hashing;
pub mod hex;
pub mod laws;
pub mod manifest;
pub mod names;
pub mod paths;
pub mod strings;
pub mod walk;
