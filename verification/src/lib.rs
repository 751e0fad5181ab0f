//! Rebuilds playable media files from a streaming cache, which keeps video
//! and audio as separate fragments beside a sidecar file of metadata.
//!
//! * [`cache`] resolves a sidecar and the fragments beside it into one
//!   record, and decides which sidecars of a directory tree count.
//! * [`filemgr`] makes file names of titles and decides where the output
//!   goes when a file of that name is already there.
//! * [`convert`] tells the padding that some fragments begin with, and steers
//!   one conversion step by step, and a batch of them.
//! * [`config`] holds the settings and decides where the remux tools are.
//! * [`paths`] and [`text`] are what the others are written with.
//!
//! Everything here works on plain values. Whoever calls the library reads the
//! disk, runs the tools and reports back what it found; the library says
//! what to look at, and decides.

pub mod cache;
pub mod config;
pub mod convert;
pub mod filemgr;
pub mod paths;
pub mod text;
