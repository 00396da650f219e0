//! A minimal container launcher: resolves a registry auth challenge, fetches
//! an image manifest, decodes its layers onto a root in manifest order, and
//! drives the isolation steps — staging root, binary staging, root change,
//! device nodes, pid isolation — as a verified state machine that always
//! releases the staging root before the run terminates.

pub mod auth;
pub mod chars;
pub mod errors;
pub mod launcher;
pub mod manifest;
pub mod materialize;
pub mod reference;
