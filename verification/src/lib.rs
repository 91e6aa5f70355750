//! Download lifecycle engine of a background download manager: the job
//! catalog, the admission rule, the per-job transfer state machine, the
//! control-event dispatch and the rules that name and place downloaded files.
//!
//! The library decides and computes; it does no input or output of its own.
//! Whoever drives it reads files, talks to the network and the bus, and hands
//! the library what it found.

pub mod admission;
pub mod config;
pub mod db;
pub mod download;
pub mod downloader;
pub mod laws;
pub mod listener;
pub mod path;
pub mod text;
pub mod transfer;
