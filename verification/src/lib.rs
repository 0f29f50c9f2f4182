//! The logic of a live-stream hub: a registry of streams that are pulled with
//! `ffmpeg` and offered as HLS, the requests that manage it, and the rules on
//! who may send them.
//!
//! Everything here is verified. What is taken on trust is what the functions
//! of other crates and of the standard library do that are named in [`json`],
//! [`session`], [`ids`] and [`text`]. Sockets, processes, files and the
//! database are left to the program around the library: it hands in what they
//! gave, as plain values, and carries out what the functions here decide.
pub mod address;
pub mod auth;
pub mod handlers;
pub mod ids;
pub mod json;
pub mod laws;
pub mod laws_of_requests;
pub mod laws_of_sources;
pub mod laws_of_text;
pub mod model;
pub mod playlist;
pub mod probe;
pub mod registry;
pub mod reply;
pub mod session;
pub mod site;
pub mod text;
pub mod transcode;
