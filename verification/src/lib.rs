//! Core logic of a desktop shell that launches a local transcription backend.
//!
//! The shell itself does three things: it picks a free local port and hands the
//! backend's base URL to its views, it locates an interpreter and a backend
//! directory through a fixed list of candidate paths, and it turns the exit
//! status and output of the transcriber script into a result or a friendly
//! error message.  Everything here that is a pure computation — path and URL
//! construction, candidate enumeration and selection, output classification —
//! is verified; the process spawning and filesystem probing around it live in
//! the unverified application shell, which feeds plain values in and out.

pub mod launch;
pub mod paths;
pub mod text;
pub mod transcribe;
