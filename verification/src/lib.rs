//! Resolution of the daily astronomy picture into a desktop background.
//!
//! The library holds the decisions: how a calendar day names a cache file,
//! which cached file is the latest, where the picture's address stands in the
//! publisher's page, when a failed download is tried again, and in which
//! order the three strategies (today's picture, the latest cached picture,
//! restoring the previous background) are taken. Network, file system and
//! the desktop itself are the caller's: the caller performs each action that
//! the library asks for and reports what came of it.

pub mod cache;
pub mod date;
pub mod names;
pub mod parser;
pub mod pipeline;
pub mod retry;
pub mod runs;
pub mod text;
