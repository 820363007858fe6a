//! Visibility resolution for a directory listing front end.
//!
//! A listing shows, by default, neither hidden nor ignored files. Hidden files
//! are the files whose names begin with a dot and those that a hidden rule
//! matches. Ignored files are `.`, `..` and those that an ignored rule matches;
//! they are hidden files too. The command line says how much of this is shown.
//!
//! The work is done in three steps:
//!
//! * [`args`] splits the command line into the visibility flags, merged into
//!   one [`level::HideOption`], and the arguments for the listing command;
//! * [`context`] puts the rules of a directory together from its pattern
//!   files, which [`pattern`] reads and [`glob`] matches;
//! * [`classify`] says of each name whether it is shown, and what to tell the
//!   listing command so that it leaves out the rest itself.
//!
//! Nothing here reads a file, the environment or the command line: the
//! caller hands in what it read and gets plain values back.

pub mod args;
pub mod classify;
pub mod context;
pub mod glob;
pub mod level;
pub mod pattern;
pub mod text;
