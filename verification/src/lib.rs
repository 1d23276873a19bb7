//! A verified core for a `tee`-style utility: it copies bytes from an input
//! stream to standard output and to a list of output files.
//!
//! The crate holds the logic only; the surrounding binary does the actual
//! reading and writing and hands plain values in and out:
//!
//! - [`parse`] turns raw command-line tokens into a [`config::Config`],
//! - [`help`] holds the fixed usage text,
//! - [`copy`] models the chunk-by-chunk fan-out of input bytes to every
//!   destination, with append and truncate semantics at open time.

pub mod config;
pub mod copy;
pub mod help;
pub mod parse;
