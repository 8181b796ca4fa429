//! Capability negotiation and text-output parsing for a screen-capture tool.
//!
//! The library parses the free-form capability listing of an external
//! multimedia transcoder into structured records, selects the best available
//! codec from a ranked preference list, and scrapes line-oriented output of
//! window-system introspection tools into a capture-region descriptor.
//! Process spawning and all other I/O live outside the library; every
//! function here works on plain values it is handed.

pub mod capability;
pub mod config;
pub mod paths;
pub mod region;
pub mod select;
pub mod text;

use vstd::prelude::*;

verus! {

/// True for the whitespace characters that separate tokens in the
/// line-oriented output this library parses.
pub open spec fn is_space(c: char) -> bool {
    c == ' ' || c == '\t' || c == '\n' || c == '\r'
}

} // verus!
