//! System font fallback of the platforms that have none yet.

use vstd::prelude::*;

verus! {

/// Font fallback on Linux: finds no face for any character yet.
#[derive(Debug, Clone, Copy, PartialEq, Eq, Structural)]
pub struct LinuxSystemFallback;

impl LinuxSystemFallback {
    /// The fallback.
    pub fn new() -> (f: Self)
        ensures
            f == LinuxSystemFallback,
    {
        LinuxSystemFallback
    }

    /// Whether the system has a face for `codepoint`: never, for now.
    pub fn discover(&self, codepoint: u32) -> (found: bool)
        ensures
            !found,
    {
        false
    }
}

/// Font fallback on Windows: finds no face for any character yet.
#[derive(Debug, Clone, Copy, PartialEq, Eq, Structural)]
pub struct WindowsSystemFallback;

impl WindowsSystemFallback {
    /// The fallback.
    pub fn new() -> (f: Self)
        ensures
            f == WindowsSystemFallback,
    {
        WindowsSystemFallback
    }

    /// Whether the system has a face for `codepoint`: never, for now.
    pub fn discover(&self, codepoint: u32) -> (found: bool)
        ensures
            !found,
    {
        false
    }
}

} // verus!
