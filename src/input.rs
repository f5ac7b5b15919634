//! The kinds of mouse-input back ends, and what is known of a process.
use vstd::prelude::*;

verus! {

/// The mouse-input back end in use.
#[derive(Clone, Copy, PartialEq, Eq, Debug)]
pub enum InputMethodEnum {
    GFCK,
    GHUB,
}

/// A process's identifier and executable name.
#[derive(Debug)]
pub struct ProcessInfo {
    pub pid: u32,
    pub name: String,
}

} // verus!
