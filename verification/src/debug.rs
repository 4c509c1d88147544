//! Diagnostic output hooks. In this build they discard their input: a host
//! driver that wants the messages replaces the sink at its own boundary.

use vstd::prelude::*;

verus! {

/// Show a message on the host's debug sink; this build discards it.
pub fn show_str(value: &str) {
    let _ = value;
}

/// Show a value on the host's debug sink; this build discards it.
pub fn show_debug<T>(value: &T) {
    let _ = value;
}

/// Show a described value on the host's debug sink; this build discards it.
pub fn show_debug_desc<T>(description: &str, value: &T) {
    let _ = description;
    let _ = value;
}

} // verus!
