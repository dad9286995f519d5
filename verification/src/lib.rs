//! A module-resolution engine for a language runtime whose program units are
//! packed into contiguous binary blobs embedded in the executable.
//!
//! The library decodes the packed container format into a module table,
//! merges three module-name sources (natively linked, precompiled, and
//! blob-packed) into a flavor-tagged registry with a derived package set,
//! and decides, per module-loading operation, what the host runtime must do.
//! The host-facing side (interpreter calls, delegate importers) performs the
//! actions; every decision taken here is verified.

use vstd::prelude::*;

pub mod decoder;
pub mod format;
pub mod laws;
pub mod lifecycle;
pub mod registry;
pub mod resolver;
pub mod util;

verus! {

/// Errors raised by the engine.
#[derive(Debug)]
pub enum ImporterError {
    /// A packed blob is malformed or truncated, or a name source could not be
    /// enumerated as text. Fatal to setup.
    Format,
    /// The host's module search path did not hold exactly the two expected
    /// delegate importers at setup time. Fatal to setup.
    Precondition,
    /// Setup was invoked more than once on the same instance.
    Lifecycle,
    /// A module registered as blob-packed has no payload in the relevant
    /// table; identifies the module by name.
    MissingPayload { name: Vec<u8> },
}

} // verus!
