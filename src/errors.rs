//! Errors reported to the embedding program.
use vstd::prelude::*;

verus! {

/// Why the renderer could not start; an I/O failure carries its message.
#[derive(Clone, Debug, PartialEq, Eq)]
pub enum RendererError {
    String(String),
    IOError(String),
    RequestAdapter,
}

} // verus!
