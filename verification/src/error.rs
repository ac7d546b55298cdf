use vstd::prelude::*;

verus! {

/// Errors of the library.
#[derive(Debug, Clone, PartialEq, Eq)]
pub enum Error {
    Config,
    MissingAncestor,
    InvalidStore,
    MissingMux,
    Packet,
    Timeout(String),
    Io(String),
    Serial(String),
    Json(String),
    Any(String),
}

} // verus!
