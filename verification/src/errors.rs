use vstd::prelude::*;
use crate::cache::CacheError;
use crate::transpile::TranspileError;

verus! {

#[verifier::external_type_specification]
#[verifier::external_body]
pub struct ExJsonError(serde_json::Error);

/// Why the command-line tool failed.
#[derive(Debug)]
pub enum SpxError {
    /// Transpiling a file failed.
    Transpile(TranspileError),
    /// A cache operation failed.
    Cache(CacheError),
    /// Reading or writing a file, or spawning a process, failed.
    Io(std::io::Error),
    /// Serialising the manifest failed.
    Json(serde_json::Error),
    /// The `node` executable was not found.
    NodeNotFound,
}

} // verus!
