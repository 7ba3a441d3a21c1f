use vstd::prelude::*;

verus! {

/// The failures this library distinguishes, one variant per kind so that a
/// caller can branch on what went wrong.
///
/// `NfsError` stands for a failure reported by the directory, file or
/// storage service itself (here: a directory key that the service does not
/// know), as opposed to a lookup that this library decided was impossible.
#[derive(Clone, Copy, Debug, PartialEq, Eq, Structural)]
pub enum FfiError {
    /// The raw path bytes are not valid text.
    DecodingError,
    /// A path segment has no matching sub-directory entry.
    PathNotFound,
    /// No file entry matches the requested name.
    FileNotFound,
    /// The external service failed the request.
    NfsError,
}

} // verus!
