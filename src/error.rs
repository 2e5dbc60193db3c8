use vstd::prelude::*;

verus! {

/// The kinds of failure that the file store and the indexer report.
#[derive(Debug, Clone, Copy, PartialEq, Eq, Structural)]
pub enum AppError {
    /// A requested path is absolute or climbs out of its root with `..`.
    PathSecurity,
    /// The requested path does not exist.
    NotFound,
    /// An operating-system error while touching the disk.
    Io,
    /// A zip archive could not be read.
    Zip,
    /// The relational index refused a query.
    RelationalStore,
    /// The full-text index refused an operation.
    SearchIndex,
    /// A request lacks a parameter it needs.
    MissingParameter,
}

impl AppError {
    /// Whether the error is the caller's fault (a 4xx-class answer).
    pub fn is_client_error(&self) -> (r: bool)
        ensures
            r == (*self == AppError::PathSecurity || *self == AppError::NotFound || *self
                == AppError::MissingParameter),
    {
        match self {
            AppError::PathSecurity => true,
            AppError::NotFound => true,
            AppError::MissingParameter => true,
            _ => false,
        }
    }
}

} // verus!
