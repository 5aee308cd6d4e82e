use vstd::prelude::*;

verus! {

/// Failure of a lockfile parser.
///
/// Absence of a lockfile or of an optional section is never an error; these
/// variants cover text that cannot be parsed at all and formats for which no
/// extraction is implemented.
#[derive(Debug, Clone, Copy, PartialEq, Eq, Structural)]
pub enum ParseError {
    /// The content is not valid JSON/YAML, or does not have the expected shape.
    Malformed,
    /// The manager's lockfile format has no extraction implemented.
    Unsupported,
}

} // verus!
