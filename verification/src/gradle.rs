//! The Android/Gradle path: the lockfile is located, but no extraction is
//! implemented for `build.gradle`, and a caller must be told so rather than
//! handed an empty success.

use vstd::prelude::*;

use crate::error::ParseError;

verus! {

/// Declines to parse `build.gradle` content: Gradle extraction is not
/// implemented, and the error keeps "unsupported" apart from "no
/// dependencies".
pub fn parse_settings_graddle(_content: &Vec<u8>) -> (r: Result<Vec<Vec<u8>>, ParseError>)
    ensures
        r == Err::<Vec<Vec<u8>>, ParseError>(ParseError::Unsupported),
{
    Err(ParseError::Unsupported)
}

} // verus!
