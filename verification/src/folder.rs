//! Sessions of the one writer that may change a slot-backed store directly.
use crate::error::Error;
use vstd::prelude::*;

verus! {

/// What a session gives: a failure to close shows only where the work itself
/// succeeded, since a failure of the work is the first cause.
pub fn session_outcome<T>(work: Result<T, Error>, closed: Result<(), Error>) -> (r: Result<T, Error>)
    ensures
        match (work, closed) {
            (Err(e), _) => r == Err::<T, Error>(e),
            (Ok(v), Ok(())) => r == Ok::<T, Error>(v),
            (Ok(v), Err(e)) => r == Err::<T, Error>(e),
        },
{
    match closed {
        Ok(()) => work,
        Err(e) => match work {
            Ok(_) => Err(e),
            Err(first) => Err(first),
        },
    }
}

} // verus!
