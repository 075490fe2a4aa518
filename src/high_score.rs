use vstd::prelude::*;

verus! {

/// The recorded high score: the stored value, or `0` when none is stored yet.
pub open spec fn recorded(stored: Option<u64>) -> u64 {
    match stored {
        Some(v) => v,
        None => 0,
    }
}

/// Decides what a high-score store writes when a game ends with `candidate`: the
/// candidate when it beats the recorded score, nothing otherwise, so that the stored
/// value only grows.
pub fn score_to_store(stored: Option<u64>, candidate: u64) -> (r: Option<u64>)
    ensures
        r == if candidate > recorded(stored) {
            Some(candidate)
        } else {
            None::<u64>
        },
{
    let current = match stored {
        Some(v) => v,
        None => 0,
    };
    if candidate > current {
        Some(candidate)
    } else {
        None
    }
}

} // verus!
