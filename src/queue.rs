//! The message that asks the worker to fetch a season.
use vstd::prelude::*;

verus! {

/// Fetch the meetings of `year`; those with a key in `keys` are stored
/// already.
#[derive(Clone, Debug)]
pub struct Meetings {
    pub keys: Vec<i32>,
    pub year: i32,
}

} // verus!
