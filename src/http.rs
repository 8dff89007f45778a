//! The query parameters of the read endpoints, and the `SELECT` each of them
//! asks for.
pub mod drivers;
pub mod meetings;
pub mod sessions;
pub mod teams;

use vstd::prelude::*;

use crate::text::{split, split_on};

verus! {

/// The names listed, comma-separated, in an `expand` parameter; none when
/// it is absent.
pub open spec fn expands_of(expand: Option<String>) -> Seq<Seq<char>> {
    match expand {
        Some(e) => split_on(e@, ','),
        None => Seq::empty(),
    }
}

/// The names listed in `expand`, as slices of it.
pub(crate) fn expands(expand: &Option<String>) -> (r: Vec<&str>)
    ensures
        r@.map_values(|p: &str| p@) == expands_of(*expand),
{
    match expand {
        Some(e) => split(e.as_str(), ','),
        None => {
            let r: Vec<&str> = Vec::new();
            assert(r@.map_values(|p: &str| p@) =~= Seq::<Seq<char>>::empty());
            r
        },
    }
}

/// Parameters that name relations to fold into each returned row.
pub trait QueryParams {
    /// The raw `expand` parameter.
    spec fn expand_param(&self) -> Option<String>;

    /// The names of the relations asked for, in order.
    fn get_expands(&self) -> (r: Vec<&str>)
        ensures
            r@.map_values(|p: &str| p@) == expands_of(self.expand_param()),
    ;
}

} // verus!
