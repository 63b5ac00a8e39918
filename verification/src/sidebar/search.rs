//! The search panel. It has a place in the side bar and nothing to show yet.

use vstd::prelude::*;

verus! {

#[derive(Clone, Copy, Debug, PartialEq, Eq)]
pub struct Search {}

impl Default for Search {
    fn default() -> (search: Search)
        ensures
            search == (Search {}),
    {
        Search {}
    }
}

impl Search {
    /// The text shown when the pointer rests on the panel's icon.
    pub fn tooltip(&self) -> (text: &'static str)
        ensures
            text@ == "Search"@,
    {
        "Search"
    }
}

} // verus!
