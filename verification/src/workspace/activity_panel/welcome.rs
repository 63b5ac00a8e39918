//! The page that greets the user before any file is open.

use vstd::prelude::*;

verus! {

/// The welcome page. Every instance is like every other.
#[derive(Clone, Copy, Debug, PartialEq, Eq)]
pub struct Welcome {}

impl Welcome {
    pub fn new() -> (welcome: Welcome)
        ensures
            welcome == (Welcome {}),
    {
        Welcome {}
    }

    /// The text on the page's tab.
    pub fn label(&self) -> (label: &'static str)
        ensures
            label@ == "Welcome"@,
    {
        "Welcome"
    }
}

} // verus!
