//! The explorer panel: the file tree, from one directory down.

use crate::vfs::ROOT;
use vstd::prelude::*;

verus! {

/// The explorer. It names the directory that it lists.
#[derive(Clone, Copy, Debug, PartialEq, Eq)]
pub struct Explorer {
    workspace: usize,
}

impl Default for Explorer {
    /// An explorer of the whole tree.
    fn default() -> (explorer: Explorer)
        ensures
            explorer.root() == ROOT,
    {
        Explorer { workspace: ROOT }
    }
}

impl Explorer {
    /// The directory that the explorer lists.
    pub closed spec fn root(&self) -> usize {
        self.workspace
    }

    /// An explorer of the tree below `directory`.
    pub fn new(directory: usize) -> (explorer: Explorer)
        ensures
            explorer.root() == directory,
    {
        Explorer { workspace: directory }
    }

    /// The directory that the explorer lists.
    pub fn workspace(&self) -> (directory: usize)
        ensures
            directory == self.root(),
    {
        self.workspace
    }

    /// The text shown when the pointer rests on the panel's icon.
    pub fn tooltip(&self) -> (text: &'static str)
        ensures
            text@ == "Explorer"@,
    {
        "Explorer"
    }
}

} // verus!
