//! An editing session on one file of the tree.
//!
//! The session does not hold the file: it names it. What the editing engine
//! shows is read from the tree, and every change that the engine reports is
//! written back whole, at once. So two sessions on one file never disagree.

use crate::vfs::{Tree, Vfs};
use vstd::prelude::*;

verus! {

/// An editing session.
#[derive(Clone, Copy, Debug, PartialEq, Eq)]
pub struct Editor {
    pub file: usize,
}

impl Editor {
    /// A session on `file`.
    pub fn new(file: usize) -> (editor: Editor)
        ensures
            editor == (Editor { file }),
    {
        Editor { file }
    }

    /// What the session shows of a tree: the content of its file, if the
    /// tree has that file.
    pub open spec fn shows(self, tree: Tree) -> Option<Seq<u8>> {
        if tree.has_file(self.file) {
            Some(tree.files[self.file as int].data)
        } else {
            None
        }
    }

    /// The text on the session's tab: the name of its file as it is now.
    pub fn label(&self, vfs: &Vfs) -> (label: Option<String>)
        ensures
            match label {
                Some(text) => vfs@.has_file(self.file) && text@ == vfs@.files[self.file as int].name,
                None => !vfs@.has_file(self.file),
            },
    {
        vfs.file_name(self.file)
    }

    /// The content that the editing engine starts from.
    pub fn document(&self, vfs: &Vfs) -> (data: Option<Vec<u8>>)
        ensures
            match data {
                Some(bytes) => self.shows(vfs@) == Some(bytes@),
                None => self.shows(vfs@) is None,
            },
    {
        vfs.read(self.file)
    }

    /// The editing engine reports a change: the file's content is
    /// overwritten with the whole new content. Says whether the tree has the
    /// file; if not, nothing changes.
    pub fn save(&self, vfs: &mut Vfs, data: Vec<u8>) -> (saved: bool)
        ensures
            saved == old(vfs)@.has_file(self.file),
            final(vfs)@ == if saved {
                old(vfs)@.written(self.file, data@)
            } else {
                old(vfs)@
            },
            saved ==> self.shows(final(vfs)@) == Some(data@),
            old(vfs)@.wf() ==> final(vfs)@.wf(),
    {
        vfs.write(self.file, data)
    }
}

} // verus!
