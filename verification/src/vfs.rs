//! The in-memory file tree behind the explorer and the editors.
//!
//! Nodes live in two arenas, one of files and one of directories, and are
//! known by their position there, which never changes. A directory lists its
//! children by position. So a tab and the tree can name the same file without
//! either owning it, and a file that is renamed is still the same file.
//!
//! A directory is always added below one that exists, so a child's position
//! is greater than its parent's: the tree has no cycles, and a walk from the
//! root ends.

pub mod order;

use crate::observable::{
    bytes_cell, bytes_get, bytes_in, bytes_set, ids_of, list_from, list_push, list_snapshot,
    number_cell, number_get, number_in, text_cell, text_get, text_in, text_set,
};
use crate::vfs::order::{display_order, sorted_by_name, spelled};
use futures_signals::signal::Mutable;
use futures_signals::signal_vec::MutableVec;
use vstd::prelude::*;

verus! {

/// The root directory of every tree.
pub const ROOT: usize = 0;

/// The permission mode that a new file usually gets.
pub const DEFAULT_FILE_MODE: u32 = 0o664;

/// The permission mode that a new directory usually gets.
pub const DEFAULT_DIRECTORY_MODE: u32 = 0o775;

/// A file, as mathematics.
pub struct FileNode {
    pub name: Seq<char>,
    pub mode: u32,
    pub data: Seq<u8>,
}

/// A directory, as mathematics.
pub struct DirectoryNode {
    pub name: Seq<char>,
    pub mode: u32,
    /// The directories directly below, in the order in which they were added.
    pub directories: Seq<usize>,
    /// The files directly below, in the order in which they were added.
    pub files: Seq<usize>,
}

/// A tree, as mathematics.
pub struct Tree {
    pub files: Seq<FileNode>,
    pub directories: Seq<DirectoryNode>,
}

impl Tree {
    /// Whether `file` is a file of the tree.
    pub open spec fn has_file(self, file: usize) -> bool {
        file < self.files.len()
    }

    /// Whether `directory` is a directory of the tree.
    pub open spec fn has_directory(self, directory: usize) -> bool {
        directory < self.directories.len()
    }

    /// Whether `child` is listed at place `at` of `parent`'s directories.
    pub open spec fn lists_directory(self, parent: usize, at: int, child: usize) -> bool {
        &&& self.has_directory(parent)
        &&& 0 <= at < self.directories[parent as int].directories.len()
        &&& self.directories[parent as int].directories[at] == child
    }

    /// Whether `child` is listed at place `at` of `parent`'s files.
    pub open spec fn lists_file(self, parent: usize, at: int, child: usize) -> bool {
        &&& self.has_directory(parent)
        &&& 0 <= at < self.directories[parent as int].files.len()
        &&& self.directories[parent as int].files[at] == child
    }

    /// There is a root; every child that is listed exists; a directory comes
    /// after its parent, so nothing is its own ancestor; and nothing is
    /// listed twice, so nothing has two parents.
    pub open spec fn wf(self) -> bool {
        &&& self.has_directory(ROOT)
        &&& forall|parent: usize, at: int, child: usize| #[trigger]
            self.lists_directory(parent, at, child) ==> parent < child && self.has_directory(child)
        &&& forall|parent: usize, at: int, child: usize| #[trigger]
            self.lists_file(parent, at, child) ==> self.has_file(child)
        &&& forall|first: usize, at: int, second: usize, other: int, child: usize|
            #[trigger] self.lists_directory(first, at, child) && #[trigger] self.lists_directory(
                second,
                other,
                child,
            ) ==> first == second && at == other
        &&& forall|first: usize, at: int, second: usize, other: int, child: usize|
            #[trigger] self.lists_file(first, at, child) && #[trigger] self.lists_file(
                second,
                other,
                child,
            ) ==> first == second && at == other
    }

    /// The name of every file, by position.
    pub open spec fn file_names(self) -> Seq<Seq<char>> {
        self.files.map_values(|file: FileNode| file.name)
    }

    /// The name of every directory, by position.
    pub open spec fn directory_names(self) -> Seq<Seq<char>> {
        self.directories.map_values(|directory: DirectoryNode| directory.name)
    }

    /// The files directly below `directory`, as they are shown: by name.
    pub open spec fn shown_files(self, directory: usize) -> Seq<usize> {
        display_order(self.directories[directory as int].files, self.file_names())
    }

    /// The directories directly below `directory`, as they are shown: by
    /// name.
    pub open spec fn shown_directories(self, directory: usize) -> Seq<usize> {
        display_order(self.directories[directory as int].directories, self.directory_names())
    }

    /// A tree of one empty directory.
    pub open spec fn rooted(name: Seq<char>, mode: u32) -> Tree {
        Tree {
            files: Seq::empty(),
            directories: seq![
                DirectoryNode { name, mode, directories: Seq::empty(), files: Seq::empty() },
            ],
        }
    }

    /// The tree with a new, empty directory below `parent`.
    pub open spec fn with_directory(self, parent: usize, name: Seq<char>, mode: u32) -> Tree {
        let above = self.directories[parent as int];
        Tree {
            directories: self.directories.update(
                parent as int,
                DirectoryNode {
                    directories: above.directories.push(self.directories.len() as usize),
                    ..above
                },
            ).push(DirectoryNode { name, mode, directories: Seq::empty(), files: Seq::empty() }),
            ..self
        }
    }

    /// The tree with a new file below `parent`.
    pub open spec fn with_file(self, parent: usize, name: Seq<char>, mode: u32, data: Seq<u8>) -> Tree {
        let above = self.directories[parent as int];
        Tree {
            files: self.files.push(FileNode { name, mode, data }),
            directories: self.directories.update(
                parent as int,
                DirectoryNode { files: above.files.push(self.files.len() as usize), ..above },
            ),
        }
    }

    /// The tree with new content in `file`.
    pub open spec fn written(self, file: usize, data: Seq<u8>) -> Tree {
        Tree {
            files: self.files.update(file as int, FileNode { data, ..self.files[file as int] }),
            ..self
        }
    }

    /// The tree with a new name for `file`.
    pub open spec fn with_file_named(self, file: usize, name: Seq<char>) -> Tree {
        Tree {
            files: self.files.update(file as int, FileNode { name, ..self.files[file as int] }),
            ..self
        }
    }

    /// The tree with a new name for `directory`.
    pub open spec fn with_directory_named(self, directory: usize, name: Seq<char>) -> Tree {
        Tree {
            directories: self.directories.update(
                directory as int,
                DirectoryNode { name, ..self.directories[directory as int] },
            ),
            ..self
        }
    }
}

impl Tree {
    /// Two trees with the same listings and as many files are well formed
    /// together.
    pub proof fn lemma_same_shape(self, after: Tree)
        requires
            self.wf(),
            self.files.len() == after.files.len(),
            self.directories.len() == after.directories.len(),
            forall|directory: int|
                0 <= directory < self.directories.len()
                    ==> #[trigger] after.directories[directory].directories
                    == self.directories[directory].directories,
            forall|directory: int|
                0 <= directory < self.directories.len()
                    ==> #[trigger] after.directories[directory].files
                    == self.directories[directory].files,
        ensures
            after.wf(),
    {
        assert forall|parent: usize, at: int, child: usize| #[trigger]
            after.lists_directory(parent, at, child) implies parent < child && after.has_directory(
            child,
        ) by {
            assert(self.lists_directory(parent, at, child));
        }
        assert forall|parent: usize, at: int, child: usize| #[trigger]
            after.lists_file(parent, at, child) implies after.has_file(child) by {
            assert(self.lists_file(parent, at, child));
        }
        assert forall|first: usize, at: int, second: usize, other: int, child: usize|
            #[trigger] after.lists_directory(first, at, child) && #[trigger] after.lists_directory(
                second,
                other,
                child,
            ) implies first == second && at == other by {
            assert(self.lists_directory(first, at, child));
            assert(self.lists_directory(second, other, child));
        }
        assert forall|first: usize, at: int, second: usize, other: int, child: usize|
            #[trigger] after.lists_file(first, at, child) && #[trigger] after.lists_file(
                second,
                other,
                child,
            ) implies first == second && at == other by {
            assert(self.lists_file(first, at, child));
            assert(self.lists_file(second, other, child));
        }
    }

    /// A directory added below one that exists leaves the tree well formed.
    pub proof fn lemma_with_directory_wf(self, parent: usize, name: Seq<char>, mode: u32)
        requires
            self.wf(),
            self.has_directory(parent),
            self.directories.len() < usize::MAX,
        ensures
            self.with_directory(parent, name, mode).wf(),
    {
        let after = self.with_directory(parent, name, mode);
        let fresh = self.directories.len() as usize;
        let listed = self.directories[parent as int].directories;
        assert forall|above: usize, at: int, child: usize| #[trigger]
            after.lists_directory(above, at, child) implies (child == fresh && above == parent && at
            == listed.len()) || (child != fresh && self.lists_directory(above, at, child)) by {
            if above == parent && at < listed.len() {
                assert(self.lists_directory(above, at, child));
            } else if above != parent && above != fresh {
                assert(self.lists_directory(above, at, child));
            }
        }
        assert forall|above: usize, at: int, child: usize| #[trigger]
            after.lists_file(above, at, child) implies self.lists_file(above, at, child) by {}
        assert forall|first: usize, at: int, second: usize, other: int, child: usize|
            #[trigger] after.lists_directory(first, at, child) && #[trigger] after.lists_directory(
                second,
                other,
                child,
            ) implies first == second && at == other by {
            if child != fresh {
                assert(self.lists_directory(first, at, child));
                assert(self.lists_directory(second, other, child));
            }
        }
        assert forall|first: usize, at: int, second: usize, other: int, child: usize|
            #[trigger] after.lists_file(first, at, child) && #[trigger] after.lists_file(
                second,
                other,
                child,
            ) implies first == second && at == other by {
            assert(self.lists_file(first, at, child));
            assert(self.lists_file(second, other, child));
        }
    }

    /// A file added below a directory that exists leaves the tree well
    /// formed.
    pub proof fn lemma_with_file_wf(self, parent: usize, name: Seq<char>, mode: u32, data: Seq<u8>)
        requires
            self.wf(),
            self.has_directory(parent),
            self.files.len() < usize::MAX,
        ensures
            self.with_file(parent, name, mode, data).wf(),
    {
        let after = self.with_file(parent, name, mode, data);
        let fresh = self.files.len() as usize;
        let listed = self.directories[parent as int].files;
        assert forall|above: usize, at: int, child: usize| #[trigger]
            after.lists_file(above, at, child) implies (child == fresh && above == parent && at
            == listed.len()) || (child != fresh && self.lists_file(above, at, child)) by {
            if above == parent && at < listed.len() {
                assert(self.lists_file(above, at, child));
            } else if above != parent {
                assert(self.lists_file(above, at, child));
            }
        }
        assert forall|above: usize, at: int, child: usize| #[trigger]
            after.lists_directory(above, at, child) implies self.lists_directory(
            above,
            at,
            child,
        ) by {}
        assert forall|first: usize, at: int, second: usize, other: int, child: usize|
            #[trigger] after.lists_file(first, at, child) && #[trigger] after.lists_file(
                second,
                other,
                child,
            ) implies first == second && at == other by {
            if child != fresh {
                assert(self.lists_file(first, at, child));
                assert(self.lists_file(second, other, child));
            }
        }
        assert forall|first: usize, at: int, second: usize, other: int, child: usize|
            #[trigger] after.lists_directory(first, at, child) && #[trigger] after.lists_directory(
                second,
                other,
                child,
            ) implies first == second && at == other by {
            assert(self.lists_directory(first, at, child));
            assert(self.lists_directory(second, other, child));
        }
    }
}

/// A file: a name, a permission mode and content, each observable.
pub struct File {
    pub name: Mutable<String>,
    pub mode: Mutable<u32>,
    pub data: Mutable<Vec<u8>>,
}

impl View for File {
    type V = FileNode;

    open spec fn view(&self) -> FileNode {
        FileNode { name: text_in(self.name), mode: number_in(self.mode), data: bytes_in(self.data) }
    }
}

/// A directory: a name, a permission mode and what lies directly below, each
/// observable.
pub struct Directory {
    pub name: Mutable<String>,
    pub mode: Mutable<u32>,
    pub directories: MutableVec<usize>,
    pub files: MutableVec<usize>,
}

impl View for Directory {
    type V = DirectoryNode;

    open spec fn view(&self) -> DirectoryNode {
        DirectoryNode {
            name: text_in(self.name),
            mode: number_in(self.mode),
            directories: ids_of(self.directories),
            files: ids_of(self.files),
        }
    }
}

/// The tree.
pub struct Vfs {
    files: Vec<File>,
    directories: Vec<Directory>,
}

impl View for Vfs {
    type V = Tree;

    closed spec fn view(&self) -> Tree {
        Tree {
            files: self.files@.map_values(|file: File| file@),
            directories: self.directories@.map_values(|directory: Directory| directory@),
        }
    }
}

impl Vfs {
    /// A tree of one empty directory, the root.
    pub fn new(name: String, mode: u32) -> (vfs: Vfs)
        ensures
            vfs@ == Tree::rooted(name@, mode),
            vfs@.wf(),
    {
        let mut directories: Vec<Directory> = Vec::new();
        directories.push(
            Directory {
                name: text_cell(name),
                mode: number_cell(mode),
                directories: list_from(Vec::new()),
                files: list_from(Vec::new()),
            },
        );
        let vfs = Vfs { files: Vec::new(), directories };
        proof {
            assert(vfs@.files =~= Tree::rooted(name@, mode).files);
            assert(vfs@.directories =~= Tree::rooted(name@, mode).directories);
        }
        vfs
    }

    /// How many files the tree holds.
    pub fn file_count(&self) -> (count: usize)
        ensures
            count == self@.files.len(),
    {
        self.files.len()
    }

    /// How many directories the tree holds, the root among them.
    pub fn directory_count(&self) -> (count: usize)
        ensures
            count == self@.directories.len(),
    {
        self.directories.len()
    }

    /// A file of the tree, for a view to read and subscribe to.
    pub fn file(&self, file: usize) -> (found: Option<&File>)
        ensures
            match found {
                Some(node) => self@.has_file(file) && node@ == self@.files[file as int],
                None => !self@.has_file(file),
            },
    {
        if file < self.files.len() {
            Some(&self.files[file])
        } else {
            None
        }
    }

    /// A directory of the tree, for a view to read and subscribe to.
    pub fn directory(&self, directory: usize) -> (found: Option<&Directory>)
        ensures
            match found {
                Some(node) => self@.has_directory(directory) && node@
                    == self@.directories[directory as int],
                None => !self@.has_directory(directory),
            },
    {
        if directory < self.directories.len() {
            Some(&self.directories[directory])
        } else {
            None
        }
    }

    /// The content of a file.
    pub fn read(&self, file: usize) -> (data: Option<Vec<u8>>)
        ensures
            match data {
                Some(bytes) => self@.has_file(file) && bytes@ == self@.files[file as int].data,
                None => !self@.has_file(file),
            },
    {
        if file < self.files.len() {
            Some(bytes_get(&self.files[file].data))
        } else {
            None
        }
    }

    /// Overwrites the content of a file, whole. Says whether there was such
    /// a file; if not, nothing changes.
    pub fn write(&mut self, file: usize, data: Vec<u8>) -> (done: bool)
        ensures
            done == old(self)@.has_file(file),
            final(self)@ == if done {
                old(self)@.written(file, data@)
            } else {
                old(self)@
            },
            old(self)@.wf() ==> final(self)@.wf(),
    {
        if file < self.files.len() {
            bytes_set(&mut self.files[file].data, data);
            proof {
                assert(self@.files =~= old(self)@.written(file, data@).files);
                assert(self@.directories =~= old(self)@.directories);
                if old(self)@.wf() {
                    old(self)@.lemma_same_shape(self@);
                }
            }
            true
        } else {
            false
        }
    }

    /// The name of a file.
    pub fn file_name(&self, file: usize) -> (name: Option<String>)
        ensures
            match name {
                Some(text) => self@.has_file(file) && text@ == self@.files[file as int].name,
                None => !self@.has_file(file),
            },
    {
        if file < self.files.len() {
            Some(text_get(&self.files[file].name))
        } else {
            None
        }
    }

    /// The permission mode of a file.
    pub fn file_mode(&self, file: usize) -> (mode: Option<u32>)
        ensures
            match mode {
                Some(bits) => self@.has_file(file) && bits == self@.files[file as int].mode,
                None => !self@.has_file(file),
            },
    {
        if file < self.files.len() {
            Some(number_get(&self.files[file].mode))
        } else {
            None
        }
    }

    /// The permission mode of a directory.
    pub fn directory_mode(&self, directory: usize) -> (mode: Option<u32>)
        ensures
            match mode {
                Some(bits) => self@.has_directory(directory) && bits
                    == self@.directories[directory as int].mode,
                None => !self@.has_directory(directory),
            },
    {
        if directory < self.directories.len() {
            Some(number_get(&self.directories[directory].mode))
        } else {
            None
        }
    }

    /// The name of a directory.
    pub fn directory_name(&self, directory: usize) -> (name: Option<String>)
        ensures
            match name {
                Some(text) => self@.has_directory(directory) && text@
                    == self@.directories[directory as int].name,
                None => !self@.has_directory(directory),
            },
    {
        if directory < self.directories.len() {
            Some(text_get(&self.directories[directory].name))
        } else {
            None
        }
    }

    /// The directories directly below a directory, in the order in which
    /// they were added.
    pub fn directories(&self, directory: usize) -> (below: Option<Vec<usize>>)
        ensures
            match below {
                Some(ids) => self@.has_directory(directory) && ids@
                    == self@.directories[directory as int].directories,
                None => !self@.has_directory(directory),
            },
    {
        if directory < self.directories.len() {
            Some(list_snapshot(&self.directories[directory].directories))
        } else {
            None
        }
    }

    /// The files directly below a directory, in the order in which they
    /// were added.
    pub fn files(&self, directory: usize) -> (below: Option<Vec<usize>>)
        ensures
            match below {
                Some(ids) => self@.has_directory(directory) && ids@
                    == self@.directories[directory as int].files,
                None => !self@.has_directory(directory),
            },
    {
        if directory < self.directories.len() {
            Some(list_snapshot(&self.directories[directory].files))
        } else {
            None
        }
    }

    /// Adds an empty directory below `parent` and says where it is. Without
    /// such a parent nothing changes.
    pub fn add_directory(&mut self, parent: usize, name: String, mode: u32) -> (added: Option<usize>)
        requires
            old(self)@.wf(),
        ensures
            match added {
                Some(directory) => {
                    &&& old(self)@.has_directory(parent)
                    &&& directory == old(self)@.directories.len()
                    &&& final(self)@ == old(self)@.with_directory(parent, name@, mode)
                },
                None => !old(self)@.has_directory(parent) && final(self)@ == old(self)@,
            },
            final(self)@.wf(),
    {
        if parent < self.directories.len() {
            let fresh = self.directories.len();
            list_push(&mut self.directories[parent].directories, fresh);
            self.directories.push(
                Directory {
                    name: text_cell(name),
                    mode: number_cell(mode),
                    directories: list_from(Vec::new()),
                    files: list_from(Vec::new()),
                },
            );
            proof {
                let expected = old(self)@.with_directory(parent, name@, mode);
                assert(self@.files =~= expected.files);
                assert(self@.directories =~= expected.directories);
                assert(self.directories.len() == fresh + 1);
                old(self)@.lemma_with_directory_wf(parent, name@, mode);
            }
            Some(fresh)
        } else {
            None
        }
    }

    /// Adds a file below `parent` and says where it is. Without such a
    /// parent nothing changes.
    pub fn add_file(&mut self, parent: usize, name: String, mode: u32, data: Vec<u8>) -> (added:
        Option<usize>)
        requires
            old(self)@.wf(),
        ensures
            match added {
                Some(file) => {
                    &&& old(self)@.has_directory(parent)
                    &&& file == old(self)@.files.len()
                    &&& final(self)@ == old(self)@.with_file(parent, name@, mode, data@)
                },
                None => !old(self)@.has_directory(parent) && final(self)@ == old(self)@,
            },
            final(self)@.wf(),
    {
        if parent < self.directories.len() {
            let fresh = self.files.len();
            list_push(&mut self.directories[parent].files, fresh);
            self.files.push(
                File { name: text_cell(name), mode: number_cell(mode), data: bytes_cell(data) },
            );
            proof {
                let expected = old(self)@.with_file(parent, name@, mode, data@);
                assert(self@.files =~= expected.files);
                assert(self@.directories =~= expected.directories);
                assert(self.files.len() == fresh + 1);
                old(self)@.lemma_with_file_wf(parent, name@, mode, data@);
            }
            Some(fresh)
        } else {
            None
        }
    }

    /// Gives a file a new name. It stays the same file, in the same place.
    /// Says whether there was such a file; if not, nothing changes.
    pub fn rename_file(&mut self, file: usize, name: String) -> (done: bool)
        ensures
            done == old(self)@.has_file(file),
            final(self)@ == if done {
                old(self)@.with_file_named(file, name@)
            } else {
                old(self)@
            },
            old(self)@.wf() ==> final(self)@.wf(),
    {
        if file < self.files.len() {
            text_set(&mut self.files[file].name, name);
            proof {
                assert(self@.files =~= old(self)@.with_file_named(file, name@).files);
                assert(self@.directories =~= old(self)@.directories);
                if old(self)@.wf() {
                    old(self)@.lemma_same_shape(self@);
                }
            }
            true
        } else {
            false
        }
    }

    /// Gives a directory a new name. It stays the same directory, in the
    /// same place. Says whether there was such a directory; if not, nothing
    /// changes.
    pub fn rename_directory(&mut self, directory: usize, name: String) -> (done: bool)
        ensures
            done == old(self)@.has_directory(directory),
            final(self)@ == if done {
                old(self)@.with_directory_named(directory, name@)
            } else {
                old(self)@
            },
            old(self)@.wf() ==> final(self)@.wf(),
    {
        if directory < self.directories.len() {
            text_set(&mut self.directories[directory].name, name);
            proof {
                assert(self@.files =~= old(self)@.files);
                assert(self@.directories =~= old(self)@.with_directory_named(
                    directory,
                    name@,
                ).directories);
                if old(self)@.wf() {
                    old(self)@.lemma_same_shape(self@);
                }
            }
            true
        } else {
            false
        }
    }

    /// The name of every file, by position.
    fn all_file_names(&self) -> (names: Vec<String>)
        ensures
            spelled(names@) == self@.file_names(),
    {
        let mut names: Vec<String> = Vec::new();
        let mut at: usize = 0;
        while at < self.files.len()
            invariant
                at <= self.files.len(),
                names@.len() == at,
                forall|k: int| 0 <= k < at ==> (#[trigger] names@[k])@ == text_in(self.files@[k].name),
            decreases self.files.len() - at,
        {
            names.push(text_get(&self.files[at].name));
            at += 1;
        }
        proof {
            assert(spelled(names@) =~= self@.file_names());
        }
        names
    }

    /// The name of every directory, by position.
    fn all_directory_names(&self) -> (names: Vec<String>)
        ensures
            spelled(names@) == self@.directory_names(),
    {
        let mut names: Vec<String> = Vec::new();
        let mut at: usize = 0;
        while at < self.directories.len()
            invariant
                at <= self.directories.len(),
                names@.len() == at,
                forall|k: int|
                    0 <= k < at ==> (#[trigger] names@[k])@ == text_in(self.directories@[k].name),
            decreases self.directories.len() - at,
        {
            names.push(text_get(&self.directories[at].name));
            at += 1;
        }
        proof {
            assert(spelled(names@) =~= self@.directory_names());
        }
        names
    }

    /// The files directly below a directory in the order in which they are
    /// shown: by their names as they are now, and among equal names by the
    /// order in which they were added.
    pub fn sorted_files(&self, directory: usize) -> (order: Option<Vec<usize>>)
        requires
            self@.wf(),
        ensures
            match order {
                Some(ids) => self@.has_directory(directory) && ids@ == self@.shown_files(directory),
                None => !self@.has_directory(directory),
            },
    {
        if directory < self.directories.len() {
            let ids = list_snapshot(&self.directories[directory].files);
            let names = self.all_file_names();
            proof {
                assert forall|i: int| 0 <= i < ids@.len() implies ids@[i] < names@.len() by {
                    assert(self@.lists_file(directory, i, ids@[i]));
                    assert(spelled(names@).len() == names@.len());
                    assert(self@.file_names().len() == self@.files.len());
                }
            }
            Some(sorted_by_name(&ids, &names))
        } else {
            None
        }
    }

    /// The directories directly below a directory in the order in which
    /// they are shown: by their names as they are now, and among equal names
    /// by the order in which they were added.
    pub fn sorted_directories(&self, directory: usize) -> (order: Option<Vec<usize>>)
        requires
            self@.wf(),
        ensures
            match order {
                Some(ids) => self@.has_directory(directory) && ids@ == self@.shown_directories(
                    directory,
                ),
                None => !self@.has_directory(directory),
            },
    {
        if directory < self.directories.len() {
            let ids = list_snapshot(&self.directories[directory].directories);
            let names = self.all_directory_names();
            proof {
                assert forall|i: int| 0 <= i < ids@.len() implies ids@[i] < names@.len() by {
                    assert(self@.lists_directory(directory, i, ids@[i]));
                    assert(spelled(names@).len() == names@.len());
                    assert(self@.directory_names().len() == self@.directories.len());
                }
            }
            Some(sorted_by_name(&ids, &names))
        } else {
            None
        }
    }
}

} // verus!
