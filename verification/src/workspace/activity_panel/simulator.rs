//! Hands the file tree to a simulator, which wants it flat: every file with
//! its path, content and mode, and every directory with its path, parents
//! before children.
//!
//! A path is the sequence of names from the outermost directory down.

use crate::vfs::order::spelled;
use crate::vfs::{Tree, Vfs};
use vstd::prelude::*;

verus! {

/// A file on its way to the simulator, as mathematics.
pub struct FileRecord {
    pub data: Seq<u8>,
    pub path: Seq<Seq<char>>,
    pub mode: u32,
}

/// A directory on its way to the simulator, as mathematics.
pub struct DirectoryRecord {
    pub path: Seq<Seq<char>>,
}

/// A file on its way to the simulator.
pub struct File {
    pub data: Vec<u8>,
    pub path: Vec<String>,
    pub mode: u32,
}

/// A directory on its way to the simulator.
pub struct Directory {
    pub path: Vec<String>,
}

impl View for File {
    type V = FileRecord;

    open spec fn view(&self) -> FileRecord {
        FileRecord { data: self.data@, path: spelled(self.path@), mode: self.mode }
    }
}

impl View for Directory {
    type V = DirectoryRecord;

    open spec fn view(&self) -> DirectoryRecord {
        DirectoryRecord { path: spelled(self.path@) }
    }
}

/// The simulator that the tree is handed to.
#[derive(Clone, Copy, Debug, PartialEq, Eq)]
pub struct Simulator {}

/// The records that a list of files holds.
pub open spec fn file_records(files: Seq<File>) -> Seq<FileRecord> {
    files.map_values(|file: File| file@)
}

/// The records that a list of directories holds.
pub open spec fn directory_records(directories: Seq<Directory>) -> Seq<DirectoryRecord> {
    directories.map_values(|directory: Directory| directory@)
}

/// The record of file `file`, which lies in the directory at `path`.
pub open spec fn record_of(tree: Tree, file: usize, path: Seq<Seq<char>>) -> FileRecord {
    let node = tree.files[file as int];
    FileRecord { data: node.data, path: path.push(node.name), mode: node.mode }
}

/// The files directly in `directory`, which is at `path`, in the order in
/// which they were added.
pub open spec fn own_files(tree: Tree, directory: usize, path: Seq<Seq<char>>) -> Seq<FileRecord> {
    let listed = tree.directories[directory as int].files;
    Seq::new(listed.len(), |at: int| record_of(tree, listed[at], path))
}

/// Every file in and below `directory`, which lies in the directory at
/// `parent`: its own files first, then those of each directory below it in
/// turn.
pub open spec fn files_below(tree: Tree, directory: usize, parent: Seq<Seq<char>>) -> Seq<
    FileRecord,
>
    decreases tree.directories.len() - directory, 1nat, 0nat,
{
    if directory < tree.directories.len() {
        let path = parent.push(tree.directories[directory as int].name);
        own_files(tree, directory, path) + files_under(tree, directory, path, 0)
    } else {
        Seq::empty()
    }
}

/// Every file in and below the directories that `directory`, which is at
/// `path`, lists from place `from` on.
pub open spec fn files_under(tree: Tree, directory: usize, path: Seq<Seq<char>>, from: int) -> Seq<
    FileRecord,
>
    decreases tree.directories.len() - directory, 0nat, tree.directories[directory as int].directories.len() - from,
{
    let listed = tree.directories[directory as int].directories;
    if directory < tree.directories.len() && 0 <= from < listed.len() {
        let child = listed[from];
        (if directory < child < tree.directories.len() {
            files_below(tree, child, path)
        } else {
            Seq::empty()
        }) + files_under(tree, directory, path, from + 1)
    } else {
        Seq::empty()
    }
}

/// `directory`, which lies in the directory at `parent`, and every
/// directory below it: itself first, then each directory below it in turn,
/// each followed by what lies below it.
pub open spec fn directories_below(tree: Tree, directory: usize, parent: Seq<Seq<char>>) -> Seq<
    DirectoryRecord,
>
    decreases tree.directories.len() - directory, 1nat, 0nat,
{
    if directory < tree.directories.len() {
        let path = parent.push(tree.directories[directory as int].name);
        seq![DirectoryRecord { path }] + directories_under(tree, directory, path, 0)
    } else {
        Seq::empty()
    }
}

/// The directories that `directory`, which is at `path`, lists from place
/// `from` on, each followed by what lies below it.
pub open spec fn directories_under(
    tree: Tree,
    directory: usize,
    path: Seq<Seq<char>>,
    from: int,
) -> Seq<DirectoryRecord>
    decreases tree.directories.len() - directory, 0nat, tree.directories[directory as int].directories.len() - from,
{
    let listed = tree.directories[directory as int].directories;
    if directory < tree.directories.len() && 0 <= from < listed.len() {
        let child = listed[from];
        (if directory < child < tree.directories.len() {
            directories_below(tree, child, path)
        } else {
            Seq::empty()
        }) + directories_under(tree, directory, path, from + 1)
    } else {
        Seq::empty()
    }
}

/// Every record of `records` lies directly in the directory at `path`, or
/// directly in a directory that an earlier record names.
pub open spec fn hangs_below(records: Seq<DirectoryRecord>, path: Seq<Seq<char>>) -> bool {
    forall|at: int|
        0 <= at < records.len() ==> {
            ||| (#[trigger] records[at]).path.len() > 0 && records[at].path.drop_last() == path
            ||| exists|earlier: int|
                0 <= earlier < at && (#[trigger] records[earlier]).path == records[at].path.drop_last()
        }
}

/// The first record is the directory itself, and every other record lies
/// directly in a directory that an earlier record names: parents come
/// before children.
pub open spec fn parents_first(records: Seq<DirectoryRecord>, path: Seq<Seq<char>>) -> bool {
    &&& records.len() > 0
    &&& records[0].path == path
    &&& forall|at: int|
        0 < at < records.len() ==> exists|earlier: int|
            0 <= earlier < at && (#[trigger] records[earlier]).path == (
            #[trigger] records[at]).path.drop_last()
}

/// A directory is listed before everything that lies below it.
pub proof fn lemma_directories_below(tree: Tree, directory: usize, parent: Seq<Seq<char>>)
    requires
        tree.has_directory(directory),
    ensures
        parents_first(
            directories_below(tree, directory, parent),
            parent.push(tree.directories[directory as int].name),
        ),
    decreases tree.directories.len() - directory, 1nat, 0nat,
{
    let path = parent.push(tree.directories[directory as int].name);
    let under = directories_under(tree, directory, path, 0);
    let records = directories_below(tree, directory, parent);
    lemma_directories_under(tree, directory, path, 0);
    assert(records =~= seq![DirectoryRecord { path }] + under);
    assert forall|at: int| 0 < at < records.len() implies exists|earlier: int|
        0 <= earlier < at && (#[trigger] records[earlier]).path == (
        #[trigger] records[at]).path.drop_last() by {
        assert(records[at] == under[at - 1]);
        if under[at - 1].path.len() > 0 && under[at - 1].path.drop_last() == path {
            assert(records[0].path == records[at].path.drop_last());
        } else {
            let before = choose|before: int|
                0 <= before < at - 1 && (#[trigger] under[before]).path == under[at
                    - 1].path.drop_last();
            assert(records[before + 1] == under[before]);
            assert(records[before + 1].path == records[at].path.drop_last());
        }
    }
}

/// What lies below a directory hangs below it, each directory before what
/// lies in it.
pub proof fn lemma_directories_under(tree: Tree, directory: usize, path: Seq<Seq<char>>, from: int)
    requires
        tree.has_directory(directory),
        0 <= from,
    ensures
        hangs_below(directories_under(tree, directory, path, from), path),
    decreases tree.directories.len() - directory, 0nat, tree.directories[directory as int].directories.len()
        - from,
{
    let listed = tree.directories[directory as int].directories;
    let records = directories_under(tree, directory, path, from);
    if from < listed.len() {
        let child = listed[from];
        let rest = directories_under(tree, directory, path, from + 1);
        lemma_directories_under(tree, directory, path, from + 1);
        if directory < child < tree.directories.len() {
            let block = directories_below(tree, child, path);
            lemma_directories_below(tree, child, path);
            assert(records =~= block + rest);
            assert(block[0].path.drop_last() =~= path);
            assert forall|at: int| 0 <= at < records.len() implies {
                ||| (#[trigger] records[at]).path.len() > 0 && records[at].path.drop_last() == path
                ||| exists|earlier: int|
                    0 <= earlier < at && (#[trigger] records[earlier]).path
                        == records[at].path.drop_last()
            } by {
                if at == 0 {
                    assert(records[0] == block[0]);
                } else if at < block.len() {
                    assert(records[at] == block[at]);
                    let before = choose|before: int|
                        0 <= before < at && (#[trigger] block[before]).path
                            == block[at].path.drop_last();
                    assert(records[before] == block[before]);
                    assert(records[before].path == records[at].path.drop_last());
                } else {
                    let inner = at - block.len();
                    assert(records[at] == rest[inner]);
                    if !(rest[inner].path.len() > 0 && rest[inner].path.drop_last() == path) {
                        let before = choose|before: int|
                            0 <= before < inner && (#[trigger] rest[before]).path
                                == rest[inner].path.drop_last();
                        assert(records[before + block.len()] == rest[before]);
                        assert(records[before + block.len()].path == records[at].path.drop_last());
                    }
                }
            }
        } else {
            assert(records =~= rest);
        }
    }
}

/// `parent` with `name` appended.
pub fn child_path(parent: &Vec<String>, name: String) -> (path: Vec<String>)
    ensures
        spelled(path@) == spelled(parent@).push(name@),
{
    let mut path: Vec<String> = Vec::new();
    let mut at: usize = 0;
    while at < parent.len()
        invariant
            at <= parent.len(),
            path@.len() == at,
            forall|k: int| 0 <= k < at ==> (#[trigger] path@[k])@ == parent@[k]@,
        decreases parent.len() - at,
    {
        path.push(parent[at].clone());
        at += 1;
    }
    path.push(name);
    proof {
        assert(spelled(path@) =~= spelled(parent@).push(name@));
    }
    path
}

/// Lays out `directory` and everything below it for the simulator, under
/// the path `parent_path`: the files with their paths, contents and modes,
/// and the directories with their paths, each directory before what lies
/// in it.
pub fn convert(vfs: &Vfs, directory: usize, parent_path: &Vec<String>) -> (flat: (
    Vec<File>,
    Vec<Directory>,
))
    requires
        vfs@.wf(),
        vfs@.has_directory(directory),
    ensures
        file_records(flat.0@) == files_below(vfs@, directory, spelled(parent_path@)),
        directory_records(flat.1@) == directories_below(vfs@, directory, spelled(parent_path@)),
        parents_first(
            directory_records(flat.1@),
            spelled(parent_path@).push(vfs@.directories[directory as int].name),
        ),
    decreases vfs@.directories.len() - directory,
{
    let ghost tree = vfs@;
    let name = vfs.directory_name(directory).unwrap();
    let path = child_path(parent_path, name);
    let listed_files = vfs.files(directory).unwrap();
    let listed = vfs.directories(directory).unwrap();

    let mut files: Vec<File> = Vec::new();
    let mut at: usize = 0;
    while at < listed_files.len()
        invariant
            at <= listed_files.len(),
            tree == vfs@,
            tree.wf(),
            tree.has_directory(directory),
            listed_files@ == tree.directories[directory as int].files,
            files@.len() == at,
            forall|k: int|
                0 <= k < at ==> (#[trigger] files@[k])@ == record_of(
                    tree,
                    listed_files@[k],
                    spelled(path@),
                ),
        decreases listed_files.len() - at,
    {
        let file = listed_files[at];
        proof {
            assert(tree.lists_file(directory, at as int, file));
        }
        let data = vfs.read(file).unwrap();
        let file_name = vfs.file_name(file).unwrap();
        let mode = vfs.file_mode(file).unwrap();
        files.push(File { data, path: child_path(&path, file_name), mode });
        at += 1;
    }
    proof {
        assert(file_records(files@) =~= own_files(tree, directory, spelled(path@)));
    }

    let mut directories: Vec<Directory> = Vec::new();
    directories.push(Directory { path: child_path(parent_path, vfs.directory_name(directory).unwrap()) });
    proof {
        assert(directory_records(directories@) =~= seq![DirectoryRecord { path: spelled(path@) }]);
    }
    let mut next: usize = 0;
    while next < listed.len()
        invariant
            next <= listed.len(),
            tree == vfs@,
            tree.wf(),
            tree.has_directory(directory),
            listed@ == tree.directories[directory as int].directories,
            file_records(files@) + files_under(tree, directory, spelled(path@), next as int)
                == files_below(tree, directory, spelled(parent_path@)),
            directory_records(directories@) + directories_under(
                tree,
                directory,
                spelled(path@),
                next as int,
            ) == directories_below(tree, directory, spelled(parent_path@)),
        decreases listed.len() - next,
    {
        let child = listed[next];
        proof {
            assert(tree.lists_directory(directory, next as int, child));
        }
        let ghost files_before = files@;
        let ghost directories_before = directories@;
        let (mut more_files, mut more_directories) = convert(vfs, child, &path);
        let ghost added_files = more_files@;
        let ghost added_directories = more_directories@;
        files.append(&mut more_files);
        directories.append(&mut more_directories);
        proof {
            let rest_files = files_under(tree, directory, spelled(path@), next + 1);
            let rest_directories = directories_under(tree, directory, spelled(path@), next + 1);
            assert(file_records(files@) =~= file_records(files_before) + file_records(added_files));
            assert(directory_records(directories@) =~= directory_records(directories_before)
                + directory_records(added_directories));
            assert(file_records(files_before) + (file_records(added_files) + rest_files)
                =~= file_records(files@) + rest_files);
            assert(directory_records(directories_before) + (directory_records(added_directories)
                + rest_directories) =~= directory_records(directories@) + rest_directories);
        }
        next += 1;
    }
    proof {
        assert(file_records(files@) + Seq::<FileRecord>::empty() =~= file_records(files@));
        assert(directory_records(directories@) + Seq::<DirectoryRecord>::empty()
            =~= directory_records(directories@));
        lemma_directories_below(tree, directory, spelled(parent_path@));
    }
    (files, directories)
}

} // verus!
