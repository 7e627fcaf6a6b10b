//! A directory tree in memory, and what the steps of an export do to one.
//!
//! The tree stands for the files below the well-known root as they are
//! after steps that all succeeded. It serves dry runs, and it is the model
//! over which the laws of the export are stated. It knows no failure: a
//! step that a file system would refuse, such as a write where a
//! directory is, is performed all the same.

use vstd::prelude::*;
use crate::path::{prefix, same_path};
use crate::writer::{Step, StepView};

verus! {

/// A directory tree: the directories it has, and what its files hold.
#[verifier::ext_equal]
pub struct TreeView {
    /// The paths of the directories.
    pub dirs: Set<Seq<Seq<char>>>,
    /// What each file holds, by its path.
    pub files: Map<Seq<Seq<char>>, Seq<u8>>,
}

/// The tree without any directory or file.
pub open spec fn empty_tree() -> TreeView {
    TreeView { dirs: Set::empty(), files: Map::empty() }
}

/// Whether `directory` is `path` itself or one of the directories above it.
pub open spec fn leads_to(directory: Seq<Seq<char>>, path: Seq<Seq<char>>) -> bool {
    0 < directory.len() <= path.len() && directory == path.take(directory.len() as int)
}

/// What a file holds, where a missing file holds nothing.
pub open spec fn contents(tree: TreeView, path: Seq<Seq<char>>) -> Seq<u8> {
    if tree.files.contains_key(path) {
        tree.files[path]
    } else {
        Seq::empty()
    }
}

/// The tree after one step.
pub open spec fn step_effect(tree: TreeView, step: StepView) -> TreeView {
    match step {
        StepView::CreateDir { path } => TreeView {
            dirs: tree.dirs.union(Set::new(|directory: Seq<Seq<char>>| leads_to(directory, path))),
            files: tree.files,
        },
        StepView::Write { path, append, data } => TreeView {
            dirs: tree.dirs,
            files: tree.files.insert(
                path,
                if append {
                    contents(tree, path) + data
                } else {
                    data
                },
            ),
        },
    }
}

/// The tree after a list of steps, performed in order.
pub open spec fn steps_effect(tree: TreeView, steps: Seq<StepView>) -> TreeView
    decreases steps.len(),
{
    if steps.len() == 0 {
        tree
    } else {
        step_effect(steps_effect(tree, steps.drop_last()), steps.last())
    }
}

/// Performing one list of steps and then another is performing both in a
/// row.
pub proof fn lemma_steps_effect_concat(tree: TreeView, first: Seq<StepView>, second: Seq<StepView>)
    ensures
        steps_effect(tree, first + second) == steps_effect(steps_effect(tree, first), second),
    decreases second.len(),
{
    if second.len() > 0 {
        lemma_steps_effect_concat(tree, first, second.drop_last());
        assert((first + second).drop_last() =~= first + second.drop_last());
    }
}

/// Whether entry `i` of a list of directories is the one at `path`.
spec fn dir_is(dirs: Seq<Vec<String>>, i: int, path: Seq<Seq<char>>) -> bool {
    0 <= i < dirs.len() && dirs[i].deep_view() == path
}

/// Whether entry `i` of a list of files is for the file at `path`.
spec fn entry_is(files: Seq<(Vec<String>, Vec<u8>)>, i: int, path: Seq<Seq<char>>) -> bool {
    0 <= i < files.len() && files[i].0.deep_view() == path
}

/// No two entries of a list of files are for the same file.
spec fn one_entry_per_file(files: Seq<(Vec<String>, Vec<u8>)>) -> bool {
    forall|i: int, j: int|
        0 <= i < j < files.len() ==> files[i].0.deep_view() != files[j].0.deep_view()
}

/// The directories that a list of directories holds.
spec fn dir_set(dirs: Seq<Vec<String>>) -> Set<Seq<Seq<char>>> {
    Set::new(|path: Seq<Seq<char>>| exists|i: int| dir_is(dirs, i, path))
}

/// What the files of a list of files hold, by path.
spec fn file_map(files: Seq<(Vec<String>, Vec<u8>)>) -> Map<Seq<Seq<char>>, Seq<u8>> {
    Map::new(
        |path: Seq<Seq<char>>| exists|i: int| entry_is(files, i, path),
        |path: Seq<Seq<char>>| files[choose|i: int| entry_is(files, i, path)].1@,
    )
}

/// The entry of the file at `path`, if the list has one.
fn find(files: &Vec<(Vec<String>, Vec<u8>)>, path: &Vec<String>) -> (found: Option<usize>)
    ensures
        match found {
            Some(i) => entry_is(files@, i as int, path.deep_view()),
            None => forall|i: int| !entry_is(files@, i, path.deep_view()),
        },
{
    let mut i: usize = 0;
    while i < files.len()
        invariant
            i <= files.len(),
            forall|k: int| 0 <= k < i ==> !entry_is(files@, k, path.deep_view()),
        decreases files.len() - i,
    {
        if same_path(&files[i].0, path) {
            return Some(i);
        }
        i += 1;
    }
    None
}

/// Adds the directory at `path` and those above it.
fn add_dirs(dirs: &mut Vec<Vec<String>>, path: &Vec<String>)
    ensures
        dir_set(final(dirs)@) == dir_set(old(dirs)@).union(
            Set::new(|directory: Seq<Seq<char>>| leads_to(directory, path.deep_view())),
        ),
{
    let mut len: usize = 0;
    while len < path.len()
        invariant
            len <= path.len(),
            forall|directory: Seq<Seq<char>>|
                #![trigger dir_set(dirs@).contains(directory)]
                dir_set(dirs@).contains(directory) <==> dir_set(old(dirs)@).contains(directory) || (
                leads_to(directory, path.deep_view()) && directory.len() <= len),
        decreases path.len() - len,
    {
        let ghost before = dirs@;
        len += 1;
        let directory = prefix(path, len);
        dirs.push(directory);
        proof {
            assert forall|other: Seq<Seq<char>>|
                #![trigger dir_set(dirs@).contains(other)]
                dir_set(dirs@).contains(other) <==> dir_set(old(dirs)@).contains(other) || (
                leads_to(other, path.deep_view()) && other.len() <= len) by {
                let was = dir_set(before).contains(other);
                let new = other == directory.deep_view();
                if was {
                    let k = choose|k: int| dir_is(before, k, other);
                    assert(dir_is(dirs@, k, other));
                }
                if new {
                    assert(dir_is(dirs@, before.len() as int, other));
                }
                if dir_set(dirs@).contains(other) {
                    let k = choose|k: int| dir_is(dirs@, k, other);
                    if k < before.len() {
                        assert(dir_is(before, k, other));
                    }
                }
            }
        }
    }
}

/// Writes `data` to the file at `path`: behind what it holds if `append`
/// is set, in place of it if not.
fn put(files: &mut Vec<(Vec<String>, Vec<u8>)>, path: &Vec<String>, append: bool, data: &Vec<u8>)
    requires
        one_entry_per_file(old(files)@),
    ensures
        one_entry_per_file(final(files)@),
        file_map(final(files)@) == file_map(old(files)@).insert(
            path.deep_view(),
            if append && file_map(old(files)@).contains_key(path.deep_view()) {
                file_map(old(files)@)[path.deep_view()] + data@
            } else {
                data@
            },
        ),
{
    let ghost before = files@;
    let ghost target = path.deep_view();
    let ghost wanted = file_map(before).insert(
        target,
        if append && file_map(before).contains_key(target) {
            file_map(before)[target] + data@
        } else {
            data@
        },
    );
    let own = prefix(path, path.len());
    assert(path.deep_view().take(path.len() as int) =~= path.deep_view());
    let mut content: Vec<u8> = Vec::new();
    match find(files, path) {
        Some(i) => {
            if append {
                content.extend_from_slice(files[i].1.as_slice());
            }
            content.extend_from_slice(data.as_slice());
            files[i] = (own, content);
            proof {
                assert forall|other: Seq<Seq<char>>|
                    file_map(files@).contains_key(other) <==> wanted.contains_key(other) by {
                    if file_map(before).contains_key(other) {
                        let k = choose|k: int| entry_is(before, k, other);
                        assert(entry_is(files@, k, other));
                    }
                    if file_map(files@).contains_key(other) {
                        let k = choose|k: int| entry_is(files@, k, other);
                        assert(entry_is(before, k, other));
                    }
                }
                assert forall|other: Seq<Seq<char>>|
                    file_map(files@).contains_key(other) implies file_map(files@)[other]
                    == wanted[other] by {
                    let k = choose|k: int| entry_is(files@, k, other);
                    assert(entry_is(before, k, other));
                }
            }
        },
        None => {
            content.extend_from_slice(data.as_slice());
            files.push((own, content));
            proof {
                assert forall|k: int| 0 <= k < before.len() implies files[k].0.deep_view()
                    != target by {
                    assert(!entry_is(before, k, target));
                }
                assert(entry_is(files@, before.len() as int, target));
                assert forall|other: Seq<Seq<char>>|
                    file_map(files@).contains_key(other) <==> wanted.contains_key(other) by {
                    if file_map(before).contains_key(other) {
                        let k = choose|k: int| entry_is(before, k, other);
                        assert(entry_is(files@, k, other));
                    }
                    if file_map(files@).contains_key(other) {
                        let k = choose|k: int| entry_is(files@, k, other);
                        if k < before.len() {
                            assert(entry_is(before, k, other));
                        }
                    }
                }
                assert forall|other: Seq<Seq<char>>|
                    file_map(files@).contains_key(other) implies file_map(files@)[other]
                    == wanted[other] by {
                    let k = choose|k: int| entry_is(files@, k, other);
                    if k < before.len() {
                        assert(entry_is(before, k, other));
                    }
                }
            }
        },
    }
}

/// A directory tree held in memory.
#[derive(Debug)]
pub struct Directory {
    dirs: Vec<Vec<String>>,
    files: Vec<(Vec<String>, Vec<u8>)>,
}

impl Directory {
    #[verifier::type_invariant]
    spec fn well_formed(&self) -> bool {
        one_entry_per_file(self.files@)
    }
}

impl View for Directory {
    type V = TreeView;

    closed spec fn view(&self) -> TreeView {
        TreeView { dirs: dir_set(self.dirs@), files: file_map(self.files@) }
    }
}

impl Directory {
    /// An empty tree.
    pub fn new() -> (directory: Self)
        ensures
            directory@ == empty_tree(),
    {
        let directory = Directory { dirs: Vec::new(), files: Vec::new() };
        directory
    }

    /// What the file at `path` holds, or `None` where the tree has no such
    /// file.
    pub fn file(&self, path: &Vec<String>) -> (data: Option<Vec<u8>>)
        ensures
            match data {
                Some(data) => self@.files.contains_key(path.deep_view()) && data@
                    == self@.files[path.deep_view()],
                None => !self@.files.contains_key(path.deep_view()),
            },
    {
        proof {
            use_type_invariant(self);
        }
        match find(&self.files, path) {
            Some(i) => {
                let mut data: Vec<u8> = Vec::new();
                data.extend_from_slice(self.files[i].1.as_slice());
                Some(data)
            },
            None => None,
        }
    }

    /// The paths of the files of the tree, each once.
    pub fn file_paths(&self) -> (paths: Vec<Vec<String>>)
        ensures
            forall|path: Seq<Seq<char>>|
                self@.files.contains_key(path) <==> paths.deep_view().contains(path),
            paths.deep_view().no_duplicates(),
    {
        proof {
            use_type_invariant(self);
        }
        let mut paths: Vec<Vec<String>> = Vec::new();
        let mut i: usize = 0;
        while i < self.files.len()
            invariant
                i <= self.files.len(),
                paths.len() == i,
                forall|k: int| 0 <= k < i ==> paths[k].deep_view() == self.files[k].0.deep_view(),
            decreases self.files.len() - i,
        {
            paths.push(prefix(&self.files[i].0, self.files[i].0.len()));
            i += 1;
        }
        proof {
            assert forall|path: Seq<Seq<char>>|
                self@.files.contains_key(path) <==> paths.deep_view().contains(path) by {
                if self@.files.contains_key(path) {
                    let k = choose|k: int| entry_is(self.files@, k, path);
                    assert(paths.deep_view()[k] == path);
                }
                if paths.deep_view().contains(path) {
                    let k = choose|k: int| 0 <= k < paths.len() && paths.deep_view()[k] == path;
                    assert(entry_is(self.files@, k, path));
                }
            }
        }
        paths
    }

    /// Whether the tree has a directory at `path`.
    pub fn has_dir(&self, path: &Vec<String>) -> (found: bool)
        ensures
            found == self@.dirs.contains(path.deep_view()),
    {
        let mut i: usize = 0;
        while i < self.dirs.len()
            invariant
                i <= self.dirs.len(),
                forall|k: int| 0 <= k < i ==> !dir_is(self.dirs@, k, path.deep_view()),
            decreases self.dirs.len() - i,
        {
            if same_path(&self.dirs[i], path) {
                assert(dir_is(self.dirs@, i as int, path.deep_view()));
                return true;
            }
            i += 1;
        }
        false
    }

    /// Performs one step on the tree.
    pub fn perform(&mut self, step: &Step)
        ensures
            final(self)@ == step_effect(old(self)@, step@),
    {
        proof {
            use_type_invariant(&*self);
        }
        match step {
            Step::CreateDir { path } => {
                let mut dirs: Vec<Vec<String>> = Vec::new();
                core::mem::swap(&mut self.dirs, &mut dirs);
                add_dirs(&mut dirs, path);
                core::mem::swap(&mut self.dirs, &mut dirs);
            },
            Step::Write { path, append, data } => {
                let mut files: Vec<(Vec<String>, Vec<u8>)> = Vec::new();
                core::mem::swap(&mut self.files, &mut files);
                put(&mut files, path, *append, data);
                core::mem::swap(&mut self.files, &mut files);
            },
        }
    }

    /// Performs a list of steps on the tree, in order.
    pub fn run(&mut self, steps: &Vec<Step>)
        ensures
            final(self)@ == steps_effect(old(self)@, steps.deep_view()),
    {
        let mut i: usize = 0;
        while i < steps.len()
            invariant
                i <= steps.len(),
                self@ == steps_effect(old(self)@, steps.deep_view().take(i as int)),
            decreases steps.len() - i,
        {
            proof {
                let next = steps.deep_view().take(i + 1);
                assert(next.drop_last() =~= steps.deep_view().take(i as int));
            }
            self.perform(&steps[i]);
            i += 1;
        }
        assert(steps.deep_view().take(i as int) =~= steps.deep_view());
    }
}

} // verus!
