//! A directory tree in memory: the files that operations read and write.

use vstd::prelude::*;
use crate::tools::text_equal;

verus! {

/// What a file is: its content, and whether it may be executed.
pub struct FileData {
    pub content: Seq<u8>,
    pub executable: bool,
}

/// The files of a directory tree, by their paths.
pub type Files = Map<Seq<char>, FileData>;

/// A file at a path.
#[derive(Debug, PartialEq, Eq)]
pub struct File {
    /// The path of the file.
    pub path: String,
    /// The content of the file.
    pub content: Vec<u8>,
    /// Whether the file may be executed.
    pub executable: bool,
}

impl View for File {
    type V = FileData;

    open spec fn view(&self) -> FileData {
        FileData { content: self.content@, executable: self.executable }
    }
}

/// A directory tree: files at paths, no two at the same path.
#[derive(Debug, PartialEq, Eq)]
pub struct FileTree {
    files: Vec<File>,
}

spec fn holds(files: Seq<File>, path: Seq<char>) -> bool {
    exists|i: int| 0 <= i < files.len() && (#[trigger] files[i]).path@ == path
}

spec fn position(files: Seq<File>, path: Seq<char>) -> int {
    choose|i: int| 0 <= i < files.len() && (#[trigger] files[i]).path@ == path
}

spec fn distinct(files: Seq<File>) -> bool {
    forall|i: int, j: int|
        0 <= i < j < files.len() ==> (#[trigger] files[i]).path@ != (#[trigger] files[j]).path@
}

spec fn tree_of(files: Seq<File>) -> Files {
    Map::new(|path: Seq<char>| holds(files, path), |path: Seq<char>| files[position(files, path)]@)
}

proof fn lemma_position(files: Seq<File>, i: int)
    requires
        distinct(files),
        0 <= i < files.len(),
    ensures
        holds(files, files[i].path@),
        position(files, files[i].path@) == i,
        tree_of(files).dom().contains(files[i].path@),
        tree_of(files)[files[i].path@] == files[i]@,
{
    let path = files[i].path@;
    assert(holds(files, path));
    let k = position(files, path);
    assert(0 <= k < files.len() && files[k].path@ == path);
    if k < i {
        assert(files[k].path@ != files[i].path@);
    } else if i < k {
        assert(files[i].path@ != files[k].path@);
    }
}

proof fn lemma_push(files: Seq<File>, file: File)
    requires
        distinct(files),
        !holds(files, file.path@),
    ensures
        distinct(files.push(file)),
        tree_of(files.push(file)) == tree_of(files).insert(file.path@, file@),
{
    let pushed = files.push(file);
    assert(distinct(pushed)) by {
        assert forall|i: int, j: int| 0 <= i < j < pushed.len() implies (#[trigger] pushed[i]).path@
            != (#[trigger] pushed[j]).path@ by {
            if j < files.len() {
                assert(files[i].path@ != files[j].path@);
            } else {
                assert(files[i].path@ != file.path@);
            }
        }
    }
    assert forall|path: Seq<char>| holds(pushed, path) <==> (holds(files, path) || path
        == file.path@) by {
        if holds(files, path) {
            let k = position(files, path);
            assert(pushed[k].path@ == path);
        }
        if path == file.path@ {
            assert(pushed[files.len() as int].path@ == path);
        }
        if holds(pushed, path) {
            let k = position(pushed, path);
            if k < files.len() {
                assert(files[k].path@ == path);
            }
        }
    }
    assert forall|path: Seq<char>| holds(pushed, path) implies #[trigger] tree_of(pushed)[path]
        == tree_of(files).insert(file.path@, file@)[path] by {
        if path == file.path@ {
            lemma_position(pushed, files.len() as int);
        } else {
            let k = position(files, path);
            assert(pushed[k] == files[k]);
            lemma_position(pushed, k);
            lemma_position(files, k);
        }
    }
    assert(tree_of(pushed) =~= tree_of(files).insert(file.path@, file@));
}

proof fn lemma_update(files: Seq<File>, i: int, file: File)
    requires
        distinct(files),
        0 <= i < files.len(),
        files[i].path@ == file.path@,
    ensures
        distinct(files.update(i, file)),
        tree_of(files.update(i, file)) == tree_of(files).insert(file.path@, file@),
{
    let updated = files.update(i, file);
    assert(distinct(updated)) by {
        assert forall|a: int, b: int| 0 <= a < b < updated.len() implies (#[trigger] updated[a]).path@
            != (#[trigger] updated[b]).path@ by {
            assert(files[a].path@ != files[b].path@);
        }
    }
    assert forall|path: Seq<char>| holds(updated, path) <==> (holds(files, path) || path
        == file.path@) by {
        if holds(files, path) {
            let k = position(files, path);
            assert(updated[k].path@ == path);
        }
        if path == file.path@ {
            assert(updated[i].path@ == path);
            assert(files[i].path@ == path);
        }
        if holds(updated, path) {
            let k = position(updated, path);
            assert(files[k].path@ == path);
        }
    }
    assert forall|path: Seq<char>| holds(updated, path) implies #[trigger] tree_of(updated)[path]
        == tree_of(files).insert(file.path@, file@)[path] by {
        if path == file.path@ {
            lemma_position(updated, i);
        } else {
            let k = position(files, path);
            assert(updated[k] == files[k]);
            lemma_position(updated, k);
            lemma_position(files, k);
        }
    }
    assert(tree_of(updated) =~= tree_of(files).insert(file.path@, file@));
}

proof fn lemma_remove(files: Seq<File>, i: int)
    requires
        distinct(files),
        0 <= i < files.len(),
    ensures
        distinct(files.remove(i)),
        tree_of(files.remove(i)) == tree_of(files).remove(files[i].path@),
{
    let removed = files.remove(i);
    let gone = files[i].path@;
    assert(distinct(removed)) by {
        assert forall|a: int, b: int| 0 <= a < b < removed.len() implies (#[trigger] removed[a]).path@
            != (#[trigger] removed[b]).path@ by {
            let a0 = if a < i { a } else { a + 1 };
            let b0 = if b < i { b } else { b + 1 };
            assert(files[a0].path@ != files[b0].path@);
        }
    }
    assert forall|path: Seq<char>| holds(removed, path) <==> (holds(files, path) && path
        != gone) by {
        if holds(files, path) && path != gone {
            let k = position(files, path);
            let k1 = if k < i { k } else { k - 1 };
            assert(removed[k1].path@ == path);
        }
        if holds(removed, path) {
            let k = position(removed, path);
            let k0 = if k < i { k } else { k + 1 };
            assert(files[k0].path@ == path);
            if k0 < i {
                assert(files[k0].path@ != files[i].path@);
            } else {
                assert(files[i].path@ != files[k0].path@);
            }
        }
    }
    assert forall|path: Seq<char>| holds(removed, path) implies #[trigger] tree_of(removed)[path]
        == tree_of(files).remove(gone)[path] by {
        let k = position(removed, path);
        let k0 = if k < i { k } else { k + 1 };
        assert(removed[k] == files[k0]);
        lemma_position(removed, k);
        lemma_position(files, k0);
    }
    assert(tree_of(removed) =~= tree_of(files).remove(gone));
}

impl View for FileTree {
    type V = Files;

    /// The files of the tree, by their paths.
    closed spec fn view(&self) -> Files {
        tree_of(self.files@)
    }
}

impl FileTree {
    #[verifier::type_invariant]
    spec fn well_formed(self) -> bool {
        distinct(self.files@)
    }

    /// A tree without files.
    pub fn new() -> (tree: FileTree)
        ensures
            tree@ == Map::<Seq<char>, FileData>::empty(),
    {
        let tree = FileTree { files: Vec::new() };
        assert(tree@ =~= Map::<Seq<char>, FileData>::empty());
        tree
    }

    fn find(&self, path: &str) -> (found: Option<usize>)
        ensures
            match found {
                Some(i) => i < self.files.len() && self.files@[i as int].path@ == path@,
                None => !holds(self.files@, path@),
            },
    {
        let mut i: usize = 0;
        while i < self.files.len()
            invariant
                i <= self.files.len(),
                forall|j: int| 0 <= j < i ==> (#[trigger] self.files@[j]).path@ != path@,
            decreases self.files.len() - i,
        {
            if text_equal(self.files[i].path.as_str(), path) {
                return Some(i);
            }
            i += 1;
        }
        None
    }

    /// The file at `path`, if there is one.
    pub fn get(&self, path: &str) -> (file: Option<&File>)
        ensures
            file is Some <==> self@.dom().contains(path@),
            file matches Some(f) ==> f@ == self@[path@] && f.path@ == path@,
    {
        proof {
            use_type_invariant(self);
        }
        match self.find(path) {
            Some(i) => {
                proof {
                    lemma_position(self.files@, i as int);
                }
                Some(&self.files[i])
            },
            None => None,
        }
    }

    /// Whether there is a file at `path`.
    pub fn contains(&self, path: &str) -> (found: bool)
        ensures
            found == self@.dom().contains(path@),
    {
        self.get(path).is_some()
    }

    /// Writes a file to `path`, in place of the file at `path` if there is one.
    pub fn write(&mut self, path: String, content: Vec<u8>, executable: bool)
        ensures
            final(self)@ == old(self)@.insert(
                path@,
                FileData { content: content@, executable },
            ),
    {
        proof {
            use_type_invariant(&*self);
        }
        let found = self.find(path.as_str());
        let file = File { path, content, executable };
        let mut files: Vec<File> = Vec::new();
        core::mem::swap(&mut self.files, &mut files);
        match found {
            Some(i) => {
                proof {
                    lemma_update(files@, i as int, file);
                }
                files.set(i, file);
            },
            None => {
                proof {
                    lemma_push(files@, file);
                }
                files.push(file);
            },
        }
        core::mem::swap(&mut self.files, &mut files);
    }

    /// Removes the file at `path`, if there is one.
    pub fn remove(&mut self, path: &str)
        ensures
            final(self)@ == old(self)@.remove(path@),
    {
        proof {
            use_type_invariant(&*self);
        }
        match self.find(path) {
            Some(i) => {
                let mut files: Vec<File> = Vec::new();
                core::mem::swap(&mut self.files, &mut files);
                proof {
                    lemma_remove(files@, i as int);
                }
                let _ = files.remove(i);
                core::mem::swap(&mut self.files, &mut files);
            },
            None => {
                assert(self@ =~= self@.remove(path@));
            },
        }
    }

    /// The files of the tree, in no particular order: every file of the tree
    /// once.
    pub fn files(&self) -> (files: &Vec<File>)
        ensures
            forall|i: int|
                0 <= i < files.len() ==> self@.dom().contains((#[trigger] files@[i]).path@)
                    && self@[files@[i].path@] == files@[i]@,
            forall|path: Seq<char>|
                self@.dom().contains(path) ==> exists|i: int|
                    0 <= i < files.len() && (#[trigger] files@[i]).path@ == path,
            forall|i: int, j: int|
                0 <= i < j < files.len() ==> (#[trigger] files@[i]).path@ != (
                #[trigger] files@[j]).path@,
    {
        proof {
            use_type_invariant(self);
            assert forall|i: int| 0 <= i < self.files.len() implies self@.dom().contains(
                (#[trigger] self.files@[i]).path@,
            ) && self@[self.files@[i].path@] == self.files@[i]@ by {
                lemma_position(self.files@, i);
            }
        }
        &self.files
    }
}

} // verus!
