//! The model of one directory tree.
//!
//! A `TreeModel` is what one run knows about a root: the relative paths of
//! its directories and, for every file, the relative path, the seconds-since-
//! epoch modification time (0 when the metadata could not be read) and the
//! file's bytes.  The lists keep the lister's order: depth first, a parent
//! before its children.

use vstd::prelude::*;

use crate::paths::PathKey;
use crate::paths::RelPath;

verus! {

/// One file under a root.
pub struct FileEntry {
    /// Root-relative path of the file.
    pub path: RelPath,
    /// Last-modified time in whole seconds since the epoch; 0 means "never
    /// observed".
    pub mtime: u64,
    /// The file's bytes.
    pub data: Vec<u8>,
}

/// The mathematical value of a `FileEntry`.
pub struct FileModel {
    pub path: PathKey,
    pub mtime: u64,
    pub data: Seq<u8>,
}

impl View for FileEntry {
    type V = FileModel;

    open spec fn view(&self) -> FileModel {
        FileModel { path: self.path@, mtime: self.mtime, data: self.data@ }
    }
}

impl Clone for FileEntry {
    fn clone(&self) -> (res: Self)
        ensures
            res@ == self@,
    {
        let data = self.data.clone();
        proof {
            assert(data@ =~= self.data@);
        }
        FileEntry { path: self.path.clone(), mtime: self.mtime, data }
    }
}

/// Everything one run knows about a root directory.
pub struct TreeModel {
    /// Relative paths of the directories strictly below the root, a parent
    /// before its children.
    pub dirs: Vec<RelPath>,
    /// The files below the root, in listing order.
    pub files: Vec<FileEntry>,
}

/// The mathematical value of a `TreeModel`.
pub struct TreeView {
    pub dirs: Seq<PathKey>,
    pub files: Seq<FileModel>,
}

impl View for TreeModel {
    type V = TreeView;

    open spec fn view(&self) -> TreeView {
        TreeView {
            dirs: self.dirs@.map_values(|p: RelPath| p@),
            files: self.files@.map_values(|f: FileEntry| f@),
        }
    }
}

impl TreeView {
    /// The identity keys of the files, in listing order.
    pub open spec fn file_keys(self) -> Seq<PathKey> {
        self.files.map_values(|f: FileModel| f.path)
    }

    /// Whether some directory has the key `k`.
    pub open spec fn has_dir(self, k: PathKey) -> bool {
        self.dirs.contains(k)
    }

    /// Whether some file has the key `k`.
    pub open spec fn has_file(self, k: PathKey) -> bool {
        self.file_keys().contains(k)
    }

    /// Whether any entry, directory or file, has the key `k`.
    pub open spec fn has_path(self, k: PathKey) -> bool {
        self.has_dir(k) || self.has_file(k)
    }

    /// The position of the file with key `k`.
    pub open spec fn file_index(self, k: PathKey) -> int {
        choose|i: int| 0 <= i < self.files.len() && self.files[i].path == k
    }

    /// The file with key `k`.
    pub open spec fn file_at(self, k: PathKey) -> FileModel {
        self.files[self.file_index(k)]
    }

    /// Identity keys are unique within the tree: no two directories and no
    /// two files share a key.
    pub open spec fn wf(self) -> bool {
        &&& self.dirs.no_duplicates()
        &&& self.file_keys().no_duplicates()
    }

    /// The tree holds nothing at all.
    pub open spec fn is_empty(self) -> bool {
        self.dirs.len() == 0 && self.files.len() == 0
    }

    /// In a well-formed tree, looking a file up by its own key finds it.
    pub proof fn lemma_file_at(self, i: int)
        requires
            self.wf(),
            0 <= i < self.files.len(),
        ensures
            self.file_index(self.files[i].path) == i,
            self.file_at(self.files[i].path) == self.files[i],
            self.has_file(self.files[i].path),
    {
        let k = self.files[i].path;
        assert(self.file_keys()[i] == k);
        let j = self.file_index(k);
        assert(0 <= j < self.files.len() && self.files[j].path == k);
        if i != j {
            assert(self.file_keys()[i] != self.file_keys()[j]);
        }
    }

    /// In any tree, a key some file has leads back to a file with that key.
    pub proof fn lemma_has_file_at(self, k: PathKey)
        requires
            self.has_file(k),
        ensures
            0 <= self.file_index(k) < self.files.len(),
            self.file_at(k).path == k,
    {
        let w = choose|i: int| 0 <= i < self.file_keys().len() && self.file_keys()[i] == k;
        assert(self.files[w].path == k);
        let j = self.file_index(k);
        assert(0 <= j < self.files.len() && self.files[j].path == k);
    }
}

impl Clone for TreeModel {
    fn clone(&self) -> (res: Self)
        ensures
            res@ == self@,
    {
        let mut dirs: Vec<RelPath> = Vec::new();
        let mut i: usize = 0;
        while i < self.dirs.len()
            invariant
                i <= self.dirs.len(),
                dirs@.map_values(|p: RelPath| p@) =~= self@.dirs.subrange(0, i as int),
            decreases self.dirs.len() - i,
        {
            let ghost before = dirs@.map_values(|p: RelPath| p@);
            dirs.push(self.dirs[i].clone());
            proof {
                assert(dirs@.map_values(|p: RelPath| p@) =~= before.push(self@.dirs[i as int]));
                assert(dirs@.map_values(|p: RelPath| p@) =~= self@.dirs.subrange(0, i as int + 1));
            }
            i += 1;
        }
        let mut files: Vec<FileEntry> = Vec::new();
        let mut j: usize = 0;
        while j < self.files.len()
            invariant
                j <= self.files.len(),
                files@.map_values(|f: FileEntry| f@) =~= self@.files.subrange(0, j as int),
            decreases self.files.len() - j,
        {
            let ghost before = files@.map_values(|f: FileEntry| f@);
            files.push(self.files[j].clone());
            proof {
                assert(files@.map_values(|f: FileEntry| f@) =~= before.push(self@.files[j as int]));
                assert(files@.map_values(|f: FileEntry| f@) =~= self@.files.subrange(0, j as int + 1));
            }
            j += 1;
        }
        proof {
            assert(dirs@.map_values(|p: RelPath| p@) =~= self@.dirs);
            assert(files@.map_values(|f: FileEntry| f@) =~= self@.files);
        }
        TreeModel { dirs, files }
    }
}

impl TreeModel {
    /// A tree with no entries at all.
    pub fn empty() -> (r: TreeModel)
        ensures
            r@.is_empty(),
    {
        TreeModel { dirs: Vec::new(), files: Vec::new() }
    }

    /// Whether some directory of this tree has the path `p`.
    pub fn contains_dir(&self, p: &RelPath) -> (r: bool)
        ensures
            r == self@.has_dir(p@),
    {
        let mut i: usize = 0;
        while i < self.dirs.len()
            invariant
                i <= self.dirs.len(),
                forall|j: int| 0 <= j < i ==> self@.dirs[j] != p@,
            decreases self.dirs.len() - i,
        {
            if self.dirs[i].eq_path(p) {
                proof {
                    assert(self@.dirs[i as int] == p@);
                }
                return true;
            }
            i += 1;
        }
        proof {
            assert(forall|j: int| 0 <= j < self@.dirs.len() ==> self@.dirs[j] != p@);
        }
        false
    }

    /// The position of the file with path `p`, if the tree has one.
    pub fn find_file(&self, p: &RelPath) -> (r: Option<usize>)
        ensures
            match r {
                Some(i) => i < self.files.len() && self@.files[i as int].path == p@
                    && self@.has_file(p@),
                None => !self@.has_file(p@),
            },
    {
        let mut i: usize = 0;
        while i < self.files.len()
            invariant
                i <= self.files.len(),
                forall|j: int| 0 <= j < i ==> self@.files[j].path != p@,
            decreases self.files.len() - i,
        {
            if self.files[i].path.eq_path(p) {
                proof {
                    assert(self@.files[i as int].path == p@);
                    assert(self@.file_keys()[i as int] == p@);
                }
                return Some(i);
            }
            i += 1;
        }
        proof {
            assert(forall|j: int| 0 <= j < self@.file_keys().len()
                ==> self@.file_keys()[j] != p@);
        }
        None
    }

    /// Whether some file of this tree has the path `p`.
    pub fn contains_file(&self, p: &RelPath) -> (r: bool)
        ensures
            r == self@.has_file(p@),
    {
        match self.find_file(p) {
            Some(_) => true,
            None => false,
        }
    }

    /// Whether any entry of this tree, directory or file, has the path `p`.
    pub fn contains_path(&self, p: &RelPath) -> (r: bool)
        ensures
            r == self@.has_path(p@),
    {
        self.contains_dir(p) || self.contains_file(p)
    }

    /// Whether every identity key is unique within this tree.
    pub fn identities_unique(&self) -> (r: bool)
        ensures
            r == self@.wf(),
    {
        let mut i: usize = 0;
        while i < self.dirs.len()
            invariant
                i <= self.dirs.len(),
                forall|a: int, b: int| 0 <= a < b < i ==> self@.dirs[a] != self@.dirs[b],
            decreases self.dirs.len() - i,
        {
            let mut j: usize = 0;
            while j < i
                invariant
                    j <= i < self.dirs.len(),
                    forall|b: int| 0 <= b < j ==> self@.dirs[b] != self@.dirs[i as int],
                decreases i - j,
            {
                if self.dirs[j].eq_path(&self.dirs[i]) {
                    proof {
                        assert(self@.dirs[j as int] == self@.dirs[i as int]);
                        assert(!self@.dirs.no_duplicates());
                    }
                    return false;
                }
                j += 1;
            }
            i += 1;
        }
        let mut i: usize = 0;
        while i < self.files.len()
            invariant
                i <= self.files.len(),
                forall|a: int, b: int| 0 <= a < b < self@.dirs.len()
                    ==> self@.dirs[a] != self@.dirs[b],
                forall|a: int, b: int| 0 <= a < b < i
                    ==> self@.files[a].path != self@.files[b].path,
            decreases self.files.len() - i,
        {
            let mut j: usize = 0;
            while j < i
                invariant
                    j <= i < self.files.len(),
                    forall|b: int| 0 <= b < j
                        ==> self@.files[b].path != self@.files[i as int].path,
                decreases i - j,
            {
                if self.files[j].path.eq_path(&self.files[i].path) {
                    proof {
                        assert(self@.file_keys()[j as int] == self@.file_keys()[i as int]);
                        assert(!self@.file_keys().no_duplicates());
                    }
                    return false;
                }
                j += 1;
            }
            i += 1;
        }
        proof {
            assert forall|a: int, b: int|
                0 <= a < self@.dirs.len() && 0 <= b < self@.dirs.len() && a != b implies self@.dirs[a]
                != self@.dirs[b] by {
                if a < b {
                } else {
                }
            }
            assert forall|a: int, b: int|
                0 <= a < self@.file_keys().len() && 0 <= b < self@.file_keys().len() && a
                != b implies self@.file_keys()[a] != self@.file_keys()[b] by {
                if a < b {
                    assert(self@.files[a].path != self@.files[b].path);
                } else {
                    assert(self@.files[b].path != self@.files[a].path);
                }
            }
        }
        true
    }
}

} // verus!
