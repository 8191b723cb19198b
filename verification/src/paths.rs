//! Root-independent paths.
//!
//! A path is kept as its sequence of components.  The same representation
//! serves absolute paths (as the lister reports them) and relative paths
//! (after the root prefix has been stripped); the relative form is the
//! identity that correlates an entry across the source and the destination
//! tree.

use vstd::prelude::*;

verus! {

/// The mathematical value of a path: the views of its components.
pub type PathKey = Seq<Seq<char>>;

/// A path split into components, root prefix already separate.
pub struct RelPath {
    pub parts: Vec<String>,
}

impl View for RelPath {
    type V = PathKey;

    open spec fn view(&self) -> PathKey {
        self.parts@.map_values(|c: String| c@)
    }
}

impl Clone for RelPath {
    fn clone(&self) -> (res: Self)
        ensures
            res@ == self@,
    {
        let parts = self.parts.clone();
        proof {
            assert(parts@.map_values(|c: String| c@) =~= self.parts@.map_values(|c: String| c@));
        }
        RelPath { parts }
    }
}

impl RelPath {
    /// How many components the path has.
    pub fn depth(&self) -> (r: usize)
        ensures
            r == self@.len(),
    {
        self.parts.len()
    }

    /// Whether two paths name the same entry.
    pub fn eq_path(&self, other: &RelPath) -> (r: bool)
        ensures
            r <==> self@ == other@,
    {
        if self.parts.len() != other.parts.len() {
            proof {
                assert(self@.len() != other@.len());
            }
            return false;
        }
        let n = self.parts.len();
        let mut i: usize = 0;
        while i < n
            invariant
                n == self.parts.len(),
                n == other.parts.len(),
                i <= n,
                forall|j: int| 0 <= j < i ==> self@[j] == other@[j],
            decreases n - i,
        {
            if !self.parts[i].eq(&other.parts[i]) {
                proof {
                    assert(self@[i as int] != other@[i as int]);
                }
                return false;
            }
            i += 1;
        }
        proof {
            assert(self@ =~= other@);
        }
        true
    }

    /// The last component, the entry's own name.
    pub fn base_name(&self) -> (r: String)
        requires
            self@.len() > 0,
        ensures
            r@ == self@.last(),
    {
        self.parts[self.parts.len() - 1].clone()
    }

    /// Whether `base` is a (not necessarily proper) prefix of this path.
    pub fn starts_with(&self, base: &RelPath) -> (r: bool)
        ensures
            r <==> base@.is_prefix_of(self@),
    {
        if base.parts.len() > self.parts.len() {
            proof {
                assert(!base@.is_prefix_of(self@));
            }
            return false;
        }
        let n = base.parts.len();
        let mut i: usize = 0;
        while i < n
            invariant
                n == base.parts.len(),
                n <= self.parts.len(),
                i <= n,
                forall|j: int| 0 <= j < i ==> base@[j] == self@[j],
            decreases n - i,
        {
            if !base.parts[i].eq(&self.parts[i]) {
                proof {
                    assert(base@[i as int] != self@.subrange(0, n as int)[i as int]);
                }
                return false;
            }
            i += 1;
        }
        proof {
            assert(base@ =~= self@.subrange(0, n as int));
        }
        true
    }
}

/// The keys of a list of paths, in order.
pub open spec fn keys_of(ps: Seq<RelPath>) -> Seq<PathKey> {
    ps.map_values(|p: RelPath| p@)
}

/// Whether some path in `list` names the same entry as `p`.
pub fn contains_key(list: &Vec<RelPath>, p: &RelPath) -> (r: bool)
    ensures
        r == keys_of(list@).contains(p@),
{
    let mut i: usize = 0;
    while i < list.len()
        invariant
            i <= list.len(),
            forall|j: int| 0 <= j < i ==> keys_of(list@)[j] != p@,
        decreases list.len() - i,
    {
        if list[i].eq_path(p) {
            proof {
                assert(keys_of(list@)[i as int] == p@);
            }
            return true;
        }
        i += 1;
    }
    proof {
        assert(forall|j: int| 0 <= j < keys_of(list@).len() ==> keys_of(list@)[j] != p@);
    }
    false
}

/// The relative form of `path` under the root `base`: the components that
/// remain when the root prefix is stripped.
pub fn take_strip(path: &RelPath, base: &RelPath) -> (r: RelPath)
    requires
        base@.is_prefix_of(path@),
    ensures
        r@ == path@.skip(base@.len() as int),
{
    let start = base.parts.len();
    let mut out: Vec<String> = Vec::new();
    let mut i: usize = start;
    while i < path.parts.len()
        invariant
            start == base@.len(),
            start <= i <= path.parts.len(),
            out@.map_values(|c: String| c@) =~= path@.subrange(start as int, i as int),
        decreases path.parts.len() - i,
    {
        let ghost before = out@.map_values(|c: String| c@);
        out.push(path.parts[i].clone());
        proof {
            assert(out@.map_values(|c: String| c@) =~= before.push(path@[i as int]));
            assert(out@.map_values(|c: String| c@) =~= path@.subrange(start as int, i as int + 1));
        }
        i += 1;
    }
    proof {
        assert(path@.subrange(start as int, path@.len() as int) =~= path@.skip(start as int));
    }
    RelPath { parts: out }
}

} // verus!
