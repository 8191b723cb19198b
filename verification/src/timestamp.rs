//! The timestamp index of one root.
//!
//! Built fresh per root per invocation from the lister's output: each
//! entry's absolute path with the root prefix stripped, mapped to its
//! last-modified time in whole seconds (0 when the metadata could not be
//! read).  Read-only after construction.

use vstd::prelude::*;

use crate::paths::PathKey;
use crate::paths::RelPath;
use crate::paths::take_strip;
use crate::sync::SyncData;

verus! {

/// A mapping from root-relative path to last-modified time, in listing
/// order.
pub struct TimestampIndex {
    /// The entries, in the order they were inserted.
    pub entries: Vec<(RelPath, u64)>,
}

impl View for TimestampIndex {
    type V = Seq<(PathKey, u64)>;

    open spec fn view(&self) -> Seq<(PathKey, u64)> {
        self.entries@.map_values(|e: (RelPath, u64)| (e.0@, e.1))
    }
}

/// The time recorded for the first entry with key `k`, if there is one.
pub open spec fn lookup(s: Seq<(PathKey, u64)>, k: PathKey) -> Option<u64>
    decreases s.len(),
{
    if s.len() == 0 {
        None
    } else if s[0].0 == k {
        Some(s[0].1)
    } else {
        lookup(s.drop_first(), k)
    }
}

impl TimestampIndex {
    /// The recorded time of the entry at `p`, if the index has one.
    pub fn get(&self, p: &RelPath) -> (r: Option<u64>)
        ensures
            r == lookup(self@, p@),
    {
        let mut i: usize = 0;
        proof {
            assert(self@.skip(0) =~= self@);
        }
        while i < self.entries.len()
            invariant
                i <= self.entries.len(),
                lookup(self@, p@) == lookup(self@.skip(i as int), p@),
            decreases self.entries.len() - i,
        {
            proof {
                assert(self@.skip(i as int)[0] == self@[i as int]);
                assert(self@[i as int] == (self.entries@[i as int].0@, self.entries@[i as int].1));
            }
            if self.entries[i].0.eq_path(p) {
                proof {
                    assert(self@.skip(i as int)[0].0 == p@);
                }
                return Some(self.entries[i].1);
            }
            proof {
                assert(self@.skip(i as int).drop_first() =~= self@.skip(i as int + 1));
            }
            i += 1;
        }
        proof {
            assert(self@.skip(self@.len() as int).len() == 0);
        }
        None
    }
}

impl SyncData {
    /// Builds the timestamp index of one root: each listed path with `trim`
    /// stripped off, mapped to the time the caller read for it, in listing
    /// order.
    pub fn file_timestamp(&self, files: &Vec<(RelPath, u64)>, trim: &RelPath) -> (r:
        TimestampIndex)
        requires
            forall|i: int|
                0 <= i < files@.len() ==> trim@.is_prefix_of(#[trigger] files@[i].0@),
        ensures
            r@.len() == files@.len(),
            forall|i: int|
                0 <= i < files@.len() ==> #[trigger] r@[i] == (
                    files@[i].0@.skip(trim@.len() as int),
                    files@[i].1,
                ),
    {
        let mut entries: Vec<(RelPath, u64)> = Vec::new();
        let mut i: usize = 0;
        while i < files.len()
            invariant
                i <= files.len(),
                entries@.len() == i,
                forall|t: int|
                    0 <= t < files@.len() ==> trim@.is_prefix_of(#[trigger] files@[t].0@),
                forall|t: int|
                    0 <= t < i ==> (#[trigger] entries@[t].0)@ == files@[t].0@.skip(
                        trim@.len() as int,
                    ) && entries@[t].1 == files@[t].1,
            decreases files.len() - i,
        {
            let stripped = take_strip(&files[i].0, trim);
            entries.push((stripped, files[i].1));
            i += 1;
        }
        let r = TimestampIndex { entries };
        proof {
            assert forall|t: int| 0 <= t < files@.len() implies #[trigger] r@[t] == (
                files@[t].0@.skip(trim@.len() as int),
                files@[t].1,
            ) by {
                assert(r@[t] == (entries@[t].0@, entries@[t].1));
            }
        }
        r
    }
}

} // verus!
