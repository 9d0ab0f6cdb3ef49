//! Walking a directory tree: the bookkeeping of a depth-first walk, apart from the reading
//! of directories.
use vstd::prelude::*;

use crate::path::model::push_text;
use crate::path::PathBuf;

verus! {

/// A walk of a directory tree: the paths found so far, in the order they were found, and
/// the directories still to read, the one read next last.
pub struct Walk {
    found: Vec<PathBuf>,
    pending: Vec<PathBuf>,
}

/// The texts of a sequence of paths.
pub open spec fn texts(ps: Seq<PathBuf>) -> Seq<Seq<char>> {
    ps.map_values(|p: PathBuf| p@)
}

/// The paths of the entries of directory `dir`: each name joined onto `dir`.
pub open spec fn entry_paths(dir: Seq<char>, entries: Seq<(String, bool)>) -> Seq<Seq<char>> {
    entries.map_values(|e: (String, bool)| push_text(dir, e.0@))
}

/// The paths of the entries of directory `dir` that are directories, in order.
pub open spec fn entry_dirs(dir: Seq<char>, entries: Seq<(String, bool)>) -> Seq<Seq<char>>
    decreases entries.len(),
{
    if entries.len() == 0 {
        seq![]
    } else if entries.last().1 {
        entry_dirs(dir, entries.drop_last()).push(push_text(dir, entries.last().0@))
    } else {
        entry_dirs(dir, entries.drop_last())
    }
}

impl Walk {
    /// The paths found so far.
    pub closed spec fn found(&self) -> Seq<Seq<char>> {
        texts(self.found@)
    }

    /// The directories still to read; the last is read next.
    pub closed spec fn pending(&self) -> Seq<Seq<char>> {
        texts(self.pending@)
    }

    /// A walk of the tree below `root`, which is read only if it is a directory.
    pub fn new(root: &str, root_is_dir: bool) -> (r: Walk)
        ensures
            r.found() == Seq::<Seq<char>>::empty(),
            r.pending() == (if root_is_dir {
                seq![root@]
            } else {
                Seq::<Seq<char>>::empty()
            }),
    {
        let mut pending: Vec<PathBuf> = Vec::new();
        if root_is_dir {
            pending.push(PathBuf::from_str_slice(root));
        }
        let r = Walk { found: Vec::new(), pending };
        proof {
            assert(r.found() =~= Seq::<Seq<char>>::empty());
            if root_is_dir {
                assert(r.pending() =~= seq![root@]);
            } else {
                assert(r.pending() =~= Seq::<Seq<char>>::empty());
            }
        }
        r
    }

    /// The next directory to read, taken off the pending ones: the one added last.
    pub fn next_dir(&mut self) -> (r: Option<PathBuf>)
        ensures
            old(self).pending().len() == 0 ==> r is None && final(self).pending() == old(
                self,
            ).pending(),
            old(self).pending().len() > 0 ==> (r matches Some(p) && p@ == old(self).pending().last()
                && final(self).pending() == old(self).pending().drop_last()),
            final(self).found() == old(self).found(),
    {
        let r = self.pending.pop();
        proof {
            if old(self).pending@.len() > 0 {
                assert(texts(self.pending@) =~= texts(old(self).pending@).drop_last());
            }
        }
        r
    }

    /// Takes in the entries of directory `dir`, each a name and whether it is a directory:
    /// every entry's path is found, and those of directories are to be read.
    pub fn visit(&mut self, dir: &PathBuf, entries: Vec<(String, bool)>)
        ensures
            final(self).found() == old(self).found() + entry_paths(dir@, entries@),
            final(self).pending() == old(self).pending() + entry_dirs(dir@, entries@),
    {
        let mut i: usize = 0;
        let n = entries.len();
        while i < n
            invariant
                n == entries@.len(),
                i <= n,
                texts(self.found@) == texts(old(self).found@) + entry_paths(
                    dir@,
                    entries@.take(i as int),
                ),
                texts(self.pending@) == texts(old(self).pending@) + entry_dirs(
                    dir@,
                    entries@.take(i as int),
                ),
            decreases n - i,
        {
            let path = dir.as_path().join(entries[i].0.as_str());
            let is_dir = entries[i].1;
            let ghost before_found = self.found@;
            let ghost before_pending = self.pending@;
            proof {
                assert(entries@.take(i + 1).drop_last() =~= entries@.take(i as int));
                assert(entries@.take(i + 1).last() == entries@[i as int]);
                assert(entry_paths(dir@, entries@.take(i + 1)) =~= entry_paths(
                    dir@,
                    entries@.take(i as int),
                ).push(path@));
            }
            if is_dir {
                let copy = path.as_path().to_path_buf();
                self.pending.push(copy);
                proof {
                    assert(texts(self.pending@) =~= texts(before_pending).push(path@));
                }
            }
            self.found.push(path);
            proof {
                assert(texts(self.found@) =~= texts(before_found).push(path@));
            }
            i = i + 1;
        }
        proof {
            assert(entries@.take(n as int) =~= entries@);
        }
    }

    /// The paths found, in the order they were found.
    pub fn into_found(self) -> (r: Vec<PathBuf>)
        ensures
            texts(r@) == self.found(),
    {
        self.found
    }
}

} // verus!
