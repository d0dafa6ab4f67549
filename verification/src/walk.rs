//! How the trees are walked.
use vstd::prelude::*;

verus! {

/// How a walk goes through a tree. Depth 0 is where it starts.
#[derive(Debug, Clone, Copy, PartialEq, Eq, Structural)]
pub struct WalkPlan {
    /// Entries above this depth are not visited.
    pub min_depth: usize,
    /// Entries below this depth are not visited.
    pub max_depth: usize,
    /// What a directory holds is visited before the directory.
    pub contents_first: bool,
    /// The entries of a directory are visited in the order of their names.
    pub sort_by_name: bool,
}

impl WalkPlan {
    /// The walk that renames a whole tree: all of it but the root, deepest first, so
    /// that renaming a directory leaves the paths valid that are still to be visited.
    pub fn tree() -> (plan: WalkPlan)
        ensures
            plan == (WalkPlan {
                min_depth: 1,
                max_depth: usize::MAX,
                contents_first: true,
                sort_by_name: false,
            }),
    {
        WalkPlan {
            min_depth: 1,
            max_depth: usize::MAX,
            contents_first: true,
            sort_by_name: false,
        }
    }

    /// The walk of the `rename` command: the directory and what it holds, or, if it is
    /// recursive, all that lies below, deepest first.
    pub fn command(recursive: bool) -> (plan: WalkPlan)
        ensures
            plan == (WalkPlan {
                min_depth: 0,
                max_depth: if recursive {
                    usize::MAX
                } else {
                    1
                },
                contents_first: true,
                sort_by_name: false,
            }),
    {
        let max_depth: usize = if recursive {
            usize::MAX
        } else {
            1
        };
        WalkPlan { min_depth: 0, max_depth, contents_first: true, sort_by_name: false }
    }

    /// The walk that fills an archive: all of the folder but the folder itself, each
    /// directory before what it holds, in the order of the names.
    pub fn archive() -> (plan: WalkPlan)
        ensures
            plan == (WalkPlan {
                min_depth: 1,
                max_depth: usize::MAX,
                contents_first: false,
                sort_by_name: true,
            }),
    {
        WalkPlan {
            min_depth: 1,
            max_depth: usize::MAX,
            contents_first: false,
            sort_by_name: true,
        }
    }
}

} // verus!
