//! An abstract model of the data directory.
//!
//! The pipeline never touches the disk itself: its decision functions
//! return a list of filesystem actions for the caller to perform, in
//! order.  The effect of such a list on an abstract set of existing
//! paths is defined here, so that properties like "after ingestion the
//! file is gone from the spool" are theorems about the returned plans.

use vstd::prelude::*;

verus! {

/// One filesystem step of a plan.
pub enum FsAction {
    /// Create a directory (parents assumed present).
    CreateDir { path: String },
    /// Rename a file.
    Move { from: String, to: String },
    /// Remove a whole tree.
    RemoveTree { root: String },
    /// Write a file with the given content.
    WriteFile { path: String, content: Vec<u8> },
    /// Create a symbolic link at `link` pointing to `target`.
    Symlink { link: String, target: String },
}

/// A path lies at or under a root.
pub open spec fn under(p: Seq<char>, root: Seq<char>) -> bool {
    p == root || (p.len() > root.len() && p.subrange(0, root.len() as int) == root
        && p[root.len() as int] == '/')
}

/// The set of existing paths after one action.
pub open spec fn apply_action(fs: Set<Seq<char>>, a: FsAction) -> Set<Seq<char>> {
    match a {
        FsAction::CreateDir { path } => fs.insert(path@),
        FsAction::Move { from, to } => fs.remove(from@).insert(to@),
        FsAction::RemoveTree { root } => fs.difference(Set::new(|p: Seq<char>| under(p, root@))),
        FsAction::WriteFile { path, content: _ } => fs.insert(path@),
        FsAction::Symlink { link, target: _ } => fs.insert(link@),
    }
}

/// The set of existing paths after a plan, performed front to back.
pub open spec fn apply_actions(fs: Set<Seq<char>>, acts: Seq<FsAction>) -> Set<Seq<char>>
    decreases acts.len(),
{
    if acts.len() == 0 {
        fs
    } else {
        apply_actions(apply_action(fs, acts.first()), acts.drop_first())
    }
}

/// One unfolding of [`apply_actions`].
pub proof fn lemma_apply_actions_step(fs: Set<Seq<char>>, acts: Seq<FsAction>)
    requires
        acts.len() > 0,
    ensures
        apply_actions(fs, acts) == apply_actions(apply_action(fs, acts.first()), acts.drop_first()),
{
}

/// An empty plan changes nothing.
pub proof fn lemma_apply_actions_empty(fs: Set<Seq<char>>, acts: Seq<FsAction>)
    requires
        acts.len() == 0,
    ensures
        apply_actions(fs, acts) == fs,
{
}

} // verus!
