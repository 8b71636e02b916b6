//! Rejected-file cleaner.
//!
//! Every rejection path moves the refused file into `<data>/rejected/`
//! under its original basename; a name collision is resolved by
//! suffixing a UTC timestamp.  When the rejection concerns a media file
//! whose tree was already created, the tree is removed too.  The cleaner
//! is idempotent: a missing source asks for no move.
//!
//! The cleaner decides; the caller performs the returned actions.  The
//! caller supplies what only the disk knows: whether the source still
//! exists, whether the destination name is taken, and whether the media
//! file's tree exists.

use vstd::prelude::*;

use crate::fsmodel::{FsAction, apply_actions, apply_action, under};
use crate::strutil::{after_last, basename_of, path_join};

verus! {

/// The filesystem steps of one cleanup, in order, and where the rejected
/// file lands when a move happens.
pub struct CleanupPlan {
    pub actions: Vec<FsAction>,
    pub dest: Option<String>,
}

/// The rejection bin of the data directory.
pub open spec fn rejected_dir(data_dir: Seq<char>) -> Seq<char> {
    data_dir + "/"@ + "rejected"@
}

/// The tree of a media file under the data directory.
pub open spec fn media_tree_root(data_dir: Seq<char>, media_id: Seq<char>) -> Seq<char> {
    data_dir + "/"@ + "videos"@ + "/"@ + media_id
}

/// Where a rejected file lands: its basename inside the rejection bin,
/// suffixed with the given timestamp when the plain name is taken.
pub open spec fn spec_rejected_dest(
    data_dir: Seq<char>,
    src: Seq<char>,
    dest_taken: bool,
    ts: Seq<char>,
) -> Seq<char> {
    let base = rejected_dir(data_dir) + "/"@ + after_last(src, '/');
    if dest_taken {
        base + "_"@ + ts
    } else {
        base
    }
}

/// Plan the cleanup of a rejected file.
///
/// `src_exists` says whether the source file is still present (a missing
/// source is not an error), `dest_taken` whether the plain destination
/// name is already used, `ts` the timestamp to suffix on collision, and
/// `media_tree_exists` whether `media_id`'s tree is on disk.
pub fn clean_up_rejected_file(
    data_dir: &str,
    src: &str,
    media_id: Option<&str>,
    src_exists: bool,
    dest_taken: bool,
    ts: &str,
    media_tree_exists: bool,
) -> (r: CleanupPlan)
    ensures
        // The move: exactly when the source still exists.
        src_exists <==> r.dest is Some,
        r.dest matches Some(d) ==> d@ == spec_rejected_dest(data_dir@, src@, dest_taken, ts@),
        // The plan, in order: the move, then the tree removal.
        r.actions@.len() == (if src_exists { 1int } else { 0 })
            + (if media_id is Some && media_tree_exists { 1int } else { 0 }),
        src_exists ==> (r.actions@[0] matches FsAction::Move { from, to }
            && from@ == src@
            && to@ == spec_rejected_dest(data_dir@, src@, dest_taken, ts@)),
        media_id matches Some(id) ==> media_tree_exists
            ==> (r.actions@.last() matches FsAction::RemoveTree { root }
                && root@ == media_tree_root(data_dir@, id@)),
{
    let mut actions: Vec<FsAction> = Vec::new();
    let mut dest: Option<String> = None;
    if src_exists {
        let name = basename_of(src);
        let bin = path_join(data_dir, "rejected");
        let mut d = path_join(bin.as_str(), name.as_str());
        if dest_taken {
            d.append("_");
            d.append(ts);
        }
        proof {
            assert(d@ =~= spec_rejected_dest(data_dir@, src@, dest_taken, ts@));
        }
        let to = d.clone();
        actions.push(FsAction::Move { from: String::from_str(src), to });
        dest = Some(d);
    }
    if media_tree_exists {
        if let Some(id) = media_id {
            let vdir = path_join(data_dir, "videos");
            let root = path_join(vdir.as_str(), id);
            proof {
                assert(root@ =~= media_tree_root(data_dir@, id@));
            }
            actions.push(FsAction::RemoveTree { root });
        }
    }
    CleanupPlan { actions, dest }
}

/// A rejected file ends up in the rejection bin exactly once: applying a
/// cleanup plan that moves `src` to `dest` (and possibly removes a media
/// tree that does not reach into the rejection bin) leaves `src` absent
/// and `dest` present.
pub proof fn lemma_cleanup_plan_effect(
    fs: Set<Seq<char>>,
    acts: Seq<FsAction>,
    src: String,
    dest: String,
    root: String,
    rm: bool,
)
    requires
        acts == if rm {
            seq![
                FsAction::Move { from: src, to: dest },
                FsAction::RemoveTree { root: root },
            ]
        } else {
            seq![FsAction::Move { from: src, to: dest }]
        },
        src@ != dest@,
        !under(dest@, root@),
    ensures
        !apply_actions(fs, acts).contains(src@) || under(src@, root@),
        apply_actions(fs, acts).contains(dest@),
{
    crate::fsmodel::lemma_apply_actions_step(fs, acts);
    let fs1 = apply_action(fs, acts.first());
    assert(fs1 == fs.remove(src@).insert(dest@));
    if rm {
        assert(acts.drop_first() =~= seq![FsAction::RemoveTree { root: root }]);
        crate::fsmodel::lemma_apply_actions_step(fs1, acts.drop_first());
        let fs2 = apply_action(fs1, acts.drop_first().first());
        assert(acts.drop_first().drop_first() =~= Seq::<FsAction>::empty());
        crate::fsmodel::lemma_apply_actions_empty(fs2, acts.drop_first().drop_first());
        assert(apply_actions(fs, acts) == fs2);
        assert(fs2.contains(dest@));
        assert(!under(src@, root@) ==> !fs2.contains(src@));
    } else {
        assert(acts.drop_first() =~= Seq::<FsAction>::empty());
        crate::fsmodel::lemma_apply_actions_empty(fs1, acts.drop_first());
        assert(apply_actions(fs, acts) == fs1);
    }
}

} // verus!
