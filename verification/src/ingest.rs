//! Ingest of a new media file, after the probe has reported its
//! metadata and the identity hasher has named it.
//!
//! The dispatcher checks for duplicates against the catalog, plans the
//! moves that take the file from the spool into its own tree, inserts
//! the catalog row, decides on transcoding, and emits the user
//! notifications.  Filesystem steps are returned as a plan for the
//! caller to perform, in the given order; the catalog row must only be
//! considered durable once the moves have succeeded.

use vstd::prelude::*;

use crate::bus::{UserMessage, UserMessageTopic};
use crate::catalog::{Catalog, CatalogState, has_video};
use crate::errors::DBError;
use crate::fsmodel::{FsAction, apply_actions, apply_action,
    lemma_apply_actions_step, lemma_apply_actions_empty};
use crate::models::{Video, VideoInsert};
use crate::strutil::after_last;
use crate::transcode::{Metadata, spec_needs_transcoding, spec_transcoded_basename,
    needs_transcoding, transcoded_basename};

verus! {

/// A job for the transcoder pool.
pub struct TranscodeJob {
    /// The original file, inside the media file's tree.
    pub src: String,
    /// The output file the encoder must produce.
    pub dst: String,
    /// Video bitrate to encode at, bits per second.
    pub video_bitrate: u32,
    pub media_file_id: String,
    pub user_id: String,
}

impl Clone for TranscodeJob {
    fn clone(&self) -> (r: Self)
        ensures
            r == *self,
    {
        TranscodeJob {
            src: self.src.clone(),
            dst: self.dst.clone(),
            video_bitrate: self.video_bitrate,
            media_file_id: self.media_file_id.clone(),
            user_id: self.user_id.clone(),
        }
    }
}

/// How an ingest attempt ended.
pub enum IngestOutcome {
    /// The same user already has this media file; the new arrival is to
    /// be rejected, which is not an error.
    DuplicateOwned,
    /// Another user owns a media file with the same identity.
    HashCollision,
    /// The catalog store failed; no filesystem step may be performed.
    CatalogError(DBError),
    /// The file was accepted and its row inserted.
    Ingested,
}

/// The result of one ingest decision: the outcome, the filesystem plan
/// to perform in order, the notifications to deliver, and the transcode
/// job to enqueue, if one is due.
pub struct IngestResult {
    pub outcome: IngestOutcome,
    pub actions: Vec<FsAction>,
    pub messages: Vec<UserMessage>,
    pub job: Option<TranscodeJob>,
}

/// The row is owned by this user.
pub open spec fn owner_matches(v: Video, uid: Seq<char>) -> bool {
    v.user_id matches Some(u) && u@ == uid
}

/// The media file's directory under the data directory.
pub open spec fn spec_vh_dir(data_dir: Seq<char>, vh: Seq<char>) -> Seq<char> {
    data_dir + "/"@ + "videos"@ + "/"@ + vh
}

/// The originals directory inside a media file's tree.
pub open spec fn spec_orig_dir(data_dir: Seq<char>, vh: Seq<char>) -> Seq<char> {
    spec_vh_dir(data_dir, vh) + "/"@ + "orig"@
}

/// Where the spool file comes to rest after ingest.
pub open spec fn spec_moved_path(data_dir: Seq<char>, vh: Seq<char>, src: Seq<char>) -> Seq<char> {
    spec_orig_dir(data_dir, vh) + "/"@ + after_last(src, '/')
}

/// The catalog row an accepted file gets.
pub open spec fn ingested_row_ok(v: Video, vh: Seq<char>, md: Metadata, clock: int) -> bool {
    &&& v.id@ == vh
    &&& owner_matches(v, md.user_id@)
    &&& (v.user_name matches Some(n) && n@ == md.user_id@)
    &&& v.added_time == clock
    &&& v.recompression_done is None
    &&& v.thumb_sheet_cols is None
    &&& v.thumb_sheet_rows is None
    &&& (v.orig_filename matches Some(f) && f@ == after_last(md.src_file@, '/'))
    &&& (v.title matches Some(t) && t@ == after_last(md.src_file@, '/'))
    &&& v.total_frames == Some(md.total_frames as i32)
    &&& v.duration_ms == Some(md.duration_ms)
    &&& (v.fps matches Some(f) && f@ == md.fps@)
    &&& (v.raw_metadata_all matches Some(m) && m@ == md.metadata_all@)
}

/// The filesystem plan of an accepted file: remove a stale tree if one
/// is in the way, create the tree, move the spool file into it.
pub open spec fn ingest_plan_ok(
    acts: Seq<FsAction>,
    stale: bool,
    data_dir: Seq<char>,
    vh: Seq<char>,
    src: Seq<char>,
) -> bool {
    let base: int = if stale { 1 } else { 0 };
    &&& acts.len() == base + 3
    &&& (stale ==> (acts[0] matches FsAction::RemoveTree { root }
        && root@ == spec_vh_dir(data_dir, vh)))
    &&& (acts[base] matches FsAction::CreateDir { path } && path@ == spec_vh_dir(data_dir, vh))
    &&& (acts[base + 1] matches FsAction::CreateDir { path }
        && path@ == spec_orig_dir(data_dir, vh))
    &&& (acts[base + 2] matches FsAction::Move { from, to }
        && from@ == src && to@ == spec_moved_path(data_dir, vh, src))
}

/// The transcode job of an accepted file, when one is due.
pub open spec fn ingest_job_ok(
    job: Option<TranscodeJob>,
    data_dir: Seq<char>,
    vh: Seq<char>,
    md: Metadata,
    target_bitrate: u32,
    uuid: Seq<char>,
) -> bool {
    match spec_needs_transcoding(md, target_bitrate) {
        Some(rate) => job matches Some(j)
            && j.src@ == spec_moved_path(data_dir, vh, md.src_file@)
            && j.dst@ == spec_vh_dir(data_dir, vh) + "/"@ + spec_transcoded_basename(rate, uuid)
            && j.video_bitrate == rate
            && j.media_file_id@ == vh
            && j.user_id@ == md.user_id@,
        None => job is None,
    }
}

/// The notifications of an accepted file: a media-file-added event for
/// the clients, then a persistent textual confirmation, which mentions
/// transcoding when a job was enqueued.
pub open spec fn ingest_messages_ok(
    msgs: Seq<UserMessage>,
    vh: Seq<char>,
    uid: Seq<char>,
    transcoding: bool,
) -> bool {
    &&& msgs.len() == 2
    &&& msgs[0].topic == UserMessageTopic::MediaFileAdded
    &&& msgs[0].msg@ == "Media added"@
    &&& msgs[0].details is None
    &&& (msgs[0].user_id matches Some(u) && u@ == uid)
    &&& (msgs[0].media_file_id matches Some(v) && v@ == vh)
    &&& !msgs[0].persist
    &&& msgs[1].topic == UserMessageTopic::Success
    &&& msgs[1].msg@ == (if transcoding {
        "Media added"@ + ". Transcoding..."@
    } else {
        "Media added"@
    })
    &&& msgs[1].details is None
    &&& (msgs[1].user_id matches Some(u) && u@ == uid)
    &&& (msgs[1].media_file_id matches Some(v) && v@ == vh)
    &&& msgs[1].persist
}

/// The duplicate notification: an ok-message without a media file
/// reference, so that clients do not drop the existing media file.
pub open spec fn duplicate_message_ok(msgs: Seq<UserMessage>, uid: Seq<char>) -> bool {
    &&& msgs.len() == 1
    &&& msgs[0].topic == UserMessageTopic::Success
    &&& msgs[0].msg@ == "You already have this media file"@
    &&& msgs[0].details is None
    &&& (msgs[0].user_id matches Some(u) && u@ == uid)
    &&& msgs[0].media_file_id is None
    &&& msgs[0].persist
}

/// Ingest one file whose metadata the probe reported and whose identity
/// is `vh`.  `dir_exists` says whether the media file's tree is already
/// on disk; `uuid` is a fresh identifier for the transcode output name.
///
/// On `Ingested`, the returned plan must be performed in order before
/// the catalog row is considered durable.  On `DuplicateOwned`,
/// `HashCollision` and `CatalogError` nothing is planned: every
/// rejection path is followed by the cleaner.
pub fn ingest_media(
    cat: &mut Catalog,
    vh: &str,
    md: &Metadata,
    data_dir: &str,
    dir_exists: bool,
    target_bitrate: u32,
    uuid: &str,
) -> (r: IngestResult)
    requires
        old(cat).wf(),
        md.total_frames <= i32::MAX,
    ensures
        final(cat).wf(),
        final(cat).spec_broken() == old(cat).spec_broken(),
        // A broken catalog fails the ingest and plans nothing.
        old(cat).spec_broken() ==> (r.outcome matches IngestOutcome::CatalogError(
            DBError::Backend(_)))
            && final(cat)@ == old(cat)@
            && r.actions@.len() == 0 && r.messages@.len() == 0 && r.job is None,
        // The same user already has this media file.
        !old(cat).spec_broken() && dir_exists
            && (exists|i: int| 0 <= i < old(cat)@.videos.len()
                && (#[trigger] old(cat)@.videos[i].id)@ == vh@
                && owner_matches(old(cat)@.videos[i], md.user_id@))
            ==> (r.outcome matches IngestOutcome::DuplicateOwned)
                && final(cat)@ == old(cat)@
                && duplicate_message_ok(r.messages@, md.user_id@)
                && r.actions@.len() == 0 && r.job is None,
        // Another user owns the identity: a collision, fatal for the file.
        !old(cat).spec_broken() && dir_exists
            && (exists|i: int| 0 <= i < old(cat)@.videos.len()
                && (#[trigger] old(cat)@.videos[i].id)@ == vh@)
            && (forall|i: int| 0 <= i < old(cat)@.videos.len()
                && (#[trigger] old(cat)@.videos[i].id)@ == vh@
                ==> !owner_matches(old(cat)@.videos[i], md.user_id@))
            ==> (r.outcome matches IngestOutcome::HashCollision)
                && final(cat)@ == old(cat)@
                && r.actions@.len() == 0 && r.messages@.len() == 0 && r.job is None,
        // A row without a tree, or a tree without a row, never yields a
        // duplicate: the file is accepted afresh.
        !old(cat).spec_broken() && !has_video(old(cat)@.videos, vh@)
            ==> (r.outcome matches IngestOutcome::Ingested)
                && (exists|v: Video| #[trigger] ingested_row_ok(v, vh@, *md, old(cat)@.clock)
                    && final(cat)@ == (CatalogState {
                        videos: old(cat)@.videos.push(v),
                        ..old(cat)@
                    }))
                && ingest_plan_ok(r.actions@, dir_exists, data_dir@, vh@, md.src_file@)
                && ingest_job_ok(r.job, data_dir@, vh@, *md, target_bitrate, uuid@)
                && ingest_messages_ok(r.messages@, vh@, md.user_id@,
                    spec_needs_transcoding(*md, target_bitrate) is Some),
        // A stale row whose tree is gone counts as a duplicate only
        // through the catalog: inserting the same identity again fails.
        !old(cat).spec_broken() && !dir_exists && has_video(old(cat)@.videos, vh@)
            ==> (r.outcome matches IngestOutcome::CatalogError(DBError::Backend(_)))
                && final(cat)@ == old(cat)@
                && r.actions@.len() == 0 && r.messages@.len() == 0 && r.job is None,
{
    if cat.is_broken() {
        return IngestResult {
            outcome: IngestOutcome::CatalogError(
                DBError::Backend(String::from_str("catalog backend failure"))),
            actions: Vec::new(),
            messages: Vec::new(),
            job: None,
        };
    }
    let vh_string = String::from_str(vh);
    let mut stale = false;
    if dir_exists {
        match Video::get(cat, &vh_string) {
            Ok(v) => {
                let owned = match &v.user_id {
                    Some(u) => crate::strutil::str_eq(u.as_str(), md.user_id.as_str()),
                    None => false,
                };
                proof {
                    let vs = cat@.videos;
                    let i = choose|i: int| 0 <= i < vs.len() && vs[i] == v;
                    assert(vs[i].id@ == vh@);
                    assert forall|j: int| 0 <= j < vs.len() && (#[trigger] vs[j].id)@ == vh@
                        implies vs[j] == v by {
                        if j != i {
                            assert(vs[i].id@ != vs[j].id@);
                        }
                    }
                }
                if owned {
                    let msg = UserMessage {
                        topic: UserMessageTopic::Success,
                        msg: String::from_str("You already have this media file"),
                        details: None,
                        user_id: Some(md.user_id.clone()),
                        media_file_id: None,
                        persist: true,
                    };
                    let mut messages: Vec<UserMessage> = Vec::new();
                    messages.push(msg);
                    return IngestResult {
                        outcome: IngestOutcome::DuplicateOwned,
                        actions: Vec::new(),
                        messages,
                        job: None,
                    };
                } else {
                    return IngestResult {
                        outcome: IngestOutcome::HashCollision,
                        actions: Vec::new(),
                        messages: Vec::new(),
                        job: None,
                    };
                }
            },
            Err(DBError::NotFound) => {
                // A tree without a row: remove it and ingest afresh.
                stale = true;
            },
            Err(e) => {
                return IngestResult {
                    outcome: IngestOutcome::CatalogError(e),
                    actions: Vec::new(),
                    messages: Vec::new(),
                    job: None,
                };
            },
        }
    }
    // Fresh ingest: plan the tree, insert the row, decide on transcode.
    let basename = crate::strutil::basename_of(md.src_file.as_str());
    let videos_dir = crate::strutil::path_join(data_dir, "videos");
    let vh_dir = crate::strutil::path_join(videos_dir.as_str(), vh);
    let orig_dir = crate::strutil::path_join(vh_dir.as_str(), "orig");
    let moved = crate::strutil::path_join(orig_dir.as_str(), basename.as_str());
    proof {
        assert(vh_dir@ =~= spec_vh_dir(data_dir@, vh@));
        assert(orig_dir@ =~= spec_orig_dir(data_dir@, vh@));
        assert(moved@ =~= spec_moved_path(data_dir@, vh@, md.src_file@));
    }
    let ins = VideoInsert {
        id: vh_string,
        user_id: Some(md.user_id.clone()),
        user_name: Some(md.user_id.clone()),
        recompression_done: None,
        thumb_sheet_cols: None,
        thumb_sheet_rows: None,
        orig_filename: Some(basename.clone()),
        title: Some(basename.clone()),
        total_frames: Some(md.total_frames as i32),
        duration_ms: Some(md.duration_ms),
        fps: Some(md.fps.clone()),
        raw_metadata_all: Some(md.metadata_all.clone()),
    };
    match Video::insert(cat, &ins) {
        Err(e) => {
            IngestResult {
                outcome: IngestOutcome::CatalogError(e),
                actions: Vec::new(),
                messages: Vec::new(),
                job: None,
            }
        },
        Ok(row) => {
            proof {
                assert(ingested_row_ok(row, vh@, *md, old(cat)@.clock));
            }
            let mut actions: Vec<FsAction> = Vec::new();
            if stale {
                actions.push(FsAction::RemoveTree { root: vh_dir.clone() });
            }
            actions.push(FsAction::CreateDir { path: vh_dir.clone() });
            actions.push(FsAction::CreateDir { path: orig_dir });
            actions.push(FsAction::Move { from: md.src_file.clone(), to: moved.clone() });
            let job: Option<TranscodeJob> = match needs_transcoding(md, target_bitrate) {
                Some(rate) => {
                    let base = transcoded_basename(rate, uuid);
                    let dst = crate::strutil::path_join(vh_dir.as_str(), base.as_str());
                    Some(TranscodeJob {
                        src: moved,
                        dst,
                        video_bitrate: rate,
                        media_file_id: row.id.clone(),
                        user_id: md.user_id.clone(),
                    })
                },
                None => None,
            };
            let mut messages: Vec<UserMessage> = Vec::new();
            messages.push(UserMessage {
                topic: UserMessageTopic::MediaFileAdded,
                msg: String::from_str("Media added"),
                details: None,
                user_id: Some(md.user_id.clone()),
                media_file_id: Some(row.id.clone()),
                persist: false,
            });
            let mut ok_text = String::from_str("Media added");
            if job.is_some() {
                ok_text.append(". Transcoding...");
            }
            messages.push(UserMessage {
                topic: UserMessageTopic::Success,
                msg: ok_text,
                details: None,
                user_id: Some(md.user_id.clone()),
                media_file_id: Some(row.id.clone()),
                persist: true,
            });
            IngestResult {
                outcome: IngestOutcome::Ingested,
                actions,
                messages,
                job,
            }
        },
    }
}

/// An accepted file leaves the spool: applying the plan of an accepted
/// ingest to a spool that holds the file leaves the source path absent
/// and the file present under the media file's tree.
pub proof fn lemma_ingest_plan_effect(
    fs: Set<Seq<char>>,
    acts: Seq<FsAction>,
    stale: bool,
    vh_dir: String,
    orig_dir: String,
    src: String,
    moved: String,
)
    requires
        acts == if stale {
            seq![
                FsAction::RemoveTree { root: vh_dir },
                FsAction::CreateDir { path: vh_dir },
                FsAction::CreateDir { path: orig_dir },
                FsAction::Move { from: src, to: moved },
            ]
        } else {
            seq![
                FsAction::CreateDir { path: vh_dir },
                FsAction::CreateDir { path: orig_dir },
                FsAction::Move { from: src, to: moved },
            ]
        },
        vh_dir@ != src@,
        orig_dir@ != src@,
        moved@ != src@,
    ensures
        !apply_actions(fs, acts).contains(src@),
        apply_actions(fs, acts).contains(moved@),
    decreases acts.len(),
{
    if stale {
        lemma_apply_actions_step(fs, acts);
        let fs0 = apply_action(fs, acts.first());
        let rest = acts.drop_first();
        assert(rest =~= seq![
            FsAction::CreateDir { path: vh_dir },
            FsAction::CreateDir { path: orig_dir },
            FsAction::Move { from: src, to: moved },
        ]);
        lemma_ingest_plan_effect(fs0, rest, false, vh_dir, orig_dir, src, moved);
    } else {
        lemma_apply_actions_step(fs, acts);
        let fs1 = apply_action(fs, acts.first());
        let r1 = acts.drop_first();
        assert(r1 =~= seq![
            FsAction::CreateDir { path: orig_dir },
            FsAction::Move { from: src, to: moved },
        ]);
        lemma_apply_actions_step(fs1, r1);
        let fs2 = apply_action(fs1, r1.first());
        let r2 = r1.drop_first();
        assert(r2 =~= seq![FsAction::Move { from: src, to: moved }]);
        lemma_apply_actions_step(fs2, r2);
        let fs3 = apply_action(fs2, r2.first());
        let r3 = r2.drop_first();
        assert(r3 =~= Seq::<FsAction>::empty());
        lemma_apply_actions_empty(fs3, r3);
        assert(apply_actions(fs, acts) == fs3);
        assert(fs3 == fs2.remove(src@).insert(moved@));
    }
}

} // verus!
