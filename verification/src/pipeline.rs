//! Per-event decisions of the ingest dispatcher loop.
//!
//! The dispatcher multiplexes uploads, probe results, spool arrivals,
//! transcoder progress and transcoder results.  The loop, its channels
//! and the disk belong to the caller; each decision here is a pure step
//! from an event to the catalog change, the filesystem plan, the
//! notifications, and what to hand on.

use vstd::prelude::*;

use crate::bus::{UserMessage, UserMessageTopic};
use crate::catalog::{Catalog, has_video};
use crate::errors::DBError;
use crate::fsmodel::FsAction;
use crate::strutil::after_last;

verus! {

/// A file that arrived for ingestion: its path in the spool and the
/// submitting user.
pub struct IncomingFile {
    pub file_path: String,
    pub user_id: String,
}

impl Clone for IncomingFile {
    fn clone(&self) -> (r: Self)
        ensures
            r == *self,
    {
        IncomingFile {
            file_path: self.file_path.clone(),
            user_id: self.user_id.clone(),
        }
    }
}

/// An error report about one file: the short message, the details, the
/// file it concerns and its submitter.
#[derive(Debug)]
pub struct DetailedMsg {
    pub msg: String,
    pub details: String,
    pub src_file: String,
    pub user_id: String,
}

impl Clone for DetailedMsg {
    fn clone(&self) -> (r: Self)
        ensures
            r == *self,
    {
        DetailedMsg {
            msg: self.msg.clone(),
            details: self.details.clone(),
            src_file: self.src_file.clone(),
            user_id: self.user_id.clone(),
        }
    }
}

/// What the transcoder pool reports when a job ends.
pub struct TranscodeResult {
    pub success: bool,
    pub dst_file: String,
    pub media_file_id: String,
    pub stdout: Vec<u8>,
    pub stderr: Vec<u8>,
    pub dmsg: DetailedMsg,
}

/// The notification for one transcoder progress update: a progress
/// event for the user, never persisted (progress is lossy by design).
pub fn on_transcode_progress(media_file_id: &str, user_id: &str, text: &str)
    -> (r: UserMessage)
    ensures
        r.topic == UserMessageTopic::Progress,
        r.msg@ == text@,
        r.details is None,
        r.user_id matches Some(u) && u@ == user_id@,
        r.media_file_id matches Some(v) && v@ == media_file_id@,
        !r.persist,
{
    UserMessage {
        topic: UserMessageTopic::Progress,
        msg: String::from_str(text),
        details: None,
        user_id: Some(String::from_str(user_id)),
        media_file_id: Some(String::from_str(media_file_id)),
        persist: false,
    }
}

/// The notification for a failed metadata read or hashing step.  The
/// caller invokes the cleaner on the file afterwards, so a rejected file
/// never stays in the spool.
pub fn on_metadata_error(dmsg: &DetailedMsg, media_file_id: Option<&str>) -> (r: UserMessage)
    ensures
        r.topic == UserMessageTopic::Error,
        r.msg@ == "Error reading media file metadata."@,
        r.details matches Some(d) && d@ == dmsg.details@,
        r.user_id matches Some(u) && u@ == dmsg.user_id@,
        (match media_file_id {
            Some(v) => r.media_file_id matches Some(m) && m@ == v@,
            None => r.media_file_id is None,
        }),
        r.persist,
{
    UserMessage {
        topic: UserMessageTopic::Error,
        msg: String::from_str("Error reading media file metadata."),
        details: Some(dmsg.details.clone()),
        user_id: Some(dmsg.user_id.clone()),
        media_file_id: match media_file_id {
            Some(v) => Some(String::from_str(v)),
            None => None,
        },
        persist: true,
    }
}

/// The filesystem steps after a successful transcode: capture the
/// encoder's output streams beside the artifact and point `video.mp4`
/// at it.
pub fn plan_transcode_artifacts(res: &TranscodeResult, data_dir: &str) -> (r: Vec<FsAction>)
    ensures
        r@.len() == 3,
        r@[0] matches FsAction::WriteFile { path, content }
            && path@ == crate::ingest::spec_vh_dir(data_dir@, res.media_file_id@) + "/"@ + "stdout"@
            && content@ == res.stdout@,
        r@[1] matches FsAction::WriteFile { path, content }
            && path@ == crate::ingest::spec_vh_dir(data_dir@, res.media_file_id@) + "/"@ + "stderr"@
            && content@ == res.stderr@,
        r@[2] matches FsAction::Symlink { link, target }
            && link@ == crate::ingest::spec_vh_dir(data_dir@, res.media_file_id@) + "/"@ + "video.mp4"@
            && target@ == after_last(res.dst_file@, '/'),
{
    let videos_dir = crate::strutil::path_join(data_dir, "videos");
    let vh_dir = crate::strutil::path_join(videos_dir.as_str(), res.media_file_id.as_str());
    proof {
        assert(vh_dir@ =~= crate::ingest::spec_vh_dir(data_dir@, res.media_file_id@));
    }
    let mut out: Vec<FsAction> = Vec::new();
    out.push(FsAction::WriteFile {
        path: crate::strutil::path_join(vh_dir.as_str(), "stdout"),
        content: clone_bytes(&res.stdout),
    });
    out.push(FsAction::WriteFile {
        path: crate::strutil::path_join(vh_dir.as_str(), "stderr"),
        content: clone_bytes(&res.stderr),
    });
    out.push(FsAction::Symlink {
        link: crate::strutil::path_join(vh_dir.as_str(), "video.mp4"),
        target: crate::strutil::basename_of(res.dst_file.as_str()),
    });
    out
}

/// Copy a byte vector.
fn clone_bytes(v: &Vec<u8>) -> (r: Vec<u8>)
    ensures
        r@ == v@,
{
    let mut r: Vec<u8> = Vec::new();
    let mut i: usize = 0;
    while i < v.len()
        invariant
            i <= v@.len(),
            r@ == v@.subrange(0, i as int),
        decreases v@.len() - i,
    {
        proof {
            assert(v@.subrange(0, i as int + 1)
                =~= v@.subrange(0, i as int).push(v@[i as int]));
        }
        r.push(v[i]);
        i = i + 1;
    }
    proof {
        assert(v@.subrange(0, v@.len() as int) =~= v@);
    }
    r
}

/// Record a finished transcode.  With the artifact linked in
/// (`link_ok`), the catalog row is stamped recompressed and the user
/// gets a media-file-updated event followed by a persistent success
/// note; otherwise the row is left alone and a single persistent note
/// reports the breakage.
pub fn record_transcode_done(
    cat: &mut Catalog,
    media_file_id: &str,
    user_id: &str,
    link_ok: bool,
) -> (r: Vec<UserMessage>)
    requires
        old(cat).wf(),
    ensures
        final(cat).wf(),
        final(cat).spec_broken() == old(cat).spec_broken(),
        !link_ok ==> final(cat)@ == old(cat)@,
        link_ok && !old(cat).spec_broken() && has_video(old(cat)@.videos, media_file_id@)
            ==> exists|i: int| 0 <= i < old(cat)@.videos.len()
                && (#[trigger] old(cat)@.videos[i].id)@ == media_file_id@
                && final(cat)@.videos == old(cat)@.videos.update(i, crate::models::Video {
                    recompression_done: Some(old(cat)@.clock as i64),
                    ..old(cat)@.videos[i]
                }),
        // The event for the clients, then the persistent note.
        link_ok ==> {
            &&& r@.len() == 2
            &&& r@[0].topic == UserMessageTopic::MediaFileUpdated
            &&& r@[0].msg@ == "Media transcoded."@
            &&& r@[0].details is None
            &&& (r@[0].user_id matches Some(u) && u@ == user_id@)
            &&& (r@[0].media_file_id matches Some(v) && v@ == media_file_id@)
            &&& !r@[0].persist
            &&& r@[1].topic == UserMessageTopic::Success
            &&& r@[1].msg@ == "Media transcoded."@
            &&& r@[1].details is None
            &&& (r@[1].user_id matches Some(u) && u@ == user_id@)
            &&& (r@[1].media_file_id matches Some(v) && v@ == media_file_id@)
            &&& r@[1].persist
        },
        !link_ok ==> {
            &&& r@.len() == 1
            &&& r@[0].topic == UserMessageTopic::Error
            &&& r@[0].msg@ == "Media transcoded, but linking or catalog update failed."@
            &&& r@[0].details is None
            &&& (r@[0].user_id matches Some(u) && u@ == user_id@)
            &&& (r@[0].media_file_id matches Some(v) && v@ == media_file_id@)
            &&& r@[0].persist
        },
{
    let mut out: Vec<UserMessage> = Vec::new();
    if link_ok {
        match crate::models::Video::set_recompressed(cat, media_file_id) {
            Ok(()) => {},
            Err(_) => {},
        }
        out.push(UserMessage {
            topic: UserMessageTopic::MediaFileUpdated,
            msg: String::from_str("Media transcoded."),
            details: None,
            user_id: Some(String::from_str(user_id)),
            media_file_id: Some(String::from_str(media_file_id)),
            persist: false,
        });
        out.push(UserMessage {
            topic: UserMessageTopic::Success,
            msg: String::from_str("Media transcoded."),
            details: None,
            user_id: Some(String::from_str(user_id)),
            media_file_id: Some(String::from_str(media_file_id)),
            persist: true,
        });
    } else {
        out.push(UserMessage {
            topic: UserMessageTopic::Error,
            msg: String::from_str("Media transcoded, but linking or catalog update failed."),
            details: None,
            user_id: Some(String::from_str(user_id)),
            media_file_id: Some(String::from_str(media_file_id)),
            persist: true,
        });
    }
    out
}

/// The notification for a failed transcode.  The original stays in
/// place so that the user can retry.
pub fn on_transcode_failed(res: &TranscodeResult) -> (r: UserMessage)
    ensures
        r.topic == UserMessageTopic::Error,
        r.msg@ == "Media transcoding failed."@,
        r.details matches Some(d) && d@ == res.dmsg.details@,
        r.user_id matches Some(u) && u@ == res.dmsg.user_id@,
        r.media_file_id matches Some(v) && v@ == res.media_file_id@,
        r.persist,
{
    UserMessage {
        topic: UserMessageTopic::Error,
        msg: String::from_str("Media transcoding failed."),
        details: Some(res.dmsg.details.clone()),
        user_id: Some(res.dmsg.user_id.clone()),
        media_file_id: Some(res.media_file_id.clone()),
        persist: true,
    }
}

} // verus!
