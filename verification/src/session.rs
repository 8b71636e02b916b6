//! Decisions of the client session command handlers: who may delete or
//! rename a media file, what a deletion does to the disk, when a
//! comment may be added, edited or deleted, and how a command name is
//! dispatched.
//!
//! The session layer parses requests and sends replies; everything it
//! decides stands here, over the catalog and plain values.

use vstd::prelude::*;

use crate::bus::{UserMessage, UserMessageTopic};
use crate::catalog::{Catalog, CatalogState, has_video, has_comment, has_reply,
    comment_other_video_pred, parent_ok_for_insert};
use crate::errors::{DBError, DBResult};
use crate::fsmodel::FsAction;
use crate::models::{Comment, CommentInsert, Video};
use crate::order::filter_by;
use crate::strutil::str_eq;

verus! {

/// A client command, by wire name.
#[derive(PartialEq, Eq, Structural, Debug, Clone, Copy)]
pub enum SessionCommand {
    ListMyVideos,
    OpenVideo,
    DelVideo,
    RenameVideo,
    AddComment,
    EditComment,
    DelComment,
    ListMyMessages,
    JoinCollab,
    LeaveCollab,
    CollabReport,
    Logout,
    Echo,
    Unknown,
}

/// The command a wire name stands for.
pub open spec fn spec_parse_command(s: Seq<char>) -> SessionCommand {
    if s == "list_my_videos"@ { SessionCommand::ListMyVideos }
    else if s == "open_video"@ { SessionCommand::OpenVideo }
    else if s == "del_video"@ { SessionCommand::DelVideo }
    else if s == "rename_video"@ { SessionCommand::RenameVideo }
    else if s == "add_comment"@ { SessionCommand::AddComment }
    else if s == "edit_comment"@ { SessionCommand::EditComment }
    else if s == "del_comment"@ { SessionCommand::DelComment }
    else if s == "list_my_messages"@ { SessionCommand::ListMyMessages }
    else if s == "join_collab"@ { SessionCommand::JoinCollab }
    else if s == "leave_collab"@ { SessionCommand::LeaveCollab }
    else if s == "collab_report"@ { SessionCommand::CollabReport }
    else if s == "logout"@ { SessionCommand::Logout }
    else if s == "echo"@ { SessionCommand::Echo }
    else { SessionCommand::Unknown }
}

/// Dispatch a wire command name.
pub fn parse_command(s: &str) -> (r: SessionCommand)
    ensures
        r == spec_parse_command(s@),
{
    if str_eq(s, "list_my_videos") { SessionCommand::ListMyVideos }
    else if str_eq(s, "open_video") { SessionCommand::OpenVideo }
    else if str_eq(s, "del_video") { SessionCommand::DelVideo }
    else if str_eq(s, "rename_video") { SessionCommand::RenameVideo }
    else if str_eq(s, "add_comment") { SessionCommand::AddComment }
    else if str_eq(s, "edit_comment") { SessionCommand::EditComment }
    else if str_eq(s, "del_comment") { SessionCommand::DelComment }
    else if str_eq(s, "list_my_messages") { SessionCommand::ListMyMessages }
    else if str_eq(s, "join_collab") { SessionCommand::JoinCollab }
    else if str_eq(s, "leave_collab") { SessionCommand::LeaveCollab }
    else if str_eq(s, "collab_report") { SessionCommand::CollabReport }
    else if str_eq(s, "logout") { SessionCommand::Logout }
    else if str_eq(s, "echo") { SessionCommand::Echo }
    else { SessionCommand::Unknown }
}

/// Why a client session ends on purpose.
pub enum SessionClose {
    /// The user logged out.
    Logout,
}

impl SessionClose {
    /// Human-readable reason, for logs.
    pub fn reason_text(&self) -> (r: String)
        ensures
            r@ == "User logout"@,
    {
        match self {
            SessionClose::Logout => String::from_str("User logout"),
        }
    }
}

/// The session user may touch the row: they own it, or they are the
/// administrator.
pub open spec fn may_touch(owner: Option<String>, ses_user: Seq<char>) -> bool {
    (owner matches Some(u) && u@ == ses_user) || ses_user == "admin"@
}

/// How a media file deletion request ends.
pub enum DelVideoOutcome {
    /// No such media file.
    NotFound,
    /// Not owned by the requester, who is no administrator either.
    NotOwner,
    /// Deleted; the removed row is returned so that the caller can back
    /// it up and move the tree to the trash.
    Deleted(Video),
    /// The catalog store failed.
    CatalogError(DBError),
}

/// Delete a media file on behalf of a session user: only the owner or
/// the administrator may, the row and its comments go, messages stay.
pub fn del_video(cat: &mut Catalog, video_id: &String, ses_user: &str) -> (r: DelVideoOutcome)
    requires
        old(cat).wf(),
    ensures
        final(cat).wf(),
        final(cat).spec_broken() == old(cat).spec_broken(),
        old(cat).spec_broken() ==> (r matches DelVideoOutcome::CatalogError(DBError::Backend(_)))
            && final(cat)@ == old(cat)@,
        !old(cat).spec_broken() && !has_video(old(cat)@.videos, video_id@)
            ==> (r matches DelVideoOutcome::NotFound) && final(cat)@ == old(cat)@,
        !old(cat).spec_broken()
            && (exists|i: int| 0 <= i < old(cat)@.videos.len()
                && (#[trigger] old(cat)@.videos[i].id)@ == video_id@
                && !may_touch(old(cat)@.videos[i].user_id, ses_user@))
            ==> (r matches DelVideoOutcome::NotOwner) && final(cat)@ == old(cat)@,
        !old(cat).spec_broken()
            && (exists|i: int| 0 <= i < old(cat)@.videos.len()
                && (#[trigger] old(cat)@.videos[i].id)@ == video_id@
                && may_touch(old(cat)@.videos[i].user_id, ses_user@))
            ==> (r matches DelVideoOutcome::Deleted(row)
                && row.id@ == video_id@
                && exists|i: int| 0 <= i < old(cat)@.videos.len()
                    && (#[trigger] old(cat)@.videos[i].id)@ == video_id@
                    && row == old(cat)@.videos[i]
                    && final(cat)@ == (CatalogState {
                        videos: old(cat)@.videos.remove(i),
                        comments: filter_by(old(cat)@.comments,
                            comment_other_video_pred(video_id@)),
                        ..old(cat)@
                    })),
{
    let v = match Video::get(cat, video_id) {
        Ok(v) => v,
        Err(DBError::NotFound) => {
            return DelVideoOutcome::NotFound;
        },
        Err(e) => {
            return DelVideoOutcome::CatalogError(e);
        },
    };
    proof {
        let vs = cat@.videos;
        let i = choose|i: int| 0 <= i < vs.len() && vs[i] == v;
        assert(vs[i].id@ == video_id@);
        assert forall|j: int| 0 <= j < vs.len() && (#[trigger] vs[j].id)@ == video_id@
            implies vs[j] == v by {
            if j != i {
                assert(vs[i].id@ != vs[j].id@);
            }
        }
    }
    let allowed = match &v.user_id {
        Some(u) => str_eq(u.as_str(), ses_user) || str_eq(ses_user, "admin"),
        None => str_eq(ses_user, "admin"),
    };
    if !allowed {
        return DelVideoOutcome::NotOwner;
    }
    match cat.del_video_and_comments(video_id.as_str()) {
        Ok(()) => DelVideoOutcome::Deleted(v),
        Err(e) => DelVideoOutcome::CatalogError(e),
    }
}

/// The trash directory under the data directory.
pub open spec fn spec_trash_dir(data_dir: Seq<char>) -> Seq<char> {
    data_dir + "/"@ + "videos"@ + "/"@ + "trash"@
}

/// Where a deleted media file's tree comes to rest: its id and a
/// timestamp under the trash directory.
pub open spec fn spec_trash_dest(data_dir: Seq<char>, video_id: Seq<char>, ts: Seq<char>)
    -> Seq<char> {
    spec_trash_dir(data_dir) + "/"@ + video_id + "_"@ + ts
}

/// Where the deleted row's backup lands, inside the tree that is about
/// to move.
pub open spec fn spec_backup_path(data_dir: Seq<char>, video_id: Seq<char>) -> Seq<char> {
    crate::ingest::spec_vh_dir(data_dir, video_id) + "/"@ + "db_backup.json"@
}

/// The filesystem steps after a media file deletion: back the removed
/// row up as JSON inside its tree, then move the whole tree into the
/// trash under the id and the given timestamp.  The caller serializes
/// the row it got from [`del_video`] and performs the steps in order.
pub fn plan_video_trash(data_dir: &str, video_id: &str, ts: &str, backup_json: Vec<u8>)
    -> (r: Vec<FsAction>)
    ensures
        r@.len() == 3,
        r@[0] matches FsAction::WriteFile { path, content }
            && path@ == spec_backup_path(data_dir@, video_id@)
            && content@ == backup_json@,
        r@[1] matches FsAction::CreateDir { path }
            && path@ == spec_trash_dir(data_dir@),
        r@[2] matches FsAction::Move { from, to }
            && from@ == crate::ingest::spec_vh_dir(data_dir@, video_id@)
            && to@ == spec_trash_dest(data_dir@, video_id@, ts@),
{
    let videos_dir = crate::strutil::path_join(data_dir, "videos");
    let vh_dir = crate::strutil::path_join(videos_dir.as_str(), video_id);
    let trash_dir = crate::strutil::path_join(videos_dir.as_str(), "trash");
    let mut dest = crate::strutil::path_join(trash_dir.as_str(), video_id);
    dest.append("_");
    dest.append(ts);
    proof {
        assert(vh_dir@ =~= crate::ingest::spec_vh_dir(data_dir@, video_id@));
        assert(trash_dir@ =~= spec_trash_dir(data_dir@));
        assert(dest@ =~= spec_trash_dest(data_dir@, video_id@, ts@));
    }
    let backup = crate::strutil::path_join(vh_dir.as_str(), "db_backup.json");
    proof {
        assert(backup@ =~= spec_backup_path(data_dir@, video_id@));
    }
    let mut out: Vec<FsAction> = Vec::new();
    out.push(FsAction::WriteFile { path: backup, content: backup_json });
    out.push(FsAction::CreateDir { path: trash_dir });
    out.push(FsAction::Move { from: vh_dir, to: dest });
    out
}

/// The persistent confirmation after a media file deletion; the text
/// notes when the backup or the trash move went wrong.
pub fn deletion_message(video_id: &str, user_id: &str, details: Option<String>,
    cleanup_errors: bool) -> (r: UserMessage)
    ensures
        r.topic == UserMessageTopic::Success,
        r.msg@ == (if cleanup_errors {
            "Media file deleted, but cleanup had errors."@
        } else {
            "Media file deleted."@
        }),
        r.details == details,
        r.user_id matches Some(u) && u@ == user_id@,
        r.media_file_id matches Some(v) && v@ == video_id@,
        r.persist,
{
    UserMessage {
        topic: UserMessageTopic::Success,
        msg: if cleanup_errors {
            String::from_str("Media file deleted, but cleanup had errors.")
        } else {
            String::from_str("Media file deleted.")
        },
        details,
        user_id: Some(String::from_str(user_id)),
        media_file_id: Some(String::from_str(video_id)),
        persist: true,
    }
}

/// A whitespace character, as trimming sees it.
pub open spec fn is_ws(c: char) -> bool {
    c == ' ' || c == '\t' || c == '\n' || c == '\r'
}

/// An ASCII letter or digit.
pub open spec fn is_alnum(c: char) -> bool {
    ('0' <= c && c <= '9') || ('a' <= c && c <= 'z') || ('A' <= c && c <= 'Z')
}

/// How a rename request's name checks out.
pub enum TitleCheck {
    /// Empty after trimming, or without any letter or digit.
    Invalid,
    /// Longer than 160 characters after trimming.
    TooLong,
    /// Acceptable; the trimmed name to store.
    Valid(String),
}

/// Validate a new media file title: trim it, require at least one
/// letter or digit, and cap the length at 160.
pub fn check_title(name: &str) -> (r: TitleCheck)
    ensures
        ({
            let t = trimmed(name@);
            if t.len() == 0 || !(exists|i: int| 0 <= i < t.len() && is_alnum(#[trigger] t[i])) {
                r matches TitleCheck::Invalid
            } else if t.len() > 160 {
                r matches TitleCheck::TooLong
            } else {
                r matches TitleCheck::Valid(s) && s@ == t
            }
        }),
{
    let n = name.unicode_len();
    let ghost s = name@;
    let mut lo: usize = 0;
    while lo < n && is_ws_exec(name, lo)
        invariant
            s == name@,
            lo <= n == s.len(),
            forall|j: int| 0 <= j < lo ==> is_ws(#[trigger] s[j]),
        decreases n - lo,
    {
        lo = lo + 1;
    }
    let mut hi: usize = n;
    while hi > lo && is_ws_exec(name, hi - 1)
        invariant
            s == name@,
            lo <= hi <= n == s.len(),
            forall|j: int| 0 <= j < lo ==> is_ws(#[trigger] s[j]),
            forall|j: int| hi <= j < n ==> is_ws(#[trigger] s[j]),
        decreases hi,
    {
        hi = hi - 1;
    }
    proof {
        lemma_trimmed_window(s, lo as int, hi as int);
    }
    if lo == hi {
        return TitleCheck::Invalid;
    }
    let mut has_alnum = false;
    let mut i: usize = lo;
    while i < hi
        invariant
            s == name@,
            lo <= i <= hi <= s.len(),
            has_alnum <==> exists|j: int| lo <= j < i && is_alnum(#[trigger] s[j]),
        decreases hi - i,
    {
        let c = name.get_char(i);
        let u = c as u32;
        let a = (48 <= u && u <= 57) || (97 <= u && u <= 122) || (65 <= u && u <= 90);
        proof {
            assert(a == is_alnum(s[i as int]));
        }
        if a {
            has_alnum = true;
        }
        i = i + 1;
    }
    proof {
        let t = trimmed(s);
        assert(t =~= s.subrange(lo as int, hi as int));
        assert forall|j: int| 0 <= j < t.len() implies t[j] == s[lo + j] by {}
        if has_alnum {
            let w = choose|w: int| lo <= w < hi && is_alnum(#[trigger] s[w]);
            assert(t[w - lo as int] == s[w]);
        } else {
            assert forall|w: int| 0 <= w < t.len() implies !is_alnum(#[trigger] t[w]) by {
                assert(t[w] == s[lo + w]);
            }
        }
    }
    if !has_alnum {
        return TitleCheck::Invalid;
    }
    if hi - lo > 160 {
        return TitleCheck::TooLong;
    }
    let out = String::from_str(name.substring_char(lo, hi));
    proof {
        assert(out@ =~= trimmed(s));
    }
    TitleCheck::Valid(out)
}

/// The string without leading and trailing whitespace.
pub open spec fn trimmed(s: Seq<char>) -> Seq<char> {
    let lo = first_non_ws(s, 0);
    let hi = last_non_ws_end(s);
    if lo < hi {
        s.subrange(lo, hi)
    } else {
        Seq::empty()
    }
}

/// The first index at or after `i` holding a non-whitespace character.
pub open spec fn first_non_ws(s: Seq<char>, i: int) -> int
    decreases s.len() - i,
{
    if i < 0 || i >= s.len() {
        s.len() as int
    } else if is_ws(s[i]) {
        first_non_ws(s, i + 1)
    } else {
        i
    }
}

/// One past the last non-whitespace character.
pub open spec fn last_non_ws_end(s: Seq<char>) -> int
    decreases s.len(),
{
    if s.len() == 0 {
        0
    } else if is_ws(s.last()) {
        last_non_ws_end(s.drop_last())
    } else {
        s.len() as int
    }
}

/// A scan window whose outside is all whitespace and whose edges are
/// not matches the trimming bounds.
proof fn lemma_trimmed_window(s: Seq<char>, lo: int, hi: int)
    requires
        0 <= lo <= hi <= s.len(),
        forall|j: int| 0 <= j < lo ==> is_ws(#[trigger] s[j]),
        forall|j: int| hi <= j < s.len() ==> is_ws(#[trigger] s[j]),
        lo < hi ==> !is_ws(s[lo]) && !is_ws(s[hi - 1]),
        lo == hi ==> forall|j: int| 0 <= j < s.len() ==> is_ws(#[trigger] s[j]),
    ensures
        lo < hi ==> trimmed(s) == s.subrange(lo, hi),
        lo == hi ==> trimmed(s).len() == 0,
{
    if lo < hi {
        lemma_first_non_ws_window(s, lo, 0);
        lemma_last_non_ws_window(s, hi);
    } else {
        lemma_all_ws(s);
    }
}

proof fn lemma_first_non_ws_window(s: Seq<char>, lo: int, i: int)
    requires
        0 <= i <= lo < s.len(),
        forall|j: int| 0 <= j < lo ==> is_ws(#[trigger] s[j]),
        !is_ws(s[lo]),
    ensures
        first_non_ws(s, i) == lo,
    decreases lo - i,
{
    if i < lo {
        lemma_first_non_ws_window(s, lo, i + 1);
    }
}

proof fn lemma_last_non_ws_window(s: Seq<char>, hi: int)
    requires
        0 < hi <= s.len(),
        forall|j: int| hi <= j < s.len() ==> is_ws(#[trigger] s[j]),
        !is_ws(s[hi - 1]),
    ensures
        last_non_ws_end(s) == hi,
    decreases s.len(),
{
    if hi < s.len() {
        assert(forall|j: int| 0 <= j < s.drop_last().len() ==> #[trigger] s.drop_last()[j] == s[j]);
        lemma_last_non_ws_window(s.drop_last(), hi);
    }
}

proof fn lemma_all_ws(s: Seq<char>)
    requires
        forall|j: int| 0 <= j < s.len() ==> is_ws(#[trigger] s[j]),
    ensures
        last_non_ws_end(s) == 0,
        trimmed(s).len() == 0,
    decreases s.len(),
{
    if s.len() > 0 {
        assert(forall|j: int| 0 <= j < s.drop_last().len() ==> #[trigger] s.drop_last()[j] == s[j]);
        lemma_all_ws(s.drop_last());
        assert(first_non_ws(s, 0) >= 0) by {
            lemma_first_non_ws_ge(s, 0);
        }
    }
}

proof fn lemma_first_non_ws_ge(s: Seq<char>, i: int)
    requires
        0 <= i <= s.len(),
    ensures
        first_non_ws(s, i) >= i,
    decreases s.len() - i,
{
    if i < s.len() && is_ws(s[i]) {
        lemma_first_non_ws_ge(s, i + 1);
    }
}

/// A whitespace character at an index.
fn is_ws_exec(s: &str, i: usize) -> (r: bool)
    requires
        i < s@.len(),
    ensures
        r == is_ws(s@[i as int]),
{
    let c = s.get_char(i);
    c == ' ' || c == '\t' || c == '\n' || c == '\r'
}

/// How a comment deletion request ends.
pub enum DelCommentOutcome {
    /// No such comment.
    NotFound,
    /// Only one's own comments may be deleted.
    NotAuthor,
    /// A comment with replies may not be deleted.
    HasReplies,
    /// Deleted.
    Deleted,
    /// The catalog store failed.
    CatalogError(DBError),
}

impl DelCommentOutcome {
    /// The detail text the session layer sends for a refusal.
    pub fn detail_text(&self) -> (r: String)
        ensures
            r@ == (match self {
                DelCommentOutcome::NotFound => "No such comment. Cannot delete."@,
                DelCommentOutcome::NotAuthor => "You can only delete your own comments"@,
                DelCommentOutcome::HasReplies => "Comment has replies. Cannot delete."@,
                DelCommentOutcome::Deleted => ""@,
                DelCommentOutcome::CatalogError(_) => "Catalog error."@,
            }),
    {
        match self {
            DelCommentOutcome::NotFound => String::from_str("No such comment. Cannot delete."),
            DelCommentOutcome::NotAuthor => String::from_str("You can only delete your own comments"),
            DelCommentOutcome::HasReplies => String::from_str("Comment has replies. Cannot delete."),
            DelCommentOutcome::Deleted => String::from_str(""),
            DelCommentOutcome::CatalogError(_) => String::from_str("Catalog error."),
        }
    }
}

/// Delete a comment on behalf of a session user: only the author or the
/// administrator may, and only when nothing replies to it.
pub fn del_comment(cat: &mut Catalog, comment_id: i32, ses_user: &str) -> (r: DelCommentOutcome)
    requires
        old(cat).wf(),
    ensures
        final(cat).wf(),
        final(cat).spec_broken() == old(cat).spec_broken(),
        old(cat).spec_broken() ==> (r matches DelCommentOutcome::CatalogError(DBError::Backend(_)))
            && final(cat)@ == old(cat)@,
        !old(cat).spec_broken() && !has_comment(old(cat)@.comments, comment_id as int)
            ==> (r matches DelCommentOutcome::NotFound) && final(cat)@ == old(cat)@,
        !old(cat).spec_broken()
            && (exists|i: int| 0 <= i < old(cat)@.comments.len()
                && (#[trigger] old(cat)@.comments[i].id) == comment_id
                && old(cat)@.comments[i].user_id@ != ses_user@) && ses_user@ != "admin"@
            ==> (r matches DelCommentOutcome::NotAuthor) && final(cat)@ == old(cat)@,
        !old(cat).spec_broken()
            && (exists|i: int| 0 <= i < old(cat)@.comments.len()
                && (#[trigger] old(cat)@.comments[i].id) == comment_id
                && (old(cat)@.comments[i].user_id@ == ses_user@ || ses_user@ == "admin"@))
            && has_reply(old(cat)@.comments, comment_id as int)
            ==> (r matches DelCommentOutcome::HasReplies) && final(cat)@ == old(cat)@,
        !old(cat).spec_broken()
            && (exists|i: int| 0 <= i < old(cat)@.comments.len()
                && (#[trigger] old(cat)@.comments[i].id) == comment_id
                && (old(cat)@.comments[i].user_id@ == ses_user@ || ses_user@ == "admin"@))
            && !has_reply(old(cat)@.comments, comment_id as int)
            ==> (r matches DelCommentOutcome::Deleted)
                && exists|i: int| 0 <= i < old(cat)@.comments.len()
                    && (#[trigger] old(cat)@.comments[i].id) == comment_id
                    && final(cat)@ == (CatalogState {
                        comments: old(cat)@.comments.remove(i),
                        ..old(cat)@
                    }),
{
    let c = match Comment::get(cat, &comment_id) {
        Ok(c) => c,
        Err(DBError::NotFound) => {
            return DelCommentOutcome::NotFound;
        },
        Err(e) => {
            return DelCommentOutcome::CatalogError(e);
        },
    };
    proof {
        let cs = cat@.comments;
        let i = choose|i: int| 0 <= i < cs.len() && cs[i] == c;
        assert(cs[i].id == comment_id);
        assert forall|j: int| 0 <= j < cs.len() && (#[trigger] cs[j].id) == comment_id
            implies cs[j] == c by {
            if j < i {
                assert(cs[j].id < cs[i].id);
            } else if j > i {
                assert(cs[i].id < cs[j].id);
            }
        }
    }
    let allowed = str_eq(c.user_id.as_str(), ses_user) || str_eq(ses_user, "admin");
    if !allowed {
        return DelCommentOutcome::NotAuthor;
    }
    let mut j: usize = 0;
    let n = cat.comment_count();
    while j < n
        invariant
            *cat == *old(cat),
            old(cat).wf(),
            !cat.spec_broken(),
            n == cat@.comments.len(),
            j <= n,
            c.id == comment_id,
            c.user_id@ == ses_user@ || ses_user@ == "admin"@,
            has_comment(cat@.comments, comment_id as int),
            forall|w: int| 0 <= w < cat@.comments.len()
                && (#[trigger] cat@.comments[w].id) == comment_id
                ==> cat@.comments[w] == c,
            forall|a: int| 0 <= a < j ==> #[trigger] cat@.comments[a].parent_id
                != Some(comment_id),
        decreases n - j,
    {
        let row = cat.comment_at(j);
        let is_reply = match row.parent_id {
            Some(p) => p == comment_id,
            None => false,
        };
        if is_reply {
            return DelCommentOutcome::HasReplies;
        }
        j = j + 1;
    }
    match Comment::delete(cat, &comment_id) {
        Ok(_) => DelCommentOutcome::Deleted,
        Err(e) => DelCommentOutcome::CatalogError(e),
    }
}

/// The stored name of an uploaded drawing: a short digest of its bytes,
/// as a WebP file.
pub fn drawing_filename(data: &Vec<u8>) -> (r: String)
    ensures
        r@ == crate::hashid::hex_of(crate::hashid::sha256_of(data@)).take(16) + ".webp"@,
{
    let digest = crate::hashid::sha256(data);
    let full = crate::hashid::hex_encode(&digest);
    proof {
        crate::hashid::lemma_hex_of_digits(digest@);
        assert(full@.len() == 64);
    }
    let mut name = String::from_str(full.as_str().substring_char(0, 16));
    name.append(".webp");
    proof {
        assert(name@ =~= crate::hashid::hex_of(crate::hashid::sha256_of(data@)).take(16)
            + ".webp"@);
    }
    name
}

/// How an add-comment request ends.
pub enum AddCommentOutcome {
    /// No such media file to comment on.
    NoSuchVideo,
    /// The named parent comment does not exist on this media file.
    BadParent,
    /// Added; the stored row.
    Added(Comment),
    /// The catalog store failed.
    CatalogError(DBError),
}

/// Add a comment to a media file on behalf of a session user.  The
/// media file must exist; a parent reference must name an existing
/// comment of the same media file.
pub fn add_comment(
    cat: &mut Catalog,
    video_id: &String,
    parent_id: Option<i32>,
    ses_user: &str,
    ses_user_name: &str,
    text: &str,
    timecode: Option<String>,
    drawing: Option<String>,
) -> (r: AddCommentOutcome)
    requires
        old(cat).wf(),
    ensures
        final(cat).wf(),
        final(cat).spec_broken() == old(cat).spec_broken(),
        old(cat).spec_broken() ==> (r matches AddCommentOutcome::CatalogError(DBError::Backend(_)))
            && final(cat)@ == old(cat)@,
        !old(cat).spec_broken() && !has_video(old(cat)@.videos, video_id@)
            ==> (r matches AddCommentOutcome::NoSuchVideo) && final(cat)@ == old(cat)@,
        !old(cat).spec_broken() && has_video(old(cat)@.videos, video_id@)
            && old(cat)@.next_comment_id < i32::MAX
            ==> match r {
                AddCommentOutcome::Added(c) => {
                    &&& c.video_id@ == video_id@
                    &&& c.parent_id == parent_id
                    &&& c.user_id@ == ses_user@
                    &&& c.user_name@ == ses_user_name@
                    &&& c.comment@ == text@
                    &&& c.timecode == timecode
                    &&& c.drawing == drawing
                    &&& c.id == old(cat)@.next_comment_id
                    &&& c.created == old(cat)@.clock
                    &&& c.edited is None
                    &&& final(cat)@ == (CatalogState {
                        comments: old(cat)@.comments.push(c),
                        next_comment_id: old(cat)@.next_comment_id + 1,
                        ..old(cat)@
                    })
                },
                AddCommentOutcome::BadParent => final(cat)@ == old(cat)@
                    && !(match parent_id {
                        Some(p) => exists|j: int| 0 <= j < old(cat)@.comments.len()
                            && (#[trigger] old(cat)@.comments[j].id) == p
                            && old(cat)@.comments[j].video_id@ == video_id@,
                        None => true,
                    }),
                _ => false,
            },
{
    if cat.is_broken() {
        return AddCommentOutcome::CatalogError(
            DBError::Backend(String::from_str("catalog backend failure")));
    }
    match Video::get(cat, video_id) {
        Ok(_) => {},
        Err(DBError::NotFound) => {
            return AddCommentOutcome::NoSuchVideo;
        },
        Err(e) => {
            return AddCommentOutcome::CatalogError(e);
        },
    }
    let ins = CommentInsert {
        video_id: video_id.clone(),
        parent_id,
        user_id: Some(String::from_str(ses_user)),
        username_ifnull: String::from_str(ses_user_name),
        comment: String::from_str(text),
        timecode,
        drawing,
    };
    match Comment::insert(cat, &ins) {
        Ok(c) => AddCommentOutcome::Added(c),
        Err(DBError::Backend(b)) => {
            proof {
                assert(!parent_ok_for_insert(old(cat)@.comments, ins));
                match parent_id {
                    Some(p) => {
                        assert forall|j: int| 0 <= j < old(cat)@.comments.len()
                            && (#[trigger] old(cat)@.comments[j].id) == p
                            implies old(cat)@.comments[j].video_id@ != video_id@ by {
                        }
                    },
                    None => {},
                }
            }
            let _ = b;
            AddCommentOutcome::BadParent
        },
        Err(e) => AddCommentOutcome::CatalogError(e),
    }
}

/// How an edit-comment request ends.
pub enum EditCommentOutcome {
    /// No such comment.
    NotFound,
    /// Only one's own comments may be edited.
    NotAuthor,
    /// Edited.
    Edited,
    /// The catalog store failed.
    CatalogError(DBError),
}

/// Replace the text of a comment on behalf of a session user: only the
/// author or the administrator may.
pub fn edit_comment(cat: &mut Catalog, comment_id: i32, new_text: &str, ses_user: &str)
    -> (r: EditCommentOutcome)
    requires
        old(cat).wf(),
    ensures
        final(cat).wf(),
        final(cat).spec_broken() == old(cat).spec_broken(),
        old(cat).spec_broken() ==> (r matches EditCommentOutcome::CatalogError(DBError::Backend(_)))
            && final(cat)@ == old(cat)@,
        !old(cat).spec_broken() && !has_comment(old(cat)@.comments, comment_id as int)
            ==> (r matches EditCommentOutcome::NotFound) && final(cat)@ == old(cat)@,
        !old(cat).spec_broken()
            && (exists|i: int| 0 <= i < old(cat)@.comments.len()
                && (#[trigger] old(cat)@.comments[i].id) == comment_id
                && old(cat)@.comments[i].user_id@ != ses_user@) && ses_user@ != "admin"@
            ==> (r matches EditCommentOutcome::NotAuthor) && final(cat)@ == old(cat)@,
        !old(cat).spec_broken()
            && (exists|i: int| 0 <= i < old(cat)@.comments.len()
                && (#[trigger] old(cat)@.comments[i].id) == comment_id
                && (old(cat)@.comments[i].user_id@ == ses_user@ || ses_user@ == "admin"@))
            ==> (r matches EditCommentOutcome::Edited)
                && exists|i: int, t: String| 0 <= i < old(cat)@.comments.len()
                    && (#[trigger] old(cat)@.comments[i].id) == comment_id
                    && #[trigger] t@ == new_text@
                    && final(cat)@ == (CatalogState {
                        comments: old(cat)@.comments.update(i, Comment {
                            comment: t,
                            edited: Some(old(cat)@.clock as i64),
                            ..old(cat)@.comments[i]
                        }),
                        ..old(cat)@
                    }),
{
    let c = match Comment::get(cat, &comment_id) {
        Ok(c) => c,
        Err(DBError::NotFound) => {
            return EditCommentOutcome::NotFound;
        },
        Err(e) => {
            return EditCommentOutcome::CatalogError(e);
        },
    };
    proof {
        let cs = cat@.comments;
        let i = choose|i: int| 0 <= i < cs.len() && cs[i] == c;
        assert(cs[i].id == comment_id);
        assert forall|j: int| 0 <= j < cs.len() && (#[trigger] cs[j].id) == comment_id
            implies cs[j] == c by {
            if j < i {
                assert(cs[j].id < cs[i].id);
            } else if j > i {
                assert(cs[i].id < cs[j].id);
            }
        }
    }
    let allowed = str_eq(c.user_id.as_str(), ses_user) || str_eq(ses_user, "admin");
    if !allowed {
        return EditCommentOutcome::NotAuthor;
    }
    match Comment::edit(cat, comment_id, new_text) {
        Ok(()) => EditCommentOutcome::Edited,
        Err(e) => EditCommentOutcome::CatalogError(e),
    }
}

/// Open a media file: its row, and its comments newest first.
pub fn open_video(cat: &Catalog, video_id: &String)
    -> (r: DBResult<(Video, Vec<Comment>)>)
    requires
        cat.wf(),
    ensures
        cat.spec_broken() ==> (r matches Err(DBError::Backend(_))),
        !cat.spec_broken() ==> match r {
            Ok(p) => p.0.id@ == video_id@ && cat@.videos.contains(p.0)
                && p.1@ == crate::paging::page_of(
                    crate::order::ordered(filter_by(cat@.comments,
                        crate::catalog::comment_video_pred(video_id@))),
                    0,
                    u32::MAX as int,
                ),
            Err(e) => e == DBError::NotFound && !has_video(cat@.videos, video_id@),
        },
{
    let v = match Video::get(cat, video_id) {
        Ok(v) => v,
        Err(e) => {
            return Err(e);
        },
    };
    let pg = crate::paging::DBPaging { page_num: 0, page_size: u32::MAX };
    match Comment::get_by_video(cat, video_id.as_str(), pg) {
        Ok(cs) => Ok((v, cs)),
        Err(e) => Err(e),
    }
}

/// How a rename request ends.
pub enum RenameOutcome {
    /// No such media file.
    NotFound,
    /// Not owned by the requester, who is no administrator either.
    NotOwner,
    /// The new name is empty or has no letter or digit.
    InvalidName,
    /// The new name is longer than 160 characters.
    NameTooLong,
    /// Renamed to the trimmed name.
    Renamed,
    /// The catalog store failed.
    CatalogError(DBError),
}

/// Rename a media file on behalf of a session user: only the owner or
/// the administrator may, and the trimmed name must pass validation.
pub fn rename_video(cat: &mut Catalog, video_id: &String, new_name: &str, ses_user: &str)
    -> (r: RenameOutcome)
    requires
        old(cat).wf(),
    ensures
        final(cat).wf(),
        final(cat).spec_broken() == old(cat).spec_broken(),
        old(cat).spec_broken() ==> (r matches RenameOutcome::CatalogError(DBError::Backend(_)))
            && final(cat)@ == old(cat)@,
        !old(cat).spec_broken() && !has_video(old(cat)@.videos, video_id@)
            ==> (r matches RenameOutcome::NotFound) && final(cat)@ == old(cat)@,
        !old(cat).spec_broken()
            && (exists|i: int| 0 <= i < old(cat)@.videos.len()
                && (#[trigger] old(cat)@.videos[i].id)@ == video_id@
                && !may_touch(old(cat)@.videos[i].user_id, ses_user@))
            ==> (r matches RenameOutcome::NotOwner) && final(cat)@ == old(cat)@,
        !old(cat).spec_broken()
            && (exists|i: int| 0 <= i < old(cat)@.videos.len()
                && (#[trigger] old(cat)@.videos[i].id)@ == video_id@
                && may_touch(old(cat)@.videos[i].user_id, ses_user@))
            ==> ({
                let t = trimmed(new_name@);
                if t.len() == 0 || !(exists|i: int| 0 <= i < t.len()
                    && is_alnum(#[trigger] t[i])) {
                    (r matches RenameOutcome::InvalidName) && final(cat)@ == old(cat)@
                } else if t.len() > 160 {
                    (r matches RenameOutcome::NameTooLong) && final(cat)@ == old(cat)@
                } else {
                    (r matches RenameOutcome::Renamed)
                        && exists|i: int, s2: String| 0 <= i < old(cat)@.videos.len()
                            && (#[trigger] old(cat)@.videos[i].id)@ == video_id@
                            && #[trigger] s2@ == t
                            && final(cat)@ == (CatalogState {
                                videos: old(cat)@.videos.update(i, Video {
                                    title: Some(s2),
                                    ..old(cat)@.videos[i]
                                }),
                                ..old(cat)@
                            })
                }
            }),
{
    let v = match Video::get(cat, video_id) {
        Ok(v) => v,
        Err(DBError::NotFound) => {
            return RenameOutcome::NotFound;
        },
        Err(e) => {
            return RenameOutcome::CatalogError(e);
        },
    };
    proof {
        let vs = cat@.videos;
        let i = choose|i: int| 0 <= i < vs.len() && vs[i] == v;
        assert(vs[i].id@ == video_id@);
        assert forall|j: int| 0 <= j < vs.len() && (#[trigger] vs[j].id)@ == video_id@
            implies vs[j] == v by {
            if j != i {
                assert(vs[i].id@ != vs[j].id@);
            }
        }
    }
    let allowed = match &v.user_id {
        Some(u) => str_eq(u.as_str(), ses_user) || str_eq(ses_user, "admin"),
        None => str_eq(ses_user, "admin"),
    };
    if !allowed {
        return RenameOutcome::NotOwner;
    }
    let checked = match check_title(new_name) {
        TitleCheck::Invalid => {
            return RenameOutcome::InvalidName;
        },
        TitleCheck::TooLong => {
            return RenameOutcome::NameTooLong;
        },
        TitleCheck::Valid(t) => t,
    };
    match Video::rename(cat, video_id.as_str(), checked.as_str()) {
        Ok(()) => RenameOutcome::Renamed,
        Err(e) => RenameOutcome::CatalogError(e),
    }
}

/// How a join request for a collaborative review session is decided.
pub enum JoinDecision {
    /// Already a participant: ignore the double join.
    AlreadyJoined,
    /// The media file to collaborate on does not exist.
    NoSuchVideo,
    /// Join the session.
    Join,
}

/// Decide a collaborative-session join: a second join of the same
/// participant is ignored, the media file must exist.
pub fn decide_join_collab(cat: &Catalog, video_id: &String, already_participant: bool)
    -> (r: JoinDecision)
    requires
        cat.wf(),
        !cat.spec_broken(),
    ensures
        already_participant ==> r is AlreadyJoined,
        !already_participant && !has_video(cat@.videos, video_id@) ==> r is NoSuchVideo,
        !already_participant && has_video(cat@.videos, video_id@) ==> r is Join,
{
    if already_participant {
        return JoinDecision::AlreadyJoined;
    }
    match Video::get(cat, video_id) {
        Ok(_) => JoinDecision::Join,
        Err(_) => JoinDecision::NoSuchVideo,
    }
}

} // verus!
