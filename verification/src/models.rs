//! Catalog rows and their insert payloads.
//!
//! Timestamps are unix seconds (`i64`); durations are milliseconds.  The
//! store stamps `added_time` / `created` itself from its logical clock, so
//! the insert payloads carry every column but the primary key and the
//! timestamps.

use vstd::prelude::*;

verus! {

/// A media file row: the primary entity of the catalog.
#[derive(Debug)]
pub struct Video {
    /// Stable 8-hex-character identity, derived by the identity hasher.
    pub id: String,
    pub user_id: Option<String>,
    pub user_name: Option<String>,
    /// When the row was created (unix seconds, from the store clock).
    pub added_time: i64,
    /// Set once the transcoded artifact has been linked in.
    pub recompression_done: Option<i64>,
    pub thumb_sheet_cols: Option<i32>,
    pub thumb_sheet_rows: Option<i32>,
    pub orig_filename: Option<String>,
    pub title: Option<String>,
    pub total_frames: Option<i32>,
    /// Duration in milliseconds.
    pub duration_ms: Option<u64>,
    /// Frames per second, original textual form preserved.
    pub fps: Option<String>,
    /// Raw probe output.
    pub raw_metadata_all: Option<String>,
}

/// Payload for inserting a media file row.
pub struct VideoInsert {
    pub id: String,
    pub user_id: Option<String>,
    pub user_name: Option<String>,
    pub recompression_done: Option<i64>,
    pub thumb_sheet_cols: Option<i32>,
    pub thumb_sheet_rows: Option<i32>,
    pub orig_filename: Option<String>,
    pub title: Option<String>,
    pub total_frames: Option<i32>,
    pub duration_ms: Option<u64>,
    pub fps: Option<String>,
    pub raw_metadata_all: Option<String>,
}

/// An annotation attached to a media file.
#[derive(Debug)]
pub struct Comment {
    /// Monotonic integer key; never reused after deletion.
    pub id: i32,
    pub video_id: String,
    /// Optional parent comment; always an older comment of the same video.
    pub parent_id: Option<i32>,
    pub created: i64,
    pub edited: Option<i64>,
    pub user_id: String,
    pub user_name: String,
    pub comment: String,
    pub timecode: Option<String>,
    pub drawing: Option<String>,
}

/// Payload for inserting a comment.
pub struct CommentInsert {
    pub video_id: String,
    pub parent_id: Option<i32>,
    pub user_id: Option<String>,
    /// Display name to store; used as given.
    pub username_ifnull: String,
    pub comment: String,
    pub timecode: Option<String>,
    pub drawing: Option<String>,
}

/// A durable user notification.
#[derive(Debug)]
pub struct Message {
    /// Monotonic integer key; never reused after deletion.
    pub id: i32,
    pub user_id: String,
    pub created: i64,
    pub seen: bool,
    pub video_id: Option<String>,
    pub comment_id: Option<i32>,
    /// One of `ok`, `error`, `progress`, `media-file-added`, `media-file-updated`.
    pub event_name: String,
    pub message: String,
    pub details: String,
}

/// Payload for inserting a user message.
pub struct MessageInsert {
    pub user_id: String,
    pub seen: bool,
    pub video_id: Option<String>,
    pub comment_id: Option<i32>,
    pub event_name: String,
    pub message: String,
    pub details: String,
}

/// Clone an optional string, preserving the value exactly.
pub fn clone_opt_string(s: &Option<String>) -> (r: Option<String>)
    ensures
        r == *s,
{
    match s {
        Some(v) => Some(v.clone()),
        None => None,
    }
}

impl Clone for Video {
    fn clone(&self) -> (r: Self)
        ensures
            r == *self,
    {
        Video {
            id: self.id.clone(),
            user_id: clone_opt_string(&self.user_id),
            user_name: clone_opt_string(&self.user_name),
            added_time: self.added_time,
            recompression_done: self.recompression_done,
            thumb_sheet_cols: self.thumb_sheet_cols,
            thumb_sheet_rows: self.thumb_sheet_rows,
            orig_filename: clone_opt_string(&self.orig_filename),
            title: clone_opt_string(&self.title),
            total_frames: self.total_frames,
            duration_ms: self.duration_ms,
            fps: clone_opt_string(&self.fps),
            raw_metadata_all: clone_opt_string(&self.raw_metadata_all),
        }
    }
}

impl Clone for Comment {
    fn clone(&self) -> (r: Self)
        ensures
            r == *self,
    {
        Comment {
            id: self.id,
            video_id: self.video_id.clone(),
            parent_id: self.parent_id,
            created: self.created,
            edited: self.edited,
            user_id: self.user_id.clone(),
            user_name: self.user_name.clone(),
            comment: self.comment.clone(),
            timecode: clone_opt_string(&self.timecode),
            drawing: clone_opt_string(&self.drawing),
        }
    }
}

impl Clone for Message {
    fn clone(&self) -> (r: Self)
        ensures
            r == *self,
    {
        Message {
            id: self.id,
            user_id: self.user_id.clone(),
            created: self.created,
            seen: self.seen,
            video_id: clone_opt_string(&self.video_id),
            comment_id: self.comment_id,
            event_name: self.event_name.clone(),
            message: self.message.clone(),
            details: self.details.clone(),
        }
    }
}

} // verus!
