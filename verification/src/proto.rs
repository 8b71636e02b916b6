//! Wire-shaped records for the API boundary, and the conversions
//! between catalog rows and them.
//!
//! The records mirror the message types the API layer serializes: plain
//! values only, timestamps as seconds and nanos, ids as strings.  The
//! conversions state exactly which fields appear when, and how the
//! playback and original URLs are derived.

use vstd::prelude::*;

use crate::errors::{DBError, DBResult};
use crate::models::{Comment, CommentInsert, Message, MessageInsert, Video};
use crate::bus::{UserMessageTopic, spec_event_name, spec_topic_of_event_name};
use crate::strutil::{dec_of, dec_val, all_digits, u64_to_dec, parse_u64_dec};

verus! {

/// A protobuf-style timestamp.
pub struct Timestamp {
    pub seconds: i64,
    pub nanos: i32,
}

/// Who did something: a user id and a display name.
pub struct UserInfo {
    pub id: String,
    pub name: String,
}

/// Duration block of a media file record.
pub struct MediaDuration {
    /// Milliseconds.
    pub duration_ms: u64,
    pub total_frames: i64,
    pub fps: String,
}

/// Processing block of a media file record.
pub struct ProcessingMetadata {
    pub orig_filename: String,
    pub recompression_done: Option<Timestamp>,
    pub ffprobe_metadata_all: Option<String>,
}

/// Thumbnail sheet geometry and address.
pub struct ThumbSheet {
    pub url: String,
    pub rows: u32,
    pub cols: u32,
}

/// Preview block of a media file record.
pub struct PreviewData {
    pub thumb_url: Option<String>,
    pub thumb_sheet: Option<ThumbSheet>,
}

/// A media file, as the API serves it.
pub struct ProtoMediaFile {
    pub id: String,
    pub title: Option<String>,
    pub added_by: Option<UserInfo>,
    pub duration: Option<MediaDuration>,
    pub added_time: Option<Timestamp>,
    pub preview_data: Option<PreviewData>,
    pub processing_metadata: Option<ProcessingMetadata>,
    pub playback_url: Option<String>,
    pub orig_url: Option<String>,
}

/// A comment, as the API serves it.
pub struct ProtoComment {
    pub id: String,
    pub video_id: String,
    pub user: Option<UserInfo>,
    pub comment: String,
    pub timecode: Option<String>,
    pub parent_id: Option<String>,
    pub created: Option<Timestamp>,
    pub edited: Option<Timestamp>,
    pub drawing: Option<String>,
}

/// References a user message carries.
pub struct ProtoRefs {
    pub media_file_id: Option<String>,
    pub comment_id: Option<String>,
}

/// A user message, as the API serves it.
pub struct ProtoUserMessage {
    pub id: Option<String>,
    pub topic: UserMessageTopic,
    pub user_id: Option<String>,
    pub refs: Option<ProtoRefs>,
    pub message: String,
    pub details: Option<String>,
    pub created: Option<Timestamp>,
    pub seen: bool,
}

/// Convert a catalog time (unix seconds) to a wire timestamp.
pub fn datetime_to_proto3(t: i64) -> (r: Timestamp)
    ensures
        r.seconds == t,
        r.nanos == 0,
{
    Timestamp { seconds: t, nanos: 0 }
}

/// What `urlencoding::encode` returns for a path component.  The
/// encoding depends on the characters alone; it is left uninterpreted
/// and computed only by the trusted wrapper below.
pub uninterp spec fn url_encoded(s: Seq<char>) -> Seq<char>;

/// Relies on urlencoding::encode: percent-encoding of everything but
/// ASCII alphanumerics and `-_.~`; a pure function of its input, and an
/// empty input stays empty.
#[verifier::external_body]
pub fn url_encode(s: &str) -> (r: String)
    ensures
        r@ == url_encoded(s@),
        s@.len() == 0 ==> r@.len() == 0,
{
    urlencoding::encode(s).into_owned()
}

/// The URI of the original file inside the media file's tree.
pub open spec fn spec_orig_uri(orig_filename: Seq<char>) -> Seq<char> {
    "orig/"@ + url_encoded(orig_filename)
}

/// The URI served for playback: the transcoded artifact once
/// recompression is done, the original otherwise.
pub open spec fn spec_playback_uri(v: Video) -> Option<Seq<char>> {
    if v.recompression_done is Some {
        Some("video.mp4"@)
    } else {
        match v.orig_filename {
            Some(f) => Some(spec_orig_uri(f@)),
            None => None,
        }
    }
}

/// A full URL under the media file's tree.
pub open spec fn spec_media_url(url_base: Seq<char>, id: Seq<char>, uri: Seq<char>) -> Seq<char> {
    url_base + "/videos/"@ + id + "/"@ + uri
}

/// Build a full URL under the media file's tree.
fn media_url(url_base: &str, id: &str, uri: &str) -> (r: String)
    ensures
        r@ == spec_media_url(url_base@, id@, uri@),
{
    let mut s = String::from_str(url_base);
    s.append("/videos/");
    s.append(id);
    s.append("/");
    s.append(uri);
    s
}

impl Video {
    /// Convert a catalog row to its wire record, deriving the preview
    /// and playback addresses under `url_base`.
    pub fn to_proto3(&self, url_base: &str) -> (r: ProtoMediaFile)
        requires
            self.total_frames matches Some(f) ==> f >= 0,
        ensures
            r.id == self.id,
            r.title == self.title,
            // Who added it: present exactly when a user id is stored.
            (match self.user_id {
                Some(u) => r.added_by matches Some(i) && i.id == u
                    && i.name@ == (match self.user_name {
                        Some(n) => n@,
                        None => Seq::<char>::empty(),
                    }),
                None => r.added_by is None,
            }),
            // Duration block: present exactly when all three parts are.
            (if self.duration_ms is Some && self.total_frames is Some && self.fps is Some {
                r.duration matches Some(d)
                    && d.duration_ms == self.duration_ms->0
                    && d.total_frames == self.total_frames->0 as i64
                    && d.fps == self.fps->0
            } else {
                r.duration is None
            }),
            r.added_time matches Some(t) && t.seconds == self.added_time && t.nanos == 0,
            // Processing block: present exactly when the original
            // filename is known.
            (match self.orig_filename {
                Some(f) => r.processing_metadata matches Some(p)
                    && p.orig_filename == f
                    && (match self.recompression_done {
                        Some(ts) => p.recompression_done matches Some(t2)
                            && t2.seconds == ts && t2.nanos == 0,
                        None => p.recompression_done is None,
                    })
                    && p.ffprobe_metadata_all == self.raw_metadata_all,
                None => r.processing_metadata is None,
            }),
            // Preview block: present exactly when the sheet geometry is.
            (if (self.thumb_sheet_cols matches Some(c) && c >= 0)
                && (self.thumb_sheet_rows matches Some(w) && w >= 0) {
                r.preview_data matches Some(p)
                    && (p.thumb_url matches Some(u) && u@ == spec_media_url(url_base@,
                        self.id@, "thumbs/thumb.webp"@))
                    && (p.thumb_sheet matches Some(ts)
                        && ts.cols == self.thumb_sheet_cols->0 as u32
                        && ts.rows == self.thumb_sheet_rows->0 as u32
                        && ts.url@ == spec_media_url(url_base@, self.id@,
                            "thumbs/sheet-"@ + dec_of(self.thumb_sheet_cols->0 as int)
                                + "x"@ + dec_of(self.thumb_sheet_rows->0 as int)
                                + ".webp"@))
            } else {
                r.preview_data is None
            }),
            // Playback and original URLs.
            (match spec_playback_uri(*self) {
                Some(uri) => r.playback_url matches Some(u)
                    && u@ == spec_media_url(url_base@, self.id@, uri),
                None => r.playback_url is None,
            }),
            (match self.orig_filename {
                Some(f) => r.orig_url matches Some(u)
                    && u@ == spec_media_url(url_base@, self.id@, spec_orig_uri(f@)),
                None => r.orig_url is None,
            }),
    {
        let added_by = match &self.user_id {
            Some(u) => Some(UserInfo {
                id: u.clone(),
                name: match &self.user_name {
                    Some(n) => n.clone(),
                    None => String::new(),
                },
            }),
            None => None,
        };
        let duration = match (&self.duration_ms, &self.total_frames, &self.fps) {
            (Some(ms), Some(tf), Some(fps)) => Some(MediaDuration {
                duration_ms: *ms,
                total_frames: *tf as i64,
                fps: fps.clone(),
            }),
            _ => None,
        };
        let processing_metadata = match &self.orig_filename {
            Some(f) => Some(ProcessingMetadata {
                orig_filename: f.clone(),
                recompression_done: match self.recompression_done {
                    Some(ts) => Some(datetime_to_proto3(ts)),
                    None => None,
                },
                ffprobe_metadata_all: crate::models::clone_opt_string(&self.raw_metadata_all),
            }),
            None => None,
        };
        let preview_data = match (&self.thumb_sheet_cols, &self.thumb_sheet_rows) {
            (Some(c), Some(w)) => {
                if *c >= 0 && *w >= 0 {
                    let mut sheet_uri = String::from_str("thumbs/sheet-");
                    let cd = u64_to_dec(*c as u64);
                    let wd = u64_to_dec(*w as u64);
                    sheet_uri.append(cd.as_str());
                    sheet_uri.append("x");
                    sheet_uri.append(wd.as_str());
                    sheet_uri.append(".webp");
                    Some(PreviewData {
                        thumb_url: Some(media_url(url_base, self.id.as_str(),
                            "thumbs/thumb.webp")),
                        thumb_sheet: Some(ThumbSheet {
                            url: media_url(url_base, self.id.as_str(), sheet_uri.as_str()),
                            rows: *w as u32,
                            cols: *c as u32,
                        }),
                    })
                } else {
                    None
                }
            },
            _ => None,
        };
        let orig_uri: Option<String> = match &self.orig_filename {
            Some(f) => {
                let mut u = String::from_str("orig/");
                let enc = url_encode(f.as_str());
                u.append(enc.as_str());
                Some(u)
            },
            None => None,
        };
        let playback_url = if self.recompression_done.is_some() {
            Some(media_url(url_base, self.id.as_str(), "video.mp4"))
        } else {
            match &orig_uri {
                Some(u) => Some(media_url(url_base, self.id.as_str(), u.as_str())),
                None => None,
            }
        };
        let orig_url = match &orig_uri {
            Some(u) => Some(media_url(url_base, self.id.as_str(), u.as_str())),
            None => None,
        };
        ProtoMediaFile {
            id: self.id.clone(),
            title: crate::models::clone_opt_string(&self.title),
            added_by,
            duration,
            added_time: Some(datetime_to_proto3(self.added_time)),
            preview_data,
            processing_metadata,
            playback_url,
            orig_url,
        }
    }
}

impl Comment {
    /// Convert a catalog comment to its wire record.
    pub fn to_proto3(&self) -> (r: ProtoComment)
        requires
            self.id >= 0,
            self.parent_id matches Some(p) ==> p >= 0,
        ensures
            r.id@ == dec_of(self.id as int),
            r.video_id == self.video_id,
            r.user matches Some(u) && u.id == self.user_id && u.name == self.user_name,
            r.comment == self.comment,
            r.timecode == self.timecode,
            (match self.parent_id {
                Some(p) => r.parent_id matches Some(s) && s@ == dec_of(p as int),
                None => r.parent_id is None,
            }),
            r.created matches Some(t) && t.seconds == self.created && t.nanos == 0,
            (match self.edited {
                Some(e) => r.edited matches Some(t2) && t2.seconds == e && t2.nanos == 0,
                None => r.edited is None,
            }),
            r.drawing == self.drawing,
    {
        ProtoComment {
            id: u64_to_dec(self.id as u64),
            video_id: self.video_id.clone(),
            user: Some(UserInfo {
                id: self.user_id.clone(),
                name: self.user_name.clone(),
            }),
            comment: self.comment.clone(),
            timecode: crate::models::clone_opt_string(&self.timecode),
            parent_id: match self.parent_id {
                Some(p) => Some(u64_to_dec(p as u64)),
                None => None,
            },
            created: Some(datetime_to_proto3(self.created)),
            edited: match self.edited {
                Some(e) => Some(datetime_to_proto3(e)),
                None => None,
            },
            drawing: crate::models::clone_opt_string(&self.drawing),
        }
    }
}

/// The display name stored for a wire user block: the given name, or
/// the user id when the name is empty.
pub open spec fn spec_display_name(u: UserInfo) -> Seq<char> {
    if u.name@.len() == 0 {
        u.id@
    } else {
        u.name@
    }
}

impl CommentInsert {
    /// Convert a wire comment without a key into an insert payload; an
    /// empty display name defaults to the user id.  Fails when the
    /// record carries a key already, when the user block is missing, or
    /// when a parent reference does not parse.
    pub fn from_proto3(v: &ProtoComment) -> (r: DBResult<CommentInsert>)
        ensures
            v.id@.len() != 0 ==> (r matches Err(DBError::Other(_))),
            v.id@.len() == 0 && v.user is None ==> (r matches Err(DBError::Other(_))),
            v.id@.len() == 0 && v.user is Some ==> match v.parent_id {
                Some(p) => {
                    if p@.len() > 0 && all_digits(p@) && dec_val(p@) <= i32::MAX {
                        r matches Ok(c)
                            && c.video_id == v.video_id
                            && (c.parent_id matches Some(q) && q == dec_val(p@))
                            && (c.user_id matches Some(u) && u == v.user->0.id)
                            && c.username_ifnull@ == spec_display_name(v.user->0)
                            && c.comment == v.comment
                            && c.timecode == v.timecode
                            && c.drawing == v.drawing
                    } else {
                        r matches Err(DBError::Other(_))
                    }
                },
                None => r matches Ok(c)
                    && c.video_id == v.video_id
                    && c.parent_id is None
                    && (c.user_id matches Some(u) && u == v.user->0.id)
                    && c.username_ifnull@ == spec_display_name(v.user->0)
                    && c.comment == v.comment
                    && c.timecode == v.timecode
                    && c.drawing == v.drawing,
            },
    {
        if v.id.as_str().unicode_len() != 0 {
            return Err(DBError::Other(String::from_str(
                "a comment record with a key cannot become an insert payload")));
        }
        let user = match &v.user {
            Some(u) => u,
            None => {
                return Err(DBError::Other(String::from_str("missing user")));
            },
        };
        let parent_id: Option<i32> = match &v.parent_id {
            Some(p) => {
                match parse_u64_dec(p.as_str()) {
                    Some(val) => {
                        if val <= i32::MAX as u64 {
                            proof {
                                crate::strutil::lemma_dec_val_nonneg(p@);
                            }
                            Some(val as i32)
                        } else {
                            return Err(DBError::Other(String::from_str("invalid parent key")));
                        }
                    },
                    None => {
                        proof {
                            if p@.len() > 0 && all_digits(p@) && dec_val(p@) <= i32::MAX {
                                assert(dec_val(p@) <= u64::MAX);
                            }
                        }
                        return Err(DBError::Other(String::from_str("invalid parent key")));
                    },
                }
            },
            None => None,
        };
        let display_name = if user.name.as_str().unicode_len() == 0 {
            user.id.clone()
        } else {
            user.name.clone()
        };
        Ok(CommentInsert {
            video_id: v.video_id.clone(),
            parent_id,
            user_id: Some(user.id.clone()),
            username_ifnull: display_name,
            comment: v.comment.clone(),
            timecode: crate::models::clone_opt_string(&v.timecode),
            drawing: crate::models::clone_opt_string(&v.drawing),
        })
    }
}

impl Message {
    /// Convert a catalog message to its wire record.
    pub fn to_proto3(&self) -> (r: ProtoUserMessage)
        requires
            self.id >= 0,
            self.comment_id matches Some(c) ==> c >= 0,
        ensures
            r.id matches Some(s) && s@ == dec_of(self.id as int),
            r.topic == spec_topic_of_event_name(self.event_name@),
            r.user_id matches Some(u) && u == self.user_id,
            r.refs matches Some(f) && f.media_file_id == self.video_id
                && (match self.comment_id {
                    Some(c) => f.comment_id matches Some(s2) && s2@ == dec_of(c as int),
                    None => f.comment_id is None,
                }),
            r.message == self.message,
            (if self.details@.len() == 0 {
                r.details is None
            } else {
                r.details matches Some(d) && d == self.details
            }),
            r.created matches Some(t) && t.seconds == self.created && t.nanos == 0,
            r.seen == self.seen,
    {
        ProtoUserMessage {
            id: Some(u64_to_dec(self.id as u64)),
            topic: crate::bus::topic_of_event_name(self.event_name.as_str()),
            user_id: Some(self.user_id.clone()),
            refs: Some(ProtoRefs {
                media_file_id: crate::models::clone_opt_string(&self.video_id),
                comment_id: match self.comment_id {
                    Some(c) => Some(u64_to_dec(c as u64)),
                    None => None,
                },
            }),
            message: self.message.clone(),
            details: if self.details.as_str().unicode_len() == 0 {
                None
            } else {
                Some(self.details.clone())
            },
            created: Some(datetime_to_proto3(self.created)),
            seen: self.seen,
        }
    }
}

/// A wire message's comment reference is absent or parses as a key.
pub open spec fn proto_comment_ref_ok(refs: Option<ProtoRefs>) -> bool {
    match refs {
        Some(f) => match f.comment_id {
            Some(c) => c@.len() > 0 && all_digits(c@) && dec_val(c@) <= i32::MAX,
            None => true,
        },
        None => true,
    }
}

impl MessageInsert {
    /// Convert a wire message without a key into an insert payload.
    /// Fails when the record carries a key already, when the user is
    /// missing, or when a comment reference does not parse.
    pub fn from_proto3(v: &ProtoUserMessage) -> (r: DBResult<MessageInsert>)
        ensures
            r is Ok <==> v.id is None && v.user_id is Some && proto_comment_ref_ok(v.refs),
            r is Err ==> (r matches Err(DBError::Other(_))),
            r matches Ok(m) ==> {
                &&& m.user_id == v.user_id->0
                &&& m.event_name@ == spec_event_name(v.topic)
                &&& (match v.refs {
                    Some(f) => m.video_id == f.media_file_id
                        && (match f.comment_id {
                            Some(c) => m.comment_id matches Some(ci) && ci == dec_val(c@),
                            None => m.comment_id is None,
                        }),
                    None => m.video_id is None && m.comment_id is None,
                })
                &&& m.message == v.message
                &&& m.details@ == (match v.details {
                    Some(d) => d@,
                    None => Seq::<char>::empty(),
                })
                &&& m.seen == v.seen
            },
    {
        if v.id.is_some() {
            return Err(DBError::Other(String::from_str(
                "a message record with a key cannot become an insert payload")));
        }
        let user_id = match &v.user_id {
            Some(u) => u.clone(),
            None => {
                return Err(DBError::Other(String::from_str("missing user")));
            },
        };
        let (video_id, comment_id) = match &v.refs {
            Some(f) => {
                let ci = match &f.comment_id {
                    Some(c) => match parse_u64_dec(c.as_str()) {
                        Some(val) if val <= i32::MAX as u64 => {
                            proof {
                                crate::strutil::lemma_dec_val_nonneg(c@);
                            }
                            Some(val as i32)
                        },
                        _ => {
                            proof {
                                match &f.comment_id {
                                    Some(c2) => {
                                        if c2@.len() > 0 && all_digits(c2@)
                                            && dec_val(c2@) <= i32::MAX {
                                            assert(dec_val(c2@) <= u64::MAX);
                                        }
                                    },
                                    None => {},
                                }
                            }
                            return Err(DBError::Other(String::from_str("invalid comment key")));
                        },
                    },
                    None => None,
                };
                (crate::models::clone_opt_string(&f.media_file_id), ci)
            },
            None => (None, None),
        };
        Ok(MessageInsert {
            user_id,
            seen: v.seen,
            video_id,
            comment_id,
            event_name: crate::bus::event_name_of_topic(&v.topic),
            message: v.message.clone(),
            details: match &v.details {
                Some(d) => d.clone(),
                None => String::new(),
            },
        })
    }
}

/// A wire media file record maps back to a row: the added time must be
/// present, and the numeric blocks must be in range.
pub open spec fn proto_video_ok(v: ProtoMediaFile) -> bool {
    &&& v.added_time is Some
    &&& (match v.duration {
        Some(d) => 0 <= d.total_frames <= i32::MAX,
        None => true,
    })
    &&& (match v.preview_data {
        Some(p) => match p.thumb_sheet {
            Some(ts) => ts.cols <= i32::MAX && ts.rows <= i32::MAX,
            None => true,
        },
        None => true,
    })
}

/// The row fields a wire media file record stands for, next to the row
/// built by [`Video::from_proto3`].
pub open spec fn video_matches_proto(r: Video, v: ProtoMediaFile) -> bool {
    &&& r.id == v.id
    &&& r.title == v.title
    &&& (match v.added_by {
        Some(u) => (r.user_id matches Some(x) && x == u.id)
            && (r.user_name matches Some(n) && n == u.name),
        None => r.user_id is None && r.user_name is None,
    })
    &&& (match v.added_time {
        Some(t) => r.added_time == t.seconds,
        None => false,
    })
    &&& (match v.processing_metadata {
        Some(p) => (r.orig_filename matches Some(f) && f == p.orig_filename)
            && (match p.recompression_done {
                Some(t) => r.recompression_done == Some(t.seconds),
                None => r.recompression_done is None,
            })
            && r.raw_metadata_all == p.ffprobe_metadata_all,
        None => r.orig_filename is None && r.recompression_done is None
            && r.raw_metadata_all is None,
    })
    &&& (match v.duration {
        Some(d) => r.duration_ms == Some(d.duration_ms)
            && r.total_frames == Some(d.total_frames as i32)
            && (r.fps matches Some(f) && f == d.fps),
        None => r.duration_ms is None && r.total_frames is None && r.fps is None,
    })
    &&& ({
        let sheet = match v.preview_data {
            Some(p) => p.thumb_sheet,
            None => None,
        };
        match sheet {
            Some(ts) => r.thumb_sheet_cols == Some(ts.cols as i32)
                && r.thumb_sheet_rows == Some(ts.rows as i32),
            None => r.thumb_sheet_cols is None && r.thumb_sheet_rows is None,
        }
    })
}

impl Video {
    /// Convert a wire media file record back to a catalog row.
    pub fn from_proto3(v: &ProtoMediaFile) -> (r: DBResult<Video>)
        ensures
            r is Ok <==> proto_video_ok(*v),
            r matches Ok(row) ==> video_matches_proto(row, *v),
    {
        let added_time = match &v.added_time {
            Some(t) => t.seconds,
            None => {
                return Err(DBError::Other(String::from_str("missing added time")));
            },
        };
        let (duration_ms, total_frames, fps) = match &v.duration {
            Some(d) => {
                if !(0 <= d.total_frames && d.total_frames <= i32::MAX as i64) {
                    return Err(DBError::Other(String::from_str("frame count out of range")));
                }
                (Some(d.duration_ms), Some(d.total_frames as i32), Some(d.fps.clone()))
            },
            None => (None, None, None),
        };
        let (thumb_sheet_cols, thumb_sheet_rows) = match &v.preview_data {
            Some(p) => match &p.thumb_sheet {
                Some(ts) => {
                    if !(ts.cols <= i32::MAX as u32 && ts.rows <= i32::MAX as u32) {
                        return Err(DBError::Other(String::from_str("sheet geometry out of range")));
                    }
                    (Some(ts.cols as i32), Some(ts.rows as i32))
                },
                None => (None, None),
            },
            None => (None, None),
        };
        let (user_id, user_name) = match &v.added_by {
            Some(u) => (Some(u.id.clone()), Some(u.name.clone())),
            None => (None, None),
        };
        let (orig_filename, recompression_done, raw_metadata_all) = match &v.processing_metadata {
            Some(p) => (
                Some(p.orig_filename.clone()),
                match &p.recompression_done {
                    Some(t) => Some(t.seconds),
                    None => None,
                },
                crate::models::clone_opt_string(&p.ffprobe_metadata_all),
            ),
            None => (None, None, None),
        };
        Ok(Video {
            id: v.id.clone(),
            user_id,
            user_name,
            added_time,
            recompression_done,
            thumb_sheet_cols,
            thumb_sheet_rows,
            orig_filename,
            title: crate::models::clone_opt_string(&v.title),
            total_frames,
            duration_ms,
            fps,
            raw_metadata_all,
        })
    }
}

impl Message {
    /// Convert a wire message with a key back to a catalog row.
    pub fn from_proto3(v: &ProtoUserMessage) -> (r: DBResult<Message>)
        ensures
            r is Ok <==> {
                &&& v.id matches Some(s) && s@.len() > 0 && all_digits(s@) && dec_val(s@) <= i32::MAX
                &&& v.user_id is Some
                &&& v.created is Some
                &&& (match v.refs {
                    Some(f) => match f.comment_id {
                        Some(c) => c@.len() > 0 && all_digits(c@) && dec_val(c@) <= i32::MAX,
                        None => true,
                    },
                    None => true,
                })
            },
            r matches Ok(m) ==> {
                &&& m.id == dec_val(v.id->0@)
                &&& m.event_name@ == spec_event_name(v.topic)
                &&& m.user_id == v.user_id->0
                &&& (match v.refs {
                    Some(f) => m.video_id == f.media_file_id
                        && (match f.comment_id {
                            Some(c) => m.comment_id matches Some(ci) && ci == dec_val(c@),
                            None => m.comment_id is None,
                        }),
                    None => m.video_id is None && m.comment_id is None,
                })
                &&& m.message == v.message
                &&& m.details@ == (match v.details {
                    Some(d) => d@,
                    None => Seq::<char>::empty(),
                })
                &&& m.created == v.created->0.seconds
                &&& m.seen == v.seen
            },
    {
        let id = match &v.id {
            Some(s) => match parse_u64_dec(s.as_str()) {
                Some(val) if val <= i32::MAX as u64 => {
                    proof {
                        crate::strutil::lemma_dec_val_nonneg(s@);
                    }
                    val as i32
                },
                _ => {
                    proof {
                        match &v.id {
                            Some(s2) => {
                                if s2@.len() > 0 && all_digits(s2@) && dec_val(s2@) <= i32::MAX {
                                    assert(dec_val(s2@) <= u64::MAX);
                                }
                            },
                            None => {},
                        }
                    }
                    return Err(DBError::Other(String::from_str("invalid message key")));
                },
            },
            None => {
                return Err(DBError::Other(String::from_str("missing message key")));
            },
        };
        let user_id = match &v.user_id {
            Some(u) => u.clone(),
            None => {
                return Err(DBError::Other(String::from_str("missing user")));
            },
        };
        let created = match &v.created {
            Some(t) => t.seconds,
            None => {
                return Err(DBError::Other(String::from_str("missing created timestamp")));
            },
        };
        let (video_id, comment_id) = match &v.refs {
            Some(f) => {
                let ci = match &f.comment_id {
                    Some(c) => match parse_u64_dec(c.as_str()) {
                        Some(val) if val <= i32::MAX as u64 => {
                            proof {
                                crate::strutil::lemma_dec_val_nonneg(c@);
                            }
                            Some(val as i32)
                        },
                        _ => {
                            proof {
                                match &f.comment_id {
                                    Some(c2) => {
                                        if c2@.len() > 0 && all_digits(c2@)
                                            && dec_val(c2@) <= i32::MAX {
                                            assert(dec_val(c2@) <= u64::MAX);
                                        }
                                    },
                                    None => {},
                                }
                            }
                            return Err(DBError::Other(String::from_str("invalid comment key")));
                        },
                    },
                    None => None,
                };
                (crate::models::clone_opt_string(&f.media_file_id), ci)
            },
            None => (None, None),
        };
        Ok(Message {
            id,
            user_id,
            created,
            seen: v.seen,
            video_id,
            comment_id,
            event_name: crate::bus::event_name_of_topic(&v.topic),
            message: v.message.clone(),
            details: match &v.details {
                Some(d) => d.clone(),
                None => String::new(),
            },
        })
    }
}

impl MessageInsert {
    /// Convert an insert payload to its wire record; no key and no
    /// creation time yet.
    pub fn to_proto3(&self) -> (r: ProtoUserMessage)
        requires
            self.comment_id matches Some(c) ==> c >= 0,
        ensures
            r.id is None,
            r.topic == spec_topic_of_event_name(self.event_name@),
            r.user_id matches Some(u) && u == self.user_id,
            r.refs matches Some(f) && f.media_file_id == self.video_id
                && (match self.comment_id {
                    Some(c) => f.comment_id matches Some(s) && s@ == dec_of(c as int),
                    None => f.comment_id is None,
                }),
            r.message == self.message,
            (if self.details@.len() == 0 {
                r.details is None
            } else {
                r.details matches Some(d) && d == self.details
            }),
            r.created is None,
            r.seen == self.seen,
    {
        ProtoUserMessage {
            id: None,
            topic: crate::bus::topic_of_event_name(self.event_name.as_str()),
            user_id: Some(self.user_id.clone()),
            refs: Some(ProtoRefs {
                media_file_id: crate::models::clone_opt_string(&self.video_id),
                comment_id: match self.comment_id {
                    Some(c) => Some(u64_to_dec(c as u64)),
                    None => None,
                },
            }),
            message: self.message.clone(),
            details: if self.details.as_str().unicode_len() == 0 {
                None
            } else {
                Some(self.details.clone())
            },
            created: None,
            seen: self.seen,
        }
    }
}

} // verus!
