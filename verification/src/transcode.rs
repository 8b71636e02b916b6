//! Transcode decision: whether a freshly ingested media file must be
//! re-encoded, and at which bitrate.
//!
//! The target bitrate is `max(orig/2, min(orig, target_max))`.  A file is
//! transcoded when lowering to that bitrate would help and the original
//! exceeds the configured maximum by more than a fifth, when its codec is
//! not among the streamable ones, or when its container is neither MP4
//! nor Matroska (extensions compared ignoring ASCII case).

use vstd::prelude::*;

use crate::strutil::{eq_ci, ext_of, dec_of};

verus! {

/// Technical metadata of a submitted file, as the probe reports it.
#[derive(Debug)]
pub struct Metadata {
    /// Path of the file in the spool directory.
    pub src_file: String,
    pub user_id: String,
    pub total_frames: u32,
    /// Duration in milliseconds.
    pub duration_ms: u64,
    /// Frames per second, original textual form preserved.
    pub fps: String,
    /// Video bitrate in bits per second.
    pub bitrate: u32,
    pub orig_codec: String,
    /// The probe's full output.
    pub metadata_all: String,
}

impl Clone for Metadata {
    fn clone(&self) -> (r: Self)
        ensures
            r == *self,
    {
        Metadata {
            src_file: self.src_file.clone(),
            user_id: self.user_id.clone(),
            total_frames: self.total_frames,
            duration_ms: self.duration_ms,
            fps: self.fps.clone(),
            bitrate: self.bitrate,
            orig_codec: self.orig_codec.clone(),
            metadata_all: self.metadata_all.clone(),
        }
    }
}

/// The bitrate a transcode would aim for: half the original at least,
/// the configured maximum at most (unless the original is lower still).
pub open spec fn spec_new_bitrate(orig: u32, target_max: u32) -> int {
    let lo = orig as int / 2;
    let capped = if orig <= target_max { orig as int } else { target_max as int };
    if lo >= capped { lo } else { capped }
}

/// The original bitrate needs no lowering: the new bitrate would not be
/// smaller, or the original stays within 1.2 times the configured
/// maximum (6/5, held exactly in integers).
pub open spec fn bitrate_ok(orig: u32, target_max: u32) -> bool {
    spec_new_bitrate(orig, target_max) >= orig || 5 * orig <= 6 * target_max
}

/// The codec can be served as it is (case-insensitive).
pub open spec fn codec_ok(codec: Seq<char>) -> bool {
    ||| eq_ci(codec, "h264"@)
    ||| eq_ci(codec, "avc"@)
    ||| eq_ci(codec, "hevc"@)
    ||| eq_ci(codec, "h265"@)
}

/// The container can be served as it is: the path's extension is MP4 or
/// Matroska (case-insensitive).
pub open spec fn container_ok(path: Seq<char>) -> bool {
    eq_ci(ext_of(path), "mp4"@) || eq_ci(ext_of(path), "mkv"@)
}

/// The transcode decision: `Some(bitrate)` when the file must be
/// re-encoded, `None` when it can be served as it is.
pub open spec fn spec_needs_transcoding(md: Metadata, target_max: u32) -> Option<u32> {
    if !bitrate_ok(md.bitrate, target_max) || !codec_ok(md.orig_codec@)
        || !container_ok(md.src_file@) {
        Some(spec_new_bitrate(md.bitrate, target_max) as u32)
    } else {
        None
    }
}

/// Decide whether a file needs transcoding, and at which bitrate.
pub fn needs_transcoding(md: &Metadata, target_max: u32) -> (r: Option<u32>)
    ensures
        r == spec_needs_transcoding(*md, target_max),
{
    let lo = md.bitrate / 2;
    let capped = if md.bitrate <= target_max { md.bitrate } else { target_max };
    let new_bitrate = if lo >= capped { lo } else { capped };
    proof {
        assert(new_bitrate == spec_new_bitrate(md.bitrate, target_max));
    }
    let rate_fine = new_bitrate >= md.bitrate
        || 5 * (md.bitrate as u64) <= 6 * (target_max as u64);
    let codec_fine = crate::strutil::eq_ignore_case(md.orig_codec.as_str(), "h264")
        || crate::strutil::eq_ignore_case(md.orig_codec.as_str(), "avc")
        || crate::strutil::eq_ignore_case(md.orig_codec.as_str(), "hevc")
        || crate::strutil::eq_ignore_case(md.orig_codec.as_str(), "h265");
    let ext = crate::strutil::extension_of(md.src_file.as_str());
    let container_fine = crate::strutil::eq_ignore_case(ext.as_str(), "mp4")
        || crate::strutil::eq_ignore_case(ext.as_str(), "mkv");
    if !rate_fine || !codec_fine || !container_fine {
        Some(new_bitrate)
    } else {
        None
    }
}

/// The transcode decision is a function of the metadata and the
/// configured maximum alone: feeding the same metadata twice produces
/// the same decision.
pub proof fn lemma_transcode_decision_idempotent(a: Metadata, b: Metadata, target_max: u32)
    requires
        a == b,
    ensures
        spec_needs_transcoding(a, target_max) == spec_needs_transcoding(b, target_max),
{
}

/// Relies on uuid::Uuid::new_v4 and its hyphenated text form: a fresh
/// random identifier of 36 ASCII characters.  Nothing more is promised
/// of a random value.
#[verifier::external_body]
pub fn new_uuid_string() -> (r: String)
    ensures
        r@.len() == 36,
{
    uuid::Uuid::new_v4().to_string()
}

/// The basename an output file of a transcode run gets: the bitrate and
/// a fresh identifier, in an MP4 container.
pub open spec fn spec_transcoded_basename(bitrate: u32, uid: Seq<char>) -> Seq<char> {
    "transcoded_br"@ + dec_of(bitrate as int) + "_"@ + uid + ".mp4"@
}

/// Build the output basename for a transcode at `bitrate`, embedding the
/// given fresh identifier.
pub fn transcoded_basename(bitrate: u32, uid: &str) -> (r: String)
    ensures
        r@ == spec_transcoded_basename(bitrate, uid@),
{
    let mut s = String::from_str("transcoded_br");
    let d = crate::strutil::u64_to_dec(bitrate as u64);
    s.append(d.as_str());
    s.append("_");
    s.append(uid);
    s.append(".mp4");
    proof {
        assert(s@ =~= spec_transcoded_basename(bitrate, uid@));
    }
    s
}

} // verus!
