// Tests of the ingest pipeline: identity hashing, transcode decisions,
// ingest dispatch, cleanup, monitoring, notification fan-out, and the
// string machinery they rest on.

use clapshot_core::bus::{Bus, UserMessage, UserMessageTopic};
use clapshot_core::bus::{event_name_of_topic, topic_of_event_name};
use clapshot_core::catalog::Catalog;
use clapshot_core::cleaner::clean_up_rejected_file;
use clapshot_core::fsmodel::FsAction;
use clapshot_core::hashid::media_id;
use clapshot_core::ingest::{ingest_media, IngestOutcome};
use clapshot_core::metadata::{build_metadata, parse_duration_ms, ProbeFields};
use clapshot_core::models::Video;
use clapshot_core::monitor::{monitor_step, owner_of, MonitorState, Observation};
use clapshot_core::paging::DBPaging;
use clapshot_core::pipeline::{
    on_metadata_error, on_transcode_failed, on_transcode_progress, plan_transcode_artifacts,
    record_transcode_done, DetailedMsg, TranscodeResult,
};
use clapshot_core::pool::{parse_progress, PoolState};
use clapshot_core::session;
use clapshot_core::session::{parse_command, SessionCommand};
use clapshot_core::organizer::{handshake_major_ok, navi_page, FolderEntry, ListingItem};
use clapshot_core::strutil::{extension_of, parse_u64_dec, u64_to_dec};
use clapshot_core::transcode::{needs_transcoding, transcoded_basename, Metadata};
use clapshot_core::txn;
use clapshot_core::errors::DBError;
use clapshot_core::proto::{ProtoComment, ProtoUserMessage, UserInfo};

use sha2::Digest;

fn sample_metadata(src_file: &str, codec: &str, bitrate: u32) -> Metadata {
    Metadata {
        src_file: src_file.to_string(),
        user_id: "alice".to_string(),
        total_frames: 1800,
        duration_ms: 30_000,
        fps: "60".to_string(),
        bitrate,
        orig_codec: codec.to_string(),
        metadata_all: "{}".to_string(),
    }
}

// Happy path without transcode: a 60-fps H.264 MP4 at 2 Mb/s under a
// 2.5 Mb/s target is stored as it is.
#[test]
fn test_ingest_no_transcode() {
    let mut cat = Catalog::new();
    let md = sample_metadata("/data/incoming/60fps-example.mp4", "h264", 2_000_000);
    let r = ingest_media(&mut cat, "abcd1234", &md, "/data", false, 2_500_000, "u-u-i-d");
    assert!(matches!(r.outcome, IngestOutcome::Ingested));
    assert!(r.job.is_none());
    // media-file-added event, then the persistent confirmation.
    assert_eq!(r.messages.len(), 2);
    assert!(matches!(r.messages[0].topic, UserMessageTopic::MediaFileAdded));
    assert!(matches!(r.messages[1].topic, UserMessageTopic::Success));
    assert_eq!(r.messages[1].msg, "Media added");
    // The plan: create the tree, move the file in; no symlink.
    assert_eq!(r.actions.len(), 3);
    assert!(matches!(&r.actions[0], FsAction::CreateDir { path } if path == "/data/videos/abcd1234"));
    assert!(matches!(&r.actions[1], FsAction::CreateDir { path } if path == "/data/videos/abcd1234/orig"));
    assert!(matches!(&r.actions[2], FsAction::Move { from, to }
        if from == "/data/incoming/60fps-example.mp4"
            && to == "/data/videos/abcd1234/orig/60fps-example.mp4"));
    // The catalog row exists.
    let row = Video::get(&cat, &"abcd1234".to_string()).unwrap();
    assert_eq!(row.orig_filename, Some("60fps-example.mp4".to_string()));
    assert!(row.recompression_done.is_none());
}

// Happy path with transcode: the same material as ProRes in a MOV
// container is re-encoded, and completion links it in.
#[test]
fn test_ingest_with_transcode() {
    let mut cat = Catalog::new();
    let md = sample_metadata("/data/incoming/example.mov", "prores", 2_000_000);
    let r = ingest_media(&mut cat, "abcd1234", &md, "/data", false, 2_500_000, "u-u-i-d");
    assert!(matches!(r.outcome, IngestOutcome::Ingested));
    let job = r.job.expect("a transcode job is due");
    assert_eq!(job.src, "/data/videos/abcd1234/orig/example.mov");
    assert_eq!(job.dst, "/data/videos/abcd1234/transcoded_br2000000_u-u-i-d.mp4");
    assert_eq!(job.video_bitrate, 2_000_000);
    assert_eq!(r.messages[1].msg, "Media added. Transcoding...");

    // Progress is scraped from the encoder's output lines.
    let p = parse_progress("frame= 100 fps= 25 time=00:00:03.50 bitrate= 900k");
    assert_eq!(p, Some(3));
    let pm = on_transcode_progress(&job.media_file_id, &job.user_id, "3 s");
    assert!(matches!(pm.topic, UserMessageTopic::Progress));
    assert!(!pm.persist);

    // Completion writes the captures, links video.mp4, and stamps the row.
    let res = TranscodeResult {
        success: true,
        dst_file: job.dst.clone(),
        media_file_id: job.media_file_id.clone(),
        stdout: b"out".to_vec(),
        stderr: b"err".to_vec(),
        dmsg: DetailedMsg {
            msg: String::new(),
            details: String::new(),
            src_file: job.src.clone(),
            user_id: job.user_id.clone(),
        },
    };
    let acts = plan_transcode_artifacts(&res, "/data");
    assert_eq!(acts.len(), 3);
    assert!(matches!(&acts[2], FsAction::Symlink { link, target }
        if link == "/data/videos/abcd1234/video.mp4"
            && target == "transcoded_br2000000_u-u-i-d.mp4"));
    let done = record_transcode_done(&mut cat, &job.media_file_id, &job.user_id, true);
    assert_eq!(done.len(), 2);
    assert!(matches!(done[0].topic, UserMessageTopic::MediaFileUpdated));
    assert!(!done[0].persist);
    assert!(matches!(done[1].topic, UserMessageTopic::Success));
    assert!(done[1].persist);
    let row = Video::get(&cat, &"abcd1234".to_string()).unwrap();
    assert!(row.recompression_done.is_some());

    // A failed link yields one persistent error note instead.
    let broken = record_transcode_done(&mut cat, &job.media_file_id, &job.user_id, false);
    assert_eq!(broken.len(), 1);
    assert!(matches!(broken[0].topic, UserMessageTopic::Error));
}

// Corrupt input: the probe reports nothing useful, the file is
// rejected into the bin, and the error names the file.
#[test]
fn test_ingest_corrupted_file() {
    let fields = ProbeFields {
        duration_text: None,
        total_frames_text: None,
        fps_text: None,
        bit_rate_text: None,
        codec_name: None,
        raw_json: String::new(),
    };
    let err = build_metadata(&fields, "/data/incoming/garbage.mp4", "anonymous").unwrap_err();
    assert!(err.src_file.contains("garbage.mp4"));
    let m = on_metadata_error(&err, None);
    assert!(matches!(m.topic, UserMessageTopic::Error));
    assert!(m.persist);

    let plan = clean_up_rejected_file(
        "/data", "/data/incoming/garbage.mp4", None, true, false, "20240101-000000", false);
    assert_eq!(plan.dest.as_deref(), Some("/data/rejected/garbage.mp4"));
    assert_eq!(plan.actions.len(), 1);
    assert!(matches!(&plan.actions[0], FsAction::Move { from, to }
        if from == "/data/incoming/garbage.mp4" && to == "/data/rejected/garbage.mp4"));

    // A name collision suffixes the timestamp; a missing source plans
    // no move at all.
    let plan2 = clean_up_rejected_file(
        "/data", "/data/incoming/garbage.mp4", None, true, true, "20240101-000000", false);
    assert_eq!(plan2.dest.as_deref(), Some("/data/rejected/garbage.mp4_20240101-000000"));
    let plan3 = clean_up_rejected_file(
        "/data", "/data/incoming/garbage.mp4", None, false, false, "20240101-000000", false);
    assert!(plan3.dest.is_none());
    assert_eq!(plan3.actions.len(), 0);
}

// Duplicate upload by the same user: the second arrival is refused
// kindly, without a media file reference, and the catalog keeps one row.
#[test]
fn test_ingest_duplicate_same_user() {
    let mut cat = Catalog::new();
    let md = sample_metadata("/data/incoming/60fps-example.mp4", "h264", 2_000_000);
    let r1 = ingest_media(&mut cat, "abcd1234", &md, "/data", false, 2_500_000, "u1");
    assert!(matches!(r1.outcome, IngestOutcome::Ingested));

    let r2 = ingest_media(&mut cat, "abcd1234", &md, "/data", true, 2_500_000, "u2");
    assert!(matches!(r2.outcome, IngestOutcome::DuplicateOwned));
    assert_eq!(r2.messages.len(), 1);
    assert!(r2.messages[0].msg.contains("already have"));
    assert!(r2.messages[0].media_file_id.is_none());
    assert_eq!(Video::get_all(&cat, DBPaging::default()).unwrap().len(), 1);

    // The same identity under another user is a collision.
    let mut md2 = sample_metadata("/data/incoming/60fps-example.mp4", "h264", 2_000_000);
    md2.user_id = "bob".to_string();
    let r3 = ingest_media(&mut cat, "abcd1234", &md2, "/data", true, 2_500_000, "u3");
    assert!(matches!(r3.outcome, IngestOutcome::HashCollision));
}

// Comment deletion guard: a comment with replies is refused, deleting
// the reply first unblocks it.
#[test]
fn test_comment_deletion_guard() {
    let mut cat = Catalog::new();
    let md = sample_metadata("/data/incoming/a.mp4", "h264", 1_000_000);
    ingest_media(&mut cat, "abcd1234", &md, "/data", false, 2_500_000, "u");
    let vid = "abcd1234".to_string();
    let c1 = match session::add_comment(&mut cat, &vid, None, "alice", "Alice", "C1", None, None) {
        session::AddCommentOutcome::Added(c) => c,
        _ => panic!("C1 not added"),
    };
    let r1 = match session::add_comment(&mut cat, &vid, Some(c1.id), "bob", "Bob", "R1", None, None) {
        session::AddCommentOutcome::Added(c) => c,
        _ => panic!("R1 not added"),
    };

    let refused = session::del_comment(&mut cat, c1.id, "alice");
    assert!(matches!(refused, session::DelCommentOutcome::HasReplies));
    assert!(refused.detail_text().contains("Comment has replies."));

    assert!(matches!(session::del_comment(&mut cat, r1.id, "bob"),
        session::DelCommentOutcome::Deleted));
    assert!(matches!(session::del_comment(&mut cat, c1.id, "alice"),
        session::DelCommentOutcome::Deleted));
}

// Rollback: deleting every media file inside a transaction and rolling
// back leaves the count unchanged.
#[test]
fn test_rollback_restores_catalog() {
    let mut cat = Catalog::new();
    for (i, id) in ["a1", "b2", "c3"].iter().enumerate() {
        let md = sample_metadata(&format!("/data/incoming/f{}.mp4", i), "h264", 1_000_000);
        let r = ingest_media(&mut cat, id, &md, "/data", false, 2_500_000, "u");
        assert!(matches!(r.outcome, IngestOutcome::Ingested));
    }
    let before = Video::get_all(&cat, DBPaging::default()).unwrap().len();
    let t = txn::begin(&cat);
    for id in ["a1", "b2", "c3"] {
        Video::delete(&mut cat, &id.to_string()).unwrap();
    }
    assert_eq!(Video::get_all(&cat, DBPaging::default()).unwrap().len(), 0);
    txn::rollback(&mut cat, t);
    assert_eq!(Video::get_all(&cat, DBPaging::default()).unwrap().len(), before);
}

// The identity hash is deterministic, 8 lowercase hex characters, and
// matches a direct digest computation; changing any input changes it.
#[test]
fn test_media_id_form_and_sensitivity() {
    let basename = b"video.mp4".to_vec();
    let user = b"alice".to_vec();
    let prefix = vec![7u8; 1024];
    let id1 = media_id(&basename, &user, 123_456, &prefix);
    let id2 = media_id(&basename, &user, 123_456, &prefix);
    assert_eq!(id1, id2);
    assert_eq!(id1.len(), 8);
    assert!(id1.chars().all(|c| c.is_ascii_hexdigit() && !c.is_ascii_uppercase()));

    // Against a direct computation of the same digest.
    let mut h = sha2::Sha256::new();
    h.update(b"video.mp4");
    h.update(b"alice");
    h.update(123_456u64.to_be_bytes());
    h.update(&prefix[..]);
    let expected = hex::encode(h.finalize())[0..8].to_string();
    assert_eq!(id1, expected);

    // Each input contributes.
    assert_ne!(media_id(&b"other.mp4".to_vec(), &user, 123_456, &prefix), id1);
    assert_ne!(media_id(&basename, &b"bob".to_vec(), 123_456, &prefix), id1);
    assert_ne!(media_id(&basename, &user, 123_457, &prefix), id1);
    assert_ne!(media_id(&basename, &user, 123_456, &vec![8u8; 1024]), id1);
}

// The transcode decision is a pure function of its inputs: the same
// metadata twice gives the same answer, and each rule fires exactly.
#[test]
fn test_transcode_decision() {
    let ok = sample_metadata("/a/b.mp4", "h264", 2_000_000);
    assert_eq!(needs_transcoding(&ok, 2_500_000), None);
    assert_eq!(needs_transcoding(&ok, 2_500_000), needs_transcoding(&ok, 2_500_000));

    // Bitrate too high: 6 Mb/s against a 2.5 Mb/s target halves is
    // capped to the target.
    let hot = sample_metadata("/a/b.mp4", "h264", 6_000_000);
    assert_eq!(needs_transcoding(&hot, 2_500_000), Some(3_000_000));

    // Unsupported codec, any case.
    let pro = sample_metadata("/a/b.mp4", "ProRes", 2_000_000);
    assert_eq!(needs_transcoding(&pro, 2_500_000), Some(2_000_000));
    let upper = sample_metadata("/a/b.mp4", "H264", 2_000_000);
    assert_eq!(needs_transcoding(&upper, 2_500_000), None);

    // Unsupported container.
    let mov = sample_metadata("/a/b.mov", "h264", 2_000_000);
    assert_eq!(needs_transcoding(&mov, 2_500_000), Some(2_000_000));
    let mkv = sample_metadata("/a/b.MKV", "hevc", 2_000_000);
    assert_eq!(needs_transcoding(&mkv, 2_500_000), None);

    assert_eq!(transcoded_basename(1_500_000, "xyz"), "transcoded_br1500000_xyz.mp4");
}

// Persistent messages survive a reconnect and are replayed exactly
// once, seen afterwards.
#[test]
fn test_persistent_message_replayed_once() {
    let mut cat = Catalog::new();
    let mut bus = Bus::new();
    let m = UserMessage {
        topic: UserMessageTopic::Success,
        msg: "Media added".to_string(),
        details: None,
        user_id: Some("alice".to_string()),
        media_file_id: Some("abcd1234".to_string()),
        persist: true,
    };
    // Nobody is connected: the message is only persisted.
    bus.deliver(&mut cat, &m).unwrap();

    // First login replays it and marks it seen.
    let replay1 = clapshot_core::bus::replay_on_login(&mut cat, "alice").unwrap();
    assert_eq!(replay1.len(), 1);
    assert_eq!(replay1[0].message, "Media added");
    assert!(!replay1[0].seen);

    // A second login finds nothing unseen.
    let replay2 = clapshot_core::bus::replay_on_login(&mut cat, "alice").unwrap();
    assert_eq!(replay2.len(), 0);
    let rows = clapshot_core::models::Message::get_by_user(&cat, "alice", DBPaging::default())
        .unwrap();
    assert_eq!(rows.len(), 1);
    assert!(rows[0].seen);

    // A live session receives it directly.
    bus.connect("alice");
    bus.deliver(&mut cat, &m).unwrap();
    assert_eq!(bus.sessions[0].inbox.len(), 1);

    // A failed transcode notifies with the details.
    let res = TranscodeResult {
        success: false,
        dst_file: String::new(),
        media_file_id: "abcd1234".to_string(),
        stdout: Vec::new(),
        stderr: Vec::new(),
        dmsg: DetailedMsg {
            msg: "encoder failed".to_string(),
            details: "exit status 1".to_string(),
            src_file: "/data/videos/abcd1234/orig/a.mp4".to_string(),
            user_id: "alice".to_string(),
        },
    };
    let em = on_transcode_failed(&res);
    assert!(matches!(em.topic, UserMessageTopic::Error));
    assert_eq!(em.details.as_deref(), Some("exit status 1"));
}

// Media files of a user come back newest first, and the pages
// concatenate to the unpaged list.
#[test]
fn test_get_by_user_order_and_pages() {
    let mut cat = Catalog::new();
    for (i, id) in ["a1", "b2", "c3", "d4", "e5"].iter().enumerate() {
        cat.advance_clock(10);
        let md = sample_metadata(&format!("/data/incoming/f{}.mp4", i), "h264", 1_000_000);
        let r = ingest_media(&mut cat, id, &md, "/data", false, 2_500_000, "u");
        assert!(matches!(r.outcome, IngestOutcome::Ingested));
    }
    let unpaged = Video::get_by_user(&cat, "alice", DBPaging::default()).unwrap();
    assert_eq!(unpaged.len(), 5);
    for w in unpaged.windows(2) {
        assert!(w[0].added_time > w[1].added_time, "order must descend strictly");
    }
    let mut pages: Vec<Video> = Vec::new();
    for p in 0..3u32 {
        let mut page = Video::get_by_user(&cat, "alice",
            DBPaging { page_num: p, page_size: 2 }).unwrap();
        assert!(page.len() <= 2);
        pages.append(&mut page);
    }
    let a: Vec<String> = unpaged.iter().map(|v| v.id.clone()).collect();
    let b: Vec<String> = pages.iter().map(|v| v.id.clone()).collect();
    assert_eq!(a, b);
}

// The monitor emits a stable file exactly once, derives its owner from
// the spool layout, and skips dot files.
#[test]
fn test_monitor_emits_once() {
    let mut st = MonitorState { emitted: Vec::new(), last_seen: Vec::new() };
    let obs = vec![
        Observation {
            path: "/data/incoming/alice/movie.mp4".to_string(),
            size: 1000,
            mtime: 50,
            is_file: true,
            openable: true,
        },
        Observation {
            path: "/data/incoming/.hidden.mp4".to_string(),
            size: 5,
            mtime: 50,
            is_file: true,
            openable: true,
        },
    ];
    // First poll: nothing was seen before, so nothing is stable.
    let out1 = monitor_step(&mut st, &obs, "/data/incoming", 100, 10);
    assert_eq!(out1.len(), 0);
    // Second poll after the delay: the regular file is stable now.
    let out2 = monitor_step(&mut st, &obs, "/data/incoming", 120, 10);
    assert_eq!(out2.len(), 1);
    assert_eq!(out2[0].file_path, "/data/incoming/alice/movie.mp4");
    assert_eq!(out2[0].user_id, "alice");
    // Third poll: the same key is not emitted again.
    let out3 = monitor_step(&mut st, &obs, "/data/incoming", 140, 10);
    assert_eq!(out3.len(), 0);

    assert_eq!(owner_of("/data/incoming", "/data/incoming/bob/x/y.mp4"), "bob");
    assert_eq!(owner_of("/data/incoming", "/data/incoming/y.mp4"), "anonymous");
    assert_eq!(owner_of("/data/incoming", "/elsewhere/y.mp4"), "anonymous");
}

// The pool never runs more encoders than workers; completion promotes
// the oldest queued job.
#[test]
fn test_pool_bound_and_promotion() {
    let job = |n: u32| clapshot_core::ingest::TranscodeJob {
        src: format!("s{}", n),
        dst: format!("d{}", n),
        video_bitrate: n,
        media_file_id: format!("m{}", n),
        user_id: "alice".to_string(),
    };
    let mut p = PoolState::new(0, 2);
    assert_eq!(p.max_workers, 2);
    assert!(p.submit(job(1)));
    assert!(p.submit(job(2)));
    assert!(!p.submit(job(3)));
    assert_eq!(p.running.len(), 2);
    assert_eq!(p.queued.len(), 1);
    let promoted = p.complete(0).expect("queued job must be promoted");
    assert_eq!(promoted.video_bitrate, 3);
    assert_eq!(p.running.len(), 2);
    assert_eq!(p.queued.len(), 0);
    assert!(p.complete(1).is_none());
    assert_eq!(p.running.len(), 1);
}

// Event names and topics convert back and forth; unknown names fall
// back to the ok topic.
#[test]
fn test_event_name_round_trip() {
    let topics = [
        UserMessageTopic::Success,
        UserMessageTopic::Error,
        UserMessageTopic::Progress,
        UserMessageTopic::MediaFileAdded,
        UserMessageTopic::MediaFileUpdated,
    ];
    for t in topics {
        assert_eq!(topic_of_event_name(&event_name_of_topic(&t)), t);
    }
    assert_eq!(event_name_of_topic(&UserMessageTopic::MediaFileAdded), "media-file-added");
    assert!(matches!(topic_of_event_name("no-such-event"), UserMessageTopic::Success));
}

// A message row survives the trip through its wire record.
#[test]
fn test_message_proto_round_trip() {
    let mut cat = Catalog::new();
    let ins = clapshot_core::models::MessageInsert {
        user_id: "alice".into(),
        message: "Media added".into(),
        event_name: "media-file-added".into(),
        video_id: Some("abcd1234".into()),
        comment_id: Some(7),
        details: "with details".into(),
        seen: false,
    };
    // The payload's own wire form carries no key.
    let pw = ins.to_proto3();
    assert!(pw.id.is_none());
    assert_eq!(pw.refs.as_ref().unwrap().comment_id.as_deref(), Some("7"));

    let row = clapshot_core::models::Message::insert(&mut cat, &ins).unwrap();
    let wire = row.to_proto3();
    let back = clapshot_core::models::Message::from_proto3(&wire).unwrap();
    assert_eq!(back.id, row.id);
    assert_eq!(back.user_id, row.user_id);
    assert_eq!(back.event_name, row.event_name);
    assert_eq!(back.video_id, row.video_id);
    assert_eq!(back.comment_id, row.comment_id);
    assert_eq!(back.message, row.message);
    assert_eq!(back.details, row.details);
    assert_eq!(back.created, row.created);
    assert_eq!(back.seen, row.seen);

    // And a media file row through its record.
    let md = sample_metadata("/data/incoming/a.mp4", "h264", 1_000_000);
    ingest_media(&mut cat, "abcd1234", &md, "/data", false, 2_500_000, "u");
    let vrow = Video::get(&cat, &"abcd1234".to_string()).unwrap();
    let vwire = vrow.to_proto3("https://example.com");
    let vback = Video::from_proto3(&vwire).unwrap();
    assert_eq!(vback.id, vrow.id);
    assert_eq!(vback.user_id, vrow.user_id);
    assert_eq!(vback.added_time, vrow.added_time);
    assert_eq!(vback.orig_filename, vrow.orig_filename);
    assert_eq!(vback.duration_ms, vrow.duration_ms);
    assert_eq!(vback.fps, vrow.fps);
}

// String machinery: extensions, decimal round trips, durations,
// progress tokens, title validation.
#[test]
fn test_string_machinery() {
    assert_eq!(extension_of("/a/b/movie.mp4"), "mp4");
    assert_eq!(extension_of("/a/b/archive.tar.gz"), "gz");
    assert_eq!(extension_of("/a/b/.hidden"), "");
    assert_eq!(extension_of("/a/b/noext"), "");
    assert_eq!(extension_of("file.MKV"), "MKV");

    assert_eq!(u64_to_dec(0), "0");
    assert_eq!(u64_to_dec(1234567890), "1234567890");
    assert_eq!(parse_u64_dec("1234567890"), Some(1234567890));
    assert_eq!(parse_u64_dec(""), None);
    assert_eq!(parse_u64_dec("12x"), None);
    assert_eq!(parse_u64_dec("18446744073709551615"), Some(u64::MAX));
    assert_eq!(parse_u64_dec("18446744073709551616"), None);

    assert_eq!(parse_duration_ms("12.345678"), Some(12_345));
    assert_eq!(parse_duration_ms("12.3"), Some(12_300));
    assert_eq!(parse_duration_ms("12"), Some(12_000));
    assert_eq!(parse_duration_ms("12."), Some(12_000));
    assert_eq!(parse_duration_ms(".5"), None);
    assert_eq!(parse_duration_ms("12.3a"), None);

    assert_eq!(parse_progress("no token here"), None);
    assert_eq!(parse_progress("time=01:02:03.9"), Some(3723));

    assert!(matches!(session::check_title("  Nice name  "), session::TitleCheck::Valid(t)
        if t == "Nice name"));
    assert!(matches!(session::check_title("   "), session::TitleCheck::Invalid));
    assert!(matches!(session::check_title("!!!"), session::TitleCheck::Invalid));
    let long = "x".repeat(161);
    assert!(matches!(session::check_title(&long), session::TitleCheck::TooLong));
}

// Probe fields must be complete and numeric; the record keeps the
// textual fps.
#[test]
fn test_build_metadata() {
    let fields = ProbeFields {
        duration_text: Some("30.000000".to_string()),
        total_frames_text: Some("1800".to_string()),
        fps_text: Some("23.976".to_string()),
        bit_rate_text: Some("2000000".to_string()),
        codec_name: Some("h264".to_string()),
        raw_json: "{\"streams\":[]}".to_string(),
    };
    let md = build_metadata(&fields, "/data/incoming/a.mp4", "alice").unwrap();
    assert_eq!(md.duration_ms, 30_000);
    assert_eq!(md.total_frames, 1800);
    assert_eq!(md.fps, "23.976");
    assert_eq!(md.bitrate, 2_000_000);
    assert_eq!(md.orig_codec, "h264");

    let mut bad = ProbeFields {
        duration_text: Some("30.0".to_string()),
        total_frames_text: Some("1800".to_string()),
        fps_text: Some("25".to_string()),
        bit_rate_text: Some("2000000".to_string()),
        codec_name: Some("h264".to_string()),
        raw_json: String::new(),
    };
    bad.bit_rate_text = Some("not-a-number".to_string());
    assert!(build_metadata(&bad, "/f", "u").is_err());
}

// Session-facing odds and ends: the dispatcher, renames, deletion
// rights and the drawing filename.
#[test]
fn test_session_decisions() {
    assert!(matches!(parse_command("del_video"), SessionCommand::DelVideo));
    assert!(matches!(parse_command("add_comment"), SessionCommand::AddComment));
    assert!(matches!(parse_command("logout"), SessionCommand::Logout));
    assert!(matches!(parse_command("bogus"), SessionCommand::Unknown));

    let mut cat = Catalog::new();
    let md = sample_metadata("/data/incoming/a.mp4", "h264", 1_000_000);
    ingest_media(&mut cat, "abcd1234", &md, "/data", false, 2_500_000, "u");
    let vid = "abcd1234".to_string();

    // Another user may not delete; the admin may.
    assert!(matches!(session::del_video(&mut cat, &vid, "bob"),
        session::DelVideoOutcome::NotOwner));
    assert!(matches!(session::del_video(&mut cat, &vid, "admin"),
        session::DelVideoOutcome::Deleted(_)));
    assert!(matches!(session::del_video(&mut cat, &vid, "admin"),
        session::DelVideoOutcome::NotFound));

    // The drawing filename is the digest prefix of the bytes.
    let name = session::drawing_filename(&b"IMAGE_DATA".to_vec());
    let mut h = sha2::Sha256::new();
    h.update(b"IMAGE_DATA");
    let expected = format!("{}.webp", &hex::encode(h.finalize())[0..16]);
    assert_eq!(name, expected);
}

// The wire record of a media file derives its addresses from the row.
#[test]
fn test_media_file_to_proto3() {
    let mut cat = Catalog::new();
    let md = sample_metadata("/data/incoming/my movie.mp4", "h264", 1_000_000);
    ingest_media(&mut cat, "abcd1234", &md, "/data", false, 2_500_000, "u");
    let row = Video::get(&cat, &"abcd1234".to_string()).unwrap();
    let p = row.to_proto3("https://example.com");
    assert_eq!(p.id, "abcd1234");
    // Not yet transcoded: playback serves the (percent-encoded) original.
    assert_eq!(p.playback_url.as_deref(),
        Some("https://example.com/videos/abcd1234/orig/my%20movie.mp4"));
    assert_eq!(p.orig_url, p.playback_url);
    let d = p.duration.expect("duration block");
    assert_eq!(d.duration_ms, 30_000);
    assert_eq!(d.fps, "60");

    clapshot_core::models::Video::set_recompressed(&mut cat, "abcd1234").unwrap();
    let row2 = Video::get(&cat, &"abcd1234".to_string()).unwrap();
    let p2 = row2.to_proto3("https://example.com");
    assert_eq!(p2.playback_url.as_deref(),
        Some("https://example.com/videos/abcd1234/video.mp4"));
    assert_ne!(p2.orig_url, p2.playback_url);
}

// The organizer's page assembly and version handshake.
#[test]
fn test_organizer_decisions() {
    assert_eq!(handshake_major_ok("0.9.1", 0), Some(true));
    assert_eq!(handshake_major_ok("1.2.3", 0), Some(false));
    assert_eq!(handshake_major_ok("not-a-version", 0), None);

    let path = vec![
        FolderEntry { id: "root".to_string(), name: "ignored".to_string() },
        FolderEntry { id: "f1".to_string(), name: "Movies".to_string() },
    ];
    let folders = vec![
        FolderEntry { id: "f2".to_string(), name: "".to_string() },
    ];
    let mut cat = Catalog::new();
    let md = sample_metadata("/data/incoming/a.mp4", "h264", 1_000_000);
    ingest_media(&mut cat, "abcd1234", &md, "/data", false, 2_500_000, "u");
    let videos = clapshot_core::models::Video::get_all(&cat, DBPaging::default()).unwrap();

    let page = navi_page(&path, &folders, &videos);
    let bc = page.breadcrumbs.expect("breadcrumbs below the root");
    assert_eq!(bc.len(), 2);
    assert_eq!(bc[0].label, "Home");
    assert_eq!(bc[1].label, "Movies");
    assert_eq!(page.items.len(), 2);
    assert!(matches!(&page.items[0], ListingItem::Folder { title, .. } if title == "<UNNAMED>"));
    assert!(matches!(&page.items[1], ListingItem::MediaFile { id } if id == "abcd1234"));
}

// Malformed wire records are refused with the wrapped error class.
#[test]
fn test_wire_record_errors() {
    // A comment record that still carries a key cannot become an insert.
    let keyed = ProtoComment {
        id: "7".to_string(),
        video_id: "abcd1234".to_string(),
        user: Some(UserInfo { id: "alice".to_string(), name: "Alice".to_string() }),
        comment: "hi".to_string(),
        timecode: None,
        parent_id: None,
        created: None,
        edited: None,
        drawing: None,
    };
    assert!(matches!(
        clapshot_core::models::CommentInsert::from_proto3(&keyed),
        Err(DBError::Other(_))
    ));
    // A parent reference that is no number is refused.
    let bad_parent = ProtoComment { id: String::new(), parent_id: Some("x1".to_string()), ..keyed };
    assert!(matches!(
        clapshot_core::models::CommentInsert::from_proto3(&bad_parent),
        Err(DBError::Other(_))
    ));
    // A message without a user cannot become an insert payload.
    let no_user = ProtoUserMessage {
        id: None,
        topic: UserMessageTopic::Success,
        user_id: None,
        refs: None,
        message: "m".to_string(),
        details: None,
        created: None,
        seen: false,
    };
    assert!(matches!(
        clapshot_core::models::MessageInsert::from_proto3(&no_user),
        Err(DBError::Other(_))
    ));
    // A comment reference that does not parse is refused, not dropped.
    let bad_ref = ProtoUserMessage {
        user_id: Some("alice".to_string()),
        refs: Some(clapshot_core::proto::ProtoRefs {
            media_file_id: Some("abcd1234".to_string()),
            comment_id: Some("x".to_string()),
        }),
        ..no_user
    };
    assert!(matches!(
        clapshot_core::models::MessageInsert::from_proto3(&bad_ref),
        Err(DBError::Other(_))
    ));
    // A parseable one is kept.
    let good_ref = ProtoUserMessage {
        user_id: Some("alice".to_string()),
        refs: Some(clapshot_core::proto::ProtoRefs {
            media_file_id: Some("abcd1234".to_string()),
            comment_id: Some("41".to_string()),
        }),
        id: None,
        topic: UserMessageTopic::Success,
        message: "m".to_string(),
        details: None,
        created: None,
        seen: false,
    };
    let ins = clapshot_core::models::MessageInsert::from_proto3(&good_ref).unwrap();
    assert_eq!(ins.comment_id, Some(41));

    // An empty display name on a wire comment defaults to the user id.
    let unnamed = ProtoComment {
        id: String::new(),
        video_id: "abcd1234".to_string(),
        user: Some(UserInfo { id: "alice".to_string(), name: String::new() }),
        comment: "hi".to_string(),
        timecode: None,
        parent_id: None,
        created: None,
        edited: None,
        drawing: None,
    };
    let c = clapshot_core::models::CommentInsert::from_proto3(&unnamed).unwrap();
    assert_eq!(c.username_ifnull, "alice");
}

// Deleting a media file plans the JSON backup and the trash move, and
// confirms to the user.
#[test]
fn test_del_video_trash_plan() {
    let mut cat = Catalog::new();
    let md = sample_metadata("/data/incoming/a.mp4", "h264", 1_000_000);
    ingest_media(&mut cat, "abcd1234", &md, "/data", false, 2_500_000, "u");
    let vid = "abcd1234".to_string();
    let row = match session::del_video(&mut cat, &vid, "alice") {
        session::DelVideoOutcome::Deleted(row) => row,
        _ => panic!("owner must be able to delete"),
    };
    assert_eq!(row.id, "abcd1234");

    let backup = format!("{{\"id\":\"{}\"}}", row.id).into_bytes();
    let plan = session::plan_video_trash("/data", "abcd1234", "20240101-000000", backup.clone());
    assert_eq!(plan.len(), 3);
    assert!(matches!(&plan[0], FsAction::WriteFile { path, content }
        if path == "/data/videos/abcd1234/db_backup.json" && *content == backup));
    assert!(matches!(&plan[1], FsAction::CreateDir { path } if path == "/data/videos/trash"));
    assert!(matches!(&plan[2], FsAction::Move { from, to }
        if from == "/data/videos/abcd1234"
            && to == "/data/videos/trash/abcd1234_20240101-000000"));

    let m = session::deletion_message("abcd1234", "alice", None, false);
    assert!(matches!(m.topic, UserMessageTopic::Success));
    assert_eq!(m.msg, "Media file deleted.");
    assert!(m.persist);
    let m2 = session::deletion_message("abcd1234", "alice",
        Some("backup failed".to_string()), true);
    assert_eq!(m2.msg, "Media file deleted, but cleanup had errors.");
    assert_eq!(m2.details.as_deref(), Some("backup failed"));
}
