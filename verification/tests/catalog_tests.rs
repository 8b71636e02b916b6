// Tests of the catalog store: paging, fixtures, deletion, renames,
// user messages, and transactions.

use clapshot_core::catalog::Catalog;
use clapshot_core::errors::DBError;
use clapshot_core::models::{Comment, CommentInsert, Message, MessageInsert, Video, VideoInsert};
use clapshot_core::paging::DBPaging;
use clapshot_core::txn;

/// Build the standard fixture: five media files for two users, five
/// root comments, two replies to the first comment, and one comment
/// with an empty drawing.
fn make_test_db() -> (Catalog, Vec<Video>, Vec<Comment>) {
    let mut cat = Catalog::new();
    let hashes = ["B1DE0", "11111", "22222", "B1DE3", "B1DE4"];
    let mut videos: Vec<Video> = Vec::new();
    for i in 0..5usize {
        let user_id = format!("user.num{}", 1 + i % 2);
        let username = format!("User Number{}", 1 + i % 2);
        let v = VideoInsert {
            id: hashes[i].to_string(),
            user_id: Some(user_id),
            user_name: Some(username),
            orig_filename: Some(format!("test{}.mp4", i)),
            title: Some(format!("test{}.mp4", i)),
            recompression_done: Some(0),
            thumb_sheet_cols: Some(i as i32),
            thumb_sheet_rows: Some(i as i32),
            total_frames: Some((i * 1000) as i32),
            duration_ms: Some((i * 100_000) as u64),
            fps: Some(format!("{}", i * i)),
            raw_metadata_all: Some(format!("{{all: {{video: {}}}}}", i)),
        };
        let row = Video::insert(&mut cat, &v).expect("Failed to insert video");
        videos.push(row);
    }
    let mut comments: Vec<Comment> = Vec::new();
    for i in 0..5usize {
        let c = CommentInsert {
            video_id: videos[i % 3].id.clone(),
            parent_id: None,
            timecode: None,
            user_id: Some(format!("user.num{}", 1 + i % 2)),
            username_ifnull: format!("User Number{}", 1 + i % 2),
            comment: format!("Comment {}", i),
            drawing: Some(format!("drawing_{}.webp", i)),
        };
        comments.push(Comment::insert(&mut cat, &c).expect("Failed to insert comment"));
    }
    for i in 5..7usize {
        let c = CommentInsert {
            video_id: comments[0].video_id.clone(),
            parent_id: Some(comments[0].id),
            timecode: None,
            user_id: Some(format!("user.num{}", 1 + i % 2)),
            username_ifnull: format!("User Number{}", 1 + i % 2),
            comment: format!("Comment {}", i),
            drawing: Some(format!("drawing_{}.webp", i)),
        };
        comments.push(Comment::insert(&mut cat, &c).expect("Failed to insert comment"));
    }
    let c = CommentInsert {
        video_id: videos[0].id.clone(),
        parent_id: None,
        timecode: None,
        user_id: Some("user.num1".to_string()),
        username_ifnull: "User Number1".to_string(),
        comment: "Comment_with_empty_drawing".to_string(),
        drawing: Some("".into()),
    };
    comments.push(Comment::insert(&mut cat, &c).expect("Failed to insert comment"));
    (cat, videos, comments)
}

#[test]
fn test_pagination() {
    let (cat, _videos, comments) = make_test_db();

    let res = Comment::get_all(&cat, DBPaging { page_num: 0, page_size: 3 }).unwrap();
    assert_eq!(res.len(), 3);
    assert_eq!(res[0].id, comments[0].id);
    assert_eq!(res[1].id, comments[1].id);
    assert_eq!(res[2].id, comments[2].id);

    let res = Comment::get_all(&cat, DBPaging { page_num: 1, page_size: 3 }).unwrap();
    assert_eq!(res.len(), 3);
    assert_eq!(res[0].id, comments[3].id);
    assert_eq!(res[1].id, comments[4].id);
    assert_eq!(res[2].id, comments[5].id);

    let res = Comment::get_all(&cat, DBPaging { page_num: 2, page_size: 3 }).unwrap();
    assert_eq!(res.len(), 2);
    assert_eq!(res[0].id, comments[6].id);
    assert_eq!(res[1].id, comments[7].id);
}

#[test]
fn test_fixture_state() {
    let (cat, videos, comments) = make_test_db();

    // First 5 comments have no parent, the next 2 reply to the first.
    for i in 0..5 {
        assert!(comments[i].parent_id.is_none());
    }
    for i in 5..7 {
        assert_eq!(comments[i].parent_id, Some(comments[0].id));
    }

    // Media file #0 carries 3 root comments, #1 two, #2 one.
    assert_eq!(comments[0].video_id, comments[3].video_id);
    assert_eq!(comments[0].video_id, comments[5].video_id);
    assert_eq!(comments[0].video_id, comments[6].video_id);
    assert_eq!(comments[0].video_id, videos[0].id);
    assert_eq!(comments[1].video_id, comments[4].video_id);
    assert_eq!(comments[1].video_id, videos[1].id);
    assert_eq!(comments[2].video_id, videos[2].id);

    // Read rows back and compare against the fixture.
    for v in videos.iter() {
        assert_eq!(Video::get(&cat, &v.id).unwrap().id, v.id);
        let cs = Comment::get_by_video(&cat, &v.id, DBPaging::default()).unwrap();
        let expected = match v.id.as_str() {
            "B1DE0" => 5,
            "11111" => 2,
            "22222" => 1,
            "B1DE3" => 0,
            "B1DE4" => 0,
            _ => panic!("Unexpected media file id"),
        };
        assert_eq!(cs.len(), expected);
    }
    for c in comments.iter() {
        assert_eq!(Comment::get(&cat, &c.id).unwrap().id, c.id);
        assert_eq!(Comment::get(&cat, &c.id).unwrap().comment, c.comment);
    }

    // Media files by user.
    assert_eq!(Video::get_by_user(&cat, "user.num1", DBPaging::default()).unwrap().len(), 3);
    assert_eq!(Video::get_by_user(&cat, "user.num2", DBPaging::default()).unwrap().len(), 2);
}

#[test]
fn test_comment_delete() {
    let (mut cat, _videos, com) = make_test_db();

    assert_eq!(
        Comment::get_by_video(&cat, &com[1].video_id, DBPaging::default()).unwrap().len(),
        2,
        "Video should have 2 comments before deletion"
    );

    // Delete comment #2 and check that it was deleted, and nothing else.
    Comment::delete(&mut cat, &com[1].id).unwrap();
    for c in com.iter() {
        if c.id == com[1].id {
            assert!(
                matches!(Comment::get(&cat, &c.id).unwrap_err(), DBError::NotFound),
                "Comment should be deleted"
            );
        } else {
            assert_eq!(Comment::get(&cat, &c.id).unwrap().id, c.id,
                "Deletion removed wrong comment(s)");
        }
    }

    // The media file has one comment left.
    assert_eq!(
        Comment::get_by_video(&cat, &com[1].video_id, DBPaging::default()).unwrap().len(),
        1,
        "Video should have 1 comment left"
    );

    // Delete the last comment, add a new one, and check for key reuse.
    Comment::delete(&mut cat, &com[6].id).unwrap();
    let c = CommentInsert {
        video_id: com[1].video_id.clone(),
        parent_id: None,
        user_id: Some(com[1].user_id.clone()),
        username_ifnull: "name".to_string(),
        comment: "re-add".to_string(),
        timecode: None,
        drawing: None,
    };
    let new_id = Comment::insert(&mut cat, &c).unwrap().id;
    assert_ne!(new_id, com[6].id,
        "Comment ID was re-used after deletion. This would mix up comment threads in the UI.");
}

#[test]
fn test_rename_video() {
    let (mut cat, _videos, _com) = make_test_db();

    let new_name = "New name";
    Video::rename(&mut cat, "11111", new_name).unwrap();

    let v = Video::get(&cat, &"11111".to_string()).unwrap();
    assert_eq!(v.title, Some(new_name.into()));

    let v = Video::get(&cat, &"22222".to_string()).unwrap();
    assert_ne!(v.title, Some(new_name.into()));
}

#[test]
fn test_user_messages() {
    let (mut cat, _videos, _com) = make_test_db();

    let msgs = [
        MessageInsert {
            user_id: "user.num1".into(),
            message: "message1".into(),
            event_name: "info".into(),
            video_id: Some("HASH0".into()),
            comment_id: None,
            details: "".into(),
            seen: false,
        },
        MessageInsert {
            user_id: "user.num1".into(),
            message: "message2".into(),
            event_name: "oops".into(),
            video_id: Some("HASH0".into()),
            comment_id: None,
            details: "STACKTRACE".into(),
            seen: false,
        },
        MessageInsert {
            user_id: "user.num2".into(),
            message: "message3".into(),
            event_name: "info".into(),
            video_id: None,
            comment_id: None,
            details: "".into(),
            seen: false,
        },
    ];

    let mut new_msgs = vec![];
    for m in msgs.iter() {
        let new_msg = Message::insert(&mut cat, m).unwrap();
        assert_eq!(new_msg.user_id, m.user_id);
        assert_eq!(new_msg.message, m.message);

        // The stored row and the returned row serialize identically.
        let a = Message::get(&cat, &new_msg.id).unwrap().to_proto3();
        let b = new_msg.to_proto3();
        assert_eq!(a.id, b.id);
        assert_eq!(a.topic, b.topic);
        assert_eq!(a.user_id, b.user_id);
        assert_eq!(a.message, b.message);
        assert_eq!(a.details, b.details);
        assert_eq!(a.seen, b.seen);

        assert!(!Message::get(&cat, &new_msg.id).unwrap().seen);
        new_msgs.push(new_msg);
    }

    assert_eq!(Message::get_by_user(&cat, "user.num1", DBPaging::default()).unwrap().len(), 2);
    assert_eq!(Message::get_by_user(&cat, "user.num2", DBPaging::default()).unwrap().len(), 1);

    Message::set_seen(&mut cat, new_msgs[1].id, true).unwrap();
    assert!(Message::get(&cat, &new_msgs[1].id).unwrap().seen);

    Message::delete(&mut cat, &new_msgs[2].id).unwrap();
    Message::delete(&mut cat, &new_msgs[0].id).unwrap();
    assert_eq!(Message::get_by_user(&cat, "user.num1", DBPaging::default()).unwrap().len(), 1);
    assert_eq!(Message::get_by_user(&cat, "user.num2", DBPaging::default()).unwrap().len(), 0);
}

#[test]
fn test_transaction_rollback() {
    let (mut cat, vid, _com) = make_test_db();

    assert_eq!(Video::get_all(&cat, DBPaging::default()).unwrap().len(), vid.len());

    let t = txn::begin(&cat);
    Video::delete(&mut cat, &vid[0].id).unwrap();
    assert_eq!(Video::get_all(&cat, DBPaging::default()).unwrap().len(), vid.len() - 1);
    txn::rollback(&mut cat, t);

    assert_eq!(Video::get_all(&cat, DBPaging::default()).unwrap().len(), vid.len());
}

#[test]
fn test_transaction_commit() {
    let (mut cat, vid, _com) = make_test_db();

    assert_eq!(Video::get_all(&cat, DBPaging::default()).unwrap().len(), vid.len());
    let t = txn::begin(&cat);
    Video::delete(&mut cat, &vid[0].id).unwrap();
    assert_eq!(Video::get_all(&cat, DBPaging::default()).unwrap().len(), vid.len() - 1);
    txn::commit(&mut cat, t);
    assert_eq!(Video::get_all(&cat, DBPaging::default()).unwrap().len(), vid.len() - 1);
}

#[test]
fn test_broken_store_fails_queries() {
    let (mut cat, _videos, _com) = make_test_db();
    cat.break_db();
    assert!(matches!(Video::get_all(&cat, DBPaging::default()), Err(DBError::Backend(_))));
    assert!(matches!(
        Video::get(&cat, &"B1DE0".to_string()),
        Err(DBError::Backend(_))
    ));
}

#[test]
fn test_savepoints_nest() {
    let (mut cat, vid, _com) = make_test_db();
    let mut t = txn::begin(&cat);

    Video::delete(&mut cat, &vid[0].id).unwrap();
    txn::savepoint(&mut t, &cat, "sp1");
    Video::delete(&mut cat, &vid[1].id).unwrap();
    assert_eq!(Video::get_all(&cat, DBPaging::default()).unwrap().len(), vid.len() - 2);

    // Back to the savepoint: only the first deletion remains.
    txn::rollback_to_savepoint(&mut t, &mut cat, "sp1").unwrap();
    assert_eq!(Video::get_all(&cat, DBPaging::default()).unwrap().len(), vid.len() - 1);

    // An unknown savepoint is refused.
    assert!(matches!(
        txn::rollback_to_savepoint(&mut t, &mut cat, "nope"),
        Err(DBError::NotFound)
    ));

    // Releasing keeps the state.
    assert!(txn::release_savepoint(&mut t, "sp1"));
    assert_eq!(Video::get_all(&cat, DBPaging::default()).unwrap().len(), vid.len() - 1);

    // Rolling back the whole transaction restores everything.
    txn::rollback(&mut cat, t);
    assert_eq!(Video::get_all(&cat, DBPaging::default()).unwrap().len(), vid.len());
}

#[test]
fn test_comment_parent_must_match_video() {
    let (mut cat, videos, comments) = make_test_db();
    // A parent on another media file violates the reference rule.
    let bad = CommentInsert {
        video_id: videos[3].id.clone(),
        parent_id: Some(comments[0].id),
        user_id: Some("user.num1".to_string()),
        username_ifnull: "User Number1".to_string(),
        comment: "cross-file reply".to_string(),
        timecode: None,
        drawing: None,
    };
    assert!(matches!(Comment::insert(&mut cat, &bad), Err(DBError::Backend(_))));
    // A parent that does not exist at all is refused the same way.
    let orphan = CommentInsert {
        video_id: videos[0].id.clone(),
        parent_id: Some(9999),
        user_id: Some("user.num1".to_string()),
        username_ifnull: "User Number1".to_string(),
        comment: "reply to nothing".to_string(),
        timecode: None,
        drawing: None,
    };
    assert!(matches!(Comment::insert(&mut cat, &orphan), Err(DBError::Backend(_))));
    // Deleting a comment that has replies is refused by the store itself.
    assert!(matches!(Comment::delete(&mut cat, &comments[0].id), Err(DBError::Backend(_))));
    // A comment for a media id the catalog does not hold is refused.
    let no_video = CommentInsert {
        video_id: "no-such-id".to_string(),
        parent_id: None,
        user_id: Some("user.num1".to_string()),
        username_ifnull: "User Number1".to_string(),
        comment: "orphan".to_string(),
        timecode: None,
        drawing: None,
    };
    assert!(matches!(Comment::insert(&mut cat, &no_video), Err(DBError::Backend(_))));
}

#[test]
fn test_duplicate_video_id_refused() {
    let (mut cat, videos, _comments) = make_test_db();
    let dup = VideoInsert {
        id: videos[0].id.clone(),
        user_id: Some("user.num1".to_string()),
        user_name: None,
        orig_filename: None,
        title: None,
        recompression_done: None,
        thumb_sheet_cols: None,
        thumb_sheet_rows: None,
        total_frames: None,
        duration_ms: None,
        fps: None,
        raw_metadata_all: None,
    };
    assert!(matches!(Video::insert(&mut cat, &dup), Err(DBError::Backend(_))));
}

#[test]
fn test_get_many_and_delete_many() {
    let (mut cat, videos, comments) = make_test_db();
    let ids = vec!["11111".to_string(), "B1DE3".to_string(), "nope".to_string()];
    let rows = Video::get_many(&cat, &ids).unwrap();
    assert_eq!(rows.len(), 2);
    assert_eq!(rows[0].id, "11111");
    assert_eq!(rows[1].id, "B1DE3");

    let got = Comment::get_many(&cat, &vec![comments[0].id, comments[2].id]).unwrap();
    assert_eq!(got.len(), 2);

    let n = Video::delete_many(&mut cat, &ids).unwrap();
    assert_eq!(n, 2);
    assert_eq!(Video::get_all(&cat, DBPaging::default()).unwrap().len(), videos.len() - 2);
    assert!(matches!(Video::get(&cat, &"11111".to_string()), Err(DBError::NotFound)));
}
