//! The catalog store: media file rows, comments and user messages, held
//! in memory with a logical clock and transactional snapshots.
//!
//! Rows are stored in insertion order.  Integer keys (comments, messages)
//! are allocated from monotonic counters and never reused; timestamps are
//! stamped from the store clock, which never goes backward.  Queries
//! return rows newest first as described in [`crate::order`].
//!
//! A test facility can flip the store into a broken state, after which
//! every operation fails with a backend error, as a corrupted connection
//! pool would.

use vstd::prelude::*;

use crate::errors::{DBError, DBResult, EmptyDBResult};
use crate::models::{Video, VideoInsert};
use crate::order::{
    Keyed, nondecreasing, ordered, ordered_upto, filter_by, concat_pages,
    lemma_run_start_unique, lemma_filter_step, lemma_filter_nondecreasing,
    lemma_filter_contains, lemma_filter_source, lemma_filter_distinct_keys,
    lemma_ordered_strictly_descending, lemma_concat_pages_cover,
};
use crate::paging::{DBPaging, page_of};
use vstd::pervasive::VecAdditionalExecFns;

verus! {

impl Keyed for Video {
    open spec fn key(&self) -> int {
        self.added_time as int
    }
}

impl Keyed for crate::models::Comment {
    open spec fn key(&self) -> int {
        self.created as int
    }
}

impl Keyed for crate::models::Message {
    open spec fn key(&self) -> int {
        self.created as int
    }
}

/// Mathematical state of the catalog: the rows, the id counters and the
/// logical clock.  The broken-for-test flag is deliberately not part of
/// the state; breaking the store does not change its contents.
#[verifier::ext_equal]
pub ghost struct CatalogState {
    pub videos: Seq<Video>,
    pub comments: Seq<crate::models::Comment>,
    pub messages: Seq<crate::models::Message>,
    pub next_comment_id: int,
    pub next_message_id: int,
    pub clock: int,
}

/// The catalog store.
pub struct Catalog {
    videos: Vec<Video>,
    comments: Vec<crate::models::Comment>,
    messages: Vec<crate::models::Message>,
    next_comment_id: i32,
    next_message_id: i32,
    clock: i64,
    broken: bool,
}

impl View for Catalog {
    type V = CatalogState;

    closed spec fn view(&self) -> CatalogState {
        CatalogState {
            videos: self.videos@,
            comments: self.comments@,
            messages: self.messages@,
            next_comment_id: self.next_comment_id as int,
            next_message_id: self.next_message_id as int,
            clock: self.clock as int,
        }
    }
}

/// There is a video row with this id.
pub open spec fn has_video(vs: Seq<Video>, id: Seq<char>) -> bool {
    exists|i: int| 0 <= i < vs.len() && #[trigger] vs[i].id@ == id
}

/// No two video rows share an id.
pub open spec fn video_ids_unique(vs: Seq<Video>) -> bool {
    forall|i: int, j: int| 0 <= i < j < vs.len() ==> #[trigger] vs[i].id@ != #[trigger] vs[j].id@
}

/// The video row built from an insert payload at clock time `t`.
pub open spec fn stamped_video(item: VideoInsert, t: int) -> Video {
    Video {
        id: item.id,
        user_id: item.user_id,
        user_name: item.user_name,
        added_time: t as i64,
        recompression_done: item.recompression_done,
        thumb_sheet_cols: item.thumb_sheet_cols,
        thumb_sheet_rows: item.thumb_sheet_rows,
        orig_filename: item.orig_filename,
        title: item.title,
        total_frames: item.total_frames,
        duration_ms: item.duration_ms,
        fps: item.fps,
        raw_metadata_all: item.raw_metadata_all,
    }
}

/// Rows that belong to the given user.
pub open spec fn video_user_pred(uid: Seq<char>) -> spec_fn(Video) -> bool {
    |v: Video| v.user_id matches Some(u) && u@ == uid
}

impl Catalog {
    /// Whether the store has been broken for testing.
    pub closed spec fn spec_broken(&self) -> bool {
        self.broken
    }

    /// Internal invariant of the catalog: unique video ids, monotone
    /// timestamps bounded by the clock, comment and message keys unique,
    /// monotone and below their counters, and comment parents resolving
    /// to older comments of the same video.
    pub open spec fn wf(&self) -> bool {
        &&& video_ids_unique(self@.videos)
        &&& nondecreasing(self@.videos)
        &&& forall|i: int| 0 <= i < self@.videos.len()
            ==> #[trigger] self@.videos[i].added_time <= self@.clock
        &&& comments_wf(self@.comments, self@.next_comment_id, self@.clock)
        &&& messages_wf(self@.messages, self@.next_message_id, self@.clock)
        &&& 1 <= self@.next_comment_id <= i32::MAX
        &&& 1 <= self@.next_message_id <= i32::MAX
        &&& 0 <= self@.clock <= i64::MAX
    }

    /// A fresh, empty catalog.
    pub fn new() -> (r: Catalog)
        ensures
            r.wf(),
            !r.spec_broken(),
            r@.videos.len() == 0,
            r@.comments.len() == 0,
            r@.messages.len() == 0,
            r@.next_comment_id == 1,
            r@.next_message_id == 1,
            r@.clock == 0,
    {
        Catalog {
            videos: Vec::new(),
            comments: Vec::new(),
            messages: Vec::new(),
            next_comment_id: 1,
            next_message_id: 1,
            clock: 0,
            broken: false,
        }
    }

    /// Advance the logical clock.  Rows inserted afterwards carry a
    /// timestamp at least as new as any row inserted before.
    pub fn advance_clock(&mut self, delta: i64)
        requires
            old(self).wf(),
            0 <= delta,
            old(self)@.clock + delta <= i64::MAX,
        ensures
            final(self).wf(),
            final(self).spec_broken() == old(self).spec_broken(),
            final(self)@ == (CatalogState { clock: old(self)@.clock + delta, ..old(self)@ }),
    {
        self.clock = self.clock + delta;
    }

    /// Break the store for testing: every later operation fails with a
    /// backend error until the store is mended.
    pub fn break_db(&mut self)
        ensures
            final(self)@ == old(self)@,
            final(self).spec_broken(),
            old(self).wf() ==> final(self).wf(),
    {
        self.broken = true;
    }

    /// Whether the store has been broken for testing.
    pub fn is_broken(&self) -> (r: bool)
        ensures
            r == self.spec_broken(),
    {
        self.broken
    }

    /// Number of comment rows.
    pub fn comment_count(&self) -> (r: usize)
        ensures
            r == self@.comments.len(),
    {
        self.comments.len()
    }

    /// Copy of the comment row at a storage index.
    pub fn comment_at(&self, i: usize) -> (r: crate::models::Comment)
        requires
            i < self@.comments.len(),
        ensures
            r == self@.comments[i as int],
    {
        self.comments[i].clone()
    }

    /// Number of message rows.
    pub fn message_count(&self) -> (r: usize)
        ensures
            r == self@.messages.len(),
    {
        self.messages.len()
    }

    /// Copy of the message row at a storage index.
    pub fn message_at(&self, i: usize) -> (r: crate::models::Message)
        requires
            i < self@.messages.len(),
        ensures
            r == self@.messages[i as int],
    {
        self.messages[i].clone()
    }

    /// Swap in a replacement message table.  Only for callers that
    /// re-establish the invariant, such as the login replay.
    pub(crate) fn replace_messages(&mut self, ms: Vec<crate::models::Message>)
        ensures
            final(self)@ == (CatalogState { messages: ms@, ..old(self)@ }),
            final(self).spec_broken() == old(self).spec_broken(),
    {
        self.messages = ms;
    }

    /// Current clock value, unix seconds.
    pub fn clock_now(&self) -> (r: i64)
        ensures
            r == self@.clock,
    {
        self.clock
    }
}

/// Comment rows: ids strictly increasing (hence unique and never reused),
/// below the allocation counter; timestamps monotone and bounded by the
/// clock; parents resolve to older comments of the same video.
pub open spec fn comments_wf(cs: Seq<crate::models::Comment>, next_id: int, clock: int) -> bool {
    &&& forall|i: int, j: int| 0 <= i < j < cs.len()
        ==> #[trigger] cs[i].id < #[trigger] cs[j].id
    &&& forall|i: int| 0 <= i < cs.len() ==> 1 <= #[trigger] cs[i].id < next_id
    &&& nondecreasing(cs)
    &&& forall|i: int| 0 <= i < cs.len() ==> #[trigger] cs[i].created <= clock
    &&& comment_parents_ok(cs)
}

/// Every set parent refers to an older comment of the same video.
pub open spec fn comment_parents_ok(cs: Seq<crate::models::Comment>) -> bool {
    forall|i: int| 0 <= i < cs.len() ==> match #[trigger] cs[i].parent_id {
        Some(p) => p < cs[i].id && exists|j: int|
            0 <= j < cs.len() && #[trigger] cs[j].id == p && cs[j].video_id@ == cs[i].video_id@,
        None => true,
    }
}

/// Message rows: ids strictly increasing and below the counter,
/// timestamps monotone and bounded by the clock.
pub open spec fn messages_wf(ms: Seq<crate::models::Message>, next_id: int, clock: int) -> bool {
    &&& forall|i: int, j: int| 0 <= i < j < ms.len()
        ==> #[trigger] ms[i].id < #[trigger] ms[j].id
    &&& forall|i: int| 0 <= i < ms.len() ==> 1 <= #[trigger] ms[i].id < next_id
    &&& nondecreasing(ms)
    &&& forall|i: int| 0 <= i < ms.len() ==> #[trigger] ms[i].created <= clock
}

/// A backend error, as the broken store and constraint violations yield.
fn backend_err(msg: &str) -> (r: DBError)
    ensures
        r matches DBError::Backend(_),
{
    DBError::Backend(String::from_str(msg))
}

/// Find the index of the video row with the given id.
fn find_video_idx(rows: &Vec<Video>, id: &str) -> (r: Option<usize>)
    ensures
        match r {
            Some(i) => i < rows@.len() && rows@[i as int].id@ == id@,
            None => !has_video(rows@, id@),
        },
{
    let mut i: usize = 0;
    while i < rows.len()
        invariant
            i <= rows@.len(),
            forall|j: int| 0 <= j < i ==> #[trigger] rows@[j].id@ != id@,
        decreases rows@.len() - i,
    {
        if crate::strutil::str_eq(rows[i].id.as_str(), id) {
            return Some(i);
        }
        i = i + 1;
    }
    None
}

impl Video {
    /// Insert a media file row.  Fails on a duplicate id, as the primary
    /// key constraint of the backing engine would.
    pub fn insert(cat: &mut Catalog, item: &VideoInsert) -> (r: DBResult<Video>)
        requires
            old(cat).wf(),
        ensures
            final(cat).wf(),
            final(cat).spec_broken() == old(cat).spec_broken(),
            old(cat).spec_broken() ==> (r matches Err(DBError::Backend(_))) && final(cat)@ == old(cat)@,
            !old(cat).spec_broken() && has_video(old(cat)@.videos, item.id@)
                ==> (r matches Err(DBError::Backend(_))) && final(cat)@ == old(cat)@,
            !old(cat).spec_broken() && !has_video(old(cat)@.videos, item.id@) ==> {
                &&& r matches Ok(v) && v == stamped_video(*item, old(cat)@.clock)
                &&& final(cat)@ == (CatalogState {
                    videos: old(cat)@.videos.push(stamped_video(*item, old(cat)@.clock)),
                    ..old(cat)@
                })
            },
    {
        if cat.broken {
            return Err(backend_err("catalog backend failure"));
        }
        if let Some(_) = find_video_idx(&cat.videos, item.id.as_str()) {
            return Err(backend_err("UNIQUE constraint failed: videos.id"));
        }
        let row = Video {
            id: item.id.clone(),
            user_id: crate::models::clone_opt_string(&item.user_id),
            user_name: crate::models::clone_opt_string(&item.user_name),
            added_time: cat.clock,
            recompression_done: item.recompression_done,
            thumb_sheet_cols: item.thumb_sheet_cols,
            thumb_sheet_rows: item.thumb_sheet_rows,
            orig_filename: crate::models::clone_opt_string(&item.orig_filename),
            title: crate::models::clone_opt_string(&item.title),
            total_frames: item.total_frames,
            duration_ms: item.duration_ms,
            fps: crate::models::clone_opt_string(&item.fps),
            raw_metadata_all: crate::models::clone_opt_string(&item.raw_metadata_all),
        };
        let out = row.clone();
        cat.videos.push(row);
        proof {
            let vs = old(cat)@.videos;
            let newvs = cat@.videos;
            assert forall|a: int, b: int| 0 <= a < b < newvs.len()
                implies #[trigger] newvs[a].id@ != #[trigger] newvs[b].id@ by {
                if b < vs.len() {
                    assert(newvs[a] == vs[a] && newvs[b] == vs[b]);
                    assert(vs[a].id@ != vs[b].id@);
                } else {
                    assert(newvs[a] == vs[a]);
                    assert(newvs[b].id@ == item.id@);
                    assert(vs[a].id@ != item.id@);
                }
            }
            assert forall|a: int, b: int| 0 <= a <= b < newvs.len()
                implies #[trigger] newvs[a].key() <= #[trigger] newvs[b].key() by {
                if b < vs.len() {
                    assert(newvs[a] == vs[a] && newvs[b] == vs[b]);
                } else if a < vs.len() {
                    assert(newvs[a] == vs[a]);
                    assert(vs[a].added_time <= old(cat)@.clock);
                }
            }
            assert forall|a: int| 0 <= a < newvs.len()
                implies #[trigger] newvs[a].added_time <= cat@.clock by {
                if a < vs.len() {
                    assert(newvs[a] == vs[a]);
                }
            }
        }
        Ok(out)
    }

    /// Get the video row with the given id; `NotFound` when absent.
    pub fn get(cat: &Catalog, id: &String) -> (r: DBResult<Video>)
        requires
            cat.wf(),
        ensures
            cat.spec_broken() ==> r matches Err(DBError::Backend(_)),
            !cat.spec_broken() ==> match r {
                Ok(v) => v.id@ == id@ && cat@.videos.contains(v),
                Err(e) => e == DBError::NotFound && !has_video(cat@.videos, id@),
            },
    {
        if cat.broken {
            return Err(backend_err("catalog backend failure"));
        }
        match find_video_idx(&cat.videos, id.as_str()) {
            Some(i) => {
                let v = cat.videos[i].clone();
                proof {
                    assert(cat@.videos.contains(cat@.videos[i as int]));
                }
                Ok(v)
            },
            None => Err(DBError::NotFound),
        }
    }

    /// Delete the video row with the given id.  Returns whether a row was
    /// deleted; comments and messages are left untouched.
    pub fn delete(cat: &mut Catalog, id: &String) -> (r: DBResult<bool>)
        requires
            old(cat).wf(),
        ensures
            final(cat).wf(),
            final(cat).spec_broken() == old(cat).spec_broken(),
            old(cat).spec_broken() ==> (r matches Err(DBError::Backend(_))) && final(cat)@ == old(cat)@,
            !old(cat).spec_broken() ==> match r {
                Ok(deleted) => {
                    &&& deleted == has_video(old(cat)@.videos, id@)
                    &&& if deleted {
                        exists|i: int| 0 <= i < old(cat)@.videos.len()
                            && old(cat)@.videos[i].id@ == id@
                            && final(cat)@ == (CatalogState {
                                videos: old(cat)@.videos.remove(i),
                                ..old(cat)@
                            })
                    } else {
                        final(cat)@ == old(cat)@
                    }
                },
                Err(_) => false,
            },
    {
        if cat.broken {
            return Err(backend_err("catalog backend failure"));
        }
        match find_video_idx(&cat.videos, id.as_str()) {
            Some(i) => {
                cat.videos.remove(i);
                proof {
                    let vs = old(cat)@.videos;
                    let newvs = cat@.videos;
                    assert(has_video(vs, id@));
                    assert forall|a: int, b: int| 0 <= a <= b < newvs.len()
                        implies #[trigger] newvs[a].key() <= #[trigger] newvs[b].key() by {
                        let a0 = if a < i as int { a } else { a + 1 };
                        let b0 = if b < i as int { b } else { b + 1 };
                        assert(newvs[a] == vs[a0] && newvs[b] == vs[b0]);
                    }
                    assert forall|a: int, b: int| 0 <= a < b < newvs.len()
                        implies #[trigger] newvs[a].id@ != #[trigger] newvs[b].id@ by {
                        let a0 = if a < i as int { a } else { a + 1 };
                        let b0 = if b < i as int { b } else { b + 1 };
                        assert(newvs[a] == vs[a0] && newvs[b] == vs[b0]);
                        assert(vs[a0].id@ != vs[b0].id@);
                    }
                    assert forall|a: int| 0 <= a < newvs.len()
                        implies #[trigger] newvs[a].added_time <= cat@.clock by {
                        let a0 = if a < i as int { a } else { a + 1 };
                        assert(newvs[a] == vs[a0]);
                    }
                }
                Ok(true)
            },
            None => Ok(false),
        }
    }
}

/// Newest-first copy of the video rows.
fn order_desc_videos(rows: &Vec<Video>) -> (r: Vec<Video>)
    requires
        nondecreasing(rows@),
    ensures
        r@ == ordered(rows@),
{
    let ghost s = rows@;
    let mut r: Vec<Video> = Vec::new();
    let mut n: usize = rows.len();
    proof {
        assert(ordered(s) =~= r@ + ordered_upto(s, n as int));
    }
    while n > 0
        invariant
            n <= s.len(),
            rows@ == s,
            nondecreasing(s),
            ordered(s) == r@ + ordered_upto(s, n as int),
        decreases n,
    {
        let mut k: usize = n - 1;
        while k > 0 && rows[k - 1].added_time == rows[n - 1].added_time
            invariant
                rows@ == s,
                0 < n <= s.len(),
                k <= n - 1,
                forall|j: int| k <= j <= n - 1 ==> #[trigger] s[j].key() == s[n - 1].key(),
            decreases k,
    {
            k = k - 1;
        }
        proof {
            lemma_run_start_unique(s, n as int - 1, k as int);
        }
        let ghost r0 = r@;
        let mut i: usize = k;
        while i < n
            invariant
                rows@ == s,
                k <= i <= n <= s.len(),
                r@ == r0 + s.subrange(k as int, i as int),
            decreases n - i,
        {
            proof {
                assert(r0 + s.subrange(k as int, i as int + 1)
                    =~= (r0 + s.subrange(k as int, i as int)).push(s[i as int]));
            }
            r.push(rows[i].clone());
            i = i + 1;
        }
        proof {
            assert(ordered_upto(s, n as int)
                == s.subrange(k as int, n as int) + ordered_upto(s, k as int));
            assert(r0 + ordered_upto(s, n as int)
                =~= (r0 + s.subrange(k as int, n as int)) + ordered_upto(s, k as int));
        }
        n = k;
    }
    proof {
        assert(ordered(s) =~= r@);
    }
    r
}

/// The rows of the page window `(off, lim)` of an ordered result.
fn page_videos(rows: &Vec<Video>, off: u64, lim: u64) -> (r: Vec<Video>)
    requires
        off + lim <= u64::MAX,
    ensures
        r@ == page_of(rows@, off as int, lim as int),
{
    let len = rows.len();
    let start: usize = if off >= len as u64 { len } else { off as usize };
    let end: usize = if off + lim >= len as u64 { len } else { (off + lim) as usize };
    let mut r: Vec<Video> = Vec::new();
    let mut i: usize = start;
    while i < end
        invariant
            start <= i <= end <= rows@.len(),
            r@ == rows@.subrange(start as int, i as int),
        decreases end - i,
    {
        proof {
            assert(rows@.subrange(start as int, i as int + 1)
                =~= rows@.subrange(start as int, i as int).push(rows@[i as int]));
        }
        r.push(rows[i].clone());
        i = i + 1;
    }
    proof {
        assert(r@ =~= page_of(rows@, off as int, lim as int));
    }
    r
}

/// The window `(offset, limit)` of a paging value fits in a `u64` sum.
proof fn lemma_paging_bounds(pg: DBPaging)
    ensures
        0 <= pg.page_num as int * pg.page_size as int,
        pg.page_num as int * pg.page_size as int + pg.page_size as int <= u64::MAX,
{
    let a = pg.page_num as int;
    let b = pg.page_size as int;
    assert(0 <= a * b && a * b + b <= 0xFFFF_FFFF * 0xFFFF_FFFF + 0xFFFF_FFFF) by (nonlinear_arith)
        requires 0 <= a <= 0xFFFF_FFFF && 0 <= b <= 0xFFFF_FFFF;
}

/// Video rows of one user, in stored order.
fn filter_videos_by_user(rows: &Vec<Video>, uid: &str) -> (r: Vec<Video>)
    ensures
        r@ == filter_by(rows@, video_user_pred(uid@)),
{
    let mut r: Vec<Video> = Vec::new();
    let mut i: usize = 0;
    proof {
        assert(rows@.subrange(0, 0) =~= Seq::<Video>::empty());
        assert(filter_by(rows@.subrange(0, 0), video_user_pred(uid@)) =~= r@);
    }
    while i < rows.len()
        invariant
            i <= rows@.len(),
            r@ == filter_by(rows@.subrange(0, i as int), video_user_pred(uid@)),
        decreases rows@.len() - i,
    {
        let m = match &rows[i].user_id {
            Some(u) => crate::strutil::str_eq(u.as_str(), uid),
            None => false,
        };
        proof {
            lemma_filter_step(rows@, video_user_pred(uid@), i as int);
            assert(video_user_pred(uid@)(rows@[i as int]) == m);
        }
        if m {
            r.push(rows[i].clone());
        }
        i = i + 1;
    }
    proof {
        assert(rows@.subrange(0, rows@.len() as int) =~= rows@);
    }
    r
}

impl Video {
    /// All video rows, newest first, windowed by `pg`.
    pub fn get_all(cat: &Catalog, pg: DBPaging) -> (r: DBResult<Vec<Video>>)
        requires
            cat.wf(),
            pg.wf(),
        ensures
            cat.spec_broken() ==> (r matches Err(DBError::Backend(_))),
            !cat.spec_broken() ==> (r matches Ok(rows) && rows@ == page_of(
                ordered(cat@.videos),
                pg.page_num as int * pg.page_size as int,
                pg.page_size as int,
            )),
    {
        if cat.broken {
            return Err(backend_err("catalog backend failure"));
        }
        proof {
            lemma_paging_bounds(pg);
        }
        let o = order_desc_videos(&cat.videos);
        Ok(page_videos(&o, pg.offset(), pg.limit()))
    }

    /// Video rows of one user, newest first, windowed by `pg`.
    pub fn get_by_user(cat: &Catalog, uid: &str, pg: DBPaging) -> (r: DBResult<Vec<Video>>)
        requires
            cat.wf(),
            pg.wf(),
        ensures
            cat.spec_broken() ==> (r matches Err(DBError::Backend(_))),
            !cat.spec_broken() ==> (r matches Ok(rows) && rows@ == page_of(
                ordered(filter_by(cat@.videos, video_user_pred(uid@))),
                pg.page_num as int * pg.page_size as int,
                pg.page_size as int,
            )),
    {
        if cat.broken {
            return Err(backend_err("catalog backend failure"));
        }
        proof {
            lemma_paging_bounds(pg);
            lemma_filter_nondecreasing(cat@.videos, video_user_pred(uid@));
        }
        let f = filter_videos_by_user(&cat.videos, uid);
        let o = order_desc_videos(&f);
        Ok(page_videos(&o, pg.offset(), pg.limit()))
    }

    /// Set the title of the video row with the given id.
    pub fn rename(cat: &mut Catalog, id: &str, new_name: &str) -> (r: EmptyDBResult)
        requires
            old(cat).wf(),
        ensures
            final(cat).wf(),
            final(cat).spec_broken() == old(cat).spec_broken(),
            old(cat).spec_broken() ==> (r matches Err(DBError::Backend(_))) && final(cat)@ == old(cat)@,
            !old(cat).spec_broken() && !has_video(old(cat)@.videos, id@)
                ==> r == Err::<(), DBError>(DBError::NotFound) && final(cat)@ == old(cat)@,
            !old(cat).spec_broken() && has_video(old(cat)@.videos, id@) ==> r is Ok
                && exists|i: int, t: String| 0 <= i < old(cat)@.videos.len()
                    && (#[trigger] old(cat)@.videos[i].id)@ == id@
                    && #[trigger] t@ == new_name@
                    && final(cat)@ == (CatalogState {
                        videos: old(cat)@.videos.update(i, Video {
                            title: Some(t),
                            ..old(cat)@.videos[i]
                        }),
                        ..old(cat)@
                    }),
    {
        if cat.broken {
            return Err(backend_err("catalog backend failure"));
        }
        match find_video_idx(&cat.videos, id) {
            Some(i) => {
                let mut row = cat.videos[i].clone();
                let t = String::from_str(new_name);
                row.title = Some(t);
                cat.videos.set(i, row);
                proof {
                    let vs = old(cat)@.videos;
                    let newvs = cat@.videos;
                    assert forall|a: int, b: int| 0 <= a <= b < newvs.len()
                        implies #[trigger] newvs[a].key() <= #[trigger] newvs[b].key() by {
                        assert(newvs[a].added_time == vs[a].added_time
                            && newvs[b].added_time == vs[b].added_time);
                        assert(vs[a].key() <= vs[b].key());
                    }
                    assert forall|a: int, b: int| 0 <= a < b < newvs.len()
                        implies #[trigger] newvs[a].id@ != #[trigger] newvs[b].id@ by {
                        assert(newvs[a].id == vs[a].id && newvs[b].id == vs[b].id);
                        assert(vs[a].id@ != vs[b].id@);
                    }
                    assert forall|a: int| 0 <= a < newvs.len()
                        implies #[trigger] newvs[a].added_time <= cat@.clock by {
                        assert(newvs[a].added_time == vs[a].added_time);
                    }
                }
                Ok(())
            },
            None => Err(DBError::NotFound),
        }
    }

    /// Record that the transcoded artifact of this video has been linked
    /// in, stamping the current clock.
    pub fn set_recompressed(cat: &mut Catalog, id: &str) -> (r: EmptyDBResult)
        requires
            old(cat).wf(),
        ensures
            final(cat).wf(),
            final(cat).spec_broken() == old(cat).spec_broken(),
            old(cat).spec_broken() ==> (r matches Err(DBError::Backend(_))) && final(cat)@ == old(cat)@,
            !old(cat).spec_broken() && !has_video(old(cat)@.videos, id@)
                ==> r == Err::<(), DBError>(DBError::NotFound) && final(cat)@ == old(cat)@,
            !old(cat).spec_broken() && has_video(old(cat)@.videos, id@) ==> r is Ok
                && exists|i: int| 0 <= i < old(cat)@.videos.len()
                    && old(cat)@.videos[i].id@ == id@
                    && final(cat)@ == (CatalogState {
                        videos: old(cat)@.videos.update(i, Video {
                            recompression_done: Some(old(cat)@.clock as i64),
                            ..old(cat)@.videos[i]
                        }),
                        ..old(cat)@
                    }),
    {
        if cat.broken {
            return Err(backend_err("catalog backend failure"));
        }
        match find_video_idx(&cat.videos, id) {
            Some(i) => {
                let mut row = cat.videos[i].clone();
                row.recompression_done = Some(cat.clock);
                cat.videos.set(i, row);
                proof {
                    let vs = old(cat)@.videos;
                    let newvs = cat@.videos;
                    assert forall|a: int, b: int| 0 <= a <= b < newvs.len()
                        implies #[trigger] newvs[a].key() <= #[trigger] newvs[b].key() by {
                        assert(newvs[a].added_time == vs[a].added_time
                            && newvs[b].added_time == vs[b].added_time);
                        assert(vs[a].key() <= vs[b].key());
                    }
                    assert forall|a: int, b: int| 0 <= a < b < newvs.len()
                        implies #[trigger] newvs[a].id@ != #[trigger] newvs[b].id@ by {
                        assert(newvs[a].id == vs[a].id && newvs[b].id == vs[b].id);
                        assert(vs[a].id@ != vs[b].id@);
                    }
                    assert forall|a: int| 0 <= a < newvs.len()
                        implies #[trigger] newvs[a].added_time <= cat@.clock by {
                        assert(newvs[a].added_time == vs[a].added_time);
                    }
                }
                Ok(())
            },
            None => Err(DBError::NotFound),
        }
    }
}

use crate::models::{Comment, CommentInsert, Message, MessageInsert};

/// There is a comment row with this id.
pub open spec fn has_comment(cs: Seq<Comment>, id: int) -> bool {
    exists|i: int| 0 <= i < cs.len() && #[trigger] cs[i].id == id
}

/// Some comment row replies to the given comment.
pub open spec fn has_reply(cs: Seq<Comment>, id: int) -> bool {
    exists|i: int| 0 <= i < cs.len() && #[trigger] cs[i].parent_id == Some(id as i32)
}

/// A comment insert's parent, when set, must resolve to an existing
/// comment of the same video.
pub open spec fn parent_ok_for_insert(cs: Seq<Comment>, item: CommentInsert) -> bool {
    match item.parent_id {
        Some(p) => exists|j: int| 0 <= j < cs.len()
            && #[trigger] cs[j].id == p && cs[j].video_id@ == item.video_id@,
        None => true,
    }
}

/// The user id stored for a comment insert: the submitter, or the
/// anonymous fallback.
pub open spec fn comment_uid_view(item: CommentInsert) -> Seq<char> {
    match item.user_id {
        Some(u) => u@,
        None => "anonymous"@,
    }
}

/// The comment row built from an insert payload with key `id` at clock
/// time `t`, storing `uid` as the submitter.
pub open spec fn stamped_comment(item: CommentInsert, uid: String, id: int, t: int) -> Comment {
    Comment {
        id: id as i32,
        video_id: item.video_id,
        parent_id: item.parent_id,
        created: t as i64,
        edited: None,
        user_id: uid,
        user_name: item.username_ifnull,
        comment: item.comment,
        timecode: item.timecode,
        drawing: item.drawing,
    }
}

/// Comment rows attached to the given video.
pub open spec fn comment_video_pred(vid: Seq<char>) -> spec_fn(Comment) -> bool {
    |c: Comment| c.video_id@ == vid
}

/// Message rows addressed to the given user.
pub open spec fn message_user_pred(uid: Seq<char>) -> spec_fn(Message) -> bool {
    |m: Message| m.user_id@ == uid
}

/// There is a message row with this id.
pub open spec fn has_message(ms: Seq<Message>, id: int) -> bool {
    exists|i: int| 0 <= i < ms.len() && #[trigger] ms[i].id == id
}

/// The message row built from an insert payload with key `id` at clock
/// time `t`.
pub open spec fn stamped_message(item: MessageInsert, id: int, t: int) -> Message {
    Message {
        id: id as i32,
        user_id: item.user_id,
        created: t as i64,
        seen: item.seen,
        video_id: item.video_id,
        comment_id: item.comment_id,
        event_name: item.event_name,
        message: item.message,
        details: item.details,
    }
}

/// Find the index of the comment row with the given id.
fn find_comment_idx(rows: &Vec<Comment>, id: i32) -> (r: Option<usize>)
    ensures
        match r {
            Some(i) => i < rows@.len() && rows@[i as int].id == id,
            None => !has_comment(rows@, id as int),
        },
{
    let mut i: usize = 0;
    while i < rows.len()
        invariant
            i <= rows@.len(),
            forall|j: int| 0 <= j < i ==> #[trigger] rows@[j].id != id,
        decreases rows@.len() - i,
    {
        if rows[i].id == id {
            return Some(i);
        }
        i = i + 1;
    }
    None
}

/// Find the index of the message row with the given id.
fn find_message_idx(rows: &Vec<Message>, id: i32) -> (r: Option<usize>)
    ensures
        match r {
            Some(i) => i < rows@.len() && rows@[i as int].id == id,
            None => !has_message(rows@, id as int),
        },
{
    let mut i: usize = 0;
    while i < rows.len()
        invariant
            i <= rows@.len(),
            forall|j: int| 0 <= j < i ==> #[trigger] rows@[j].id != id,
        decreases rows@.len() - i,
    {
        if rows[i].id == id {
            return Some(i);
        }
        i = i + 1;
    }
    None
}

/// Newest-first copy of the comment rows.
fn order_desc_comments(rows: &Vec<Comment>) -> (r: Vec<Comment>)
    requires
        nondecreasing(rows@),
    ensures
        r@ == ordered(rows@),
{
    let ghost s = rows@;
    let mut r: Vec<Comment> = Vec::new();
    let mut n: usize = rows.len();
    proof {
        assert(ordered(s) =~= r@ + ordered_upto(s, n as int));
    }
    while n > 0
        invariant
            n <= s.len(),
            rows@ == s,
            nondecreasing(s),
            ordered(s) == r@ + ordered_upto(s, n as int),
        decreases n,
    {
        let mut k: usize = n - 1;
        while k > 0 && rows[k - 1].created == rows[n - 1].created
            invariant
                rows@ == s,
                0 < n <= s.len(),
                k <= n - 1,
                forall|j: int| k <= j <= n - 1 ==> #[trigger] s[j].key() == s[n - 1].key(),
            decreases k,
        {
            k = k - 1;
        }
        proof {
            lemma_run_start_unique(s, n as int - 1, k as int);
        }
        let ghost r0 = r@;
        let mut i: usize = k;
        while i < n
            invariant
                rows@ == s,
                k <= i <= n <= s.len(),
                r@ == r0 + s.subrange(k as int, i as int),
            decreases n - i,
        {
            proof {
                assert(r0 + s.subrange(k as int, i as int + 1)
                    =~= (r0 + s.subrange(k as int, i as int)).push(s[i as int]));
            }
            r.push(rows[i].clone());
            i = i + 1;
        }
        proof {
            assert(ordered_upto(s, n as int)
                == s.subrange(k as int, n as int) + ordered_upto(s, k as int));
            assert(r0 + ordered_upto(s, n as int)
                =~= (r0 + s.subrange(k as int, n as int)) + ordered_upto(s, k as int));
        }
        n = k;
    }
    proof {
        assert(ordered(s) =~= r@);
    }
    r
}

/// Newest-first copy of the message rows.
fn order_desc_messages(rows: &Vec<Message>) -> (r: Vec<Message>)
    requires
        nondecreasing(rows@),
    ensures
        r@ == ordered(rows@),
{
    let ghost s = rows@;
    let mut r: Vec<Message> = Vec::new();
    let mut n: usize = rows.len();
    proof {
        assert(ordered(s) =~= r@ + ordered_upto(s, n as int));
    }
    while n > 0
        invariant
            n <= s.len(),
            rows@ == s,
            nondecreasing(s),
            ordered(s) == r@ + ordered_upto(s, n as int),
        decreases n,
    {
        let mut k: usize = n - 1;
        while k > 0 && rows[k - 1].created == rows[n - 1].created
            invariant
                rows@ == s,
                0 < n <= s.len(),
                k <= n - 1,
                forall|j: int| k <= j <= n - 1 ==> #[trigger] s[j].key() == s[n - 1].key(),
            decreases k,
        {
            k = k - 1;
        }
        proof {
            lemma_run_start_unique(s, n as int - 1, k as int);
        }
        let ghost r0 = r@;
        let mut i: usize = k;
        while i < n
            invariant
                rows@ == s,
                k <= i <= n <= s.len(),
                r@ == r0 + s.subrange(k as int, i as int),
            decreases n - i,
        {
            proof {
                assert(r0 + s.subrange(k as int, i as int + 1)
                    =~= (r0 + s.subrange(k as int, i as int)).push(s[i as int]));
            }
            r.push(rows[i].clone());
            i = i + 1;
        }
        proof {
            assert(ordered_upto(s, n as int)
                == s.subrange(k as int, n as int) + ordered_upto(s, k as int));
            assert(r0 + ordered_upto(s, n as int)
                =~= (r0 + s.subrange(k as int, n as int)) + ordered_upto(s, k as int));
        }
        n = k;
    }
    proof {
        assert(ordered(s) =~= r@);
    }
    r
}

/// The rows of the page window `(off, lim)` of an ordered comment result.
fn page_comments(rows: &Vec<Comment>, off: u64, lim: u64) -> (r: Vec<Comment>)
    requires
        off + lim <= u64::MAX,
    ensures
        r@ == page_of(rows@, off as int, lim as int),
{
    let len = rows.len();
    let start: usize = if off >= len as u64 { len } else { off as usize };
    let end: usize = if off + lim >= len as u64 { len } else { (off + lim) as usize };
    let mut r: Vec<Comment> = Vec::new();
    let mut i: usize = start;
    while i < end
        invariant
            start <= i <= end <= rows@.len(),
            r@ == rows@.subrange(start as int, i as int),
        decreases end - i,
    {
        proof {
            assert(rows@.subrange(start as int, i as int + 1)
                =~= rows@.subrange(start as int, i as int).push(rows@[i as int]));
        }
        r.push(rows[i].clone());
        i = i + 1;
    }
    proof {
        assert(r@ =~= page_of(rows@, off as int, lim as int));
    }
    r
}

/// The rows of the page window `(off, lim)` of an ordered message result.
fn page_messages(rows: &Vec<Message>, off: u64, lim: u64) -> (r: Vec<Message>)
    requires
        off + lim <= u64::MAX,
    ensures
        r@ == page_of(rows@, off as int, lim as int),
{
    let len = rows.len();
    let start: usize = if off >= len as u64 { len } else { off as usize };
    let end: usize = if off + lim >= len as u64 { len } else { (off + lim) as usize };
    let mut r: Vec<Message> = Vec::new();
    let mut i: usize = start;
    while i < end
        invariant
            start <= i <= end <= rows@.len(),
            r@ == rows@.subrange(start as int, i as int),
        decreases end - i,
    {
        proof {
            assert(rows@.subrange(start as int, i as int + 1)
                =~= rows@.subrange(start as int, i as int).push(rows@[i as int]));
        }
        r.push(rows[i].clone());
        i = i + 1;
    }
    proof {
        assert(r@ =~= page_of(rows@, off as int, lim as int));
    }
    r
}

/// Comment rows of one video, in stored order.
fn filter_comments_by_video(rows: &Vec<Comment>, vid: &str) -> (r: Vec<Comment>)
    ensures
        r@ == filter_by(rows@, comment_video_pred(vid@)),
{
    let mut r: Vec<Comment> = Vec::new();
    let mut i: usize = 0;
    proof {
        assert(rows@.subrange(0, 0) =~= Seq::<Comment>::empty());
        assert(filter_by(rows@.subrange(0, 0), comment_video_pred(vid@)) =~= r@);
    }
    while i < rows.len()
        invariant
            i <= rows@.len(),
            r@ == filter_by(rows@.subrange(0, i as int), comment_video_pred(vid@)),
        decreases rows@.len() - i,
    {
        let m = crate::strutil::str_eq(rows[i].video_id.as_str(), vid);
        proof {
            lemma_filter_step(rows@, comment_video_pred(vid@), i as int);
            assert(comment_video_pred(vid@)(rows@[i as int]) == m);
        }
        if m {
            r.push(rows[i].clone());
        }
        i = i + 1;
    }
    proof {
        assert(rows@.subrange(0, rows@.len() as int) =~= rows@);
    }
    r
}

/// Message rows of one user, in stored order.
fn filter_messages_by_user(rows: &Vec<Message>, uid: &str) -> (r: Vec<Message>)
    ensures
        r@ == filter_by(rows@, message_user_pred(uid@)),
{
    let mut r: Vec<Message> = Vec::new();
    let mut i: usize = 0;
    proof {
        assert(rows@.subrange(0, 0) =~= Seq::<Message>::empty());
        assert(filter_by(rows@.subrange(0, 0), message_user_pred(uid@)) =~= r@);
    }
    while i < rows.len()
        invariant
            i <= rows@.len(),
            r@ == filter_by(rows@.subrange(0, i as int), message_user_pred(uid@)),
        decreases rows@.len() - i,
    {
        let m = crate::strutil::str_eq(rows[i].user_id.as_str(), uid);
        proof {
            lemma_filter_step(rows@, message_user_pred(uid@), i as int);
            assert(message_user_pred(uid@)(rows@[i as int]) == m);
        }
        if m {
            r.push(rows[i].clone());
        }
        i = i + 1;
    }
    proof {
        assert(rows@.subrange(0, rows@.len() as int) =~= rows@);
    }
    r
}

/// An error of the `Other` class.
fn other_err(msg: &str) -> (r: DBError)
    ensures
        r matches DBError::Other(_),
{
    DBError::Other(String::from_str(msg))
}

impl Comment {
    /// Insert a comment.  The key is allocated from the monotonic
    /// counter; the media file must exist, and a set parent must resolve
    /// to an existing comment of the same video, as the foreign key
    /// constraints of the backing engine enforce.
    pub fn insert(cat: &mut Catalog, item: &CommentInsert) -> (r: DBResult<Comment>)
        requires
            old(cat).wf(),
        ensures
            final(cat).wf(),
            final(cat).spec_broken() == old(cat).spec_broken(),
            old(cat).spec_broken() ==> (r matches Err(DBError::Backend(_))) && final(cat)@ == old(cat)@,
            !old(cat).spec_broken() && !has_video(old(cat)@.videos, item.video_id@)
                ==> (r matches Err(DBError::Backend(_))) && final(cat)@ == old(cat)@,
            !old(cat).spec_broken() && has_video(old(cat)@.videos, item.video_id@)
                && !parent_ok_for_insert(old(cat)@.comments, *item)
                ==> (r matches Err(DBError::Backend(_))) && final(cat)@ == old(cat)@,
            !old(cat).spec_broken() && has_video(old(cat)@.videos, item.video_id@)
                && parent_ok_for_insert(old(cat)@.comments, *item)
                && old(cat)@.next_comment_id == i32::MAX
                ==> (r matches Err(DBError::Other(_))) && final(cat)@ == old(cat)@,
            !old(cat).spec_broken() && has_video(old(cat)@.videos, item.video_id@)
                && parent_ok_for_insert(old(cat)@.comments, *item)
                && old(cat)@.next_comment_id < i32::MAX
                ==> (r matches Ok(c)
                    && c.user_id@ == comment_uid_view(*item)
                    && c == stamped_comment(*item, c.user_id, old(cat)@.next_comment_id, old(cat)@.clock)
                    && final(cat)@ == (CatalogState {
                        comments: old(cat)@.comments.push(c),
                        next_comment_id: old(cat)@.next_comment_id + 1,
                        ..old(cat)@
                    })),
    {
        if cat.broken {
            return Err(backend_err("catalog backend failure"));
        }
        if find_video_idx(&cat.videos, item.video_id.as_str()).is_none() {
            return Err(backend_err("FOREIGN KEY constraint failed"));
        }
        let ghost cs = cat@.comments;
        if let Some(p) = item.parent_id {
            match find_comment_idx(&cat.comments, p) {
                None => {
                    return Err(backend_err("FOREIGN KEY constraint failed"));
                },
                Some(j) => {
                    if !crate::strutil::str_eq(
                        cat.comments[j].video_id.as_str(),
                        item.video_id.as_str(),
                    ) {
                        proof {
                            assert forall|j2: int|
                                0 <= j2 < cs.len() && cs[j2].id == p
                                implies cs[j2].video_id@ != item.video_id@ by {
                                if j2 < j as int {
                                    assert(cs[j2].id < cs[j as int].id);
                                } else if j2 > j as int {
                                    assert(cs[j as int].id < cs[j2].id);
                                }
                            }
                        }
                        return Err(backend_err("FOREIGN KEY constraint failed"));
                    }
                },
            }
        }
        if cat.next_comment_id == i32::MAX {
            return Err(other_err("comment id space exhausted"));
        }
        let id = cat.next_comment_id;
        cat.next_comment_id = id + 1;
        let uid = match &item.user_id {
            Some(u) => u.clone(),
            None => String::from_str("anonymous"),
        };
        let row = Comment {
            id,
            video_id: item.video_id.clone(),
            parent_id: item.parent_id,
            created: cat.clock,
            edited: None,
            user_id: uid,
            user_name: item.username_ifnull.clone(),
            comment: item.comment.clone(),
            timecode: crate::models::clone_opt_string(&item.timecode),
            drawing: crate::models::clone_opt_string(&item.drawing),
        };
        let out = row.clone();
        cat.comments.push(row);
        proof {
            let newcs = cat@.comments;
            assert forall|i: int| 0 <= i < newcs.len() implies match #[trigger] newcs[i].parent_id {
                Some(q) => q < newcs[i].id && exists|j: int|
                    0 <= j < newcs.len() && #[trigger] newcs[j].id == q
                        && newcs[j].video_id@ == newcs[i].video_id@,
                None => true,
            } by {
                if i < cs.len() {
                    assert(newcs[i] == cs[i]);
                    match cs[i].parent_id {
                        Some(q) => {
                            let j = choose|j: int| 0 <= j < cs.len()
                                && #[trigger] cs[j].id == q && cs[j].video_id@ == cs[i].video_id@;
                            assert(newcs[j].id == q && newcs[j].video_id@ == newcs[i].video_id@);
                        },
                        None => {},
                    }
                } else {
                    match newcs[i].parent_id {
                        Some(q) => {
                            let j = choose|j: int| 0 <= j < cs.len()
                                && #[trigger] cs[j].id == q && cs[j].video_id@ == item.video_id@;
                            assert(newcs[j].id == q && newcs[j].video_id@ == newcs[i].video_id@);
                        },
                        None => {},
                    }
                }
            }
        }
        Ok(out)
    }

    /// Get the comment with the given key; `NotFound` when absent.
    pub fn get(cat: &Catalog, id: &i32) -> (r: DBResult<Comment>)
        requires
            cat.wf(),
        ensures
            cat.spec_broken() ==> (r matches Err(DBError::Backend(_))),
            !cat.spec_broken() ==> match r {
                Ok(c) => c.id == *id && cat@.comments.contains(c),
                Err(e) => e == DBError::NotFound && !has_comment(cat@.comments, *id as int),
            },
    {
        if cat.broken {
            return Err(backend_err("catalog backend failure"));
        }
        match find_comment_idx(&cat.comments, *id) {
            Some(i) => {
                let c = cat.comments[i].clone();
                proof {
                    assert(cat@.comments.contains(cat@.comments[i as int]));
                }
                Ok(c)
            },
            None => Err(DBError::NotFound),
        }
    }

    /// All comments, newest first, windowed by `pg`.
    pub fn get_all(cat: &Catalog, pg: DBPaging) -> (r: DBResult<Vec<Comment>>)
        requires
            cat.wf(),
            pg.wf(),
        ensures
            cat.spec_broken() ==> (r matches Err(DBError::Backend(_))),
            !cat.spec_broken() ==> (r matches Ok(rows) && rows@ == page_of(
                ordered(cat@.comments),
                pg.page_num as int * pg.page_size as int,
                pg.page_size as int,
            )),
    {
        if cat.broken {
            return Err(backend_err("catalog backend failure"));
        }
        proof {
            lemma_paging_bounds(pg);
        }
        let o = order_desc_comments(&cat.comments);
        Ok(page_comments(&o, pg.offset(), pg.limit()))
    }

    /// Comments of one video, newest first, windowed by `pg`.
    pub fn get_by_video(cat: &Catalog, vid: &str, pg: DBPaging) -> (r: DBResult<Vec<Comment>>)
        requires
            cat.wf(),
            pg.wf(),
        ensures
            cat.spec_broken() ==> (r matches Err(DBError::Backend(_))),
            !cat.spec_broken() ==> (r matches Ok(rows) && rows@ == page_of(
                ordered(filter_by(cat@.comments, comment_video_pred(vid@))),
                pg.page_num as int * pg.page_size as int,
                pg.page_size as int,
            )),
    {
        if cat.broken {
            return Err(backend_err("catalog backend failure"));
        }
        proof {
            lemma_paging_bounds(pg);
            lemma_filter_nondecreasing(cat@.comments, comment_video_pred(vid@));
        }
        let f = filter_comments_by_video(&cat.comments, vid);
        let o = order_desc_comments(&f);
        Ok(page_comments(&o, pg.offset(), pg.limit()))
    }

    /// Delete the comment with the given key.  A comment that still has
    /// replies cannot be deleted, as the foreign key constraint of the
    /// backing engine enforces.  Returns whether a row was deleted.
    pub fn delete(cat: &mut Catalog, id: &i32) -> (r: DBResult<bool>)
        requires
            old(cat).wf(),
        ensures
            final(cat).wf(),
            final(cat).spec_broken() == old(cat).spec_broken(),
            old(cat).spec_broken() ==> (r matches Err(DBError::Backend(_))) && final(cat)@ == old(cat)@,
            !old(cat).spec_broken() && has_comment(old(cat)@.comments, *id as int)
                && has_reply(old(cat)@.comments, *id as int)
                ==> (r matches Err(DBError::Backend(_))) && final(cat)@ == old(cat)@,
            !old(cat).spec_broken() && !has_comment(old(cat)@.comments, *id as int)
                ==> r == Ok::<bool, DBError>(false) && final(cat)@ == old(cat)@,
            !old(cat).spec_broken() && has_comment(old(cat)@.comments, *id as int)
                && !has_reply(old(cat)@.comments, *id as int)
                ==> r == Ok::<bool, DBError>(true)
                    && exists|i: int| 0 <= i < old(cat)@.comments.len()
                        && #[trigger] old(cat)@.comments[i].id == *id
                        && final(cat)@ == (CatalogState {
                            comments: old(cat)@.comments.remove(i),
                            ..old(cat)@
                        }),
    {
        if cat.broken {
            return Err(backend_err("catalog backend failure"));
        }
        let ghost cs = cat@.comments;
        match find_comment_idx(&cat.comments, *id) {
            None => Ok(false),
            Some(i) => {
                // Refuse while replies reference this comment.
                let mut j: usize = 0;
                while j < cat.comments.len()
                    invariant
                        *cat == *old(cat),
                        old(cat).wf(),
                        cat@.comments == cs,
                        i < cs.len() && cs[i as int].id == *id,
                        j <= cs.len(),
                        forall|a: int| 0 <= a < j ==> #[trigger] cs[a].parent_id != Some(*id),
                    decreases cs.len() - j,
                {
                    let is_reply = match cat.comments[j].parent_id {
                        Some(q) => q == *id,
                        None => false,
                    };
                    if is_reply {
                        return Err(backend_err("FOREIGN KEY constraint failed"));
                    }
                    j = j + 1;
                }
                assert(!has_reply(cs, *id as int));
                cat.comments.remove(i);
                proof {
                    let newcs = cat@.comments;
                    assert forall|a: int, b: int| 0 <= a <= b < newcs.len()
                        implies #[trigger] newcs[a].key() <= #[trigger] newcs[b].key()
                            && (a < b ==> newcs[a].id < newcs[b].id) by {
                        let a0 = if a < i as int { a } else { a + 1 };
                        let b0 = if b < i as int { b } else { b + 1 };
                        assert(newcs[a] == cs[a0] && newcs[b] == cs[b0]);
                    }
                    assert forall|a: int| 0 <= a < newcs.len()
                        implies match #[trigger] newcs[a].parent_id {
                            Some(q) => q < newcs[a].id && exists|w: int|
                                0 <= w < newcs.len() && #[trigger] newcs[w].id == q
                                    && newcs[w].video_id@ == newcs[a].video_id@,
                            None => true,
                        } by {
                        let a0 = if a < i as int { a } else { a + 1 };
                        assert(newcs[a] == cs[a0]);
                        match cs[a0].parent_id {
                            Some(q) => {
                                let w0 = choose|w0: int| 0 <= w0 < cs.len()
                                    && #[trigger] cs[w0].id == q
                                    && cs[w0].video_id@ == cs[a0].video_id@;
                                // The witness is not the removed row: nothing
                                // replies to the removed comment.
                                assert(cs[a0].parent_id != Some(*id));
                                assert(q != *id as int);
                                assert(w0 != i as int);
                                let w = if w0 < i as int { w0 } else { w0 - 1 };
                                assert(newcs[w] == cs[w0]);
                                assert(newcs[w].id == q && newcs[w].video_id@ == newcs[a].video_id@);
                            },
                            None => {},
                        }
                    }
                }
                Ok(true)
            },
        }
    }

    /// Replace the text of a comment, stamping the edit time.
    pub fn edit(cat: &mut Catalog, id: i32, new_text: &str) -> (r: EmptyDBResult)
        requires
            old(cat).wf(),
        ensures
            final(cat).wf(),
            final(cat).spec_broken() == old(cat).spec_broken(),
            old(cat).spec_broken() ==> (r matches Err(DBError::Backend(_))) && final(cat)@ == old(cat)@,
            !old(cat).spec_broken() && !has_comment(old(cat)@.comments, id as int)
                ==> r == Err::<(), DBError>(DBError::NotFound) && final(cat)@ == old(cat)@,
            !old(cat).spec_broken() && has_comment(old(cat)@.comments, id as int) ==> r is Ok
                && exists|i: int, t: String| 0 <= i < old(cat)@.comments.len()
                    && (#[trigger] old(cat)@.comments[i].id) == id
                    && #[trigger] t@ == new_text@
                    && final(cat)@ == (CatalogState {
                        comments: old(cat)@.comments.update(i, Comment {
                            comment: t,
                            edited: Some(old(cat)@.clock as i64),
                            ..old(cat)@.comments[i]
                        }),
                        ..old(cat)@
                    }),
    {
        if cat.broken {
            return Err(backend_err("catalog backend failure"));
        }
        let ghost cs = cat@.comments;
        match find_comment_idx(&cat.comments, id) {
            None => Err(DBError::NotFound),
            Some(i) => {
                let mut row = cat.comments[i].clone();
                row.comment = String::from_str(new_text);
                row.edited = Some(cat.clock);
                cat.comments.set(i, row);
                proof {
                    let newcs = cat@.comments;
                    assert(forall|a: int| 0 <= a < newcs.len()
                        ==> #[trigger] newcs[a].id == cs[a].id
                            && newcs[a].parent_id == cs[a].parent_id
                            && newcs[a].video_id == cs[a].video_id
                            && newcs[a].created == cs[a].created);
                    assert forall|a: int, b: int| 0 <= a <= b < newcs.len()
                        implies #[trigger] newcs[a].key() <= #[trigger] newcs[b].key()
                            && (a < b ==> newcs[a].id < newcs[b].id) by {
                        assert(cs[a].key() <= cs[b].key());
                        if a < b {
                            assert(cs[a].id < cs[b].id);
                        }
                    }
                    assert forall|a: int| 0 <= a < newcs.len()
                        implies match #[trigger] newcs[a].parent_id {
                            Some(q) => q < newcs[a].id && exists|w: int|
                                0 <= w < newcs.len() && #[trigger] newcs[w].id == q
                                    && newcs[w].video_id@ == newcs[a].video_id@,
                            None => true,
                        } by {
                        match newcs[a].parent_id {
                            Some(q) => {
                                let w = choose|w: int| 0 <= w < cs.len()
                                    && #[trigger] cs[w].id == q
                                    && cs[w].video_id@ == cs[a].video_id@;
                                assert(newcs[w].id == q && newcs[w].video_id@ == newcs[a].video_id@);
                            },
                            None => {},
                        }
                    }
                }
                Ok(())
            },
        }
    }
}

impl Message {
    /// Insert a user message.  The key is allocated from the monotonic
    /// counter and the creation time is stamped from the clock.
    pub fn insert(cat: &mut Catalog, item: &MessageInsert) -> (r: DBResult<Message>)
        requires
            old(cat).wf(),
        ensures
            final(cat).wf(),
            final(cat).spec_broken() == old(cat).spec_broken(),
            old(cat).spec_broken() ==> (r matches Err(DBError::Backend(_))) && final(cat)@ == old(cat)@,
            !old(cat).spec_broken() && old(cat)@.next_message_id == i32::MAX
                ==> (r matches Err(DBError::Other(_))) && final(cat)@ == old(cat)@,
            !old(cat).spec_broken() && old(cat)@.next_message_id < i32::MAX
                ==> (r matches Ok(m)
                    && m == stamped_message(*item, old(cat)@.next_message_id, old(cat)@.clock)
                    && final(cat)@ == (CatalogState {
                        messages: old(cat)@.messages.push(m),
                        next_message_id: old(cat)@.next_message_id + 1,
                        ..old(cat)@
                    })),
    {
        if cat.broken {
            return Err(backend_err("catalog backend failure"));
        }
        if cat.next_message_id == i32::MAX {
            return Err(other_err("message id space exhausted"));
        }
        let id = cat.next_message_id;
        cat.next_message_id = id + 1;
        let row = Message {
            id,
            user_id: item.user_id.clone(),
            created: cat.clock,
            seen: item.seen,
            video_id: crate::models::clone_opt_string(&item.video_id),
            comment_id: item.comment_id,
            event_name: item.event_name.clone(),
            message: item.message.clone(),
            details: item.details.clone(),
        };
        let out = row.clone();
        cat.messages.push(row);
        Ok(out)
    }

    /// Get the message with the given key; `NotFound` when absent.
    pub fn get(cat: &Catalog, id: &i32) -> (r: DBResult<Message>)
        requires
            cat.wf(),
        ensures
            cat.spec_broken() ==> (r matches Err(DBError::Backend(_))),
            !cat.spec_broken() ==> match r {
                Ok(m) => m.id == *id && cat@.messages.contains(m),
                Err(e) => e == DBError::NotFound && !has_message(cat@.messages, *id as int),
            },
    {
        if cat.broken {
            return Err(backend_err("catalog backend failure"));
        }
        match find_message_idx(&cat.messages, *id) {
            Some(i) => {
                let m = cat.messages[i].clone();
                proof {
                    assert(cat@.messages.contains(cat@.messages[i as int]));
                }
                Ok(m)
            },
            None => Err(DBError::NotFound),
        }
    }

    /// All messages, newest first, windowed by `pg`.
    pub fn get_all(cat: &Catalog, pg: DBPaging) -> (r: DBResult<Vec<Message>>)
        requires
            cat.wf(),
            pg.wf(),
        ensures
            cat.spec_broken() ==> (r matches Err(DBError::Backend(_))),
            !cat.spec_broken() ==> (r matches Ok(rows) && rows@ == page_of(
                ordered(cat@.messages),
                pg.page_num as int * pg.page_size as int,
                pg.page_size as int,
            )),
    {
        if cat.broken {
            return Err(backend_err("catalog backend failure"));
        }
        proof {
            lemma_paging_bounds(pg);
        }
        let o = order_desc_messages(&cat.messages);
        Ok(page_messages(&o, pg.offset(), pg.limit()))
    }

    /// Messages addressed to one user, newest first, windowed by `pg`.
    pub fn get_by_user(cat: &Catalog, uid: &str, pg: DBPaging) -> (r: DBResult<Vec<Message>>)
        requires
            cat.wf(),
            pg.wf(),
        ensures
            cat.spec_broken() ==> (r matches Err(DBError::Backend(_))),
            !cat.spec_broken() ==> (r matches Ok(rows) && rows@ == page_of(
                ordered(filter_by(cat@.messages, message_user_pred(uid@))),
                pg.page_num as int * pg.page_size as int,
                pg.page_size as int,
            )),
    {
        if cat.broken {
            return Err(backend_err("catalog backend failure"));
        }
        proof {
            lemma_paging_bounds(pg);
            lemma_filter_nondecreasing(cat@.messages, message_user_pred(uid@));
        }
        let f = filter_messages_by_user(&cat.messages, uid);
        let o = order_desc_messages(&f);
        Ok(page_messages(&o, pg.offset(), pg.limit()))
    }

    /// Delete the message with the given key.  Returns whether a row was
    /// deleted.
    pub fn delete(cat: &mut Catalog, id: &i32) -> (r: DBResult<bool>)
        requires
            old(cat).wf(),
        ensures
            final(cat).wf(),
            final(cat).spec_broken() == old(cat).spec_broken(),
            old(cat).spec_broken() ==> (r matches Err(DBError::Backend(_))) && final(cat)@ == old(cat)@,
            !old(cat).spec_broken() ==> match r {
                Ok(deleted) => {
                    &&& deleted == has_message(old(cat)@.messages, *id as int)
                    &&& if deleted {
                        exists|i: int| 0 <= i < old(cat)@.messages.len()
                            && #[trigger] old(cat)@.messages[i].id == *id
                            && final(cat)@ == (CatalogState {
                                messages: old(cat)@.messages.remove(i),
                                ..old(cat)@
                            })
                    } else {
                        final(cat)@ == old(cat)@
                    }
                },
                Err(_) => false,
            },
    {
        if cat.broken {
            return Err(backend_err("catalog backend failure"));
        }
        let ghost ms = cat@.messages;
        match find_message_idx(&cat.messages, *id) {
            None => Ok(false),
            Some(i) => {
                cat.messages.remove(i);
                proof {
                    let newms = cat@.messages;
                    assert forall|a: int, b: int| 0 <= a <= b < newms.len()
                        implies #[trigger] newms[a].key() <= #[trigger] newms[b].key()
                            && (a < b ==> newms[a].id < newms[b].id) by {
                        let a0 = if a < i as int { a } else { a + 1 };
                        let b0 = if b < i as int { b } else { b + 1 };
                        assert(newms[a] == ms[a0] && newms[b] == ms[b0]);
                    }
                }
                Ok(true)
            },
        }
    }

    /// Set or clear the seen flag of a message.
    pub fn set_seen(cat: &mut Catalog, id: i32, seen: bool) -> (r: EmptyDBResult)
        requires
            old(cat).wf(),
        ensures
            final(cat).wf(),
            final(cat).spec_broken() == old(cat).spec_broken(),
            old(cat).spec_broken() ==> (r matches Err(DBError::Backend(_))) && final(cat)@ == old(cat)@,
            !old(cat).spec_broken() && !has_message(old(cat)@.messages, id as int)
                ==> r == Err::<(), DBError>(DBError::NotFound) && final(cat)@ == old(cat)@,
            !old(cat).spec_broken() && has_message(old(cat)@.messages, id as int) ==> r is Ok
                && exists|i: int| 0 <= i < old(cat)@.messages.len()
                    && (#[trigger] old(cat)@.messages[i].id) == id
                    && final(cat)@ == (CatalogState {
                        messages: old(cat)@.messages.update(i, Message {
                            seen: seen,
                            ..old(cat)@.messages[i]
                        }),
                        ..old(cat)@
                    }),
    {
        if cat.broken {
            return Err(backend_err("catalog backend failure"));
        }
        let ghost ms = cat@.messages;
        match find_message_idx(&cat.messages, id) {
            None => Err(DBError::NotFound),
            Some(i) => {
                let mut row = cat.messages[i].clone();
                row.seen = seen;
                cat.messages.set(i, row);
                proof {
                    let newms = cat@.messages;
                    assert forall|a: int, b: int| 0 <= a <= b < newms.len()
                        implies #[trigger] newms[a].key() <= #[trigger] newms[b].key()
                            && (a < b ==> newms[a].id < newms[b].id) by {
                        assert(ms[a].key() <= ms[b].key());
                        if a < b {
                            assert(ms[a].id < ms[b].id);
                        }
                    }
                }
                Ok(())
            },
        }
    }
}

/// Comment rows attached to any other video than the given one.
pub open spec fn comment_other_video_pred(vid: Seq<char>) -> spec_fn(Comment) -> bool {
    |c: Comment| c.video_id@ != vid
}

/// Filtering keeps comment ids strictly increasing.
proof fn lemma_filter_comment_ids(cs: Seq<Comment>, pred: spec_fn(Comment) -> bool)
    requires
        forall|i: int, j: int| 0 <= i < j < cs.len() ==> #[trigger] cs[i].id < #[trigger] cs[j].id,
    ensures
        forall|i: int, j: int| 0 <= i < j < filter_by(cs, pred).len()
            ==> #[trigger] filter_by(cs, pred)[i].id < #[trigger] filter_by(cs, pred)[j].id,
    decreases cs.len(),
{
    if cs.len() > 0 {
        let d = cs.drop_last();
        assert(forall|i: int, j: int| 0 <= i < j < d.len()
            ==> #[trigger] d[i].id < #[trigger] d[j].id);
        lemma_filter_comment_ids(d, pred);
        lemma_filter_source(d, pred);
        let f = filter_by(cs, pred);
        let fd = filter_by(d, pred);
        assert forall|i: int, j: int| 0 <= i < j < f.len()
            implies #[trigger] f[i].id < #[trigger] f[j].id by {
            if j < fd.len() {
                assert(f[i] == fd[i] && f[j] == fd[j]);
            } else {
                assert(f[i] == fd[i]);
                assert(f[j] == cs.last());
                let w = choose|w: int| 0 <= w < d.len() && fd[i] == d[w];
                assert(d[w] == cs[w]);
                assert(cs[w].id < cs[cs.len() - 1].id);
            }
        }
    }
}

impl Catalog {
    /// Delete a media file row together with all its comments, as the
    /// user-facing deletion does.  Messages that reference the media file
    /// are deliberately kept.
    pub fn del_video_and_comments(&mut self, id: &str) -> (r: EmptyDBResult)
        requires
            old(self).wf(),
        ensures
            final(self).wf(),
            final(self).spec_broken() == old(self).spec_broken(),
            old(self).spec_broken() ==> (r matches Err(DBError::Backend(_))) && final(self)@ == old(self)@,
            !old(self).spec_broken() && !has_video(old(self)@.videos, id@)
                ==> r == Err::<(), DBError>(DBError::NotFound) && final(self)@ == old(self)@,
            !old(self).spec_broken() && has_video(old(self)@.videos, id@) ==> r is Ok
                && exists|i: int| 0 <= i < old(self)@.videos.len()
                    && (#[trigger] old(self)@.videos[i].id)@ == id@
                    && final(self)@ == (CatalogState {
                        videos: old(self)@.videos.remove(i),
                        comments: filter_by(old(self)@.comments, comment_other_video_pred(id@)),
                        ..old(self)@
                    }),
    {
        if self.broken {
            return Err(backend_err("catalog backend failure"));
        }
        let ghost cs = self@.comments;
        let ghost vs = self@.videos;
        match find_video_idx(&self.videos, id) {
            None => Err(DBError::NotFound),
            Some(i) => {
                self.videos.remove(i);
                let mut keep: Vec<Comment> = Vec::new();
                let mut j: usize = 0;
                proof {
                    assert(cs.subrange(0, 0) =~= Seq::<Comment>::empty());
                    assert(filter_by(cs.subrange(0, 0), comment_other_video_pred(id@)) =~= keep@);
                }
                while j < self.comments.len()
                    invariant
                        j <= cs.len(),
                        self.comments@ == cs,
                        keep@ == filter_by(cs.subrange(0, j as int), comment_other_video_pred(id@)),
                    decreases cs.len() - j,
                {
                    let m = !crate::strutil::str_eq(self.comments[j].video_id.as_str(), id);
                    proof {
                        lemma_filter_step(cs, comment_other_video_pred(id@), j as int);
                        assert(comment_other_video_pred(id@)(cs[j as int]) == m);
                    }
                    if m {
                        keep.push(self.comments[j].clone());
                    }
                    j = j + 1;
                }
                proof {
                    assert(cs.subrange(0, cs.len() as int) =~= cs);
                }
                self.comments = keep;
                proof {
                    let newvs = self@.videos;
                    assert forall|a: int, b: int| 0 <= a <= b < newvs.len()
                        implies #[trigger] newvs[a].key() <= #[trigger] newvs[b].key() by {
                        let a0 = if a < i as int { a } else { a + 1 };
                        let b0 = if b < i as int { b } else { b + 1 };
                        assert(newvs[a] == vs[a0] && newvs[b] == vs[b0]);
                    }
                    assert forall|a: int, b: int| 0 <= a < b < newvs.len()
                        implies #[trigger] newvs[a].id@ != #[trigger] newvs[b].id@ by {
                        let a0 = if a < i as int { a } else { a + 1 };
                        let b0 = if b < i as int { b } else { b + 1 };
                        assert(newvs[a] == vs[a0] && newvs[b] == vs[b0]);
                    }
                    assert forall|a: int| 0 <= a < newvs.len()
                        implies #[trigger] newvs[a].added_time <= self@.clock by {
                        let a0 = if a < i as int { a } else { a + 1 };
                        assert(newvs[a] == vs[a0]);
                    }
                    let pred = comment_other_video_pred(id@);
                    let newcs = filter_by(cs, pred);
                    lemma_filter_comment_ids(cs, pred);
                    lemma_filter_nondecreasing(cs, pred);
                    lemma_filter_source(cs, pred);
                    assert forall|a: int| 0 <= a < newcs.len()
                        implies 1 <= (#[trigger] newcs[a].id) < self@.next_comment_id
                            && newcs[a].created <= self@.clock by {
                        let w = choose|w: int| 0 <= w < cs.len() && newcs[a] == cs[w];
                        assert(1 <= cs[w].id < self@.next_comment_id);
                    }
                    assert forall|a: int| 0 <= a < newcs.len()
                        implies match #[trigger] newcs[a].parent_id {
                            Some(q) => q < newcs[a].id && exists|w: int|
                                0 <= w < newcs.len() && #[trigger] newcs[w].id == q
                                    && newcs[w].video_id@ == newcs[a].video_id@,
                            None => true,
                        } by {
                        let w0 = choose|w0: int| 0 <= w0 < cs.len() && newcs[a] == cs[w0];
                        match cs[w0].parent_id {
                            Some(q) => {
                                let u = choose|u: int| 0 <= u < cs.len()
                                    && #[trigger] cs[u].id == q
                                    && cs[u].video_id@ == cs[w0].video_id@;
                                assert(pred(cs[u]));
                                lemma_filter_contains(cs, pred, u);
                                let w = choose|w: int| 0 <= w < newcs.len() && newcs[w] == cs[u];
                                assert(newcs[w].id == q && newcs[w].video_id@ == newcs[a].video_id@);
                            },
                            None => {},
                        }
                    }
                }
                Ok(())
            },
        }
    }
}

/// In a well-formed catalog the next comment key differs from every stored
/// comment key: together with the allocation in [`Comment::insert`], a
/// comment key is never reused, not even after deletions.
pub proof fn lemma_comment_id_never_reused(s: CatalogState)
    requires
        comments_wf(s.comments, s.next_comment_id, s.clock),
    ensures
        forall|i: int| 0 <= i < s.comments.len() ==> #[trigger] s.comments[i].id != s.next_comment_id,
{
}

/// Removing one row keeps every other row, in order: rows before the
/// removed index keep their position, later rows shift down by one.
pub proof fn lemma_remove_keeps_others<T>(s: Seq<T>, i: int)
    requires
        0 <= i < s.len(),
    ensures
        forall|j: int| 0 <= j < i ==> #[trigger] s.remove(i)[j] == s[j],
        forall|j: int| i < j < s.len() ==> #[trigger] s.remove(i)[j - 1] == s[j],
{
}

/// Rows of one user come back strictly newest-first whenever the stored
/// timestamps are pairwise distinct; with the window contract of
/// [`Video::get_by_user`] this pins the paged results as well.
pub proof fn lemma_get_by_user_strictly_descending(s: CatalogState, uid: Seq<char>)
    requires
        nondecreasing(s.videos),
        forall|i: int, j: int| 0 <= i < j < s.videos.len()
            ==> #[trigger] s.videos[i].added_time != #[trigger] s.videos[j].added_time,
    ensures
        forall|a: int, b: int|
            0 <= a < b < ordered(filter_by(s.videos, video_user_pred(uid))).len()
            ==> (#[trigger] ordered(filter_by(s.videos, video_user_pred(uid)))[a].added_time)
                > (#[trigger] ordered(filter_by(s.videos, video_user_pred(uid)))[b].added_time),
{
    let pred = video_user_pred(uid);
    let f = filter_by(s.videos, pred);
    assert(forall|i: int, j: int| 0 <= i < j < s.videos.len()
        ==> #[trigger] s.videos[i].key() != #[trigger] s.videos[j].key());
    lemma_filter_nondecreasing(s.videos, pred);
    lemma_filter_distinct_keys(s.videos, pred);
    lemma_ordered_strictly_descending(f);
    assert forall|a: int, b: int| 0 <= a < b < ordered(f).len()
        implies (#[trigger] ordered(f)[a].added_time) > (#[trigger] ordered(f)[b].added_time) by {
        assert(ordered(f)[a].key() > ordered(f)[b].key());
    }
}

/// Messages of one user come back strictly newest-first whenever the
/// stored timestamps are pairwise distinct; with the window contract of
/// [`Message::get_by_user`] this pins the paged results as well.
pub proof fn lemma_messages_by_user_strictly_descending(s: CatalogState, uid: Seq<char>)
    requires
        nondecreasing(s.messages),
        forall|i: int, j: int| 0 <= i < j < s.messages.len()
            ==> #[trigger] s.messages[i].created != #[trigger] s.messages[j].created,
    ensures
        forall|a: int, b: int|
            0 <= a < b < ordered(filter_by(s.messages, message_user_pred(uid))).len()
            ==> (#[trigger] ordered(filter_by(s.messages, message_user_pred(uid)))[a].created)
                > (#[trigger] ordered(filter_by(s.messages, message_user_pred(uid)))[b].created),
{
    let pred = message_user_pred(uid);
    let f = filter_by(s.messages, pred);
    assert(forall|i: int, j: int| 0 <= i < j < s.messages.len()
        ==> #[trigger] s.messages[i].key() != #[trigger] s.messages[j].key());
    lemma_filter_nondecreasing(s.messages, pred);
    lemma_filter_distinct_keys(s.messages, pred);
    lemma_ordered_strictly_descending(f);
    assert forall|a: int, b: int| 0 <= a < b < ordered(f).len()
        implies (#[trigger] ordered(f)[a].created) > (#[trigger] ordered(f)[b].created) by {
        assert(ordered(f)[a].key() > ordered(f)[b].key());
    }
}

/// Concatenating the pages of a user query, page 0 first, gives exactly
/// the unpaged newest-first result: with the window contract of
/// [`Video::get_by_user`], page `p` of size `lim` is
/// `page_of(ordered(...), p * lim, lim)`, and these windows cover the
/// whole ordered sequence once `pages * lim` reaches its length.
pub proof fn lemma_get_by_user_pages_cover(s: CatalogState, uid: Seq<char>, lim: int, pages: int)
    requires
        lim > 0,
        pages >= 0,
        pages * lim >= ordered(filter_by(s.videos, video_user_pred(uid))).len(),
    ensures
        concat_pages(ordered(filter_by(s.videos, video_user_pred(uid))), lim, pages)
            == ordered(filter_by(s.videos, video_user_pred(uid))),
{
    lemma_concat_pages_cover(ordered(filter_by(s.videos, video_user_pred(uid))), lim, pages);
}

/// Copy a vector of video rows, element for element.
fn clone_videos(v: &Vec<Video>) -> (r: Vec<Video>)
    ensures
        r@ == v@,
{
    let mut r: Vec<Video> = Vec::new();
    let mut i: usize = 0;
    while i < v.len()
        invariant
            i <= v@.len(),
            r@ == v@.subrange(0, i as int),
        decreases v@.len() - i,
    {
        proof {
            assert(v@.subrange(0, i as int + 1)
                =~= v@.subrange(0, i as int).push(v@[i as int]));
        }
        r.push(v[i].clone());
        i = i + 1;
    }
    proof {
        assert(v@.subrange(0, v@.len() as int) =~= v@);
    }
    r
}

/// Copy a vector of comment rows, element for element.
fn clone_comments(v: &Vec<Comment>) -> (r: Vec<Comment>)
    ensures
        r@ == v@,
{
    let mut r: Vec<Comment> = Vec::new();
    let mut i: usize = 0;
    while i < v.len()
        invariant
            i <= v@.len(),
            r@ == v@.subrange(0, i as int),
        decreases v@.len() - i,
    {
        proof {
            assert(v@.subrange(0, i as int + 1)
                =~= v@.subrange(0, i as int).push(v@[i as int]));
        }
        r.push(v[i].clone());
        i = i + 1;
    }
    proof {
        assert(v@.subrange(0, v@.len() as int) =~= v@);
    }
    r
}

/// Copy a vector of message rows, element for element.
fn clone_messages(v: &Vec<Message>) -> (r: Vec<Message>)
    ensures
        r@ == v@,
{
    let mut r: Vec<Message> = Vec::new();
    let mut i: usize = 0;
    while i < v.len()
        invariant
            i <= v@.len(),
            r@ == v@.subrange(0, i as int),
        decreases v@.len() - i,
    {
        proof {
            assert(v@.subrange(0, i as int + 1)
                =~= v@.subrange(0, i as int).push(v@[i as int]));
        }
        r.push(v[i].clone());
        i = i + 1;
    }
    proof {
        assert(v@.subrange(0, v@.len() as int) =~= v@);
    }
    r
}

impl Catalog {
    /// An exact copy of the whole store, rows and counters alike.
    pub fn snapshot(&self) -> (r: Catalog)
        ensures
            r@ == self@,
            r.spec_broken() == self.spec_broken(),
    {
        let r = Catalog {
            videos: clone_videos(&self.videos),
            comments: clone_comments(&self.comments),
            messages: clone_messages(&self.messages),
            next_comment_id: self.next_comment_id,
            next_message_id: self.next_message_id,
            clock: self.clock,
            broken: self.broken,
        };
        proof {
            assert(r@ =~= self@);
        }
        r
    }

    /// Replace the whole store with a previously taken copy.
    pub fn restore(&mut self, saved: Catalog)
        ensures
            final(self)@ == saved@,
            final(self).spec_broken() == saved.spec_broken(),
    {
        *self = saved;
    }
}

/// Video rows whose id is among the given keys.
pub open spec fn video_id_in(ids: Seq<String>) -> spec_fn(Video) -> bool {
    |v: Video| exists|k: int| 0 <= k < ids.len() && (#[trigger] ids[k])@ == v.id@
}

/// Video rows whose id is not among the given keys.
pub open spec fn video_id_not_in(ids: Seq<String>) -> spec_fn(Video) -> bool {
    |v: Video| !(exists|k: int| 0 <= k < ids.len() && (#[trigger] ids[k])@ == v.id@)
}

/// Message rows whose id is among the given keys.
pub open spec fn message_id_in(ids: Seq<i32>) -> spec_fn(Message) -> bool {
    |m: Message| ids.contains(m.id)
}

/// Message rows whose id is not among the given keys.
pub open spec fn message_id_not_in(ids: Seq<i32>) -> spec_fn(Message) -> bool {
    |m: Message| !ids.contains(m.id)
}

/// Comment rows whose id is among the given keys.
pub open spec fn comment_id_in(ids: Seq<i32>) -> spec_fn(Comment) -> bool {
    |c: Comment| ids.contains(c.id)
}

/// The key list holds this id.
fn contains_str(ids: &Vec<String>, id: &str) -> (r: bool)
    ensures
        r == exists|k: int| 0 <= k < ids@.len() && (#[trigger] ids@[k])@ == id@,
{
    let mut k: usize = 0;
    while k < ids.len()
        invariant
            k <= ids@.len(),
            forall|j: int| 0 <= j < k ==> (#[trigger] ids@[j])@ != id@,
        decreases ids@.len() - k,
    {
        if crate::strutil::str_eq(ids[k].as_str(), id) {
            return true;
        }
        k = k + 1;
    }
    false
}

/// The key list holds this id.
fn contains_i32(ids: &Vec<i32>, id: i32) -> (r: bool)
    ensures
        r == ids@.contains(id),
{
    let mut k: usize = 0;
    while k < ids.len()
        invariant
            k <= ids@.len(),
            forall|j: int| 0 <= j < k ==> #[trigger] ids@[j] != id,
        decreases ids@.len() - k,
    {
        if ids[k] == id {
            return true;
        }
        k = k + 1;
    }
    false
}

/// Filtering keeps video ids pairwise distinct.
proof fn lemma_filter_video_ids(vs: Seq<Video>, pred: spec_fn(Video) -> bool)
    requires
        video_ids_unique(vs),
    ensures
        video_ids_unique(filter_by(vs, pred)),
    decreases vs.len(),
{
    if vs.len() > 0 {
        let d = vs.drop_last();
        assert(forall|i: int, j: int| 0 <= i < j < d.len()
            ==> (#[trigger] d[i].id)@ != (#[trigger] d[j].id)@);
        lemma_filter_video_ids(d, pred);
        lemma_filter_source(d, pred);
        let f = filter_by(vs, pred);
        let fd = filter_by(d, pred);
        assert forall|i: int, j: int| 0 <= i < j < f.len()
            implies (#[trigger] f[i].id)@ != (#[trigger] f[j].id)@ by {
            if j < fd.len() {
                assert(f[i] == fd[i] && f[j] == fd[j]);
            } else {
                assert(f[i] == fd[i]);
                assert(f[j] == vs.last());
                let w = choose|w: int| 0 <= w < d.len() && fd[i] == d[w];
                assert(d[w] == vs[w]);
                assert(vs[w].id@ != vs[vs.len() - 1].id@);
            }
        }
    }
}

/// Filtering keeps message ids strictly increasing.
proof fn lemma_filter_message_ids(ms: Seq<Message>, pred: spec_fn(Message) -> bool)
    requires
        forall|i: int, j: int| 0 <= i < j < ms.len() ==> #[trigger] ms[i].id < #[trigger] ms[j].id,
    ensures
        forall|i: int, j: int| 0 <= i < j < filter_by(ms, pred).len()
            ==> #[trigger] filter_by(ms, pred)[i].id < #[trigger] filter_by(ms, pred)[j].id,
    decreases ms.len(),
{
    if ms.len() > 0 {
        let d = ms.drop_last();
        assert(forall|i: int, j: int| 0 <= i < j < d.len()
            ==> #[trigger] d[i].id < #[trigger] d[j].id);
        lemma_filter_message_ids(d, pred);
        lemma_filter_source(d, pred);
        let f = filter_by(ms, pred);
        let fd = filter_by(d, pred);
        assert forall|i: int, j: int| 0 <= i < j < f.len()
            implies #[trigger] f[i].id < #[trigger] f[j].id by {
            if j < fd.len() {
                assert(f[i] == fd[i] && f[j] == fd[j]);
            } else {
                assert(f[i] == fd[i]);
                assert(f[j] == ms.last());
                let w = choose|w: int| 0 <= w < d.len() && fd[i] == d[w];
                assert(d[w] == ms[w]);
                assert(ms[w].id < ms[ms.len() - 1].id);
            }
        }
    }
}

impl Video {
    /// The rows whose keys are among `ids`, in stored order; keys
    /// without a row are silently absent.
    pub fn get_many(cat: &Catalog, ids: &Vec<String>) -> (r: DBResult<Vec<Video>>)
        requires
            cat.wf(),
        ensures
            cat.spec_broken() ==> (r matches Err(DBError::Backend(_))),
            !cat.spec_broken() ==> (r matches Ok(rows)
                && rows@ == filter_by(cat@.videos, video_id_in(ids@))),
    {
        if cat.broken {
            return Err(backend_err("catalog backend failure"));
        }
        let mut out: Vec<Video> = Vec::new();
        let mut i: usize = 0;
        proof {
            assert(cat@.videos.subrange(0, 0) =~= Seq::<Video>::empty());
            assert(filter_by(cat@.videos.subrange(0, 0), video_id_in(ids@)) =~= out@);
        }
        while i < cat.videos.len()
            invariant
                i <= cat@.videos.len(),
                out@ == filter_by(cat@.videos.subrange(0, i as int), video_id_in(ids@)),
            decreases cat@.videos.len() - i,
        {
            let m = contains_str(ids, cat.videos[i].id.as_str());
            proof {
                lemma_filter_step(cat@.videos, video_id_in(ids@), i as int);
                assert(video_id_in(ids@)(cat@.videos[i as int]) == m);
            }
            if m {
                out.push(cat.videos[i].clone());
            }
            i = i + 1;
        }
        proof {
            assert(cat@.videos.subrange(0, cat@.videos.len() as int) =~= cat@.videos);
        }
        Ok(out)
    }

    /// Delete every row whose key is among `ids`.  Returns how many
    /// rows were deleted; comments and messages stay.
    pub fn delete_many(cat: &mut Catalog, ids: &Vec<String>) -> (r: DBResult<usize>)
        requires
            old(cat).wf(),
        ensures
            final(cat).wf(),
            final(cat).spec_broken() == old(cat).spec_broken(),
            old(cat).spec_broken() ==> (r matches Err(DBError::Backend(_)))
                && final(cat)@ == old(cat)@,
            !old(cat).spec_broken() ==> (r matches Ok(n)
                && final(cat)@ == (CatalogState {
                    videos: filter_by(old(cat)@.videos, video_id_not_in(ids@)),
                    ..old(cat)@
                })
                && n + final(cat)@.videos.len() == old(cat)@.videos.len()),
    {
        if cat.broken {
            return Err(backend_err("catalog backend failure"));
        }
        let ghost vs = cat@.videos;
        let mut keep: Vec<Video> = Vec::new();
        let mut i: usize = 0;
        proof {
            assert(vs.subrange(0, 0) =~= Seq::<Video>::empty());
            assert(filter_by(vs.subrange(0, 0), video_id_not_in(ids@)) =~= keep@);
        }
        while i < cat.videos.len()
            invariant
                cat@.videos == vs,
                i <= vs.len(),
                keep@ == filter_by(vs.subrange(0, i as int), video_id_not_in(ids@)),
            decreases vs.len() - i,
        {
            let m = !contains_str(ids, cat.videos[i].id.as_str());
            proof {
                lemma_filter_step(vs, video_id_not_in(ids@), i as int);
                assert(video_id_not_in(ids@)(vs[i as int]) == m);
            }
            if m {
                keep.push(cat.videos[i].clone());
            }
            i = i + 1;
        }
        proof {
            assert(vs.subrange(0, vs.len() as int) =~= vs);
        }
        let kept = keep.len();
        let total = cat.videos.len();
        cat.videos = keep;
        proof {
            let pred = video_id_not_in(ids@);
            crate::order::lemma_filter_len(vs, pred);
            lemma_filter_video_ids(vs, pred);
            lemma_filter_nondecreasing(vs, pred);
            lemma_filter_source(vs, pred);
            assert forall|a: int| 0 <= a < cat@.videos.len()
                implies #[trigger] cat@.videos[a].added_time <= cat@.clock by {
                let w = choose|w: int| 0 <= w < vs.len() && cat@.videos[a] == vs[w];
                assert(vs[w].added_time <= cat@.clock);
            }
        }
        Ok(total - kept)
    }
}

impl Message {
    /// The rows whose keys are among `ids`, in stored order.
    pub fn get_many(cat: &Catalog, ids: &Vec<i32>) -> (r: DBResult<Vec<Message>>)
        requires
            cat.wf(),
        ensures
            cat.spec_broken() ==> (r matches Err(DBError::Backend(_))),
            !cat.spec_broken() ==> (r matches Ok(rows)
                && rows@ == filter_by(cat@.messages, message_id_in(ids@))),
    {
        if cat.broken {
            return Err(backend_err("catalog backend failure"));
        }
        let mut out: Vec<Message> = Vec::new();
        let mut i: usize = 0;
        proof {
            assert(cat@.messages.subrange(0, 0) =~= Seq::<Message>::empty());
            assert(filter_by(cat@.messages.subrange(0, 0), message_id_in(ids@)) =~= out@);
        }
        while i < cat.messages.len()
            invariant
                i <= cat@.messages.len(),
                out@ == filter_by(cat@.messages.subrange(0, i as int), message_id_in(ids@)),
            decreases cat@.messages.len() - i,
        {
            let m = contains_i32(ids, cat.messages[i].id);
            proof {
                lemma_filter_step(cat@.messages, message_id_in(ids@), i as int);
                assert(message_id_in(ids@)(cat@.messages[i as int]) == m);
            }
            if m {
                out.push(cat.messages[i].clone());
            }
            i = i + 1;
        }
        proof {
            assert(cat@.messages.subrange(0, cat@.messages.len() as int) =~= cat@.messages);
        }
        Ok(out)
    }

    /// Delete every row whose key is among `ids`.  Returns how many
    /// rows were deleted.
    pub fn delete_many(cat: &mut Catalog, ids: &Vec<i32>) -> (r: DBResult<usize>)
        requires
            old(cat).wf(),
        ensures
            final(cat).wf(),
            final(cat).spec_broken() == old(cat).spec_broken(),
            old(cat).spec_broken() ==> (r matches Err(DBError::Backend(_)))
                && final(cat)@ == old(cat)@,
            !old(cat).spec_broken() ==> (r matches Ok(n)
                && final(cat)@ == (CatalogState {
                    messages: filter_by(old(cat)@.messages, message_id_not_in(ids@)),
                    ..old(cat)@
                })
                && n + final(cat)@.messages.len() == old(cat)@.messages.len()),
    {
        if cat.broken {
            return Err(backend_err("catalog backend failure"));
        }
        let ghost ms = cat@.messages;
        let mut keep: Vec<Message> = Vec::new();
        let mut i: usize = 0;
        proof {
            assert(ms.subrange(0, 0) =~= Seq::<Message>::empty());
            assert(filter_by(ms.subrange(0, 0), message_id_not_in(ids@)) =~= keep@);
        }
        while i < cat.messages.len()
            invariant
                cat@.messages == ms,
                i <= ms.len(),
                keep@ == filter_by(ms.subrange(0, i as int), message_id_not_in(ids@)),
            decreases ms.len() - i,
        {
            let m = !contains_i32(ids, cat.messages[i].id);
            proof {
                lemma_filter_step(ms, message_id_not_in(ids@), i as int);
                assert(message_id_not_in(ids@)(ms[i as int]) == m);
            }
            if m {
                keep.push(cat.messages[i].clone());
            }
            i = i + 1;
        }
        proof {
            assert(ms.subrange(0, ms.len() as int) =~= ms);
        }
        let kept = keep.len();
        let total = cat.messages.len();
        cat.messages = keep;
        proof {
            let pred = message_id_not_in(ids@);
            crate::order::lemma_filter_len(ms, pred);
            lemma_filter_message_ids(ms, pred);
            lemma_filter_nondecreasing(ms, pred);
            lemma_filter_source(ms, pred);
            assert forall|a: int| 0 <= a < cat@.messages.len()
                implies 1 <= (#[trigger] cat@.messages[a]).id < cat@.next_message_id
                    && cat@.messages[a].created <= cat@.clock by {
                let w = choose|w: int| 0 <= w < ms.len() && cat@.messages[a] == ms[w];
                assert(1 <= ms[w].id < cat@.next_message_id);
                assert(ms[w].created <= cat@.clock);
            }
        }
        Ok(total - kept)
    }
}

impl Comment {
    /// The rows whose keys are among `ids`, in stored order.
    pub fn get_many(cat: &Catalog, ids: &Vec<i32>) -> (r: DBResult<Vec<Comment>>)
        requires
            cat.wf(),
        ensures
            cat.spec_broken() ==> (r matches Err(DBError::Backend(_))),
            !cat.spec_broken() ==> (r matches Ok(rows)
                && rows@ == filter_by(cat@.comments, comment_id_in(ids@))),
    {
        if cat.broken {
            return Err(backend_err("catalog backend failure"));
        }
        let mut out: Vec<Comment> = Vec::new();
        let mut i: usize = 0;
        proof {
            assert(cat@.comments.subrange(0, 0) =~= Seq::<Comment>::empty());
            assert(filter_by(cat@.comments.subrange(0, 0), comment_id_in(ids@)) =~= out@);
        }
        while i < cat.comments.len()
            invariant
                i <= cat@.comments.len(),
                out@ == filter_by(cat@.comments.subrange(0, i as int), comment_id_in(ids@)),
            decreases cat@.comments.len() - i,
        {
            let m = contains_i32(ids, cat.comments[i].id);
            proof {
                lemma_filter_step(cat@.comments, comment_id_in(ids@), i as int);
                assert(comment_id_in(ids@)(cat@.comments[i as int]) == m);
            }
            if m {
                out.push(cat.comments[i].clone());
            }
            i = i + 1;
        }
        proof {
            assert(cat@.comments.subrange(0, cat@.comments.len() as int) =~= cat@.comments);
        }
        Ok(out)
    }
}

} // verus!
