//! Transcoder pool supervision: bounded parallelism and progress
//! scraping.
//!
//! At most N encoder processes run at once (N = configured workers, or
//! the CPU count when 0); further jobs wait in arrival order.  Progress
//! is scraped from the encoder's human-readable output lines, which
//! carry `time=HH:MM:SS...` tokens; per job the updates arrive in
//! order, across jobs they interleave freely, and delivery is lossy, so
//! nothing more than the value of each update is promised.

use vstd::prelude::*;

use crate::ingest::TranscodeJob;
use crate::strutil::{is_digit, digit_val};

verus! {

/// The pool's bookkeeping: what runs, what waits.
pub struct PoolState {
    pub max_workers: usize,
    pub running: Vec<TranscodeJob>,
    pub queued: Vec<TranscodeJob>,
}

impl PoolState {
    /// The bound holds: never more encoder processes than workers.
    pub open spec fn wf(&self) -> bool {
        self.running@.len() <= self.max_workers
    }

    /// A fresh pool for `n_workers` workers; 0 means the CPU count.
    pub fn new(n_workers: usize, cpu_count: usize) -> (r: PoolState)
        requires
            cpu_count > 0,
        ensures
            r.wf(),
            r.max_workers == (if n_workers == 0 { cpu_count } else { n_workers }),
            r.running@.len() == 0,
            r.queued@.len() == 0,
    {
        PoolState {
            max_workers: if n_workers == 0 { cpu_count } else { n_workers },
            running: Vec::new(),
            queued: Vec::new(),
        }
    }

    /// Submit a job: start it when a worker is free, queue it otherwise.
    /// Returns whether the job started right away.
    pub fn submit(&mut self, job: TranscodeJob) -> (started: bool)
        requires
            old(self).wf(),
        ensures
            final(self).wf(),
            final(self).max_workers == old(self).max_workers,
            started == (old(self).running@.len() < old(self).max_workers),
            started ==> final(self).running@ == old(self).running@.push(job)
                && final(self).queued@ == old(self).queued@,
            !started ==> final(self).queued@ == old(self).queued@.push(job)
                && final(self).running@ == old(self).running@,
    {
        if self.running.len() < self.max_workers {
            self.running.push(job);
            true
        } else {
            self.queued.push(job);
            false
        }
    }

    /// A running job finished: retire it and promote the oldest queued
    /// job, if any.  Returns the promoted job, which the caller must
    /// start.
    pub fn complete(&mut self, idx: usize) -> (promoted: Option<TranscodeJob>)
        requires
            old(self).wf(),
            idx < old(self).running@.len(),
        ensures
            final(self).wf(),
            final(self).max_workers == old(self).max_workers,
            old(self).queued@.len() > 0 ==> (promoted matches Some(j)
                && j == old(self).queued@[0]
                && final(self).queued@ == old(self).queued@.drop_first()
                && final(self).running@ == old(self).running@.remove(idx as int).push(j)),
            old(self).queued@.len() == 0 ==> promoted is None
                && final(self).queued@.len() == 0
                && final(self).running@ == old(self).running@.remove(idx as int),
    {
        self.running.remove(idx);
        if self.queued.len() > 0 {
            let j = self.queued.remove(0);
            proof {
                assert(old(self).queued@.remove(0) =~= old(self).queued@.drop_first());
            }
            let out = j.clone();
            self.running.push(j);
            Some(out)
        } else {
            None
        }
    }
}

/// The number of encoder processes never exceeds the worker bound: it
/// holds of a fresh pool and every operation preserves it.
pub proof fn lemma_pool_bounded(p: PoolState)
    requires
        p.wf(),
    ensures
        p.running@.len() <= p.max_workers,
{
}

/// An encoder progress token `time=HH:MM:SS` starts at index `i`.
pub open spec fn progress_at(s: Seq<char>, i: int) -> bool {
    &&& 0 <= i && i + 13 <= s.len()
    &&& s[i] == 't' && s[i + 1] == 'i' && s[i + 2] == 'm' && s[i + 3] == 'e' && s[i + 4] == '='
    &&& is_digit(s[i + 5]) && is_digit(s[i + 6])
    &&& s[i + 7] == ':'
    &&& is_digit(s[i + 8]) && is_digit(s[i + 9])
    &&& s[i + 10] == ':'
    &&& is_digit(s[i + 11]) && is_digit(s[i + 12])
}

/// The seconds a progress token at index `i` stands for.
pub open spec fn progress_value(s: Seq<char>, i: int) -> int {
    3600 * (10 * digit_val(s[i + 5]) + digit_val(s[i + 6]))
        + 60 * (10 * digit_val(s[i + 8]) + digit_val(s[i + 9]))
        + 10 * digit_val(s[i + 11]) + digit_val(s[i + 12])
}

/// Scrape the first progress token of an encoder output line; the
/// encoded time in seconds, or nothing when the line has no token.
pub fn parse_progress(line: &str) -> (r: Option<u32>)
    ensures
        match r {
            Some(v) => exists|i: int| #[trigger] progress_at(line@, i)
                && v == progress_value(line@, i)
                && forall|j: int| 0 <= j < i ==> !progress_at(line@, j),
            None => forall|i: int| !progress_at(line@, i),
        },
{
    let n = line.unicode_len();
    if n < 13 {
        return None;
    }
    let mut i: usize = 0;
    while i <= n - 13
        invariant
            13 <= n == line@.len(),
            i <= n - 13 + 1,
            forall|j: int| 0 <= j < i ==> !progress_at(line@, j),
        decreases n - i,
    {
        let hit = line.get_char(i) == 't'
            && line.get_char(i + 1) == 'i'
            && line.get_char(i + 2) == 'm'
            && line.get_char(i + 3) == 'e'
            && line.get_char(i + 4) == '='
            && digit_of(line, i + 5).is_some()
            && digit_of(line, i + 6).is_some()
            && line.get_char(i + 7) == ':'
            && digit_of(line, i + 8).is_some()
            && digit_of(line, i + 9).is_some()
            && line.get_char(i + 10) == ':'
            && digit_of(line, i + 11).is_some()
            && digit_of(line, i + 12).is_some();
        if hit {
            let h = 10 * digit_of_val(line, i + 5) + digit_of_val(line, i + 6);
            let m = 10 * digit_of_val(line, i + 8) + digit_of_val(line, i + 9);
            let sec = 10 * digit_of_val(line, i + 11) + digit_of_val(line, i + 12);
            let v = 3600 * h + 60 * m + sec;
            proof {
                assert(progress_at(line@, i as int));
                assert(v == progress_value(line@, i as int));
            }
            return Some(v);
        }
        proof {
            assert(!progress_at(line@, i as int));
        }
        i = i + 1;
    }
    proof {
        assert forall|j: int| !progress_at(line@, j) by {
            if 0 <= j && j + 13 <= line@.len() {
                assert(j < i);
            }
        }
    }
    None
}

/// The digit at a character position, when it is one.
fn digit_of(s: &str, i: usize) -> (r: Option<u32>)
    requires
        i < s@.len(),
    ensures
        r is Some <==> is_digit(s@[i as int]),
        r matches Some(v) ==> v == digit_val(s@[i as int]),
{
    let c = s.get_char(i);
    let u = c as u32;
    if 48 <= u && u <= 57 {
        Some(u - 48)
    } else {
        None
    }
}

/// The digit at a position known to hold one.
fn digit_of_val(s: &str, i: usize) -> (r: u32)
    requires
        i < s@.len(),
        is_digit(s@[i as int]),
    ensures
        r == digit_val(s@[i as int]),
        r < 10,
{
    let c = s.get_char(i);
    (c as u32) - 48
}

} // verus!
