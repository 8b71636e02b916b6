//! Incoming monitor: detect files whose size has stabilized in the
//! spool directory and emit each exactly once.
//!
//! The caller polls the spool and hands in what it observed; the monitor
//! decides.  A file is stable when its size is unchanged since an
//! earlier poll at least `resubmit_delay` seconds ago and it could be
//! opened for read.  Only regular, non-dot files are considered.  The
//! monitor deduplicates by path, size and modification time: an emitted
//! key is remembered and never emitted again.  The owner of a file is
//! the name of its directory directly under the spool, or `anonymous`
//! for files lying in the spool itself.

use vstd::prelude::*;

use crate::pipeline::IncomingFile;
use crate::strutil::after_last;

verus! {

/// One directory entry, as the caller observed it during a poll.
pub struct Observation {
    pub path: String,
    pub size: u64,
    /// Modification time, unix seconds.
    pub mtime: i64,
    /// A regular file (not a directory or other special entry).
    pub is_file: bool,
    /// The process could open it for read.
    pub openable: bool,
}

/// The identity under which an emission is remembered.
pub struct EmittedKey {
    pub path: String,
    pub size: u64,
    pub mtime: i64,
}

/// A size observation remembered from an earlier poll.
pub struct SeenEntry {
    pub path: String,
    pub size: u64,
    /// When the observation was made, unix seconds.
    pub at: i64,
}

/// The monitor's state between polls.
pub struct MonitorState {
    pub emitted: Vec<EmittedKey>,
    pub last_seen: Vec<SeenEntry>,
}

/// The file's name starts with a dot.
pub open spec fn is_dotfile(path: Seq<char>) -> bool {
    after_last(path, '/').len() > 0 && after_last(path, '/')[0] == '.'
}

/// A key is already remembered as emitted.
pub open spec fn key_emitted(em: Seq<EmittedKey>, path: Seq<char>, size: u64, mtime: i64) -> bool {
    exists|i: int| 0 <= i < em.len() && (#[trigger] em[i].path)@ == path
        && em[i].size == size && em[i].mtime == mtime
}

/// An earlier poll saw the path with this size at least `delay` seconds
/// before `now`.
pub open spec fn seen_stable(
    seen: Seq<SeenEntry>,
    path: Seq<char>,
    size: u64,
    now: i64,
    delay: i64,
) -> bool {
    exists|i: int| 0 <= i < seen.len() && (#[trigger] seen[i].path)@ == path
        && seen[i].size == size && seen[i].at + delay <= now
}

/// The emission rule: a stable, regular, openable, non-dot file whose
/// key has not been emitted yet.
pub open spec fn should_emit(
    st: MonitorState,
    o: Observation,
    now: i64,
    delay: i64,
) -> bool {
    &&& o.is_file
    &&& o.openable
    &&& !is_dotfile(o.path@)
    &&& seen_stable(st.last_seen@, o.path@, o.size, now, delay)
    &&& !key_emitted(st.emitted@, o.path@, o.size, o.mtime)
}

/// The owner of a spool file: the directory name directly under the
/// spool, or `anonymous` when the file lies in the spool itself or
/// outside it.
pub open spec fn spec_owner_of(incoming_dir: Seq<char>, path: Seq<char>) -> Seq<char> {
    let prefix = incoming_dir + "/"@;
    if path.len() > prefix.len() && path.subrange(0, prefix.len() as int) == prefix {
        let rest = path.subrange(prefix.len() as int, path.len() as int);
        if (exists|i: int| 0 <= i < rest.len() && rest[i] == '/') {
            rest.subrange(0, first_slash(rest))
        } else {
            "anonymous"@
        }
    } else {
        "anonymous"@
    }
}

/// Index of the first slash of a sequence that has one.
pub open spec fn first_slash(s: Seq<char>) -> int {
    choose|i: int| 0 <= i < s.len() && s[i] == '/'
        && forall|j: int| 0 <= j < i ==> s[j] != '/'
}

pub proof fn lemma_first_slash(s: Seq<char>, k: int)
    requires
        0 <= k < s.len(),
        s[k] == '/',
        forall|j: int| 0 <= j < k ==> s[j] != '/',
    ensures
        first_slash(s) == k,
{
    assert(0 <= k < s.len() && s[k] == '/' && (forall|j: int| 0 <= j < k ==> s[j] != '/'));
    let i = first_slash(s);
    if i < k {
        assert(s[i] != '/');
    }
    if i > k {
        assert(s[k] != '/');
    }
}

/// Derive the owner user id of a spool file from its path.
pub fn owner_of(incoming_dir: &str, path: &str) -> (r: String)
    ensures
        r@ == spec_owner_of(incoming_dir@, path@),
{
    let ghost s = path@;
    let ghost prefix = incoming_dir@ + "/"@;
    let prefix_len = incoming_dir.unicode_len();
    let n = path.unicode_len();
    proof {
        reveal_strlit("/");
        assert("/"@.len() == 1);
        assert(prefix.len() == prefix_len + 1);
    }
    if n <= prefix_len {
        proof {
            reveal_strlit("anonymous");
        }
        return String::from_str("anonymous");
    }
    if n - prefix_len <= 1 {
        proof {
            reveal_strlit("anonymous");
        }
        return String::from_str("anonymous");
    }
    // Compare path[0 .. prefix_len] with the spool directory, and the
    // separating slash.
    let mut i: usize = 0;
    let mut matches_prefix = true;
    while i < prefix_len && matches_prefix
        invariant
            s == path@,
            i <= prefix_len,
            prefix_len == incoming_dir@.len(),
            prefix_len + 1 < n == s.len(),
            matches_prefix ==> forall|j: int| 0 <= j < i ==> s[j] == incoming_dir@[j],
            !matches_prefix ==> exists|j: int| 0 <= j < prefix_len && s[j] != incoming_dir@[j],
        decreases prefix_len - i + (if matches_prefix { 1int } else { 0 }),
    {
        if path.get_char(i) != incoming_dir.get_char(i) {
            matches_prefix = false;
            proof {
                assert(s[i as int] != incoming_dir@[i as int]);
            }
        } else {
            i = i + 1;
        }
    }
    proof {
        reveal_strlit("/");
        assert(forall|j: int| 0 <= j < prefix_len ==> #[trigger] prefix[j] == incoming_dir@[j]);
        assert(prefix[prefix_len as int] == "/"@[0]);
        assert("/"@[0] == '/');
    }
    if !matches_prefix || path.get_char(prefix_len) != '/' {
        proof {
            reveal_strlit("anonymous");
            assert(s.subrange(0, prefix.len() as int) != prefix) by {
                if s.subrange(0, prefix.len() as int) == prefix {
                    assert(forall|j: int| 0 <= j < prefix.len()
                        ==> s[j] == #[trigger] prefix[j]);
                    if !matches_prefix {
                        let w = choose|w: int| 0 <= w < prefix_len
                            && s[w] != incoming_dir@[w];
                        assert(s[w] == prefix[w]);
                        assert(false);
                    } else {
                        assert(s[prefix_len as int] == prefix[prefix_len as int]);
                    }
                }
            }
        }
        return String::from_str("anonymous");
    }
    proof {
        assert(s.subrange(0, prefix.len() as int) =~= prefix);
    }
    // Find the first slash of the remainder.
    let ghost rest = s.subrange(prefix_len as int + 1, n as int);
    let mut k: usize = prefix_len + 1;
    while k < n
        invariant
            s == path@,
            prefix == incoming_dir@ + "/"@,
            prefix.len() == prefix_len + 1,
            s.len() > prefix.len(),
            s.subrange(0, prefix.len() as int) == prefix,
            rest == s.subrange(prefix_len as int + 1, n as int),
            prefix_len + 1 <= k <= n == s.len(),
            forall|j: int| prefix_len + 1 <= j < k ==> s[j] != '/',
        decreases n - k,
    {
        if path.get_char(k) == '/' {
            let r = String::from_str(path.substring_char(prefix_len + 1, k));
            proof {
                let kk = k as int - (prefix_len as int + 1);
                assert(rest[kk] == s[k as int]);
                assert forall|j: int| 0 <= j < kk implies rest[j] != '/' by {
                    assert(rest[j] == s[prefix_len as int + 1 + j]);
                }
                lemma_first_slash(rest, kk);
                assert(r@ =~= rest.subrange(0, kk));
            }
            return r;
        }
        k = k + 1;
    }
    proof {
        reveal_strlit("anonymous");
        assert forall|i2: int| 0 <= i2 < rest.len() implies rest[i2] != '/' by {
            assert(rest[i2] == s[prefix_len as int + 1 + i2]);
        }
    }
    String::from_str("anonymous")
}

/// The emitted file stems from one of the first `upto` observations,
/// selected by the emission rule, with the derived owner.
pub open spec fn emission_from(
    f: IncomingFile,
    observations: Seq<Observation>,
    upto: int,
    incoming_dir: Seq<char>,
    st0: MonitorState,
    now: i64,
    delay: i64,
) -> bool {
    exists|a: int| 0 <= a < upto && (#[trigger] observations[a].path)@ == f.file_path@
        && f.user_id@ == spec_owner_of(incoming_dir, observations[a].path@)
        && should_emit(st0, observations[a], now, delay)
}

/// The observation has a matching emission and a matching remembered key.
pub open spec fn emitted_entry_for(
    o: Observation,
    out: Seq<IncomingFile>,
    keys: Seq<EmittedKey>,
) -> bool {
    exists|e: int| 0 <= e < out.len() && out.len() == keys.len()
        && (#[trigger] out[e].file_path)@ == o.path@
        && keys[e].path@ == o.path@
        && keys[e].size == o.size
        && keys[e].mtime == o.mtime
}

/// One poll step: decide which observed files to emit, remember their
/// keys, and remember every current observation for the next poll.
///
/// Every emission satisfies the emission rule against the old state, no
/// key is ever emitted twice, and the set of remembered keys only
/// grows, so across any run of polls each stable file is emitted
/// exactly once per key.
#[verifier::rlimit(100)]
#[verifier::spinoff_prover]
pub fn monitor_step(
    st: &mut MonitorState,
    observations: &Vec<Observation>,
    incoming_dir: &str,
    now: i64,
    delay: i64,
) -> (out: Vec<IncomingFile>)
    requires
        0 <= delay,
        forall|i: int, j: int| 0 <= i < j < observations@.len()
            ==> (#[trigger] observations@[i].path)@ != (#[trigger] observations@[j].path)@,
    ensures
        // What is emitted: exactly the observations the rule selects,
        // with the derived owner.
        out@.len() <= observations@.len(),
        forall|e: int| 0 <= e < out@.len() ==> emission_from(#[trigger] out@[e], observations@,
            observations@.len() as int, incoming_dir@, *old(st), now, delay),
        forall|a: int| 0 <= a < observations@.len()
            && should_emit(*old(st), #[trigger] observations@[a], now, delay)
            ==> key_emitted(final(st).emitted@, observations@[a].path@,
                observations@[a].size, observations@[a].mtime),
        // Every observation the rule selects IS emitted, with its owner.
        forall|a: int| 0 <= a < observations@.len()
            && should_emit(*old(st), #[trigger] observations@[a], now, delay)
            ==> exists|e: int| 0 <= e < out@.len()
                && (#[trigger] out@[e]).file_path@ == observations@[a].path@
                && out@[e].user_id@
                    == spec_owner_of(incoming_dir@, observations@[a].path@),
        // Emitted keys are remembered; the memory only grows.
        forall|i: int| 0 <= i < old(st).emitted@.len()
            ==> final(st).emitted@[i] == #[trigger] old(st).emitted@[i],
        final(st).emitted@.len() >= old(st).emitted@.len(),
        // The next poll compares against what was observed now.
        final(st).last_seen@.len() == observations@.len(),
        forall|i: int| 0 <= i < observations@.len()
            ==> (#[trigger] final(st).last_seen@[i]).path@ == observations@[i].path@
                && final(st).last_seen@[i].size == observations@[i].size
                && final(st).last_seen@[i].at == now,
{
    let ghost st0 = *old(st);
    let mut out: Vec<IncomingFile> = Vec::new();
    let mut keys: Vec<EmittedKey> = Vec::new();
    let mut new_seen: Vec<SeenEntry> = Vec::new();
    let mut i: usize = 0;
    while i < observations.len()
        invariant
            *st == st0,
            *old(st) == st0,
            0 <= delay,
            i <= observations@.len(),
            out@.len() == keys@.len() <= i,
            forall|e: int| 0 <= e < out@.len() ==> emission_from(#[trigger] out@[e],
                observations@, i as int, incoming_dir@, st0, now, delay),
            forall|a: int| 0 <= a < i
                && should_emit(st0, #[trigger] observations@[a], now, delay)
                ==> emitted_entry_for(observations@[a], out@, keys@),
            new_seen@.len() == i,
            forall|a: int| 0 <= a < i
                ==> (#[trigger] new_seen@[a]).path@ == observations@[a].path@
                    && new_seen@[a].size == observations@[a].size
                    && new_seen@[a].at == now,
        decreases observations@.len() - i,
    {
        let o = &observations[i];
        new_seen.push(SeenEntry {
            path: o.path.clone(),
            size: o.size,
            at: now,
        });
        let emit = o.is_file && o.openable && !is_dotfile_exec(o.path.as_str())
            && seen_stable_exec(&st.last_seen, o.path.as_str(), o.size, now, delay)
            && !key_emitted_exec(&st.emitted, o.path.as_str(), o.size, o.mtime);
        proof {
            assert(emit == should_emit(st0, observations@[i as int], now, delay));
        }
        if emit {
            let ghost out0 = out@;
            let ghost keys0 = keys@;
            let owner = owner_of(incoming_dir, o.path.as_str());
            out.push(IncomingFile {
                file_path: o.path.clone(),
                user_id: owner,
            });
            keys.push(EmittedKey {
                path: o.path.clone(),
                size: o.size,
                mtime: o.mtime,
            });
            proof {
                let oi = i as int;
                assert forall|e: int| 0 <= e < out@.len() implies emission_from(
                    #[trigger] out@[e], observations@, oi + 1, incoming_dir@, st0, now, delay) by {
                    if e < out0.len() {
                        assert(out@[e] == out0[e]);
                        assert(emission_from(out0[e], observations@, oi, incoming_dir@,
                            st0, now, delay));
                        let a0 = choose|a0: int| 0 <= a0 < oi
                            && (#[trigger] observations@[a0].path)@ == out0[e].file_path@
                            && out0[e].user_id@
                                == spec_owner_of(incoming_dir@, observations@[a0].path@)
                            && should_emit(st0, observations@[a0], now, delay);
                        assert((observations@[a0].path)@ == out@[e].file_path@);
                    } else {
                        assert((observations@[oi].path)@ == out@[e].file_path@
                            && out@[e].user_id@
                                == spec_owner_of(incoming_dir@, observations@[oi].path@)
                            && should_emit(st0, observations@[oi], now, delay));
                    }
                }
                assert forall|a: int| 0 <= a < oi + 1
                    && should_emit(st0, #[trigger] observations@[a], now, delay)
                    implies emitted_entry_for(observations@[a], out@, keys@) by {
                    if a < oi {
                        assert(emitted_entry_for(observations@[a], out0, keys0));
                        let e0 = choose|e0: int| 0 <= e0 < out0.len()
                            && out0.len() == keys0.len()
                            && (#[trigger] out0[e0].file_path)@ == observations@[a].path@
                            && keys0[e0].path@ == observations@[a].path@
                            && keys0[e0].size == observations@[a].size
                            && keys0[e0].mtime == observations@[a].mtime;
                        assert(out@[e0] == out0[e0] && keys@[e0] == keys0[e0]);
                        assert((out@[e0].file_path)@ == observations@[a].path@);
                    } else {
                        let e1 = out@.len() - 1;
                        assert((out@[e1].file_path)@ == observations@[a].path@
                            && keys@[e1].path@ == observations@[a].path@
                            && keys@[e1].size == observations@[a].size
                            && keys@[e1].mtime == observations@[a].mtime);
                    }
                }
            }
        } else {
            proof {
                let oi = i as int;
                assert(!should_emit(st0, observations@[oi], now, delay));
                assert forall|e: int| 0 <= e < out@.len() implies emission_from(
                    #[trigger] out@[e], observations@, oi + 1, incoming_dir@, st0, now, delay) by {
                    assert(emission_from(out@[e], observations@, oi, incoming_dir@,
                        st0, now, delay));
                    let a0 = choose|a0: int| 0 <= a0 < oi
                        && (#[trigger] observations@[a0].path)@ == out@[e].file_path@
                        && out@[e].user_id@
                            == spec_owner_of(incoming_dir@, observations@[a0].path@)
                        && should_emit(st0, observations@[a0], now, delay);
                    assert((observations@[a0].path)@ == out@[e].file_path@);
                }
            }
        }
        i = i + 1;
    }
    let ghost keys_snap = keys@;
    st.emitted.append(&mut keys);
    st.last_seen = new_seen;
    proof {
        let em1 = st.emitted@;
        assert(em1 == st0.emitted@ + keys_snap);
        assert forall|a: int| 0 <= a < observations@.len()
            && should_emit(st0, #[trigger] observations@[a], now, delay)
            implies key_emitted(em1, observations@[a].path@,
                observations@[a].size, observations@[a].mtime) by {
            assert(emitted_entry_for(observations@[a], out@, keys_snap));
            let e = choose|e: int| 0 <= e < out@.len() && out@.len() == keys_snap.len()
                && (#[trigger] out@[e].file_path)@ == observations@[a].path@
                && keys_snap[e].path@ == observations@[a].path@
                && keys_snap[e].size == observations@[a].size
                && keys_snap[e].mtime == observations@[a].mtime;
            assert(em1[st0.emitted@.len() + e] == keys_snap[e]);
            assert((em1[st0.emitted@.len() + e].path)@ == observations@[a].path@);
        }
        assert forall|a: int| 0 <= a < observations@.len()
            && should_emit(st0, #[trigger] observations@[a], now, delay)
            implies exists|e: int| 0 <= e < out@.len()
                && (#[trigger] out@[e]).file_path@ == observations@[a].path@
                && out@[e].user_id@
                    == spec_owner_of(incoming_dir@, observations@[a].path@) by {
            assert(emitted_entry_for(observations@[a], out@, keys_snap));
            let e = choose|e: int| 0 <= e < out@.len() && out@.len() == keys_snap.len()
                && (#[trigger] out@[e].file_path)@ == observations@[a].path@
                && keys_snap[e].path@ == observations@[a].path@
                && keys_snap[e].size == observations@[a].size
                && keys_snap[e].mtime == observations@[a].mtime;
            // The entry stems from some rule-selected observation with
            // the derived owner; distinct paths make it this one.
            assert(emission_from(out@[e], observations@, observations@.len() as int,
                incoming_dir@, st0, now, delay));
            let a0 = choose|a0: int| 0 <= a0 < observations@.len()
                && (#[trigger] observations@[a0].path)@ == out@[e].file_path@
                && out@[e].user_id@ == spec_owner_of(incoming_dir@, observations@[a0].path@)
                && should_emit(st0, observations@[a0], now, delay);
            if a0 != a {
                assert(observations@[a0].path@ != observations@[a].path@);
            }
            assert((out@[e]).file_path@ == observations@[a].path@
                && out@[e].user_id@
                    == spec_owner_of(incoming_dir@, observations@[a].path@));
        }
    }
    out
}

/// The file's name starts with a dot.
fn is_dotfile_exec(path: &str) -> (r: bool)
    ensures
        r == is_dotfile(path@),
{
    let base = crate::strutil::basename_of(path);
    if base.unicode_len() == 0 {
        false
    } else {
        base.as_str().get_char(0) == '.'
    }
}

/// An earlier poll saw the path with this size at least `delay` seconds
/// before `now`.
fn seen_stable_exec(seen: &Vec<SeenEntry>, path: &str, size: u64, now: i64, delay: i64)
    -> (r: bool)
    requires
        0 <= delay,
    ensures
        r == seen_stable(seen@, path@, size, now, delay),
{
    let mut i: usize = 0;
    while i < seen.len()
        invariant
            0 <= delay,
            i <= seen@.len(),
            forall|j: int| 0 <= j < i ==> !((#[trigger] seen@[j].path)@ == path@
                && seen@[j].size == size && seen@[j].at + delay <= now),
        decreases seen@.len() - i,
    {
        if crate::strutil::str_eq(seen[i].path.as_str(), path)
            && seen[i].size == size
            && seen[i].at <= i64::MAX - delay && seen[i].at + delay <= now {
            return true;
        }
        i = i + 1;
    }
    false
}

/// The key is already remembered as emitted.
fn key_emitted_exec(em: &Vec<EmittedKey>, path: &str, size: u64, mtime: i64) -> (r: bool)
    ensures
        r == key_emitted(em@, path@, size, mtime),
{
    let mut i: usize = 0;
    while i < em.len()
        invariant
            i <= em@.len(),
            forall|j: int| 0 <= j < i ==> !((#[trigger] em@[j].path)@ == path@
                && em@[j].size == size && em@[j].mtime == mtime),
        decreases em@.len() - i,
    {
        if crate::strutil::str_eq(em[i].path.as_str(), path)
            && em[i].size == size && em[i].mtime == mtime {
            return true;
        }
        i = i + 1;
    }
    false
}

} // verus!
