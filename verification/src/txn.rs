//! Transactions and named savepoints over the catalog store.
//!
//! A transaction binds to the store when it begins and remembers the state
//! of that moment.  Mutations are applied to the store directly; `commit`
//! keeps them and forgets the snapshot, `rollback` puts the remembered
//! state back, so a rolled-back transaction leaves the catalog identical
//! to its pre-transaction snapshot.  Nested blocks use named savepoints:
//! `savepoint` remembers the current state under a name,
//! `rollback_to_savepoint` returns to the most recent savepoint of that
//! name (which stays set), and `release_savepoint` drops a savepoint and
//! everything nested inside it while keeping the changes.

use vstd::prelude::*;

use crate::catalog::{Catalog, CatalogState};
use crate::errors::{DBError, EmptyDBResult};

verus! {

/// An open transaction: the state to return to on rollback, and a stack
/// of named savepoints.
pub struct Transaction {
    base: Catalog,
    savepoints: Vec<(String, Catalog)>,
}

/// Index of the most recent savepoint carrying `name`, or -1.
pub open spec fn last_index_of(names: Seq<Seq<char>>, name: Seq<char>) -> int
    decreases names.len(),
{
    if names.len() == 0 {
        -1
    } else if names.last() == name {
        names.len() - 1
    } else {
        last_index_of(names.drop_last(), name)
    }
}

pub proof fn lemma_last_index_of(names: Seq<Seq<char>>, name: Seq<char>)
    ensures
        -1 <= last_index_of(names, name) < names.len(),
        last_index_of(names, name) >= 0 ==> last_index_of(names, name) < names.len()
            && names[last_index_of(names, name)] == name
            && forall|j: int| last_index_of(names, name) < j < names.len() ==> names[j] != name,
        last_index_of(names, name) == -1 ==> forall|j: int| 0 <= j < names.len() ==> names[j] != name,
    decreases names.len(),
{
    if names.len() > 0 && names.last() != name {
        lemma_last_index_of(names.drop_last(), name);
        assert(forall|j: int| 0 <= j < names.len() - 1
            ==> #[trigger] names[j] == names.drop_last()[j]);
    }
}

impl Transaction {
    /// The state the store had when the transaction began.
    pub closed spec fn base_state(&self) -> CatalogState {
        self.base@
    }

    /// Whether the store was broken when the transaction began.
    pub closed spec fn base_broken(&self) -> bool {
        self.base.spec_broken()
    }

    /// Names of the open savepoints, oldest first.
    pub closed spec fn savepoint_names(&self) -> Seq<Seq<char>> {
        Seq::new(self.savepoints@.len(), |i: int| self.savepoints@[i].0@)
    }

    /// Remembered states of the open savepoints, oldest first.
    pub closed spec fn savepoint_states(&self) -> Seq<CatalogState> {
        Seq::new(self.savepoints@.len(), |i: int| self.savepoints@[i].1@)
    }
}

/// Begin a transaction: remember the current state of the store.
pub fn begin(cat: &Catalog) -> (t: Transaction)
    ensures
        t.base_state() == cat@,
        t.base_broken() == cat.spec_broken(),
        t.savepoint_names().len() == 0,
{
    let t = Transaction { base: cat.snapshot(), savepoints: Vec::new() };
    proof {
        assert(t.savepoint_names() =~= Seq::<Seq<char>>::empty());
    }
    t
}

/// Commit: keep every change made since the transaction began and close
/// it.  The store is left exactly as it is.
pub fn commit(cat: &mut Catalog, t: Transaction)
    ensures
        final(cat)@ == old(cat)@,
        final(cat).spec_broken() == old(cat).spec_broken(),
{
    let _ = t;
}

/// Roll back: put the store back into the state remembered at `begin`,
/// and close the transaction.  The catalog afterwards is identical to its
/// pre-transaction snapshot.
pub fn rollback(cat: &mut Catalog, t: Transaction)
    ensures
        final(cat)@ == t.base_state(),
        final(cat).spec_broken() == t.base_broken(),
{
    let Transaction { base, savepoints: _ } = t;
    cat.restore(base);
}

/// Set a named savepoint remembering the current state of the store.
pub fn savepoint(t: &mut Transaction, cat: &Catalog, name: &str)
    ensures
        final(t).base_state() == old(t).base_state(),
        final(t).base_broken() == old(t).base_broken(),
        final(t).savepoint_names() == old(t).savepoint_names().push(name@),
        final(t).savepoint_states() == old(t).savepoint_states().push(cat@),
{
    t.savepoints.push((String::from_str(name), cat.snapshot()));
    proof {
        assert(t.savepoint_names() =~= old(t).savepoint_names().push(name@));
        assert(t.savepoint_states() =~= old(t).savepoint_states().push(cat@));
    }
}

/// Find the most recent savepoint carrying `name`.
fn find_savepoint(t: &Transaction, name: &str) -> (r: Option<usize>)
    ensures
        match r {
            Some(i) => i as int == last_index_of(t.savepoint_names(), name@)
                && (i as int) < t.savepoint_names().len(),
            None => last_index_of(t.savepoint_names(), name@) == -1,
        },
{
    let ghost names = t.savepoint_names();
    let mut i: usize = t.savepoints.len();
    while i > 0
        invariant
            i <= t.savepoints@.len(),
            names == t.savepoint_names(),
            names.len() == t.savepoints@.len(),
            forall|j: int| i <= j < names.len() ==> #[trigger] names[j] != name@,
        decreases i,
    {
        i = i - 1;
        if crate::strutil::str_eq(t.savepoints[i].0.as_str(), name) {
            proof {
                lemma_last_index_of(names, name@);
                assert(names[i as int] == name@);
                if last_index_of(names, name@) > i as int {
                    assert(names[last_index_of(names, name@)] != name@);
                }
                if last_index_of(names, name@) < i as int {
                    assert(names[i as int] != name@);
                }
            }
            return Some(i);
        }
    }
    proof {
        lemma_last_index_of(names, name@);
        if last_index_of(names, name@) >= 0 {
            assert(names[last_index_of(names, name@)] == name@);
        }
    }
    None
}

/// Release the most recent savepoint of this name: drop it and every
/// savepoint nested inside it, keeping all changes.  Returns whether a
/// savepoint of this name existed.
pub fn release_savepoint(t: &mut Transaction, name: &str) -> (r: bool)
    ensures
        final(t).base_state() == old(t).base_state(),
        final(t).base_broken() == old(t).base_broken(),
        ({
            let idx = last_index_of(old(t).savepoint_names(), name@);
            if idx >= 0 {
                r == true
                && final(t).savepoint_names() == old(t).savepoint_names().subrange(0, idx)
                && final(t).savepoint_states() == old(t).savepoint_states().subrange(0, idx)
            } else {
                r == false
                && final(t).savepoint_names() == old(t).savepoint_names()
                && final(t).savepoint_states() == old(t).savepoint_states()
            }
        }),
{
    match find_savepoint(t, name) {
        Some(i) => {
            t.savepoints.truncate(i);
            proof {
                let idx = last_index_of(old(t).savepoint_names(), name@);
                lemma_last_index_of(old(t).savepoint_names(), name@);
                assert(t.savepoint_names()
                    =~= old(t).savepoint_names().subrange(0, idx));
                assert(t.savepoint_states()
                    =~= old(t).savepoint_states().subrange(0, idx));
            }
            true
        },
        None => false,
    }
}

/// Roll the store back to the most recent savepoint of this name.  The
/// savepoint stays set; savepoints nested inside it are dropped.  Fails
/// with `NotFound` when no savepoint of this name is open.
pub fn rollback_to_savepoint(t: &mut Transaction, cat: &mut Catalog, name: &str)
    -> (r: EmptyDBResult)
    ensures
        final(t).base_state() == old(t).base_state(),
        final(t).base_broken() == old(t).base_broken(),
        ({
            let idx = last_index_of(old(t).savepoint_names(), name@);
            if idx >= 0 {
                r is Ok
                && final(cat)@ == old(t).savepoint_states()[idx]
                && final(t).savepoint_names() == old(t).savepoint_names().subrange(0, idx + 1)
                && final(t).savepoint_states() == old(t).savepoint_states().subrange(0, idx + 1)
            } else {
                r == Err::<(), DBError>(DBError::NotFound)
                && final(cat)@ == old(cat)@
                && final(cat).spec_broken() == old(cat).spec_broken()
                && final(t).savepoint_names() == old(t).savepoint_names()
                && final(t).savepoint_states() == old(t).savepoint_states()
            }
        }),
{
    match find_savepoint(t, name) {
        Some(i) => {
            let n = t.savepoints.len();
            assert(i < n);
            let saved = t.savepoints[i].1.snapshot();
            cat.restore(saved);
            t.savepoints.truncate(i + 1);
            proof {
                let idx = last_index_of(old(t).savepoint_names(), name@);
                lemma_last_index_of(old(t).savepoint_names(), name@);
                assert(t.savepoint_names()
                    =~= old(t).savepoint_names().subrange(0, idx + 1));
                assert(t.savepoint_states()
                    =~= old(t).savepoint_states().subrange(0, idx + 1));
            }
            Ok(())
        },
        None => Err(DBError::NotFound),
    }
}

} // verus!
