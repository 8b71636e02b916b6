//! Notification bus: user-directed messages, delivered to live sessions
//! and, when asked, persisted in the catalog.
//!
//! A message carries a topic, a human text, optional details, and
//! optional references to its user and media file.  Delivery pushes the
//! message to every live session of the addressed user; with
//! `persist` set it is also inserted into the catalog, unseen.  On login
//! a session replays every unseen persistent message of its user and
//! marks them seen, so a persistent message survives a reconnect and is
//! replayed exactly once.

use vstd::prelude::*;

use crate::catalog::{Catalog, CatalogState};
use crate::errors::{DBError, DBResult};
use crate::models::{Message, MessageInsert};
use crate::order::{Keyed, filter_by, lemma_filter_step};

verus! {

/// The event class of a user message.
#[derive(Clone, Copy, PartialEq, Eq, Structural, Debug)]
pub enum UserMessageTopic {
    Success,
    Error,
    Progress,
    MediaFileAdded,
    MediaFileUpdated,
}

/// The catalog's textual event name of a topic.
pub open spec fn spec_event_name(t: UserMessageTopic) -> Seq<char> {
    match t {
        UserMessageTopic::Success => "ok"@,
        UserMessageTopic::Error => "error"@,
        UserMessageTopic::Progress => "progress"@,
        UserMessageTopic::MediaFileAdded => "media-file-added"@,
        UserMessageTopic::MediaFileUpdated => "media-file-updated"@,
    }
}

/// The topic a textual event name stands for; unknown names fall back to
/// `Ok`, as the wire format converters always did.
pub open spec fn spec_topic_of_event_name(s: Seq<char>) -> UserMessageTopic {
    if s == "error"@ {
        UserMessageTopic::Error
    } else if s == "progress"@ {
        UserMessageTopic::Progress
    } else if s == "media-file-added"@ {
        UserMessageTopic::MediaFileAdded
    } else if s == "media-file-updated"@ {
        UserMessageTopic::MediaFileUpdated
    } else {
        UserMessageTopic::Success
    }
}

/// Convert a topic to its textual event name.
pub fn event_name_of_topic(t: &UserMessageTopic) -> (r: String)
    ensures
        r@ == spec_event_name(*t),
{
    match t {
        UserMessageTopic::Success => String::from_str("ok"),
        UserMessageTopic::Error => String::from_str("error"),
        UserMessageTopic::Progress => String::from_str("progress"),
        UserMessageTopic::MediaFileAdded => String::from_str("media-file-added"),
        UserMessageTopic::MediaFileUpdated => String::from_str("media-file-updated"),
    }
}

/// Convert a textual event name back to a topic.
pub fn topic_of_event_name(s: &str) -> (r: UserMessageTopic)
    ensures
        r == spec_topic_of_event_name(s@),
{
    if crate::strutil::str_eq(s, "error") {
        UserMessageTopic::Error
    } else if crate::strutil::str_eq(s, "progress") {
        UserMessageTopic::Progress
    } else if crate::strutil::str_eq(s, "media-file-added") {
        UserMessageTopic::MediaFileAdded
    } else if crate::strutil::str_eq(s, "media-file-updated") {
        UserMessageTopic::MediaFileUpdated
    } else {
        UserMessageTopic::Success
    }
}

/// Topic and event name convert back and forth without loss: the name of
/// a topic names that topic.
pub proof fn lemma_topic_name_round_trip(t: UserMessageTopic)
    ensures
        spec_topic_of_event_name(spec_event_name(t)) == t,
{
    reveal_strlit("ok");
    reveal_strlit("error");
    reveal_strlit("progress");
    reveal_strlit("media-file-added");
    reveal_strlit("media-file-updated");
    assert("ok"@.len() == 2);
    assert("error"@.len() == 5);
    assert("progress"@.len() == 8);
    assert("media-file-added"@.len() == 16);
    assert("media-file-updated"@.len() == 18);
}

/// A user-directed notification, as the pipeline stages emit it.
pub struct UserMessage {
    pub topic: UserMessageTopic,
    pub msg: String,
    pub details: Option<String>,
    pub user_id: Option<String>,
    pub media_file_id: Option<String>,
    /// Insert into the catalog so that the message survives until a
    /// session of the user has seen it.
    pub persist: bool,
}

impl Clone for UserMessage {
    fn clone(&self) -> (r: Self)
        ensures
            r == *self,
    {
        UserMessage {
            topic: self.topic,
            msg: self.msg.clone(),
            details: crate::models::clone_opt_string(&self.details),
            user_id: crate::models::clone_opt_string(&self.user_id),
            media_file_id: crate::models::clone_opt_string(&self.media_file_id),
            persist: self.persist,
        }
    }
}

/// A live client session: who is logged in, and what has been pushed to
/// the session so far.
pub struct Session {
    pub user_id: String,
    pub inbox: Vec<UserMessage>,
}

/// The notification bus: the live sessions.
pub struct Bus {
    pub sessions: Vec<Session>,
}

/// The message is addressed to the user of this session.
pub open spec fn addressed_to(m: UserMessage, session_user: Seq<char>) -> bool {
    m.user_id matches Some(u) && u@ == session_user
}

impl Bus {
    /// A bus with no live sessions.
    pub fn new() -> (r: Bus)
        ensures
            r.sessions@.len() == 0,
    {
        Bus { sessions: Vec::new() }
    }

    /// Attach a live session for a user.  Returns its index.
    pub fn connect(&mut self, user_id: &str) -> (sid: usize)
        ensures
            sid == old(self).sessions@.len(),
            final(self).sessions@.len() == old(self).sessions@.len() + 1,
            forall|i: int| 0 <= i < old(self).sessions@.len()
                ==> final(self).sessions@[i] == old(self).sessions@[i],
            final(self).sessions@.last().user_id@ == user_id@,
            final(self).sessions@.last().inbox@.len() == 0,
    {
        let n = self.sessions.len();
        self.sessions.push(Session { user_id: String::from_str(user_id), inbox: Vec::new() });
        n
    }

    /// Deliver a message: push it to every live session of the addressed
    /// user; when `persist` is set and the message names a user, insert
    /// it into the catalog, unseen.  A broken catalog fails persistence
    /// and leaves it unrecorded; live delivery still happens.
    pub fn deliver(&mut self, cat: &mut Catalog, m: &UserMessage) -> (r: DBResult<()>)
        requires
            old(cat).wf(),
        ensures
            final(cat).wf(),
            final(cat).spec_broken() == old(cat).spec_broken(),
            // Live delivery: sessions of the addressed user get the
            // message appended; every other session is untouched.
            final(self).sessions@.len() == old(self).sessions@.len(),
            forall|i: int| 0 <= i < old(self).sessions@.len()
                ==> (#[trigger] final(self).sessions@[i]).user_id == old(self).sessions@[i].user_id
                    && if addressed_to(*m, old(self).sessions@[i].user_id@) {
                        final(self).sessions@[i].inbox@ == old(self).sessions@[i].inbox@.push(*m)
                    } else {
                        final(self).sessions@[i].inbox@ == old(self).sessions@[i].inbox@
                    },
            // Persistence.
            !(m.persist && m.user_id is Some) ==> r is Ok && final(cat)@ == old(cat)@,
            m.persist && m.user_id is Some && old(cat).spec_broken()
                ==> (r matches Err(DBError::Backend(_))) && final(cat)@ == old(cat)@,
            m.persist && m.user_id is Some && !old(cat).spec_broken()
                && old(cat)@.next_message_id == i32::MAX
                ==> (r matches Err(DBError::Other(_))) && final(cat)@ == old(cat)@,
            m.persist && m.user_id is Some && !old(cat).spec_broken()
                && old(cat)@.next_message_id < i32::MAX
                ==> r is Ok
                    && final(cat)@.messages.len() == old(cat)@.messages.len() + 1
                    && ({
                        let row = final(cat)@.messages.last();
                        &&& final(cat)@ == (CatalogState {
                            messages: old(cat)@.messages.push(row),
                            next_message_id: old(cat)@.next_message_id + 1,
                            ..old(cat)@
                        })
                        &&& (match m.user_id {
                            Some(u) => row.user_id@ == u@,
                            None => false,
                        })
                        &&& row.event_name@ == spec_event_name(m.topic)
                        &&& row.message == m.msg
                        &&& row.video_id == m.media_file_id
                        &&& row.comment_id is None
                        &&& !row.seen
                        &&& row.details@ == (match m.details {
                            Some(d) => d@,
                            None => Seq::<char>::empty(),
                        })
                    }),
    {
        let ghost old_sessions = self.sessions@;
        let mut i: usize = 0;
        while i < self.sessions.len()
            invariant
                i <= self.sessions@.len(),
                self.sessions@.len() == old_sessions.len(),
                forall|j: int| i <= j < old_sessions.len()
                    ==> #[trigger] self.sessions@[j] == old_sessions[j],
                forall|j: int| 0 <= j < i
                    ==> (#[trigger] self.sessions@[j]).user_id == old_sessions[j].user_id
                        && if addressed_to(*m, old_sessions[j].user_id@) {
                            self.sessions@[j].inbox@ == old_sessions[j].inbox@.push(*m)
                        } else {
                            self.sessions@[j].inbox@ == old_sessions[j].inbox@
                        },
            decreases self.sessions@.len() - i,
        {
            let hit = match &m.user_id {
                Some(u) => crate::strutil::str_eq(self.sessions[i].user_id.as_str(), u.as_str()),
                None => false,
            };
            if hit {
                let mut session = self.sessions.remove(i);
                session.inbox.push(m.clone());
                self.sessions.insert(i, session);
                proof {
                    assert(self.sessions@[i as int].inbox@
                        =~= old_sessions[i as int].inbox@.push(*m));
                    assert(forall|j: int| i < j < old_sessions.len()
                        ==> #[trigger] self.sessions@[j] == old_sessions[j]);
                }
            }
            i = i + 1;
        }
        if m.persist {
            match &m.user_id {
                Some(u) => {
                    let ins = MessageInsert {
                        user_id: u.clone(),
                        seen: false,
                        video_id: crate::models::clone_opt_string(&m.media_file_id),
                        comment_id: None,
                        event_name: event_name_of_topic(&m.topic),
                        message: m.msg.clone(),
                        details: match &m.details {
                            Some(d) => d.clone(),
                            None => String::new(),
                        },
                    };
                    match Message::insert(cat, &ins) {
                        Ok(_) => Ok(()),
                        Err(e) => Err(e),
                    }
                },
                None => Ok(()),
            }
        } else {
            Ok(())
        }
    }
}

/// The unseen persistent messages of a user, oldest first.
pub open spec fn unseen_pred(uid: Seq<char>) -> spec_fn(Message) -> bool {
    |m: Message| m.user_id@ == uid && !m.seen
}

/// Rows after a login replay: every message of the user is marked seen,
/// everything else is untouched.
pub open spec fn mark_seen_for(ms: Seq<Message>, uid: Seq<char>) -> Seq<Message> {
    Seq::new(ms.len(), |i: int|
        if ms[i].user_id@ == uid {
            Message { seen: true, ..ms[i] }
        } else {
            ms[i]
        })
}

/// Replay on login: return every unseen message of the user, oldest
/// first as stored, and mark all of them seen.  Replaying twice delivers
/// a message only once: after the first replay nothing of the user is
/// unseen.
pub fn replay_on_login(cat: &mut Catalog, uid: &str) -> (r: DBResult<Vec<Message>>)
    requires
        old(cat).wf(),
    ensures
        final(cat).wf(),
        final(cat).spec_broken() == old(cat).spec_broken(),
        old(cat).spec_broken() ==> (r matches Err(DBError::Backend(_))) && final(cat)@ == old(cat)@,
        !old(cat).spec_broken() ==> (r matches Ok(rows)
            && rows@ == filter_by(old(cat)@.messages, unseen_pred(uid@))
            && final(cat)@ == (CatalogState {
                messages: mark_seen_for(old(cat)@.messages, uid@),
                ..old(cat)@
            })
            && (forall|i: int| 0 <= i < final(cat)@.messages.len()
                ==> ((#[trigger] final(cat)@.messages[i]).user_id@ == uid@
                    ==> final(cat)@.messages[i].seen))),
{
    if cat.is_broken() {
        return Err(DBError::Backend(String::from_str("catalog backend failure")));
    }
    let ghost ms = cat@.messages;
    let mut delivered: Vec<Message> = Vec::new();
    let mut updated: Vec<Message> = Vec::new();
    let mut i: usize = 0;
    proof {
        assert(ms.subrange(0, 0) =~= Seq::<Message>::empty());
        assert(filter_by(ms.subrange(0, 0), unseen_pred(uid@)) =~= delivered@);
    }
    while i < cat.message_count()
        invariant
            old(cat).wf(),
            *cat == *old(cat),
            cat@.messages == ms,
            i <= ms.len(),
            delivered@ == filter_by(ms.subrange(0, i as int), unseen_pred(uid@)),
            updated@.len() == i,
            forall|j: int| 0 <= j < i ==> #[trigger] updated@[j] == (if ms[j].user_id@ == uid@ {
                Message { seen: true, ..ms[j] }
            } else {
                ms[j]
            }),
        decreases ms.len() - i,
    {
        let row = cat.message_at(i);
        let is_user = crate::strutil::str_eq(row.user_id.as_str(), uid);
        proof {
            lemma_filter_step(ms, unseen_pred(uid@), i as int);
            assert(unseen_pred(uid@)(ms[i as int]) == (is_user && !row.seen));
        }
        if is_user {
            if !row.seen {
                delivered.push(row.clone());
            }
            let mut marked = row;
            marked.seen = true;
            updated.push(marked);
        } else {
            updated.push(row);
        }
        i = i + 1;
    }
    proof {
        assert(ms.subrange(0, ms.len() as int) =~= ms);
        assert(updated@ =~= mark_seen_for(ms, uid@));
    }
    cat.replace_messages(updated);
    proof {
        let newms = cat@.messages;
        assert(forall|a: int| 0 <= a < newms.len()
            ==> (#[trigger] newms[a]).id == ms[a].id
                && newms[a].created == ms[a].created
                && newms[a].user_id == ms[a].user_id);
        assert forall|a: int, b: int| 0 <= a <= b < newms.len()
            implies #[trigger] newms[a].key() <= #[trigger] newms[b].key() by {
            assert(newms[a].created == ms[a].created && newms[b].created == ms[b].created);
            assert(ms[a].key() <= ms[b].key());
        }
        assert forall|a: int, b: int| 0 <= a < b < newms.len()
            implies (#[trigger] newms[a]).id < (#[trigger] newms[b]).id by {
            assert(ms[a].id < ms[b].id);
        }
        assert forall|a: int| 0 <= a < newms.len()
            implies 1 <= (#[trigger] newms[a]).id < cat@.next_message_id
                && newms[a].created <= cat@.clock by {
            assert(1 <= ms[a].id < cat@.next_message_id);
            assert(ms[a].created <= cat@.clock);
        }
    }
    Ok(delivered)
}

/// Once every message of a user is seen, a further replay has nothing to
/// deliver: the unseen selection is empty.
pub proof fn lemma_replay_delivers_once(ms: Seq<Message>, uid: Seq<char>)
    requires
        forall|i: int| 0 <= i < ms.len()
            ==> ((#[trigger] ms[i]).user_id@ == uid ==> ms[i].seen),
    ensures
        filter_by(ms, unseen_pred(uid)).len() == 0,
    decreases ms.len(),
{
    if ms.len() > 0 {
        assert(forall|i: int| 0 <= i < ms.drop_last().len()
            ==> #[trigger] ms.drop_last()[i] == ms[i]);
        lemma_replay_delivers_once(ms.drop_last(), uid);
    }
}

} // verus!
