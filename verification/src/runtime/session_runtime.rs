//! Sessions that are started and stopped by id.

use vstd::prelude::*;
use crate::keyed::{
    distinct_keys, find, has_key, keyed_view, lemma_mapped, lemma_mapped_upsert,
    lemma_position_from, lemma_upsert, lookup, mapped, put, upsert,
};

verus! {

/// Where a session stands.
#[derive(Debug, Clone, Copy, PartialEq, Eq, Structural)]
pub enum SessionStatus {
    Idle,
    Running,
    Completed,
    Error,
}

/// A session: its id and where it stands.
#[derive(Debug, PartialEq)]
pub struct Session {
    pub id: String,
    pub status: SessionStatus,
}

impl Clone for Session {
    /// A copy with the same id and status.
    fn clone(&self) -> (r: Session)
        ensures
            r == *self,
    {
        Session { id: self.id.clone(), status: self.status }
    }
}

/// The value of a [`Session`].
pub struct SessionView {
    pub id: Seq<char>,
    pub status: SessionStatus,
}

impl View for Session {
    type V = SessionView;

    open spec fn view(&self) -> SessionView {
        SessionView { id: self.id@, status: self.status }
    }
}

/// The status of the session that a lookup found.
pub open spec fn status_of(found: Option<SessionView>) -> Option<SessionStatus> {
    match found {
        Some(session) => Some(session.status),
        None => None,
    }
}

/// Every session among `entries` carries the id that it is filed under.
pub open spec fn ids_match(entries: Seq<(Seq<char>, Session)>) -> bool {
    forall|i: int| 0 <= i < entries.len() ==> (#[trigger] entries[i]).0 == entries[i].1.id@
}

/// Filing a session under its own id keeps the ids in order.
proof fn lemma_filed(entries: Seq<(Seq<char>, Session)>, session: Session)
    requires
        ids_match(entries),
    ensures
        ids_match(upsert(entries, (session.id@, session))),
{
    lemma_position_from(entries, session.id@, 0);
    let after = upsert(entries, (session.id@, session));
    assert forall|i: int| 0 <= i < after.len() implies (#[trigger] after[i]).0
        == after[i].1.id@ by {
        if i < entries.len() && i != crate::keyed::position(entries, session.id@) {
            assert(after[i] == entries[i]);
        }
    }
}

/// The sessions that have been started.
pub struct Runtime {
    sessions: Vec<(String, Session)>,
}

impl Runtime {
    /// Every session by the id that it is filed under, in the order in
    /// which the ids first came in.
    pub closed spec fn sessions(&self) -> Seq<(Seq<char>, SessionView)> {
        mapped(keyed_view(self.sessions@), |s: Session| s@)
    }

    /// No id is held twice, and every session carries the id that it is
    /// filed under.
    pub closed spec fn wf(&self) -> bool {
        &&& distinct_keys(keyed_view(self.sessions@))
        &&& ids_match(keyed_view(self.sessions@))
    }

    /// In a table that is in order, no id is filed twice, and the session
    /// found under an id carries that id.
    pub proof fn lemma_ids_match(self, id: Seq<char>)
        requires
            self.wf(),
        ensures
            distinct_keys(self.sessions()),
            lookup(self.sessions(), id) matches Some(session) ==> session.id == id,
    {
        let entries = keyed_view(self.sessions@);
        lemma_mapped(entries, |s: Session| s@, id);
        lemma_position_from(entries, id, 0);
    }

    /// An empty table.
    pub fn new() -> (r: Runtime)
        ensures
            r.wf(),
            r.sessions().len() == 0,
    {
        Runtime { sessions: Vec::new() }
    }

    /// Starts the session `id`: a running session with that id is filed
    /// under it, whatever was there before. No other session changes.
    pub fn start_session(&mut self, id: &str)
        requires
            old(self).wf(),
        ensures
            final(self).wf(),
            final(self).sessions() == upsert(
                old(self).sessions(),
                (id@, SessionView { id: id@, status: SessionStatus::Running }),
            ),
    {
        let session = Session { id: id.to_string(), status: SessionStatus::Running };
        proof {
            lemma_upsert(keyed_view(self.sessions@), (id@, session));
            lemma_mapped_upsert(keyed_view(self.sessions@), |s: Session| s@, id@, session);
            lemma_filed(keyed_view(self.sessions@), session);
        }
        put(&mut self.sessions, id.to_string(), session);
    }

    /// Stops the session `id`: it is completed, and keeps its id. An
    /// unknown id changes nothing, and no other session changes.
    pub fn stop_session(&mut self, id: &str)
        requires
            old(self).wf(),
        ensures
            final(self).wf(),
            final(self).sessions() == if has_key(old(self).sessions(), id@) {
                upsert(
                    old(self).sessions(),
                    (id@, SessionView { id: id@, status: SessionStatus::Completed }),
                )
            } else {
                old(self).sessions()
            },
    {
        proof {
            lemma_mapped(keyed_view(self.sessions@), |s: Session| s@, id@);
        }
        match find(&self.sessions, id) {
            Some(i) => {
                let session = Session {
                    id: self.sessions[i].1.id.clone(),
                    status: SessionStatus::Completed,
                };
                proof {
                    lemma_upsert(keyed_view(self.sessions@), (id@, session));
                    lemma_mapped_upsert(keyed_view(self.sessions@), |s: Session| s@, id@, session);
                    lemma_position_from(keyed_view(self.sessions@), id@, 0);
                    lemma_filed(keyed_view(self.sessions@), session);
                }
                put(&mut self.sessions, id.to_string(), session);
            },
            None => {},
        }
    }

    /// The session filed under `id`, which carries that id.
    pub fn session(&self, id: &str) -> (r: Option<Session>)
        requires
            self.wf(),
        ensures
            match r {
                Some(session) => lookup(self.sessions(), id@) == Some(session@) && session.id@
                    == id@,
                None => lookup(self.sessions(), id@) is None,
            },
    {
        proof {
            lemma_mapped(keyed_view(self.sessions@), |s: Session| s@, id@);
            lemma_position_from(keyed_view(self.sessions@), id@, 0);
        }
        match find(&self.sessions, id) {
            Some(i) => Some(self.sessions[i].1.clone()),
            None => None,
        }
    }

    /// The status of the session `id`.
    pub fn status(&self, id: &str) -> (r: Option<SessionStatus>)
        ensures
            r == status_of(lookup(self.sessions(), id@)),
    {
        proof {
            lemma_mapped(keyed_view(self.sessions@), |s: Session| s@, id@);
        }
        match find(&self.sessions, id) {
            Some(i) => Some(self.sessions[i].1.status),
            None => None,
        }
    }
}

} // verus!
