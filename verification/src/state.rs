//! The session registry: sessions, their message logs, their provider
//! settings and the permission requests that await an answer.
//!
//! The registry is plain data. Whoever shares it between tasks wraps it in
//! a lock; every method here is one atomic step under that lock.

use vstd::prelude::*;
use std::time::{SystemTime, UNIX_EPOCH};
use tokio::sync::oneshot::Sender;
use crate::events::{PermissionMode, SessionInfo, SessionStatus};
use crate::json::{json_views, Json, JsonView};
use crate::keyed::{
    distinct_keys, find, get, has_key, keyed_view, lemma_mapped, lemma_mapped_upsert, lemma_upsert,
    lemma_without, lookup, mapped, put, take, upsert, values, without,
};
use crate::providers::registry::{clone_text, ProviderKind};
use crate::text::{push_signed_decimal, signed_decimal, str_eq, views};

verus! {

/// How one session reaches its model.
#[derive(Debug, PartialEq)]
pub struct ProviderSettings {
    pub provider: ProviderKind,
    pub api_key: String,
    pub model: String,
    pub base_url: Option<String>,
    pub permission_mode: PermissionMode,
}

impl Clone for ProviderSettings {
    /// A copy with the same fields.
    fn clone(&self) -> (r: ProviderSettings)
        ensures
            r == *self,
    {
        ProviderSettings {
            provider: self.provider,
            api_key: self.api_key.clone(),
            model: self.model.clone(),
            base_url: clone_text(&self.base_url),
            permission_mode: self.permission_mode,
        }
    }
}

/// `tokio::sync::oneshot::Sender`, the sending half of a channel that
/// carries one value.
#[verifier::external_type_specification]
#[verifier::external_body]
#[verifier::reject_recursive_types(T)]
pub struct ExSender<T>(Sender<T>);

/// `tokio::sync::oneshot::Sender::send`: hands `value` to the receiving
/// half and uses the sender up. Says whether the receiver was still there;
/// nothing is claimed of that.
#[verifier::external_body]
fn send_reply(sender: Sender<Json>, value: Json) -> (delivered: bool) {
    sender.send(value).is_ok()
}

/// `std::time::SystemTime::now`, as milliseconds since the Unix epoch; 0
/// where the clock stands before the epoch. Nothing is claimed of the
/// result.
#[verifier::external_body]
pub(crate) fn now_ms() -> (now: i64) {
    SystemTime::now().duration_since(UNIX_EPOCH).map(|d| d.as_millis() as i64).unwrap_or(0)
}

/// Whether `list` holds the text `text`.
pub fn contains_text(list: &Vec<String>, text: &str) -> (r: bool)
    ensures
        r == views(list@).contains(text@),
{
    let mut i: usize = 0;
    while i < list.len()
        invariant
            i <= list.len(),
            forall|k: int| 0 <= k < i ==> views(list@)[k] != text@,
        decreases list.len() - i,
    {
        if str_eq(list[i].as_str(), text) {
            assert(views(list@)[i as int] == text@);
            return true;
        }
        i += 1;
    }
    false
}

/// The id of a session created at `now`.
pub open spec fn session_id(now: int) -> Seq<char> {
    "session-"@ + signed_decimal(now)
}

/// Different times make different ids.
pub proof fn lemma_ids_differ(a: int, b: int)
    requires
        a != b,
    ensures
        session_id(a) != session_id(b),
{
    let head = "session-"@;
    if session_id(a) == session_id(b) {
        assert(session_id(a).subrange(head.len() as int, session_id(a).len() as int)
            =~= signed_decimal(a));
        assert(session_id(b).subrange(head.len() as int, session_id(b).len() as int)
            =~= signed_decimal(b));
        assert(signed_decimal(a) == signed_decimal(b));
        crate::text::lemma_signed_decimal_reads_back(a);
        crate::text::lemma_signed_decimal_reads_back(b);
    }
}

/// The view of a message log.
pub open spec fn log_view(log: Vec<Json>) -> Seq<JsonView> {
    json_views(log@)
}

/// `session` after an update at `now`: the new status, the new title and
/// working directory where one is given, and `now` as the time of the last
/// change.
pub open spec fn updated(
    session: SessionInfo,
    status: SessionStatus,
    title: Option<String>,
    cwd: Option<String>,
    now: i64,
) -> SessionInfo {
    SessionInfo {
        id: session.id,
        title: match title {
            Some(t) => t,
            None => session.title,
        },
        status: status,
        cwd: match cwd {
            Some(c) => Some(c),
            None => session.cwd,
        },
        claude_session_id: session.claude_session_id,
        provider: session.provider,
        model: session.model,
        created_at: session.created_at,
        updated_at: now,
    }
}

/// The sorted list `sorted` with `x` put in after every session that was
/// not changed later than `x`.
pub open spec fn inserted(sorted: Seq<SessionInfo>, x: SessionInfo) -> Seq<SessionInfo>
    decreases sorted.len(),
{
    if sorted.len() == 0 {
        seq![x]
    } else if sorted.last().updated_at <= x.updated_at {
        sorted.push(x)
    } else {
        inserted(sorted.drop_last(), x).push(sorted.last())
    }
}

/// The sessions `s` in the order of their last change, earliest first;
/// sessions changed at the same time keep the order they have in `s`.
pub open spec fn by_update(s: Seq<SessionInfo>) -> Seq<SessionInfo>
    decreases s.len(),
{
    if s.len() == 0 {
        seq![]
    } else {
        inserted(by_update(s.drop_last()), s.last())
    }
}

/// The times of last change never fall along `s`.
pub open spec fn rising(s: Seq<SessionInfo>) -> bool {
    forall|i: int, j: int|
        0 <= i < j < s.len() ==> (#[trigger] s[i]).updated_at <= (#[trigger] s[j]).updated_at
}

/// Where `inserted` puts `x`: at `at`, if every session from `at` on was
/// changed later than `x` and the one before `at`, if any, was not.
pub proof fn lemma_inserted_at(sorted: Seq<SessionInfo>, x: SessionInfo, at: int)
    requires
        0 <= at <= sorted.len(),
        forall|k: int| at <= k < sorted.len() ==> (#[trigger] sorted[k]).updated_at > x.updated_at,
        at > 0 ==> sorted[at - 1].updated_at <= x.updated_at,
    ensures
        inserted(sorted, x) == sorted.insert(at, x),
    decreases sorted.len(),
{
    if sorted.len() == 0 {
        assert(sorted.insert(at, x) =~= seq![x]);
    } else if at == sorted.len() {
        assert(sorted.insert(at, x) =~= sorted.push(x));
    } else {
        let front = sorted.drop_last();
        assert(sorted.last().updated_at > x.updated_at);
        assert forall|k: int| at <= k < front.len() implies (#[trigger] front[k]).updated_at
            > x.updated_at by {
            assert(front[k] == sorted[k]);
        }
        if at > 0 {
            assert(front[at - 1] == sorted[at - 1]);
        }
        lemma_inserted_at(front, x, at);
        assert(front.insert(at, x).push(sorted.last()) =~= sorted.insert(at, x));
    }
}

/// Putting a session into a sorted list keeps it sorted and adds that
/// session and no other.
pub proof fn lemma_inserted(sorted: Seq<SessionInfo>, x: SessionInfo)
    requires
        rising(sorted),
    ensures
        rising(inserted(sorted, x)),
        inserted(sorted, x).to_multiset() == sorted.to_multiset().insert(x),
        inserted(sorted, x).len() == sorted.len() + 1,
    decreases sorted.len(),
{
    broadcast use vstd::seq_lib::group_to_multiset_ensures;

    if sorted.len() == 0 {
        assert(seq![x] =~= Seq::<SessionInfo>::empty().push(x));
    } else if sorted.last().updated_at <= x.updated_at {
        let t = sorted.push(x);
        assert forall|i: int, j: int| 0 <= i < j < t.len() implies (#[trigger] t[i]).updated_at <= (
        #[trigger] t[j]).updated_at by {
            if j < sorted.len() {
                assert(sorted[i].updated_at <= sorted[j].updated_at);
            } else if i < sorted.len() - 1 {
                assert(sorted[i].updated_at <= sorted[sorted.len() - 1].updated_at);
            }
        }
    } else {
        let front = sorted.drop_last();
        assert forall|i: int, j: int| 0 <= i < j < front.len() implies (
        #[trigger] front[i]).updated_at <= (#[trigger] front[j]).updated_at by {
            assert(sorted[i].updated_at <= sorted[j].updated_at);
        }
        lemma_inserted(front, x);
        let u = inserted(front, x);
        let t = u.push(sorted.last());
        assert(sorted =~= front.push(sorted.last()));
        assert forall|i: int| 0 <= i < u.len() implies (#[trigger] u[i]).updated_at
            <= sorted.last().updated_at by {
            assert(u.to_multiset().count(u[i]) > 0);
            if u[i] != x {
                assert(front.to_multiset().count(u[i]) > 0);
                assert(front.contains(u[i]));
                let k = choose|k: int| 0 <= k < front.len() && front[k] == u[i];
                assert(sorted[k].updated_at <= sorted[sorted.len() - 1].updated_at);
            }
        }
        assert forall|i: int, j: int| 0 <= i < j < t.len() implies (#[trigger] t[i]).updated_at <= (
        #[trigger] t[j]).updated_at by {
            if j < u.len() {
                assert(u[i].updated_at <= u[j].updated_at);
            } else {
                assert(u[i].updated_at <= sorted.last().updated_at);
            }
        }
        assert(t.to_multiset() =~= sorted.to_multiset().insert(x));
    }
}

/// The sorted list holds the sessions of the list it was made from, each as
/// often as that list does, in rising order of their last change.
pub proof fn lemma_by_update(s: Seq<SessionInfo>)
    ensures
        rising(by_update(s)),
        by_update(s).to_multiset() == s.to_multiset(),
        by_update(s).len() == s.len(),
    decreases s.len(),
{
    broadcast use vstd::seq_lib::group_to_multiset_ensures;

    if s.len() > 0 {
        lemma_by_update(s.drop_last());
        lemma_inserted(by_update(s.drop_last()), s.last());
        assert(s =~= s.drop_last().push(s.last()));
    } else {
        assert(s =~= Seq::<SessionInfo>::empty());
    }
}

/// The working directories that a walk from index `upto` of `sessions`
/// down to its start adds to `found`: each directory once, in the order in
/// which the walk meets it. The walk ends after the session that brings the
/// number found to `limit`.
pub open spec fn cwds_walk(
    sessions: Seq<SessionInfo>,
    upto: int,
    found: Seq<Seq<char>>,
    limit: nat,
) -> Seq<Seq<char>>
    decreases upto,
{
    if upto <= 0 || upto > sessions.len() {
        found
    } else {
        let next = match sessions[upto - 1].cwd {
            Some(cwd) => if found.contains(cwd@) {
                found
            } else {
                found.push(cwd@)
            },
            None => found,
        };
        if next.len() >= limit {
            next
        } else {
            cwds_walk(sessions, upto - 1, next, limit)
        }
    }
}

/// The working directories of the sessions `sessions`, given in rising
/// order of their last change: most recent first, each once, `limit` at
/// most.
pub open spec fn recent_cwds_of(sessions: Seq<SessionInfo>, limit: nat) -> Seq<Seq<char>> {
    cwds_walk(sessions, sessions.len() as int, seq![], limit)
}

/// A walk that starts without repeats and with no more than `limit`
/// directories ends so, as long as `limit` is not 0.
pub proof fn lemma_cwds_walk(
    sessions: Seq<SessionInfo>,
    upto: int,
    found: Seq<Seq<char>>,
    limit: nat,
)
    requires
        limit >= 1,
        found.no_duplicates(),
        found.len() < limit,
    ensures
        cwds_walk(sessions, upto, found, limit).no_duplicates(),
        cwds_walk(sessions, upto, found, limit).len() <= limit,
    decreases upto,
{
    if 0 < upto <= sessions.len() {
        let next = match sessions[upto - 1].cwd {
            Some(cwd) => if found.contains(cwd@) {
                found
            } else {
                found.push(cwd@)
            },
            None => found,
        };
        assert(next.no_duplicates()) by {
            if next != found {
                let c = sessions[upto - 1].cwd->Some_0@;
                assert forall|i: int, j: int|
                    0 <= i < next.len() && 0 <= j < next.len() && i != j implies next[i]
                    != next[j] by {
                    if i < found.len() && j < found.len() {
                    } else if i < found.len() {
                        assert(found.contains(found[i]));
                    } else {
                        assert(found.contains(found[j]));
                    }
                }
            }
        }
        if next.len() < limit {
            lemma_cwds_walk(sessions, upto - 1, next, limit);
        }
    }
}

/// The registry `post` is the registry `pre` with the session `session`
/// newly created in it under the title `title`, in the working directory
/// `cwd` and with the settings `provider`: the session is running, was
/// created and last changed at one time, carries the id made from that
/// time, and stands under that id with its settings; its log is empty
/// unless the id had a log already.
pub open spec fn session_created(
    pre: SessionState,
    post: SessionState,
    session: SessionInfo,
    title: String,
    cwd: Option<String>,
    provider: ProviderSettings,
) -> bool {
    &&& session.id@ == session_id(session.created_at as int)
    &&& session.title == title
    &&& session.status == SessionStatus::Running
    &&& session.cwd == cwd
    &&& session.claude_session_id is None
    &&& session.provider == Some(provider.provider)
    &&& session.model == Some(provider.model)
    &&& session.updated_at == session.created_at
    &&& post.sessions() == upsert(pre.sessions(), (session.id@, session))
    &&& post.logs() == if has_key(pre.logs(), session.id@) {
        pre.logs()
    } else {
        pre.logs().push((session.id@, Seq::empty()))
    }
    &&& post.providers() == upsert(pre.providers(), (session.id@, provider))
    &&& post.pending() == pre.pending()
}

/// The registry `post` is the registry `pre` with the status of the session
/// `id` set to `status` at some time: nothing else has changed, and nothing
/// at all if there is no such session.
pub open spec fn status_set(
    pre: SessionState,
    post: SessionState,
    id: Seq<char>,
    status: SessionStatus,
) -> bool {
    &&& post.logs() == pre.logs()
    &&& post.providers() == pre.providers()
    &&& post.pending() == pre.pending()
    &&& match lookup(pre.sessions(), id) {
        Some(session) => exists|now: i64|
            post.sessions() == upsert(
                pre.sessions(),
                (id, #[trigger] updated(session, status, None, None, now)),
            ),
        None => post == pre,
    }
}

/// The registry `post` is the registry `pre` with the status of the session
/// `id` set to `status` at some time and the permission request pending
/// under `request` withdrawn: nothing else has changed.
pub open spec fn status_set_withdrawn(
    pre: SessionState,
    post: SessionState,
    id: Seq<char>,
    status: SessionStatus,
    request: Seq<char>,
) -> bool {
    &&& post.logs() == pre.logs()
    &&& post.providers() == pre.providers()
    &&& post.pending() == without(pre.pending(), request)
    &&& match lookup(pre.sessions(), id) {
        Some(session) => exists|now: i64|
            post.sessions() == upsert(
                pre.sessions(),
                (id, #[trigger] updated(session, status, None, None, now)),
            ),
        None => post.sessions() == pre.sessions(),
    }
}

/// The registry of sessions.
pub struct SessionState {
    sessions: Vec<(String, SessionInfo)>,
    messages: Vec<(String, Vec<Json>)>,
    providers: Vec<(String, ProviderSettings)>,
    pending_permissions: Vec<(String, Sender<Json>)>,
}

impl Default for SessionState {
    /// An empty registry.
    fn default() -> (r: SessionState)
        ensures
            r.wf(),
            r.sessions().len() == 0,
            r.logs().len() == 0,
            r.providers().len() == 0,
            r.pending().len() == 0,
    {
        SessionState::new()
    }
}

impl SessionState {
    /// The sessions by id, in the order in which their ids first came in.
    pub closed spec fn sessions(&self) -> Seq<(Seq<char>, SessionInfo)> {
        keyed_view(self.sessions@)
    }

    /// The message logs by session id.
    pub closed spec fn logs(&self) -> Seq<(Seq<char>, Seq<JsonView>)> {
        mapped(keyed_view(self.messages@), |log: Vec<Json>| log_view(log))
    }

    /// The provider settings by session id.
    pub closed spec fn providers(&self) -> Seq<(Seq<char>, ProviderSettings)> {
        keyed_view(self.providers@)
    }

    /// The permission requests that await an answer, by tool-use id.
    pub closed spec fn pending(&self) -> Seq<(Seq<char>, Sender<Json>)> {
        keyed_view(self.pending_permissions@)
    }

    /// The registry is in order: no id twice in any of its four lists, and
    /// every session filed under its own id, which is the id made from the
    /// time of its creation.
    pub closed spec fn wf(&self) -> bool {
        &&& distinct_keys(self.sessions())
        &&& distinct_keys(keyed_view(self.messages@))
        &&& distinct_keys(self.providers())
        &&& distinct_keys(self.pending())
        &&& forall|i: int|
            0 <= i < self.sessions().len() ==> (#[trigger] self.sessions()[i]).0
                == self.sessions()[i].1.id@ && self.sessions()[i].1.id@ == session_id(
                self.sessions()[i].1.created_at as int,
            )
    }

    /// The message log of the session `id`; empty for an unknown session.
    pub open spec fn log_of(&self, id: Seq<char>) -> Seq<JsonView> {
        match lookup(self.logs(), id) {
            Some(log) => log,
            None => Seq::empty(),
        }
    }

    /// In a registry that is in order no id occurs twice: not among the
    /// sessions, the logs or the provider settings, and not among the
    /// pending permission requests.
    pub proof fn lemma_ids_unique(self)
        requires
            self.wf(),
        ensures
            distinct_keys(self.sessions()),
            distinct_keys(self.logs()),
            distinct_keys(self.providers()),
            distinct_keys(self.pending()),
    {
        lemma_mapped(keyed_view(self.messages@), |log: Vec<Json>| log_view(log), Seq::empty());
    }

    /// A session found under an id carries that id, which is the id made
    /// from the time of its creation.
    pub proof fn lemma_session_id(self, id: Seq<char>)
        requires
            self.wf(),
            has_key(self.sessions(), id),
        ensures
            lookup(self.sessions(), id)->Some_0.id@ == id,
            id == session_id(lookup(self.sessions(), id)->Some_0.created_at as int),
    {
        crate::keyed::lemma_position_from(self.sessions(), id, 0);
    }

    /// Ids are fresh as long as the clock moves on: a time at which no
    /// session of the registry was created makes an id that no session of
    /// the registry has.
    pub proof fn lemma_new_time_new_id(self, now: int)
        requires
            self.wf(),
            forall|i: int|
                0 <= i < self.sessions().len() ==> (#[trigger] self.sessions()[i]).1.created_at
                    != now,
        ensures
            !has_key(self.sessions(), session_id(now)),
    {
        let id = session_id(now);
        crate::keyed::lemma_position_from(self.sessions(), id, 0);
        if has_key(self.sessions(), id) {
            let p = crate::keyed::position(self.sessions(), id);
            let held = self.sessions()[p].1;
            assert(held.id@ == session_id(held.created_at as int));
            lemma_ids_differ(held.created_at as int, now);
        }
    }

    /// An empty registry.
    pub fn new() -> (r: SessionState)
        ensures
            r.wf(),
            r.sessions().len() == 0,
            r.logs().len() == 0,
            r.providers().len() == 0,
            r.pending().len() == 0,
    {
        SessionState {
            sessions: Vec::new(),
            messages: Vec::new(),
            providers: Vec::new(),
            pending_permissions: Vec::new(),
        }
    }

    /// The session `id`.
    pub fn get_session(&self, id: &str) -> (r: Option<SessionInfo>)
        ensures
            r == lookup(self.sessions(), id@),
    {
        match get(&self.sessions, id) {
            Some(session) => Some(session.clone()),
            None => None,
        }
    }

    /// A copy of the message log of the session `id`; empty for an unknown
    /// session.
    pub fn get_messages(&self, id: &str) -> (r: Vec<Json>)
        ensures
            json_views(r@) == self.log_of(id@),
    {
        proof {
            lemma_mapped(keyed_view(self.messages@), |log: Vec<Json>| log_view(log), id@);
        }
        match get(&self.messages, id) {
            Some(log) => {
                let mut out: Vec<Json> = Vec::new();
                let mut i: usize = 0;
                while i < log.len()
                    invariant
                        i <= log.len(),
                        out.len() == i,
                        forall|k: int| 0 <= k < i ==> out@[k]@ == log@[k]@,
                    decreases log.len() - i,
                {
                    out.push(log[i].clone());
                    i += 1;
                }
                assert(json_views(out@) =~= json_views(log@));
                out
            },
            None => {
                let out: Vec<Json> = Vec::new();
                assert(json_views(out@) =~= Seq::<JsonView>::empty());
                out
            },
        }
    }

    /// The provider settings of the session `id`.
    pub fn get_provider(&self, id: &str) -> (r: Option<ProviderSettings>)
        ensures
            r == lookup(self.providers(), id@),
    {
        match get(&self.providers, id) {
            Some(settings) => Some(settings.clone()),
            None => None,
        }
    }

    /// Creates a session at the time `now`: running, under the id
    /// `session-<now>`, with an empty log unless the id has one already, and
    /// with `provider` as its settings.
    pub fn create_session_at(
        &mut self,
        title: String,
        cwd: Option<String>,
        provider: ProviderSettings,
        now: i64,
    ) -> (r: SessionInfo)
        requires
            old(self).wf(),
        ensures
            final(self).wf(),
            r.id@ == session_id(now as int),
            r.title == title,
            r.status == SessionStatus::Running,
            r.cwd == cwd,
            r.claude_session_id is None,
            r.provider == Some(provider.provider),
            r.model == Some(provider.model),
            r.created_at == now,
            r.updated_at == now,
            final(self).sessions() == upsert(old(self).sessions(), (r.id@, r)),
            final(self).logs() == if has_key(old(self).logs(), r.id@) {
                old(self).logs()
            } else {
                old(self).logs().push((r.id@, Seq::empty()))
            },
            final(self).providers() == upsert(old(self).providers(), (r.id@, provider)),
            final(self).pending() == old(self).pending(),
    {
        let mut id = "session-".to_string();
        push_signed_decimal(&mut id, now);
        let session = SessionInfo {
            id: id.clone(),
            title,
            status: SessionStatus::Running,
            cwd,
            claude_session_id: None,
            provider: Some(provider.provider),
            model: Some(provider.model.clone()),
            created_at: now,
            updated_at: now,
        };
        let ghost f = |log: Vec<Json>| log_view(log);
        proof {
            lemma_upsert(self.sessions(), (id@, session));
            lemma_upsert(self.providers(), (id@, provider));
            lemma_mapped(keyed_view(self.messages@), f, id@);
            crate::keyed::lemma_position_from(self.sessions(), id@, 0);
        }
        put(&mut self.sessions, id.clone(), session.clone());
        if find(&self.messages, id.as_str()).is_none() {
            let empty: Vec<Json> = Vec::new();
            proof {
                crate::keyed::lemma_push_all(keyed_view(self.messages@), (id@, empty));
                assert(log_view(empty) =~= Seq::<JsonView>::empty());
                assert(mapped(keyed_view(self.messages@).push((id@, empty)), f) =~= mapped(
                    keyed_view(self.messages@),
                    f,
                ).push((id@, Seq::empty())));
            }
            self.messages.push((id.clone(), empty));
            assert(keyed_view(self.messages@) =~= keyed_view(old(self).messages@).push(
                (id@, empty),
            ));
        }
        put(&mut self.providers, id, provider);
        session
    }

    /// Creates a session at the present time; see
    /// [`SessionState::create_session_at`].
    pub fn create_session(
        &mut self,
        title: String,
        cwd: Option<String>,
        provider: ProviderSettings,
    ) -> (r: SessionInfo)
        requires
            old(self).wf(),
        ensures
            final(self).wf(),
            session_created(*old(self), *final(self), r, title, cwd, provider),
    {
        let now = now_ms();
        self.create_session_at(title, cwd, provider, now)
    }

    /// Updates the session `id` at the time `now` and hands back its new
    /// record. An unknown id changes nothing.
    pub fn update_session_at(
        &mut self,
        id: &str,
        status: SessionStatus,
        title: Option<String>,
        cwd: Option<String>,
        now: i64,
    ) -> (r: Option<SessionInfo>)
        requires
            old(self).wf(),
        ensures
            final(self).wf(),
            final(self).logs() == old(self).logs(),
            final(self).providers() == old(self).providers(),
            final(self).pending() == old(self).pending(),
            match lookup(old(self).sessions(), id@) {
                Some(session) => {
                    &&& r == Some(updated(session, status, title, cwd, now))
                    &&& final(self).sessions() == upsert(
                        old(self).sessions(),
                        (id@, updated(session, status, title, cwd, now)),
                    )
                },
                None => r is None && *final(self) == *old(self),
            },
    {
        match find(&self.sessions, id) {
            Some(i) => {
                let ghost before = self.sessions();
                let entry = self.sessions.remove(i);
                let old_session = entry.1;
                let session = SessionInfo {
                    id: old_session.id,
                    title: match title {
                        Some(t) => t,
                        None => old_session.title,
                    },
                    status,
                    cwd: match cwd {
                        Some(c) => Some(c),
                        None => old_session.cwd,
                    },
                    claude_session_id: old_session.claude_session_id,
                    provider: old_session.provider,
                    model: old_session.model,
                    created_at: old_session.created_at,
                    updated_at: now,
                };
                let copy = session.clone();
                self.sessions.insert(i, (entry.0, session));
                proof {
                    lemma_upsert(before, (id@, copy));
                    assert(self.sessions() =~= before.update(i as int, (id@, copy)));
                }
                Some(copy)
            },
            None => None,
        }
    }

    /// Updates the session `id` at the present time; see
    /// [`SessionState::update_session_at`].
    pub fn update_session(
        &mut self,
        id: &str,
        status: SessionStatus,
        title: Option<String>,
        cwd: Option<String>,
    ) -> (r: Option<SessionInfo>)
        requires
            old(self).wf(),
        ensures
            final(self).wf(),
            final(self).logs() == old(self).logs(),
            final(self).providers() == old(self).providers(),
            final(self).pending() == old(self).pending(),
            match lookup(old(self).sessions(), id@) {
                Some(session) => {
                    &&& r matches Some(now_session)
                    &&& now_session == updated(session, status, title, cwd, now_session.updated_at)
                    &&& final(self).sessions() == upsert(old(self).sessions(), (id@, now_session))
                },
                None => r is None && *final(self) == *old(self),
            },
    {
        let now = now_ms();
        self.update_session_at(id, status, title, cwd, now)
    }

    /// The sessions in rising order of their last change.
    pub fn list_sessions(&self) -> (r: Vec<SessionInfo>)
        ensures
            r@ == by_update(values(self.sessions())),
            rising(r@),
            r@.to_multiset() == values(self.sessions()).to_multiset(),
    {
        let ghost all = values(self.sessions());
        let mut out: Vec<SessionInfo> = Vec::new();
        let mut i: usize = 0;
        assert(all.take(0) =~= Seq::<SessionInfo>::empty());
        while i < self.sessions.len()
            invariant
                i <= self.sessions.len(),
                all == values(self.sessions()),
                all.len() == self.sessions.len(),
                out@ == by_update(all.take(i as int)),
            decreases self.sessions.len() - i,
        {
            let session = self.sessions[i].1.clone();
            proof {
                assert(all.take(i + 1).drop_last() =~= all.take(i as int));
                assert(all.take(i + 1).last() == session);
                lemma_by_update(all.take(i as int));
            }
            let mut at: usize = out.len();
            while at > 0 && out[at - 1].updated_at > session.updated_at
                invariant
                    at <= out.len(),
                    forall|k: int|
                        at <= k < out.len() ==> (#[trigger] out@[k]).updated_at
                            > session.updated_at,
                decreases at,
            {
                at -= 1;
            }
            proof {
                lemma_inserted_at(out@, session, at as int);
            }
            out.insert(at, session);
            i += 1;
        }
        proof {
            assert(all.take(i as int) =~= all);
            lemma_by_update(all);
        }
        out
    }

    /// The working directories of the sessions, most recently changed
    /// first, each once, up to `limit` of them. With a limit of 0 the walk
    /// still looks at the most recent session and hands back its directory,
    /// if it has one.
    pub fn list_recent_cwds(&self, limit: usize) -> (r: Vec<String>)
        ensures
            views(r@) == recent_cwds_of(by_update(values(self.sessions())), limit as nat),
            limit >= 1 ==> views(r@).no_duplicates() && r@.len() <= limit,
    {
        let list = self.list_sessions();
        let mut result: Vec<String> = Vec::new();
        let mut upto: usize = list.len();
        assert(views(result@) =~= Seq::<Seq<char>>::empty());
        proof {
            if limit >= 1 {
                lemma_cwds_walk(list@, list@.len() as int, seq![], limit as nat);
            }
        }
        while upto > 0
            invariant
                upto <= list.len(),
                list@ == by_update(values(self.sessions())),
                limit >= 1 ==> recent_cwds_of(list@, limit as nat).no_duplicates()
                    && recent_cwds_of(list@, limit as nat).len() <= limit,
                recent_cwds_of(list@, limit as nat) == cwds_walk(
                    list@,
                    upto as int,
                    views(result@),
                    limit as nat,
                ),
            decreases upto,
        {
            match &list[upto - 1].cwd {
                Some(cwd) => {
                    if !contains_text(&result, cwd.as_str()) {
                        let ghost before = views(result@);
                        result.push(cwd.clone());
                        assert(views(result@) =~= before.push(cwd@));
                    }
                },
                None => {},
            }
            if result.len() >= limit {
                assert(views(result@).len() == result.len());
                return result;
            }
            assert(views(result@).len() == result.len());
            upto -= 1;
        }
        result
    }

    /// Gives the session `id` the status `status` at the present time. An
    /// unknown id changes nothing.
    pub fn set_status(&mut self, id: &str, status: SessionStatus)
        requires
            old(self).wf(),
        ensures
            final(self).wf(),
            status_set(*old(self), *final(self), id@, status),
    {
        let _ = self.update_session(id, status, None, None);
    }

    /// Appends `message` to the log of the session `id`, opening the log if
    /// the id has none.
    pub fn add_message(&mut self, id: &str, message: Json)
        requires
            old(self).wf(),
        ensures
            final(self).wf(),
            final(self).logs() == upsert(
                old(self).logs(),
                (id@, old(self).log_of(id@).push(message@)),
            ),
            final(self).log_of(id@) == old(self).log_of(id@).push(message@),
            final(self).sessions() == old(self).sessions(),
            final(self).providers() == old(self).providers(),
            final(self).pending() == old(self).pending(),
    {
        let ghost f = |log: Vec<Json>| log_view(log);
        let ghost before = keyed_view(self.messages@);
        match find(&self.messages, id) {
            Some(i) => {
                let entry = self.messages.remove(i);
                let mut log = entry.1;
                let ghost taken = log;
                log.push(message);
                proof {
                    assert(log_view(log) =~= log_view(taken).push(message@));
                    lemma_mapped(before, f, id@);
                    lemma_mapped_upsert(before, f, id@, log);
                    lemma_upsert(before, (id@, log));
                    lemma_upsert(mapped(before, f), (id@, log_view(log)));
                }
                self.messages.insert(i, (entry.0, log));
                assert(keyed_view(self.messages@) =~= upsert(before, (id@, log)));
            },
            None => {
                let mut log: Vec<Json> = Vec::new();
                log.push(message);
                proof {
                    assert(log_view(log) =~= Seq::<JsonView>::empty().push(message@));
                    lemma_mapped(before, f, id@);
                    lemma_mapped_upsert(before, f, id@, log);
                    lemma_upsert(before, (id@, log));
                    lemma_upsert(mapped(before, f), (id@, log_view(log)));
                }
                self.messages.push((id.to_string(), log));
                assert(keyed_view(self.messages@) =~= upsert(before, (id@, log)));
            },
        }
    }

    /// Removes the session `id` with its log and its provider settings.
    /// Permission requests that await an answer stay.
    pub fn delete_session(&mut self, id: &str)
        requires
            old(self).wf(),
        ensures
            final(self).wf(),
            final(self).sessions() == without(old(self).sessions(), id@),
            final(self).logs() == without(old(self).logs(), id@),
            final(self).providers() == without(old(self).providers(), id@),
            final(self).pending() == old(self).pending(),
    {
        let ghost f = |log: Vec<Json>| log_view(log);
        proof {
            lemma_without(self.sessions(), id@);
            lemma_without(keyed_view(self.messages@), id@);
            lemma_without(self.providers(), id@);
            lemma_mapped(keyed_view(self.messages@), f, id@);
        }
        let _ = take(&mut self.sessions, id);
        let _ = take(&mut self.messages, id);
        let _ = take(&mut self.providers, id);
        proof {
            let s0 = old(self).sessions();
            let s1 = self.sessions();
            crate::keyed::lemma_position_from(s0, id@, 0);
            assert forall|i: int| 0 <= i < s1.len() implies (#[trigger] s1[i]).0 == s1[i].1.id@ by {
                let p = crate::keyed::position(s0, id@);
                if has_key(s0, id@) {
                    let j = if i < p { i } else { i + 1 };
                    assert(s1[i] == s0[j]);
                } else {
                    assert(s1[i] == s0[i]);
                }
            }
        }
    }

    /// Files `sender` under `tool_use_id` to await the client's answer.
    /// Fails, and drops the sender, if a request under that id is pending.
    pub fn register_permission(&mut self, tool_use_id: String, sender: Sender<Json>) -> (r: Result<
        (),
        String,
    >)
        requires
            old(self).wf(),
        ensures
            final(self).wf(),
            final(self).sessions() == old(self).sessions(),
            final(self).logs() == old(self).logs(),
            final(self).providers() == old(self).providers(),
            match r {
                Ok(_) => !has_key(old(self).pending(), tool_use_id@) && final(self).pending()
                    == old(self).pending().push((tool_use_id@, sender)),
                Err(e) => has_key(old(self).pending(), tool_use_id@) && final(self).pending()
                    == old(self).pending() && e@ == "permission request already pending"@,
            },
    {
        if find(&self.pending_permissions, tool_use_id.as_str()).is_some() {
            return Err("permission request already pending".to_string());
        }
        proof {
            crate::keyed::lemma_push_all(self.pending(), (tool_use_id@, sender));
        }
        self.pending_permissions.push((tool_use_id, sender));
        assert(self.pending() =~= old(self).pending().push((tool_use_id@, sender)));
        Ok(())
    }

    /// Answers the permission request pending under `tool_use_id` with
    /// `result` and removes it. Says whether there was such a request; an
    /// answer to none is dropped.
    pub fn resolve_permission(&mut self, tool_use_id: &str, result: Json) -> (r: bool)
        requires
            old(self).wf(),
        ensures
            final(self).wf(),
            r == has_key(old(self).pending(), tool_use_id@),
            final(self).pending() == without(old(self).pending(), tool_use_id@),
            !has_key(final(self).pending(), tool_use_id@),
            final(self).sessions() == old(self).sessions(),
            final(self).logs() == old(self).logs(),
            final(self).providers() == old(self).providers(),
    {
        proof {
            lemma_without(self.pending(), tool_use_id@);
            assert(lookup(without(self.pending(), tool_use_id@), tool_use_id@) is None);
        }
        match take(&mut self.pending_permissions, tool_use_id) {
            Some(sender) => {
                let _ = send_reply(sender, result);
                true
            },
            None => false,
        }
    }

    /// Withdraws the permission request pending under `tool_use_id`: it is
    /// removed, and nobody can answer it any more. Says whether there was
    /// such a request.
    pub fn cancel_permission(&mut self, tool_use_id: &str) -> (r: bool)
        requires
            old(self).wf(),
        ensures
            final(self).wf(),
            r == has_key(old(self).pending(), tool_use_id@),
            final(self).pending() == without(old(self).pending(), tool_use_id@),
            !has_key(final(self).pending(), tool_use_id@),
            final(self).sessions() == old(self).sessions(),
            final(self).logs() == old(self).logs(),
            final(self).providers() == old(self).providers(),
    {
        proof {
            lemma_without(self.pending(), tool_use_id@);
            assert(lookup(without(self.pending(), tool_use_id@), tool_use_id@) is None);
        }
        match take(&mut self.pending_permissions, tool_use_id) {
            Some(_) => true,
            None => false,
        }
    }
}

} // verus!
