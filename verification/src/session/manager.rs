//! Sessions of a conversation and the manager that keeps them.

use vstd::prelude::*;
use crate::keyed::KeyedTable;
use crate::text::str_equals;

verus! {

/// The sender of a message.
#[derive(Debug, Clone, Copy, PartialEq, Eq, Structural)]
pub enum Role {
    User,
    Assistant,
}

/// One message of a conversation.
#[derive(Debug)]
pub struct ChatMessage {
    pub role: Role,
    pub content: String,
}

impl Clone for ChatMessage {
    fn clone(&self) -> (r: Self)
        ensures
            r == *self,
    {
        ChatMessage { role: self.role, content: self.content.clone() }
    }
}

/// The role that a role name stands for: `"assistant"` is the assistant,
/// every other name the user.
pub open spec fn role_named(name: Seq<char>) -> Role {
    if name == "assistant"@ {
        Role::Assistant
    } else {
        Role::User
    }
}

/// The message that `add_message` records for a role name and a content.
pub open spec fn message_of(role: Seq<char>, content: Seq<char>) -> (Role, Seq<char>) {
    (role_named(role), content)
}

/// The messages kept in context: the last `max` of `msgs`, or all of them
/// when there are no more than `max`.
pub open spec fn recent(msgs: Seq<ChatMessage>, max: nat) -> Seq<ChatMessage> {
    if msgs.len() <= max {
        msgs
    } else {
        msgs.skip(msgs.len() - max)
    }
}

/// The context holds at most `max` messages, and after a message is added
/// it is the last one in context (unless no message is kept at all).
pub proof fn law_context_keeps_latest(msgs: Seq<ChatMessage>, m: ChatMessage, max: nat)
    ensures
        recent(msgs, max).len() <= max,
        recent(msgs, max).len() == if msgs.len() <= max {
            msgs.len()
        } else {
            max
        },
        max > 0 ==> recent(msgs.push(m), max).last() == m,
{
}

/// Only the name `assistant` marks a message as the assistant's: every
/// other name, `user` among them, records the message as the user's.
pub proof fn law_role_names(name: Seq<char>)
    ensures
        (role_named(name) == Role::Assistant) == (name == "assistant"@),
        (role_named(name) == Role::User) == (name != "assistant"@),
        role_named("user"@) == Role::User,
        role_named("assistant"@) == Role::Assistant,
{
    reveal_strlit("user");
    reveal_strlit("assistant");
    assert("user"@ != "assistant"@) by {
        assert("user"@.len() != "assistant"@.len());
    }
}

/// The context is the latest part of the conversation: it is the end of
/// the messages, `min(len, max)` long, so each message kept comes after
/// each message dropped, in the original order.
pub proof fn law_context_is_latest_suffix(msgs: Seq<ChatMessage>, max: nat)
    ensures
        recent(msgs, max).len() == if msgs.len() <= max {
            msgs.len()
        } else {
            max
        },
        forall|i: int|
            0 <= i < recent(msgs, max).len() ==> #[trigger] recent(msgs, max)[i] == msgs[msgs.len()
                - recent(msgs, max).len() + i],
{
}

/// A fresh random session identifier (`uuid::Uuid::new_v4`, hyphenated).
/// Nothing is stated of its value.
#[verifier::external_body]
fn new_session_id() -> String {
    uuid::Uuid::new_v4().to_string()
}

/// The current time in milliseconds since the Unix epoch
/// (`chrono::Utc::now`). Nothing is stated of its value.
#[verifier::external_body]
pub(crate) fn now_millis() -> i64 {
    chrono::Utc::now().timestamp_millis()
}

/// Copies a sequence of messages.
fn copy_messages(v: &Vec<ChatMessage>, lo: usize) -> (r: Vec<ChatMessage>)
    requires
        lo <= v@.len(),
    ensures
        r@ == v@.skip(lo as int),
{
    let mut r: Vec<ChatMessage> = Vec::new();
    let mut i = lo;
    while i < v.len()
        invariant
            lo <= i <= v@.len(),
            r@ == v@.subrange(lo as int, i as int),
        decreases v@.len() - i,
    {
        r.push(v[i].clone());
        assert(v@.subrange(lo as int, i + 1) =~= v@.subrange(lo as int, i as int).push(v@[i as int]));
        i = i + 1;
    }
    assert(v@.subrange(lo as int, v@.len() as int) =~= v@.skip(lo as int));
    r
}

/// A conversation: its messages and when it was last active.
#[derive(Debug)]
pub struct Session {
    pub id: String,
    pub persona: String,
    pub messages: Vec<ChatMessage>,
    /// Milliseconds since the Unix epoch.
    pub created_at: i64,
    /// Milliseconds since the Unix epoch.
    pub last_active: i64,
    /// How many of the latest messages are kept in context.
    pub max_history: usize,
}

impl Clone for Session {
    fn clone(&self) -> (r: Self)
        ensures
            r.id == self.id,
            r.persona == self.persona,
            r.messages@ == self.messages@,
            r.created_at == self.created_at,
            r.last_active == self.last_active,
            r.max_history == self.max_history,
    {
        let messages = copy_messages(&self.messages, 0);
        assert(self.messages@.skip(0) =~= self.messages@);
        Session {
            id: self.id.clone(),
            persona: self.persona.clone(),
            messages,
            created_at: self.created_at,
            last_active: self.last_active,
            max_history: self.max_history,
        }
    }
}

impl Session {
    /// How many messages the session keeps in context.
    pub open spec fn history_limit(&self) -> nat {
        self.max_history as nat
    }

    /// A new empty session with a fresh identifier.
    pub fn new(persona: &str, max_history: usize) -> (s: Self)
        ensures
            s.persona@ == persona@,
            s.messages@.len() == 0,
            s.history_limit() == max_history,
            s.created_at == s.last_active,
    {
        let now = now_millis();
        Session {
            id: new_session_id(),
            persona: String::from_str(persona),
            messages: Vec::new(),
            created_at: now,
            last_active: now,
            max_history,
        }
    }

    /// Records a message from `role` (`"user"` or `"assistant"`; any other
    /// name counts as the user) and marks the session active now.
    pub fn add_message(&mut self, role: &str, content: &str)
        ensures
            final(self).messages@.len() == old(self).messages@.len() + 1,
            final(self).messages@.take(old(self).messages@.len() as int) == old(self).messages@,
            (final(self).messages@.last().role, final(self).messages@.last().content@) == message_of(
                role@,
                content@,
            ),
            role@ == "assistant"@ ==> final(self).messages@.last().role == Role::Assistant,
            role@ != "assistant"@ ==> final(self).messages@.last().role == Role::User,
            final(self).id == old(self).id,
            final(self).persona == old(self).persona,
            final(self).created_at == old(self).created_at,
            final(self).history_limit() == old(self).history_limit(),
    {
        let r = if str_equals(role, "assistant") {
            Role::Assistant
        } else {
            Role::User
        };
        self.messages.push(ChatMessage { role: r, content: String::from_str(content) });
        assert(self.messages@.take(old(self).messages@.len() as int) =~= old(self).messages@);
        self.last_active = now_millis();
    }

    /// The messages in context: the most recent `max_history` of them.
    pub fn get_context(&self) -> (r: Vec<ChatMessage>)
        ensures
            r@ == recent(self.messages@, self.history_limit()),
            r@.len() == if self.messages@.len() <= self.history_limit() {
                self.messages@.len()
            } else {
                self.history_limit()
            },
            forall|i: int|
                0 <= i < r@.len() ==> #[trigger] r@[i] == self.messages@[self.messages@.len() - r@.len() + i],
    {
        proof {
            law_context_is_latest_suffix(self.messages@, self.history_limit());
        }
        let len = self.messages.len();
        if len <= self.max_history {
            let r = copy_messages(&self.messages, 0);
            assert(self.messages@.skip(0) =~= self.messages@);
            r
        } else {
            copy_messages(&self.messages, len - self.max_history)
        }
    }

    /// Forgets all messages and marks the session active now.
    pub fn clear(&mut self)
        ensures
            final(self).messages@.len() == 0,
            final(self).id == old(self).id,
            final(self).persona == old(self).persona,
            final(self).created_at == old(self).created_at,
            final(self).history_limit() == old(self).history_limit(),
    {
        self.messages = Vec::new();
        self.last_active = now_millis();
    }
}

/// Keeps the sessions by identifier and knows which one is current.
pub struct SessionManager {
    sessions: KeyedTable<Session>,
    current_session_id: Option<String>,
    max_history: usize,
}

/// The view of an optional string.
pub open spec fn opt_view(o: Option<String>) -> Option<Seq<char>> {
    match o {
        Some(s) => Some(s@),
        None => None,
    }
}

impl SessionManager {
    /// The sessions by identifier.
    pub closed spec fn sessions(&self) -> Map<Seq<char>, Session> {
        self.sessions@
    }

    /// The identifier of the current session.
    pub closed spec fn current(&self) -> Option<Seq<char>> {
        opt_view(self.current_session_id)
    }

    /// How many messages new sessions keep in context.
    pub closed spec fn history_limit(&self) -> nat {
        self.max_history as nat
    }

    /// Every session is kept under its own identifier.
    pub open spec fn ids_agree(&self) -> bool {
        forall|k: Seq<char>| #[trigger] self.sessions().contains_key(k) ==> self.sessions()[k].id@ == k
    }

    /// The current session, when there is one and it is still kept.
    pub open spec fn current_session(&self) -> Option<Session> {
        match self.current() {
            Some(id) => if self.sessions().contains_key(id) {
                Some(self.sessions()[id])
            } else {
                None
            },
            None => None,
        }
    }

    /// A manager with no sessions.
    pub fn new(max_history: usize) -> (m: Self)
        ensures
            m.sessions() == Map::<Seq<char>, Session>::empty(),
            m.current() is None,
            m.history_limit() == max_history,
            m.ids_agree(),
    {
        SessionManager { sessions: KeyedTable::new(), current_session_id: None, max_history }
    }

    /// Starts a new empty session, makes it current and returns its
    /// identifier.
    pub fn create_session(&mut self, persona: &str) -> (id: String)
        ensures
            old(self).ids_agree() ==> final(self).ids_agree(),
            final(self).current() == Some(id@),
            final(self).sessions().dom() == old(self).sessions().dom().insert(id@),
            forall|k: Seq<char>|
                k != id@ && #[trigger] old(self).sessions().contains_key(k) ==> final(self).sessions()[k] == old(self).sessions()[k],
            final(self).sessions()[id@].id@ == id@,
            final(self).sessions()[id@].persona@ == persona@,
            final(self).sessions()[id@].messages@.len() == 0,
            final(self).sessions()[id@].history_limit() == old(self).history_limit(),
            final(self).sessions()[id@].created_at == final(self).sessions()[id@].last_active,
            final(self).history_limit() == old(self).history_limit(),
    {
        let session = Session::new(persona, self.max_history);
        let id = session.id.clone();
        self.sessions.insert(id.clone(), session);
        self.current_session_id = Some(id.clone());
        proof {
            if old(self).ids_agree() {
                assert forall|k: Seq<char>| #[trigger] self.sessions().contains_key(k) implies self.sessions()[k].id@
                    == k by {
                    if k != id@ {
                        assert(old(self).sessions().contains_key(k));
                    }
                }
            }
        }
        id
    }

    /// The identifier of the current session; when there is none, or it
    /// was deleted, a new session is started as by `create_session`.
    pub fn get_or_create_session(&mut self, persona: &str) -> (id: String)
        ensures
            old(self).ids_agree() ==> final(self).ids_agree(),
            old(self).current_session() is Some ==> id@ == old(self).current()->0 && *final(self)
                == *old(self),
            old(self).current_session() is None ==> {
                &&& final(self).current() == Some(id@)
                &&& final(self).sessions().dom() == old(self).sessions().dom().insert(id@)
                &&& forall|k: Seq<char>|
                    k != id@ && #[trigger] old(self).sessions().contains_key(k) ==> final(self).sessions()[k] == old(self).sessions()[k]
                &&& final(self).sessions()[id@].persona@ == persona@
                &&& final(self).sessions()[id@].messages@.len() == 0
                &&& final(self).sessions()[id@].history_limit() == old(self).history_limit()
                &&& final(self).sessions()[id@].created_at == final(self).sessions()[id@].last_active
            },
            final(self).history_limit() == old(self).history_limit(),
    {
        match &self.current_session_id {
            Some(id) => {
                if self.sessions.contains_key(id.as_str()) {
                    return id.clone();
                }
            },
            None => {},
        }
        self.create_session(persona)
    }

    /// Makes `session_id` current when such a session is kept; tells
    /// whether it is.
    pub fn switch_session(&mut self, session_id: &str) -> (switched: bool)
        ensures
            old(self).ids_agree() ==> final(self).ids_agree(),
            switched == old(self).sessions().contains_key(session_id@),
            switched ==> final(self).current() == Some(session_id@),
            !switched ==> final(self).current() == old(self).current(),
            final(self).sessions() == old(self).sessions(),
            final(self).history_limit() == old(self).history_limit(),
    {
        let found = self.sessions.contains_key(session_id);
        if found {
            self.current_session_id = Some(String::from_str(session_id));
        }
        proof {
            if old(self).ids_agree() {
                assert forall|k: Seq<char>| #[trigger] self.sessions().contains_key(k) implies self.sessions()[k].id@
                    == k by {
                    assert(old(self).sessions().contains_key(k));
                }
            }
        }
        found
    }

    /// Records a message in the current session, if there is one.
    pub fn add_message(&mut self, role: &str, content: &str)
        ensures
            old(self).ids_agree() ==> final(self).ids_agree(),
            final(self).current() == old(self).current(),
            final(self).history_limit() == old(self).history_limit(),
            old(self).current_session() is None ==> final(self).sessions() == old(self).sessions(),
            old(self).current_session() matches Some(s) ==> {
                let id = old(self).current()->0;
                let t = final(self).sessions()[id];
                &&& final(self).sessions().dom() == old(self).sessions().dom()
                &&& forall|k: Seq<char>|
                    k != id && #[trigger] old(self).sessions().contains_key(k) ==> final(self).sessions()[k] == old(self).sessions()[k]
                &&& t.messages@.len() == s.messages@.len() + 1
                &&& t.messages@.take(s.messages@.len() as int) == s.messages@
                &&& (t.messages@.last().role, t.messages@.last().content@) == message_of(
                    role@,
                    content@,
                )
                &&& (role@ == "assistant"@ ==> t.messages@.last().role == Role::Assistant)
                &&& (role@ != "assistant"@ ==> t.messages@.last().role == Role::User)
                &&& t.id == s.id
                &&& t.persona == s.persona
                &&& t.history_limit() == s.history_limit()
                &&& t.created_at == s.created_at
            },
    {
        if let Some(id) = &self.current_session_id {
            if let Some(s) = self.sessions.get(id.as_str()) {
                let mut t = s.clone();
                t.add_message(role, content);
                self.sessions.insert(id.clone(), t);
                assert(final(self).sessions().dom() =~= old(self).sessions().dom());
            }
        }
    }

    /// The messages in context of the current session; none when there is
    /// no current session.
    pub fn get_messages(&self) -> (r: Vec<ChatMessage>)
        ensures
            self.current_session() matches Some(s) ==> r@ == recent(s.messages@, s.history_limit()),
            self.current_session() matches Some(s) ==> r@.len() == (if s.messages@.len() <= s.history_limit() {
                s.messages@.len()
            } else {
                s.history_limit()
            }) && forall|i: int|
                0 <= i < r@.len() ==> #[trigger] r@[i] == s.messages@[s.messages@.len() - r@.len() + i],
            self.current_session() is None ==> r@.len() == 0,
    {
        if let Some(id) = &self.current_session_id {
            if let Some(s) = self.sessions.get(id.as_str()) {
                return s.get_context();
            }
        }
        Vec::new()
    }

    /// Forgets the messages of the current session, if there is one.
    pub fn clear_current(&mut self)
        ensures
            old(self).ids_agree() ==> final(self).ids_agree(),
            final(self).current() == old(self).current(),
            final(self).history_limit() == old(self).history_limit(),
            old(self).current_session() is None ==> final(self).sessions() == old(self).sessions(),
            old(self).current_session() matches Some(s) ==> {
                let id = old(self).current()->0;
                let t = final(self).sessions()[id];
                &&& final(self).sessions().dom() == old(self).sessions().dom()
                &&& forall|k: Seq<char>|
                    k != id && #[trigger] old(self).sessions().contains_key(k) ==> final(self).sessions()[k] == old(self).sessions()[k]
                &&& t.messages@.len() == 0
                &&& t.id == s.id
                &&& t.persona == s.persona
                &&& t.history_limit() == s.history_limit()
                &&& t.created_at == s.created_at
            },
    {
        if let Some(id) = &self.current_session_id {
            if let Some(s) = self.sessions.get(id.as_str()) {
                let mut t = s.clone();
                t.clear();
                self.sessions.insert(id.clone(), t);
                assert(final(self).sessions().dom() =~= old(self).sessions().dom());
            }
        }
    }

    /// Deletes a session; when it was current, no session is current any
    /// more.
    pub fn delete_session(&mut self, session_id: &str)
        ensures
            old(self).ids_agree() ==> final(self).ids_agree(),
            final(self).sessions() == old(self).sessions().remove(session_id@),
            old(self).current() == Some(session_id@) ==> final(self).current() is None,
            old(self).current() != Some(session_id@) ==> final(self).current() == old(self).current(),
            final(self).history_limit() == old(self).history_limit(),
    {
        self.sessions.remove(session_id);
        let is_current = match &self.current_session_id {
            Some(current) => str_equals(current.as_str(), session_id),
            None => false,
        };
        if is_current {
            self.current_session_id = None;
        }
        proof {
            if old(self).ids_agree() {
                assert forall|k: Seq<char>| #[trigger] self.sessions().contains_key(k) implies self.sessions()[k].id@
                    == k by {
                    assert(old(self).sessions().contains_key(k));
                }
            }
        }
    }

    /// Each session's identifier, persona and last activity, once each.
    pub fn list_sessions(&self) -> (r: Vec<(String, String, i64)>)
        ensures
            r@.len() == self.sessions().len(),
            forall|i: int|
                0 <= i < r@.len() ==> #[trigger] self.sessions().contains_key(r@[i].0@)
                    && self.sessions()[r@[i].0@].persona == r@[i].1 && self.sessions()[r@[i].0@].last_active
                    == r@[i].2,
            forall|i: int, j: int| 0 <= i < j < r@.len() ==> r@[i].0@ != r@[j].0@,
    {
        proof {
            use_type_invariant(&self.sessions);
            self.sessions.lemma_entries();
        }
        let n = self.sessions.len();
        let mut r: Vec<(String, String, i64)> = Vec::new();
        let mut i: usize = 0;
        while i < n
            invariant
                n == self.sessions.entry_seq().len(),
                i <= n,
                r@.len() == i,
                forall|j: int|
                    0 <= j < i ==> r@[j].0 == self.sessions.entry_seq()[j].0 && r@[j].1
                        == self.sessions.entry_seq()[j].1.persona && r@[j].2
                        == self.sessions.entry_seq()[j].1.last_active,
            decreases n - i,
        {
            let (id, s) = self.sessions.entry(i);
            r.push((id.clone(), s.persona.clone(), s.last_active));
            i = i + 1;
        }
        assert forall|a: int| 0 <= a < r@.len() implies #[trigger] self.sessions().contains_key(
            r@[a].0@,
        ) && self.sessions()[r@[a].0@].persona == r@[a].1 && self.sessions()[r@[a].0@].last_active
            == r@[a].2 by {
            assert(self.sessions@.contains_key(self.sessions.entry_seq()[a].0@));
        }
        r
    }

    /// The identifier of the current session.
    pub fn current_session_id(&self) -> (r: Option<String>)
        ensures
            opt_view(r) == self.current(),
    {
        match &self.current_session_id {
            Some(id) => Some(id.clone()),
            None => None,
        }
    }
}

} // verus!
