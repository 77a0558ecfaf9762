//! Per-user conversation state: messages, roles and sessions.
//!
//! A session's message list is append-only except for an explicit clear,
//! which resets it to empty. Timestamps come from the system clock and are
//! carried as milliseconds since the Unix epoch; nothing is promised about
//! their values.

use vstd::prelude::*;

verus! {

/// Who authored a message.
#[derive(Debug, Clone, Copy, PartialEq, Eq, Structural)]
pub enum Role {
    System,
    User,
    Assistant,
}

/// One conversation message.
#[derive(Debug)]
pub struct ChatMessage {
    pub role: Role,
    pub content: String,
}

/// The mathematical value of a [`ChatMessage`].
#[verifier::ext_equal]
pub struct MessageView {
    pub role: Role,
    pub content: Seq<char>,
}

impl View for ChatMessage {
    type V = MessageView;

    open spec fn view(&self) -> MessageView {
        MessageView { role: self.role, content: self.content@ }
    }
}

impl Clone for ChatMessage {
    /// Cloning preserves the message's value.
    fn clone(&self) -> (r: ChatMessage)
        ensures
            r@ == self@,
    {
        ChatMessage { role: self.role, content: self.content.clone() }
    }
}

/// The values of a sequence of messages.
pub open spec fn msgs_view(s: Seq<ChatMessage>) -> Seq<MessageView> {
    s.map_values(|m: ChatMessage| m@)
}

/// An element-wise copy of a message list, preserving every value.
pub fn clone_messages(v: &Vec<ChatMessage>) -> (r: Vec<ChatMessage>)
    ensures
        msgs_view(r@) == msgs_view(v@),
{
    let mut r: Vec<ChatMessage> = Vec::new();
    let mut i: usize = 0;
    while i < v.len()
        invariant
            i <= v.len(),
            r@.len() == i,
            forall|k: int| 0 <= k < i ==> (#[trigger] r@[k])@ == v@[k]@,
        decreases v.len() - i,
    {
        r.push(v[i].clone());
        i += 1;
    }
    proof {
        assert forall|k: int| 0 <= k < v@.len() implies msgs_view(r@)[k] == msgs_view(v@)[k] by {
            assert(r@[k]@ == v@[k]@);
        }
        assert(msgs_view(r@) =~= msgs_view(v@));
    }
    r
}

/// Relies on `chrono::Utc::now` and `DateTime::timestamp_millis` for the
/// current wall-clock time in milliseconds since the Unix epoch. Nothing can
/// be promised of the clock's value. `Utc::now` panics only when the system
/// clock is set before the Unix epoch.
#[verifier::external_body]
pub fn now_millis() -> i64 {
    chrono::Utc::now().timestamp_millis()
}

/// One user's conversation state, keyed by an opaque 128-bit identifier.
#[derive(Debug)]
pub struct Session {
    pub id: u128,
    pub messages: Vec<ChatMessage>,
    pub created_at: i64,
    pub last_activity: i64,
}

/// The mathematical value of a [`Session`].
#[verifier::ext_equal]
pub struct SessionView {
    pub id: u128,
    pub messages: Seq<MessageView>,
    pub created_at: i64,
    pub last_activity: i64,
}

impl View for Session {
    type V = SessionView;

    open spec fn view(&self) -> SessionView {
        SessionView {
            id: self.id,
            messages: msgs_view(self.messages@),
            created_at: self.created_at,
            last_activity: self.last_activity,
        }
    }
}

impl Clone for Session {
    /// Cloning preserves the session's value.
    fn clone(&self) -> (r: Session)
        ensures
            r@ == self@,
    {
        let r = Session {
            id: self.id,
            messages: clone_messages(&self.messages),
            created_at: self.created_at,
            last_activity: self.last_activity,
        };
        proof {
            assert(r@ =~= self@);
        }
        r
    }
}

impl Session {
    /// A fresh session with no messages; both timestamps are the creation time.
    pub fn new(id: u128) -> (s: Session)
        ensures
            s.id == id,
            s@.messages.len() == 0,
            s.created_at == s.last_activity,
    {
        let now = now_millis();
        Session { id, messages: Vec::new(), created_at: now, last_activity: now }
    }

    /// Appends one message. The history only grows: every existing entry is
    /// kept, in order, and the new message becomes the last one.
    pub fn add_message(&mut self, message: ChatMessage)
        ensures
            final(self).id == old(self).id,
            final(self).created_at == old(self).created_at,
            final(self)@.messages == old(self)@.messages.push(message@),
    {
        let ghost mv = message@;
        self.messages.push(message);
        self.last_activity = now_millis();
        proof {
            assert(msgs_view(self.messages@) =~= msgs_view(old(self).messages@).push(mv));
        }
    }

    /// Removes every message. Clearing is idempotent: the history is empty
    /// afterwards whatever it held before, so a second clear changes nothing
    /// about the message list.
    pub fn clear(&mut self)
        ensures
            final(self).id == old(self).id,
            final(self).created_at == old(self).created_at,
            final(self)@.messages.len() == 0,
    {
        self.messages.clear();
        self.last_activity = now_millis();
    }
}

} // verus!
