use vstd::prelude::*;

use crate::timestamp::Timestamp;

verus! {

/// A scheduled message. `send_at` absent means the message is never sent
/// automatically; `send` becomes `Some(true)` once it was delivered.
#[derive(Clone, Debug)]
pub struct Message {
    pub id: Option<String>,
    pub email: String,
    pub message_body: Option<String>,
    pub created_at: Option<Timestamp>,
    pub send_at: Option<Timestamp>,
    pub send: Option<bool>,
}

/// The text of an optional string, empty where there is none.
pub open spec fn text_or_empty(s: Option<String>) -> Seq<char> {
    match s {
        Some(t) => t@,
        None => Seq::empty(),
    }
}

impl Message {
    /// The characters of the id, if there is one.
    pub open spec fn id_view(self) -> Option<Seq<char>> {
        match self.id {
            Some(s) => Some(s@),
            None => None,
        }
    }

    pub open spec fn has_id(self, id: Seq<char>) -> bool {
        self.id_view() == Some(id)
    }

    pub open spec fn is_sent(self) -> bool {
        self.send == Some(true)
    }

    /// Due at `now`: scheduled at or before `now` and not yet sent.
    pub open spec fn is_due(self, now: Timestamp) -> bool {
        match self.send_at {
            Some(t) => t.spec_le(now) && !self.is_sent(),
            None => false,
        }
    }

    /// A field-by-field copy.
    pub fn duplicate(&self) -> (r: Message)
        ensures
            r == *self,
    {
        Message {
            id: copy_text(&self.id),
            email: self.email.clone(),
            message_body: copy_text(&self.message_body),
            created_at: self.created_at,
            send_at: self.send_at,
            send: self.send,
        }
    }

    /// Whether the message has an id made of the characters of `id`.
    pub fn has_id_exec(&self, id: &String) -> (r: bool)
        ensures
            r == self.has_id(id@),
    {
        match &self.id {
            Some(s) => *s == *id,
            None => false,
        }
    }

    /// Whether the message is due at `now`.
    pub fn is_due_at(&self, now: &Timestamp) -> (r: bool)
        ensures
            r == self.is_due(*now),
    {
        match &self.send_at {
            Some(t) => t.is_at_or_before(now) && !matches!(self.send, Some(true)),
            None => false,
        }
    }

    /// The body to deliver: the message's body, or the empty string.
    pub fn body_text(&self) -> (r: String)
        ensures
            r@ == text_or_empty(self.message_body),
    {
        match &self.message_body {
            Some(b) => b.clone(),
            None => String::new(),
        }
    }
}

fn copy_text(s: &Option<String>) -> (r: Option<String>)
    ensures
        r == *s,
{
    match s {
        Some(t) => Some(t.clone()),
        None => None,
    }
}

} // verus!
