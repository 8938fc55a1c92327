use vstd::prelude::*;

use crate::message::Message;
use crate::timestamp::Timestamp;

verus! {

/// Ids are present on every record and no two records share one.
pub open spec fn ids_well_formed(s: Seq<Message>) -> bool {
    &&& forall|i: int| 0 <= i < s.len() ==> (#[trigger] s[i]).id is Some
    &&& forall|i: int, j: int|
        0 <= i < s.len() && 0 <= j < s.len() && i != j ==> (#[trigger] s[i]).id_view() != (
        #[trigger] s[j]).id_view()
}

pub open spec fn contains_id(s: Seq<Message>, id: Seq<char>) -> bool {
    exists|i: int| 0 <= i < s.len() && (#[trigger] s[i]).has_id(id)
}

/// The position of the record with `id` (meaningful where `contains_id`).
pub open spec fn index_of(s: Seq<Message>, id: Seq<char>) -> int {
    choose|i: int| 0 <= i < s.len() && (#[trigger] s[i]).has_id(id)
}

/// The record with `id`, if any.
pub open spec fn lookup(s: Seq<Message>, id: Seq<char>) -> Option<Message> {
    if contains_id(s, id) {
        Some(s[index_of(s, id)])
    } else {
        None
    }
}

/// The records after removing the one with `id`, if any.
pub open spec fn remove_id(s: Seq<Message>, id: Seq<char>) -> Seq<Message> {
    if contains_id(s, id) {
        s.remove(index_of(s, id))
    } else {
        s
    }
}

/// `m` marked as sent.
pub open spec fn as_sent(m: Message) -> Message {
    Message { send: Some(true), ..m }
}

/// The records after marking the one with `id`, if any, as sent.
pub open spec fn mark_sent(s: Seq<Message>, id: Seq<char>) -> Seq<Message> {
    if contains_id(s, id) {
        s.update(index_of(s, id), as_sent(s[index_of(s, id)]))
    } else {
        s
    }
}

/// The record with `id`, if any, marked as sent.
pub open spec fn sent_lookup(s: Seq<Message>, id: Seq<char>) -> Option<Message> {
    match lookup(s, id) {
        Some(m) => Some(as_sent(m)),
        None => None,
    }
}

/// `m` is what an update with `draft` under `id` stores in place of `stored`:
/// every field of `draft`, but the id, which is `id`, and the sent flag, which
/// stays set once it was set.
pub open spec fn is_update_of(m: Message, stored: Message, id: Seq<char>, draft: Message) -> bool {
    &&& m.id_view() == Some(id)
    &&& m.email == draft.email
    &&& m.message_body == draft.message_body
    &&& m.created_at == draft.created_at
    &&& m.send_at == draft.send_at
    &&& m.send == if stored.is_sent() {
        Some(true)
    } else {
        draft.send
    }
}

/// `m` is `draft` as stored on creation under `id` at `now`.
pub open spec fn is_creation_of(m: Message, draft: Message, id: Seq<char>, now: Timestamp) -> bool {
    &&& m.id_view() == Some(id)
    &&& m.email == draft.email
    &&& m.message_body == draft.message_body
    &&& m.created_at == Some(now)
    &&& m.send_at == draft.send_at
    &&& m.send == Some(false)
}

/// After the record with `id` is updated, looking `id` up finds the updated
/// record, and its id is `id`, whatever id the draft held.
pub proof fn lemma_update_then_get(s: Seq<Message>, id: Seq<char>, draft: Message, m: Message)
    requires
        ids_well_formed(s),
        contains_id(s, id),
        is_update_of(m, s[index_of(s, id)], id, draft),
    ensures
        lookup(s.update(index_of(s, id), m), id) == Some(m),
        m.id_view() == Some(id),
{
    let k = index_of(s, id);
    let t = s.update(k, m);
    assert(t[k].has_id(id));
    assert(contains_id(t, id));
    let j = index_of(t, id);
    if j != k {
        assert(t[j] == s[j]);
        assert(s[j].id_view() != s[k].id_view());
    }
}

/// After the record with `id` is deleted, looking `id` up finds nothing, and
/// deleting `id` once more changes nothing.
pub proof fn lemma_delete_then_get(s: Seq<Message>, id: Seq<char>)
    requires
        ids_well_formed(s),
    ensures
        lookup(remove_id(s, id), id) is None,
        remove_id(remove_id(s, id), id) == remove_id(s, id),
{
    if contains_id(s, id) {
        let k = index_of(s, id);
        let t = s.remove(k);
        assert forall|j: int| 0 <= j < t.len() implies !(#[trigger] t[j]).has_id(id) by {
            let j2 = if j < k { j } else { j + 1 };
            assert(t[j] == s[j2]);
            assert(s[j2].id_view() != s[k].id_view());
        }
    }
}

/// A sent record stays sent when any record is marked as sent.
pub proof fn lemma_sent_stays_sent(s: Seq<Message>, id: Seq<char>, other: Seq<char>)
    requires
        ids_well_formed(s),
        lookup(s, id) is Some,
        lookup(s, id)->0.is_sent(),
    ensures
        lookup(mark_sent(s, other), id) is Some,
        lookup(mark_sent(s, other), id)->0.is_sent(),
{
    let k = index_of(s, id);
    let t = mark_sent(s, other);
    assert(t.len() == s.len());
    assert forall|j: int| 0 <= j < s.len() implies (#[trigger] t[j]).id_view() == s[j].id_view()
        && (s[j].is_sent() ==> t[j].is_sent()) by {}
    assert(t[k].has_id(id));
    assert(contains_id(t, id));
    let j = index_of(t, id);
    if j != k {
        assert(s[j].id_view() != s[k].id_view());
    }
}

/// Marking a record as sent keeps ids present and distinct.
pub proof fn lemma_mark_sent_well_formed(s: Seq<Message>, id: Seq<char>)
    requires
        ids_well_formed(s),
    ensures
        ids_well_formed(mark_sent(s, id)),
{
    let t = mark_sent(s, id);
    assert forall|j: int| 0 <= j < s.len() implies (#[trigger] t[j]).id_view() == s[j].id_view() by {}
    assert forall|a: int, b: int|
        0 <= a < t.len() && 0 <= b < t.len() && a != b implies (#[trigger] t[a]).id_view() != (
        #[trigger] t[b]).id_view() by {
        assert(s[a].id_view() != s[b].id_view());
    }
}

/// A record created from any draft is unsent and carries its creation time,
/// whatever the draft held for the id, the creation time and the sent flag.
pub proof fn lemma_created_is_unsent(m: Message, draft: Message, id: Seq<char>, now: Timestamp)
    requires
        is_creation_of(m, draft, id, now),
    ensures
        m.send == Some(false),
        !m.is_sent(),
        m.created_at == Some(now),
        m.id_view() == Some(id),
{
}

/// Why a record could not be created.
#[derive(Clone, Copy, Debug, PartialEq, Eq, Structural)]
pub enum StoreError {
    /// The id drawn for the new record is already in use.
    DuplicateId,
}

/// The message collection. Every operation takes it whole (`&self` or
/// `&mut self`), so no operation sees a record half updated.
pub struct Database {
    messages: Vec<Message>,
}

impl View for Database {
    type V = Seq<Message>;

    closed spec fn view(&self) -> Seq<Message> {
        self.messages@
    }
}

/// Relies on uuid's `Uuid::new_v4` and its `Display`: a random id in the
/// hyphenated form, 36 characters. `new_v4` panics only where the operating
/// system cannot supply random bytes.
#[verifier::external_body]
fn fresh_id() -> (r: String)
    ensures
        r@.len() == 36,
{
    uuid::Uuid::new_v4().to_string()
}

/// Relies on chrono's `Utc::now`: the current time, as seconds and nanoseconds.
#[verifier::external_body]
fn current_time() -> (r: Timestamp) {
    let now = chrono::Utc::now();
    Timestamp { secs: now.timestamp(), nanos: now.timestamp_subsec_nanos() }
}

impl Database {
    pub open spec fn well_formed(&self) -> bool {
        ids_well_formed(self@)
    }

    pub fn new() -> (r: Database)
        ensures
            r@ == Seq::<Message>::empty(),
            r.well_formed(),
    {
        Database { messages: Vec::new() }
    }

    /// The position of the record with `id`.
    fn find_index(&self, id: &String) -> (r: Option<usize>)
        requires
            self.well_formed(),
        ensures
            match r {
                Some(i) => i < self@.len() && contains_id(self@, id@) && i == index_of(self@, id@),
                None => !contains_id(self@, id@),
            },
    {
        let mut i: usize = 0;
        while i < self.messages.len()
            invariant
                i <= self.messages@.len(),
                self.well_formed(),
                forall|j: int| 0 <= j < i ==> !(#[trigger] self.messages@[j]).has_id(id@),
            decreases self.messages@.len() - i,
        {
            if self.messages[i].has_id_exec(id) {
                proof {
                    let k = index_of(self@, id@);
                    assert(self@[i as int].has_id(id@));
                    assert(contains_id(self@, id@));
                    assert(0 <= k < self@.len() && self@[k].has_id(id@));
                    assert(k == i);
                }
                return Some(i);
            }
            i = i + 1;
        }
        None
    }

    /// A copy of every record, in insertion order.
    pub fn get_messages(&self) -> (r: Vec<Message>)
        ensures
            r@ == self@,
    {
        let mut out: Vec<Message> = Vec::new();
        let mut i: usize = 0;
        while i < self.messages.len()
            invariant
                i <= self.messages@.len(),
                out@ == self.messages@.subrange(0, i as int),
            decreases self.messages@.len() - i,
        {
            out.push(self.messages[i].duplicate());
            i = i + 1;
        }
        proof {
            assert(out@ =~= self.messages@);
        }
        out
    }

    /// A copy of the record with `id`, or `None` where there is none.
    pub fn get_message_by_id(&self, id: &str) -> (r: Option<Message>)
        requires
            self.well_formed(),
        ensures
            r == lookup(self@, id@),
    {
        let key = id.to_string();
        match self.find_index(&key) {
            Some(i) => Some(self.messages[i].duplicate()),
            None => None,
        }
    }

    /// Stores `message` under the id `id`, created at `created_at`, and not
    /// sent, whatever `message` held in those fields; returns the stored record.
    /// Fails, changing nothing, where `id` is already in use.
    pub fn insert_message(&mut self, message: Message, id: String, created_at: Timestamp) -> (r:
        Result<Message, StoreError>)
        requires
            old(self).well_formed(),
        ensures
            final(self).well_formed(),
            match r {
                Ok(m) => !contains_id(old(self)@, id@) && is_creation_of(m, message, id@, created_at)
                    && final(self)@ == old(self)@.push(m),
                Err(e) => e == StoreError::DuplicateId && contains_id(old(self)@, id@)
                    && final(self)@ == old(self)@,
            },
    {
        if self.find_index(&id).is_some() {
            return Err(StoreError::DuplicateId);
        }
        let stored = Message {
            id: Some(id),
            created_at: Some(created_at),
            send: Some(false),
            ..message
        };
        let out = stored.duplicate();
        self.messages.push(stored);
        proof {
            let s = final(self)@;
            let o = old(self)@;
            assert(s == o.push(out));
            assert forall|i: int, j: int|
                0 <= i < s.len() && 0 <= j < s.len() && i != j implies (#[trigger] s[i]).id_view()
                != (#[trigger] s[j]).id_view() by {
                if i == o.len() as int {
                    assert(!o[j].has_id(id@));
                } else if j == o.len() as int {
                    assert(!o[i].has_id(id@));
                }
            }
        }
        Ok(out)
    }

    /// Stores `message` under a fresh random id, created now, and not sent;
    /// returns the stored record. Fails, changing nothing, only where the id
    /// drawn is already in use, so never on a store that holds no record with
    /// an id of that shape (an empty store in particular).
    pub fn create_message(&mut self, message: Message) -> (r: Result<Message, StoreError>)
        requires
            old(self).well_formed(),
        ensures
            final(self).well_formed(),
            match r {
                Ok(m) => m.send == Some(false) && m.created_at is Some && m.id is Some
                    && !contains_id(old(self)@, m.id_view()->0)
                    && m.email == message.email && m.message_body == message.message_body
                    && m.send_at == message.send_at && final(self)@ == old(self)@.push(m),
                Err(e) => e == StoreError::DuplicateId && final(self)@ == old(self)@ && exists|i: int|
                    0 <= i < old(self)@.len() && (#[trigger] old(self)@[i]).id_view() is Some
                        && old(self)@[i].id_view()->0.len() == 36,
            },
    {
        let id = fresh_id();
        let now = current_time();
        let ghost drawn = id@;
        let r = self.insert_message(message, id, now);
        proof {
            if r is Err {
                let i = choose|i: int| 0 <= i < old(self)@.len() && (#[trigger] old(self)@[i]).has_id(drawn);
                assert(old(self)@[i].id_view()->0.len() == 36);
            }
        }
        r
    }

    /// Replaces the record with `id` by `message`, under the id `id`; a sent
    /// record stays sent. Returns the stored record, or `None`, changing
    /// nothing, where there is no record with `id`.
    pub fn update_message_by_id(&mut self, id: &str, message: Message) -> (r: Option<Message>)
        requires
            old(self).well_formed(),
        ensures
            final(self).well_formed(),
            match r {
                Some(m) => contains_id(old(self)@, id@) && is_update_of(
                    m,
                    old(self)@[index_of(old(self)@, id@)],
                    id@,
                    message,
                ) && final(self)@ == old(self)@.update(index_of(old(self)@, id@), m),
                None => !contains_id(old(self)@, id@) && final(self)@ == old(self)@,
            },
    {
        let key = id.to_string();
        let i = match self.find_index(&key) {
            Some(i) => i,
            None => return None,
        };
        let was_sent = matches!(self.messages[i].send, Some(true));
        let send = if was_sent {
            Some(true)
        } else {
            message.send
        };
        let stored = Message { id: Some(key), send, ..message };
        let out = stored.duplicate();
        self.messages.set(i, stored);
        proof {
            let s = final(self)@;
            let o = old(self)@;
            assert forall|a: int, b: int|
                0 <= a < s.len() && 0 <= b < s.len() && a != b implies (#[trigger] s[a]).id_view()
                != (#[trigger] s[b]).id_view() by {
                assert(o[i as int].id_view() == s[i as int].id_view());
                assert(o[a].id_view() != o[b].id_view());
            }
        }
        Some(out)
    }

    /// Removes the record with `id` and returns it, or `None`, changing
    /// nothing, where there is none.
    pub fn delete_message_by_id(&mut self, id: &str) -> (r: Option<Message>)
        requires
            old(self).well_formed(),
        ensures
            final(self).well_formed(),
            r == lookup(old(self)@, id@),
            final(self)@ == remove_id(old(self)@, id@),
    {
        let key = id.to_string();
        match self.find_index(&key) {
            Some(i) => {
                let m = self.messages.remove(i);
                proof {
                    let s = final(self)@;
                    let o = old(self)@;
                    assert forall|a: int, b: int|
                        0 <= a < s.len() && 0 <= b < s.len() && a != b implies (
                        #[trigger] s[a]).id_view() != (#[trigger] s[b]).id_view() by {
                        let a2 = if a < i { a } else { a + 1 };
                        let b2 = if b < i { b } else { b + 1 };
                        assert(s[a] == o[a2]);
                        assert(s[b] == o[b2]);
                        assert(o[a2].id_view() != o[b2].id_view());
                    }
                    assert forall|a: int| 0 <= a < s.len() implies (#[trigger] s[a]).id is Some by {
                        let a2 = if a < i { a } else { a + 1 };
                        assert(s[a] == o[a2]);
                    }
                }
                Some(m)
            },
            None => None,
        }
    }

    /// Marks the record with the id of `message` as sent, in place, and
    /// returns it; `None`, changing nothing, where `message` has no id or no
    /// record has it. Only the id of `message` is read.
    pub fn update_message_as_sent(&mut self, message: Message) -> (r: Option<Message>)
        requires
            old(self).well_formed(),
        ensures
            final(self).well_formed(),
            match message.id_view() {
                Some(id) => r == sent_lookup(old(self)@, id) && final(self)@ == mark_sent(
                    old(self)@,
                    id,
                ),
                None => r is None && final(self)@ == old(self)@,
            },
    {
        let key = match message.id {
            Some(k) => k,
            None => return None,
        };
        let i = match self.find_index(&key) {
            Some(i) => i,
            None => return None,
        };
        let mut stored = self.messages[i].duplicate();
        stored.send = Some(true);
        let out = stored.duplicate();
        self.messages.set(i, stored);
        proof {
            let s = final(self)@;
            let o = old(self)@;
            assert forall|a: int, b: int|
                0 <= a < s.len() && 0 <= b < s.len() && a != b implies (#[trigger] s[a]).id_view()
                != (#[trigger] s[b]).id_view() by {
                assert(o[i as int].id_view() == s[i as int].id_view());
                assert(o[a].id_view() != o[b].id_view());
            }
        }
        Some(out)
    }
}

} // verus!
