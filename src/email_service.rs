use vstd::prelude::*;

use crate::database::{
    Database, ids_well_formed, lemma_mark_sent_well_formed, lemma_sent_stays_sent, lookup, mark_sent,
    sent_lookup,
};
use crate::message::{Message, text_or_empty};
use crate::timestamp::Timestamp;

verus! {

/// The subject line of every scheduled mail.
pub const EMAIL_SUBJECT: &'static str = "E-mail scheduler";

/// One mail to hand to the transport: the message it is for, and the
/// recipient, subject and body to send.
pub struct Delivery {
    pub message: Message,
    pub to: String,
    pub subject: String,
    pub body: String,
}

/// The messages of `s` due at `now`, in their order.
pub open spec fn due_in(s: Seq<Message>, now: Timestamp) -> Seq<Message> {
    s.filter(|m: Message| m.is_due(now))
}

/// `d` is the mail for `m`: to its address, with the fixed subject, and its
/// body or the empty text.
pub open spec fn is_delivery_of(d: Delivery, m: Message) -> bool {
    &&& d.message == m
    &&& d.to@ == m.email@
    &&& d.subject@ == EMAIL_SUBJECT@
    &&& d.body@ == text_or_empty(m.message_body)
}

/// A sent message is never due, in any snapshot and at any time, so it is
/// never handed to the transport again.
pub proof fn lemma_sent_never_due(s: Seq<Message>, now: Timestamp)
    ensures
        forall|i: int| 0 <= i < due_in(s, now).len() ==> !(#[trigger] due_in(s, now)[i]).is_sent(),
{
    assert forall|i: int| 0 <= i < due_in(s, now).len() implies !(
    #[trigger] due_in(s, now)[i]).is_sent() by {
        s.lemma_filter_pred(|m: Message| m.is_due(now), i);
    }
}

/// The records after marking, one after another, each record named in `ids`
/// as sent: what any number of ticks' successful deliveries do to the store.
pub open spec fn mark_all_sent(s: Seq<Message>, ids: Seq<Seq<char>>) -> Seq<Message>
    decreases ids.len(),
{
    if ids.len() == 0 {
        s
    } else {
        mark_sent(mark_all_sent(s, ids.drop_last()), ids.last())
    }
}

/// Once sent, a record stays sent through any later deliveries, and it is
/// never among the due messages again, whatever the time.
pub proof fn lemma_sent_forever(s: Seq<Message>, id: Seq<char>, ids: Seq<Seq<char>>, now: Timestamp)
    requires
        ids_well_formed(s),
        lookup(s, id) is Some,
        lookup(s, id)->0.is_sent(),
    ensures
        ids_well_formed(mark_all_sent(s, ids)),
        lookup(mark_all_sent(s, ids), id) is Some,
        lookup(mark_all_sent(s, ids), id)->0.is_sent(),
        !due_in(mark_all_sent(s, ids), now).contains(lookup(mark_all_sent(s, ids), id)->0),
    decreases ids.len(),
{
    let t = mark_all_sent(s, ids);
    if ids.len() > 0 {
        lemma_sent_forever(s, id, ids.drop_last(), now);
        let p = mark_all_sent(s, ids.drop_last());
        lemma_sent_stays_sent(p, id, ids.last());
        lemma_mark_sent_well_formed(p, ids.last());
    }
    let m = lookup(t, id)->0;
    lemma_sent_never_due(t, now);
    if due_in(t, now).contains(m) {
        let j = choose|j: int| 0 <= j < due_in(t, now).len() && due_in(t, now)[j] == m;
        assert(!due_in(t, now)[j].is_sent());
    }
}

/// An unsent message scheduled at `t` is among the due messages at `now`
/// exactly when `t` is at or before `now`: never at a tick before `t`, and at
/// the first tick at or after it.
pub proof fn lemma_due_exactly_from_schedule(s: Seq<Message>, i: int, now: Timestamp)
    requires
        0 <= i < s.len(),
        !s[i].is_sent(),
        s[i].send_at is Some,
    ensures
        due_in(s, now).contains(s[i]) <==> s[i].send_at->0.spec_le(now),
{
    let f = |m: Message| m.is_due(now);
    if f(s[i]) {
        s.lemma_filter_contains(f, i);
    }
    if due_in(s, now).contains(s[i]) {
        let j = choose|j: int| 0 <= j < due_in(s, now).len() && due_in(s, now)[j] == s[i];
        s.lemma_filter_pred(f, j);
    }
}

/// Filtering keeps ids present and distinct.
proof fn lemma_due_in_well_formed(s: Seq<Message>, now: Timestamp)
    requires
        ids_well_formed(s),
    ensures
        ids_well_formed(due_in(s, now)),
    decreases s.len(),
{
    let f = |m: Message| m.is_due(now);
    reveal(Seq::filter);
    if s.len() > 0 {
        let p = s.drop_last();
        assert(ids_well_formed(p)) by {
            assert forall|i: int| 0 <= i < p.len() implies (#[trigger] p[i]).id is Some by {
                assert(p[i] == s[i]);
            }
            assert forall|i: int, j: int|
                0 <= i < p.len() && 0 <= j < p.len() && i != j implies (#[trigger] p[i]).id_view() != (
                #[trigger] p[j]).id_view() by {
                assert(p[i] == s[i] && p[j] == s[j]);
            }
        }
        lemma_due_in_well_formed(p, now);
        let q = due_in(p, now);
        if f(s.last()) {
            let t = q.push(s.last());
            assert(t == due_in(s, now));
            assert forall|k: int| 0 <= k < q.len() implies (#[trigger] q[k]).id_view() != s.last().id_view() by {
                p.lemma_filter_contains_rev(f, q[k]);
                let j = choose|j: int| 0 <= j < p.len() && p[j] == q[k];
                assert(s[j] == p[j]);
                assert(s[j].id_view() != s[s.len() - 1].id_view());
            }
            assert forall|a: int, b: int|
                0 <= a < t.len() && 0 <= b < t.len() && a != b implies (#[trigger] t[a]).id_view() != (
                #[trigger] t[b]).id_view() by {
                if a == q.len() {
                    assert(q[b].id_view() != s.last().id_view());
                } else if b == q.len() {
                    assert(q[a].id_view() != s.last().id_view());
                } else {
                    assert(q[a].id_view() != q[b].id_view());
                }
            }
            assert forall|a: int| 0 <= a < t.len() implies (#[trigger] t[a]).id is Some by {
                if a < q.len() {
                    assert(t[a] == q[a]);
                }
            }
        }
    }
}

/// In a snapshot of the store, a message due at `now` is among the due
/// messages exactly once: one mail is sent for it in that tick, no more.
pub proof fn lemma_due_exactly_once(s: Seq<Message>, i: int, now: Timestamp)
    requires
        ids_well_formed(s),
        0 <= i < s.len(),
        s[i].is_due(now),
    ensures
        exists|j: int| 0 <= j < due_in(s, now).len() && due_in(s, now)[j] == s[i],
        forall|j: int, k: int|
            0 <= j < due_in(s, now).len() && 0 <= k < due_in(s, now).len()
                && (#[trigger] due_in(s, now)[j]).id_view() == s[i].id_view()
                && (#[trigger] due_in(s, now)[k]).id_view() == s[i].id_view() ==> j == k,
{
    let f = |m: Message| m.is_due(now);
    s.lemma_filter_contains(f, i);
    lemma_due_in_well_formed(s, now);
}

/// A message with no schedule is never among the due messages, at any time.
pub proof fn lemma_unscheduled_never_due(s: Seq<Message>, i: int, now: Timestamp)
    requires
        0 <= i < s.len(),
        s[i].send_at is None,
    ensures
        !due_in(s, now).contains(s[i]),
{
    let f = |m: Message| m.is_due(now);
    if due_in(s, now).contains(s[i]) {
        let j = choose|j: int| 0 <= j < due_in(s, now).len() && due_in(s, now)[j] == s[i];
        s.lemma_filter_pred(f, j);
    }
}

/// The mails to send at `now` for the snapshot `messages`: one for each due
/// message, in the snapshot's order, and none for any other.
pub fn scheduled_deliveries(messages: &Vec<Message>, now: Timestamp) -> (r: Vec<Delivery>)
    ensures
        r@.len() == due_in(messages@, now).len(),
        forall|i: int| 0 <= i < r@.len() ==> is_delivery_of(#[trigger] r@[i], due_in(messages@, now)[i]),
{
    let mut out: Vec<Delivery> = Vec::new();
    let mut i: usize = 0;
    while i < messages.len()
        invariant
            i <= messages@.len(),
            out@.len() == due_in(messages@.take(i as int), now).len(),
            forall|k: int| 0 <= k < out@.len() ==> is_delivery_of(#[trigger] out@[k], due_in(messages@.take(i as int), now)[k]),
        decreases messages@.len() - i,
    {
        proof {
            let f = |m: Message| m.is_due(now);
            assert(messages@.take(i as int + 1).drop_last() =~= messages@.take(i as int));
            reveal(Seq::filter);
            assert(messages@.take(i as int + 1).filter(f) == if f(messages@[i as int]) {
                messages@.take(i as int).filter(f).push(messages@[i as int])
            } else {
                messages@.take(i as int).filter(f)
            });
        }
        let m = &messages[i];
        if m.is_due_at(&now) {
            let d = Delivery {
                message: m.duplicate(),
                to: m.email.clone(),
                subject: EMAIL_SUBJECT.to_string(),
                body: m.body_text(),
            };
            out.push(d);
        }
        i = i + 1;
    }
    proof {
        assert(messages@.take(messages@.len() as int) =~= messages@);
    }
    out
}

/// Records the outcome of one mail: where it was delivered, its message is
/// marked sent in the store (if the store still holds it); where it failed,
/// nothing changes and the message stays due for the next tick.
pub fn record_delivery(database: &mut Database, delivery: &Delivery, delivered: bool) -> (r: Option<Message>)
    requires
        old(database).well_formed(),
    ensures
        final(database).well_formed(),
        match (delivered, delivery.message.id_view()) {
            (true, Some(id)) => r == sent_lookup(old(database)@, id) && final(database)@ == mark_sent(
                old(database)@,
                id,
            ),
            _ => r is None && final(database)@ == old(database)@,
        },
{
    if delivered {
        database.update_message_as_sent(delivery.message.duplicate())
    } else {
        None
    }
}

} // verus!
