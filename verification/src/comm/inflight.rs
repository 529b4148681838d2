//! The table of transactions that wait for the upstream's answer.

use super::{
    answers_view, forward_datagram, timed_out, upstream_datagram, upstream_spec, Answer,
    AnswerView, Upstream,
};
use crate::buffer::bytes_seq;
use crate::protocol::error::PacketErrorView;
use crate::protocol::packet::{packet_wire, query_view};
use crate::protocol::question::Question;
use bytes::Bytes;
use std::collections::BTreeMap;
use vstd::prelude::*;

verus! {

broadcast use {vstd::laws_cmp::group_laws_cmp, vstd::std_specs::btree::group_btree_axioms};

/// The waiters of the transactions in flight, by transaction id. A
/// waiter is put in before its query is sent, and taken out once: when
/// the answer comes, or when its time is up.
pub struct InFlight<T> {
    waiters: BTreeMap<u16, T>,
}

impl<T> View for InFlight<T> {
    type V = Map<u16, T>;

    closed spec fn view(&self) -> Map<u16, T> {
        self.waiters@
    }
}

impl<T> InFlight<T> {
    /// An empty table.
    pub fn new() -> (r: Self)
        ensures
            r@ == Map::<u16, T>::empty(),
    {
        InFlight { waiters: BTreeMap::new() }
    }

    /// Puts `waiter` in under `id`. Gives back the waiter that was there
    /// under the same id, if there was one: it will get no answer.
    pub fn insert(&mut self, id: u16, waiter: T) -> (displaced: Option<T>)
        ensures
            final(self)@ == old(self)@.insert(id, waiter),
            match displaced {
                Some(w) => old(self)@.contains_key(id) && w == old(self)@[id],
                None => !old(self)@.contains_key(id),
            },
    {
        self.waiters.insert(id, waiter)
    }

    /// Takes the waiter of `id` out, if there is one.
    pub fn take(&mut self, id: u16) -> (waiter: Option<T>)
        ensures
            final(self)@ == old(self)@.remove(id),
            match waiter {
                Some(w) => old(self)@.contains_key(id) && w == old(self)@[id],
                None => !old(self)@.contains_key(id),
            },
    {
        self.waiters.remove(&id)
    }

    /// Starts a transaction: puts `waiter` in under `id`, and gives the
    /// datagram to send to the upstream, so that no query is on its way
    /// before its waiter stands in the table. Gives back the waiter that
    /// stood there under the same id, if there was one.
    pub fn launch(&mut self, id: u16, waiter: T, question: Question) -> (r: (Bytes, Option<T>))
        ensures
            final(self)@ == old(self)@.insert(id, waiter),
            bytes_seq(r.0) == packet_wire(query_view(id, question@)),
            match r.1 {
                Some(w) => old(self)@.contains_key(id) && w == old(self)@[id],
                None => !old(self)@.contains_key(id),
            },
    {
        let displaced = self.insert(id, waiter);
        (forward_datagram(id, question), displaced)
    }

    /// Takes a datagram from the upstream: where it holds an answer for a
    /// waiter in the table, the waiter is taken out and given with the
    /// answer; else nothing changes.
    pub fn deliver(&mut self, datagram: Bytes) -> (r: Option<(T, Vec<Answer>)>)
        ensures
            match upstream_spec(bytes_seq(datagram)) {
                Some((id, answers)) => final(self)@ == old(self)@.remove(id) && (match r {
                    Some((w, items)) => old(self)@.contains_key(id) && w == old(self)@[id]
                        && answers_view(items@) == answers,
                    None => !old(self)@.contains_key(id),
                }),
                None => final(self)@ == old(self)@ && r is None,
            },
    {
        match upstream_datagram(datagram) {
            Upstream::Deliver(id, answers) => {
                match self.take(id) {
                    Some(waiter) => Some((waiter, answers)),
                    None => None,
                }
            },
            Upstream::Ignore => None,
        }
    }

    /// Gives a transaction up when its time has run out: the waiter is
    /// taken out, if it still stands in the table, and given with the
    /// server failure that answers it.
    pub fn expire(&mut self, id: u16) -> (r: Option<(T, Vec<Answer>)>)
        ensures
            final(self)@ == old(self)@.remove(id),
            match r {
                Some((w, items)) => old(self)@.contains_key(id) && w == old(self)@[id]
                    && answers_view(items@) == seq![
                    AnswerView::Error(PacketErrorView::ServFail),
                ],
                None => !old(self)@.contains_key(id),
            },
    {
        match self.take(id) {
            Some(waiter) => Some((waiter, timed_out())),
            None => None,
        }
    }

    /// Whether a waiter stands under `id`.
    pub fn contains(&self, id: u16) -> (r: bool)
        ensures
            r == self@.contains_key(id),
    {
        self.waiters.contains_key(&id)
    }

    /// How many transactions are in flight.
    pub fn len(&self) -> (r: usize)
        ensures
            r == self@.len(),
            self@.dom().finite(),
    {
        self.waiters.len()
    }

    /// Whether no transaction is in flight.
    pub fn is_empty(&self) -> (r: bool)
        ensures
            r == (self@ == Map::<u16, T>::empty()),
    {
        let r = self.waiters.is_empty();
        proof {
            if r {
                assert(self@ =~= Map::<u16, T>::empty());
            }
        }
        r
    }
}

/// A waiter that was put in and taken out again leaves the table as it
/// was before, if its id was free.
pub proof fn lemma_insert_take<T>(table: Map<u16, T>, id: u16, waiter: T)
    requires
        !table.contains_key(id),
    ensures
        table.insert(id, waiter).remove(id) == table,
        table.insert(id, waiter)[id] == waiter,
{
    assert(table.insert(id, waiter).remove(id) =~= table);
}

/// Taking one waiter out leaves every other waiter in.
pub proof fn lemma_take_leaves_others<T>(table: Map<u16, T>, id: u16, other: u16)
    requires
        id != other,
    ensures
        table.remove(id).contains_key(other) == table.contains_key(other),
        table.contains_key(other) ==> table.remove(id)[other] == table[other],
{
}

} // verus!
