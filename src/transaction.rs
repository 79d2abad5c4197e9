use vstd::prelude::*;

use std::collections::VecDeque;

use crate::clock::now_millis;
use crate::ids::fresh_uuid;

verus! {

/// One applied command, as the log keeps it.
#[derive(Debug, Clone)]
pub struct Transaction<C> {
    pub id: String,
    pub client_id: String,
    pub timestamp: u64,
    pub msg: C,
}

impl<C> Transaction<C> {
    /// A new entry with a fresh identifier, stamped with the current time.
    pub fn new(client_id: String, msg: C) -> (r: Transaction<C>)
        ensures
            r.client_id == client_id,
            r.msg == msg,
            r.id@.len() == 36,
    {
        let now = now_millis();
        let timestamp: u64 = if now < 0 {
            0
        } else {
            now as u64
        };
        Transaction { id: fresh_uuid(), client_id, timestamp, msg }
    }
}

/// The history after pushing `t` onto `h` with room for `max` entries: the oldest entry goes
/// when there is no room.
pub open spec fn pushed<T>(h: Seq<T>, t: T, max: nat) -> Seq<T> {
    if h.len() + 1 > max {
        h.push(t).drop_first()
    } else {
        h.push(t)
    }
}

/// The history after pushing every entry of `s`, in order.
pub open spec fn pushed_all<T>(h: Seq<T>, s: Seq<T>, max: nat) -> Seq<T>
    decreases s.len(),
{
    if s.len() == 0 {
        h
    } else {
        pushed(pushed_all(h, s.drop_last(), max), s.last(), max)
    }
}

/// A bounded history of applied commands, with a stack of undone ones for redo.
#[derive(Debug)]
pub struct TransactionManager<C> {
    history: VecDeque<Transaction<C>>,
    undone: VecDeque<Transaction<C>>,
    max_history: usize,
}

impl<C: Clone> TransactionManager<C> {
    pub closed spec fn history(&self) -> Seq<Transaction<C>> {
        self.history@
    }

    pub closed spec fn undone(&self) -> Seq<Transaction<C>> {
        self.undone@
    }

    pub closed spec fn max_history(&self) -> nat {
        self.max_history as nat
    }

    /// History and undone entries together never exceed the bound.
    pub closed spec fn wf(&self) -> bool {
        self.history@.len() + self.undone@.len() <= self.max_history
    }

    pub fn new(max_history: usize) -> (r: Self)
        ensures
            r.wf(),
            r.history() == Seq::<Transaction<C>>::empty(),
            r.undone() == Seq::<Transaction<C>>::empty(),
            r.max_history() == max_history,
    {
        TransactionManager { history: VecDeque::new(), undone: VecDeque::new(), max_history }
    }

    /// Records a new entry: the undone stack is cleared, and the oldest entry is evicted
    /// when the history is full.
    pub fn add_transaction(&mut self, transaction: Transaction<C>)
        requires
            old(self).wf(),
        ensures
            final(self).wf(),
            final(self).undone() == Seq::<Transaction<C>>::empty(),
            final(self).history() == pushed(old(self).history(), transaction, old(self).max_history()),
            final(self).max_history() == old(self).max_history(),
    {
        self.undone.clear();
        self.history.push_back(transaction);
        if self.history.len() > self.max_history {
            let _ = self.history.pop_front();
        }
        proof {
            assert(self.history@ =~= pushed(old(self).history(), transaction, old(self).max_history()));
        }
    }

    /// Moves the newest entry to the undone stack and hands it back; nothing where the
    /// history is empty.
    pub fn undo(&mut self) -> (r: Option<Transaction<C>>)
        requires
            old(self).wf(),
        ensures
            final(self).wf(),
            final(self).max_history() == old(self).max_history(),
            r is None <==> old(self).history().len() == 0,
            r is None ==> final(self).history() == old(self).history() && final(self).undone() == old(self).undone(),
            r matches Some(t) ==> t == old(self).history().last()
                && final(self).history() == old(self).history().drop_last()
                && final(self).undone().len() == old(self).undone().len() + 1
                && final(self).undone().drop_last() == old(self).undone()
                && cloned(t, final(self).undone().last()),
    {
        match self.history.pop_back() {
            Some(t) => {
                let copy = t.clone();
                self.undone.push_back(copy);
                proof {
                    assert(self.undone@.drop_last() =~= old(self).undone@);
                }
                Some(t)
            },
            None => None,
        }
    }

    /// Moves the newest undone entry back to the history and hands it back; nothing where no
    /// entry was undone.
    pub fn redo(&mut self) -> (r: Option<Transaction<C>>)
        requires
            old(self).wf(),
        ensures
            final(self).wf(),
            final(self).max_history() == old(self).max_history(),
            r is None <==> old(self).undone().len() == 0,
            r is None ==> final(self).history() == old(self).history() && final(self).undone() == old(self).undone(),
            r matches Some(t) ==> t == old(self).undone().last()
                && final(self).undone() == old(self).undone().drop_last()
                && final(self).history().len() == old(self).history().len() + 1
                && final(self).history().drop_last() == old(self).history()
                && cloned(t, final(self).history().last()),
    {
        match self.undone.pop_back() {
            Some(t) => {
                let copy = t.clone();
                self.history.push_back(copy);
                proof {
                    assert(self.history@.drop_last() =~= old(self).history@);
                }
                Some(t)
            },
            None => None,
        }
    }

    pub fn get_history(&self) -> (r: &VecDeque<Transaction<C>>)
        ensures
            r@ == self.history(),
    {
        &self.history
    }
}

/// Pushing no more entries than there is room for keeps them all, in order.
pub proof fn lemma_pushes_within_bound<T>(s: Seq<T>, max: nat)
    requires
        s.len() <= max,
    ensures
        pushed_all(Seq::<T>::empty(), s, max) == s,
    decreases s.len(),
{
    if s.len() > 0 {
        lemma_pushes_within_bound(s.drop_last(), max);
        assert(s.drop_last().push(s.last()) =~= s);
    }
}

/// After `max + 1` pushes into an empty history, the first entry has been evicted and the
/// history holds the other `max`, in order.
pub proof fn lemma_overflow_evicts_oldest<T>(s: Seq<T>, max: nat)
    requires
        s.len() == max + 1,
    ensures
        pushed_all(Seq::<T>::empty(), s, max) == s.drop_first(),
        pushed_all(Seq::<T>::empty(), s, max).len() == max,
{
    lemma_pushes_within_bound(s.drop_last(), max);
    assert(s.drop_last().push(s.last()) =~= s);
}

} // verus!
