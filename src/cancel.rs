//! The registry of pending cancellations: one one-shot signal per running
//! timer, keyed by task name, so that a handler that knows only the name can
//! stop the timer.

use vstd::prelude::*;
use tokio::sync::oneshot::{Receiver, Sender};
use crate::text::chars_eq;

verus! {

#[verifier::external_type_specification]
#[verifier::external_body]
#[verifier::reject_recursive_types(T)]
pub struct ExSender<T>(tokio::sync::oneshot::Sender<T>);

#[verifier::external_type_specification]
#[verifier::external_body]
#[verifier::reject_recursive_types(T)]
pub struct ExReceiver<T>(tokio::sync::oneshot::Receiver<T>);

#[verifier::external_type_specification]
#[verifier::external_body]
pub struct ExRecvError(tokio::sync::oneshot::error::RecvError);

/// Relies on tokio's `oneshot::channel`: a fresh sender and receiver pair.
pub assume_specification<T>[ tokio::sync::oneshot::channel::<T> ]() -> (Sender<T>, Receiver<T>);

/// Relies on tokio's `oneshot::Sender::send`: it fails where the receiver is
/// gone, so nothing is stated of its result.
pub assume_specification<T>[ tokio::sync::oneshot::Sender::<T>::send ](s: Sender<T>, t: T) -> Result<(), T>;

/// Why a cancel could not be delivered.
#[derive(Debug, Clone, Copy, PartialEq, Eq, Structural)]
pub enum CancelError {
    /// The timer had already stopped listening.
    Closed,
}

struct CancelEntry {
    name: String,
    tx: Sender<()>,
}

/// Pending cancellations, at most one per task name.
pub struct CancelRegistry {
    entries: Vec<CancelEntry>,
}

pub open spec fn names_unique(names: Seq<Seq<char>>) -> bool {
    forall|i: int, j: int| 0 <= i < j < names.len() ==> names[i] != names[j]
}

/// The sender stored under each name; a later entry wins.
spec fn senders_of(es: Seq<CancelEntry>) -> Map<Seq<char>, Sender<()>>
    decreases es.len(),
{
    if es.len() == 0 {
        Map::empty()
    } else {
        senders_of(es.drop_last()).insert(es.last().name@, es.last().tx)
    }
}

spec fn names_of(es: Seq<CancelEntry>) -> Seq<Seq<char>> {
    es.map_values(|e: CancelEntry| e.name@)
}

/// The sender stored under `k`, if any.
pub open spec fn sender_at(m: Map<Seq<char>, Sender<()>>, k: Seq<char>) -> Option<Sender<()>> {
    if m.dom().contains(k) {
        Some(m[k])
    } else {
        None
    }
}

proof fn lemma_senders_dom(es: Seq<CancelEntry>)
    ensures
        senders_of(es).dom() == names_of(es).to_set(),
    decreases es.len(),
{
    if es.len() > 0 {
        lemma_senders_dom(es.drop_last());
        assert(names_of(es.drop_last()) =~= names_of(es).drop_last());
        assert forall|k: Seq<char>| #[trigger] senders_of(es).dom().contains(k) <==> names_of(
            es,
        ).contains(k) by {
            if names_of(es).contains(k) {
                let j = choose|j: int| 0 <= j < names_of(es).len() && names_of(es)[j] == k;
                if j < es.len() - 1 {
                    assert(names_of(es.drop_last())[j] == k);
                }
            }
            if names_of(es.drop_last()).contains(k) {
                let j = choose|j: int| 0 <= j < names_of(es.drop_last()).len() && names_of(es.drop_last())[j] == k;
                assert(names_of(es)[j] == k);
            }
            assert(names_of(es)[es.len() - 1] == es.last().name@);
        }
        assert(senders_of(es).dom() =~= names_of(es).to_set());
    } else {
        assert(senders_of(es).dom() =~= names_of(es).to_set());
    }
}

proof fn lemma_senders_index(es: Seq<CancelEntry>, i: int)
    requires
        names_unique(names_of(es)),
        0 <= i < es.len(),
    ensures
        senders_of(es).dom().contains(es[i].name@),
        senders_of(es)[es[i].name@] == es[i].tx,
    decreases es.len(),
{
    if i < es.len() - 1 {
        let init = es.drop_last();
        assert(names_unique(names_of(init))) by {
            assert forall|a: int, b: int| 0 <= a < b < names_of(init).len() implies names_of(init)[a]
                != names_of(init)[b] by {
                assert(names_of(es)[a] != names_of(es)[b]);
            }
        }
        lemma_senders_index(init, i);
        assert(names_of(es)[i] != names_of(es)[es.len() - 1]);
        assert(init[i] == es[i]);
    }
}

proof fn lemma_senders_remove(es: Seq<CancelEntry>, i: int)
    requires
        names_unique(names_of(es)),
        0 <= i < es.len(),
    ensures
        senders_of(es.remove(i)) == senders_of(es).remove(es[i].name@),
    decreases es.len(),
{
    let init = es.drop_last();
    assert(names_unique(names_of(init))) by {
        assert forall|a: int, b: int| 0 <= a < b < names_of(init).len() implies names_of(init)[a]
            != names_of(init)[b] by {
            assert(names_of(es)[a] != names_of(es)[b]);
        }
    }
    if i == es.len() - 1 {
        assert(es.remove(i) =~= init);
        lemma_senders_dom(init);
        assert(!names_of(init).contains(es[i].name@)) by {
            if names_of(init).contains(es[i].name@) {
                let j = choose|j: int| 0 <= j < names_of(init).len() && names_of(init)[j] == es[i].name@;
                assert(names_of(es)[j] == names_of(es)[i]);
            }
        }
        assert(senders_of(es).remove(es[i].name@) =~= senders_of(init));
    } else {
        lemma_senders_remove(init, i);
        assert(es.remove(i) =~= init.remove(i).push(es.last()));
        assert(es.remove(i).drop_last() =~= init.remove(i));
        assert(es.remove(i).last() == es.last());
        assert(init[i] == es[i]);
        assert(names_of(es)[i] != names_of(es)[es.len() - 1]);
        assert(senders_of(es.remove(i)) =~= senders_of(es).remove(es[i].name@));
    }
}

impl CancelRegistry {
    /// The sender registered under each name.
    pub closed spec fn senders(&self) -> Map<Seq<char>, Sender<()>> {
        senders_of(self.entries@)
    }

    spec fn names(&self) -> Seq<Seq<char>> {
        self.entries@.map_values(|e: CancelEntry| e.name@)
    }

    /// The names of the timers that can still be cancelled.
    pub closed spec fn keys(&self) -> Set<Seq<char>> {
        self.names().to_set()
    }

    pub closed spec fn wf(&self) -> bool {
        names_unique(self.names())
    }

    pub fn new() -> (r: CancelRegistry)
        ensures
            r.wf(),
            r.keys() == Set::<Seq<char>>::empty(),
            r.senders() == Map::<Seq<char>, Sender<()>>::empty(),
    {
        let r = CancelRegistry { entries: Vec::new() };
        assert(r.names() =~= Seq::<Seq<char>>::empty());
        r
    }

    fn find(&self, key: &str) -> (r: Option<usize>)
        requires
            self.wf(),
        ensures
            r matches Some(i) ==> i < self.entries@.len() && self.names()[i as int] == key@,
            r is None ==> !self.names().contains(key@),
    {
        let mut i: usize = 0;
        while i < self.entries.len()
            invariant
                i <= self.entries@.len(),
                forall|j: int| 0 <= j < i ==> self.names()[j] != key@,
            decreases self.entries@.len() - i,
        {
            if chars_eq(self.entries[i].name.as_str(), key) {
                return Some(i);
            }
            i = i + 1;
        }
        None
    }

    /// Whether a timer named `key` can be cancelled.
    pub fn contains(&self, key: &str) -> (r: bool)
        requires
            self.wf(),
        ensures
            r == self.keys().contains(key@),
    {
        let f = self.find(key);
        proof {
            if let Some(i) = f {
                assert(self.names().contains(key@));
            }
        }
        f.is_some()
    }

    /// Takes out the signal registered under `key`; `None` where there is none.
    pub fn delete_cancel(&mut self, key: &str) -> (r: Option<Sender<()>>)
        requires
            old(self).wf(),
        ensures
            final(self).wf(),
            r is Some <==> old(self).keys().contains(key@),
            r == sender_at(old(self).senders(), key@),
            final(self).keys() == old(self).keys().remove(key@),
            final(self).senders() == old(self).senders().remove(key@),
    {
        proof {
            lemma_senders_dom(old(self).entries@);
            assert(old(self).names() == names_of(old(self).entries@));
        }
        match self.find(key) {
            None => {
                assert(self.keys() =~= self.keys().remove(key@));
                assert(self.senders() =~= self.senders().remove(key@));
                None
            },
            Some(i) => {
                let ghost before = self.names();
                proof {
                    lemma_senders_index(self.entries@, i as int);
                    lemma_senders_remove(self.entries@, i as int);
                }
                let e = self.entries.remove(i);
                proof {
                    assert(self.names() =~= before.remove(i as int));
                    assert(before.contains(key@));
                    assert forall|k: Seq<char>| #[trigger] self.keys().contains(k) <==> (
                    before.to_set().contains(k) && k != key@) by {
                        if self.names().contains(k) {
                            let j = choose|j: int| 0 <= j < self.names().len() && self.names()[j] == k;
                            if j < i {
                                assert(before[j] == k);
                            } else {
                                assert(before[j + 1] == k);
                            }
                        }
                        if before.contains(k) && k != key@ {
                            let j = choose|j: int| 0 <= j < before.len() && before[j] == k;
                            if j < i {
                                assert(self.names()[j] == k);
                            } else {
                                assert(self.names()[j - 1] == k);
                            }
                        }
                    }
                    assert(self.keys() =~= old(self).keys().remove(key@));
                }
                Some(e.tx)
            },
        }
    }

    /// Registers a fresh signal under `key`, replacing one already there, and
    /// hands back the end that the timer listens on.
    pub fn create_cancel(&mut self, key: String) -> (r: Receiver<()>)
        requires
            old(self).wf(),
        ensures
            final(self).wf(),
            final(self).keys() == old(self).keys().insert(key@),
            final(self).senders().dom().contains(key@),
            final(self).senders().remove(key@) == old(self).senders().remove(key@),
    {
        let _ = self.delete_cancel(key.as_str());
        let ghost mid = self.keys();
        let ghost before = self.names();
        let (tx, rx) = tokio::sync::oneshot::channel();
        let ghost es = self.entries@;
        self.entries.push(CancelEntry { name: key, tx });
        proof {
            assert(self.entries@.drop_last() =~= es);
            assert(self.senders().remove(key@) =~= old(self).senders().remove(key@));
            assert(self.names() =~= before.push(key@));
            assert(!mid.contains(key@));
            assert(!before.contains(key@));
            assert forall|i: int, j: int| 0 <= i < j < self.names().len() implies self.names()[i]
                != self.names()[j] by {
                if j == before.len() {
                    assert(before[i] != key@);
                }
            }
            assert forall|k: Seq<char>| #[trigger] self.keys().contains(k) <==> (mid.contains(k)
                || k == key@) by {
                if self.names().contains(k) && k != key@ {
                    let j = choose|j: int| 0 <= j < self.names().len() && self.names()[j] == k;
                    assert(before[j] == k);
                }
                if before.contains(k) {
                    let j = choose|j: int| 0 <= j < before.len() && before[j] == k;
                    assert(self.names()[j] == k);
                }
                if k == key@ {
                    assert(self.names()[before.len() as int] == k);
                }
            }
            assert(self.keys() =~= old(self).keys().insert(key@));
        }
        rx
    }

    /// Signals the timer named `key` to stop. Cancelling a name with no
    /// pending signal succeeds and changes nothing.
    pub fn cancel(&mut self, key: &str) -> (r: Result<(), CancelError>)
        requires
            old(self).wf(),
        ensures
            final(self).wf(),
            final(self).keys() == old(self).keys().remove(key@),
            final(self).senders() == old(self).senders().remove(key@),
            r is Err ==> old(self).keys().contains(key@),
            !old(self).keys().contains(key@) ==> r is Ok && final(self).keys() == old(self).keys()
                && final(self).senders() == old(self).senders(),
    {
        // the sender taken out is the one registered under `key`
        match self.delete_cancel(key) {
            Some(tx) => match tx.send(()) {
                Ok(()) => Ok(()),
                Err(_) => Err(CancelError::Closed),
            },
            None => {
                assert(self.keys() =~= old(self).keys());
                assert(self.senders() =~= old(self).senders());
                Ok(())
            },
        }
    }
}

/// Cancelling twice is the same as cancelling once: the second call succeeds
/// and leaves the registry as the first one left it.
pub proof fn lemma_cancel_idempotent(before: Set<Seq<char>>, key: Seq<char>)
    ensures
        !before.remove(key).contains(key),
        before.remove(key).remove(key) == before.remove(key),
{
    assert(before.remove(key).remove(key) =~= before.remove(key));
}

} // verus!
