//! Per-account nonce sequencing with ordering dependencies.

use vstd::prelude::*;
use crate::hashing::{append_bytes, bytes_eq};

verus! {

/// Why a nonce is refused.
#[derive(Debug, Clone, Copy, PartialEq, Eq)]
pub enum NonceFault {
    /// The nonce is below the account's counter: it was used already.
    Stale,
    /// The counter is at its largest value and cannot advance.
    Exhausted,
}

/// An accepted nonce: the counter to record and the nonce, if any, that must
/// have been admitted first.
#[derive(Debug, Clone, Copy, PartialEq, Eq)]
pub struct NonceDecision {
    pub next_counter: u64,
    pub depends_on: Option<u64>,
}

/// The decision on `nonce` for an account whose next expected nonce is `counter`.
pub open spec fn nonce_verdict(counter: u64, nonce: u64) -> Result<NonceDecision, NonceFault> {
    if nonce < counter {
        Err(NonceFault::Stale)
    } else if nonce == counter {
        if counter == u64::MAX {
            Err(NonceFault::Exhausted)
        } else {
            Ok(NonceDecision { next_counter: (counter + 1) as u64, depends_on: None })
        }
    } else {
        Ok(NonceDecision { next_counter: counter, depends_on: Some((nonce - 1) as u64) })
    }
}

/// Decides on `nonce` for an account whose next expected nonce is `counter`:
/// a lower nonce is stale, the expected one advances the counter, a higher one
/// is accepted ahead of time and depends on the nonce just before it.
pub fn check_nonce(counter: u64, nonce: u64) -> (r: Result<NonceDecision, NonceFault>)
    ensures
        r == nonce_verdict(counter, nonce),
{
    if nonce < counter {
        Err(NonceFault::Stale)
    } else if nonce == counter {
        if counter == u64::MAX {
            Err(NonceFault::Exhausted)
        } else {
            Ok(NonceDecision { next_counter: counter + 1, depends_on: None })
        }
    } else {
        Ok(NonceDecision { next_counter: counter, depends_on: Some(nonce - 1) })
    }
}

/// Admitting the expected nonce makes the same nonce stale, and a nonce one
/// past the counter is accepted without advancing it, depending on the counter.
pub proof fn lemma_nonce_monotonic(counter: u64)
    requires
        counter < u64::MAX,
    ensures
        nonce_verdict(counter, counter) == Ok::<NonceDecision, NonceFault>(
            NonceDecision { next_counter: (counter + 1) as u64, depends_on: None },
        ),
        nonce_verdict((counter + 1) as u64, counter) == Err::<NonceDecision, NonceFault>(
            NonceFault::Stale,
        ),
        nonce_verdict(counter, (counter + 1) as u64) == Ok::<NonceDecision, NonceFault>(
            NonceDecision { next_counter: counter, depends_on: Some(counter) },
        ),
{
}

/// The recorded next nonce of one account.
pub struct NonceEntry {
    pub account: Vec<u8>,
    pub next: u64,
}

/// The counter of `who` in `entries`: the last entry for it, 0 if none.
pub open spec fn counter_in(entries: Seq<NonceEntry>, who: Seq<u8>) -> u64
    decreases entries.len(),
{
    if entries.len() == 0 {
        0
    } else if entries.last().account@ == who {
        entries.last().next
    } else {
        counter_in(entries.drop_last(), who)
    }
}

proof fn lemma_counter_update(
    entries: Seq<NonceEntry>,
    i: int,
    entry: NonceEntry,
    w: Seq<u8>,
)
    requires
        0 <= i < entries.len(),
        entries[i].account@ == entry.account@,
        forall|j: int| i < j < entries.len() ==> entries[j].account@ != entry.account@,
    ensures
        counter_in(entries.update(i, entry), w) == if w == entry.account@ {
            entry.next
        } else {
            counter_in(entries, w)
        },
    decreases entries.len(),
{
    let updated = entries.update(i, entry);
    if i == entries.len() - 1 {
        assert(updated.drop_last() =~= entries.drop_last());
    } else {
        assert(updated.drop_last() =~= entries.drop_last().update(i, entry));
        lemma_counter_update(entries.drop_last(), i, entry, w);
    }
}

proof fn lemma_counter_prefix(entries: Seq<NonceEntry>, lo: int, who: Seq<u8>)
    requires
        0 <= lo <= entries.len(),
        forall|j: int| #![trigger entries[j]] lo <= j < entries.len() ==> entries[j].account@ != who,
    ensures
        counter_in(entries, who) == counter_in(entries.subrange(0, lo), who),
    decreases entries.len(),
{
    if entries.len() == lo {
        assert(entries.subrange(0, lo) =~= entries);
    } else {
        assert(entries.last() == entries[entries.len() - 1]);
        assert(entries.drop_last().subrange(0, lo) =~= entries.subrange(0, lo));
        lemma_counter_prefix(entries.drop_last(), lo, who);
    }
}

/// The next expected nonce of each account; an account never seen expects 0.
pub struct NonceBook {
    pub entries: Vec<NonceEntry>,
}

impl NonceBook {
    pub open spec fn counter(&self, who: Seq<u8>) -> u64 {
        counter_in(self.entries@, who)
    }

    pub fn new() -> (r: NonceBook)
        ensures
            forall|who: Seq<u8>| r.counter(who) == 0,
    {
        NonceBook { entries: Vec::new() }
    }

    /// The index of the last entry for `who`, if any.
    fn find(&self, who: &[u8]) -> (r: Option<usize>)
        ensures
            r matches Some(i) ==> i < self.entries@.len() && self.entries@[i as int].account@ == who@,
            forall|j: int|
                #![trigger self.entries@[j]]
                (match r {
                    Some(i) => i < j,
                    None => 0 <= j,
                }) && j < self.entries@.len() ==> self.entries@[j].account@ != who@,
    {
        let mut i: usize = self.entries.len();
        while i > 0
            invariant
                i <= self.entries@.len(),
                forall|j: int|
                    #![trigger self.entries@[j]]
                    i <= j < self.entries@.len() ==> self.entries@[j].account@ != who@,
            decreases i,
        {
            if bytes_eq(self.entries[i - 1].account.as_slice(), who) {
                return Some(i - 1);
            }
            i = i - 1;
        }
        None
    }

    /// The next expected nonce of `who`.
    pub fn get(&self, who: &[u8]) -> (r: u64)
        ensures
            r == self.counter(who@),
    {
        let found = self.find(who);
        proof {
            self.lemma_counter_found(who@, found);
        }
        match found {
            Some(i) => self.entries[i].next,
            None => 0,
        }
    }

    proof fn lemma_counter_found(&self, who: Seq<u8>, found: Option<usize>)
        requires
            found matches Some(i) ==> i < self.entries@.len() && self.entries@[i as int].account@
                == who,
            forall|j: int|
                #![trigger self.entries@[j]]
                (match found {
                    Some(i) => i < j,
                    None => 0 <= j,
                }) && j < self.entries@.len() ==> self.entries@[j].account@ != who,
        ensures
            self.counter(who) == match found {
                Some(i) => self.entries@[i as int].next,
                None => 0,
            },
    {
        let e = self.entries@;
        let lo: int = match found {
            Some(i) => i + 1,
            None => 0,
        };
        lemma_counter_prefix(e, lo, who);
        let k = lo;
        match found {
            Some(i) => {
                assert(e.subrange(0, k).last() == e[i as int]);
            },
            None => {
                assert(e.subrange(0, k) =~= Seq::<NonceEntry>::empty());
            },
        }
    }

    /// Records `next` as the next expected nonce of `who`.
    pub fn set(&mut self, who: &[u8], next: u64)
        ensures
            forall|w: Seq<u8>|
                #![trigger final(self).counter(w)]
                final(self).counter(w) == if w == who@ {
                    next
                } else {
                    old(self).counter(w)
                },
    {
        let found = self.find(who);
        let mut account: Vec<u8> = Vec::new();
        append_bytes(&mut account, who);
        let entry = NonceEntry { account, next };
        match found {
            Some(i) => {
                let ghost before = self.entries@;
                self.entries.set(i, entry);
                proof {
                    assert(self.entries@ == before.update(i as int, entry));
                    assert forall|w: Seq<u8>|
                        #![trigger self.counter(w)]
                        self.counter(w) == if w == who@ {
                            next
                        } else {
                            counter_in(before, w)
                        } by {
                        lemma_counter_update(before, i as int, entry, w);
                    }
                }
            },
            None => {
                let ghost before = self.entries@;
                self.entries.push(entry);
                proof {
                    assert(self.entries@.drop_last() =~= before);
                }
            },
        }
    }

    /// Checks `nonce` for `who` and, where it is the expected one, advances
    /// the account's counter; returns the decision.
    pub fn check(&mut self, who: &[u8], nonce: u64) -> (r: Result<NonceDecision, NonceFault>)
        ensures
            r == nonce_verdict(old(self).counter(who@), nonce),
            forall|w: Seq<u8>|
                #![trigger final(self).counter(w)]
                final(self).counter(w) == match r {
                    Ok(d) => if w == who@ {
                        d.next_counter
                    } else {
                        old(self).counter(w)
                    },
                    Err(_) => old(self).counter(w),
                },
    {
        let counter = self.get(who);
        let r = check_nonce(counter, nonce);
        if let Ok(d) = r {
            if d.next_counter != counter {
                self.set(who, d.next_counter);
            }
        }
        r
    }
}

} // verus!
