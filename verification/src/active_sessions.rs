use vstd::prelude::*;

use crate::ids::{
    distinct, first_occurrence, first_position, lemma_first_position, lemma_names_push,
    lemma_names_remove, names, position,
};

verus! {

/// The answer to a cancellation request: it is always accepted.
#[derive(Clone, Copy, Debug, PartialEq, Eq, Structural)]
pub enum CancellationResult {
    Requested,
}

/// A running session's view of its own cancellation flag.
#[derive(Clone, Copy, Debug, PartialEq, Eq, Structural)]
pub struct CancellationHandle {
    slot: usize,
}

impl CancellationHandle {
    /// The flag slot the handle reads.
    pub closed spec fn spec_slot(&self) -> usize {
        self.slot
    }
}

/// The sessions that are running now, each with the cancellation flag its
/// execution polls. A flag outlives its session's entry, so a handle stays
/// readable after the session is deactivated or activated again.
pub struct ActiveSessions {
    flags: Vec<bool>,
    ids: Vec<String>,
    slots: Vec<usize>,
}

impl ActiveSessions {
    /// Every cancellation flag ever handed out, by slot.
    pub closed spec fn flags(&self) -> Seq<bool> {
        self.flags@
    }

    /// The flag slot of the running session `id`, if it is running.
    pub closed spec fn lookup(&self, id: Seq<char>) -> Option<usize> {
        if names(self.ids@).contains(id) {
            Some(self.slots@[first_position(names(self.ids@), id)])
        } else {
            None
        }
    }

    /// Each session is listed once, with a slot that exists.
    pub closed spec fn wf(&self) -> bool {
        &&& distinct(names(self.ids@))
        &&& self.ids@.len() == self.slots@.len()
        &&& forall|i: int| 0 <= i < self.slots@.len() ==> #[trigger] self.slots@[i] < self.flags@.len()
    }

    proof fn lemma_lookup_at(&self, i: int)
        requires
            self.wf(),
            0 <= i < self.ids@.len(),
        ensures
            self.lookup(names(self.ids@)[i]) == Some(self.slots@[i]),
    {
        let s = names(self.ids@);
        assert(first_occurrence(s, s[i], i)) by {
            assert forall|j: int| 0 <= j < i implies s[j] != s[i] by {}
        }
        lemma_first_position(s, s[i], i);
    }

    /// No session running.
    pub fn new() -> (r: Self)
        ensures
            r.wf(),
            r.flags() == Seq::<bool>::empty(),
            forall|id: Seq<char>| r.lookup(id) is None,
    {
        let r = ActiveSessions { flags: Vec::new(), ids: Vec::new(), slots: Vec::new() };
        assert(names(r.ids@) =~= Seq::<Seq<char>>::empty());
        r
    }

    /// Registers `id` as running with a fresh, uncancelled flag, replacing the
    /// flag of an earlier activation of the same session.
    pub fn activate(&mut self, id: &String) -> (r: CancellationHandle)
        requires
            old(self).wf(),
        ensures
            final(self).wf(),
            r.spec_slot() == old(self).flags().len(),
            final(self).flags() == old(self).flags().push(false),
            final(self).lookup(id@) == Some(r.spec_slot()),
            forall|other: Seq<char>| other != id@ ==> final(self).lookup(other) == old(self).lookup(
                other,
            ),
    {
        let ghost old_self = *self;
        let slot = self.flags.len();
        self.flags.push(false);
        match position(&self.ids, id) {
            Some(i) => {
                self.slots.set(i, slot);
                proof {
                    assert(self.ids@ == old_self.ids@);
                    assert forall|k: int| 0 <= k < self.slots@.len() implies #[trigger] self.slots@[k]
                        < self.flags@.len() by {
                        if k != i {
                            assert(self.slots@[k] == old_self.slots@[k]);
                        }
                    }
                    self.lemma_lookup_at(i as int);
                    assert forall|other: Seq<char>| other != id@ implies self.lookup(other)
                        == old_self.lookup(other) by {
                        let s = names(self.ids@);
                        if s.contains(other) {
                            let k = choose|k: int| 0 <= k < s.len() && s[k] == other;
                            self.lemma_lookup_at(k);
                            old_self.lemma_lookup_at(k);
                        }
                    }
                }
            },
            None => {
                proof {
                    lemma_names_push(self.ids@, *id);
                }
                self.ids.push(id.clone());
                self.slots.push(slot);
                proof {
                    let s = names(self.ids@);
                    let before = names(old_self.ids@);
                    assert(s == before.push(id@));
                    assert forall|a: int, b: int|
                        0 <= a < s.len() && 0 <= b < s.len() && a != b implies s[a] != s[b] by {
                        if a == before.len() {
                            assert(before[b] != id@);
                        } else if b == before.len() {
                            assert(before[a] != id@);
                        }
                    }
                    assert forall|k: int| 0 <= k < self.slots@.len() implies #[trigger] self.slots@[k]
                        < self.flags@.len() by {
                        if k < old_self.slots@.len() {
                            assert(self.slots@[k] == old_self.slots@[k]);
                        }
                    }
                    self.lemma_lookup_at(before.len() as int);
                    assert forall|other: Seq<char>| other != id@ implies self.lookup(other)
                        == old_self.lookup(other) by {
                        if s.contains(other) {
                            let k = choose|k: int| 0 <= k < s.len() && s[k] == other;
                            self.lemma_lookup_at(k);
                            assert(k < before.len());
                            assert(before[k] == other);
                            old_self.lemma_lookup_at(k);
                        }
                        if before.contains(other) {
                            let k = choose|k: int| 0 <= k < before.len() && before[k] == other;
                            assert(s[k] == other);
                        }
                    }
                }
            },
        }
        CancellationHandle { slot }
    }

    /// Asks the running session `id` to stop; a session that is not running is
    /// left alone. The request is always accepted.
    pub fn request_cancellation(&mut self, id: &String) -> (r: CancellationResult)
        requires
            old(self).wf(),
        ensures
            final(self).wf(),
            r == CancellationResult::Requested,
            final(self).flags() == match old(self).lookup(id@) {
                Some(slot) => old(self).flags().update(slot as int, true),
                None => old(self).flags(),
            },
            forall|other: Seq<char>| final(self).lookup(other) == old(self).lookup(other),
    {
        let ghost old_self = *self;
        match position(&self.ids, id) {
            Some(i) => {
                proof {
                    self.lemma_lookup_at(i as int);
                }
                let slot = self.slots[i];
                self.flags.set(slot, true);
                assert forall|k: int| 0 <= k < self.slots@.len() implies #[trigger] self.slots@[k]
                    < self.flags@.len() by {
                    assert(old_self.slots@[k] < old_self.flags@.len());
                }
            },
            None => {},
        }
        CancellationResult::Requested
    }

    /// Forgets the running session `id`; its flag stays as it is.
    pub fn deactivate(&mut self, id: &String)
        requires
            old(self).wf(),
        ensures
            final(self).wf(),
            final(self).flags() == old(self).flags(),
            final(self).lookup(id@) is None,
            forall|other: Seq<char>| other != id@ ==> final(self).lookup(other) == old(self).lookup(
                other,
            ),
    {
        let ghost old_self = *self;
        match position(&self.ids, id) {
            Some(i) => {
                proof {
                    lemma_names_remove(self.ids@, i as int);
                }
                self.ids.remove(i);
                self.slots.remove(i);
                proof {
                    let s = names(self.ids@);
                    let before = names(old_self.ids@);
                    assert(s == before.remove(i as int));
                    assert forall|a: int, b: int|
                        0 <= a < s.len() && 0 <= b < s.len() && a != b implies s[a] != s[b] by {
                        let a2 = if a < i { a } else { a + 1 };
                        let b2 = if b < i { b } else { b + 1 };
                        assert(s[a] == before[a2]);
                        assert(s[b] == before[b2]);
                    }
                    assert forall|k: int| 0 <= k < self.slots@.len() implies #[trigger] self.slots@[k]
                        < self.flags@.len() by {
                        let k2 = if k < i { k } else { k + 1 };
                        assert(self.slots@[k] == old_self.slots@[k2]);
                    }
                    if s.contains(id@) {
                        let k = choose|k: int| 0 <= k < s.len() && s[k] == id@;
                        let k2 = if k < i { k } else { k + 1 };
                        assert(before[k2] == id@);
                        assert(before[i as int] == id@);
                    }
                    assert forall|other: Seq<char>| other != id@ implies self.lookup(other)
                        == old_self.lookup(other) by {
                        if s.contains(other) {
                            let k = choose|k: int| 0 <= k < s.len() && s[k] == other;
                            let k2 = if k < i { k } else { k + 1 };
                            self.lemma_lookup_at(k);
                            assert(before[k2] == other);
                            assert(self.slots@[k] == old_self.slots@[k2]);
                            old_self.lemma_lookup_at(k2);
                        }
                        if before.contains(other) {
                            let k = choose|k: int| 0 <= k < before.len() && before[k] == other;
                            assert(k != i);
                            let k1 = if k < i { k } else { k - 1 };
                            assert(s[k1] == other);
                        }
                    }
                }
            },
            None => {},
        }
    }

    /// Whether the session behind `handle` was asked to stop; a handle this
    /// table did not hand out reads as not cancelled.
    pub fn is_cancelled(&self, handle: CancellationHandle) -> (r: bool)
        ensures
            handle.spec_slot() < self.flags().len() ==> r == self.flags()[handle.spec_slot() as int],
            handle.spec_slot() >= self.flags().len() ==> !r,
    {
        if handle.slot < self.flags.len() {
            self.flags[handle.slot]
        } else {
            false
        }
    }
}

} // verus!
