use vstd::prelude::*;

use crate::error::DomainError;
use crate::frame::FrameMessageType;
use crate::ids::{
    add_once, contains_name, first_occurrence, lemma_names_push, lemma_names_remove,
    lemma_remove_first_at, names, position, remove_first, WorkerId,
};

verus! {

/// Deterministic fault controls for loopback transport and worker tests.
#[derive(Debug, PartialEq, Eq)]
pub enum LoopbackFault {
    DelayNext { destination: WorkerId, polls: u8 },
    TimeoutNext { destination: WorkerId },
    DropNextAck { destination: WorkerId },
    CorruptNextFrame { destination: WorkerId },
    Unavailable { worker: WorkerId, enabled: bool },
    FailNextSend { source: WorkerId },
}

/// What the transport does to the next frame sent to a destination.
pub struct DeliveryInstruction {
    pub delay_polls: u8,
    pub timeout: bool,
    pub drop: bool,
    pub corrupt: bool,
}

/// Pending one-shot faults and the workers marked unavailable.
pub struct FaultState {
    delayed: Vec<(WorkerId, u8)>,
    timeouts: Vec<WorkerId>,
    dropped_acks: Vec<WorkerId>,
    corruptions: Vec<WorkerId>,
    unavailable: Vec<WorkerId>,
    failed_sends: Vec<WorkerId>,
}

/// The pending faults, each worker given by its name.
pub struct FaultView {
    pub delayed: Seq<(Seq<char>, u8)>,
    pub timeouts: Seq<Seq<char>>,
    pub dropped_acks: Seq<Seq<char>>,
    pub corruptions: Seq<Seq<char>>,
    pub unavailable: Seq<Seq<char>>,
    pub failed_sends: Seq<Seq<char>>,
}

pub open spec fn pair_names(s: Seq<(WorkerId, u8)>) -> Seq<(Seq<char>, u8)> {
    s.map_values(|p: (WorkerId, u8)| (p.0@, p.1))
}

/// `i` is the first position whose worker is `k`.
pub open spec fn first_key(s: Seq<(Seq<char>, u8)>, k: Seq<char>, i: int) -> bool {
    &&& 0 <= i < s.len()
    &&& s[i].0 == k
    &&& forall|j: int| 0 <= j < i ==> s[j].0 != k
}

pub open spec fn has_key(s: Seq<(Seq<char>, u8)>, k: Seq<char>) -> bool {
    exists|i: int| 0 <= i < s.len() && s[i].0 == k
}

/// The delay recorded first for worker `k`, if any.
pub open spec fn first_value(s: Seq<(Seq<char>, u8)>, k: Seq<char>) -> Option<u8> {
    if has_key(s, k) {
        Some(s[choose|i: int| first_key(s, k, i)].1)
    } else {
        None
    }
}

/// `s` without the first entry for worker `k`.
pub open spec fn remove_first_key(s: Seq<(Seq<char>, u8)>, k: Seq<char>) -> Seq<(Seq<char>, u8)> {
    if has_key(s, k) {
        s.remove(choose|i: int| first_key(s, k, i))
    } else {
        s
    }
}

impl View for FaultState {
    type V = FaultView;

    closed spec fn view(&self) -> FaultView {
        FaultView {
            delayed: pair_names(self.delayed@),
            timeouts: names(self.timeouts@),
            dropped_acks: names(self.dropped_acks@),
            corruptions: names(self.corruptions@),
            unavailable: names(self.unavailable@),
            failed_sends: names(self.failed_sends@),
        }
    }
}

/// The pending faults after `fault` is injected, or `None` when it is refused.
pub open spec fn injected(v: FaultView, fault: LoopbackFault) -> Option<FaultView> {
    match fault {
        LoopbackFault::DelayNext { destination, polls } => if polls == 0 {
            None
        } else {
            Some(FaultView { delayed: v.delayed.push((destination@, polls)), ..v })
        },
        LoopbackFault::TimeoutNext { destination } => Some(
            FaultView { timeouts: v.timeouts.push(destination@), ..v },
        ),
        LoopbackFault::DropNextAck { destination } => Some(
            FaultView { dropped_acks: v.dropped_acks.push(destination@), ..v },
        ),
        LoopbackFault::CorruptNextFrame { destination } => Some(
            FaultView { corruptions: v.corruptions.push(destination@), ..v },
        ),
        LoopbackFault::Unavailable { worker, enabled } => Some(
            FaultView {
                unavailable: if enabled {
                    add_once(v.unavailable, worker@)
                } else {
                    remove_first(v.unavailable, worker@)
                },
                ..v
            },
        ),
        LoopbackFault::FailNextSend { source } => Some(
            FaultView { failed_sends: v.failed_sends.push(source@), ..v },
        ),
    }
}

/// The pending faults after a frame from `source` to `destination` consults them:
/// a pending send failure for the source is consumed alone; otherwise the first
/// delay, timeout and corruption for the destination are consumed, and a dropped
/// acknowledgement only when the frame is an acknowledgement.
pub open spec fn consulted(
    v: FaultView,
    source: Seq<char>,
    destination: Seq<char>,
    message_type: FrameMessageType,
) -> FaultView {
    if v.failed_sends.contains(source) {
        FaultView { failed_sends: remove_first(v.failed_sends, source), ..v }
    } else {
        FaultView {
            delayed: remove_first_key(v.delayed, destination),
            timeouts: remove_first(v.timeouts, destination),
            dropped_acks: if message_type == FrameMessageType::Ack {
                remove_first(v.dropped_acks, destination)
            } else {
                v.dropped_acks
            },
            corruptions: remove_first(v.corruptions, destination),
            ..v
        }
    }
}

pub proof fn lemma_remove_first_key_at(s: Seq<(Seq<char>, u8)>, k: Seq<char>, i: int)
    requires
        first_key(s, k, i),
    ensures
        has_key(s, k),
        remove_first_key(s, k) == s.remove(i),
        first_value(s, k) == Some(s[i].1),
{
    let c = choose|c: int| first_key(s, k, c);
    assert(first_key(s, k, c));
    if c < i {
        assert(s[c].0 != k);
    }
    if i < c {
        assert(s[i].0 != k);
    }
    assert(c == i);
}

/// Adds `value` unless it is already present.
fn add_worker_once(values: &mut Vec<WorkerId>, value: WorkerId)
    ensures
        names(final(values)@) == add_once(names(old(values)@), value@),
{
    if !contains_name(values, &value) {
        proof {
            lemma_names_push(values@, value);
        }
        values.push(value);
    }
}

/// Removes the first occurrence of `value`, if any.
fn remove_worker_once(values: &mut Vec<WorkerId>, value: &WorkerId)
    ensures
        names(final(values)@) == remove_first(names(old(values)@), value@),
{
    if let Some(index) = position(values, value) {
        proof {
            lemma_remove_first_at(names(values@), value@, index as int);
            lemma_names_remove(values@, index as int);
        }
        values.remove(index);
    }
}

/// Consumes the first occurrence of `value`; reports whether there was one.
fn take(values: &mut Vec<WorkerId>, value: &WorkerId) -> (r: bool)
    ensures
        r == names(old(values)@).contains(value@),
        names(final(values)@) == remove_first(names(old(values)@), value@),
{
    match position(values, value) {
        Some(index) => {
            proof {
                lemma_remove_first_at(names(values@), value@, index as int);
                lemma_names_remove(values@, index as int);
            }
            values.remove(index);
            true
        },
        None => false,
    }
}

/// Consumes the first entry for `worker`; returns its value.
fn take_pair(values: &mut Vec<(WorkerId, u8)>, worker: &WorkerId) -> (r: Option<u8>)
    ensures
        r == first_value(pair_names(old(values)@), worker@),
        pair_names(final(values)@) == remove_first_key(pair_names(old(values)@), worker@),
{
    let mut i: usize = 0;
    while i < values.len()
        invariant
            i <= values.len(),
            values@ == old(values)@,
            forall|j: int| 0 <= j < i ==> pair_names(values@)[j].0 != worker@,
        decreases values.len() - i,
    {
        if values[i].0 == *worker {
            proof {
                assert(pair_names(values@)[i as int].0 == worker@);
                lemma_remove_first_key_at(pair_names(values@), worker@, i as int);
                assert(pair_names(values@.remove(i as int)) =~= pair_names(values@).remove(i as int));
            }
            let removed = values.remove(i);
            return Some(removed.1);
        }
        i += 1;
    }
    assert forall|j: int| 0 <= j < pair_names(values@).len() implies pair_names(values@)[j].0
        != worker@ by {}
    assert(!has_key(pair_names(values@), worker@));
    None
}

impl FaultState {
    /// No fault injected.
    pub fn new() -> (r: Self)
        ensures
            r@.delayed.len() == 0,
            r@.timeouts.len() == 0,
            r@.dropped_acks.len() == 0,
            r@.corruptions.len() == 0,
            r@.unavailable.len() == 0,
            r@.failed_sends.len() == 0,
    {
        FaultState {
            delayed: Vec::new(),
            timeouts: Vec::new(),
            dropped_acks: Vec::new(),
            corruptions: Vec::new(),
            unavailable: Vec::new(),
            failed_sends: Vec::new(),
        }
    }

    /// Records a fault; a delay of zero polls is refused.
    pub fn inject(&mut self, fault: LoopbackFault) -> (r: Result<(), DomainError>)
        ensures
            match injected(old(self)@, fault) {
                Some(v) => r is Ok && final(self)@ == v,
                None => r == Err::<(), DomainError>(DomainError::FrameInvalid) && final(self)@
                    == old(self)@,
            },
    {
        match fault {
            LoopbackFault::DelayNext { destination, polls } => {
                if polls == 0 {
                    return Err(DomainError::FrameInvalid);
                }
                proof {
                    assert(pair_names(self.delayed@.push((destination, polls))) =~= pair_names(
                        self.delayed@,
                    ).push((destination@, polls)));
                }
                self.delayed.push((destination, polls));
            },
            LoopbackFault::TimeoutNext { destination } => {
                proof {
                    lemma_names_push(self.timeouts@, destination);
                }
                self.timeouts.push(destination);
            },
            LoopbackFault::DropNextAck { destination } => {
                proof {
                    lemma_names_push(self.dropped_acks@, destination);
                }
                self.dropped_acks.push(destination);
            },
            LoopbackFault::CorruptNextFrame { destination } => {
                proof {
                    lemma_names_push(self.corruptions@, destination);
                }
                self.corruptions.push(destination);
            },
            LoopbackFault::Unavailable { worker, enabled } => {
                if enabled {
                    add_worker_once(&mut self.unavailable, worker);
                } else {
                    remove_worker_once(&mut self.unavailable, &worker);
                }
            },
            LoopbackFault::FailNextSend { source } => {
                proof {
                    lemma_names_push(self.failed_sends@, source);
                }
                self.failed_sends.push(source);
            },
        }
        Ok(())
    }

    /// Whether `worker` is currently marked unavailable.
    pub fn is_unavailable(&self, worker: &WorkerId) -> (r: bool)
        ensures
            r == self@.unavailable.contains(worker@),
    {
        contains_name(&self.unavailable, worker)
    }

    /// Consults and consumes the faults that apply to one frame.
    pub fn delivery_for(
        &mut self,
        source: &WorkerId,
        destination: &WorkerId,
        message_type: FrameMessageType,
    ) -> (r: Result<DeliveryInstruction, DomainError>)
        ensures
            final(self)@ == consulted(old(self)@, source@, destination@, message_type),
            match r {
                Ok(i) => {
                    &&& !old(self)@.failed_sends.contains(source@)
                    &&& i.delay_polls == match first_value(old(self)@.delayed, destination@) {
                        Some(p) => p,
                        None => 0u8,
                    }
                    &&& i.timeout == old(self)@.timeouts.contains(destination@)
                    &&& i.drop == (message_type == FrameMessageType::Ack
                        && old(self)@.dropped_acks.contains(destination@))
                    &&& i.corrupt == old(self)@.corruptions.contains(destination@)
                },
                Err(e) => old(self)@.failed_sends.contains(source@) && e
                    == DomainError::WorkerUnavailable,
            },
            message_type != FrameMessageType::Ack ==> final(self)@.dropped_acks == old(
                self,
            )@.dropped_acks,
            final(self)@.unavailable == old(self)@.unavailable,
            r is Err ==> final(self)@.failed_sends == remove_first(old(self)@.failed_sends, source@)
                && final(self)@.delayed == old(self)@.delayed
                && final(self)@.timeouts == old(self)@.timeouts
                && final(self)@.dropped_acks == old(self)@.dropped_acks
                && final(self)@.corruptions == old(self)@.corruptions,
            r is Ok ==> final(self)@.failed_sends == old(self)@.failed_sends
                && final(self)@.delayed == remove_first_key(old(self)@.delayed, destination@)
                && final(self)@.timeouts == remove_first(old(self)@.timeouts, destination@)
                && final(self)@.corruptions == remove_first(old(self)@.corruptions, destination@)
                && (message_type == FrameMessageType::Ack ==> final(self)@.dropped_acks
                == remove_first(old(self)@.dropped_acks, destination@)),
    {
        if take(&mut self.failed_sends, source) {
            return Err(DomainError::WorkerUnavailable);
        }
        let delay_polls = match take_pair(&mut self.delayed, destination) {
            Some(p) => p,
            None => 0,
        };
        let timeout = take(&mut self.timeouts, destination);
        let drop = message_type == FrameMessageType::Ack && take(
            &mut self.dropped_acks,
            destination,
        );
        let corrupt = take(&mut self.corruptions, destination);
        Ok(DeliveryInstruction { delay_polls, timeout, drop, corrupt })
    }
}

} // verus!
