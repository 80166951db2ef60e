use std::collections::VecDeque;

use vstd::prelude::*;

use crate::error::DomainError;
use crate::ids::{
    lemma_first_position_exists,
    add_once, contains_name, copy_id, first_occurrence, first_position, lemma_first_position,
    lemma_names_push, names, position, WorkerId,
};

verus! {

/// Bytes delivered to a worker together with the worker that sent them.
pub struct ReceivedFrame {
    pub source: WorkerId,
    pub bytes: Vec<u8>,
}

/// Deterministic bounded queues for transport-port tests: bytes are queued as
/// given, without decoding.
pub struct InMemoryTransport {
    limit: u16,
    workers: Vec<WorkerId>,
    queues: Vec<VecDeque<ReceivedFrame>>,
    unavailable: Vec<WorkerId>,
}

#[verifier::ext_equal]
pub struct MemoryTransportView {
    pub limit: u16,
    pub workers: Seq<Seq<char>>,
    pub queues: Seq<Seq<(Seq<char>, Seq<u8>)>>,
    pub unavailable: Seq<Seq<char>>,
}

pub open spec fn frames_view(q: VecDeque<ReceivedFrame>) -> Seq<(Seq<char>, Seq<u8>)> {
    q@.map_values(|f: ReceivedFrame| (f.source@, f.bytes@))
}

impl View for InMemoryTransport {
    type V = MemoryTransportView;

    closed spec fn view(&self) -> MemoryTransportView {
        MemoryTransportView {
            limit: self.limit,
            workers: names(self.workers@),
            queues: self.queues@.map_values(|q: VecDeque<ReceivedFrame>| frames_view(q)),
            unavailable: names(self.unavailable@),
        }
    }
}

/// The queue of worker `w`: the first one registered under its name.
pub open spec fn memory_queue(v: MemoryTransportView, w: Seq<char>) -> Seq<(Seq<char>, Seq<u8>)> {
    v.queues[first_position(v.workers, w)]
}

pub open spec fn memory_available(v: MemoryTransportView, w: Seq<char>) -> bool {
    v.workers.contains(w) && !v.unavailable.contains(w)
}

pub open spec fn memory_wf(v: MemoryTransportView) -> bool {
    &&& v.workers.len() == v.queues.len()
    &&& forall|i: int| 0 <= i < v.queues.len() ==> #[trigger] v.queues[i].len() <= v.limit
}

/// Sending: the destination must be available and its queue below the limit;
/// the bytes join the back of its queue with their source.
pub open spec fn memory_sent(
    v: MemoryTransportView,
    source: Seq<char>,
    destination: Seq<char>,
    bytes: Seq<u8>,
) -> (MemoryTransportView, Result<(), DomainError>) {
    if !memory_available(v, destination) {
        (v, Err(DomainError::WorkerUnavailable))
    } else if memory_queue(v, destination).len() >= v.limit {
        (v, Err(DomainError::FrameBoundsExceeded))
    } else {
        (
            MemoryTransportView {
                queues: v.queues.update(
                    first_position(v.workers, destination),
                    memory_queue(v, destination).push((source, bytes)),
                ),
                ..v
            },
            Ok(()),
        )
    }
}

/// Receiving: an unknown recipient is refused; otherwise the oldest queued
/// frame, if any, is removed and returned.
pub open spec fn memory_received(v: MemoryTransportView, recipient: Seq<char>) -> (
    MemoryTransportView,
    Result<Option<(Seq<char>, Seq<u8>)>, DomainError>,
) {
    if !v.workers.contains(recipient) {
        (v, Err(DomainError::WorkerUnavailable))
    } else if memory_queue(v, recipient).len() == 0 {
        (v, Ok(None))
    } else {
        (
            MemoryTransportView {
                queues: v.queues.update(
                    first_position(v.workers, recipient),
                    memory_queue(v, recipient).drop_first(),
                ),
                ..v
            },
            Ok(Some(memory_queue(v, recipient)[0])),
        )
    }
}

impl InMemoryTransport {
    /// The transport's state is well formed and its storage agrees with it.
    pub open spec fn wf(&self) -> bool {
        &&& memory_wf(self@)
        &&& self.storage_consistent()
    }

    /// Each stored worker has its stored queue.
    pub closed spec fn storage_consistent(&self) -> bool {
        self.workers.len() == self.queues.len()
    }

    /// Empty queues for the given workers, none marked unavailable.
    pub fn new(limit: u16, workers: Vec<WorkerId>) -> (r: Self)
        ensures
            r.wf(),
            r@.limit == limit,
            r@.workers == names(workers@),
            r@.unavailable.len() == 0,
            forall|i: int| 0 <= i < r@.queues.len() ==> #[trigger] r@.queues[i].len() == 0,
    {
        let mut queues: Vec<VecDeque<ReceivedFrame>> = Vec::new();
        let mut i: usize = 0;
        while i < workers.len()
            invariant
                i <= workers.len(),
                queues.len() == i,
                forall|j: int| 0 <= j < i ==> (#[trigger] queues@[j])@.len() == 0,
            decreases workers.len() - i,
        {
            queues.push(VecDeque::new());
            i += 1;
        }
        let t = InMemoryTransport { limit, workers, queues, unavailable: Vec::new() };
        assert forall|j: int| 0 <= j < t@.queues.len() implies #[trigger] t@.queues[j].len() == 0 by {
            assert(t@.queues[j] == frames_view(t.queues@[j]));
        }
        t
    }

    /// The most frames a queue holds.
    pub fn queue_limit(&self) -> (r: u16)
        ensures
            r == self@.limit,
    {
        self.limit
    }

    /// Whether `worker` is known and has not been shut down.
    pub fn is_available(&self, worker: &WorkerId) -> (r: bool)
        ensures
            r == memory_available(self@, worker@),
    {
        contains_name(&self.workers, worker) && !contains_name(&self.unavailable, worker)
    }

    /// Queues `bytes` for `destination`.
    pub fn send(&mut self, source: &WorkerId, destination: &WorkerId, bytes: Vec<u8>) -> (r: Result<
        (),
        DomainError,
    >)
        requires
            old(self).wf(),
        ensures
            final(self).wf(),
            final(self)@ == memory_sent(old(self)@, source@, destination@, bytes@).0,
            r == memory_sent(old(self)@, source@, destination@, bytes@).1,
            r is Ok <==> memory_available(old(self)@, destination@) && memory_queue(
                old(self)@,
                destination@,
            ).len() < old(self)@.limit,
            r is Err ==> final(self)@ == old(self)@,
            r is Ok ==> memory_queue(final(self)@, destination@) == memory_queue(
                old(self)@,
                destination@,
            ).push((source@, bytes@)),
    {
        if !self.is_available(destination) {
            return Err(DomainError::WorkerUnavailable);
        }
        let index = match position(&self.workers, destination) {
            Some(i) => i,
            None => return Err(DomainError::WorkerUnavailable),
        };
        let ghost v0 = self@;
        proof {
            lemma_first_position(v0.workers, destination@, index as int);
            assert(v0.queues[index as int] == frames_view(self.queues@[index as int]));
        }
        if self.queues[index].len() >= self.limit as usize {
            return Err(DomainError::FrameBoundsExceeded);
        }
        let frame = ReceivedFrame { source: copy_id(source), bytes };
        let ghost qs0 = self.queues@;
        self.queues[index].push_back(frame);
        proof {
            assert(frames_view(self.queues@[index as int]) =~= v0.queues[index as int].push(
                (source@, bytes@),
            ));
            assert forall|i: int| 0 <= i < qs0.len() && i != index implies self@.queues[i]
                == v0.queues[i] by {
                assert(self.queues@[i] == qs0[i]);
            }
            assert(self@.queues =~= v0.queues.update(index as int, v0.queues[index as int].push((source@, bytes@))));
            assert(self@ =~= memory_sent(v0, source@, destination@, bytes@).0);
        }
        Ok(())
    }

    /// Takes the oldest frame queued for `recipient`.
    pub fn receive(&mut self, recipient: &WorkerId) -> (r: Result<Option<ReceivedFrame>, DomainError>)
        requires
            old(self).wf(),
        ensures
            final(self).wf(),
            final(self)@ == memory_received(old(self)@, recipient@).0,
            (match r {
                Ok(Some(f)) => Ok(Some((f.source@, f.bytes@))),
                Ok(None) => Ok(None),
                Err(e) => Err(e),
            }) == memory_received(old(self)@, recipient@).1,
            r matches Ok(Some(f)) ==> memory_queue(old(self)@, recipient@).len() > 0 && (
            f.source@,
            f.bytes@,
            ) == memory_queue(old(self)@, recipient@)[0] && memory_queue(final(self)@, recipient@)
                == memory_queue(old(self)@, recipient@).drop_first(),
            r matches Ok(None) ==> memory_queue(old(self)@, recipient@).len() == 0
                && final(self)@ == old(self)@,
    {
        let index = match position(&self.workers, recipient) {
            Some(i) => i,
            None => return Err(DomainError::WorkerUnavailable),
        };
        let ghost v0 = self@;
        proof {
            lemma_first_position(v0.workers, recipient@, index as int);
            assert(v0.queues[index as int] == frames_view(self.queues@[index as int]));
        }
        if self.queues[index].len() == 0 {
            return Ok(None);
        }
        let ghost qs0 = self.queues@;
        let front = self.queues[index].pop_front();
        proof {
            assert(frames_view(self.queues@[index as int]) =~= v0.queues[index as int].drop_first());
            assert forall|i: int| 0 <= i < qs0.len() && i != index implies self@.queues[i]
                == v0.queues[i] by {
                assert(self.queues@[i] == qs0[i]);
            }
            assert(self@.queues =~= v0.queues.update(index as int, v0.queues[index as int].drop_first()));
            assert(self@ =~= memory_received(v0, recipient@).0);
            assert(frames_view(qs0[index as int])[0] == (qs0[index as int]@[0].source@, qs0[index as int]@[0].bytes@));
        }
        Ok(front)
    }

    fn available(&self, worker: &WorkerId) -> (r: Result<(), DomainError>)
        ensures
            r is Ok <==> memory_available(self@, worker@),
            r matches Err(e) ==> e == DomainError::WorkerUnavailable,
    {
        if self.is_available(worker) {
            Ok(())
        } else {
            Err(DomainError::WorkerUnavailable)
        }
    }

    /// Succeeds exactly when `destination` is available; nothing is queued.
    pub fn acknowledge(&self, source: &WorkerId, destination: &WorkerId) -> (r: Result<(), DomainError>)
        ensures
            r is Ok <==> memory_available(self@, destination@),
            r matches Err(e) ==> e == DomainError::WorkerUnavailable,
    {
        self.available(destination)
    }

    /// Succeeds exactly when `destination` is available; nothing is queued.
    pub fn reject(&self, source: &WorkerId, destination: &WorkerId) -> (r: Result<(), DomainError>)
        ensures
            r is Ok <==> memory_available(self@, destination@),
            r matches Err(e) ==> e == DomainError::WorkerUnavailable,
    {
        self.available(destination)
    }

    /// Succeeds exactly when `destination` is available; nothing is queued.
    pub fn cancel(&self, source: &WorkerId, destination: &WorkerId) -> (r: Result<(), DomainError>)
        ensures
            r is Ok <==> memory_available(self@, destination@),
            r matches Err(e) ==> e == DomainError::WorkerUnavailable,
    {
        self.available(destination)
    }

    /// Marks `worker` unavailable; its queued frames stay.
    pub fn shutdown(&mut self, worker: &WorkerId) -> (r: Result<(), DomainError>)
        requires
            old(self).wf(),
        ensures
            final(self).wf(),
            r == Ok::<(), DomainError>(()),
            final(self)@ == (MemoryTransportView {
                unavailable: add_once(old(self)@.unavailable, worker@),
                ..old(self)@
            }),
    {
        if !contains_name(&self.unavailable, worker) {
            proof {
                lemma_names_push(self.unavailable@, *worker);
            }
            self.unavailable.push(copy_id(worker));
        }
        proof {
            assert(self@ =~= MemoryTransportView {
                unavailable: add_once(old(self)@.unavailable, worker@),
                ..old(self)@
            });
        }
        Ok(())
    }
}

/// Frames queued for an available worker come out in the order they were
/// sent, each with its source.
pub proof fn law_memory_frames_arrive_in_order(
    v: MemoryTransportView,
    source: Seq<char>,
    destination: Seq<char>,
    first: Seq<u8>,
    second: Seq<u8>,
)
    requires
        memory_wf(v),
        memory_available(v, destination),
        memory_queue(v, destination).len() == 0,
        v.limit >= 2,
    ensures
        ({
            let v1 = memory_sent(v, source, destination, first);
            let v2 = memory_sent(v1.0, source, destination, second);
            let r1 = memory_received(v2.0, destination);
            let r2 = memory_received(r1.0, destination);
            &&& v1.1 == Ok::<(), DomainError>(())
            &&& v2.1 == Ok::<(), DomainError>(())
            &&& r1.1 == Ok::<Option<(Seq<char>, Seq<u8>)>, DomainError>(Some((source, first)))
            &&& r2.1 == Ok::<Option<(Seq<char>, Seq<u8>)>, DomainError>(Some((source, second)))
            &&& memory_queue(r2.0, destination).len() == 0
        }),
{
    lemma_first_position_exists(v.workers, destination);
    let v1 = memory_sent(v, source, destination, first).0;
    assert(memory_queue(v1, destination) =~= seq![(source, first)]);
    let v2 = memory_sent(v1, source, destination, second).0;
    assert(memory_queue(v2, destination) =~= seq![(source, first), (source, second)]);
    let r1 = memory_received(v2, destination).0;
    assert(memory_queue(r1, destination) =~= seq![(source, second)]);
    let r2 = memory_received(r1, destination).0;
    assert(memory_queue(r2, destination) =~= Seq::<(Seq<char>, Seq<u8>)>::empty());
}

/// A worker whose queue is full refuses more frames and nothing changes.
pub proof fn law_memory_full_queue_applies_backpressure(
    v: MemoryTransportView,
    source: Seq<char>,
    destination: Seq<char>,
    bytes: Seq<u8>,
)
    requires
        memory_available(v, destination),
        memory_queue(v, destination).len() >= v.limit,
    ensures
        memory_sent(v, source, destination, bytes) == (v, Err::<(), DomainError>(
            DomainError::FrameBoundsExceeded,
        )),
{
}

/// A worker that was shut down refuses every frame sent to it.
pub proof fn law_memory_shutdown_refuses_frames(
    v: MemoryTransportView,
    worker: Seq<char>,
    source: Seq<char>,
    bytes: Seq<u8>,
)
    ensures
        ({
            let down = MemoryTransportView { unavailable: add_once(v.unavailable, worker), ..v };
            &&& !memory_available(down, worker)
            &&& memory_sent(down, source, worker, bytes) == (down, Err::<(), DomainError>(
                DomainError::WorkerUnavailable,
            ))
        }),
{
    let down = MemoryTransportView { unavailable: add_once(v.unavailable, worker), ..v };
    if !v.unavailable.contains(worker) {
        assert(down.unavailable.last() == worker);
    }
}

} // verus!
