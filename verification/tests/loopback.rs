use synapseflow_adapters::error::DomainError;
use synapseflow_adapters::faults::LoopbackFault;
use synapseflow_adapters::frame::{
    ErrorCode, FrameEnvelope, FrameMessageType, FrameTarget, TensorDescriptor, TensorDtype,
};
use synapseflow_adapters::ids::WorkerId;
use synapseflow_adapters::loopback::LoopbackEvent;
use synapseflow_adapters::network::LoopbackNetwork;

fn workers() -> (WorkerId, WorkerId, LoopbackNetwork) {
    let first: WorkerId = "loopback-a".to_owned();
    let second: WorkerId = "loopback-b".to_owned();
    let network = LoopbackNetwork::new(4, vec![first.clone(), second.clone()])
        .expect("network should construct");
    (first, second, network)
}

fn data_frame(sequence: u64) -> FrameEnvelope {
    FrameEnvelope {
        message_type: FrameMessageType::Data,
        session_id: "session-00000001".to_owned(),
        stream_id: 1,
        sequence,
        target: FrameTarget {
            model: format!("registry://fixtures/tinyllama@sha256:{}", "a".repeat(64)),
            shard: "first".to_owned(),
        },
        tensor: Some(TensorDescriptor {
            dtype: TensorDtype::F32,
            dimensions: vec![1],
        }),
        remaining_deadline_ms: 500,
    }
}

#[test]
fn two_workers_exchange_codec_validated_data_ack_and_nack_frames() {
    let (first_id, second_id, mut network) = workers();
    let first = network.worker(&first_id).expect("first worker exists");
    let second = network.worker(&second_id).expect("second worker exists");
    let frame = data_frame(0);
    let next = data_frame(1);

    first
        .send(network.transport_mut(), &second_id, &frame, &[0, 0, 0, 0], None)
        .expect("data frame should send");
    first
        .send(network.transport_mut(), &second_id, &next, &[0, 0, 0, 0], None)
        .expect("next data frame should send");
    let received = second
        .receive(network.transport_mut())
        .expect("receive should succeed")
        .expect("data frame should arrive");
    assert_eq!(received.source, first_id);
    assert_eq!(received.frame.envelope.message_type, FrameMessageType::Data);
    assert_eq!(received.frame.envelope.sequence, 0);
    assert_eq!(
        second
            .receive(network.transport_mut())
            .expect("ordered receive should succeed")
            .expect("next data should arrive")
            .frame
            .envelope
            .sequence,
        1
    );

    second
        .acknowledge(network.transport_mut(), &first_id, &received.frame.envelope)
        .expect("ack should encode and send");
    assert_eq!(
        first
            .receive(network.transport_mut())
            .expect("ack receive should succeed")
            .expect("ack should arrive")
            .frame
            .envelope
            .message_type,
        FrameMessageType::Ack
    );

    second
        .reject(
            network.transport_mut(),
            &first_id,
            &received.frame.envelope,
            ErrorCode::FrameIntegrity,
        )
        .expect("nack should encode and send");
    let nack = first
        .receive(network.transport_mut())
        .expect("nack receive should succeed")
        .expect("nack should arrive");
    assert_eq!(nack.frame.envelope.message_type, FrameMessageType::Nack);
    assert_eq!(nack.frame.extensions.len(), 1);
    assert_eq!(nack.frame.extensions[0].tag, 1);
    assert_eq!(nack.frame.extensions[0].value, b"SYN-FRAME-004".to_vec());
    assert!(matches!(
        network.transport().events().as_slice(),
        [LoopbackEvent::NackSent {
            reason: ErrorCode::FrameIntegrity,
            ..
        }]
    ));
}

#[test]
fn deterministically_injects_delay_timeout_dropped_ack_corruption_and_worker_failures() {
    let (first_id, second_id, mut network) = workers();
    let first = network.worker(&first_id).expect("first worker exists");
    let second = network.worker(&second_id).expect("second worker exists");
    let frame = data_frame(0);

    network
        .inject(LoopbackFault::DelayNext {
            destination: second_id.clone(),
            polls: 1,
        })
        .expect("delay fault should configure");
    first
        .send(network.transport_mut(), &second_id, &frame, &[0, 0, 0, 0], None)
        .expect("delayed data should send");
    assert!(second
        .receive(network.transport_mut())
        .expect("delayed receive should succeed")
        .is_none());
    let delayed = second
        .receive(network.transport_mut())
        .expect("data should arrive after delay")
        .expect("delayed data should arrive");
    network
        .inject(LoopbackFault::DropNextAck {
            destination: first_id.clone(),
        })
        .expect("dropped ack fault should configure");
    second
        .acknowledge(network.transport_mut(), &first_id, &delayed.frame.envelope)
        .expect("ack should be accepted for deterministic dropping");
    assert!(first
        .receive(network.transport_mut())
        .expect("dropped ack poll should succeed")
        .is_none());

    network
        .inject(LoopbackFault::TimeoutNext {
            destination: second_id.clone(),
        })
        .expect("timeout fault should configure");
    first
        .send(network.transport_mut(), &second_id, &frame, &[0, 0, 0, 0], None)
        .expect("timed out data should send");
    assert!(matches!(
        second.receive(network.transport_mut()),
        Err(DomainError::DeadlineExceeded)
    ));

    network
        .inject(LoopbackFault::CorruptNextFrame {
            destination: second_id.clone(),
        })
        .expect("corruption fault should configure");
    first
        .send(network.transport_mut(), &second_id, &frame, &[0, 0, 0, 0], None)
        .expect("corrupted data should enqueue");
    assert!(matches!(
        second.receive(network.transport_mut()),
        Err(DomainError::FrameIntegrity)
    ));

    network
        .inject(LoopbackFault::Unavailable {
            worker: second_id.clone(),
            enabled: true,
        })
        .expect("availability fault should configure");
    assert!(matches!(
        first.send(network.transport_mut(), &second_id, &frame, &[0, 0, 0, 0], None),
        Err(DomainError::WorkerUnavailable)
    ));
    network
        .inject(LoopbackFault::Unavailable {
            worker: second_id.clone(),
            enabled: false,
        })
        .expect("availability fault should clear");
    network
        .inject(LoopbackFault::FailNextSend {
            source: first_id.clone(),
        })
        .expect("worker failure should configure");
    assert!(matches!(
        first.send(network.transport_mut(), &second_id, &frame, &[0, 0, 0, 0], None),
        Err(DomainError::WorkerUnavailable)
    ));
}

#[test]
fn cancellation_removes_queued_session_work_and_delivers_a_codec_cancel_frame() {
    let (first_id, second_id, mut network) = workers();
    let first = network.worker(&first_id).expect("first worker exists");
    let second = network.worker(&second_id).expect("second worker exists");
    let initial = data_frame(0);
    let next = data_frame(1);

    first
        .send(network.transport_mut(), &second_id, &initial, &[0, 0, 0, 0], None)
        .expect("initial data should send");
    first
        .send(network.transport_mut(), &second_id, &next, &[0, 0, 0, 0], None)
        .expect("next data should send");
    first
        .cancel(network.transport_mut(), &second_id, &initial)
        .expect("cancel should purge and send control frame");
    assert_eq!(
        second
            .receive(network.transport_mut())
            .expect("cancel receive should succeed")
            .expect("cancel should arrive")
            .frame
            .envelope
            .message_type,
        FrameMessageType::Cancel
    );
    assert!(second
        .receive(network.transport_mut())
        .expect("queue should be empty")
        .is_none());
    second
        .shutdown(network.transport_mut())
        .expect("worker shutdown should succeed");
    assert!(matches!(
        first.send(network.transport_mut(), &second_id, &initial, &[0, 0, 0, 0], None),
        Err(DomainError::WorkerUnavailable)
    ));
}

#[test]
fn bounded_queues_apply_backpressure_before_enqueuing_more_work() {
    let first_id: WorkerId = "loopback-a".to_owned();
    let second_id: WorkerId = "loopback-b".to_owned();
    let mut network = LoopbackNetwork::new(1, vec![first_id.clone(), second_id.clone()])
        .expect("network should construct");
    let first = network.worker(&first_id).expect("first worker exists");
    let frame = data_frame(0);

    first
        .send(network.transport_mut(), &second_id, &frame, &[0, 0, 0, 0], None)
        .expect("first frame should fit");
    assert!(matches!(
        first.send(network.transport_mut(), &second_id, &frame, &[0, 0, 0, 0], None),
        Err(DomainError::FrameBoundsExceeded)
    ));
}

#[test]
fn unknown_single_and_duplicate_workers_are_refused() {
    assert!(matches!(
        LoopbackNetwork::new(4, vec!["loopback-a".to_owned()]),
        Err(DomainError::WorkerUnavailable)
    ));
    assert!(matches!(
        LoopbackNetwork::new(4, vec!["loopback-a".to_owned(), "loopback-a".to_owned()]),
        Err(DomainError::WorkerUnavailable)
    ));
    let (_, _, network) = workers();
    assert!(network.worker(&"loopback-z".to_owned()).is_err());
}

#[test]
fn a_worker_on_its_own_receives_nothing() {
    let (first_id, _, mut network) = workers();
    let first = network.worker(&first_id).expect("first worker exists");
    assert!(first
        .receive(network.transport_mut())
        .expect("poll should succeed")
        .is_none());
}
