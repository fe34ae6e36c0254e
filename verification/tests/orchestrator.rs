use libp2p_perf::outcome::{FailureReason, OutcomeEvent, RunOutcome};
use libp2p_perf::orchestrator::Orchestrator;
use libp2p_perf::run::{Role, RunConfig, WriteDirective};

const SEC: u64 = 1_000_000_000;

/// Drive one whole benchmark between an initiator-side orchestrator and a
/// responder-side orchestrator over a faithful in-memory stream: every chunk
/// the initiator writes is delivered to the responder unchanged, and the
/// receipt travels back the same way. The clock advances `step` per chunk.
fn loopback_run(
    config: RunConfig,
    chunk: u64,
    step: u64,
    receipt_read_delay: u64,
) -> (OutcomeEvent, OutcomeEvent, u64) {
    let mut initiator = Orchestrator::new();
    let mut responder = Orchestrator::new();
    assert!(initiator.on_connection_established(1, 77));
    assert!(responder.on_connection_established(7, 33));
    assert!(initiator.on_substream_opened(1, Role::Initiator, config, 0));
    assert!(responder.on_substream_opened(7, Role::Responder, config, 0));

    let mut now: u64 = 0;
    let mut sent_total: u64 = 0;
    loop {
        match initiator.on_write_ready(1, now) {
            Some(WriteDirective::WriteChunk) => {
                assert!(initiator.on_bytes_sent(1, chunk));
                assert!(responder.on_payload_read(7, now, chunk));
                sent_total += chunk;
                now += step;
            }
            Some(WriteDirective::CloseWrite) => break,
            _ => panic!("the initiator run should be streaming"),
        }
    }
    assert!(initiator.on_write_closed(1));
    // The half-close reaches the responder: it echoes the receipt.
    let receipt = responder
        .on_payload_eof(7)
        .expect("the responder run should be streaming");
    let responder_event = responder
        .on_receipt_written(7, now, receipt.len())
        .expect("a full receipt completes the responder run");
    let initiator_event = initiator
        .on_receipt_data(1, now + receipt_read_delay, &receipt)
        .expect("a full receipt completes the initiator run");
    (initiator_event, responder_event, sent_total)
}

#[test]
fn ten_second_run_reports_duration_and_count() {
    // A 10-second target on a loopback connection, one 1000-byte chunk per
    // simulated second, the receipt read half a second after the stop.
    let (initiator_event, responder_event, sent_total) = loopback_run(
        RunConfig::for_duration(10 * SEC),
        1000,
        SEC,
        SEC / 2,
    );
    assert_eq!(initiator_event.connection_id, 1);
    match initiator_event.outcome {
        RunOutcome::Completed {
            duration_ns,
            bytes_transferred,
        } => {
            assert!(duration_ns >= 10 * SEC, "never below the target duration");
            assert!(duration_ns <= 11 * SEC, "roughly the target duration");
            assert_eq!(bytes_transferred, sent_total);
        }
        RunOutcome::Failed { .. } => panic!("the run should complete"),
    }
    // The responder's own outcome vouches for the same count.
    match responder_event.outcome {
        RunOutcome::Completed {
            bytes_transferred, ..
        } => assert_eq!(bytes_transferred, sent_total),
        RunOutcome::Failed { .. } => panic!("the run should complete"),
    }
}

#[test]
fn zero_byte_run_reports_zero() {
    // A byte target of zero: the initiator half-closes without writing.
    let (initiator_event, responder_event, sent_total) =
        loopback_run(RunConfig::for_bytes(0), 1000, SEC, 1);
    assert_eq!(sent_total, 0);
    match initiator_event.outcome {
        RunOutcome::Completed {
            bytes_transferred, ..
        } => assert_eq!(bytes_transferred, 0),
        RunOutcome::Failed { .. } => panic!("the run should complete"),
    }
    match responder_event.outcome {
        RunOutcome::Completed {
            duration_ns,
            bytes_transferred,
        } => {
            assert_eq!(bytes_transferred, 0);
            assert_eq!(duration_ns, 0);
        }
        RunOutcome::Failed { .. } => panic!("the run should complete"),
    }
}

#[test]
fn back_to_back_runs_are_isolated() {
    // Two fresh connections on one orchestrator, interleaved: each run keeps
    // its own counters and timers.
    let mut orch = Orchestrator::new();
    assert!(orch.on_connection_established(10, 1));
    assert!(orch.on_connection_established(20, 2));
    assert!(orch.on_substream_opened(10, Role::Initiator, RunConfig::for_bytes(100), 0));
    assert!(orch.on_substream_opened(20, Role::Initiator, RunConfig::for_bytes(5000), 0));

    assert!(orch.on_bytes_sent(10, 100));
    assert_eq!(orch.initiator_bytes_sent(10), Some(100));
    assert_eq!(orch.initiator_bytes_sent(20), Some(0));

    assert!(orch.on_bytes_sent(20, 999));
    assert_eq!(orch.initiator_bytes_sent(10), Some(100));
    assert_eq!(orch.initiator_bytes_sent(20), Some(999));

    // The first run stops (its byte target is met); the second keeps going.
    assert_eq!(orch.on_write_ready(10, 1), Some(WriteDirective::CloseWrite));
    assert_eq!(orch.on_write_ready(20, 1), Some(WriteDirective::WriteChunk));
}

#[test]
fn severed_connection_fails_the_run_and_never_completes() {
    let mut orch = Orchestrator::new();
    assert!(orch.on_connection_established(5, 9));
    assert!(orch.on_substream_opened(5, Role::Initiator, RunConfig::for_duration(10 * SEC), 0));
    assert!(orch.on_bytes_sent(5, 123456));
    // The connection dies after streaming began, before any receipt.
    let (initiator_event, responder_event) = orch.on_connection_closed(5);
    assert_eq!(
        initiator_event,
        Some(OutcomeEvent {
            connection_id: 5,
            outcome: RunOutcome::Failed {
                reason: FailureReason::ConnectionLost,
            },
        })
    );
    assert_eq!(responder_event, None);
    // The record is gone: later stream events find nothing to act on.
    assert!(!orch.tracks(5));
    assert_eq!(orch.on_write_ready(5, SEC), None);
    assert_eq!(orch.on_receipt_data(5, SEC, &[0; 8]), None);
}

#[test]
fn closing_without_a_run_produces_no_event() {
    let mut orch = Orchestrator::new();
    // Closing a connection that was never established: no event.
    assert_eq!(orch.on_connection_closed(99), (None, None));
    // A connection with no active run: no event either.
    assert!(orch.on_connection_established(99, 4));
    assert_eq!(orch.on_connection_closed(99), (None, None));
    // Closing it a second time is a no-op too.
    assert_eq!(orch.on_connection_closed(99), (None, None));
}

#[test]
fn a_finished_run_yields_no_second_outcome_on_close() {
    let mut orch = Orchestrator::new();
    assert!(orch.on_connection_established(3, 8));
    assert!(orch.on_substream_opened(3, Role::Initiator, RunConfig::for_bytes(4), 0));
    assert!(orch.on_bytes_sent(3, 4));
    assert_eq!(orch.on_write_ready(3, 1), Some(WriteDirective::CloseWrite));
    assert!(orch.on_write_closed(3));
    let event = orch.on_receipt_data(3, 2, &[0, 0, 0, 0, 0, 0, 0, 4]);
    assert!(event.is_some());
    // The run already reported its one outcome; teardown adds nothing.
    assert_eq!(orch.on_connection_closed(3), (None, None));
}

#[test]
fn stream_errors_abort_once() {
    let mut orch = Orchestrator::new();
    assert!(orch.on_connection_established(2, 6));
    assert!(orch.on_substream_opened(2, Role::Responder, RunConfig::for_duration(SEC), 0));
    assert!(orch.on_payload_read(2, 1, 10));
    let event = orch.on_stream_error(2, Role::Responder);
    assert_eq!(
        event,
        Some(OutcomeEvent {
            connection_id: 2,
            outcome: RunOutcome::Failed {
                reason: FailureReason::IoError,
            },
        })
    );
    // The same stream failing again yields nothing new.
    assert_eq!(orch.on_stream_error(2, Role::Responder), None);
    // And there never was an initiator run on this connection.
    assert_eq!(orch.on_stream_error(2, Role::Initiator), None);
}

#[test]
fn one_run_per_role_per_connection() {
    let mut orch = Orchestrator::new();
    assert!(orch.on_connection_established(4, 5));
    assert!(orch.on_substream_opened(4, Role::Initiator, RunConfig::for_duration(SEC), 0));
    // A second initiator substream on the same connection is refused...
    assert!(!orch.on_substream_opened(4, Role::Initiator, RunConfig::for_duration(SEC), 0));
    // ...but a responder run may share the connection.
    assert!(orch.on_substream_opened(4, Role::Responder, RunConfig::for_duration(SEC), 0));
    // Unknown connections host nothing.
    assert!(!orch.on_substream_opened(8, Role::Initiator, RunConfig::for_duration(SEC), 0));
}

#[test]
fn establishing_twice_keeps_the_first_record() {
    let mut orch = Orchestrator::new();
    assert!(orch.on_connection_established(11, 1));
    assert!(orch.on_substream_opened(11, Role::Initiator, RunConfig::for_bytes(9), 0));
    assert!(orch.on_bytes_sent(11, 7));
    // A duplicate notification must not reset the record or its run.
    assert!(!orch.on_connection_established(11, 1));
    assert_eq!(orch.initiator_bytes_sent(11), Some(7));
}
