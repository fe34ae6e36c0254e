use libp2p_perf::outcome::{FailureReason, RunOutcome};
use libp2p_perf::run::{Role, Run, RunConfig, RunState, WriteDirective};

const SEC: u64 = 1_000_000_000;

fn streaming_initiator(config: RunConfig, now: u64) -> Run {
    let mut run = Run::new(Role::Initiator, config);
    run.start(now);
    run
}

fn streaming_responder() -> Run {
    let mut run = Run::new(Role::Responder, RunConfig::for_duration(10 * SEC));
    run.start(0);
    run
}

#[test]
fn initiator_streams_until_duration_target() {
    let mut run = streaming_initiator(RunConfig::for_duration(10 * SEC), 5 * SEC);
    // Well before the target: keep writing.
    assert_eq!(run.poll_write(5 * SEC + 1), WriteDirective::WriteChunk);
    run.on_bytes_sent(4096);
    assert_eq!(run.poll_write(14 * SEC), WriteDirective::WriteChunk);
    run.on_bytes_sent(4096);
    // Exactly the target: stop.
    assert_eq!(run.poll_write(15 * SEC), WriteDirective::CloseWrite);
    assert_eq!(run.state, RunState::ClosingWrite);
    run.on_write_closed();
    assert_eq!(run.state, RunState::AwaitingReceipt);
}

#[test]
fn initiator_streams_until_byte_target() {
    let mut run = streaming_initiator(RunConfig::for_bytes(10_000), 0);
    assert_eq!(run.poll_write(1), WriteDirective::WriteChunk);
    run.on_bytes_sent(9_999);
    assert_eq!(run.poll_write(2), WriteDirective::WriteChunk);
    run.on_bytes_sent(1);
    assert_eq!(run.poll_write(3), WriteDirective::CloseWrite);
}

#[test]
fn initiator_completes_on_full_receipt() {
    let mut run = streaming_initiator(RunConfig::for_duration(10 * SEC), 0);
    run.on_bytes_sent(8192);
    assert_eq!(run.poll_write(10 * SEC), WriteDirective::CloseWrite);
    run.on_write_closed();
    // The receipt arrives in two fragments.
    assert_eq!(run.on_receipt_data(10 * SEC + 1, &[0, 0, 0]), None);
    let outcome = run.on_receipt_data(10 * SEC + 2, &[0, 0, 0, 0x20, 0x00]);
    assert_eq!(
        outcome,
        Some(RunOutcome::Completed {
            duration_ns: 10 * SEC + 2,
            bytes_transferred: 8192,
        })
    );
    assert_eq!(run.state, RunState::Done);
}

#[test]
fn initiator_rejects_data_past_the_receipt() {
    let mut run = streaming_initiator(RunConfig::for_duration(SEC), 0);
    assert_eq!(run.poll_write(SEC), WriteDirective::CloseWrite);
    run.on_write_closed();
    let outcome = run.on_receipt_data(SEC + 1, &[0, 0, 0, 0, 0, 0, 0, 0, 9]);
    assert_eq!(
        outcome,
        Some(RunOutcome::Failed {
            reason: FailureReason::ProtocolViolation,
        })
    );
    assert_eq!(run.state, RunState::Aborted);
}

#[test]
fn initiator_fails_on_truncated_receipt() {
    let mut run = streaming_initiator(RunConfig::for_duration(SEC), 0);
    assert_eq!(run.poll_write(SEC), WriteDirective::CloseWrite);
    run.on_write_closed();
    assert_eq!(run.on_receipt_data(SEC + 1, &[1, 2, 3]), None);
    // The peer closes its side with only 3 of 8 bytes sent.
    let outcome = run.on_receipt_eof();
    assert_eq!(
        outcome,
        RunOutcome::Failed {
            reason: FailureReason::ProtocolViolation,
        }
    );
    assert_eq!(run.state, RunState::Aborted);
}

#[test]
fn abort_is_idempotent() {
    let mut run = streaming_initiator(RunConfig::for_duration(SEC), 0);
    let first = run.abort(FailureReason::ConnectionLost);
    assert_eq!(
        first,
        Some(RunOutcome::Failed {
            reason: FailureReason::ConnectionLost,
        })
    );
    // A second cancellation of the same run yields no second outcome.
    assert_eq!(run.abort(FailureReason::ConnectionLost), None);
    assert_eq!(run.abort(FailureReason::IoError), None);
    assert_eq!(run.state, RunState::Aborted);
}

#[test]
fn responder_counts_and_echoes() {
    let mut run = streaming_responder();
    run.on_payload_read(3 * SEC, 4000);
    run.on_payload_read(4 * SEC, 96);
    assert_eq!(run.bytes_received, 4096);
    // The duration clock started at the first byte, not at creation.
    assert_eq!(run.started_at, 3 * SEC);
    run.on_payload_eof();
    assert_eq!(run.state, RunState::Echoing);
    let receipt = run.receipt_remaining();
    assert_eq!(receipt, vec![0u8, 0, 0, 0, 0, 0, 0x10, 0x00]);
    // The stream accepts the receipt in two partial writes.
    assert_eq!(run.on_receipt_written(13 * SEC, 5), None);
    assert_eq!(run.receipt_remaining(), vec![0u8, 0x10, 0x00]);
    let outcome = run.on_receipt_written(13 * SEC, 3);
    assert_eq!(
        outcome,
        Some(RunOutcome::Completed {
            duration_ns: 10 * SEC,
            bytes_transferred: 4096,
        })
    );
    assert_eq!(run.state, RunState::Done);
}

#[test]
fn responder_handles_empty_payload() {
    let mut run = streaming_responder();
    // The initiator half-closes without sending a single byte.
    run.on_payload_eof();
    let receipt = run.receipt_remaining();
    assert_eq!(receipt, vec![0u8; 8]);
    let outcome = run.on_receipt_written(7 * SEC, 8);
    assert_eq!(
        outcome,
        Some(RunOutcome::Completed {
            duration_ns: 0,
            bytes_transferred: 0,
        })
    );
}
