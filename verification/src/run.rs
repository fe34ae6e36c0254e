//! The per-run state machine. One `Run` drives exactly one benchmark over one
//! substream, in either the initiator or the responder role.
//!
//! The machine never performs I/O itself: the surrounding event loop owns the
//! substream and the monotonic clock, performs each non-blocking operation,
//! and feeds the results back in as plain values (bytes accepted by a write,
//! bytes seen by a read, end-of-stream, errors, clock samples in
//! nanoseconds). The machine decides every transition, keeps the counters,
//! and produces the run's single terminal outcome.

use vstd::prelude::*;
use crate::codec;
use crate::outcome::FailureReason;
use crate::outcome::RunOutcome;

verus! {

/// Which side of the benchmark this run plays.
#[derive(Clone, Copy, PartialEq, Eq, Structural, Debug)]
pub enum Role {
    /// Opens the substream, streams payload, and awaits the receipt.
    Initiator,
    /// Accepts the substream, counts payload bytes, and echoes the count.
    Responder,
}

/// The phases of a run. `Done` and `Aborted` are terminal; a run reaches
/// exactly one of them, exactly once.
#[derive(Clone, Copy, PartialEq, Eq, Structural, Debug)]
pub enum RunState {
    /// Created, streaming not yet begun.
    Idle,
    /// Initiator: writing payload. Responder: counting payload bytes.
    Streaming,
    /// Initiator only: the stop condition was met; the write side of the
    /// substream is being shut down while the read side stays open.
    ClosingWrite,
    /// Initiator only: payload finished, reading the 8-byte receipt.
    AwaitingReceipt,
    /// Responder only: payload finished, writing the 8-byte receipt.
    Echoing,
    /// Terminal: the run completed and reported its outcome.
    Done,
    /// Terminal: the run failed and reported its outcome.
    Aborted,
}

/// When the initiator stops streaming: after a target duration, after a
/// target byte count, or at the first of the two. At least one target must
/// be configured.
#[derive(Clone, Copy, PartialEq, Eq, Structural, Debug)]
pub struct RunConfig {
    /// Stop once this many nanoseconds have elapsed since streaming began.
    pub target_duration_ns: Option<u64>,
    /// Stop once this many payload bytes have been accepted by the stream.
    pub target_bytes: Option<u64>,
}

impl RunConfig {
    /// A configuration must name at least one stopping condition.
    pub open spec fn wf(self) -> bool {
        self.target_duration_ns is Some || self.target_bytes is Some
    }

    /// The default benchmark mode: run for a fixed span of time.
    pub fn for_duration(target_ns: u64) -> (c: RunConfig)
        ensures
            c == (RunConfig { target_duration_ns: Some(target_ns), target_bytes: None }),
            c.wf(),
    {
        RunConfig { target_duration_ns: Some(target_ns), target_bytes: None }
    }

    /// Fixed-size transfer mode: run until a byte count is reached.
    pub fn for_bytes(target: u64) -> (c: RunConfig)
        ensures
            c == (RunConfig { target_duration_ns: None, target_bytes: Some(target) }),
            c.wf(),
    {
        RunConfig { target_duration_ns: None, target_bytes: Some(target) }
    }
}

/// Whether the initiator's stopping condition holds at clock value `now`,
/// having started at `started_at` with `bytes_sent` bytes accepted so far.
pub open spec fn should_stop(cfg: RunConfig, started_at: u64, bytes_sent: u64, now: u64) -> bool {
    ||| (cfg.target_duration_ns matches Some(d) && now >= started_at && now - started_at >= d)
    ||| (cfg.target_bytes matches Some(b) && bytes_sent >= b)
}

/// What the event loop should do next for an initiator run that signalled
/// write readiness.
#[derive(Clone, Copy, PartialEq, Eq, Structural, Debug)]
pub enum WriteDirective {
    /// Keep streaming: attempt to write one bounded-size chunk of payload.
    WriteChunk,
    /// The stop condition is met: shut down the write side of the substream.
    CloseWrite,
}

/// One benchmark run over one substream.
pub struct Run {
    pub role: Role,
    pub config: RunConfig,
    pub state: RunState,
    /// Monotonic clock sample when streaming began. For the responder this is
    /// the instant the first payload byte was observed.
    pub started_at: u64,
    /// Initiator: clock sample when the stop condition was observed.
    pub stopped_at: u64,
    /// Payload bytes the stream actually accepted from us (initiator).
    pub bytes_sent: u64,
    /// Payload bytes observed from the peer (responder).
    pub bytes_received: u64,
    /// Initiator: receipt bytes collected so far, fewer than 8 until done.
    pub receipt_buf: Vec<u8>,
    /// Responder: the encoded receipt being written to the peer.
    pub receipt_out: Vec<u8>,
    /// Responder: how many bytes of `receipt_out` the stream accepted so far.
    pub receipt_written: usize,
    /// Responder: whether any payload byte was observed (so `started_at` is
    /// meaningful).
    pub saw_first_byte: bool,
}

impl Run {
    /// True in exactly the two states a run never leaves.
    pub open spec fn is_terminal(self) -> bool {
        self.state == RunState::Done || self.state == RunState::Aborted
    }

    /// An initiator past `Streaming` stopped for a reason: its stop
    /// condition held at the recorded stop instant.
    pub open spec fn stop_satisfied(self) -> bool {
        &&& self.started_at <= self.stopped_at
        &&& should_stop(self.config, self.started_at, self.bytes_sent, self.stopped_at)
    }

    pub open spec fn initiator_wf(self) -> bool {
        &&& self.bytes_received == 0
        &&& self.receipt_out@.len() == 0
        &&& self.receipt_written == 0
        &&& !self.saw_first_byte
        &&& self.state != RunState::Echoing
        &&& (self.state == RunState::Idle ==> self.bytes_sent == 0 && self.receipt_buf@.len()
            == 0)
        &&& (self.state == RunState::Streaming ==> self.receipt_buf@.len() == 0)
        &&& (self.state == RunState::ClosingWrite ==> self.receipt_buf@.len() == 0
            && self.stop_satisfied())
        &&& (self.state == RunState::AwaitingReceipt ==> self.receipt_buf@.len()
            < codec::RECEIPT_LEN && self.stop_satisfied())
    }

    pub open spec fn responder_wf(self) -> bool {
        &&& self.bytes_sent == 0
        &&& self.receipt_buf@.len() == 0
        &&& self.state != RunState::ClosingWrite
        &&& self.state != RunState::AwaitingReceipt
        &&& (self.state == RunState::Idle ==> self.bytes_received == 0 && !self.saw_first_byte
            && self.receipt_out@.len() == 0 && self.receipt_written == 0)
        &&& (self.state == RunState::Streaming ==> self.receipt_out@.len() == 0
            && self.receipt_written == 0)
        &&& (self.state == RunState::Echoing ==> self.receipt_out@.len() == codec::RECEIPT_LEN
            && codec::be_value(self.receipt_out@) == self.bytes_received
            && self.receipt_written < codec::RECEIPT_LEN)
    }

    /// The run's internal invariant: constructors establish it, every method
    /// preserves it.
    pub open spec fn wf(self) -> bool {
        &&& self.config.wf()
        &&& match self.role {
            Role::Initiator => self.initiator_wf(),
            Role::Responder => self.responder_wf(),
        }
    }

    /// Fields no stream event ever rewrites behind the caller's back: the
    /// run's identity and its configuration.
    pub open spec fn same_identity(a: Run, b: Run) -> bool {
        &&& a.role == b.role
        &&& a.config == b.config
    }

    /// A fresh run in the given role, not yet streaming.
    pub fn new(role: Role, config: RunConfig) -> (r: Run)
        requires
            config.wf(),
        ensures
            r.wf(),
            r.role == role,
            r.config == config,
            r.state == RunState::Idle,
            r.started_at == 0,
            r.stopped_at == 0,
            r.bytes_sent == 0,
            r.bytes_received == 0,
            r.receipt_buf@.len() == 0,
            r.receipt_out@.len() == 0,
            r.receipt_written == 0,
            !r.saw_first_byte,
    {
        Run {
            role,
            config,
            state: RunState::Idle,
            started_at: 0,
            stopped_at: 0,
            bytes_sent: 0,
            bytes_received: 0,
            receipt_buf: Vec::new(),
            receipt_out: Vec::new(),
            receipt_written: 0,
            saw_first_byte: false,
        }
    }

    /// Enter `Streaming`. The initiator records the clock here: the reported
    /// duration is measured from this instant. The responder's clock starts
    /// at its first observed payload byte instead.
    pub fn start(&mut self, now: u64)
        requires
            old(self).wf(),
            old(self).state == RunState::Idle,
        ensures
            final(self).wf(),
            *final(self) == (Run {
                state: RunState::Streaming,
                started_at: if old(self).role == Role::Initiator {
                    now
                } else {
                    old(self).started_at
                },
                stopped_at: if old(self).role == Role::Initiator {
                    now
                } else {
                    old(self).stopped_at
                },
                ..*old(self)
            }),
    {
        if let Role::Initiator = self.role {
            self.started_at = now;
            self.stopped_at = now;
        }
        self.state = RunState::Streaming;
    }

    /// Initiator, on write readiness: decide between streaming one more
    /// bounded-size chunk and stopping. The stop decision is taken at the
    /// supplied clock sample, so a duration target can never be cut short.
    pub fn poll_write(&mut self, now: u64) -> (d: WriteDirective)
        requires
            old(self).wf(),
            old(self).role == Role::Initiator,
            old(self).state == RunState::Streaming,
            now >= old(self).started_at,
        ensures
            final(self).wf(),
            if should_stop(old(self).config, old(self).started_at, old(self).bytes_sent, now) {
                d == WriteDirective::CloseWrite && *final(self) == (Run {
                    state: RunState::ClosingWrite,
                    stopped_at: now,
                    ..*old(self)
                })
            } else {
                d == WriteDirective::WriteChunk && *final(self) == *old(self)
            },
    {
        let mut stop = false;
        if let Some(d) = self.config.target_duration_ns {
            if now - self.started_at >= d {
                stop = true;
            }
        }
        if let Some(b) = self.config.target_bytes {
            if self.bytes_sent >= b {
                stop = true;
            }
        }
        if stop {
            self.stopped_at = now;
            self.state = RunState::ClosingWrite;
            WriteDirective::CloseWrite
        } else {
            WriteDirective::WriteChunk
        }
    }

    /// Initiator: the stream accepted `n` payload bytes (a partial write is
    /// expected and is simply counted). The counter never decreases.
    pub fn on_bytes_sent(&mut self, n: u64)
        requires
            old(self).wf(),
            old(self).role == Role::Initiator,
            old(self).state == RunState::Streaming,
            old(self).bytes_sent + n <= u64::MAX,
        ensures
            final(self).wf(),
            *final(self) == (Run { bytes_sent: (old(self).bytes_sent + n) as u64, ..*old(self) }),
    {
        self.bytes_sent = self.bytes_sent + n;
    }

    /// Initiator: the write-side shutdown finished; begin reading the receipt.
    pub fn on_write_closed(&mut self)
        requires
            old(self).wf(),
            old(self).role == Role::Initiator,
            old(self).state == RunState::ClosingWrite,
        ensures
            final(self).wf(),
            *final(self) == (Run { state: RunState::AwaitingReceipt, ..*old(self) }),
    {
        self.state = RunState::AwaitingReceipt;
    }

    /// Initiator: `data` arrived while awaiting the receipt. Fewer than 8
    /// bytes in total: keep collecting. Exactly 8: the run completes, with
    /// the receipt's big-endian value as the transferred byte count and the
    /// duration measured from `started_at` to this clock sample. More than
    /// 8: the peer sent data past the receipt, a protocol violation.
    ///
    /// A completed duration-only run reports at least its target duration:
    /// the run stopped streaming no earlier than `started_at + target`, and
    /// the receipt arrives on a later clock sample still.
    pub fn on_receipt_data(&mut self, now: u64, data: &[u8]) -> (r: Option<RunOutcome>)
        requires
            old(self).wf(),
            old(self).role == Role::Initiator,
            old(self).state == RunState::AwaitingReceipt,
            now >= old(self).stopped_at,
        ensures
            final(self).wf(),
            Run::same_identity(*old(self), *final(self)),
            final(self).started_at == old(self).started_at,
            final(self).bytes_sent == old(self).bytes_sent,
            ({
                let total = old(self).receipt_buf@.len() + data@.len();
                &&& (total < codec::RECEIPT_LEN ==> r is None && *final(self) == (Run {
                    receipt_buf: final(self).receipt_buf,
                    ..*old(self)
                }) && final(self).receipt_buf@ == old(self).receipt_buf@ + data@)
                &&& (total == codec::RECEIPT_LEN ==> {
                    &&& final(self).state == RunState::Done
                    &&& r matches Some(RunOutcome::Completed { duration_ns, bytes_transferred })
                        && duration_ns == now - old(self).started_at
                        && bytes_transferred as nat == codec::be_value(
                        old(self).receipt_buf@ + data@,
                    )
                })
                &&& (total > codec::RECEIPT_LEN ==> final(self).state == RunState::Aborted
                    && r == Some(RunOutcome::Failed { reason: FailureReason::ProtocolViolation }))
            }),
            r matches Some(RunOutcome::Completed { duration_ns, .. }) ==> {
                old(self).config.target_bytes is None ==> {
                    &&& old(self).config.target_duration_ns matches Some(target)
                        && duration_ns >= target
                }
            },
    {
        let have = self.receipt_buf.len();
        if data.len() > codec::RECEIPT_LEN - have {
            self.state = RunState::Aborted;
            return Some(RunOutcome::Failed { reason: FailureReason::ProtocolViolation });
        }
        let mut i: usize = 0;
        while i < data.len()
            invariant
                i <= data@.len(),
                self.receipt_buf@ == old(self).receipt_buf@ + data@.subrange(0, i as int),
                self.receipt_buf@.len() <= codec::RECEIPT_LEN,
                self.state == old(self).state,
                self.role == old(self).role,
                self.config == old(self).config,
                self.started_at == old(self).started_at,
                self.stopped_at == old(self).stopped_at,
                self.bytes_sent == old(self).bytes_sent,
                self.bytes_received == old(self).bytes_received,
                self.receipt_out == old(self).receipt_out,
                self.receipt_written == old(self).receipt_written,
                self.saw_first_byte == old(self).saw_first_byte,
                data@.len() <= codec::RECEIPT_LEN - old(self).receipt_buf@.len(),
            decreases data@.len() - i,
        {
            self.receipt_buf.push(data[i]);
            proof {
                assert(old(self).receipt_buf@ + data@.subrange(0, i as int + 1) =~= (old(
                    self,
                ).receipt_buf@ + data@.subrange(0, i as int)).push(data@[i as int]));
            }
            i += 1;
        }
        proof {
            assert(data@.subrange(0, data@.len() as int) =~= data@);
        }
        if self.receipt_buf.len() == codec::RECEIPT_LEN {
            let decoded = codec::decode_receipt(self.receipt_buf.as_slice());
            let value: u64 = match decoded {
                Ok(v) => v,
                Err(_) => 0,
            };
            proof {
                assert(decoded is Ok);
                assert(self.receipt_buf@.subrange(0, codec::RECEIPT_LEN as int) =~= self
                    .receipt_buf@);
            }
            let duration = now - self.started_at;
            self.state = RunState::Done;
            Some(RunOutcome::Completed { duration_ns: duration, bytes_transferred: value })
        } else {
            None
        }
    }

    /// Initiator: the peer closed its write side before a full receipt
    /// arrived — a truncated receipt, so the run fails.
    pub fn on_receipt_eof(&mut self) -> (r: RunOutcome)
        requires
            old(self).wf(),
            old(self).role == Role::Initiator,
            old(self).state == RunState::AwaitingReceipt,
        ensures
            final(self).wf(),
            *final(self) == (Run { state: RunState::Aborted, ..*old(self) }),
            r == (RunOutcome::Failed { reason: FailureReason::ProtocolViolation }),
    {
        self.state = RunState::Aborted;
        RunOutcome::Failed { reason: FailureReason::ProtocolViolation }
    }

    /// Any role: abort with the given reason (stream I/O failure, connection
    /// teardown). A run already in a terminal state is left untouched and
    /// yields no second outcome: cancellation is idempotent.
    pub fn abort(&mut self, reason: FailureReason) -> (r: Option<RunOutcome>)
        requires
            old(self).wf(),
        ensures
            final(self).wf(),
            if old(self).is_terminal() {
                r is None && *final(self) == *old(self)
            } else {
                *final(self) == (Run { state: RunState::Aborted, ..*old(self) }) && r == Some(
                    RunOutcome::Failed { reason },
                )
            },
    {
        match self.state {
            RunState::Done | RunState::Aborted => None,
            _ => {
                self.state = RunState::Aborted;
                Some(RunOutcome::Failed { reason })
            },
        }
    }

    /// Responder: the stream yielded `n` payload bytes. The count never
    /// decreases; the clock starts at the first byte observed.
    pub fn on_payload_read(&mut self, now: u64, n: u64)
        requires
            old(self).wf(),
            old(self).role == Role::Responder,
            old(self).state == RunState::Streaming,
            old(self).bytes_received + n <= u64::MAX,
        ensures
            final(self).wf(),
            *final(self) == (Run {
                bytes_received: (old(self).bytes_received + n) as u64,
                started_at: if !old(self).saw_first_byte && n > 0 {
                    now
                } else {
                    old(self).started_at
                },
                saw_first_byte: old(self).saw_first_byte || n > 0,
                ..*old(self)
            }),
    {
        if !self.saw_first_byte && n > 0 {
            self.started_at = now;
            self.saw_first_byte = true;
        }
        self.bytes_received = self.bytes_received + n;
    }

    /// Responder: the peer's half-close was observed; the payload is over.
    /// Encode the counted total as the receipt and start echoing it back.
    pub fn on_payload_eof(&mut self)
        requires
            old(self).wf(),
            old(self).role == Role::Responder,
            old(self).state == RunState::Streaming,
        ensures
            final(self).wf(),
            final(self).state == RunState::Echoing,
            final(self).receipt_out@.len() == codec::RECEIPT_LEN,
            codec::be_value(final(self).receipt_out@) == old(self).bytes_received,
            final(self).receipt_written == 0,
            *final(self) == (Run {
                state: RunState::Echoing,
                receipt_out: final(self).receipt_out,
                ..*old(self)
            }),
    {
        self.receipt_out = codec::encode_receipt(self.bytes_received);
        self.state = RunState::Echoing;
    }

    /// Responder: the part of the receipt the stream has not yet accepted,
    /// for the event loop to (re)attempt on write readiness.
    pub fn receipt_remaining(&self) -> (r: Vec<u8>)
        requires
            self.wf(),
            self.role == Role::Responder,
            self.state == RunState::Echoing,
        ensures
            r@ == self.receipt_out@.subrange(
                self.receipt_written as int,
                self.receipt_out@.len() as int,
            ),
    {
        let mut out: Vec<u8> = Vec::new();
        let mut i: usize = self.receipt_written;
        while i < self.receipt_out.len()
            invariant
                self.receipt_written <= i <= self.receipt_out@.len(),
                out@ == self.receipt_out@.subrange(self.receipt_written as int, i as int),
            decreases self.receipt_out@.len() - i,
        {
            out.push(self.receipt_out[i]);
            proof {
                assert(self.receipt_out@.subrange(self.receipt_written as int, i as int + 1)
                    =~= self.receipt_out@.subrange(self.receipt_written as int, i as int).push(
                    self.receipt_out@[i as int],
                ));
            }
            i += 1;
        }
        out
    }

    /// Responder: the stream accepted `n` more receipt bytes. Once all 8 are
    /// out, the run completes, vouching for exactly the counted payload
    /// total; its duration spans first byte observed to this clock sample
    /// (zero for a run that carried no payload at all).
    pub fn on_receipt_written(&mut self, now: u64, n: usize) -> (r: Option<RunOutcome>)
        requires
            old(self).wf(),
            old(self).role == Role::Responder,
            old(self).state == RunState::Echoing,
            n <= codec::RECEIPT_LEN - old(self).receipt_written,
            old(self).saw_first_byte ==> now >= old(self).started_at,
        ensures
            final(self).wf(),
            ({
                let written = old(self).receipt_written + n;
                if written == codec::RECEIPT_LEN {
                    &&& *final(self) == (Run {
                        state: RunState::Done,
                        receipt_written: written as usize,
                        ..*old(self)
                    })
                    &&& r == Some(RunOutcome::Completed {
                        duration_ns: if old(self).saw_first_byte {
                            (now - old(self).started_at) as u64
                        } else {
                            0
                        },
                        bytes_transferred: old(self).bytes_received,
                    })
                } else {
                    &&& *final(self) == (Run { receipt_written: written as usize, ..*old(self) })
                    &&& r is None
                }
            }),
    {
        self.receipt_written = self.receipt_written + n;
        if self.receipt_written == codec::RECEIPT_LEN {
            let duration = if self.saw_first_byte {
                now - self.started_at
            } else {
                0
            };
            self.state = RunState::Done;
            Some(RunOutcome::Completed {
                duration_ns: duration,
                bytes_transferred: self.bytes_received,
            })
        } else {
            None
        }
    }
}

/// Law: the receipt an echoing responder is sending can only decode to its
/// own counted `bytes_received` — the encoding is unambiguous, so the value
/// the initiator reads back is exactly the responder's count.
pub proof fn lemma_receipt_reports_count(r: Run, v: u64)
    requires
        r.wf(),
        r.role == Role::Responder,
        r.state == RunState::Echoing,
        v as nat == codec::be_value(r.receipt_out@),
    ensures
        v == r.bytes_received,
{
}

/// Law: an initiator run that stopped streaming under a duration-only
/// configuration has already let the full target elapse, so any completion
/// sampled at or after the stop instant reports a duration of at least the
/// target — never below it.
pub proof fn lemma_completed_duration_meets_target(r: Run, now: u64, target: u64)
    requires
        r.wf(),
        r.role == Role::Initiator,
        r.state == RunState::AwaitingReceipt,
        r.config.target_duration_ns == Some(target),
        r.config.target_bytes is None,
        now >= r.stopped_at,
    ensures
        now - r.started_at >= target,
{
}

} // verus!
