//! The connection orchestrator: bridges transport-level connection lifecycle
//! events to run state machines and republishes every run outcome as exactly
//! one externally visible event tagged with its connection.
//!
//! The orchestrator is the sole owner of the connection-id → record map; each
//! record holds at most one run per role, so a connection may host an
//! initiator run, a responder run, or both at once. Runs on different
//! connections never share a counter or a timer: every event touches one
//! record and provably leaves all others unchanged.

use vstd::prelude::*;
use std::collections::HashMap;
use crate::codec;
use crate::outcome::FailureReason;
use crate::outcome::OutcomeEvent;
use crate::outcome::RunOutcome;
use crate::run::Role;
use crate::run::Run;
use crate::run::RunConfig;
use crate::run::RunState;
use crate::run::WriteDirective;
use crate::run::should_stop;

verus! {

/// Per open connection: the peer's identity and the optional active run for
/// each role. Created on connection-established, destroyed on
/// connection-closed.
pub struct ConnectionRecord {
    /// The remote peer's identity, as handed in by the transport layer.
    pub peer: u64,
    /// The run this side initiated on the connection, if any.
    pub initiator_run: Option<Run>,
    /// The run the remote side initiated on the connection, if any.
    pub responder_run: Option<Run>,
}

/// A record is well formed when each occupied slot holds a well-formed run
/// playing that slot's role.
pub open spec fn record_wf(r: ConnectionRecord) -> bool {
    &&& (r.initiator_run matches Some(run) ==> run.wf() && run.role == Role::Initiator)
    &&& (r.responder_run matches Some(run) ==> run.wf() && run.role == Role::Responder)
}

/// The run a record holds for a role.
pub open spec fn run_slot(r: ConnectionRecord, role: Role) -> Option<Run> {
    match role {
        Role::Initiator => r.initiator_run,
        Role::Responder => r.responder_run,
    }
}

/// The record with the run for one role replaced.
pub open spec fn with_run_slot(r: ConnectionRecord, role: Role, o: Option<Run>) -> ConnectionRecord {
    match role {
        Role::Initiator => ConnectionRecord { initiator_run: o, ..r },
        Role::Responder => ConnectionRecord { responder_run: o, ..r },
    }
}

/// Every record of the map is well formed.
pub open spec fn conns_wf(m: Map<u64, ConnectionRecord>) -> bool {
    forall|j: u64| #[trigger] m.dom().contains(j) ==> record_wf(m[j])
}

proof fn lemma_wf_after_insert(pre: Map<u64, ConnectionRecord>, id: u64, rec: ConnectionRecord)
    requires
        conns_wf(pre),
        record_wf(rec),
    ensures
        conns_wf(pre.insert(id, rec)),
{
    assert forall|j: u64| #[trigger] pre.insert(id, rec).dom().contains(j) implies record_wf(
        pre.insert(id, rec)[j],
    ) by {
        if j != id {
            assert(pre.dom().contains(j));
        }
    }
}

proof fn lemma_wf_after_remove(pre: Map<u64, ConnectionRecord>, id: u64)
    requires
        conns_wf(pre),
    ensures
        conns_wf(pre.remove(id)),
{
    assert forall|j: u64| #[trigger] pre.remove(id).dom().contains(j) implies record_wf(
        pre.remove(id)[j],
    ) by {
        assert(pre.dom().contains(j));
    }
}

proof fn lemma_remove_absent(m: Map<u64, ConnectionRecord>, id: u64)
    requires
        !m.contains_key(id),
    ensures
        m.remove(id) == m,
{
    assert(m.remove(id) =~= m);
}

proof fn lemma_remove_then_insert(m: Map<u64, ConnectionRecord>, id: u64, rec: ConnectionRecord)
    ensures
        m.remove(id).insert(id, rec) == m.insert(id, rec),
{
    assert(m.remove(id).insert(id, rec) =~= m.insert(id, rec));
}

proof fn lemma_reinsert_same(m: Map<u64, ConnectionRecord>, id: u64, rec: ConnectionRecord)
    requires
        m.contains_key(id),
        m[id] == rec,
    ensures
        m.remove(id).insert(id, rec) == m,
{
    assert(m.remove(id).insert(id, rec) =~= m);
}

/// Owns the set of active connections, creates and destroys runs as
/// substreams open and connections close, and relays each run's single
/// outcome.
pub struct Orchestrator {
    pub connections: HashMap<u64, ConnectionRecord>,
}

impl Orchestrator {
    /// The abstract state: connection identifier → record.
    pub open spec fn conns(self) -> Map<u64, ConnectionRecord> {
        self.connections@
    }

    /// Invariant: every tracked record is well formed.
    pub open spec fn wf(self) -> bool {
        conns_wf(self.conns())
    }

    /// An orchestrator tracking no connections.
    pub fn new() -> (r: Orchestrator)
        ensures
            r.wf(),
            r.conns() == Map::<u64, ConnectionRecord>::empty(),
    {
        Orchestrator { connections: HashMap::new() }
    }

    /// The transport reports a new connection. A fresh record with no active
    /// run is created for it; a connection identifier already tracked is left
    /// exactly as it was.
    pub fn on_connection_established(&mut self, id: u64, peer: u64) -> (fresh: bool)
        requires
            old(self).wf(),
        ensures
            final(self).wf(),
            fresh == !old(self).conns().contains_key(id),
            fresh ==> final(self).conns() == old(self).conns().insert(
                id,
                (ConnectionRecord { peer, initiator_run: None, responder_run: None }),
            ),
            !fresh ==> final(self).conns() == old(self).conns(),
            forall|j: u64|
                j != id && #[trigger] old(self).conns().contains_key(j)
                    ==> final(self).conns().contains_key(j) && final(self).conns()[j] == old(
                    self,
                ).conns()[j],
    {
        if self.connections.contains_key(&id) {
            return false;
        }
        let rec = ConnectionRecord { peer, initiator_run: None, responder_run: None };
        self.connections.insert(id, rec);
        proof {
            lemma_wf_after_insert(old(self).conns(), id, rec);
        }
        true
    }

    /// The transport reports a connection closed. Any in-flight run on it is
    /// aborted as `ConnectionLost` — producing its one failure event, and
    /// never a completion — and the record is dropped. Closing an unknown
    /// (or already closed) connection, or one with no active run, produces no
    /// event at all: teardown is idempotent.
    pub fn on_connection_closed(&mut self, id: u64) -> (evs: (
        Option<OutcomeEvent>,
        Option<OutcomeEvent>,
    ))
        requires
            old(self).wf(),
        ensures
            final(self).wf(),
            final(self).conns() == old(self).conns().remove(id),
            !old(self).conns().contains_key(id) ==> final(self).conns() == old(self).conns()
                && evs.0 is None && evs.1 is None,
            old(self).conns().contains_key(id) ==> ({
                let rec = old(self).conns()[id];
                &&& evs.0 == abort_event(id, run_slot(rec, Role::Initiator))
                &&& evs.1 == abort_event(id, run_slot(rec, Role::Responder))
            }),
            forall|j: u64|
                j != id && #[trigger] old(self).conns().contains_key(j)
                    ==> final(self).conns().contains_key(j) && final(self).conns()[j] == old(
                    self,
                ).conns()[j],
    {
        match self.connections.remove(&id) {
            None => {
                proof {
                    lemma_remove_absent(old(self).conns(), id);
                }
                (None, None)
            },
            Some(rec) => {
                proof {
                    lemma_wf_after_remove(old(self).conns(), id);
                }
                let ConnectionRecord { peer: _, initiator_run, responder_run } = rec;
                let e0 = match initiator_run {
                    Some(mut run) => match run.abort(FailureReason::ConnectionLost) {
                        Some(outcome) => Some(OutcomeEvent { connection_id: id, outcome }),
                        None => None,
                    },
                    None => None,
                };
                let e1 = match responder_run {
                    Some(mut run) => match run.abort(FailureReason::ConnectionLost) {
                        Some(outcome) => Some(OutcomeEvent { connection_id: id, outcome }),
                        None => None,
                    },
                    None => None,
                };
                (e0, e1)
            },
        }
    }

    /// A benchmark substream was fully negotiated on connection `id` for
    /// `role`: create that role's run and start it streaming at clock sample
    /// `now`. An unknown connection, or a slot already hosting a run, is left
    /// exactly as it was — one run per role per connection, never more.
    pub fn on_substream_opened(&mut self, id: u64, role: Role, config: RunConfig, now: u64) -> (created: bool)
        requires
            old(self).wf(),
            config.wf(),
        ensures
            final(self).wf(),
            created == (old(self).conns().contains_key(id) && run_slot(
                old(self).conns()[id],
                role,
            ) is None),
            created ==> ({
                let run2 = the_run(final(self).conns(), id, role);
                &&& started_streaming(run2, role, config, now)
                &&& final(self).conns() == with_run(old(self).conns(), id, role, run2)
            }),
            !created ==> final(self).conns() == old(self).conns(),
            forall|j: u64|
                j != id && #[trigger] old(self).conns().contains_key(j)
                    ==> final(self).conns().contains_key(j) && final(self).conns()[j] == old(
                    self,
                ).conns()[j],
    {
        match self.connections.remove(&id) {
            None => {
                proof {
                    lemma_remove_absent(old(self).conns(), id);
                }
                false
            },
            Some(mut rec) => {
                let occupied = match role {
                    Role::Initiator => rec.initiator_run.is_some(),
                    Role::Responder => rec.responder_run.is_some(),
                };
                if occupied {
                    self.connections.insert(id, rec);
                    proof {
                        lemma_reinsert_same(old(self).conns(), id, old(self).conns()[id]);
                    }
                    false
                } else {
                    let mut run = Run::new(role, config);
                    run.start(now);
                    match role {
                        Role::Initiator => rec.initiator_run = Some(run),
                        Role::Responder => rec.responder_run = Some(run),
                    }
                    self.connections.insert(id, rec);
                    proof {
                        lemma_remove_then_insert(
                            old(self).conns(),
                            id,
                            with_run_slot(
                                old(self).conns()[id],
                                role,
                                run_slot(final(self).conns()[id], role),
                            ),
                        );
                        lemma_wf_after_insert(old(self).conns(), id, final(self).conns()[id]);
                    }
                    true
                }
            },
        }
    }

    /// Initiator side, on write readiness: hand back the machine's decision —
    /// stream one more bounded chunk, or shut the write side down because the
    /// stop condition is met at clock sample `now`. `None` when the
    /// connection hosts no initiator run that is streaming.
    pub fn on_write_ready(&mut self, id: u64, now: u64) -> (d: Option<WriteDirective>)
        requires
            old(self).wf(),
        ensures
            final(self).wf(),
            ({
                let m = old(self).conns();
                let ready = has_run_in(m, id, Role::Initiator, RunState::Streaming) && now
                    >= the_run(m, id, Role::Initiator).started_at;
                &&& (!ready ==> d is None && final(self).conns() == m)
                &&& (ready ==> ({
                    let run = the_run(m, id, Role::Initiator);
                    if should_stop(run.config, run.started_at, run.bytes_sent, now) {
                        &&& d == Some(WriteDirective::CloseWrite)
                        &&& final(self).conns() == with_run(
                            m,
                            id,
                            Role::Initiator,
                            (Run { state: RunState::ClosingWrite, stopped_at: now, ..run }),
                        )
                    } else {
                        &&& d == Some(WriteDirective::WriteChunk)
                        &&& final(self).conns() == m
                    }
                }))
            }),
            forall|j: u64|
                j != id && #[trigger] old(self).conns().contains_key(j)
                    ==> final(self).conns().contains_key(j) && final(self).conns()[j] == old(
                    self,
                ).conns()[j],
    {
        match self.connections.remove(&id) {
            None => {
                proof {
                    lemma_remove_absent(old(self).conns(), id);
                }
                None
            },
            Some(mut rec) => {
                let mut d: Option<WriteDirective> = None;
                match rec.initiator_run.take() {
                    Some(mut run) => {
                        let streaming = match run.state {
                            RunState::Streaming => true,
                            _ => false,
                        };
                        if streaming && now >= run.started_at {
                            d = Some(run.poll_write(now));
                        }
                        rec.initiator_run = Some(run);
                    },
                    None => {},
                }
                self.connections.insert(id, rec);
                proof {
                    if d is Some && d->Some_0 == WriteDirective::CloseWrite {
                        lemma_remove_then_insert(
                            old(self).conns(),
                            id,
                            final(self).conns()[id],
                        );
                        lemma_wf_after_insert(old(self).conns(), id, final(self).conns()[id]);
                    } else {
                        lemma_reinsert_same(old(self).conns(), id, old(self).conns()[id]);
                    }
                }
                d
            },
        }
    }

    /// Initiator side: the stream accepted `n` more payload bytes. Returns
    /// whether a streaming initiator run was there to count them.
    pub fn on_bytes_sent(&mut self, id: u64, n: u64) -> (applied: bool)
        requires
            old(self).wf(),
            has_run_in(old(self).conns(), id, Role::Initiator, RunState::Streaming) ==> the_run(
                old(self).conns(),
                id,
                Role::Initiator,
            ).bytes_sent + n <= u64::MAX,
        ensures
            final(self).wf(),
            applied == has_run_in(old(self).conns(), id, Role::Initiator, RunState::Streaming),
            !applied ==> final(self).conns() == old(self).conns(),
            applied ==> ({
                let run = the_run(old(self).conns(), id, Role::Initiator);
                final(self).conns() == with_run(
                    old(self).conns(),
                    id,
                    Role::Initiator,
                    (Run { bytes_sent: (run.bytes_sent + n) as u64, ..run }),
                )
            }),
            forall|j: u64|
                j != id && #[trigger] old(self).conns().contains_key(j)
                    ==> final(self).conns().contains_key(j) && final(self).conns()[j] == old(
                    self,
                ).conns()[j],
    {
        match self.connections.remove(&id) {
            None => {
                proof {
                    lemma_remove_absent(old(self).conns(), id);
                }
                false
            },
            Some(mut rec) => {
                let mut applied = false;
                match rec.initiator_run.take() {
                    Some(mut run) => {
                        let streaming = match run.state {
                            RunState::Streaming => true,
                            _ => false,
                        };
                        if streaming {
                            run.on_bytes_sent(n);
                            applied = true;
                        }
                        rec.initiator_run = Some(run);
                    },
                    None => {},
                }
                self.connections.insert(id, rec);
                proof {
                    if applied {
                        lemma_remove_then_insert(
                            old(self).conns(),
                            id,
                            final(self).conns()[id],
                        );
                        lemma_wf_after_insert(old(self).conns(), id, final(self).conns()[id]);
                    } else {
                        lemma_reinsert_same(old(self).conns(), id, old(self).conns()[id]);
                    }
                }
                applied
            },
        }
    }

    /// Initiator side: the write-side shutdown completed; the run moves on to
    /// awaiting the receipt.
    pub fn on_write_closed(&mut self, id: u64) -> (applied: bool)
        requires
            old(self).wf(),
        ensures
            final(self).wf(),
            applied == has_run_in(old(self).conns(), id, Role::Initiator, RunState::ClosingWrite),
            !applied ==> final(self).conns() == old(self).conns(),
            applied ==> ({
                let run = the_run(old(self).conns(), id, Role::Initiator);
                final(self).conns() == with_run(
                    old(self).conns(),
                    id,
                    Role::Initiator,
                    (Run { state: RunState::AwaitingReceipt, ..run }),
                )
            }),
            forall|j: u64|
                j != id && #[trigger] old(self).conns().contains_key(j)
                    ==> final(self).conns().contains_key(j) && final(self).conns()[j] == old(
                    self,
                ).conns()[j],
    {
        match self.connections.remove(&id) {
            None => {
                proof {
                    lemma_remove_absent(old(self).conns(), id);
                }
                false
            },
            Some(mut rec) => {
                let mut applied = false;
                match rec.initiator_run.take() {
                    Some(mut run) => {
                        let closing = match run.state {
                            RunState::ClosingWrite => true,
                            _ => false,
                        };
                        if closing {
                            run.on_write_closed();
                            applied = true;
                        }
                        rec.initiator_run = Some(run);
                    },
                    None => {},
                }
                self.connections.insert(id, rec);
                proof {
                    if applied {
                        lemma_remove_then_insert(
                            old(self).conns(),
                            id,
                            final(self).conns()[id],
                        );
                        lemma_wf_after_insert(old(self).conns(), id, final(self).conns()[id]);
                    } else {
                        lemma_reinsert_same(old(self).conns(), id, old(self).conns()[id]);
                    }
                }
                applied
            },
        }
    }

    /// Initiator side: receipt bytes arrived at clock sample `now`. Fewer
    /// than 8 in total are collected silently; the 8th completes the run —
    /// one `Completed` event carrying the receipt's value and the measured
    /// duration; anything past 8 fails the run as a protocol violation.
    /// `None` with nothing changed when the connection hosts no initiator run
    /// awaiting a receipt.
    pub fn on_receipt_data(&mut self, id: u64, now: u64, data: &[u8]) -> (ev: Option<OutcomeEvent>)
        requires
            old(self).wf(),
        ensures
            final(self).wf(),
            ({
                let m = old(self).conns();
                let ready = has_run_in(m, id, Role::Initiator, RunState::AwaitingReceipt) && now
                    >= the_run(m, id, Role::Initiator).stopped_at;
                &&& (!ready ==> ev is None && final(self).conns() == m)
                &&& (ready ==> ({
                    let run = the_run(m, id, Role::Initiator);
                    let run2 = the_run(final(self).conns(), id, Role::Initiator);
                    let total = run.receipt_buf@.len() + data@.len();
                    &&& final(self).conns() == with_run(m, id, Role::Initiator, run2)
                    &&& Run::same_identity(run, run2)
                    &&& run2.started_at == run.started_at
                    &&& run2.bytes_sent == run.bytes_sent
                    &&& (total < codec::RECEIPT_LEN ==> {
                        &&& ev is None
                        &&& run2.state == RunState::AwaitingReceipt
                        &&& run2.receipt_buf@ == run.receipt_buf@ + data@
                    })
                    &&& (total == codec::RECEIPT_LEN ==> {
                        &&& run2.state == RunState::Done
                        &&& ev is Some
                        &&& (ev matches Some(e) ==> {
                            &&& e.connection_id == id
                            &&& e.outcome matches RunOutcome::Completed {
                                duration_ns,
                                bytes_transferred,
                            } && duration_ns == now - run.started_at && bytes_transferred as nat
                                == codec::be_value(run.receipt_buf@ + data@) && (
                            run.config.target_bytes is None ==> duration_ns
                                >= run.config.target_duration_ns->Some_0)
                        })
                    })
                    &&& (total > codec::RECEIPT_LEN ==> {
                        &&& run2.state == RunState::Aborted
                        &&& ev == Some(
                            (OutcomeEvent {
                                connection_id: id,
                                outcome: RunOutcome::Failed {
                                    reason: FailureReason::ProtocolViolation,
                                },
                            }),
                        )
                    })
                }))
            }),
            forall|j: u64|
                j != id && #[trigger] old(self).conns().contains_key(j)
                    ==> final(self).conns().contains_key(j) && final(self).conns()[j] == old(
                    self,
                ).conns()[j],
    {
        match self.connections.remove(&id) {
            None => {
                proof {
                    lemma_remove_absent(old(self).conns(), id);
                }
                None
            },
            Some(mut rec) => {
                let mut ev: Option<OutcomeEvent> = None;
                let mut touched = false;
                match rec.initiator_run.take() {
                    Some(mut run) => {
                        let awaiting = match run.state {
                            RunState::AwaitingReceipt => true,
                            _ => false,
                        };
                        if awaiting && now >= run.stopped_at {
                            match run.on_receipt_data(now, data) {
                                Some(outcome) => {
                                    ev = Some(OutcomeEvent { connection_id: id, outcome });
                                },
                                None => {},
                            }
                            touched = true;
                        }
                        rec.initiator_run = Some(run);
                    },
                    None => {},
                }
                self.connections.insert(id, rec);
                proof {
                    if touched {
                        lemma_remove_then_insert(
                            old(self).conns(),
                            id,
                            final(self).conns()[id],
                        );
                        lemma_wf_after_insert(old(self).conns(), id, final(self).conns()[id]);
                    } else {
                        lemma_reinsert_same(old(self).conns(), id, old(self).conns()[id]);
                    }
                }
                ev
            },
        }
    }

    /// Initiator side: the peer closed its write side before a full receipt
    /// arrived. A truncated receipt fails the run as a protocol violation.
    pub fn on_receipt_eof(&mut self, id: u64) -> (ev: Option<OutcomeEvent>)
        requires
            old(self).wf(),
        ensures
            final(self).wf(),
            ({
                let m = old(self).conns();
                let applied = has_run_in(m, id, Role::Initiator, RunState::AwaitingReceipt);
                &&& (!applied ==> ev is None && final(self).conns() == m)
                &&& (applied ==> ({
                    let run = the_run(m, id, Role::Initiator);
                    &&& final(self).conns() == with_run(
                        m,
                        id,
                        Role::Initiator,
                        (Run { state: RunState::Aborted, ..run }),
                    )
                    &&& ev == Some(
                        (OutcomeEvent {
                            connection_id: id,
                            outcome: RunOutcome::Failed {
                                reason: FailureReason::ProtocolViolation,
                            },
                        }),
                    )
                }))
            }),
            forall|j: u64|
                j != id && #[trigger] old(self).conns().contains_key(j)
                    ==> final(self).conns().contains_key(j) && final(self).conns()[j] == old(
                    self,
                ).conns()[j],
    {
        match self.connections.remove(&id) {
            None => {
                proof {
                    lemma_remove_absent(old(self).conns(), id);
                }
                None
            },
            Some(mut rec) => {
                let mut ev: Option<OutcomeEvent> = None;
                let mut touched = false;
                match rec.initiator_run.take() {
                    Some(mut run) => {
                        let awaiting = match run.state {
                            RunState::AwaitingReceipt => true,
                            _ => false,
                        };
                        if awaiting {
                            let outcome = run.on_receipt_eof();
                            ev = Some(OutcomeEvent { connection_id: id, outcome });
                            touched = true;
                        }
                        rec.initiator_run = Some(run);
                    },
                    None => {},
                }
                self.connections.insert(id, rec);
                proof {
                    if touched {
                        lemma_remove_then_insert(
                            old(self).conns(),
                            id,
                            final(self).conns()[id],
                        );
                        lemma_wf_after_insert(old(self).conns(), id, final(self).conns()[id]);
                    } else {
                        lemma_reinsert_same(old(self).conns(), id, old(self).conns()[id]);
                    }
                }
                ev
            },
        }
    }

    /// Responder side: the stream yielded `n` more payload bytes at clock
    /// sample `now`. The first byte starts the responder's duration clock.
    pub fn on_payload_read(&mut self, id: u64, now: u64, n: u64) -> (applied: bool)
        requires
            old(self).wf(),
            has_run_in(old(self).conns(), id, Role::Responder, RunState::Streaming) ==> the_run(
                old(self).conns(),
                id,
                Role::Responder,
            ).bytes_received + n <= u64::MAX,
        ensures
            final(self).wf(),
            applied == has_run_in(old(self).conns(), id, Role::Responder, RunState::Streaming),
            !applied ==> final(self).conns() == old(self).conns(),
            applied ==> ({
                let run = the_run(old(self).conns(), id, Role::Responder);
                final(self).conns() == with_run(
                    old(self).conns(),
                    id,
                    Role::Responder,
                    (Run {
                        bytes_received: (run.bytes_received + n) as u64,
                        started_at: if !run.saw_first_byte && n > 0 {
                            now
                        } else {
                            run.started_at
                        },
                        saw_first_byte: run.saw_first_byte || n > 0,
                        ..run
                    }),
                )
            }),
            forall|j: u64|
                j != id && #[trigger] old(self).conns().contains_key(j)
                    ==> final(self).conns().contains_key(j) && final(self).conns()[j] == old(
                    self,
                ).conns()[j],
    {
        match self.connections.remove(&id) {
            None => {
                proof {
                    lemma_remove_absent(old(self).conns(), id);
                }
                false
            },
            Some(mut rec) => {
                let mut applied = false;
                match rec.responder_run.take() {
                    Some(mut run) => {
                        let streaming = match run.state {
                            RunState::Streaming => true,
                            _ => false,
                        };
                        if streaming {
                            run.on_payload_read(now, n);
                            applied = true;
                        }
                        rec.responder_run = Some(run);
                    },
                    None => {},
                }
                self.connections.insert(id, rec);
                proof {
                    if applied {
                        lemma_remove_then_insert(
                            old(self).conns(),
                            id,
                            final(self).conns()[id],
                        );
                        lemma_wf_after_insert(old(self).conns(), id, final(self).conns()[id]);
                    } else {
                        lemma_reinsert_same(old(self).conns(), id, old(self).conns()[id]);
                    }
                }
                applied
            },
        }
    }

    /// Responder side: the initiator's half-close was observed; the payload
    /// is complete. The run encodes its counted total as the receipt and the
    /// returned bytes are exactly what the event loop must now write back.
    pub fn on_payload_eof(&mut self, id: u64) -> (receipt: Option<Vec<u8>>)
        requires
            old(self).wf(),
        ensures
            final(self).wf(),
            ({
                let m = old(self).conns();
                let applied = has_run_in(m, id, Role::Responder, RunState::Streaming);
                &&& (!applied ==> receipt is None && final(self).conns() == m)
                &&& (applied ==> ({
                    let run = the_run(m, id, Role::Responder);
                    let run2 = the_run(final(self).conns(), id, Role::Responder);
                    &&& final(self).conns() == with_run(m, id, Role::Responder, run2)
                    &&& run2 == (Run {
                        state: RunState::Echoing,
                        receipt_out: run2.receipt_out,
                        ..run
                    })
                    &&& run2.receipt_written == 0
                    &&& receipt is Some
                    &&& (receipt matches Some(b) ==> {
                        &&& b@.len() == codec::RECEIPT_LEN
                        &&& codec::be_value(b@) == run.bytes_received
                        &&& run2.receipt_out@ == b@
                    })
                }))
            }),
            forall|j: u64|
                j != id && #[trigger] old(self).conns().contains_key(j)
                    ==> final(self).conns().contains_key(j) && final(self).conns()[j] == old(
                    self,
                ).conns()[j],
    {
        match self.connections.remove(&id) {
            None => {
                proof {
                    lemma_remove_absent(old(self).conns(), id);
                }
                None
            },
            Some(mut rec) => {
                let mut receipt: Option<Vec<u8>> = None;
                let mut touched = false;
                match rec.responder_run.take() {
                    Some(mut run) => {
                        let streaming = match run.state {
                            RunState::Streaming => true,
                            _ => false,
                        };
                        if streaming {
                            run.on_payload_eof();
                            let bytes = run.receipt_remaining();
                            proof {
                                assert(run.receipt_out@.subrange(
                                    0,
                                    run.receipt_out@.len() as int,
                                ) =~= run.receipt_out@);
                            }
                            receipt = Some(bytes);
                            touched = true;
                        }
                        rec.responder_run = Some(run);
                    },
                    None => {},
                }
                self.connections.insert(id, rec);
                proof {
                    if touched {
                        lemma_remove_then_insert(
                            old(self).conns(),
                            id,
                            final(self).conns()[id],
                        );
                        lemma_wf_after_insert(old(self).conns(), id, final(self).conns()[id]);
                    } else {
                        lemma_reinsert_same(old(self).conns(), id, old(self).conns()[id]);
                    }
                }
                receipt
            },
        }
    }

    /// Responder side: the stream accepted `n` more receipt bytes at clock
    /// sample `now`. The 8th completes the run, vouching for exactly the
    /// counted payload total.
    pub fn on_receipt_written(&mut self, id: u64, now: u64, n: usize) -> (ev: Option<OutcomeEvent>)
        requires
            old(self).wf(),
        ensures
            final(self).wf(),
            ({
                let m = old(self).conns();
                let ready = has_run_in(m, id, Role::Responder, RunState::Echoing) && n
                    <= codec::RECEIPT_LEN - the_run(m, id, Role::Responder).receipt_written && (
                the_run(m, id, Role::Responder).saw_first_byte ==> now >= the_run(
                    m,
                    id,
                    Role::Responder,
                ).started_at);
                &&& (!ready ==> ev is None && final(self).conns() == m)
                &&& (ready ==> ({
                    let run = the_run(m, id, Role::Responder);
                    let written = run.receipt_written + n;
                    &&& (written == codec::RECEIPT_LEN ==> {
                        &&& final(self).conns() == with_run(
                            m,
                            id,
                            Role::Responder,
                            (Run {
                                state: RunState::Done,
                                receipt_written: written as usize,
                                ..run
                            }),
                        )
                        &&& ev == Some(
                            (OutcomeEvent {
                                connection_id: id,
                                outcome: RunOutcome::Completed {
                                    duration_ns: if run.saw_first_byte {
                                        (now - run.started_at) as u64
                                    } else {
                                        0
                                    },
                                    bytes_transferred: run.bytes_received,
                                },
                            }),
                        )
                    })
                    &&& (written < codec::RECEIPT_LEN ==> {
                        &&& final(self).conns() == with_run(
                            m,
                            id,
                            Role::Responder,
                            (Run { receipt_written: written as usize, ..run }),
                        )
                        &&& ev is None
                    })
                }))
            }),
            forall|j: u64|
                j != id && #[trigger] old(self).conns().contains_key(j)
                    ==> final(self).conns().contains_key(j) && final(self).conns()[j] == old(
                    self,
                ).conns()[j],
    {
        match self.connections.remove(&id) {
            None => {
                proof {
                    lemma_remove_absent(old(self).conns(), id);
                }
                None
            },
            Some(mut rec) => {
                let mut ev: Option<OutcomeEvent> = None;
                let mut touched = false;
                match rec.responder_run.take() {
                    Some(mut run) => {
                        let echoing = match run.state {
                            RunState::Echoing => true,
                            _ => false,
                        };
                        if echoing && n <= codec::RECEIPT_LEN - run.receipt_written && (
                        !run.saw_first_byte || now >= run.started_at) {
                            match run.on_receipt_written(now, n) {
                                Some(outcome) => {
                                    ev = Some(OutcomeEvent { connection_id: id, outcome });
                                },
                                None => {},
                            }
                            touched = true;
                        }
                        rec.responder_run = Some(run);
                    },
                    None => {},
                }
                self.connections.insert(id, rec);
                proof {
                    if touched {
                        lemma_remove_then_insert(
                            old(self).conns(),
                            id,
                            final(self).conns()[id],
                        );
                        lemma_wf_after_insert(old(self).conns(), id, final(self).conns()[id]);
                    } else {
                        lemma_reinsert_same(old(self).conns(), id, old(self).conns()[id]);
                    }
                }
                ev
            },
        }
    }

    /// The stream under one role's run failed. A run still in flight aborts
    /// with `IoError` and yields its one failure event; a terminal or absent
    /// run yields nothing.
    pub fn on_stream_error(&mut self, id: u64, role: Role) -> (ev: Option<OutcomeEvent>)
        requires
            old(self).wf(),
        ensures
            final(self).wf(),
            ({
                let m = old(self).conns();
                let live = m.contains_key(id) && (run_slot(m[id], role) matches Some(run)
                    && !run.is_terminal());
                &&& (!live ==> ev is None && final(self).conns() == m)
                &&& (live ==> ({
                    let run = the_run(m, id, role);
                    &&& final(self).conns() == with_run(
                        m,
                        id,
                        role,
                        (Run { state: RunState::Aborted, ..run }),
                    )
                    &&& ev == Some(
                        (OutcomeEvent {
                            connection_id: id,
                            outcome: RunOutcome::Failed { reason: FailureReason::IoError },
                        }),
                    )
                }))
            }),
            forall|j: u64|
                j != id && #[trigger] old(self).conns().contains_key(j)
                    ==> final(self).conns().contains_key(j) && final(self).conns()[j] == old(
                    self,
                ).conns()[j],
    {
        match self.connections.remove(&id) {
            None => {
                proof {
                    lemma_remove_absent(old(self).conns(), id);
                }
                None
            },
            Some(mut rec) => {
                let mut ev: Option<OutcomeEvent> = None;
                let mut touched = false;
                let slot = match role {
                    Role::Initiator => rec.initiator_run.take(),
                    Role::Responder => rec.responder_run.take(),
                };
                let back = match slot {
                    Some(mut run) => {
                        match run.abort(FailureReason::IoError) {
                            Some(outcome) => {
                                ev = Some(OutcomeEvent { connection_id: id, outcome });
                                touched = true;
                            },
                            None => {},
                        }
                        Some(run)
                    },
                    None => None,
                };
                match role {
                    Role::Initiator => rec.initiator_run = back,
                    Role::Responder => rec.responder_run = back,
                }
                self.connections.insert(id, rec);
                proof {
                    if touched {
                        lemma_remove_then_insert(
                            old(self).conns(),
                            id,
                            final(self).conns()[id],
                        );
                        lemma_wf_after_insert(old(self).conns(), id, final(self).conns()[id]);
                    } else {
                        lemma_reinsert_same(old(self).conns(), id, old(self).conns()[id]);
                    }
                }
                ev
            },
        }
    }

    /// Whether a connection identifier is currently tracked.
    pub fn tracks(&self, id: u64) -> (b: bool)
        ensures
            b == self.conns().contains_key(id),
    {
        self.connections.contains_key(&id)
    }

    /// The payload bytes the streaming initiator run on `id` has sent so far;
    /// the event loop consults this before reporting more accepted bytes.
    pub fn initiator_bytes_sent(&self, id: u64) -> (r: Option<u64>)
        ensures
            r == if self.conns().contains_key(id) && run_slot(
                self.conns()[id],
                Role::Initiator,
            ) is Some {
                Some(the_run(self.conns(), id, Role::Initiator).bytes_sent)
            } else {
                None::<u64>
            },
    {
        match self.connections.get(&id) {
            Some(rec) => match &rec.initiator_run {
                Some(run) => Some(run.bytes_sent),
                None => None,
            },
            None => None,
        }
    }

    /// The payload bytes the responder run on `id` has counted so far.
    pub fn responder_bytes_received(&self, id: u64) -> (r: Option<u64>)
        ensures
            r == if self.conns().contains_key(id) && run_slot(
                self.conns()[id],
                Role::Responder,
            ) is Some {
                Some(the_run(self.conns(), id, Role::Responder).bytes_received)
            } else {
                None::<u64>
            },
    {
        match self.connections.get(&id) {
            Some(rec) => match &rec.responder_run {
                Some(run) => Some(run.bytes_received),
                None => None,
            },
            None => None,
        }
    }
}

/// Whether connection `id` is tracked and holds a run for `role` currently
/// in state `s`.
pub open spec fn has_run_in(m: Map<u64, ConnectionRecord>, id: u64, role: Role, s: RunState) -> bool {
    &&& m.contains_key(id)
    &&& run_slot(m[id], role) matches Some(run) && run.state == s
}

/// The run connection `id` holds for `role`.
pub open spec fn the_run(m: Map<u64, ConnectionRecord>, id: u64, role: Role) -> Run
    recommends
        m.contains_key(id),
        run_slot(m[id], role) is Some,
{
    run_slot(m[id], role)->Some_0
}

/// The map with connection `id`'s run for `role` replaced by `r` and every
/// other connection untouched.
pub open spec fn with_run(m: Map<u64, ConnectionRecord>, id: u64, role: Role, r: Run) -> Map<
    u64,
    ConnectionRecord,
> {
    m.insert(id, with_run_slot(m[id], role, Some(r)))
}

/// A run as it looks the moment streaming begins: fresh counters, and the
/// clock recorded only on the initiator side (the responder's clock starts at
/// its first observed payload byte).
pub open spec fn started_streaming(r: Run, role: Role, config: RunConfig, now: u64) -> bool {
    &&& r.role == role
    &&& r.config == config
    &&& r.state == RunState::Streaming
    &&& r.bytes_sent == 0
    &&& r.bytes_received == 0
    &&& r.receipt_buf@.len() == 0
    &&& r.receipt_out@.len() == 0
    &&& r.receipt_written == 0
    &&& !r.saw_first_byte
    &&& (role == Role::Initiator ==> r.started_at == now && r.stopped_at == now)
    &&& (role == Role::Responder ==> r.started_at == 0 && r.stopped_at == 0)
}

/// The event that aborting a slot on connection teardown yields: the one
/// `ConnectionLost` failure for a run still in flight, and nothing for an
/// empty slot or a run that already reported its outcome.
pub open spec fn abort_event(id: u64, slot: Option<Run>) -> Option<OutcomeEvent> {
    match slot {
        Some(run) => if run.is_terminal() {
            None
        } else {
            Some(
                OutcomeEvent {
                    connection_id: id,
                    outcome: RunOutcome::Failed { reason: FailureReason::ConnectionLost },
                },
            )
        },
        None => None,
    }
}

} // verus!
