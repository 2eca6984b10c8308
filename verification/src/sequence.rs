use vstd::prelude::*;

use crate::bridge::{AwaitOutcome, BridgeCell, Bridges};
use crate::buffer::{filled_cstr, DmaBuf};
use crate::qpair::{IoKind, QueuePair};
use crate::registry::Registry;

verus! {

/// The typed failures of one I/O sequence, by layer: queue-pair allocation,
/// buffer allocation, synchronous submission rejection, and asynchronous
/// completion failure of either command, carrying the hardware's status
/// code.
#[derive(Debug, Clone, Copy, PartialEq, Eq, Structural)]
pub enum IoError {
    QueuePairAllocationFailed,
    BufferAllocationFailed,
    SubmitRejected,
    WriteFailed { status: i32 },
    ReadFailed { status: i32 },
}

/// Where one write-then-read sequence stands: awaiting its write, awaiting
/// the chained read, completed with the read buffer, or failed.
pub enum SequenceState {
    AwaitingWrite { awaiter: crate::bridge::Awaiter },
    AwaitingRead { awaiter: crate::bridge::Awaiter },
    Completed { buf: DmaBuf },
    Failed { error: IoError },
}

/// One in-flight write-then-read command chain against a namespace.
///
/// The chain owns its DMA buffer through the bridge cells: the write buffer
/// travels out with the write command and back with its completion, where it
/// is released and replaced by a fresh zeroed buffer for the read; the
/// caller-visible result only becomes available once the read completes.
/// `ns` is the arena index of the namespace record the chain targets.
pub struct IoSequence {
    pub ns: usize,
    pub lba: u64,
    pub blocks: u64,
    pub size: usize,
    pub using_cmb: bool,
    pub state: SequenceState,
}

impl IoSequence {
    /// The sequence still waits on a completion.
    pub open spec fn is_awaiting(self) -> bool {
        self.state is AwaitingWrite || self.state is AwaitingRead
    }

    /// The sequence has yielded its caller-visible outcome.
    pub open spec fn done(self) -> bool {
        !self.is_awaiting()
    }

    /// The bridge cell the sequence currently waits on.
    pub open spec fn awaited_id(self) -> int {
        match self.state {
            SequenceState::AwaitingWrite { awaiter } => awaiter.id(),
            SequenceState::AwaitingRead { awaiter } => awaiter.id(),
            SequenceState::Completed { .. } => -1,
            SequenceState::Failed { .. } => -1,
        }
    }

    /// The sequence and the bridge table agree: while the sequence waits,
    /// its cell exists and its result has not been taken.
    pub open spec fn coupled(self, cells: Seq<BridgeCell>) -> bool {
        self.is_awaiting() ==> {
            &&& 0 <= self.awaited_id() < cells.len()
            &&& !(cells[self.awaited_id()] is Taken)
        }
    }

    /// The sequence targets the same transfer as `other`.
    pub open spec fn same_target(self, other: IoSequence) -> bool {
        &&& self.ns == other.ns
        &&& self.lba == other.lba
        &&& self.blocks == other.blocks
        &&& self.size == other.size
        &&& self.using_cmb == other.using_cmb
    }
}

/// Pick the transfer buffer the way the workload allocates one: the
/// controller-memory buffer when the controller granted one, else the
/// host-memory buffer, and a typed failure when neither allocation
/// succeeded. The flag says which source was used.
pub fn select_io_buffer(cmb: Option<DmaBuf>, host: Option<DmaBuf>) -> (r: Result<
    (DmaBuf, bool),
    IoError,
>)
    ensures
        (cmb matches Some(b) ==> r matches Ok(p) && p.0 == b && p.1 == true),
        cmb is None ==> (host matches Some(b) ==> r matches Ok(p) && p.0 == b && p.1 == false),
        cmb is None && host is None ==> r == Result::<(DmaBuf, bool), IoError>::Err(
            IoError::BufferAllocationFailed,
        ),
{
    match cmb {
        Some(b) => Ok((b, true)),
        None => match host {
            Some(b) => Ok((b, false)),
            None => Err(IoError::BufferAllocationFailed),
        },
    }
}

/// Start one write-then-read chain: format `content` into the transfer
/// buffer and submit the write at `lba`, bound to a fresh completion bridge.
///
/// A missing buffer — both allocations failed — aborts the attempt before
/// any bridge is registered and mutates nothing. A synchronous submission
/// rejection likewise registers no bridge; the filled buffer is dropped, as
/// no command owns it.
pub fn begin_sequence(
    ns: usize,
    lba: u64,
    blocks: u64,
    content: &[u8],
    buf: Option<DmaBuf>,
    using_cmb: bool,
    qp: &mut QueuePair,
    bridges: &mut Bridges,
) -> (r: Result<IoSequence, IoError>)
    requires
        old(qp).is_open(),
        old(qp).coupled(old(bridges)@),
        buf matches Some(b) ==> b@.len() >= 1,
    ensures
        final(qp).is_open(),
        final(qp).coupled(final(bridges)@),
        final(qp).depth() == old(qp).depth(),
        final(qp).handle_id() == old(qp).handle_id(),
        final(qp).reported() == old(qp).reported(),
        buf is None ==> {
            &&& r == Result::<IoSequence, IoError>::Err(IoError::BufferAllocationFailed)
            &&& *final(qp) == *old(qp)
            &&& final(bridges)@ == old(bridges)@
        },
        (buf matches Some(b) ==> {
            &&& old(qp).outstanding().len() >= old(qp).depth() ==> {
                &&& r == Result::<IoSequence, IoError>::Err(IoError::SubmitRejected)
                &&& final(qp).outstanding() == old(qp).outstanding()
                &&& final(bridges)@ == old(bridges)@
            }
            &&& old(qp).outstanding().len() < old(qp).depth() ==> {
            &&& r matches Ok(s)
            &&& s.ns == ns && s.lba == lba && s.blocks == blocks
            &&& s.size == b@.len()
            &&& s.using_cmb == using_cmb
            &&& s.state matches SequenceState::AwaitingWrite { awaiter } && awaiter.id() == old(
                bridges,
            )@.len()
            &&& s.coupled(final(bridges)@)
            &&& final(bridges)@ == old(bridges)@.push(BridgeCell::Pending)
            &&& final(qp).outstanding().len() == old(qp).outstanding().len() + 1
            &&& final(qp).outstanding().take(old(qp).outstanding().len() as int) == old(
                qp,
            ).outstanding()
            &&& final(qp).outstanding().last().kind == IoKind::Write
            &&& final(qp).outstanding().last().lba == lba
            &&& final(qp).outstanding().last().blocks == blocks
            &&& final(qp).outstanding().last().bridge_id() == old(bridges)@.len()
            &&& final(qp).outstanding().last().buf@ == filled_cstr(b@, content@)
            }
        }),
{
    let mut wbuf = match buf {
        None => {
            return Err(IoError::BufferAllocationFailed);
        },
        Some(b) => b,
    };
    let size = wbuf.len();
    wbuf.fill_cstr(content);
    match qp.submit_write(bridges, lba, blocks, wbuf) {
        Err(_e) => Err(IoError::SubmitRejected),
        Ok(awaiter) => Ok(
            IoSequence {
                ns,
                lba,
                blocks,
                size,
                using_cmb,
                state: SequenceState::AwaitingWrite { awaiter },
            },
        ),
    }
}

/// Advance one chain by observing its completion bridge once, without
/// blocking: the driver pumps the queue pair between steps.
///
/// A step on a waiting chain whose completion has not fired returns it
/// unchanged. When the write completion fires, its buffer is released, a
/// fresh zeroed buffer is allocated, and the chained read is submitted at
/// the same logical block address before the caller sees anything — a
/// failed write completion or a rejected read submission fails the chain
/// instead. When the read completion fires, the chain completes with the
/// read buffer, or fails with the hardware's status.
pub fn step_sequence(s: IoSequence, qp: &mut QueuePair, bridges: &mut Bridges) -> (r: IoSequence)
    requires
        old(qp).is_open(),
        old(qp).coupled(old(bridges)@),
        s.coupled(old(bridges)@),
    ensures
        final(qp).is_open(),
        final(qp).depth() == old(qp).depth(),
        final(qp).handle_id() == old(qp).handle_id(),
        final(qp).reported() == old(qp).reported(),
        final(qp).coupled(final(bridges)@),
        r.coupled(final(bridges)@),
        r.same_target(s),
        s.done() ==> r == s && *final(qp) == *old(qp) && final(bridges)@ == old(bridges)@,
        (s.state matches SequenceState::AwaitingWrite { awaiter } ==> {
            &&& old(bridges)@[awaiter.id()] is Pending ==> {
                &&& r.state matches SequenceState::AwaitingWrite { awaiter: a2 } && a2.id()
                    == awaiter.id()
                &&& *final(qp) == *old(qp)
                &&& final(bridges)@ == old(bridges)@
            }
            &&& (old(bridges)@[awaiter.id()] matches BridgeCell::Resolved { status, buf } ==> {
                &&& status != 0 ==> {
                    &&& r.state == (SequenceState::Failed {
                        error: IoError::WriteFailed { status },
                    })
                    &&& *final(qp) == *old(qp)
                    &&& final(bridges)@ == old(bridges)@.update(awaiter.id(), BridgeCell::Taken)
                }
                &&& status == 0 ==> {
                    &&& old(qp).outstanding().len() < old(qp).depth() ==> {
                        &&& r.state matches SequenceState::AwaitingRead { awaiter: a2 } && a2.id()
                            == old(bridges)@.len()
                        &&& final(bridges)@ == old(bridges)@.update(
                            awaiter.id(),
                            BridgeCell::Taken,
                        ).push(BridgeCell::Pending)
                        &&& final(qp).outstanding().len() == old(qp).outstanding().len() + 1
                        &&& final(qp).outstanding().take(old(qp).outstanding().len() as int) == old(
                            qp,
                        ).outstanding()
                        &&& final(qp).outstanding().last().kind == IoKind::Read
                        &&& final(qp).outstanding().last().lba == s.lba
                        &&& final(qp).outstanding().last().blocks == s.blocks
                        &&& final(qp).outstanding().last().bridge_id() == old(bridges)@.len()
                        &&& final(qp).outstanding().last().buf@ == Seq::new(
                            s.size as nat,
                            |i: int| 0u8,
                        )
                    }
                    &&& old(qp).outstanding().len() >= old(qp).depth() ==> {
                        &&& r.state == (SequenceState::Failed { error: IoError::SubmitRejected })
                        &&& final(qp).outstanding() == old(qp).outstanding()
                        &&& final(bridges)@ == old(bridges)@.update(
                            awaiter.id(),
                            BridgeCell::Taken,
                        )
                    }
                }
            })
        }),
        (s.state matches SequenceState::AwaitingRead { awaiter } ==> {
            &&& old(bridges)@[awaiter.id()] is Pending ==> {
                &&& r.state matches SequenceState::AwaitingRead { awaiter: a2 } && a2.id()
                    == awaiter.id()
                &&& *final(qp) == *old(qp)
                &&& final(bridges)@ == old(bridges)@
            }
            &&& (old(bridges)@[awaiter.id()] matches BridgeCell::Resolved { status, buf } ==> {
                &&& *final(qp) == *old(qp)
                &&& final(bridges)@ == old(bridges)@.update(awaiter.id(), BridgeCell::Taken)
                &&& status != 0 ==> r.state == (SequenceState::Failed {
                    error: IoError::ReadFailed { status },
                })
                &&& status == 0 ==> r.state == (SequenceState::Completed { buf })
            })
        }),
{
    let ghost qp0 = *qp;
    let ghost cells0 = bridges@;
    let ghost s0 = s;
    let IoSequence { ns, lba, blocks, size, using_cmb, state } = s;
    match state {
        SequenceState::Completed { buf } => IoSequence {
            ns,
            lba,
            blocks,
            size,
            using_cmb,
            state: SequenceState::Completed { buf },
        },
        SequenceState::Failed { error } => IoSequence {
            ns,
            lba,
            blocks,
            size,
            using_cmb,
            state: SequenceState::Failed { error },
        },
        SequenceState::AwaitingWrite { awaiter } => {
            proof {
                assert(s0.coupled(cells0));
            }
            match bridges.await_result(awaiter) {
                AwaitOutcome::NotYet { awaiter } => IoSequence {
                    ns,
                    lba,
                    blocks,
                    size,
                    using_cmb,
                    state: SequenceState::AwaitingWrite { awaiter },
                },
                AwaitOutcome::Ready { status, buf: wbuf } => {
                    proof {
                        crate::qpair::lemma_coupled_after_update(
                            qp0,
                            cells0,
                            s0.awaited_id(),
                            BridgeCell::Taken,
                        );
                    }
                    if status != 0 {
                        IoSequence {
                            ns,
                            lba,
                            blocks,
                            size,
                            using_cmb,
                            state: SequenceState::Failed {
                                error: IoError::WriteFailed { status },
                            },
                        }
                    } else {
                        let rbuf = DmaBuf::zeroed(size);
                        match qp.submit_read(bridges, lba, blocks, rbuf) {
                            Ok(a2) => IoSequence {
                                ns,
                                lba,
                                blocks,
                                size,
                                using_cmb,
                                state: SequenceState::AwaitingRead { awaiter: a2 },
                            },
                            Err(_e) => IoSequence {
                                ns,
                                lba,
                                blocks,
                                size,
                                using_cmb,
                                state: SequenceState::Failed { error: IoError::SubmitRejected },
                            },
                        }
                    }
                },
            }
        },
        SequenceState::AwaitingRead { awaiter } => {
            proof {
                assert(s0.coupled(cells0));
            }
            match bridges.await_result(awaiter) {
                AwaitOutcome::NotYet { awaiter } => IoSequence {
                    ns,
                    lba,
                    blocks,
                    size,
                    using_cmb,
                    state: SequenceState::AwaitingRead { awaiter },
                },
                AwaitOutcome::Ready { status, buf: rbuf } => {
                    proof {
                        crate::qpair::lemma_coupled_after_update(
                            qp0,
                            cells0,
                            s0.awaited_id(),
                            BridgeCell::Taken,
                        );
                    }
                    if status != 0 {
                        IoSequence {
                            ns,
                            lba,
                            blocks,
                            size,
                            using_cmb,
                            state: SequenceState::Failed { error: IoError::ReadFailed { status } },
                        }
                    } else {
                        IoSequence {
                            ns,
                            lba,
                            blocks,
                            size,
                            using_cmb,
                            state: SequenceState::Completed { buf: rbuf },
                        }
                    }
                },
            }
        },
    }
}

/// Set one namespace's I/O going, as the exercise workload does: take the
/// queue pair the controller allocated, pick the transfer buffer, and start
/// the write-then-read chain against logical block address `lba`.
///
/// The registry is only read, never written, whatever the outcome. A failed
/// queue-pair allocation aborts this namespace's attempt before any
/// completion bridge is registered; so does a failed buffer allocation.
/// Success is owed whenever both allocations succeeded: a fresh queue pair
/// has room for the first submission.
pub fn start_namespace_io(
    reg: &Registry,
    ns_index: usize,
    qpair_raw: Option<u64>,
    depth: usize,
    cmb: Option<DmaBuf>,
    host: Option<DmaBuf>,
    content: &[u8],
    lba: u64,
    blocks: u64,
    bridges: &mut Bridges,
) -> (r: Result<(QueuePair, IoSequence), IoError>)
    requires
        depth >= 1,
        ns_index < reg.namespaces().len(),
        cmb matches Some(b) ==> b@.len() >= 1,
        host matches Some(b) ==> b@.len() >= 1,
    ensures
        qpair_raw is None ==> {
            &&& r == Result::<(QueuePair, IoSequence), IoError>::Err(
                IoError::QueuePairAllocationFailed,
            )
            &&& final(bridges)@ == old(bridges)@
        },
        qpair_raw is Some && cmb is None && host is None ==> {
            &&& r == Result::<(QueuePair, IoSequence), IoError>::Err(
                IoError::BufferAllocationFailed,
            )
            &&& final(bridges)@ == old(bridges)@
        },
        (qpair_raw matches Some(h) ==> (cmb is Some || host is Some) ==> {
            &&& r matches Ok(p)
            &&& p.0.is_open()
            &&& p.0.handle_id() == h
            &&& p.0.depth() == depth
            &&& p.0.reported().len() == 0
            &&& p.0.outstanding().len() == 1
            &&& p.0.outstanding()[0].kind == IoKind::Write
            &&& p.0.outstanding()[0].lba == lba
            &&& p.0.outstanding()[0].blocks == blocks
            &&& p.0.outstanding()[0].bridge_id() == old(bridges)@.len()
            &&& p.0.coupled(final(bridges)@)
            &&& p.1.ns == ns_index && p.1.lba == lba && p.1.blocks == blocks
            &&& p.1.using_cmb == (cmb is Some)
            &&& p.1.state matches SequenceState::AwaitingWrite { awaiter } && awaiter.id() == old(
                bridges,
            )@.len()
            &&& p.1.coupled(final(bridges)@)
            &&& final(bridges)@ == old(bridges)@.push(BridgeCell::Pending)
            &&& (cmb matches Some(b) ==> p.0.outstanding()[0].buf@ == filled_cstr(b@, content@)
                && p.1.size == b@.len())
            &&& cmb is None ==> (host matches Some(b) ==> p.0.outstanding()[0].buf@ == filled_cstr(
                b@,
                content@,
            ) && p.1.size == b@.len())
        }),
{
    let raw = match qpair_raw {
        None => {
            return Err(IoError::QueuePairAllocationFailed);
        },
        Some(h) => h,
    };
    let mut qp = match QueuePair::allocate(Some(raw), depth) {
        Err(_e) => {
            return Err(IoError::QueuePairAllocationFailed);
        },
        Ok(qp) => qp,
    };
    let (buf, using_cmb) = match select_io_buffer(cmb, host) {
        Err(e) => {
            return Err(e);
        },
        Ok(p) => p,
    };
    match begin_sequence(ns_index, lba, blocks, content, Some(buf), using_cmb, &mut qp, bridges) {
        Err(e) => Err(e),
        Ok(seq) => Ok((qp, seq)),
    }
}

} // verus!
