use vstd::prelude::*;

use crate::bridge::{can_resolve, Awaiter, BridgeCell, Bridges, Resolver};
use crate::buffer::DmaBuf;

verus! {

/// Updating a cell that is past pending — observing a resolved result, or
/// closing a taken cell — never disturbs a queue pair's coupling: every
/// command still inside the pair points at a pending cell, so the updated
/// cell is not one of theirs.
pub proof fn lemma_coupled_after_update(
    qp: QueuePair,
    cells: Seq<BridgeCell>,
    id: int,
    cell: BridgeCell,
)
    requires
        qp.coupled(cells),
        0 <= id < cells.len(),
        !(cells[id] is Pending),
    ensures
        qp.coupled(cells.update(id, cell)),
{
    let cells1 = cells.update(id, cell);
    assert forall|i: int| 0 <= i < qp.outstanding().len() implies can_resolve(
        cells1,
        (#[trigger] qp.outstanding()[i]).bridge_id(),
    ) by {
        assert(can_resolve(cells, qp.outstanding()[i].bridge_id()));
    }
    assert forall|i: int| 0 <= i < qp.reported().len() implies can_resolve(
        cells1,
        (#[trigger] qp.reported()[i]).bridge_id(),
    ) by {
        assert(can_resolve(cells, qp.reported()[i].bridge_id()));
    }
}

/// The two NVMe data commands this layer submits.
#[derive(Debug, Clone, Copy, PartialEq, Eq, Structural)]
pub enum IoKind {
    Write,
    Read,
}

/// Queue-pair allocation is requested from the controller; when the
/// controller cannot supply one, the I/O attempt for that namespace is
/// aborted with this error.
#[derive(Debug, Clone, Copy, PartialEq, Eq, Structural)]
pub enum AllocationError {
    QueuePairAllocationFailed,
}

/// A submission the hardware rejected synchronously: no completion will ever
/// fire for it and no awaiter exists.
#[derive(Debug, Clone, Copy, PartialEq, Eq, Structural)]
pub enum SubmitError {
    QueueFull,
}

/// A command handed to the hardware and not yet completed. It owns its DMA
/// buffer and the resolver of the bridge its completion callback will fire.
pub struct Submitted {
    pub resolver: Resolver,
    pub kind: IoKind,
    pub lba: u64,
    pub blocks: u64,
    pub buf: DmaBuf,
}

/// A completion the hardware has reported on a queue pair that the polling
/// loop has not yet processed.
pub struct Reported {
    pub resolver: Resolver,
    pub status: i32,
    pub buf: DmaBuf,
}

impl Submitted {
    pub open spec fn bridge_id(self) -> int {
        self.resolver.id()
    }
}

impl Reported {
    pub open spec fn bridge_id(self) -> int {
        self.resolver.id()
    }
}

/// A per-namespace submission/completion channel.
///
/// There is no internal synchronization: exactly one logical owner submits to
/// and polls a queue pair over its lifetime, which Rust's ownership of this
/// value enforces. `outstanding` holds the commands the hardware is working
/// on; `reported` the completions it has delivered, in the order it reported
/// them, waiting to be pumped.
pub struct QueuePair {
    handle: u64,
    open: bool,
    depth: usize,
    outstanding: Vec<Submitted>,
    reported: Vec<Reported>,
}

impl QueuePair {
    pub closed spec fn is_open(self) -> bool {
        self.open
    }

    pub closed spec fn depth(self) -> int {
        self.depth as int
    }

    pub closed spec fn handle_id(self) -> u64 {
        self.handle
    }

    pub closed spec fn outstanding(self) -> Seq<Submitted> {
        self.outstanding@
    }

    pub closed spec fn reported(self) -> Seq<Reported> {
        self.reported@
    }

    /// The queue pair and the bridge table agree: every command still inside
    /// the pair points at a pending cell, and no two commands share a cell.
    pub open spec fn coupled(self, cells: Seq<BridgeCell>) -> bool {
        let out = self.outstanding();
        let rep = self.reported();
        &&& forall|i: int| 0 <= i < out.len() ==> can_resolve(cells, (#[trigger] out[i]).bridge_id())
        &&& forall|i: int| 0 <= i < rep.len() ==> can_resolve(cells, (#[trigger] rep[i]).bridge_id())
        &&& forall|i: int, j: int|
            0 <= i < j < out.len() ==> (#[trigger] out[i]).bridge_id() != (
            #[trigger] out[j]).bridge_id()
        &&& forall|i: int, j: int|
            0 <= i < j < rep.len() ==> (#[trigger] rep[i]).bridge_id() != (
            #[trigger] rep[j]).bridge_id()
        &&& forall|i: int, j: int|
            0 <= i < out.len() && 0 <= j < rep.len() ==> (#[trigger] out[i]).bridge_id() != (
            #[trigger] rep[j]).bridge_id()
    }

    /// How many completions one `pump` call with cap `max` processes out of
    /// `avail` pending ones: all of them when the cap is zero or generous,
    /// else the cap.
    pub open spec fn pump_count(max: int, avail: int) -> int {
        if max == 0 || max > avail {
            avail
        } else {
            max
        }
    }

    /// Wrap the queue pair the controller allocated, or surface the
    /// allocation failure. `raw` is the handle the controller returned, if
    /// any; `depth` is the submission-queue depth it was created with.
    pub fn allocate(raw: Option<u64>, depth: usize) -> (r: Result<QueuePair, AllocationError>)
        requires
            depth >= 1,
        ensures
            raw is None ==> r == Result::<QueuePair, AllocationError>::Err(
                AllocationError::QueuePairAllocationFailed,
            ),
            (raw matches Some(h) ==> r matches Ok(qp) && {
                &&& qp.is_open()
                &&& qp.handle_id() == h
                &&& qp.depth() == depth
                &&& qp.outstanding() == Seq::<Submitted>::empty()
                &&& qp.reported() == Seq::<Reported>::empty()
            }),
    {
        match raw {
            None => Err(AllocationError::QueuePairAllocationFailed),
            Some(handle) => Ok(
                QueuePair {
                    handle,
                    open: true,
                    depth,
                    outstanding: Vec::new(),
                    reported: Vec::new(),
                },
            ),
        }
    }

    /// What submitting a command leaves behind. With room in the submission
    /// queue the command joins the outstanding set with a fresh pending
    /// bridge and the caller holds its awaiter; a full queue is a
    /// synchronous rejection that leaves every structure unchanged and
    /// produces no awaiter.
    pub open spec fn submit_post(
        pre: QueuePair,
        pre_cells: Seq<BridgeCell>,
        post: QueuePair,
        post_cells: Seq<BridgeCell>,
        r: Result<Awaiter, SubmitError>,
        kind: IoKind,
        lba: u64,
        blocks: u64,
        buf: DmaBuf,
    ) -> bool {
        &&& post.is_open()
        &&& post.depth() == pre.depth()
        &&& post.handle_id() == pre.handle_id()
        &&& post.reported() == pre.reported()
        &&& post.coupled(post_cells)
        &&& pre.outstanding().len() >= pre.depth() ==> {
            &&& r == Result::<Awaiter, SubmitError>::Err(SubmitError::QueueFull)
            &&& post.outstanding() == pre.outstanding()
            &&& post_cells == pre_cells
        }
        &&& pre.outstanding().len() < pre.depth() ==> {
            &&& r matches Ok(a) && a.id() == pre_cells.len()
            &&& post_cells == pre_cells.push(BridgeCell::Pending)
            &&& post.outstanding().len() == pre.outstanding().len() + 1
            &&& post.outstanding().take(pre.outstanding().len() as int) == pre.outstanding()
            &&& post.outstanding().last().bridge_id() == pre_cells.len()
            &&& post.outstanding().last().kind == kind
            &&& post.outstanding().last().lba == lba
            &&& post.outstanding().last().blocks == blocks
            &&& post.outstanding().last().buf == buf
        }
    }

    /// Build a command, bind a fresh completion bridge to it, and hand it to
    /// the hardware.
    pub fn submit(
        &mut self,
        bridges: &mut Bridges,
        kind: IoKind,
        lba: u64,
        blocks: u64,
        buf: DmaBuf,
    ) -> (r: Result<Awaiter, SubmitError>)
        requires
            old(self).is_open(),
            old(self).coupled(old(bridges)@),
        ensures
            Self::submit_post(
                *old(self),
                old(bridges)@,
                *final(self),
                final(bridges)@,
                r,
                kind,
                lba,
                blocks,
                buf,
            ),
    {
        let ghost qp0 = *self;
        let ghost cells0 = bridges@;
        if self.outstanding.len() >= self.depth {
            return Err(SubmitError::QueueFull);
        }
        let (resolver, awaiter) = bridges.new_bridge();
        let entry = Submitted { resolver, kind, lba, blocks, buf };
        self.outstanding.push(entry);
        proof {
            let out0 = qp0.outstanding();
            let out1 = self.outstanding@;
            assert(out1.take(out0.len() as int) =~= out0);
            assert forall|i: int| 0 <= i < out1.len() implies can_resolve(
                bridges@,
                (#[trigger] out1[i]).bridge_id(),
            ) by {
                if i < out0.len() {
                    assert(qp0.coupled(cells0));
                    assert(out1[i] == qp0.outstanding()[i]);
                    assert(can_resolve(cells0, qp0.outstanding()[i].bridge_id()));
                }
            }
            let rep = self.reported@;
            assert(rep == qp0.reported());
            assert forall|i: int| 0 <= i < rep.len() implies can_resolve(
                bridges@,
                (#[trigger] rep[i]).bridge_id(),
            ) by {
                assert(qp0.coupled(cells0));
                assert(can_resolve(cells0, qp0.reported()[i].bridge_id()));
            }
            assert forall|i: int, j: int| 0 <= i < j < out1.len() implies (
            #[trigger] out1[i]).bridge_id() != (#[trigger] out1[j]).bridge_id() by {
                assert(qp0.coupled(cells0));
                assert(out1[i] == qp0.outstanding()[i]);
                assert(can_resolve(cells0, qp0.outstanding()[i].bridge_id()));
                if j < out0.len() {
                    assert(out1[j] == qp0.outstanding()[j]);
                }
            }
            assert forall|i: int, j: int| 0 <= i < j < rep.len() implies (
            #[trigger] rep[i]).bridge_id() != (#[trigger] rep[j]).bridge_id() by {
                assert(qp0.coupled(cells0));
                assert(rep[i] == qp0.reported()[i]);
                assert(rep[j] == qp0.reported()[j]);
            }
            assert forall|i: int, j: int|
                0 <= i < out1.len() && 0 <= j < rep.len() implies (
            #[trigger] out1[i]).bridge_id() != (#[trigger] rep[j]).bridge_id() by {
                assert(qp0.coupled(cells0));
                assert(rep[j] == qp0.reported()[j]);
                assert(can_resolve(cells0, qp0.reported()[j].bridge_id()));
                if i < out0.len() {
                    assert(out1[i] == qp0.outstanding()[i]);
                }
            }
        }
        Ok(awaiter)
    }

    /// Submit a write of `blocks` logical blocks of `buf` at logical block
    /// address `lba`.
    pub fn submit_write(&mut self, bridges: &mut Bridges, lba: u64, blocks: u64, buf: DmaBuf) -> (r:
        Result<Awaiter, SubmitError>)
        requires
            old(self).is_open(),
            old(self).coupled(old(bridges)@),
        ensures
            Self::submit_post(
                *old(self),
                old(bridges)@,
                *final(self),
                final(bridges)@,
                r,
                IoKind::Write,
                lba,
                blocks,
                buf,
            ),
    {
        self.submit(bridges, IoKind::Write, lba, blocks, buf)
    }

    /// Submit a read of `blocks` logical blocks at logical block address
    /// `lba` into `buf`.
    pub fn submit_read(&mut self, bridges: &mut Bridges, lba: u64, blocks: u64, buf: DmaBuf) -> (r:
        Result<Awaiter, SubmitError>)
        requires
            old(self).is_open(),
            old(self).coupled(old(bridges)@),
        ensures
            Self::submit_post(
                *old(self),
                old(bridges)@,
                *final(self),
                final(bridges)@,
                r,
                IoKind::Read,
                lba,
                blocks,
                buf,
            ),
    {
        self.submit(bridges, IoKind::Read, lba, blocks, buf)
    }

    /// Take in one hardware completion report: command `which` of the
    /// outstanding set finished with `status`, and — for a successful read —
    /// the hardware landed `data` at the front of the command's buffer. The
    /// completion joins the pending set in the order reported, behind the
    /// ones already there.
    pub fn report_completion(&mut self, which: usize, status: i32, data: &[u8])
        requires
            old(self).is_open(),
            which < old(self).outstanding().len(),
        ensures
            final(self).is_open(),
            final(self).depth() == old(self).depth(),
            final(self).handle_id() == old(self).handle_id(),
            final(self).outstanding() == old(self).outstanding().remove(which as int),
            ({
                let done = old(self).outstanding()[which as int];
                let rep1 = final(self).reported();
                &&& rep1.len() == old(self).reported().len() + 1
                &&& rep1.take(old(self).reported().len() as int) == old(self).reported()
                &&& rep1.last().bridge_id() == done.bridge_id()
                &&& rep1.last().status == status
                &&& rep1.last().buf@ == (if done.kind is Read && status == 0 {
                    Seq::new(
                        done.buf@.len(),
                        |i: int| if i < data@.len() { data@[i] } else { done.buf@[i] },
                    )
                } else {
                    done.buf@
                })
            }),
            forall|cells: Seq<BridgeCell>|
                old(self).coupled(cells) ==> #[trigger] final(self).coupled(cells),
    {
        let ghost qp0 = *self;
        let mut entry = self.outstanding.remove(which);
        let is_read = match entry.kind {
            IoKind::Read => true,
            IoKind::Write => false,
        };
        if is_read && status == 0 {
            entry.buf.write_prefix(data);
        }
        let Submitted { resolver, buf, .. } = entry;
        self.reported.push(Reported { resolver, status, buf });
        proof {
            let out0 = qp0.outstanding();
            let rep0 = qp0.reported();
            let out1 = self.outstanding@;
            let rep1 = self.reported@;
            assert(rep1.take(rep0.len() as int) =~= rep0);
            assert forall|i: int|
                0 <= i < out1.len() implies out1[i] == out0[
                if i < which { i } else { i + 1 }
            ] by {
                assert(out1 == out0.remove(which as int));
            }
            assert forall|cells: Seq<BridgeCell>|
                qp0.coupled(cells) implies #[trigger] self.coupled(cells) by {
                assert forall|i: int| 0 <= i < out1.len() implies can_resolve(
                    cells,
                    (#[trigger] out1[i]).bridge_id(),
                ) by {
                    let f = if i < which { i } else { i + 1 };
                    assert(out1[i] == out0[f]);
                    assert(can_resolve(cells, out0[f].bridge_id()));
                }
                assert forall|i: int| 0 <= i < rep1.len() implies can_resolve(
                    cells,
                    (#[trigger] rep1[i]).bridge_id(),
                ) by {
                    if i < rep0.len() {
                        assert(rep1[i] == rep0[i]);
                        assert(can_resolve(cells, rep0[i].bridge_id()));
                    } else {
                        assert(rep1[i].bridge_id() == out0[which as int].bridge_id());
                        assert(can_resolve(cells, out0[which as int].bridge_id()));
                    }
                }
                assert forall|i: int, j: int| 0 <= i < j < out1.len() implies (
                #[trigger] out1[i]).bridge_id() != (#[trigger] out1[j]).bridge_id() by {
                    let fi = if i < which { i } else { i + 1 };
                    let fj = if j < which { j } else { j + 1 };
                    assert(out1[i] == out0[fi]);
                    assert(out1[j] == out0[fj]);
                    assert(out0[fi].bridge_id() != out0[fj].bridge_id());
                }
                assert forall|i: int, j: int| 0 <= i < j < rep1.len() implies (
                #[trigger] rep1[i]).bridge_id() != (#[trigger] rep1[j]).bridge_id() by {
                    assert(rep1[i] == rep0[i]);
                    if j < rep0.len() {
                        assert(rep1[j] == rep0[j]);
                    } else {
                        assert(rep1[j].bridge_id() == out0[which as int].bridge_id());
                        assert(out0[which as int].bridge_id() != rep0[i].bridge_id());
                    }
                }
                assert forall|i: int, j: int|
                    0 <= i < out1.len() && 0 <= j < rep1.len() implies (
                #[trigger] out1[i]).bridge_id() != (#[trigger] rep1[j]).bridge_id() by {
                    let fi = if i < which { i } else { i + 1 };
                    assert(out1[i] == out0[fi]);
                    if j < rep0.len() {
                        assert(rep1[j] == rep0[j]);
                        assert(out0[fi].bridge_id() != rep0[j].bridge_id());
                    } else {
                        assert(rep1[j].bridge_id() == out0[which as int].bridge_id());
                        assert(out0[fi].bridge_id() != out0[which as int].bridge_id());
                    }
                }
            }
        }
    }

    /// Process up to `max` pending completions (zero meaning all currently
    /// available), firing each one's completion bridge in the order the
    /// hardware reported them, and return how many were processed. Never
    /// blocks: with nothing pending it returns zero at once.
    pub fn pump(&mut self, bridges: &mut Bridges, max: usize) -> (n: usize)
        requires
            old(self).can_pump(),
            old(self).coupled(old(bridges)@),
        ensures
            n == Self::pump_count(max as int, old(self).reported().len() as int),
            final(self).is_open(),
            final(self).depth() == old(self).depth(),
            final(self).handle_id() == old(self).handle_id(),
            final(self).outstanding() == old(self).outstanding(),
            final(self).reported() == old(self).reported().skip(n as int),
            final(self).coupled(final(bridges)@),
            final(bridges)@.len() == old(bridges)@.len(),
            forall|j: int|
                0 <= j < n ==> final(bridges)@[(#[trigger] old(self).reported()[j]).bridge_id()]
                    == (BridgeCell::Resolved {
                    status: old(self).reported()[j].status,
                    buf: old(self).reported()[j].buf,
                }),
            forall|id: int|
                0 <= id < old(bridges)@.len() && (forall|j: int|
                    0 <= j < n ==> (#[trigger] old(self).reported()[j]).bridge_id() != id)
                    ==> #[trigger] final(bridges)@[id] == old(bridges)@[id],
    {
        let avail = self.reported.len();
        let target = if max == 0 || max > avail {
            avail
        } else {
            max
        };
        let ghost rep0 = self.reported@;
        let ghost cells0 = bridges@;
        let mut k: usize = 0;
        while k < target
            invariant
                k <= target,
                target <= rep0.len(),
                self.is_open(),
                self.depth() == old(self).depth(),
                self.handle_id() == old(self).handle_id(),
                self.outstanding() == old(self).outstanding(),
                self.reported() == rep0.skip(k as int),
                bridges@.len() == cells0.len(),
                old(self).coupled(cells0),
                rep0 == old(self).reported(),
                forall|j: int|
                    0 <= j < k ==> bridges@[(#[trigger] rep0[j]).bridge_id()]
                        == (BridgeCell::Resolved { status: rep0[j].status, buf: rep0[j].buf }),
                forall|id: int|
                    0 <= id < cells0.len() && (forall|j: int|
                        0 <= j < k ==> (#[trigger] rep0[j]).bridge_id() != id)
                        ==> #[trigger] bridges@[id] == cells0[id],
            decreases target - k,
        {
            proof {
                assert(self.reported()[0] == rep0[k as int]);
                assert forall|j: int| 0 <= j < k implies (#[trigger] rep0[j]).bridge_id() != rep0[k as int].bridge_id() by {
                }
                assert(bridges@[rep0[k as int].bridge_id()] == cells0[rep0[k as int].bridge_id()]);
                assert(can_resolve(cells0, rep0[k as int].bridge_id()));
            }
            let entry = self.reported.remove(0);
            let Reported { resolver, status, buf } = entry;
            bridges.resolve(resolver, status, buf);
            k = k + 1;
            proof {
                assert(self.reported@ =~= rep0.skip(k as int));
            }
        }
        proof {
            let out0 = old(self).outstanding();
            let repk = rep0.skip(k as int);
            assert forall|i: int| 0 <= i < out0.len() implies can_resolve(
                bridges@,
                (#[trigger] out0[i]).bridge_id(),
            ) by {
                assert forall|j: int| 0 <= j < k implies (#[trigger] rep0[j]).bridge_id() != out0[
                    i
                ].bridge_id() by {}
                assert(can_resolve(cells0, out0[i].bridge_id()));
            }
            assert forall|i: int| 0 <= i < repk.len() implies can_resolve(
                bridges@,
                (#[trigger] repk[i]).bridge_id(),
            ) by {
                assert(repk[i] == rep0[i + k]);
                assert forall|j: int| 0 <= j < k implies (#[trigger] rep0[j]).bridge_id() != rep0[
                    i + k
                ].bridge_id() by {}
                assert(can_resolve(cells0, rep0[i + k].bridge_id()));
            }
            assert forall|i: int, j: int| 0 <= i < j < repk.len() implies (
            #[trigger] repk[i]).bridge_id() != (#[trigger] repk[j]).bridge_id() by {
                assert(repk[i] == rep0[i + k]);
                assert(repk[j] == rep0[j + k]);
            }
            assert forall|i: int, j: int|
                0 <= i < out0.len() && 0 <= j < repk.len() implies (
            #[trigger] out0[i]).bridge_id() != (#[trigger] repk[j]).bridge_id() by {
                assert(repk[j] == rep0[j + k]);
            }
        }
        k
    }

    /// Whether pumping this queue pair is still a valid operation. Releasing
    /// the pair withdraws it.
    pub open spec fn can_pump(self) -> bool {
        self.is_open()
    }

    /// Whether the pair is still open for submission and polling.
    pub fn queue_open(&self) -> (r: bool)
        ensures
            r == self.is_open(),
    {
        self.open
    }

    /// The submission-queue depth the pair was created with.
    pub fn queue_depth(&self) -> (r: usize)
        ensures
            r == self.depth(),
    {
        self.depth
    }

    /// How many submitted commands the hardware is still working on.
    pub fn outstanding_count(&self) -> (r: usize)
        ensures
            r == self.outstanding().len(),
    {
        self.outstanding.len()
    }

    /// How many reported completions wait to be pumped.
    pub fn reported_count(&self) -> (r: usize)
        ensures
            r == self.reported().len(),
    {
        self.reported.len()
    }

    /// The kind of outstanding command `i`.
    pub fn outstanding_kind(&self, i: usize) -> (r: IoKind)
        requires
            i < self.outstanding().len(),
        ensures
            r == self.outstanding()[i as int].kind,
    {
        self.outstanding[i].kind
    }

    /// The logical block address of outstanding command `i`.
    pub fn outstanding_lba(&self, i: usize) -> (r: u64)
        requires
            i < self.outstanding().len(),
        ensures
            r == self.outstanding()[i as int].lba,
    {
        self.outstanding[i].lba
    }

    /// The block count of outstanding command `i`.
    pub fn outstanding_blocks(&self, i: usize) -> (r: u64)
        requires
            i < self.outstanding().len(),
        ensures
            r == self.outstanding()[i as int].blocks,
    {
        self.outstanding[i].blocks
    }

    /// The bytes of outstanding command `i`'s transfer buffer — what the
    /// hardware reads when it services a write.
    pub fn outstanding_bytes(&self, i: usize) -> (r: &[u8])
        requires
            i < self.outstanding().len(),
        ensures
            r@ == self.outstanding()[i as int].buf@,
    {
        self.outstanding[i].buf.as_slice()
    }

    /// Law: once a queue pair has been released, no further `pump` against
    /// it is valid — `release` closes the pair, and pumping demands an open
    /// one.
    pub proof fn lemma_no_pump_after_release(self)
        requires
            !self.is_open(),
        ensures
            !self.can_pump(),
    {
    }

    /// Free the queue pair and hand its handle back for the hardware-side
    /// release. The caller must first have confirmed, by pumping, that no
    /// submitted command remains outstanding and no completion is pending;
    /// afterwards no `pump` or `submit` call against the pair is valid.
    pub fn release(&mut self) -> (h: u64)
        requires
            old(self).is_open(),
            old(self).outstanding().len() == 0,
            old(self).reported().len() == 0,
        ensures
            !final(self).can_pump(),
            !final(self).is_open(),
            h == old(self).handle_id(),
    {
        self.open = false;
        self.handle
    }
}

} // verus!
