use vstd::prelude::*;

use crate::buffer::DmaBuf;

verus! {

/// One command's completion cell.
///
/// A cell is created `Pending` when a command is submitted, becomes
/// `Resolved` when the polling loop sees the hardware completion fire, and
/// becomes `Taken` when the waiting caller observes the result. `status` is
/// the code the hardware reported (zero on success) and `buf` is the DMA
/// buffer the command owned, handed back to the caller on observation.
pub enum BridgeCell {
    Pending,
    Resolved { status: i32, buf: DmaBuf },
    Taken,
}

/// The completion-bridge table: one cell per submitted command.
///
/// Completions are delivered by a callback invoked from the polling loop, not
/// from the submitting call stack. Each submission embeds a `Resolver` as its
/// callback context and hands an `Awaiter` to the logical caller; both are
/// one-shot handles onto the same cell, consumed by their single use, so a
/// command is resolved at most once and its result observed at most once.
pub struct Bridges {
    cells: Vec<BridgeCell>,
}

/// The producing half of one bridge: consumed by `resolve` when the
/// completion fires.
pub struct Resolver {
    id: usize,
}

/// The consuming half of one bridge: consumed by `await_result` when it
/// observes the resolution.
pub struct Awaiter {
    id: usize,
}

/// What one call of `await_result` saw: the resolved result, or the handle
/// back because the completion has not fired yet.
pub enum AwaitOutcome {
    Ready { status: i32, buf: DmaBuf },
    NotYet { awaiter: Awaiter },
}

/// `resolve` is allowed exactly while the cell still awaits its completion.
pub open spec fn can_resolve(cells: Seq<BridgeCell>, id: int) -> bool {
    &&& 0 <= id < cells.len()
    &&& cells[id] is Pending
}

/// `await_result` observes a result exactly while the cell holds one.
pub open spec fn can_observe(cells: Seq<BridgeCell>, id: int) -> bool {
    &&& 0 <= id < cells.len()
    &&& cells[id] is Resolved
}

impl Resolver {
    pub closed spec fn id(&self) -> int {
        self.id as int
    }
}

impl Awaiter {
    pub closed spec fn id(&self) -> int {
        self.id as int
    }
}

impl View for Bridges {
    type V = Seq<BridgeCell>;

    closed spec fn view(&self) -> Seq<BridgeCell> {
        self.cells@
    }
}

impl Bridges {
    pub fn new() -> (r: Bridges)
        ensures
            r@ == Seq::<BridgeCell>::empty(),
    {
        Bridges { cells: Vec::new() }
    }

    pub fn count(&self) -> (r: usize)
        ensures
            r == self@.len(),
    {
        self.cells.len()
    }

    /// Produce a fresh single-resolution pair: the `Resolver` goes into the
    /// submitted command as callback context, the `Awaiter` to the caller.
    pub fn new_bridge(&mut self) -> (r: (Resolver, Awaiter))
        ensures
            final(self)@ == old(self)@.push(BridgeCell::Pending),
            r.0.id() == old(self)@.len(),
            r.1.id() == old(self)@.len(),
    {
        let id = self.cells.len();
        self.cells.push(BridgeCell::Pending);
        (Resolver { id }, Awaiter { id })
    }

    /// Deliver a fired completion to the waiting caller. Callable at most
    /// once per bridge: the `Resolver` is consumed and the cell it points at
    /// must still be pending.
    pub fn resolve(&mut self, r: Resolver, status: i32, buf: DmaBuf)
        requires
            can_resolve(old(self)@, r.id()),
        ensures
            final(self)@ == old(self)@.update(r.id(), BridgeCell::Resolved { status, buf }),
    {
        self.cells[r.id] = BridgeCell::Resolved { status, buf };
    }

    /// Observe the bridge once. If the completion has fired, the result is
    /// taken and the cell closed; otherwise the awaiter comes back unchanged
    /// for the caller to try again after pumping the queue pair.
    pub fn await_result(&mut self, a: Awaiter) -> (r: AwaitOutcome)
        requires
            0 <= a.id() < old(self)@.len(),
            !(old(self)@[a.id()] is Taken),
        ensures
            old(self)@[a.id()] is Pending ==> {
                &&& final(self)@ == old(self)@
                &&& r matches AwaitOutcome::NotYet { awaiter } && awaiter.id() == a.id()
            },
            (old(self)@[a.id()] matches BridgeCell::Resolved { status, buf } ==> {
                &&& final(self)@ == old(self)@.update(a.id(), BridgeCell::Taken)
                &&& r == AwaitOutcome::Ready { status, buf }
            }),
    {
        let id = a.id;
        let cell = &self.cells[id];
        match cell {
            BridgeCell::Pending => AwaitOutcome::NotYet { awaiter: a },
            BridgeCell::Resolved { .. } => {
                let mut taken = BridgeCell::Taken;
                core::mem::swap(&mut self.cells[id], &mut taken);
                match taken {
                    BridgeCell::Resolved { status, buf } => AwaitOutcome::Ready { status, buf },
                    _ => {
                        proof {
                            assert(false);
                        }
                        AwaitOutcome::NotYet { awaiter: a }
                    },
                }
            },
            BridgeCell::Taken => {
                proof {
                    assert(false);
                }
                AwaitOutcome::NotYet { awaiter: a }
            },
        }
    }
}

/// Law: a result is never observed before `resolve` is called — while a cell
/// is pending, no observation of it is possible.
pub proof fn lemma_no_observation_before_resolve(cells: Seq<BridgeCell>, id: int)
    requires
        0 <= id < cells.len(),
        cells[id] is Pending,
    ensures
        !can_observe(cells, id),
{
}

/// Law: a result is observed at most once — once a cell has been taken,
/// neither a second observation nor a second resolution of it is possible.
pub proof fn lemma_observed_at_most_once(cells: Seq<BridgeCell>, id: int)
    requires
        0 <= id < cells.len(),
        cells[id] is Taken,
    ensures
        !can_observe(cells, id),
        !can_resolve(cells, id),
{
}

} // verus!
