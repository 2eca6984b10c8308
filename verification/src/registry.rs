use vstd::prelude::*;

use crate::names::{controller_name, format_controller_name};

verus! {

/// The discovery phases of the process-wide registry: empty before the
/// environment is up, written only while the probe sequence runs, read-only
/// once I/O begins.
#[derive(Clone, Copy, PartialEq, Eq, Structural)]
pub enum Phase {
    Uninitialized,
    Discovering,
    Ready,
}

/// One attached controller: the opaque handle the probe delivered, owned by
/// the registry until teardown detaches it, and its display name.
pub struct ControllerRecord {
    pub handle: u64,
    pub name: Vec<u8>,
}

/// One active namespace of an attached controller. `ctrlr` is the index of
/// the owning controller's record; the registry invariant keeps it resolving
/// to a live record for the namespace's whole lifetime. Namespace identifiers
/// are 1-based.
pub struct NamespaceRecord {
    pub ctrlr: usize,
    pub handle: u64,
    pub nsid: u32,
    pub active: bool,
}

/// What controller enumeration reported about one namespace slot during
/// attach: whether the controller returned a namespace there at all, and
/// whether that namespace reports active.
pub struct NamespaceProbe {
    pub handle: u64,
    pub present: bool,
    pub active: bool,
}

/// Whether `register_namespace` stored a record or skipped the namespace.
#[derive(Clone, Copy, PartialEq, Eq, Structural)]
pub enum RegisterOutcome {
    Registered,
    SkippedInactive,
}

/// What a finished probe left the caller to do: abort on a failed probe,
/// skip the workload when nothing was found, or proceed to I/O.
#[derive(Clone, Copy, PartialEq, Eq, Structural)]
pub enum ProbeOutcome {
    ProbeFailed,
    NoControllers,
    Ready,
}

/// The process-wide device registry, populated by the probe callbacks.
///
/// Records live in insertion-ordered arenas and are addressed by stable
/// indices, so the namespaces' back-references stay valid while controllers
/// keep arriving. The head of each conceptual list is the newest record, at
/// the arena's back: traversals and teardown run newest-first.
pub struct Registry {
    controllers: Vec<ControllerRecord>,
    namespaces: Vec<NamespaceRecord>,
    phase: Phase,
}

impl Registry {
    pub closed spec fn controllers(self) -> Seq<ControllerRecord> {
        self.controllers@
    }

    pub closed spec fn namespaces(self) -> Seq<NamespaceRecord> {
        self.namespaces@
    }

    pub closed spec fn phase(self) -> Phase {
        self.phase
    }

    /// Registry invariant: every namespace record points at a live
    /// controller record, carries a 1-based identifier, and is active —
    /// inactive namespaces are never registered.
    pub open spec fn inv(self) -> bool {
        forall|i: int|
            0 <= i < self.namespaces().len() ==> {
                &&& (#[trigger] self.namespaces()[i]).ctrlr < self.controllers().len()
                &&& self.namespaces()[i].nsid >= 1
                &&& self.namespaces()[i].active
            }
    }

    /// The registry of a freshly started process: empty, before environment
    /// initialization has allowed discovery to begin.
    pub fn new() -> (r: Registry)
        ensures
            r.inv(),
            r.phase() == Phase::Uninitialized,
            r.controllers() == Seq::<ControllerRecord>::empty(),
            r.namespaces() == Seq::<NamespaceRecord>::empty(),
    {
        Registry { controllers: Vec::new(), namespaces: Vec::new(), phase: Phase::Uninitialized }
    }

    /// Enter the discovery window, once the environment is initialized. Only
    /// within it may records be registered.
    pub fn begin_discovery(&mut self)
        requires
            old(self).phase() == Phase::Uninitialized,
        ensures
            final(self).phase() == Phase::Discovering,
            final(self).controllers() == old(self).controllers(),
            final(self).namespaces() == old(self).namespaces(),
    {
        self.phase = Phase::Discovering;
    }

    /// Close the discovery window: from here on the registry is read-only
    /// until teardown.
    pub fn finish_discovery(&mut self)
        requires
            old(self).phase() == Phase::Discovering,
        ensures
            final(self).phase() == Phase::Ready,
            final(self).controllers() == old(self).controllers(),
            final(self).namespaces() == old(self).namespaces(),
    {
        self.phase = Phase::Ready;
    }

    /// Insert a newly attached controller at the head of the controller
    /// list and return its stable index.
    pub fn register_controller(&mut self, handle: u64, name: Vec<u8>) -> (idx: usize)
        requires
            old(self).phase() == Phase::Discovering,
        ensures
            idx == old(self).controllers().len(),
            final(self).controllers() == old(self).controllers().push(
                ControllerRecord { handle, name },
            ),
            final(self).namespaces() == old(self).namespaces(),
            final(self).phase() == old(self).phase(),
            old(self).inv() ==> final(self).inv(),
    {
        let idx = self.controllers.len();
        self.controllers.push(ControllerRecord { handle, name });
        idx
    }

    /// Register one namespace reported by controller enumeration: inserted
    /// at the head of the namespace list if it reports active, skipped —
    /// leaving the registry untouched — if it reports inactive.
    pub fn register_namespace(&mut self, ctrlr: usize, handle: u64, nsid: u32, active: bool) -> (r:
        RegisterOutcome)
        requires
            old(self).phase() == Phase::Discovering,
            ctrlr < old(self).controllers().len(),
            nsid >= 1,
        ensures
            final(self).controllers() == old(self).controllers(),
            final(self).phase() == old(self).phase(),
            active ==> {
                &&& r == RegisterOutcome::Registered
                &&& final(self).namespaces() == old(self).namespaces().push(
                    NamespaceRecord { ctrlr, handle, nsid, active: true },
                )
            },
            !active ==> {
                &&& r == RegisterOutcome::SkippedInactive
                &&& final(self).namespaces() == old(self).namespaces()
            },
            old(self).inv() ==> final(self).inv(),
    {
        if !active {
            return RegisterOutcome::SkippedInactive;
        }
        self.namespaces.push(NamespaceRecord { ctrlr, handle, nsid, active: true });
        RegisterOutcome::Registered
    }

    /// The namespace records that attaching a controller at index `ctrlr`
    /// adds for enumeration reports `probes`, where slot `i` carries the
    /// 1-based identifier `i + 1`: one record per slot that is present and
    /// active, in slot order.
    pub open spec fn attached_namespaces(ctrlr: usize, probes: Seq<NamespaceProbe>) -> Seq<
        NamespaceRecord,
    >
        decreases probes.len(),
    {
        if probes.len() == 0 {
            Seq::empty()
        } else {
            let last = probes.last();
            Self::attached_namespaces(ctrlr, probes.drop_last()) + (if last.present
                && last.active {
                seq![
                    NamespaceRecord {
                        ctrlr,
                        handle: last.handle,
                        nsid: probes.len() as u32,
                        active: true,
                    },
                ]
            } else {
                Seq::empty()
            })
        }
    }

    /// The attach phase of discovery for one controller: format its display
    /// name from the raw identification fields, insert its record, then walk
    /// the enumerated namespace slots in identifier order, skipping absent
    /// ones and registering the rest (the active ones). Returns the
    /// controller's index and how many namespaces were registered.
    pub fn attach_controller(
        &mut self,
        handle: u64,
        mn: &[u8],
        sn: &[u8],
        probes: &Vec<NamespaceProbe>,
    ) -> (r: (usize, usize))
        requires
            old(self).phase() == Phase::Discovering,
            old(self).inv(),
            probes@.len() <= u32::MAX,
        ensures
            final(self).inv(),
            final(self).phase() == old(self).phase(),
            r.0 == old(self).controllers().len(),
            final(self).controllers().len() == old(self).controllers().len() + 1,
            final(self).controllers().take(old(self).controllers().len() as int) == old(
                self,
            ).controllers(),
            final(self).controllers().last().handle == handle,
            final(self).controllers().last().name@ == controller_name(mn@, sn@),
            final(self).namespaces() == old(self).namespaces() + Self::attached_namespaces(
                old(self).controllers().len() as usize,
                probes@,
            ),
            r.1 == Self::attached_namespaces(old(self).controllers().len() as usize, probes@).len(),
    {
        let name = format_controller_name(mn, sn);
        let idx = self.register_controller(handle, name);
        let mut registered: usize = 0;
        let mut i: usize = 0;
        proof {
            assert(self.namespaces() =~= old(self).namespaces() + Self::attached_namespaces(
                idx,
                probes@.take(0),
            ));
        }
        while i < probes.len()
            invariant
                i <= probes@.len(),
                probes@.len() <= u32::MAX,
                idx < self.controllers().len(),
                self.phase() == Phase::Discovering,
                self.inv(),
                self.controllers().len() == old(self).controllers().len() + 1,
                self.controllers().take(old(self).controllers().len() as int) == old(
                    self,
                ).controllers(),
                self.controllers().last().handle == handle,
                self.controllers().last().name@ == controller_name(mn@, sn@),
                self.namespaces() == old(self).namespaces() + Self::attached_namespaces(
                    idx,
                    probes@.take(i as int),
                ),
                registered <= i,
                registered == Self::attached_namespaces(idx, probes@.take(i as int)).len(),
            decreases probes@.len() - i,
        {
            let p = &probes[i];
            proof {
                assert(probes@.take(i + 1).drop_last() =~= probes@.take(i as int));
                assert(probes@.take(i + 1).last() == probes@[i as int]);
            }
            if p.present {
                let outcome = self.register_namespace(idx, p.handle, (i as u32) + 1, p.active);
                if let RegisterOutcome::Registered = outcome {
                    registered = registered + 1;
                }
            }
            i = i + 1;
            proof {
                assert(self.namespaces() =~= old(self).namespaces() + Self::attached_namespaces(
                    idx,
                    probes@.take(i as int),
                ));
            }
        }
        proof {
            assert(probes@.take(probes@.len() as int) =~= probes@);
        }
        (idx, registered)
    }

    /// Which phase the registry is in.
    pub fn current_phase(&self) -> (r: Phase)
        ensures
            r == self.phase(),
    {
        self.phase
    }

    /// How many controllers discovery attached.
    pub fn controller_count(&self) -> (r: usize)
        ensures
            r == self.controllers().len(),
    {
        self.controllers.len()
    }

    /// How many namespaces discovery registered.
    pub fn namespace_count(&self) -> (r: usize)
        ensures
            r == self.namespaces().len(),
    {
        self.namespaces.len()
    }

    /// The namespace record at arena index `i`.
    pub fn namespace_at(&self, i: usize) -> (r: &NamespaceRecord)
        requires
            i < self.namespaces().len(),
        ensures
            *r == self.namespaces()[i as int],
    {
        &self.namespaces[i]
    }

    /// The controller record at arena index `i`.
    pub fn controller_at(&self, i: usize) -> (r: &ControllerRecord)
        requires
            i < self.controllers().len(),
        ensures
            *r == self.controllers()[i as int],
    {
        &self.controllers[i]
    }

    /// A restartable traversal of the namespace list from its current head:
    /// the arena indices of all registered namespaces, newest first.
    pub fn iterate_namespaces(&self) -> (r: Vec<usize>)
        ensures
            r@.len() == self.namespaces().len(),
            forall|j: int| 0 <= j < r@.len() ==> r@[j] == self.namespaces().len() - 1 - j,
    {
        let n = self.namespaces.len();
        let mut out: Vec<usize> = Vec::new();
        let mut j: usize = 0;
        while j < n
            invariant
                j <= n,
                n == self.namespaces().len(),
                out@.len() == j,
                forall|p: int| 0 <= p < j ==> out@[p] == n - 1 - p,
            decreases n - j,
        {
            out.push(n - 1 - j);
            j = j + 1;
        }
        out
    }

    /// What the caller should do once the probe has returned: abort the
    /// workload when the probe itself failed, report and skip it when no
    /// controller was attached, and proceed to I/O otherwise.
    pub fn probe_outcome(&self, probe_status: i32) -> (r: ProbeOutcome)
        ensures
            probe_status != 0 ==> r == ProbeOutcome::ProbeFailed,
            probe_status == 0 && self.controllers().len() == 0 ==> r == ProbeOutcome::NoControllers,
            probe_status == 0 && self.controllers().len() > 0 ==> r == ProbeOutcome::Ready,
    {
        if probe_status != 0 {
            ProbeOutcome::ProbeFailed
        } else if self.controllers.len() == 0 {
            ProbeOutcome::NoControllers
        } else {
            ProbeOutcome::Ready
        }
    }

    /// Shutdown: walk the namespace list and then the controller list once,
    /// releasing every record. The controller handles come back in walk
    /// order — newest first — for the caller to detach; the registry is left
    /// empty and uninitialized.
    pub fn teardown(&mut self) -> (detach: Vec<u64>)
        ensures
            final(self).controllers() == Seq::<ControllerRecord>::empty(),
            final(self).namespaces() == Seq::<NamespaceRecord>::empty(),
            final(self).phase() == Phase::Uninitialized,
            final(self).inv(),
            detach@.len() == old(self).controllers().len(),
            forall|j: int|
                0 <= j < detach@.len() ==> detach@[j] == old(self).controllers()[old(
                    self,
                ).controllers().len() - 1 - j].handle,
    {
        self.namespaces.clear();
        let mut detach: Vec<u64> = Vec::new();
        let ghost ctrls = self.controllers@;
        loop
            invariant
                self.namespaces@.len() == 0,
                detach@.len() + self.controllers@.len() == ctrls.len(),
                self.controllers@ == ctrls.take(self.controllers@.len() as int),
                forall|j: int|
                    0 <= j < detach@.len() ==> detach@[j] == ctrls[ctrls.len() - 1 - j].handle,
            ensures
                self.controllers@.len() == 0,
                detach@.len() == ctrls.len(),
                forall|j: int|
                    0 <= j < detach@.len() ==> detach@[j] == ctrls[ctrls.len() - 1 - j].handle,
            decreases self.controllers@.len(),
        {
            let entry = match self.controllers.pop() {
                Some(e) => e,
                None => {
                    break ;
                },
            };
            detach.push(entry.handle);
            proof {
                assert(self.controllers@ =~= ctrls.take(self.controllers@.len() as int));
            }
        }
        self.phase = Phase::Uninitialized;
        detach
    }
}

/// Law: the namespace traversal never shows an inactive namespace — every
/// record a well-formed registry holds is active, and `register_namespace`
/// adds none that is not.
pub proof fn lemma_traversal_shows_only_active(reg: Registry)
    requires
        reg.inv(),
    ensures
        forall|i: int| 0 <= i < reg.namespaces().len() ==> (#[trigger] reg.namespaces()[i]).active,
{
}

} // verus!
