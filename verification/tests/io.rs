use nvme_io::bridge::Bridges;
use nvme_io::buffer::DmaBuf;
use nvme_io::qpair::{AllocationError, IoKind, QueuePair};
use nvme_io::registry::{NamespaceProbe, ProbeOutcome, Registry};
use nvme_io::sequence::{
    begin_sequence, select_io_buffer, start_namespace_io, step_sequence, IoError, IoSequence,
    SequenceState,
};

/// An in-memory block store standing in for one namespace of a controller:
/// it services outstanding commands in order and reports their completions.
struct SimDevice {
    block_size: usize,
    blocks: std::collections::HashMap<u64, Vec<u8>>,
    /// status to report for the next serviced commands, by kind
    write_status: i32,
    read_status: i32,
}

impl SimDevice {
    fn new(block_size: usize) -> SimDevice {
        SimDevice {
            block_size,
            blocks: std::collections::HashMap::new(),
            write_status: 0,
            read_status: 0,
        }
    }

    /// Service every outstanding command on the pair, oldest first, the way
    /// the hardware reports completions for a single-threaded workload.
    fn service(&mut self, qp: &mut QueuePair) {
        while qp.outstanding_count() > 0 {
            let kind = qp.outstanding_kind(0);
            let lba = qp.outstanding_lba(0);
            match kind {
                IoKind::Write => {
                    let data = qp.outstanding_bytes(0).to_vec();
                    if self.write_status == 0 {
                        self.blocks.insert(lba, data);
                    }
                    qp.report_completion(0, self.write_status, &[]);
                }
                IoKind::Read => {
                    let data = match self.blocks.get(&lba) {
                        Some(d) => d.clone(),
                        None => vec![0u8; self.block_size],
                    };
                    qp.report_completion(0, self.read_status, &data);
                }
            }
        }
    }
}

/// Drive one chain to its end: service, pump, step, as the polling loop of
/// the workload does.
fn run_chain(
    mut seq: IoSequence,
    dev: &mut SimDevice,
    qp: &mut QueuePair,
    bridges: &mut Bridges,
) -> IoSequence {
    let mut rounds: u32 = 0;
    while matches!(
        seq.state,
        SequenceState::AwaitingWrite { .. } | SequenceState::AwaitingRead { .. }
    ) {
        dev.service(qp);
        qp.pump(bridges, 0);
        seq = step_sequence(seq, qp, bridges);
        rounds += 1;
        assert!(rounds < 16, "chain did not settle");
    }
    seq
}

fn one_namespace_registry() -> Registry {
    let mut reg = Registry::new();
    reg.begin_discovery();
    let probes = vec![NamespaceProbe { handle: 900, present: true, active: true }];
    reg.attach_controller(77, b"Model\0", b"Serial\0", &probes);
    reg.finish_discovery();
    reg
}

#[test]
fn round_trip_reads_back_written_page() {
    let reg = one_namespace_registry();
    assert!(matches!(reg.probe_outcome(0), ProbeOutcome::Ready));
    let mut dev = SimDevice::new(4096);
    let mut bridges = Bridges::new();
    let content: Vec<u8> = (0..4095u32).map(|i| (i % 251) as u8 + 1).collect();
    let started = start_namespace_io(
        &reg,
        0,
        Some(1),
        8,
        None,
        Some(DmaBuf::zeroed(4096)),
        &content,
        0,
        1,
        &mut bridges,
    );
    let (mut qp, seq) = started.expect("both allocations succeeded");
    // what the write put on the device: the content, NUL-terminated, zero tail
    let mut written = content.clone();
    written.push(0);
    let seq = run_chain(seq, &mut dev, &mut qp, &mut bridges);
    match seq.state {
        SequenceState::Completed { buf } => {
            assert_eq!(buf.len(), 4096);
            assert_eq!(buf.as_slice(), &written[..]);
            assert_eq!(buf.read_cstr(), content);
        }
        _ => panic!("chain did not complete"),
    }
    // drained: the pair may now be released
    assert_eq!(qp.outstanding_count(), 0);
    assert_eq!(qp.reported_count(), 0);
    let handle = qp.release();
    assert_eq!(handle, 1);
    assert!(!qp.queue_open());
}

#[test]
fn two_sequential_chains_same_lba_in_order() {
    let reg = one_namespace_registry();
    let mut dev = SimDevice::new(4096);
    let mut bridges = Bridges::new();
    let first = b"first payload".to_vec();
    let second = b"second payload".to_vec();
    let (mut qp, seq) = start_namespace_io(
        &reg,
        0,
        Some(5),
        8,
        None,
        Some(DmaBuf::zeroed(4096)),
        &first,
        0,
        1,
        &mut bridges,
    )
    .expect("first chain starts");
    let done = run_chain(seq, &mut dev, &mut qp, &mut bridges);
    match done.state {
        SequenceState::Completed { buf } => assert_eq!(buf.read_cstr(), first),
        _ => panic!("first chain did not complete"),
    }
    // the second chain reuses the same queue pair and overwrites the block
    let seq = begin_sequence(
        0,
        0,
        1,
        &second,
        Some(DmaBuf::zeroed(4096)),
        false,
        &mut qp,
        &mut bridges,
    )
    .expect("second chain starts");
    let done = run_chain(seq, &mut dev, &mut qp, &mut bridges);
    match done.state {
        SequenceState::Completed { buf } => assert_eq!(buf.read_cstr(), second),
        _ => panic!("second chain did not complete"),
    }
}

#[test]
fn qpair_allocation_failure_registers_nothing() {
    let reg = one_namespace_registry();
    let mut bridges = Bridges::new();
    let controllers_before = reg.controller_count();
    let namespaces_before = reg.namespace_count();
    let r = start_namespace_io(
        &reg,
        0,
        None,
        8,
        Some(DmaBuf::zeroed(4096)),
        Some(DmaBuf::zeroed(4096)),
        b"payload",
        0,
        1,
        &mut bridges,
    );
    assert!(matches!(r, Err(IoError::QueuePairAllocationFailed)));
    // no completion bridge was registered and the registry was not mutated
    assert_eq!(bridges.count(), 0);
    assert_eq!(reg.controller_count(), controllers_before);
    assert_eq!(reg.namespace_count(), namespaces_before);
}

#[test]
fn buffer_allocation_failure_registers_no_bridge() {
    let reg = one_namespace_registry();
    let mut bridges = Bridges::new();
    let r = start_namespace_io(&reg, 0, Some(3), 8, None, None, b"x", 0, 1, &mut bridges);
    assert!(matches!(r, Err(IoError::BufferAllocationFailed)));
    assert_eq!(bridges.count(), 0);
}

#[test]
fn controller_memory_buffer_is_preferred() {
    let cmb = DmaBuf::zeroed(16);
    let host = DmaBuf::zeroed(32);
    let (buf, using_cmb) = select_io_buffer(Some(cmb), Some(host)).expect("a buffer");
    assert!(using_cmb);
    assert_eq!(buf.len(), 16);
    let (buf, using_cmb) = select_io_buffer(None, Some(DmaBuf::zeroed(32))).expect("a buffer");
    assert!(!using_cmb);
    assert_eq!(buf.len(), 32);
}

#[test]
fn no_controllers_found_skips_the_workload() {
    let mut reg = Registry::new();
    reg.begin_discovery();
    // the probe returned zero controllers
    assert!(matches!(reg.probe_outcome(0), ProbeOutcome::NoControllers));
    // the workload performs no I/O: there is nothing to traverse
    assert_eq!(reg.iterate_namespaces().len(), 0);
    // and the exit path tears down cleanly
    let detach = reg.teardown();
    assert!(detach.is_empty());
    assert_eq!(reg.controller_count(), 0);
}

#[test]
fn failed_write_completion_fails_the_chain() {
    let reg = one_namespace_registry();
    let mut dev = SimDevice::new(64);
    dev.write_status = 3;
    let mut bridges = Bridges::new();
    let (mut qp, seq) = start_namespace_io(
        &reg,
        0,
        Some(1),
        4,
        None,
        Some(DmaBuf::zeroed(64)),
        b"doomed",
        0,
        1,
        &mut bridges,
    )
    .expect("chain starts");
    let done = run_chain(seq, &mut dev, &mut qp, &mut bridges);
    assert!(matches!(
        done.state,
        SequenceState::Failed { error: IoError::WriteFailed { status: 3 } }
    ));
}

#[test]
fn failed_read_completion_fails_the_chain() {
    let reg = one_namespace_registry();
    let mut dev = SimDevice::new(64);
    dev.read_status = 9;
    let mut bridges = Bridges::new();
    let (mut qp, seq) = start_namespace_io(
        &reg,
        0,
        Some(1),
        4,
        None,
        Some(DmaBuf::zeroed(64)),
        b"half",
        0,
        1,
        &mut bridges,
    )
    .expect("chain starts");
    let done = run_chain(seq, &mut dev, &mut qp, &mut bridges);
    assert!(matches!(
        done.state,
        SequenceState::Failed { error: IoError::ReadFailed { status: 9 } }
    ));
}

#[test]
fn full_queue_rejects_submission_synchronously() {
    let mut bridges = Bridges::new();
    let mut qp = QueuePair::allocate(Some(2), 1).expect("a queue pair");
    let seq = begin_sequence(
        0,
        0,
        1,
        b"a",
        Some(DmaBuf::zeroed(16)),
        false,
        &mut qp,
        &mut bridges,
    )
    .expect("first submission fits");
    assert!(matches!(seq.state, SequenceState::AwaitingWrite { .. }));
    assert_eq!(bridges.count(), 1);
    // the queue is full now: the next submission is rejected at once,
    // without an awaiter and without a bridge
    let r = begin_sequence(
        0,
        0,
        1,
        b"b",
        Some(DmaBuf::zeroed(16)),
        false,
        &mut qp,
        &mut bridges,
    );
    assert!(matches!(r, Err(IoError::SubmitRejected)));
    assert_eq!(bridges.count(), 1);
    assert_eq!(qp.outstanding_count(), 1);
}

#[test]
fn step_before_completion_leaves_chain_waiting() {
    let mut bridges = Bridges::new();
    let mut qp = QueuePair::allocate(Some(9), 4).expect("a queue pair");
    let seq = begin_sequence(
        0,
        0,
        1,
        b"zzz",
        Some(DmaBuf::zeroed(32)),
        false,
        &mut qp,
        &mut bridges,
    )
    .expect("chain starts");
    // nothing was pumped: the chain observes no spurious resolution
    let seq = step_sequence(seq, &mut qp, &mut bridges);
    assert!(matches!(seq.state, SequenceState::AwaitingWrite { .. }));
    assert_eq!(qp.outstanding_count(), 1);
    assert_eq!(bridges.count(), 1);
}

#[test]
fn queue_pair_allocation_failure_is_typed() {
    assert!(matches!(
        QueuePair::allocate(None, 4),
        Err(AllocationError::QueuePairAllocationFailed)
    ));
}

#[test]
fn pump_processes_completions_in_reported_order_up_to_cap() {
    let mut bridges = Bridges::new();
    let mut qp = QueuePair::allocate(Some(4), 4).expect("a queue pair");
    let a1 = qp
        .submit_write(&mut bridges, 0, 1, DmaBuf::zeroed(8))
        .expect("first write fits");
    let a2 = qp
        .submit_write(&mut bridges, 1, 1, DmaBuf::zeroed(8))
        .expect("second write fits");
    // the hardware reports both completions, oldest first
    qp.report_completion(0, 0, &[]);
    qp.report_completion(0, 0, &[]);
    assert_eq!(qp.reported_count(), 2);
    // a capped pump processes exactly the first reported completion
    let n = qp.pump(&mut bridges, 1);
    assert_eq!(n, 1);
    assert!(matches!(
        bridges.await_result(a1),
        nvme_io::bridge::AwaitOutcome::Ready { status: 0, .. }
    ));
    let a2 = match bridges.await_result(a2) {
        nvme_io::bridge::AwaitOutcome::NotYet { awaiter } => awaiter,
        _ => panic!("second completion observed before it was pumped"),
    };
    // pumping with zero processes all that remain
    let n = qp.pump(&mut bridges, 0);
    assert_eq!(n, 1);
    assert!(matches!(
        bridges.await_result(a2),
        nvme_io::bridge::AwaitOutcome::Ready { status: 0, .. }
    ));
    // nothing pending: a further pump returns at once with zero
    assert_eq!(qp.pump(&mut bridges, 0), 0);
}
