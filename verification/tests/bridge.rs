use nvme_io::bridge::{AwaitOutcome, Bridges};
use nvme_io::buffer::DmaBuf;

#[test]
fn await_before_resolve_is_not_ready() {
    let mut bridges = Bridges::new();
    let (resolver, awaiter) = bridges.new_bridge();
    let outcome = bridges.await_result(awaiter);
    let awaiter = match outcome {
        AwaitOutcome::NotYet { awaiter } => awaiter,
        AwaitOutcome::Ready { .. } => panic!("observed a result before resolve"),
    };
    bridges.resolve(resolver, 0, DmaBuf::zeroed(4));
    match bridges.await_result(awaiter) {
        AwaitOutcome::Ready { status, buf } => {
            assert_eq!(status, 0);
            assert_eq!(buf.len(), 4);
        }
        AwaitOutcome::NotYet { .. } => panic!("resolution was not observed"),
    }
}

#[test]
fn resolve_then_await_observes_exactly_that_result() {
    let mut bridges = Bridges::new();
    let (resolver, awaiter) = bridges.new_bridge();
    let mut payload = DmaBuf::zeroed(4);
    payload.write_prefix(&[1, 2, 3, 4]);
    bridges.resolve(resolver, 7, payload);
    match bridges.await_result(awaiter) {
        AwaitOutcome::Ready { status, buf } => {
            assert_eq!(status, 7);
            assert_eq!(buf.as_slice(), &[1, 2, 3, 4]);
        }
        AwaitOutcome::NotYet { .. } => panic!("resolution was not observed"),
    }
}

#[test]
fn bridges_are_independent() {
    let mut bridges = Bridges::new();
    let (r1, a1) = bridges.new_bridge();
    let (_r2, a2) = bridges.new_bridge();
    assert_eq!(bridges.count(), 2);
    bridges.resolve(r1, 0, DmaBuf::zeroed(1));
    // the second bridge is still pending
    match bridges.await_result(a2) {
        AwaitOutcome::NotYet { .. } => {}
        AwaitOutcome::Ready { .. } => panic!("unresolved bridge reported ready"),
    }
    match bridges.await_result(a1) {
        AwaitOutcome::Ready { status, .. } => assert_eq!(status, 0),
        AwaitOutcome::NotYet { .. } => panic!("resolved bridge not observed"),
    }
}
