use op_bridge::isolate::{respond, AsyncOp, Isolate, OpBinding, SyncOp, WireError};
use op_bridge::ops::{op_kill, op_run, op_status, OpError, OpPoll, KILLED_EXIT_CODE};
use op_bridge::record::Record;
use op_bridge::state::{ResourceStatus, State};

const RUN: usize = 0;
const KILL: usize = 1;
const STATUS: usize = 2;

fn control(promise_id: u32, rid: u32) -> Vec<u8> {
    Record { promise_id, rid, result: 0 }.encode()
}

fn call_sync(iso: &mut Isolate, op: usize, rid: u32) -> Record {
    let buf = control(0, rid);
    assert_eq!(iso.check_call(op, &buf), Ok(()));
    let out = iso.dispatch(op, &buf, None).expect("a synchronous op answers at once");
    Record::decode(&out)
}

fn call_async(iso: &mut Isolate, op: usize, promise_id: u32, rid: u32) {
    let buf = control(promise_id, rid);
    assert_eq!(iso.check_call(op, &buf), Ok(()));
    assert!(iso.dispatch(op, &buf, None).is_none());
}

#[test]
fn new_registers_the_three_ops() {
    let iso = Isolate::new();
    assert_eq!(iso.op_count(), 3);
    assert_eq!(iso.op_name(RUN), "run");
    assert_eq!(iso.op_name(KILL), "kill");
    assert_eq!(iso.op_name(STATUS), "status");
    assert_eq!(iso.op_binding(RUN), OpBinding::Sync(SyncOp::Run));
    assert_eq!(iso.op_binding(KILL), OpBinding::Sync(SyncOp::Kill));
    assert_eq!(iso.op_binding(STATUS), OpBinding::Async(AsyncOp::Status));
    assert!(iso.is_done());
}

#[test]
fn register_returns_the_next_id() {
    let mut iso = Isolate::new();
    assert_eq!(iso.register_sync_op("stop", SyncOp::Kill), 3);
    assert_eq!(iso.register_op("wait", AsyncOp::Status), 4);
    assert_eq!(iso.op_name(4), "wait");
    assert_eq!(iso.op_binding(3), OpBinding::Sync(SyncOp::Kill));
}

#[test]
fn run_on_fresh_rid_succeeds() {
    let mut iso = Isolate::new();
    let resp = call_sync(&mut iso, RUN, 1);
    assert_eq!(resp.rid, 1);
    assert_eq!(resp.promise_id, 0);
    assert!(resp.result >= 0);
    assert_eq!(iso.resource(1), Some(ResourceStatus::Running));
}

#[test]
fn kill_on_missing_rid_fails() {
    let mut iso = Isolate::new();
    let resp = call_sync(&mut iso, KILL, 999);
    assert_eq!(resp.result, -1);
    assert_eq!(resp.rid, 999);
    assert_eq!(iso.resource(999), None);
}

#[test]
fn run_twice_fails_the_second_time() {
    let mut iso = Isolate::new();
    assert_eq!(call_sync(&mut iso, RUN, 4).result, 0);
    assert_eq!(call_sync(&mut iso, RUN, 4).result, -1);
}

#[test]
fn kill_ends_a_running_resource_once() {
    let mut iso = Isolate::new();
    call_sync(&mut iso, RUN, 3);
    assert_eq!(call_sync(&mut iso, KILL, 3).result, 0);
    assert_eq!(iso.resource(3), Some(ResourceStatus::Exited(KILLED_EXIT_CODE)));
    assert_eq!(call_sync(&mut iso, KILL, 3).result, -1);
}

#[test]
fn sync_call_leaves_nothing_pending() {
    let mut iso = Isolate::new();
    call_sync(&mut iso, RUN, 2);
    assert_eq!(iso.pending_count(), 0);
    assert!(iso.is_done());
}

#[test]
fn async_call_is_only_deferred() {
    let mut iso = Isolate::new();
    call_sync(&mut iso, RUN, 8);
    call_async(&mut iso, STATUS, 3, 8);
    assert_eq!(iso.pending_count(), 1);
    assert!(!iso.is_done());
    assert!(iso.poll().is_empty());
    assert_eq!(iso.pending_count(), 1);
}

#[test]
fn async_responses_keep_their_promise_ids() {
    let mut iso = Isolate::new();
    call_sync(&mut iso, RUN, 7);
    call_sync(&mut iso, RUN, 5);
    call_async(&mut iso, STATUS, 11, 7);
    call_async(&mut iso, STATUS, 10, 5);
    assert!(iso.poll().is_empty());

    iso.exit_resource(7, 3);
    let first = iso.poll();
    assert_eq!(first, vec![Record { promise_id: 11, rid: 7, result: 3 }]);
    assert_eq!(iso.pending_count(), 1);

    assert_eq!(call_sync(&mut iso, KILL, 5).result, 0);
    let second = iso.poll();
    assert_eq!(
        second,
        vec![Record { promise_id: 10, rid: 5, result: KILLED_EXIT_CODE as i32 }]
    );
    assert!(iso.is_done());
}

#[test]
fn every_async_call_is_answered_once() {
    let mut iso = Isolate::new();
    call_sync(&mut iso, RUN, 1);
    call_sync(&mut iso, RUN, 2);
    call_async(&mut iso, STATUS, 1, 1);
    call_async(&mut iso, STATUS, 2, 2);
    call_async(&mut iso, STATUS, 3, 42);
    let mut answered: Vec<u32> = Vec::new();
    for r in iso.poll() {
        answered.push(r.promise_id);
    }
    assert_eq!(answered, vec![3]);
    iso.exit_resource(1, 0);
    iso.exit_resource(2, 1);
    for r in iso.poll() {
        answered.push(r.promise_id);
    }
    assert!(iso.is_done());
    assert!(iso.poll().is_empty());
    answered.sort();
    assert_eq!(answered, vec![1, 2, 3]);
}

#[test]
fn status_on_missing_rid_fails_at_once() {
    let mut iso = Isolate::new();
    call_async(&mut iso, STATUS, 9, 999);
    assert_eq!(iso.poll(), vec![Record { promise_id: 9, rid: 999, result: -1 }]);
    assert!(iso.is_done());
}

#[test]
fn check_call_reports_each_wire_error() {
    let mut iso = Isolate::new();
    assert_eq!(iso.check_call(7, &control(0, 1)), Err(WireError::UnknownOp));
    assert_eq!(iso.check_call(RUN, &[0u8; 11]), Err(WireError::BadLength));
    assert_eq!(iso.check_call(RUN, &[0u8; 13]), Err(WireError::BadLength));
    assert_eq!(iso.check_call(RUN, &[]), Err(WireError::BadLength));
    assert_eq!(iso.check_call(RUN, &control(4, 1)), Err(WireError::PromiseMismatch));
    assert_eq!(iso.check_call(STATUS, &control(0, 1)), Err(WireError::PromiseMismatch));
    call_sync(&mut iso, RUN, 1);
    call_async(&mut iso, STATUS, 6, 1);
    assert_eq!(iso.check_call(STATUS, &control(6, 2)), Err(WireError::DuplicatePromise));
    assert_eq!(iso.check_call(STATUS, &control(5, 2)), Ok(()));
}

#[test]
fn every_failure_becomes_minus_one() {
    let req = Record { promise_id: 4, rid: 9, result: 77 };
    let expected = Record { promise_id: 4, rid: 9, result: -1 };
    assert_eq!(respond(req, Err(OpError::AlreadyTracked)), expected);
    assert_eq!(respond(req, Err(OpError::NotFound)), expected);
    assert_eq!(respond(req, Err(OpError::NotRunning)), expected);
    assert_eq!(respond(req, Ok(5)), Record { promise_id: 4, rid: 9, result: 5 });
}

#[test]
fn ops_on_a_bare_state() {
    let mut s = State::new();
    assert!(matches!(op_status(&s, 2, None), OpPoll::Ready(Err(OpError::NotFound))));
    assert_eq!(op_run(&mut s, 2, None), Ok(0));
    assert!(matches!(op_status(&s, 2, None), OpPoll::Pending));
    assert_eq!(op_kill(&mut s, 2, Some(&[1, 2, 3])), Ok(0));
    assert!(matches!(op_status(&s, 2, None), OpPoll::Ready(Ok(137))));
    assert_eq!(op_kill(&mut s, 2, None), Err(OpError::NotRunning));
    assert_eq!(op_kill(&mut s, 5, None), Err(OpError::NotFound));
    assert_eq!(op_run(&mut s, 2, None), Err(OpError::AlreadyTracked));
}
