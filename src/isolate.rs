//! The op registry, the dispatch bridge and the driver for deferred ops.
//!
//! The engine calls an op by its id with a 12-byte control buffer. A
//! synchronous op answers at once with the encoded response; an
//! asynchronous one is kept as pending and answered by a later `poll`,
//! under the promise id and resource id of its own request.

use crate::ops::{op_kill, op_run, op_status, kill_spec, run_spec, status_spec, OpError, OpPoll};
use crate::record::{decode_spec, encode_spec, Record, RECORD_LEN};
use crate::state::{ResourceStatus, State};
use vstd::prelude::*;

verus! {

broadcast use {vstd::seq_lib::group_to_multiset_ensures, vstd::multiset::group_multiset_axioms};

/// An op that answers within the call.
#[derive(Clone, Copy, Debug, PartialEq, Eq, Structural)]
pub enum SyncOp {
    Run,
    Kill,
}

/// An op whose answer comes later.
#[derive(Clone, Copy, Debug, PartialEq, Eq, Structural)]
pub enum AsyncOp {
    Status,
}

/// How a registered name is served.
#[derive(Clone, Copy, Debug, PartialEq, Eq, Structural)]
pub enum OpBinding {
    Sync(SyncOp),
    Async(AsyncOp),
}

/// A registered op.
pub struct OpEntry {
    pub name: String,
    pub binding: OpBinding,
}

/// An asynchronous call that has not been answered yet.
#[derive(Clone, Copy, Debug, PartialEq, Eq, Structural)]
pub struct PendingOp {
    pub request: Record,
    pub op: AsyncOp,
}

/// A call that breaks the wire contract: the engine and the host are out of
/// step, and the call must not go on.
#[derive(Clone, Copy, Debug, PartialEq, Eq, Structural)]
pub enum WireError {
    /// No op is registered under the id.
    UnknownOp,
    /// The control buffer is not `RECORD_LEN` bytes long.
    BadLength,
    /// A promise id of zero for an asynchronous op, or a nonzero one for a
    /// synchronous op.
    PromiseMismatch,
    /// The promise id belongs to a call that is still pending.
    DuplicatePromise,
}

/// The response to `req` after the op ended with `outcome`: the request's
/// promise id and resource id, and the success value or -1.
pub open spec fn respond_spec(req: Record, outcome: Result<u32, OpError>) -> Record {
    Record {
        promise_id: req.promise_id,
        rid: req.rid,
        result: match outcome {
            Ok(v) => v as i32,
            Err(_) => -1i32,
        },
    }
}

/// A success value that a response can carry.
pub open spec fn fits_result(outcome: Result<u32, OpError>) -> bool {
    outcome is Ok ==> outcome->Ok_0 <= i32::MAX
}

/// The table and outcome of a synchronous op.
pub open spec fn sync_spec(op: SyncOp, m: Map<u32, ResourceStatus>, rid: u32) -> (Map<u32, ResourceStatus>, Result<u32, OpError>) {
    match op {
        SyncOp::Run => run_spec(m, rid),
        SyncOp::Kill => kill_spec(m, rid),
    }
}

/// Where an asynchronous op stands on the table `m`.
pub open spec fn async_spec(op: AsyncOp, m: Map<u32, ResourceStatus>, rid: u32) -> OpPoll {
    match op {
        AsyncOp::Status => status_spec(m, rid),
    }
}

/// Whether a pending call can be answered on the table `m`.
pub open spec fn is_ready(m: Map<u32, ResourceStatus>, p: PendingOp) -> bool {
    async_spec(p.op, m, p.request.rid) is Ready
}

/// The response to a pending call that is ready on the table `m`.
pub open spec fn completion(m: Map<u32, ResourceStatus>, p: PendingOp) -> Record {
    respond_spec(p.request, async_spec(p.op, m, p.request.rid)->Ready_0)
}

/// The pending calls that can be answered on the table `m`.
pub open spec fn ready_on(m: Map<u32, ResourceStatus>) -> spec_fn(PendingOp) -> bool {
    |p: PendingOp| is_ready(m, p)
}

/// The pending calls that must still wait on the table `m`.
pub open spec fn waiting_on(m: Map<u32, ResourceStatus>) -> spec_fn(PendingOp) -> bool {
    |p: PendingOp| !is_ready(m, p)
}

/// The response to each ready call on the table `m`.
pub open spec fn completion_on(m: Map<u32, ResourceStatus>) -> spec_fn(PendingOp) -> Record {
    |p: PendingOp| completion(m, p)
}

/// The promise ids of a list of pending calls.
pub open spec fn pids(s: Seq<PendingOp>) -> Seq<u32> {
    s.map_values(|p: PendingOp| p.request.promise_id)
}

/// The response record for `req`: a failure of any kind becomes -1.
pub fn respond(req: Record, outcome: Result<u32, OpError>) -> (r: Record)
    requires
        fits_result(outcome),
    ensures
        r == respond_spec(req, outcome),
{
    let result: i32 = match outcome {
        Ok(v) => v as i32,
        Err(_) => -1,
    };
    Record { promise_id: req.promise_id, rid: req.rid, result }
}

/// Every failure gives the same response, with a result of -1, whatever
/// its cause.
pub proof fn lemma_failure_collapse(req: Record, e1: OpError, e2: OpError)
    ensures
        respond_spec(req, Err(e1)).result == -1,
        respond_spec(req, Err(e1)) == respond_spec(req, Err(e2)),
{
}

/// A host-side engine context: the shared state, the registered ops and
/// the asynchronous calls still to be answered.
pub struct Isolate {
    state: State,
    ops: Vec<OpEntry>,
    pending: Vec<PendingOp>,
    issued: Ghost<Seq<u32>>,
    delivered: Ghost<Seq<u32>>,
}

impl Isolate {
    /// The resource table.
    pub closed spec fn state_view(&self) -> Map<u32, ResourceStatus> {
        self.state@
    }

    /// The registered ops, by id: name and binding.
    pub closed spec fn bindings(&self) -> Seq<(Seq<char>, OpBinding)> {
        self.ops@.map_values(|e: OpEntry| (e.name@, e.binding))
    }

    /// The asynchronous calls not answered yet, oldest first.
    pub closed spec fn pending_view(&self) -> Seq<PendingOp> {
        self.pending@
    }

    /// The promise ids of every asynchronous call made so far.
    pub closed spec fn issued_view(&self) -> Seq<u32> {
        self.issued@
    }

    /// The promise ids of every asynchronous response handed out so far.
    pub closed spec fn delivered_view(&self) -> Seq<u32> {
        self.delivered@
    }

    /// Pending promise ids are nonzero and distinct, and every call made is
    /// either answered once or still pending.
    pub closed spec fn wf(&self) -> bool {
        &&& pids(self.pending@).no_duplicates()
        &&& forall|i: int| 0 <= i < self.pending@.len() ==> #[trigger] self.pending@[i].request.promise_id != 0
        &&& self.issued@.to_multiset() == self.delivered@.to_multiset().add(pids(self.pending@).to_multiset())
    }

    /// Whether an op is registered under `name`.
    pub open spec fn has_name(&self, name: Seq<char>) -> bool {
        exists|i: int| 0 <= i < self.bindings().len() && #[trigger] self.bindings()[i].0 == name
    }

    /// Whether a pending call carries `promise_id`.
    pub open spec fn is_pending(&self, promise_id: u32) -> bool {
        exists|i: int| 0 <= i < self.pending_view().len() && #[trigger] self.pending_view()[i].request.promise_id == promise_id
    }

    /// What is wrong with calling op `op_id` with `control`, if anything.
    pub open spec fn call_error(&self, op_id: int, control: Seq<u8>) -> Option<WireError> {
        if !(0 <= op_id < self.bindings().len()) {
            Some(WireError::UnknownOp)
        } else if control.len() != RECORD_LEN {
            Some(WireError::BadLength)
        } else {
            let pid = decode_spec(control).promise_id;
            match self.bindings()[op_id].1 {
                OpBinding::Sync(_) => if pid != 0 {
                    Some(WireError::PromiseMismatch)
                } else {
                    None
                },
                OpBinding::Async(_) => if pid == 0 {
                    Some(WireError::PromiseMismatch)
                } else if self.is_pending(pid) {
                    Some(WireError::DuplicatePromise)
                } else {
                    None
                },
            }
        }
    }
}

impl Isolate {
    fn register(&mut self, name: &str, binding: OpBinding) -> (id: usize)
        requires
            old(self).wf(),
        ensures
            final(self).wf(),
            id == old(self).bindings().len(),
            final(self).bindings() == old(self).bindings().push((name@, binding)),
            final(self).state_view() == old(self).state_view(),
            final(self).pending_view() == old(self).pending_view(),
            final(self).issued_view() == old(self).issued_view(),
            final(self).delivered_view() == old(self).delivered_view(),
    {
        let id = self.ops.len();
        self.ops.push(OpEntry { name: name.to_owned(), binding });
        assert(self.bindings() =~= old(self).bindings().push((name@, binding)));
        id
    }

    /// Binds `name` to a synchronous op and returns its id. A name is
    /// registered once.
    pub fn register_sync_op(&mut self, name: &str, op: SyncOp) -> (id: usize)
        requires
            old(self).wf(),
            !old(self).has_name(name@),
        ensures
            final(self).wf(),
            id == old(self).bindings().len(),
            final(self).bindings() == old(self).bindings().push((name@, OpBinding::Sync(op))),
            final(self).state_view() == old(self).state_view(),
            final(self).pending_view() == old(self).pending_view(),
            final(self).issued_view() == old(self).issued_view(),
            final(self).delivered_view() == old(self).delivered_view(),
    {
        self.register(name, OpBinding::Sync(op))
    }

    /// Binds `name` to an asynchronous op and returns its id. A name is
    /// registered once.
    pub fn register_op(&mut self, name: &str, op: AsyncOp) -> (id: usize)
        requires
            old(self).wf(),
            !old(self).has_name(name@),
        ensures
            final(self).wf(),
            id == old(self).bindings().len(),
            final(self).bindings() == old(self).bindings().push((name@, OpBinding::Async(op))),
            final(self).state_view() == old(self).state_view(),
            final(self).pending_view() == old(self).pending_view(),
            final(self).issued_view() == old(self).issued_view(),
            final(self).delivered_view() == old(self).delivered_view(),
    {
        self.register(name, OpBinding::Async(op))
    }

    /// A context with an empty resource table, no call made, and the ops
    /// `run` (id 0) and `kill` (id 1), synchronous, and `status` (id 2),
    /// asynchronous.
    pub fn new() -> (r: Isolate)
        ensures
            r.wf(),
            r.state_view() == Map::<u32, ResourceStatus>::empty(),
            r.bindings() == seq![
                ("run"@, OpBinding::Sync(SyncOp::Run)),
                ("kill"@, OpBinding::Sync(SyncOp::Kill)),
                ("status"@, OpBinding::Async(AsyncOp::Status)),
            ],
            r.pending_view().len() == 0,
            r.issued_view().len() == 0,
            r.delivered_view().len() == 0,
    {
        let mut isolate = Isolate {
            state: State::new(),
            ops: Vec::new(),
            pending: Vec::new(),
            issued: Ghost(Seq::empty()),
            delivered: Ghost(Seq::empty()),
        };
        proof {
            reveal_strlit("run");
            reveal_strlit("kill");
            reveal_strlit("status");
            assert(isolate.bindings() =~= Seq::empty());
            assert(pids(isolate.pending@) =~= Seq::empty());
            assert(isolate.issued@.to_multiset() =~= isolate.delivered@.to_multiset().add(
                pids(isolate.pending@).to_multiset(),
            ));
        }
        isolate.register_sync_op("run", SyncOp::Run);
        assert(isolate.bindings()[0].0.len() == 3);
        assert("kill"@.len() == 4);
        isolate.register_sync_op("kill", SyncOp::Kill);
        assert(isolate.bindings()[1].0.len() == 4);
        assert("status"@.len() == 6);
        isolate.register_op("status", AsyncOp::Status);
        assert(isolate.bindings() =~= seq![
            ("run"@, OpBinding::Sync(SyncOp::Run)),
            ("kill"@, OpBinding::Sync(SyncOp::Kill)),
            ("status"@, OpBinding::Async(AsyncOp::Status)),
        ]);
        isolate
    }
}

impl Isolate {
    fn find_pending(&self, promise_id: u32) -> (r: bool)
        ensures
            r == self.is_pending(promise_id),
    {
        let mut i: usize = 0;
        while i < self.pending.len()
            invariant
                i <= self.pending@.len(),
                forall|k: int| 0 <= k < i ==> self.pending@[k].request.promise_id != promise_id,
            decreases self.pending@.len() - i,
        {
            if self.pending[i].request.promise_id == promise_id {
                return true;
            }
            i += 1;
        }
        false
    }

    /// Checks a call of op `op_id` with `control` against the wire
    /// contract: `Ok` exactly when the call may be dispatched.
    pub fn check_call(&self, op_id: usize, control: &[u8]) -> (r: Result<(), WireError>)
        ensures
            r is Ok <==> self.call_error(op_id as int, control@) is None,
            r is Err ==> self.call_error(op_id as int, control@) == Some(r->Err_0),
    {
        if op_id >= self.ops.len() {
            return Err(WireError::UnknownOp);
        }
        if control.len() != RECORD_LEN {
            return Err(WireError::BadLength);
        }
        let req = Record::decode(control);
        match self.ops[op_id].binding {
            OpBinding::Sync(_) => {
                if req.promise_id != 0 {
                    Err(WireError::PromiseMismatch)
                } else {
                    Ok(())
                }
            },
            OpBinding::Async(_) => {
                if req.promise_id == 0 {
                    Err(WireError::PromiseMismatch)
                } else if self.find_pending(req.promise_id) {
                    Err(WireError::DuplicatePromise)
                } else {
                    Ok(())
                }
            },
        }
    }

    /// Serves one call from the engine. A synchronous op runs to its end
    /// and the encoded response comes back at once; an asynchronous op is
    /// kept as pending, to be answered by `poll`, and nothing comes back.
    pub fn dispatch(&mut self, op_id: usize, control: &[u8], zero_copy: Option<&[u8]>) -> (r: Option<Vec<u8>>)
        requires
            old(self).wf(),
            old(self).call_error(op_id as int, control@) is None,
        ensures
            final(self).wf(),
            final(self).bindings() == old(self).bindings(),
            final(self).delivered_view() == old(self).delivered_view(),
            decode_spec(control@).promise_id == 0 ==> r is Some && final(self).pending_view()
                == old(self).pending_view(),
            decode_spec(control@).promise_id != 0 ==> r is None && final(self).pending_view().len()
                == old(self).pending_view().len() + 1,
            ({
                let req = decode_spec(control@);
                match old(self).bindings()[op_id as int].1 {
                    OpBinding::Sync(op) => {
                        let (m, outcome) = sync_spec(op, old(self).state_view(), req.rid);
                        &&& r is Some
                        &&& r->Some_0@ == encode_spec(respond_spec(req, outcome))
                        &&& final(self).state_view() == m
                        &&& final(self).pending_view() == old(self).pending_view()
                        &&& final(self).issued_view() == old(self).issued_view()
                    },
                    OpBinding::Async(op) => {
                        &&& r is None
                        &&& final(self).state_view() == old(self).state_view()
                        &&& final(self).pending_view() == old(self).pending_view().push(
                            (PendingOp { request: req, op: op }),
                        )
                        &&& final(self).issued_view() == old(self).issued_view().push(req.promise_id)
                    },
                }
            }),
    {
        let req = Record::decode(control);
        let binding = self.ops[op_id].binding;
        assert(binding == old(self).bindings()[op_id as int].1);
        match binding {
            OpBinding::Sync(op) => {
                let outcome = match op {
                    SyncOp::Run => op_run(&mut self.state, req.rid, zero_copy),
                    SyncOp::Kill => op_kill(&mut self.state, req.rid, zero_copy),
                };
                let resp = respond(req, outcome);
                Some(resp.encode())
            },
            OpBinding::Async(op) => {
                let entry = PendingOp { request: req, op };
                proof {
                    assert(pids(self.pending@.push(entry)) =~= pids(self.pending@).push(req.promise_id));
                    assert(!pids(self.pending@).contains(req.promise_id)) by {
                        if pids(self.pending@).contains(req.promise_id) {
                            let k = choose|k: int| 0 <= k < pids(self.pending@).len() && pids(self.pending@)[k] == req.promise_id;
                            assert(self.pending@[k].request.promise_id == req.promise_id);
                        }
                    }
                }
                self.pending.push(entry);
                self.issued = Ghost(self.issued@.push(req.promise_id));
                proof {
                    assert(self.issued@.to_multiset() =~= self.delivered@.to_multiset().add(
                        pids(self.pending@).to_multiset(),
                    ));
                }
                None
            },
        }
    }
}

impl Isolate {
    /// One tick of the driver: every pending call whose op has become
    /// ready is answered, oldest first, each under the promise id and
    /// resource id of its own request; the others stay pending in order.
    pub fn poll(&mut self) -> (r: Vec<Record>)
        requires
            old(self).wf(),
        ensures
            final(self).wf(),
            final(self).bindings() == old(self).bindings(),
            final(self).state_view() == old(self).state_view(),
            final(self).issued_view() == old(self).issued_view(),
            final(self).pending_view() == old(self).pending_view().filter(
                waiting_on(old(self).state_view()),
            ),
            r@ == old(self).pending_view().filter(ready_on(old(self).state_view())).map_values(
                completion_on(old(self).state_view()),
            ),
            final(self).delivered_view() == old(self).delivered_view() + r@.map_values(
                |x: Record| x.promise_id,
            ),
    {
        let ghost m = self.state@;
        let ghost before = self.pending@;
        let ghost delivered0 = self.delivered@;
        let ghost mut newly: Seq<u32> = Seq::empty();
        let n = self.pending.len();
        let mut kept: Vec<PendingOp> = Vec::new();
        let mut out: Vec<Record> = Vec::new();
        let mut i: usize = 0;
        while i < n
            invariant
                n == before.len(),
                i <= n,
                self.pending@ == before,
                self.state@ == m,
                self.ops == old(self).ops,
                self.issued == old(self).issued,
                pids(before).no_duplicates(),
                forall|k: int| 0 <= k < before.len() ==> #[trigger] before[k].request.promise_id != 0,
                self.delivered@ == delivered0 + newly,
                newly == out@.map_values(|x: Record| x.promise_id),
                kept@ == before.subrange(0, i as int).filter(waiting_on(m)),
                out@ == before.subrange(0, i as int).filter(ready_on(m)).map_values(completion_on(m)),
                pids(before.subrange(0, i as int)).to_multiset() == newly.to_multiset().add(
                    pids(kept@).to_multiset(),
                ),
                pids(kept@).no_duplicates(),
                forall|a: int|
                    0 <= a < kept@.len() ==> #[trigger] kept@[a].request.promise_id != 0 && (forall|k: int|
                        i <= k < n ==> kept@[a].request.promise_id != before[k].request.promise_id),
            decreases n - i,
        {
            let p = self.pending[i];
            let polled = match p.op {
                AsyncOp::Status => op_status(&self.state, p.request.rid, None),
            };
            proof {
                assert(before.subrange(0, i + 1) =~= before.subrange(0, i as int).push(p));
                before.subrange(0, i as int).lemma_filter_push(p, waiting_on(m));
                before.subrange(0, i as int).lemma_filter_push(p, ready_on(m));
                assert(pids(before.subrange(0, i + 1)) =~= pids(before.subrange(0, i as int)).push(
                    p.request.promise_id,
                ));
                assert forall|k: int| i < k < n implies p.request.promise_id
                    != before[k].request.promise_id by {
                    assert(pids(before)[i as int] == p.request.promise_id);
                    assert(pids(before)[k] == before[k].request.promise_id);
                }
            }
            match polled {
                OpPoll::Pending => {
                    proof {
                        assert(pids(kept@.push(p)) =~= pids(kept@).push(p.request.promise_id));
                        assert(!pids(kept@).contains(p.request.promise_id)) by {
                            if pids(kept@).contains(p.request.promise_id) {
                                let a = choose|a: int| 0 <= a < pids(kept@).len() && pids(kept@)[a] == p.request.promise_id;
                                assert(kept@[a].request.promise_id == p.request.promise_id);
                            }
                        }
                    }
                    kept.push(p);
                    proof {
                        assert(newly.to_multiset().add(pids(kept@).to_multiset()) =~= pids(
                            before.subrange(0, i + 1),
                        ).to_multiset());
                    }
                },
                OpPoll::Ready(outcome) => {
                    let resp = respond(p.request, outcome);
                    let ghost newly0 = newly;
                    out.push(resp);
                    proof {
                        newly = newly.push(p.request.promise_id);
                        assert(out@.map_values(|x: Record| x.promise_id) =~= newly);
                        assert(out@ =~= before.subrange(0, i + 1).filter(ready_on(m)).map_values(completion_on(m)));
                        assert(newly.to_multiset().add(pids(kept@).to_multiset()) =~= pids(
                            before.subrange(0, i + 1),
                        ).to_multiset());
                        assert(delivered0 + newly =~= (delivered0 + newly0).push(p.request.promise_id));
                    }
                    self.delivered = Ghost(self.delivered@.push(p.request.promise_id));
                },
            }
            i += 1;
        }
        proof {
            assert(before.subrange(0, n as int) =~= before);
            vstd::seq_lib::lemma_multiset_commutative(delivered0, newly);
            assert(self.issued@.to_multiset() =~= self.delivered@.to_multiset().add(
                pids(kept@).to_multiset(),
            ));
        }
        self.pending = kept;
        out
    }

    /// Whether no asynchronous call is left to answer.
    pub fn is_done(&self) -> (r: bool)
        ensures
            r == (self.pending_view().len() == 0),
    {
        self.pending.len() == 0
    }
}

impl Isolate {
    /// Records that resource `rid` has exited with `code`, as the resource
    /// table's owner reports it; a pending `status` on it becomes ready.
    pub fn exit_resource(&mut self, rid: u32, code: u8)
        requires
            old(self).wf(),
        ensures
            final(self).wf(),
            final(self).state_view() == old(self).state_view().insert(rid, ResourceStatus::Exited(code)),
            final(self).bindings() == old(self).bindings(),
            final(self).pending_view() == old(self).pending_view(),
            final(self).issued_view() == old(self).issued_view(),
            final(self).delivered_view() == old(self).delivered_view(),
    {
        self.state.set(rid, ResourceStatus::Exited(code));
    }

    /// What the resource table knows of `rid`.
    pub fn resource(&self, rid: u32) -> (r: Option<ResourceStatus>)
        ensures
            r == (if self.state_view().contains_key(rid) {
                Some(self.state_view()[rid])
            } else {
                None
            }),
    {
        self.state.lookup(rid)
    }

    /// The number of registered ops; their ids run from zero up to it.
    pub fn op_count(&self) -> (r: usize)
        ensures
            r == self.bindings().len(),
    {
        self.ops.len()
    }

    /// The name that op `op_id` was registered under.
    pub fn op_name(&self, op_id: usize) -> (r: &str)
        requires
            op_id < self.bindings().len(),
        ensures
            r@ == self.bindings()[op_id as int].0,
    {
        self.ops[op_id].name.as_str()
    }

    /// How op `op_id` is served.
    pub fn op_binding(&self, op_id: usize) -> (r: OpBinding)
        requires
            op_id < self.bindings().len(),
        ensures
            r == self.bindings()[op_id as int].1,
    {
        self.ops[op_id].binding
    }

    /// The number of asynchronous calls not answered yet.
    pub fn pending_count(&self) -> (r: usize)
        ensures
            r == self.pending_view().len(),
    {
        self.pending.len()
    }
}

/// Once the driver is done, every asynchronous call made has been answered
/// exactly once: the promise ids handed out are those issued, each as many
/// times as it was issued.
pub proof fn lemma_done_all_answered(iso: &Isolate)
    requires
        iso.wf(),
        iso.pending_view().len() == 0,
    ensures
        iso.delivered_view().to_multiset() == iso.issued_view().to_multiset(),
        forall|pid: u32| #[trigger] iso.issued_view().to_multiset().count(pid)
            == iso.delivered_view().to_multiset().count(pid),
{
    assert(pids(iso.pending_view()) =~= Seq::empty());
    assert(iso.issued_view().to_multiset() =~= iso.delivered_view().to_multiset());
}

} // verus!
