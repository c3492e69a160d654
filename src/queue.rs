//! Submission: a queue executes command buffers in the order given.

use vstd::prelude::*;
use crate::actor::{resource_ok, PendingMap, MAX_BUFFER_SIZE, WGPU};
use crate::buffer::pending_state;
use crate::error::{DeviceError, GPUValidationError, GpuError};
use crate::ids::{RawId, WebGPUCommandBuffer, WebGPUQueue};
use crate::resources::{BufferEntry, CopyOp, EncodedOp, Resource, ResourceKind, SubmittedOp};

verus! {

/// The contents of every live buffer.
pub open spec fn contents(res: Map<RawId, Resource>) -> Map<RawId, Seq<u8>> {
    Map::new(|id: RawId| res.contains_key(id) && res[id] is Buffer, |id: RawId| res[id]->Buffer_0.contents@)
}

/// `dst` with `size` bytes from `src` at `src_offset` written at `dst_offset`.
pub open spec fn copied(dst: Seq<u8>, dst_offset: int, src: Seq<u8>, src_offset: int, size: int) -> Seq<u8> {
    Seq::new(
        dst.len(),
        |i: int|
            if dst_offset <= i < dst_offset + size {
                src[src_offset + i - dst_offset]
            } else {
                dst[i]
            },
    )
}

pub open spec fn run_copy(m: Map<RawId, Seq<u8>>, c: CopyOp) -> Map<RawId, Seq<u8>> {
    m.insert(c.dst, copied(m[c.dst], c.dst_offset as int, m[c.src], c.src_offset as int, c.size as int))
}

/// Buffer contents after the backend executes `ops` in order; only copies
/// touch them.
pub open spec fn run_ops(m: Map<RawId, Seq<u8>>, ops: Seq<EncodedOp>) -> Map<RawId, Seq<u8>>
    decreases ops.len(),
{
    if ops.len() == 0 {
        m
    } else {
        let before = run_ops(m, ops.drop_last());
        match ops.last() {
            EncodedOp::Copy(c) => run_copy(before, c),
            _ => before,
        }
    }
}

pub open spec fn tagged(queue: RawId, ops: Seq<EncodedOp>) -> Seq<SubmittedOp> {
    ops.map_values(|op: EncodedOp| SubmittedOp { queue, op })
}

/// Two versions of a resource that differ at most in a buffer's contents.
pub open spec fn same_shape(a: Resource, b: Resource) -> bool {
    match (a, b) {
        (Resource::Buffer(x), Resource::Buffer(y)) => x.device == y.device && x.size == y.size && x.usage == y.usage
            && x.state == y.state,
        (Resource::Buffer(_), _) => false,
        (_, Resource::Buffer(_)) => false,
        _ => a == b,
    }
}

proof fn lemma_run_ops_concat(m: Map<RawId, Seq<u8>>, a: Seq<EncodedOp>, b: Seq<EncodedOp>)
    ensures
        run_ops(m, a + b) == run_ops(run_ops(m, a), b),
    decreases b.len(),
{
    if b.len() == 0 {
        assert(a + b =~= a);
    } else {
        lemma_run_ops_concat(m, a, b.drop_last());
        assert((a + b).drop_last() =~= a + b.drop_last());
        assert((a + b).last() == b.last());
    }
}

proof fn lemma_run_ops_push(m: Map<RawId, Seq<u8>>, ops: Seq<EncodedOp>, op: EncodedOp)
    ensures
        run_ops(m, ops.push(op)) == match op {
            EncodedOp::Copy(c) => run_copy(run_ops(m, ops), c),
            _ => run_ops(m, ops),
        },
{
    assert(ops.push(op).drop_last() =~= ops);
}

impl<S> WGPU<S> {
    pub open spec fn cb_ops(&self, cb: RawId) -> Seq<EncodedOp> {
        self.resources()[cb]->CommandBuffer_0.ops@
    }

    /// A copy that fits and whose buffers are both unmapped.
    pub open spec fn copy_runnable(&self, c: CopyOp) -> bool {
        &&& self.copy_ok(c)
        &&& self.resources()[c.src]->Buffer_0.state is Unmapped
        &&& self.resources()[c.dst]->Buffer_0.state is Unmapped
    }

    pub open spec fn ops_runnable(&self, ops: Seq<EncodedOp>) -> bool {
        forall|i: int| 0 <= i < ops.len() && #[trigger] ops[i] is Copy ==> self.copy_runnable(ops[i]->Copy_0)
    }

    /// Whether a batch can be submitted to `queue`: distinct live command
    /// buffers of the queue's device, each of whose copies can run now.
    pub open spec fn batch_ok(&self, queue: RawId, cbs: Seq<WebGPUCommandBuffer>) -> bool {
        &&& forall|i: int|
            0 <= i < cbs.len() ==> #[trigger] self.ref_check(cbs[i].0, ResourceKind::CommandBuffer, queue) is Ok
                && self.ops_runnable(self.cb_ops(cbs[i].0))
        &&& forall|i: int, j: int| 0 <= i < j < cbs.len() ==> cbs[i] != cbs[j]
    }

    /// The operations of a batch, buffer after buffer.
    pub open spec fn batch_ops(&self, cbs: Seq<WebGPUCommandBuffer>) -> Seq<EncodedOp>
        decreases cbs.len(),
    {
        if cbs.len() == 0 {
            Seq::empty()
        } else {
            self.batch_ops(cbs.drop_last()) + self.cb_ops(cbs.last().0)
        }
    }

    /// Same backends, and every live resource of `self` is live in `o`
    /// with the same shape.
    pub open spec fn shaped_like(&self, o: &Self) -> bool {
        &&& self.backends() == o.backends()
        &&& forall|id: RawId| #[trigger]
            self.resources().contains_key(id) ==> o.resources().contains_key(id) && same_shape(
                self.resources()[id],
                o.resources()[id],
            )
    }

    proof fn lemma_runnable_kept(&self, o: &Self, c: CopyOp)
        requires
            self.shaped_like(o),
            o.copy_runnable(c),
            self.resources().contains_key(c.src),
            self.resources().contains_key(c.dst),
        ensures
            self.copy_runnable(c),
    {
        assert(same_shape(self.resources()[c.src], o.resources()[c.src]));
        assert(same_shape(self.resources()[c.dst], o.resources()[c.dst]));
    }

    fn check_runnable(&self, ops: &Vec<EncodedOp>) -> (r: bool)
        ensures
            r == self.ops_runnable(ops@),
    {
        let mut i: usize = 0;
        while i < ops.len()
            invariant
                i <= ops@.len(),
                forall|k: int| 0 <= k < i && #[trigger] ops@[k] is Copy ==> self.copy_runnable(ops@[k]->Copy_0),
            decreases ops.len() - i,
        {
            if let EncodedOp::Copy(c) = &ops[i] {
                if !self.check_copy(*c) {
                    return false;
                }
                let states_ok = match (self.resolve(c.src, ResourceKind::Buffer), self.resolve(
                    c.dst,
                    ResourceKind::Buffer,
                )) {
                    (Ok(Resource::Buffer(s)), Ok(Resource::Buffer(d))) => s.state.is_usable_by_commands()
                        && d.state.is_usable_by_commands(),
                    _ => false,
                };
                if !states_ok {
                    return false;
                }
            }
            i += 1;
        }
        true
    }

    fn check_batch(&self, queue: RawId, cbs: &Vec<WebGPUCommandBuffer>) -> (r: bool)
        ensures
            r == self.batch_ok(queue, cbs@),
    {
        let mut i: usize = 0;
        while i < cbs.len()
            invariant
                i <= cbs@.len(),
                forall|k: int|
                    0 <= k < i ==> #[trigger] self.ref_check(cbs@[k].0, ResourceKind::CommandBuffer, queue) is Ok
                        && self.ops_runnable(self.cb_ops(cbs@[k].0)),
                forall|k: int, j: int| 0 <= k < j < i ==> cbs@[k] != cbs@[j],
            decreases cbs.len() - i,
        {
            if self.check_ref(cbs[i].0, ResourceKind::CommandBuffer, queue).is_err() {
                return false;
            }
            let runnable = match self.resolve(cbs[i].0, ResourceKind::CommandBuffer) {
                Ok(Resource::CommandBuffer(e)) => self.check_runnable(&e.ops),
                _ => false,
            };
            if !runnable {
                return false;
            }
            let mut j: usize = 0;
            while j < i
                invariant
                    i < cbs@.len(),
                    j <= i,
                    forall|k: int| 0 <= k < j ==> cbs@[k] != cbs@[i as int],
                decreases i - j,
            {
                if cbs[j] == cbs[i] {
                    return false;
                }
                j += 1;
            }
            i += 1;
        }
        true
    }

    /// Executes one copy on the buffers' contents.
    fn execute_copy(&mut self, c: CopyOp)
        requires
            old(self).wf(),
            old(self).copy_runnable(c),
        ensures
            final(self).wf(),
            final(self).same_but_resources(old(self)),
            final(self).errors() == old(self).errors(),
            final(self).retired() == old(self).retired(),
            final(self).has_room() == old(self).has_room(),
            final(self).resources().dom() == old(self).resources().dom(),
            forall|id: RawId| #[trigger]
                final(self).resources().contains_key(id) ==> same_shape(
                    final(self).resources()[id],
                    old(self).resources()[id],
                ),
            contents(final(self).resources()) == run_copy(contents(old(self).resources()), c),
    {
        let (device, size, usage, state, out) = match (
            self.resolve(c.src, ResourceKind::Buffer),
            self.resolve(c.dst, ResourceKind::Buffer),
        ) {
            (Ok(Resource::Buffer(s)), Ok(Resource::Buffer(d))) => {
                proof {
                    self.lemma_resource_ok(c.src);
                    self.lemma_resource_ok(c.dst);
                }
                let ghost want = copied(
                    d.contents@,
                    c.dst_offset as int,
                    s.contents@,
                    c.src_offset as int,
                    c.size as int,
                );
                let mut out: Vec<u8> = Vec::new();
                let n = d.contents.len();
                let lo = c.dst_offset as usize;
                let hi = (c.dst_offset + c.size) as usize;
                while out.len() < n
                    invariant
                        n == d.contents@.len(),
                        n == d.size,
                        d.size <= MAX_BUFFER_SIZE,
                        s.contents@.len() == s.size,
                        s.size <= MAX_BUFFER_SIZE,
                        c.src_offset + c.size <= s.size,
                        c.dst_offset + c.size <= d.size,
                        lo == c.dst_offset,
                        hi == c.dst_offset + c.size,
                        want == copied(d.contents@, c.dst_offset as int, s.contents@, c.src_offset as int, c.size as int),
                        out@.len() <= n,
                        forall|k: int| 0 <= k < out@.len() ==> out@[k] == want[k],
                    decreases n - out@.len(),
                {
                    let k = out.len();
                    if lo <= k && k < hi {
                        let si = c.src_offset as usize + (k - lo);
                        out.push(s.contents[si]);
                    } else {
                        out.push(d.contents[k]);
                    }
                    proof {
                        assert(out@[k as int] == want[k as int]);
                    }
                }
                proof {
                    assert(out@ =~= want);
                }
                (d.device, d.size, d.usage, d.state, out)
            },
            _ => {
                proof {
                    assert(false);
                }
                return;
            },
        };
        let ghost m = contents(self.resources());
        proof {
            self.lemma_pending_ok();
            assert forall|q: PendingMap<S>| #[trigger] self.pending().contains(q) && q.buffer == c.dst implies state
                == pending_state(q.mode) by {
                assert(self.map_target_ok(q));
            }
        }
        self.replace(c.dst, Resource::Buffer(BufferEntry { device, size, usage, state, contents: out }));
        proof {
            assert(contents(self.resources()) =~= run_copy(m, c));
            assert(self.resources().dom() =~= old(self).resources().dom());
        }
    }

    proof fn lemma_ops_runnable_kept(&self, o: &Self, ops: Seq<EncodedOp>)
        requires
            self.shaped_like(o),
            o.ops_runnable(ops),
            forall|id: RawId| #[trigger]
                o.resources().contains_key(id) && o.resources()[id] is Buffer ==> self.resources().contains_key(id),
        ensures
            self.ops_runnable(ops),
    {
        assert forall|i: int| 0 <= i < ops.len() && #[trigger] ops[i] is Copy implies self.copy_runnable(
            ops[i]->Copy_0,
        ) by {
            let c = ops[i]->Copy_0;
            assert(o.copy_runnable(c));
            assert(o.resources().contains_key(c.src) && o.resources()[c.src] is Buffer);
            assert(o.resources().contains_key(c.dst) && o.resources()[c.dst] is Buffer);
            self.lemma_runnable_kept(o, c);
        }
    }

    /// Executes the operations of one command buffer in order.
    fn execute_ops(&mut self, queue: RawId, ops: Vec<EncodedOp>)
        requires
            old(self).wf(),
            old(self).ops_runnable(ops@),
        ensures
            final(self).wf(),
            final(self).errors() == old(self).errors(),
            final(self).retired() == old(self).retired(),
            final(self).has_room() == old(self).has_room(),
            final(self).adapters() == old(self).adapters(),
            final(self).backends() == old(self).backends(),
            final(self).physical() == old(self).physical(),
            final(self).pending() == old(self).pending(),
            final(self).status() == old(self).status(),
            final(self).submitted() == old(self).submitted() + tagged(queue, ops@),
            final(self).resources().dom() == old(self).resources().dom(),
            forall|id: RawId| #[trigger]
                final(self).resources().contains_key(id) ==> same_shape(
                    final(self).resources()[id],
                    old(self).resources()[id],
                ),
            contents(final(self).resources()) == run_ops(contents(old(self).resources()), ops@),
    {
        let ghost all = ops@;
        let mut rest = ops;
        let total = rest.len();
        let mut n: usize = 0;
        proof {
            assert(all.subrange(0, all.len() as int) =~= all);
            assert(tagged(queue, all.take(0)) =~= Seq::<SubmittedOp>::empty());
            assert(self.submitted() =~= old(self).submitted() + tagged(queue, all.take(0)));
            assert(all.take(0) =~= Seq::<EncodedOp>::empty());
        }
        while rest.len() > 0
            invariant
                self.wf(),
                n <= all.len(),
                all.len() == total,
                rest@ == all.subrange(n as int, all.len() as int),
                old(self).ops_runnable(all),
                self.errors() == old(self).errors(),
                self.retired() == old(self).retired(),
                self.has_room() == old(self).has_room(),
                self.adapters() == old(self).adapters(),
                self.backends() == old(self).backends(),
                self.physical() == old(self).physical(),
                self.pending() == old(self).pending(),
                self.status() == old(self).status(),
                self.submitted() == old(self).submitted() + tagged(queue, all.take(n as int)),
                self.resources().dom() == old(self).resources().dom(),
                forall|id: RawId| #[trigger]
                    self.resources().contains_key(id) ==> same_shape(self.resources()[id], old(self).resources()[id]),
                contents(self.resources()) == run_ops(contents(old(self).resources()), all.take(n as int)),
            decreases rest.len(),
        {
            proof {
                assert(n < all.len());
            }
            let op = rest.remove(0);
            proof {
                assert(op == all[n as int]);
                assert(rest@ =~= all.subrange(n + 1, all.len() as int));
                assert(all.take(n + 1) =~= all.take(n as int).push(op));
                lemma_run_ops_push(contents(old(self).resources()), all.take(n as int), op);
            }
            if let EncodedOp::Copy(c) = &op {
                proof {
                    assert(all[n as int] is Copy);
                    assert(old(self).copy_runnable(*c));
                    assert(self.shaped_like(old(self)));
                    self.lemma_runnable_kept(old(self), *c);
                }
                self.execute_copy(*c);
            }
            let ghost sub_before = self.submitted();
            self.record_submitted(SubmittedOp { queue, op });
            proof {
                assert(tagged(queue, all.take(n + 1)) =~= tagged(queue, all.take(n as int)).push(
                    SubmittedOp { queue, op },
                ));
                assert(self.submitted() =~= old(self).submitted() + tagged(queue, all.take(n + 1)));
            }
            n = n + 1;
        }
        proof {
            assert(all.take(n as int) =~= all);
        }
    }

    /// What `submit` leaves and returns, from state `o`.
    pub open spec fn submit_post(&self, o: &Self, queue: WebGPUQueue, cbs: Vec<WebGPUCommandBuffer>, r: Result<(), GpuError>) -> bool {
        &&& (match o.lookup(queue.0, ResourceKind::Queue) {
            Err(e) => r == Err::<(), GpuError>(e) && self.unchanged(o),
            Ok(_) => if !o.batch_ok(queue.0, cbs@) {
                &&& r == Err::<(), GpuError>(GpuError::ValidationFailure)
                &&& self.same_but_resources(o)
                &&& self.resources() == o.resources()
                &&& self.retired() == o.retired()
                &&& self.reported(o, queue.0, true)
            } else {
                &&& r == Ok::<(), GpuError>(())
                &&& self.errors() == o.errors()
                &&& self.adapters() == o.adapters()
                &&& self.backends() == o.backends()
                &&& self.physical() == o.physical()
                &&& self.pending() == o.pending()
                &&& self.status() == o.status()
                &&& self.submitted() == o.submitted() + tagged(queue.0, o.batch_ops(cbs@))
                &&& forall|id: RawId|
                    #[trigger] self.resources().contains_key(id) <==> o.resources().contains_key(id)
                        && !cbs@.contains(WebGPUCommandBuffer(id))
                &&& forall|id: RawId| #[trigger]
                    self.resources().contains_key(id) ==> same_shape(
                        self.resources()[id],
                        o.resources()[id],
                    )
                &&& contents(self.resources()) == run_ops(
                    contents(o.resources()),
                    o.batch_ops(cbs@),
                )
            },
        })
    }

    /// Submits command buffers to a queue.  The batch is checked whole: if
    /// it holds distinct live command buffers of the queue's device whose
    /// copies can all run, they execute in the order given and are spent;
    /// otherwise nothing runs and a validation error is reported.
    pub fn submit(&mut self, queue: WebGPUQueue, cbs: Vec<WebGPUCommandBuffer>) -> (r: Result<(), GpuError>)
        requires
            old(self).wf(),
        ensures
            final(self).wf(),
            final(self).submit_post(old(self), queue, cbs, r),
    {
        if let Err(e) = self.resolve(queue.0, ResourceKind::Queue) {
            return Err(e);
        }
        if !self.check_batch(queue.0, &cbs) {
            self.report(queue.0, DeviceError::Validation(GPUValidationError::new("invalid submission".to_owned())));
            proof {
                assert(self.errors().take(old(self).errors().len() as int) =~= old(self).errors());
            }
            return Err(GpuError::ValidationFailure);
        }
        let mut i: usize = 0;
        proof {
            assert(cbs@.take(0) =~= Seq::<WebGPUCommandBuffer>::empty());
            assert(old(self).batch_ops(cbs@.take(0)) =~= Seq::<EncodedOp>::empty());
            assert(self.submitted() =~= old(self).submitted() + tagged(queue.0, old(self).batch_ops(cbs@.take(0))));
            assert(run_ops(contents(old(self).resources()), Seq::<EncodedOp>::empty()) == contents(old(self).resources()));
        }
        while i < cbs.len()
            invariant
                self.wf(),
                i <= cbs@.len(),
                old(self).batch_ok(queue.0, cbs@),
                self.errors() == old(self).errors(),
                self.adapters() == old(self).adapters(),
                self.backends() == old(self).backends(),
                self.physical() == old(self).physical(),
                self.pending() == old(self).pending(),
                self.status() == old(self).status(),
                self.submitted() == old(self).submitted() + tagged(queue.0, old(self).batch_ops(cbs@.take(i as int))),
                forall|id: RawId|
                    #[trigger] self.resources().contains_key(id) <==> old(self).resources().contains_key(id)
                        && !cbs@.take(i as int).contains(WebGPUCommandBuffer(id)),
                forall|id: RawId| #[trigger]
                    self.resources().contains_key(id) ==> same_shape(self.resources()[id], old(self).resources()[id]),
                contents(self.resources()) == run_ops(
                    contents(old(self).resources()),
                    old(self).batch_ops(cbs@.take(i as int)),
                ),
            decreases cbs.len() - i,
        {
            let cb = cbs[i];
            proof {
                assert(old(self).ref_check(cbs@[i as int].0, ResourceKind::CommandBuffer, queue.0) is Ok);
                assert(!cbs@.take(i as int).contains(cb)) by {
                    if cbs@.take(i as int).contains(cb) {
                        let k = choose|k: int| 0 <= k < i && #[trigger] cbs@.take(i as int)[k] == cb;
                        assert(cbs@[k] == cbs@[i as int]);
                    }
                }
                assert(self.resources().contains_key(cb.0));
                assert(same_shape(self.resources()[cb.0], old(self).resources()[cb.0]));
            }
            let ghost pre = self.resources();
            let prior = self.release(cb.0);
                        proof {
                assert(cbs@.take(i + 1) =~= cbs@.take(i as int).push(cb));
                assert(cbs@.take(i + 1).drop_last() =~= cbs@.take(i as int));
                assert forall|id: RawId|
                    #[trigger] self.resources().contains_key(id) <==> old(self).resources().contains_key(id)
                        && !cbs@.take(i + 1).contains(WebGPUCommandBuffer(id)) by {
                    if id == cb.0 {
                        assert(cbs@.take(i + 1)[i as int] == WebGPUCommandBuffer(id));
                    } else {
                        if cbs@.take(i + 1).contains(WebGPUCommandBuffer(id)) {
                            let k = choose|k: int| 0 <= k < i + 1 && #[trigger] cbs@.take(i + 1)[k] == WebGPUCommandBuffer(id);
                            assert(k != i);
                            assert(cbs@.take(i as int)[k] == WebGPUCommandBuffer(id));
                        }
                        if cbs@.take(i as int).contains(WebGPUCommandBuffer(id)) {
                            let k = choose|k: int| 0 <= k < i && #[trigger] cbs@.take(i as int)[k] == WebGPUCommandBuffer(id);
                            assert(cbs@.take(i + 1)[k] == WebGPUCommandBuffer(id));
                        }
                    }
                }
                assert(contents(self.resources()) =~= contents(pre));
            }
            match prior {
                Some(Resource::CommandBuffer(entry)) => {
                    proof {
                        assert(entry.ops@ == old(self).cb_ops(cb.0));
                        assert(self.shaped_like(old(self)));
                        assert forall|id: RawId| #[trigger]
                            old(self).resources().contains_key(id) && old(self).resources()[id] is Buffer
                            implies self.resources().contains_key(id) by {
                            if cbs@.take(i + 1).contains(WebGPUCommandBuffer(id)) {
                                let k = choose|k: int| 0 <= k < i + 1 && #[trigger] cbs@.take(i + 1)[k] == WebGPUCommandBuffer(id);
                                assert(old(self).ref_check(cbs@[k].0, ResourceKind::CommandBuffer, queue.0) is Ok);
                            }
                        }
                        self.lemma_ops_runnable_kept(old(self), entry.ops@);
                    }
                    self.execute_ops(queue.0, entry.ops);
                    proof {
                        lemma_run_ops_concat(
                            contents(old(self).resources()),
                            old(self).batch_ops(cbs@.take(i as int)),
                            old(self).cb_ops(cb.0),
                        );
                        assert(old(self).batch_ops(cbs@.take(i + 1)) == old(self).batch_ops(cbs@.take(i as int))
                            + old(self).cb_ops(cb.0));
                        assert(tagged(queue.0, old(self).batch_ops(cbs@.take(i + 1))) =~= tagged(
                            queue.0,
                            old(self).batch_ops(cbs@.take(i as int)),
                        ) + tagged(queue.0, old(self).cb_ops(cb.0)));
                    }
                },
                _ => {
                    proof {
                        assert(false);
                    }
                },
            }
            i += 1;
        }
        proof {
            assert(cbs@.take(cbs@.len() as int) =~= cbs@);
        }
        Ok(())
    }
}

} // verus!
