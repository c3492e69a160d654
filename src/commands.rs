//! Recording on command encoders: replaying compute passes, buffer copies,
//! and sealing an encoder into a command buffer.

use vstd::prelude::*;
use crate::actor::WGPU;
use crate::buffer::GPUBufferState;
use crate::error::{DeviceError, GPUValidationError, GpuError};
use crate::ids::{RawId, WebGPUBuffer, WebGPUCommandBuffer, WebGPUCommandEncoder};
use crate::protocol::{ComputeCommand, COPY_DST, COPY_SRC};
use crate::resources::{CommandBufferEntry, CommandEncoderEntry, CopyOp, EncodedOp, Resource, ResourceKind};

verus! {

/// The operations that replaying a pass hands to the backend: its commands
/// in the order recorded, up to the first `End`, leaving out each dispatch
/// that comes before any pipeline is set.
pub open spec fn replayed(cmds: Seq<ComputeCommand>, has_pipeline: bool) -> Seq<EncodedOp>
    decreases cmds.len(),
{
    if cmds.len() == 0 {
        Seq::empty()
    } else {
        let rest = cmds.drop_first();
        match cmds[0] {
            ComputeCommand::End => Seq::empty(),
            ComputeCommand::SetComputePipeline(_) => seq![EncodedOp::Compute(cmds[0])] + replayed(rest, true),
            ComputeCommand::Dispatch(_) => if has_pipeline {
                seq![EncodedOp::Compute(cmds[0])] + replayed(rest, true)
            } else {
                replayed(rest, false)
            },
            ComputeCommand::SetBindGroup { .. } => seq![EncodedOp::Compute(cmds[0])] + replayed(rest, has_pipeline),
        }
    }
}

/// Once a pipeline is set, a pass is replayed exactly as recorded, up to
/// its first `End`.
pub proof fn lemma_replay_keeps_order(cmds: Seq<ComputeCommand>, k: int)
    requires
        0 <= k <= cmds.len(),
        forall|i: int| 0 <= i < k ==> !(#[trigger] cmds[i] is End),
        k < cmds.len() ==> cmds[k] is End,
    ensures
        replayed(cmds, true) == cmds.take(k).map_values(|c: ComputeCommand| EncodedOp::Compute(c)),
    decreases cmds.len(),
{
    if cmds.len() == 0 || k == 0 {
        assert(cmds.take(k).map_values(|c: ComputeCommand| EncodedOp::Compute(c)) =~= Seq::<EncodedOp>::empty());
    } else {
        let rest = cmds.drop_first();
        assert forall|i: int| 0 <= i < k - 1 implies !(#[trigger] rest[i] is End) by {
            assert(rest[i] == cmds[i + 1]);
        }
        lemma_replay_keeps_order(rest, k - 1);
        assert(cmds.take(k).map_values(|c: ComputeCommand| EncodedOp::Compute(c)) =~= seq![
            EncodedOp::Compute(cmds[0]),
        ] + rest.take(k - 1).map_values(|c: ComputeCommand| EncodedOp::Compute(c)));
    }
}

/// Whether each dispatch among the first `k` commands comes after some
/// pipeline is set.
pub open spec fn dispatches_follow_pipeline(cmds: Seq<ComputeCommand>, k: int) -> bool {
    forall|i: int|
        0 <= i < k && #[trigger] cmds[i] is Dispatch ==> exists|j: int| 0 <= j < i && cmds[j] is SetComputePipeline
}

/// A pass none of whose dispatches comes before a pipeline is set is handed
/// to the backend exactly as recorded, up to its first `End`: no command is
/// dropped, moved or merged.
pub proof fn lemma_pass_replayed_in_order(cmds: Seq<ComputeCommand>, k: int)
    requires
        0 <= k <= cmds.len(),
        forall|i: int| 0 <= i < k ==> !(#[trigger] cmds[i] is End),
        k < cmds.len() ==> cmds[k] is End,
        dispatches_follow_pipeline(cmds, k),
    ensures
        replayed(cmds, false) == cmds.take(k).map_values(|c: ComputeCommand| EncodedOp::Compute(c)),
    decreases cmds.len(),
{
    if k == 0 {
        assert(cmds.take(k).map_values(|c: ComputeCommand| EncodedOp::Compute(c)) =~= Seq::<EncodedOp>::empty());
        if cmds.len() > 0 {
            assert(cmds[0] is End);
        }
    } else {
        let rest = cmds.drop_first();
        assert forall|i: int| 0 <= i < k - 1 implies !(#[trigger] rest[i] is End) by {
            assert(rest[i] == cmds[i + 1]);
        }
        assert(cmds.take(k).map_values(|c: ComputeCommand| EncodedOp::Compute(c)) =~= seq![EncodedOp::Compute(cmds[0])]
            + rest.take(k - 1).map_values(|c: ComputeCommand| EncodedOp::Compute(c)));
        if cmds[0] is Dispatch {
            assert(!(exists|j: int| 0 <= j < 0 && cmds[j] is SetComputePipeline));
        } else if cmds[0] is SetComputePipeline {
            lemma_replay_keeps_order(rest, k - 1);
        } else {
            assert forall|i: int| 0 <= i < k - 1 && #[trigger] rest[i] is Dispatch implies exists|j: int|
                0 <= j < i && rest[j] is SetComputePipeline by {
                assert(rest[i] == cmds[i + 1]);
                assert(cmds[i + 1] is Dispatch);
                let j = choose|j: int| 0 <= j < i + 1 && cmds[j] is SetComputePipeline;
                assert(j != 0);
                assert(rest[j - 1] == cmds[j]);
            }
            lemma_pass_replayed_in_order(rest, k - 1);
        }
    }
}

/// Replay keeps distinct passes distinct: two such passes that differ in
/// their commands up to `End` are seen differently by the backend.
pub proof fn lemma_replay_distinguishes(c1: Seq<ComputeCommand>, k1: int, c2: Seq<ComputeCommand>, k2: int)
    requires
        0 <= k1 <= c1.len(),
        forall|i: int| 0 <= i < k1 ==> !(#[trigger] c1[i] is End),
        k1 < c1.len() ==> c1[k1] is End,
        dispatches_follow_pipeline(c1, k1),
        0 <= k2 <= c2.len(),
        forall|i: int| 0 <= i < k2 ==> !(#[trigger] c2[i] is End),
        k2 < c2.len() ==> c2[k2] is End,
        dispatches_follow_pipeline(c2, k2),
        c1.take(k1) != c2.take(k2),
    ensures
        replayed(c1, false) != replayed(c2, false),
{
    lemma_pass_replayed_in_order(c1, k1);
    lemma_pass_replayed_in_order(c2, k2);
    let m1 = c1.take(k1).map_values(|c: ComputeCommand| EncodedOp::Compute(c));
    let m2 = c2.take(k2).map_values(|c: ComputeCommand| EncodedOp::Compute(c));
    if m1 == m2 {
        assert(m1.len() == k1 && m2.len() == k2);
        assert forall|i: int| 0 <= i < k1 implies c1.take(k1)[i] == c2.take(k2)[i] by {
            assert(m1[i] == EncodedOp::Compute(c1.take(k1)[i]));
            assert(m2[i] == EncodedOp::Compute(c2.take(k2)[i]));
            assert(m1[i] == m2[i]);
        }
        assert(c1.take(k1) =~= c2.take(k2));
    }
}

/// Appends the replay of a pass to an encoder's operations.
fn replay_into(ops: &mut Vec<EncodedOp>, commands: Vec<ComputeCommand>)
    ensures
        final(ops)@ == old(ops)@ + replayed(commands@, false),
{
    let mut cmds = commands;
    let mut has_pipeline = false;
    proof {
        assert(ops@ + replayed(cmds@, has_pipeline) == old(ops)@ + replayed(commands@, false));
    }
    while cmds.len() > 0
        invariant
            ops@ + replayed(cmds@, has_pipeline) == old(ops)@ + replayed(commands@, false),
        decreases cmds.len(),
    {
        let ghost before = cmds@;
        let ghost ops_before = ops@;
        let c = cmds.remove(0);
        proof {
            assert(cmds@ =~= before.drop_first());
        }
        let (end, sets_pipeline, is_dispatch) = match &c {
            ComputeCommand::End => (true, false, false),
            ComputeCommand::SetComputePipeline(_) => (false, true, false),
            ComputeCommand::Dispatch(_) => (false, false, true),
            ComputeCommand::SetBindGroup { .. } => (false, false, false),
        };
        if end {
            cmds.clear();
            proof {
                assert(ops@ + replayed(cmds@, has_pipeline) =~= ops_before + replayed(before, has_pipeline));
            }
        } else if is_dispatch && !has_pipeline {
        } else {
            ops.push(EncodedOp::Compute(c));
            proof {
                assert(ops@ + replayed(cmds@, has_pipeline || sets_pipeline) =~= ops_before + replayed(
                    before,
                    has_pipeline,
                ));
            }
            if sets_pipeline {
                has_pipeline = true;
            }
        }
    }
    proof {
        assert(ops@ + replayed(cmds@, has_pipeline) =~= ops@);
    }
}

impl<S> WGPU<S> {
    /// Whether bind group `group` fits slot `index` of the layout of the
    /// current pipeline, if one is set.
    pub open spec fn group_compatible(&self, current: Option<RawId>, index: u32, group: RawId) -> bool {
        match current {
            None => true,
            Some(p) => {
                let layout = self.resources()[p]->ComputePipeline_0.layout;
                let slots = self.resources()[layout]->PipelineLayout_0.bind_group_layouts@;
                &&& self.lookup(layout, ResourceKind::PipelineLayout) is Ok
                &&& index < slots.len()
                &&& slots[index as int].0 == self.resources()[group]->BindGroup_0.layout
            },
        }
    }

    /// Whether every command of a pass, up to its first `End`, names
    /// resources of the encoder's device: live compute pipelines, and live
    /// bind groups at an index under the device's bind group limit.  Each
    /// group must fit the layout of the pipeline current when it is bound,
    /// and every group bound when a pipeline is set must fit that pipeline's
    /// layout.  `bound` maps each index to the group bound there last.
    pub open spec fn pass_valid(
        &self,
        cmds: Seq<ComputeCommand>,
        device: RawId,
        max_bind_groups: u32,
        current: Option<RawId>,
        bound: Map<u32, RawId>,
    ) -> bool
        decreases cmds.len(),
    {
        if cmds.len() == 0 {
            true
        } else {
            match cmds[0] {
                ComputeCommand::End => true,
                ComputeCommand::SetComputePipeline(p) => {
                    &&& self.ref_check(p.0, ResourceKind::ComputePipeline, device) is Ok
                    &&& forall|idx: u32| #[trigger] bound.contains_key(idx) ==> self.group_compatible(Some(p.0), idx, bound[idx])
                    &&& self.pass_valid(cmds.drop_first(), device, max_bind_groups, Some(p.0), bound)
                },
                ComputeCommand::SetBindGroup { index, bind_group_id, .. } => {
                    &&& index < max_bind_groups
                    &&& self.ref_check(bind_group_id.0, ResourceKind::BindGroup, device) is Ok
                    &&& self.group_compatible(current, index, bind_group_id.0)
                    &&& self.pass_valid(
                        cmds.drop_first(),
                        device,
                        max_bind_groups,
                        current,
                        bound.insert(index, bind_group_id.0),
                    )
                },
                ComputeCommand::Dispatch(_) => self.pass_valid(cmds.drop_first(), device, max_bind_groups, current, bound),
            }
        }
    }

    /// Whether every group in `bound` fits the layout of pipeline `p`.
    fn check_bound_groups(&self, bound: &Vec<(u32, RawId)>, p: RawId, ghost_map: Ghost<Map<u32, RawId>>) -> (r: bool)
        requires
            self.lookup(p, ResourceKind::ComputePipeline) is Ok,
            forall|i: int| 0 <= i < bound@.len() ==> #[trigger] self.lookup(bound@[i].1, ResourceKind::BindGroup) is Ok,
            forall|k: u32| #[trigger] ghost_map@.contains_key(k) <==> exists|i: int| 0 <= i < bound@.len() && bound@[i].0 == k,
            forall|i: int| 0 <= i < bound@.len() ==> ghost_map@[#[trigger] bound@[i].0] == bound@[i].1,
        ensures
            r == forall|idx: u32| #[trigger] ghost_map@.contains_key(idx) ==> self.group_compatible(Some(p), idx, ghost_map@[idx]),
    {
        let mut i: usize = 0;
        while i < bound.len()
            invariant
                i <= bound@.len(),
                self.lookup(p, ResourceKind::ComputePipeline) is Ok,
                forall|k: int| 0 <= k < bound@.len() ==> #[trigger] self.lookup(bound@[k].1, ResourceKind::BindGroup) is Ok,
                forall|k: int| 0 <= k < i ==> self.group_compatible(Some(p), #[trigger] bound@[k].0, bound@[k].1),
                forall|k: u32| #[trigger] ghost_map@.contains_key(k) <==> exists|j: int| 0 <= j < bound@.len() && bound@[j].0 == k,
                forall|j: int| 0 <= j < bound@.len() ==> ghost_map@[#[trigger] bound@[j].0] == bound@[j].1,
            decreases bound.len() - i,
        {
            let (idx, g) = bound[i];
            if !self.check_group_compatible(Some(p), idx, g) {
                proof {
                    assert(ghost_map@.contains_key(idx));
                    assert(ghost_map@[bound@[i as int].0] == g);
                }
                return false;
            }
            i += 1;
        }
        proof {
            assert forall|idx: u32| #[trigger] ghost_map@.contains_key(idx) implies self.group_compatible(Some(p), idx, ghost_map@[idx]) by {
                let k = choose|k: int| 0 <= k < bound@.len() && bound@[k].0 == idx;
                assert(ghost_map@[bound@[k].0] == bound@[k].1);
            }
        }
        true
    }

    fn check_group_compatible(&self, current: Option<RawId>, index: u32, group: RawId) -> (r: bool)
        requires
            current matches Some(p) ==> self.lookup(p, ResourceKind::ComputePipeline) is Ok,
            self.lookup(group, ResourceKind::BindGroup) is Ok,
        ensures
            r == self.group_compatible(current, index, group),
    {
        match current {
            None => true,
            Some(p) => {
                let layout = match self.resolve(p, ResourceKind::ComputePipeline) {
                    Ok(Resource::ComputePipeline(e)) => e.layout,
                    _ => {
                        return false;
                    },
                };
                let group_layout = match self.resolve(group, ResourceKind::BindGroup) {
                    Ok(Resource::BindGroup(g)) => g.layout,
                    _ => {
                        return false;
                    },
                };
                match self.resolve(layout, ResourceKind::PipelineLayout) {
                    Ok(Resource::PipelineLayout(l)) => (index as usize) < l.bind_group_layouts.len()
                        && l.bind_group_layouts[index as usize].0 == group_layout,
                    _ => false,
                }
            },
        }
    }

    fn validate_pass(&self, cmds: &Vec<ComputeCommand>, device: RawId, max_bind_groups: u32) -> (r: bool)
        ensures
            r == self.pass_valid(cmds@, device, max_bind_groups, None, Map::empty()),
    {
        let ghost all = cmds@;
        let mut current: Option<RawId> = None;
        let mut bound: Vec<(u32, RawId)> = Vec::new();
        let ghost mut bmap = Map::<u32, RawId>::empty();
        let mut i: usize = 0;
        proof {
            assert(all.subrange(0, all.len() as int) =~= all);
        }
        while i < cmds.len()
            invariant
                all == cmds@,
                i <= all.len(),
                current matches Some(p) ==> self.lookup(p, ResourceKind::ComputePipeline) is Ok,
                forall|k: int| 0 <= k < bound@.len() ==> #[trigger] self.lookup(bound@[k].1, ResourceKind::BindGroup) is Ok,
                forall|k: u32| #[trigger] bmap.contains_key(k) <==> exists|j: int| 0 <= j < bound@.len() && bound@[j].0 == k,
                forall|j: int| 0 <= j < bound@.len() ==> bmap[#[trigger] bound@[j].0] == bound@[j].1,
                forall|a: int, b: int| 0 <= a < bound@.len() && 0 <= b < bound@.len() && #[trigger] bound@[a].0 == #[trigger] bound@[b].0 ==> a == b,
                self.pass_valid(all, device, max_bind_groups, None, Map::empty()) == self.pass_valid(
                    all.subrange(i as int, all.len() as int),
                    device,
                    max_bind_groups,
                    current,
                    bmap,
                ),
            decreases cmds.len() - i,
        {
            let ghost rest = all.subrange(i as int, all.len() as int);
            proof {
                assert(rest[0] == all[i as int]);
                assert(rest.drop_first() =~= all.subrange(i + 1, all.len() as int));
            }
            match &cmds[i] {
                ComputeCommand::End => {
                    return true;
                },
                ComputeCommand::SetComputePipeline(p) => {
                    if self.check_ref(p.0, ResourceKind::ComputePipeline, device).is_err() {
                        return false;
                    }
                    if !self.check_bound_groups(&bound, p.0, Ghost(bmap)) {
                        return false;
                    }
                    current = Some(p.0);
                },
                ComputeCommand::SetBindGroup { index, bind_group_id, .. } => {
                    if *index >= max_bind_groups {
                        return false;
                    }
                    if self.check_ref(bind_group_id.0, ResourceKind::BindGroup, device).is_err() {
                        return false;
                    }
                    if !self.check_group_compatible(current, *index, bind_group_id.0) {
                        return false;
                    }
                    let entry = (*index, bind_group_id.0);
                    let mut j: usize = 0;
                    while j < bound.len() && bound[j].0 != *index
                        invariant
                            j <= bound@.len(),
                            forall|k: int| 0 <= k < j ==> bound@[k].0 != *index,
                        decreases bound.len() - j,
                    {
                        j += 1;
                    }
                    let ghost before = bound@;
                    if j < bound.len() {
                        bound.set(j, entry);
                    } else {
                        bound.push(entry);
                    }
                    proof {
                        let old_map = bmap;
                        bmap = bmap.insert(*index, bind_group_id.0);
                        assert forall|k: u32| #[trigger] bmap.contains_key(k) implies exists|m: int|
                            0 <= m < bound@.len() && bound@[m].0 == k by {
                            if k == *index {
                                assert(bound@[j as int].0 == k);
                            } else {
                                let m = choose|m: int| 0 <= m < before.len() && before[m].0 == k;
                                assert(bound@[m].0 == k);
                            }
                        }
                        assert forall|k: u32| (exists|m: int| 0 <= m < bound@.len() && bound@[m].0 == k) implies #[trigger] bmap.contains_key(k) by {
                            let m = choose|m: int| 0 <= m < bound@.len() && bound@[m].0 == k;
                            if m != j {
                                assert(before[m].0 == k);
                            }
                        }
                        assert forall|a: int, b: int| 0 <= a < bound@.len() && 0 <= b < bound@.len() && #[trigger] bound@[a].0 == #[trigger] bound@[b].0 implies a == b by {
                            if a != j && b != j {
                                assert(before[a] == bound@[a] && before[b] == bound@[b]);
                            } else if a == j && b != j {
                                assert(before[b] == bound@[b]);
                            } else if b == j && a != j {
                                assert(before[a] == bound@[a]);
                            }
                        }
                        assert forall|m: int| 0 <= m < bound@.len() implies bmap[#[trigger] bound@[m].0] == bound@[m].1 by {
                            if m != j {
                                assert(before[m] == bound@[m]);
                                if bound@[m].0 == *index {
                                    assert(j < before.len());
                                    assert(before[j as int].0 == *index);
                                }
                            }
                        }
                    }
                },
                ComputeCommand::Dispatch(_) => {},
            }
            i += 1;
        }
        true
    }

    /// The encoder after a failed command: its operations kept, marked invalid.
    pub open spec fn invalidated(&self, o: &Self, encoder: RawId, enc: CommandEncoderEntry) -> bool {
        &&& self.same_but_resources(o)
        &&& self.retired() == o.retired()
        &&& self.reported(o, enc.device, true)
        &&& self.resources() == o.resources().insert(encoder, self.resources()[encoder])
        &&& self.resources()[encoder] matches Resource::CommandEncoder(e2)
        &&& e2.device == enc.device
        &&& !e2.valid
        &&& e2.ops@ == enc.ops@
    }

    /// The encoder after recording: `ops` now, still valid.
    pub open spec fn recorded(&self, o: &Self, encoder: RawId, enc: CommandEncoderEntry, ops: Seq<EncodedOp>) -> bool {
        &&& self.keeps(o)
        &&& self.resources() == o.resources().insert(encoder, self.resources()[encoder])
        &&& self.resources()[encoder] matches Resource::CommandEncoder(e2)
        &&& e2.device == enc.device
        &&& e2.valid
        &&& e2.ops@ == ops
    }

    /// Marks a live encoder invalid and reports a validation error on its
    /// device's error stream.
    fn invalidate(&mut self, encoder: RawId, device: RawId, message: &str)
        requires
            old(self).wf(),
            old(self).resources().contains_key(encoder),
            old(self).resources()[encoder] matches Resource::CommandEncoder(e) && e.device == device,
        ensures
            final(self).wf(),
            final(self).invalidated(old(self), encoder, old(self).resources()[encoder]->CommandEncoder_0),
    {
        let placeholder = CommandEncoderEntry { device, ops: Vec::new(), valid: false };
        let prior = self.exchange(encoder, Resource::CommandEncoder(placeholder));
        if let Resource::CommandEncoder(e) = prior {
            self.replace(encoder, Resource::CommandEncoder(CommandEncoderEntry { device, ops: e.ops, valid: false }));
        }
        let ghost mid = self.resources();
        self.report(device, DeviceError::Validation(GPUValidationError::new(message.to_owned())));
        proof {
            assert(self.errors().take(old(self).errors().len() as int) =~= old(self).errors());
            assert(mid =~= old(self).resources().insert(encoder, mid[encoder]));
        }
    }

    /// What `run_compute_pass` leaves and returns, from state `o`.
    pub open spec fn run_compute_pass_post(&self, o: &Self, encoder: WebGPUCommandEncoder, commands: Vec<ComputeCommand>, r: Result<(), GpuError>) -> bool {
        &&& (match o.lookup(encoder.0, ResourceKind::CommandEncoder) {
            Err(e) => r == Err::<(), GpuError>(e) && self.unchanged(o),
            Ok(Resource::CommandEncoder(enc)) => if !enc.valid {
                r == Err::<(), GpuError>(GpuError::ValidationFailure) && self.unchanged(o)
            } else {
                match o.lookup(enc.device, ResourceKind::Device) {
                    Err(e) => r == Err::<(), GpuError>(e) && self.unchanged(o),
                    Ok(Resource::Device(d)) => if o.pass_valid(
                        commands@,
                        enc.device,
                        d.descriptor.max_bind_groups,
                        None,
                        Map::empty(),
                    ) {
                        r == Ok::<(), GpuError>(()) && self.recorded(
                            o,
                            encoder.0,
                            enc,
                            enc.ops@ + replayed(commands@, false),
                        )
                    } else {
                        r == Err::<(), GpuError>(GpuError::ValidationFailure) && self.invalidated(
                            o,
                            encoder.0,
                            enc,
                        )
                    },
                    Ok(_) => false,
                }
            },
            Ok(_) => false,
        })
    }

    /// Replays a recorded pass on an encoder.  The pass is checked whole
    /// first: a valid pass is appended in the order recorded; an invalid
    /// one records nothing, invalidates the encoder and is reported on the
    /// device's error stream.
    pub fn run_compute_pass(&mut self, encoder: WebGPUCommandEncoder, commands: Vec<ComputeCommand>) -> (r: Result<
        (),
        GpuError,
    >)
        requires
            old(self).wf(),
        ensures
            final(self).wf(),
            final(self).run_compute_pass_post(old(self), encoder, commands, r),
    {
        let (device, valid) = match self.resolve(encoder.0, ResourceKind::CommandEncoder) {
            Err(e) => {
                return Err(e);
            },
            Ok(Resource::CommandEncoder(e)) => (e.device, e.valid),
            Ok(_) => {
                return Err(GpuError::WrongResourceKind);
            },
        };
        if !valid {
            return Err(GpuError::ValidationFailure);
        }
        let max = match self.resolve(device, ResourceKind::Device) {
            Err(e) => {
                return Err(e);
            },
            Ok(Resource::Device(d)) => d.descriptor.max_bind_groups,
            Ok(_) => {
                return Err(GpuError::WrongResourceKind);
            },
        };
        if !self.validate_pass(&commands, device, max) {
            self.invalidate(encoder.0, device, "invalid compute pass");
            return Err(GpuError::ValidationFailure);
        }
        let placeholder = CommandEncoderEntry { device, ops: Vec::new(), valid: true };
        let prior = self.exchange(encoder.0, Resource::CommandEncoder(placeholder));
        if let Resource::CommandEncoder(mut e) = prior {
            replay_into(&mut e.ops, commands);
            self.replace(encoder.0, Resource::CommandEncoder(e));
        }
        proof {
            assert(self.resources() =~= old(self).resources().insert(encoder.0, self.resources()[encoder.0]));
        }
        Ok(())
    }

    /// Whether a buffer can take part in a copy recorded on `device`.
    pub open spec fn copy_operand_ok(&self, buffer: RawId, device: RawId) -> bool {
        &&& self.ref_check(buffer, ResourceKind::Buffer, device) is Ok
        &&& self.resources()[buffer]->Buffer_0.state is Unmapped
    }

    fn check_copy_operand(&self, buffer: RawId, device: RawId) -> (r: bool)
        ensures
            r == self.copy_operand_ok(buffer, device),
    {
        if self.check_ref(buffer, ResourceKind::Buffer, device).is_err() {
            return false;
        }
        match self.resolve(buffer, ResourceKind::Buffer) {
            Ok(Resource::Buffer(b)) => b.state.is_usable_by_commands(),
            _ => false,
        }
    }

    /// What `copy_buffer` leaves and returns, from state `o`.
    pub open spec fn copy_buffer_post(&self, o: &Self, encoder: WebGPUCommandEncoder, src: WebGPUBuffer, src_offset: u64, dst: WebGPUBuffer, dst_offset: u64, size: u64, r: Result<(), GpuError>) -> bool {
        &&& (match o.lookup(encoder.0, ResourceKind::CommandEncoder) {
            Err(e) => r == Err::<(), GpuError>(e) && self.unchanged(o),
            Ok(Resource::CommandEncoder(enc)) => if !enc.valid {
                r == Err::<(), GpuError>(GpuError::ValidationFailure) && self.unchanged(o)
            } else if o.copy_operand_ok(src.0, enc.device) && o.copy_operand_ok(dst.0, enc.device) {
                r == Ok::<(), GpuError>(()) && self.recorded(
                    o,
                    encoder.0,
                    enc,
                    enc.ops@.push(
                        EncodedOp::Copy(CopyOp { src: src.0, src_offset, dst: dst.0, dst_offset, size }),
                    ),
                )
            } else {
                r == Err::<(), GpuError>(GpuError::ValidationFailure) && self.invalidated(
                    o,
                    encoder.0,
                    enc,
                )
            },
            Ok(_) => false,
        })
    }

    /// Records a buffer-to-buffer copy.  Both buffers must belong to the
    /// encoder's device and be unmapped; offsets and size are checked when
    /// the encoder finishes.
    pub fn copy_buffer(
        &mut self,
        encoder: WebGPUCommandEncoder,
        src: WebGPUBuffer,
        src_offset: u64,
        dst: WebGPUBuffer,
        dst_offset: u64,
        size: u64,
    ) -> (r: Result<(), GpuError>)
        requires
            old(self).wf(),
        ensures
            final(self).wf(),
            final(self).copy_buffer_post(old(self), encoder, src, src_offset, dst, dst_offset, size, r),
    {
        let (device, valid) = match self.resolve(encoder.0, ResourceKind::CommandEncoder) {
            Err(e) => {
                return Err(e);
            },
            Ok(Resource::CommandEncoder(e)) => (e.device, e.valid),
            Ok(_) => {
                return Err(GpuError::WrongResourceKind);
            },
        };
        if !valid {
            return Err(GpuError::ValidationFailure);
        }
        if !self.check_copy_operand(src.0, device) || !self.check_copy_operand(dst.0, device) {
            self.invalidate(encoder.0, device, "copy between buffers that are not usable");
            return Err(GpuError::ValidationFailure);
        }
        let placeholder = CommandEncoderEntry { device, ops: Vec::new(), valid: true };
        let prior = self.exchange(encoder.0, Resource::CommandEncoder(placeholder));
        if let Resource::CommandEncoder(mut e) = prior {
            e.ops.push(EncodedOp::Copy(CopyOp { src: src.0, src_offset, dst: dst.0, dst_offset, size }));
            self.replace(encoder.0, Resource::CommandEncoder(e));
        }
        proof {
            assert(self.resources() =~= old(self).resources().insert(encoder.0, self.resources()[encoder.0]));
        }
        Ok(())
    }

    /// Whether a recorded copy fits: two distinct live buffers, the source
    /// readable by copies and the destination writable, and both ranges in
    /// bounds.
    pub open spec fn copy_ok(&self, c: CopyOp) -> bool {
        &&& self.lookup(c.src, ResourceKind::Buffer) is Ok
        &&& self.lookup(c.dst, ResourceKind::Buffer) is Ok
        &&& c.src != c.dst
        &&& c.src_offset + c.size <= self.resources()[c.src]->Buffer_0.size
        &&& c.dst_offset + c.size <= self.resources()[c.dst]->Buffer_0.size
        &&& self.resources()[c.src]->Buffer_0.usage & COPY_SRC != 0
        &&& self.resources()[c.dst]->Buffer_0.usage & COPY_DST != 0
    }

    pub open spec fn ops_ok(&self, ops: Seq<EncodedOp>) -> bool {
        forall|i: int| 0 <= i < ops.len() && #[trigger] ops[i] is Copy ==> self.copy_ok(ops[i]->Copy_0)
    }

    pub(crate) fn check_copy(&self, c: CopyOp) -> (r: bool)
        ensures
            r == self.copy_ok(c),
    {
        let s = match self.resolve(c.src, ResourceKind::Buffer) {
            Ok(Resource::Buffer(b)) => b,
            _ => {
                return false;
            },
        };
        let d = match self.resolve(c.dst, ResourceKind::Buffer) {
            Ok(Resource::Buffer(b)) => b,
            _ => {
                return false;
            },
        };
        c.src != c.dst && (c.src_offset as u128) + (c.size as u128) <= s.size as u128 && (c.dst_offset as u128)
            + (c.size as u128) <= d.size as u128 && s.usage & COPY_SRC != 0 && d.usage & COPY_DST != 0
    }

    fn check_ops(&self, ops: &Vec<EncodedOp>) -> (r: bool)
        ensures
            r == self.ops_ok(ops@),
    {
        let mut i: usize = 0;
        while i < ops.len()
            invariant
                i <= ops@.len(),
                forall|k: int| 0 <= k < i && #[trigger] ops@[k] is Copy ==> self.copy_ok(ops@[k]->Copy_0),
            decreases ops.len() - i,
        {
            if let EncodedOp::Copy(c) = &ops[i] {
                if !self.check_copy(*c) {
                    return false;
                }
            }
            i += 1;
        }
        true
    }

    /// What `finish` leaves and returns, from state `o`.
    pub open spec fn finish_post(&self, o: &Self, encoder: WebGPUCommandEncoder, r: Result<WebGPUCommandBuffer, GpuError>) -> bool {
        &&& (match o.lookup(encoder.0, ResourceKind::CommandEncoder) {
            Err(e) => r == Err::<WebGPUCommandBuffer, GpuError>(e) && self.unchanged(o),
            Ok(Resource::CommandEncoder(enc)) => {
                &&& self.same_but_resources(o)
                &&& if !enc.valid || !o.ops_ok(enc.ops@) {
                    &&& r == Err::<WebGPUCommandBuffer, GpuError>(GpuError::ValidationFailure)
                    &&& self.resources() == o.resources().remove(encoder.0)
                    &&& self.retired() == o.retired().insert(encoder.0)
                    &&& self.reported(o, enc.device, true)
                } else {
                    &&& self.errors() == o.errors()
                    &&& match r {
                        Ok(cb) => {
                            &&& o.fresh(cb.0, encoder.0.backend)
                            &&& cb.0 != encoder.0
                            &&& self.resources() == o.resources().remove(encoder.0).insert(
                                cb.0,
                                Resource::CommandBuffer(CommandBufferEntry { device: enc.device, ops: enc.ops }),
                            )
                        },
                        Err(e) => {
                            &&& e == GpuError::OperationFailed
                            &&& !o.has_room()
                            &&& self.resources() == o.resources().remove(encoder.0)
                        },
                    }
                }
            },
            Ok(_) => false,
        })
    }

    /// Seals an encoder into a command buffer.  The encoder is spent either
    /// way; an encoder made invalid by an earlier command, or holding a copy
    /// that does not fit, yields a validation error on its device's stream.
    pub fn finish(&mut self, encoder: WebGPUCommandEncoder) -> (r: Result<WebGPUCommandBuffer, GpuError>)
        requires
            old(self).wf(),
        ensures
            final(self).wf(),
            final(self).finish_post(old(self), encoder, r),
    {
        if let Err(e) = self.resolve(encoder.0, ResourceKind::CommandEncoder) {
            return Err(e);
        }
        let ok = match self.resolve(encoder.0, ResourceKind::CommandEncoder) {
            Ok(Resource::CommandEncoder(e)) => e.valid && self.check_ops(&e.ops),
            _ => false,
        };
        let prior = self.release(encoder.0);
        match prior {
            Some(Resource::CommandEncoder(e)) => {
                if !ok {
                    self.report(e.device, DeviceError::Validation(GPUValidationError::new("invalid command encoder".to_owned())));
                    proof {
                        assert(self.errors().take(old(self).errors().len() as int) =~= old(self).errors());
                    }
                    return Err(GpuError::ValidationFailure);
                }
                let device = e.device;
                let ghost mid = *self;
                match self.register(encoder.0.backend, Resource::CommandBuffer(CommandBufferEntry { device, ops: e.ops })) {
                    None => Err(GpuError::OperationFailed),
                    Some(id) => {
                        proof {
                            assert forall|x: RawId| #[trigger] old(self).retired().contains(x) && x.index == id.index implies x.epoch
                                < id.epoch by {
                                assert(mid.retired().contains(x));
                            }
                        }
                        Ok(WebGPUCommandBuffer(id))
                    },
                }
            },
            _ => Err(GpuError::WrongResourceKind),
        }
    }
}

} // verus!
