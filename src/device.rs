//! Devices and the resources created on them.

use vstd::prelude::*;
use crate::actor::{resource_ok, MAX_BUFFER_SIZE, WGPU};
use crate::buffer::GPUBufferState;
use crate::error::{DeviceError, GPUOutOfMemoryError, GpuError};
use crate::ids::{
    Backend, RawId, WebGPUAdapter, WebGPUBindGroup, WebGPUBindGroupLayout, WebGPUBuffer, WebGPUCommandEncoder,
    WebGPUComputePipeline, WebGPUDevice, WebGPUPipelineLayout, WebGPUQueue, WebGPUShaderModule,
};
use crate::protocol::{BindGroupBinding, BindGroupLayoutBinding, BufferDescriptor, DeviceDescriptor};
use crate::resources::{
    BindGroupEntry, BindGroupLayoutEntry, BufferEntry, CommandEncoderEntry, ComputePipelineEntry, DeviceEntry,
    EncodedOp, PipelineLayoutEntry, Resource, ResourceKind, ShaderModuleEntry,
};

verus! {

/// A buffer as creation leaves it: zero-filled, unmapped or mapped for
/// writing.
pub open spec fn is_new_buffer(r: Resource, device: RawId, desc: BufferDescriptor, mapped: bool) -> bool {
    match r {
        Resource::Buffer(b) => {
            &&& b.device == device
            &&& b.size == desc.size
            &&& b.usage == desc.usage
            &&& b.state == (if mapped {
                GPUBufferState::MappedForWriting
            } else {
                GPUBufferState::Unmapped
            })
            &&& b.contents@ == Seq::new(desc.size as nat, |i: int| 0u8)
        },
        _ => false,
    }
}

pub open spec fn layout_ids(layouts: Seq<WebGPUBindGroupLayout>) -> Seq<RawId> {
    layouts.map_values(|l: WebGPUBindGroupLayout| l.0)
}

pub open spec fn bound_buffers(bindings: Seq<BindGroupBinding>) -> Seq<RawId> {
    bindings.map_values(|b: BindGroupBinding| b.buffer.0)
}

/// Whether the bindings fill the layout's slots, one for one and in order.
pub open spec fn slots_match(bindings: Seq<BindGroupBinding>, layout: Seq<BindGroupLayoutBinding>) -> bool {
    bindings.len() == layout.len() && forall|i: int| 0 <= i < bindings.len() ==> bindings[i].binding == layout[i].binding
}

/// A zero-filled vector of the given length.
pub(crate) fn zeroed(n: u64) -> (r: Vec<u8>)
    requires
        n <= MAX_BUFFER_SIZE,
    ensures
        r@ == Seq::new(n as nat, |i: int| 0u8),
{
    let mut v: Vec<u8> = Vec::new();
    while (v.len() as u64) < n
        invariant
            v@.len() <= n,
            forall|k: int| 0 <= k < v@.len() ==> v@[k] == 0u8,
        decreases n - v@.len(),
    {
        v.push(0u8);
    }
    assert(v@ =~= Seq::new(n as nat, |i: int| 0u8));
    v
}

impl<S> WGPU<S> {
    /// What checking a list of references gives: the error of the first
    /// reference that fails its check, if any.
    pub open spec fn refs_check(&self, ids: Seq<RawId>, kind: ResourceKind, device: RawId) -> Result<(), GpuError>
        decreases ids.len(),
    {
        if ids.len() == 0 {
            Ok(())
        } else {
            match self.refs_check(ids.drop_last(), kind, device) {
                Err(e) => Err(e),
                Ok(_) => self.ref_check(ids.last(), kind, device),
            }
        }
    }

    proof fn lemma_refs_err_sticks(&self, ids: Seq<RawId>, kind: ResourceKind, device: RawId, i: int, n: int)
        requires
            0 <= i <= n <= ids.len(),
            self.refs_check(ids.take(i), kind, device) is Err,
        ensures
            self.refs_check(ids.take(n), kind, device) == self.refs_check(ids.take(i), kind, device),
        decreases n - i,
    {
        if n > i {
            self.lemma_refs_err_sticks(ids, kind, device, i, n - 1);
            assert(ids.take(n).drop_last() =~= ids.take(n - 1));
        }
    }

    /// The resources and errors as a creation leaves them.
    pub open spec fn keeps(&self, o: &Self) -> bool {
        &&& self.same_but_resources(o)
        &&& self.errors() == o.errors()
        &&& self.retired() == o.retired()
    }

    /// A creation that registered `entry` under the fresh identifier `id`.
    pub open spec fn creates(&self, o: &Self, id: RawId, backend: Backend, entry: Resource) -> bool {
        &&& self.keeps(o)
        &&& o.fresh(id, backend)
        &&& self.resources() == o.resources().insert(id, entry)
    }

    fn check_layouts(&self, layouts: &Vec<WebGPUBindGroupLayout>, device: RawId) -> (r: Result<(), GpuError>)
        ensures
            r == self.refs_check(layout_ids(layouts@), ResourceKind::BindGroupLayout, device),
    {
        let ghost ids = layout_ids(layouts@);
        let mut i: usize = 0;
        while i < layouts.len()
            invariant
                ids == layout_ids(layouts@),
                i <= layouts@.len(),
                self.refs_check(ids.take(i as int), ResourceKind::BindGroupLayout, device) == Ok::<(), GpuError>(()),
            decreases layouts.len() - i,
        {
            let c = self.check_ref(layouts[i].0, ResourceKind::BindGroupLayout, device);
            proof {
                assert(ids.take(i + 1).drop_last() =~= ids.take(i as int));
            }
            if let Err(e) = c {
                proof {
                    self.lemma_refs_err_sticks(ids, ResourceKind::BindGroupLayout, device, i + 1, ids.len() as int);
                    assert(ids.take(ids.len() as int) =~= ids);
                }
                return Err(e);
            }
            i += 1;
        }
        proof {
            assert(ids.take(ids.len() as int) =~= ids);
        }
        Ok(())
    }

    fn check_bound_buffers(&self, bindings: &Vec<BindGroupBinding>, device: RawId) -> (r: Result<(), GpuError>)
        ensures
            r == self.refs_check(bound_buffers(bindings@), ResourceKind::Buffer, device),
    {
        let ghost ids = bound_buffers(bindings@);
        let mut i: usize = 0;
        while i < bindings.len()
            invariant
                ids == bound_buffers(bindings@),
                i <= bindings@.len(),
                self.refs_check(ids.take(i as int), ResourceKind::Buffer, device) == Ok::<(), GpuError>(()),
            decreases bindings.len() - i,
        {
            let c = self.check_ref(bindings[i].buffer.0, ResourceKind::Buffer, device);
            proof {
                assert(ids.take(i + 1).drop_last() =~= ids.take(i as int));
            }
            if let Err(e) = c {
                proof {
                    self.lemma_refs_err_sticks(ids, ResourceKind::Buffer, device, i + 1, ids.len() as int);
                    assert(ids.take(ids.len() as int) =~= ids);
                }
                return Err(e);
            }
            i += 1;
        }
        proof {
            assert(ids.take(ids.len() as int) =~= ids);
        }
        Ok(())
    }

    /// What `request_device` leaves and returns, from state `o`.
    pub open spec fn request_device_post(&self, o: &Self, adapter: WebGPUAdapter, descriptor: DeviceDescriptor, r: Result<(WebGPUDevice, WebGPUQueue, DeviceDescriptor), GpuError>) -> bool {
        &&& (match o.lookup(adapter.0, ResourceKind::Adapter) {
            Err(e) => r == Err::<(WebGPUDevice, WebGPUQueue, DeviceDescriptor), GpuError>(e) 
                && self.unchanged(o),
            Ok(_) => if !o.has_room() {
                r == Err::<(WebGPUDevice, WebGPUQueue, DeviceDescriptor), GpuError>(GpuError::OperationFailed)
                    && self.unchanged(o)
            } else {
                match r {
                    Ok((d, q, desc)) => d.0 == q.0 && desc == descriptor && self.creates(
                        o,
                        d.0,
                        adapter.0.backend,
                        Resource::Device(DeviceEntry { adapter: adapter.0, descriptor }),
                    ),
                    Err(_) => false,
                }
            },
        })
    }

    /// Opens a device, and its queue under the same identifier, on an adapter.
    pub fn request_device(&mut self, adapter: WebGPUAdapter, descriptor: DeviceDescriptor) -> (r: Result<
        (WebGPUDevice, WebGPUQueue, DeviceDescriptor),
        GpuError,
    >)
        requires
            old(self).wf(),
        ensures
            final(self).wf(),
            final(self).request_device_post(old(self), adapter, descriptor, r),
    {
        if let Err(e) = self.resolve(adapter.0, ResourceKind::Adapter) {
            return Err(e);
        }
        match self.register(adapter.0.backend, Resource::Device(DeviceEntry { adapter: adapter.0, descriptor })) {
            None => Err(GpuError::OperationFailed),
            Some(id) => Ok((WebGPUDevice(id), WebGPUQueue(id), descriptor)),
        }
    }

    /// What `create_buffer` leaves and returns, from state `o`.
    pub open spec fn create_buffer_post(&self, o: &Self, device: WebGPUDevice, desc: BufferDescriptor, mapped: bool, r: Result<WebGPUBuffer, GpuError>) -> bool {
        &&& (match o.lookup(device.0, ResourceKind::Device) {
            Err(e) => r == Err::<WebGPUBuffer, GpuError>(e) && self.unchanged(o),
            Ok(_) => if desc.size > MAX_BUFFER_SIZE {
                &&& r == Err::<WebGPUBuffer, GpuError>(GpuError::OperationFailed)
                &&& self.same_but_resources(o)
                &&& self.resources() == o.resources()
                &&& self.retired() == o.retired()
                &&& self.reported(o, device.0, false)
            } else if !o.has_room() {
                r == Err::<WebGPUBuffer, GpuError>(GpuError::OperationFailed) && self.unchanged(o)
            } else {
                match r {
                    Ok(b) => self.creates(o, b.0, device.0.backend, self.resources()[b.0])
                        && is_new_buffer(self.resources()[b.0], device.0, desc, mapped),
                    Err(_) => false,
                }
            },
        })
    }

    /// What `create_bind_group_layout` leaves and returns, from state `o`.
    pub open spec fn create_bind_group_layout_post(&self, o: &Self, device: WebGPUDevice, bindings: Vec<BindGroupLayoutBinding>, r: Result<WebGPUBindGroupLayout, GpuError>) -> bool {
        &&& (match o.lookup(device.0, ResourceKind::Device) {
            Err(e) => r == Err::<WebGPUBindGroupLayout, GpuError>(e) && self.unchanged(o),
            Ok(_) => if !o.has_room() {
                r == Err::<WebGPUBindGroupLayout, GpuError>(GpuError::OperationFailed) && self.unchanged(
                    o,
                )
            } else {
                match r {
                    Ok(l) => self.creates(
                        o,
                        l.0,
                        device.0.backend,
                        Resource::BindGroupLayout(BindGroupLayoutEntry { device: device.0, bindings }),
                    ),
                    Err(_) => false,
                }
            },
        })
    }

    /// Creates a zero-filled buffer; a buffer larger than the backend can
    /// allocate is reported on the device's error stream as out of memory.
    pub fn create_buffer(&mut self, device: WebGPUDevice, desc: BufferDescriptor, mapped: bool) -> (r: Result<
        WebGPUBuffer,
        GpuError,
    >)
        requires
            old(self).wf(),
        ensures
            final(self).wf(),
            final(self).create_buffer_post(old(self), device, desc, mapped, r),
    {
        if let Err(e) = self.resolve(device.0, ResourceKind::Device) {
            return Err(e);
        }
        if desc.size > MAX_BUFFER_SIZE {
            self.report(device.0, DeviceError::OutOfMemory(GPUOutOfMemoryError::new()));
            proof {
                assert(self.errors().take(old(self).errors().len() as int) =~= old(self).errors());
            }
            return Err(GpuError::OperationFailed);
        }
        let state = if mapped {
            GPUBufferState::MappedForWriting
        } else {
            GPUBufferState::Unmapped
        };
        let entry = BufferEntry {
            device: device.0,
            size: desc.size,
            usage: desc.usage,
            state,
            contents: zeroed(desc.size),
        };
        match self.register(device.0.backend, Resource::Buffer(entry)) {
            None => Err(GpuError::OperationFailed),
            Some(id) => Ok(WebGPUBuffer(id)),
        }
    }

    pub fn create_bind_group_layout(&mut self, device: WebGPUDevice, bindings: Vec<BindGroupLayoutBinding>) -> (r:
        Result<WebGPUBindGroupLayout, GpuError>)
        requires
            old(self).wf(),
        ensures
            final(self).wf(),
            final(self).create_bind_group_layout_post(old(self), device, bindings, r),
    {
        if let Err(e) = self.resolve(device.0, ResourceKind::Device) {
            return Err(e);
        }
        match self.register(
            device.0.backend,
            Resource::BindGroupLayout(BindGroupLayoutEntry { device: device.0, bindings }),
        ) {
            None => Err(GpuError::OperationFailed),
            Some(id) => Ok(WebGPUBindGroupLayout(id)),
        }
    }

    /// What `create_pipeline_layout` leaves and returns, from state `o`.
    pub open spec fn create_pipeline_layout_post(&self, o: &Self, device: WebGPUDevice, layouts: Vec<WebGPUBindGroupLayout>, r: Result<WebGPUPipelineLayout, GpuError>) -> bool {
        &&& (match o.lookup(device.0, ResourceKind::Device) {
            Err(e) => r == Err::<WebGPUPipelineLayout, GpuError>(e) && self.unchanged(o),
            Ok(Resource::Device(d)) => if layouts@.len() > d.descriptor.max_bind_groups {
                r == Err::<WebGPUPipelineLayout, GpuError>(GpuError::ValidationFailure) && self.unchanged(
                    o,
                )
            } else if o.refs_check(layout_ids(layouts@), ResourceKind::BindGroupLayout, device.0) is Err {
                r == Err::<WebGPUPipelineLayout, GpuError>(
                    o.refs_check(layout_ids(layouts@), ResourceKind::BindGroupLayout, device.0)->Err_0,
                ) && self.unchanged(o)
            } else if !o.has_room() {
                r == Err::<WebGPUPipelineLayout, GpuError>(GpuError::OperationFailed) && self.unchanged(
                    o,
                )
            } else {
                match r {
                    Ok(l) => self.creates(
                        o,
                        l.0,
                        device.0.backend,
                        Resource::PipelineLayout(
                            PipelineLayoutEntry { device: device.0, bind_group_layouts: layouts },
                        ),
                    ),
                    Err(_) => false,
                }
            },
            Ok(_) => false,
        })
    }

    /// Creates a pipeline layout from bind group layouts of the same device,
    /// no more of them than the device's bind group limit.
    pub fn create_pipeline_layout(&mut self, device: WebGPUDevice, layouts: Vec<WebGPUBindGroupLayout>) -> (r:
        Result<WebGPUPipelineLayout, GpuError>)
        requires
            old(self).wf(),
        ensures
            final(self).wf(),
            final(self).create_pipeline_layout_post(old(self), device, layouts, r),
    {
        let max = match self.resolve(device.0, ResourceKind::Device) {
            Err(e) => {
                return Err(e);
            },
            Ok(Resource::Device(d)) => d.descriptor.max_bind_groups,
            Ok(_) => {
                return Err(GpuError::WrongResourceKind);
            },
        };
        if layouts.len() as u64 > max as u64 {
            return Err(GpuError::ValidationFailure);
        }
        if let Err(e) = self.check_layouts(&layouts, device.0) {
            return Err(e);
        }
        match self.register(
            device.0.backend,
            Resource::PipelineLayout(PipelineLayoutEntry { device: device.0, bind_group_layouts: layouts }),
        ) {
            None => Err(GpuError::OperationFailed),
            Some(id) => Ok(WebGPUPipelineLayout(id)),
        }
    }

    /// What `create_bind_group` leaves and returns, from state `o`.
    pub open spec fn create_bind_group_post(&self, o: &Self, device: WebGPUDevice, layout: WebGPUBindGroupLayout, bindings: Vec<BindGroupBinding>, r: Result<WebGPUBindGroup, GpuError>) -> bool {
        &&& (match o.lookup(device.0, ResourceKind::Device) {
            Err(e) => r == Err::<WebGPUBindGroup, GpuError>(e) && self.unchanged(o),
            Ok(_) => if o.ref_check(layout.0, ResourceKind::BindGroupLayout, device.0) is Err {
                r == Err::<WebGPUBindGroup, GpuError>(
                    o.ref_check(layout.0, ResourceKind::BindGroupLayout, device.0)->Err_0,
                ) && self.unchanged(o)
            } else if !slots_match(bindings@, o.resources()[layout.0]->BindGroupLayout_0.bindings@) {
                r == Err::<WebGPUBindGroup, GpuError>(GpuError::ValidationFailure) && self.unchanged(
                    o,
                )
            } else if o.refs_check(bound_buffers(bindings@), ResourceKind::Buffer, device.0) is Err {
                r == Err::<WebGPUBindGroup, GpuError>(
                    o.refs_check(bound_buffers(bindings@), ResourceKind::Buffer, device.0)->Err_0,
                ) && self.unchanged(o)
            } else if !o.has_room() {
                r == Err::<WebGPUBindGroup, GpuError>(GpuError::OperationFailed) && self.unchanged(
                    o,
                )
            } else {
                match r {
                    Ok(g) => self.creates(
                        o,
                        g.0,
                        device.0.backend,
                        Resource::BindGroup(BindGroupEntry { device: device.0, layout: layout.0, bindings }),
                    ),
                    Err(_) => false,
                }
            },
        })
    }

    /// What `create_shader_module` leaves and returns, from state `o`.
    pub open spec fn create_shader_module_post(&self, o: &Self, device: WebGPUDevice, code: Vec<u32>, r: Result<WebGPUShaderModule, GpuError>) -> bool {
        &&& (match o.lookup(device.0, ResourceKind::Device) {
            Err(e) => r == Err::<WebGPUShaderModule, GpuError>(e) && self.unchanged(o),
            Ok(_) => if !o.has_room() {
                r == Err::<WebGPUShaderModule, GpuError>(GpuError::OperationFailed) && self.unchanged(
                    o,
                )
            } else {
                match r {
                    Ok(m) => self.creates(
                        o,
                        m.0,
                        device.0.backend,
                        Resource::ShaderModule(ShaderModuleEntry { device: device.0, code }),
                    ),
                    Err(_) => false,
                }
            },
        })
    }

    /// Creates a bind group: the layout must belong to the device, the
    /// bindings fill its slots in order, and each bound buffer belongs to
    /// the device.
    pub fn create_bind_group(
        &mut self,
        device: WebGPUDevice,
        layout: WebGPUBindGroupLayout,
        bindings: Vec<BindGroupBinding>,
    ) -> (r: Result<WebGPUBindGroup, GpuError>)
        requires
            old(self).wf(),
        ensures
            final(self).wf(),
            final(self).create_bind_group_post(old(self), device, layout, bindings, r),
    {
        if let Err(e) = self.resolve(device.0, ResourceKind::Device) {
            return Err(e);
        }
        if let Err(e) = self.check_ref(layout.0, ResourceKind::BindGroupLayout, device.0) {
            return Err(e);
        }
        let matches = match self.resolve(layout.0, ResourceKind::BindGroupLayout) {
            Ok(Resource::BindGroupLayout(l)) => {
                if bindings.len() != l.bindings.len() {
                    false
                } else {
                    let mut ok = true;
                    let mut i: usize = 0;
                    while i < bindings.len()
                        invariant
                            bindings@.len() == l.bindings@.len(),
                            i <= bindings@.len(),
                            ok == forall|k: int| 0 <= k < i ==> bindings@[k].binding == l.bindings@[k].binding,
                        decreases bindings.len() - i,
                    {
                        if bindings[i].binding != l.bindings[i].binding {
                            ok = false;
                        }
                        i += 1;
                    }
                    ok
                }
            },
            _ => false,
        };
        if !matches {
            return Err(GpuError::ValidationFailure);
        }
        if let Err(e) = self.check_bound_buffers(&bindings, device.0) {
            return Err(e);
        }
        match self.register(
            device.0.backend,
            Resource::BindGroup(BindGroupEntry { device: device.0, layout: layout.0, bindings }),
        ) {
            None => Err(GpuError::OperationFailed),
            Some(id) => Ok(WebGPUBindGroup(id)),
        }
    }

    pub fn create_shader_module(&mut self, device: WebGPUDevice, code: Vec<u32>) -> (r: Result<
        WebGPUShaderModule,
        GpuError,
    >)
        requires
            old(self).wf(),
        ensures
            final(self).wf(),
            final(self).create_shader_module_post(old(self), device, code, r),
    {
        if let Err(e) = self.resolve(device.0, ResourceKind::Device) {
            return Err(e);
        }
        match self.register(device.0.backend, Resource::ShaderModule(ShaderModuleEntry { device: device.0, code })) {
            None => Err(GpuError::OperationFailed),
            Some(id) => Ok(WebGPUShaderModule(id)),
        }
    }

    /// What `create_compute_pipeline` leaves and returns, from state `o`.
    pub open spec fn create_compute_pipeline_post(&self, o: &Self, device: WebGPUDevice, layout: WebGPUPipelineLayout, module: WebGPUShaderModule, entry_point: String, r: Result<WebGPUComputePipeline, GpuError>) -> bool {
        &&& (match o.lookup(device.0, ResourceKind::Device) {
            Err(e) => r == Err::<WebGPUComputePipeline, GpuError>(e) && self.unchanged(o),
            Ok(_) => if o.ref_check(layout.0, ResourceKind::PipelineLayout, device.0) is Err {
                r == Err::<WebGPUComputePipeline, GpuError>(
                    o.ref_check(layout.0, ResourceKind::PipelineLayout, device.0)->Err_0,
                ) && self.unchanged(o)
            } else if o.ref_check(module.0, ResourceKind::ShaderModule, device.0) is Err {
                r == Err::<WebGPUComputePipeline, GpuError>(
                    o.ref_check(module.0, ResourceKind::ShaderModule, device.0)->Err_0,
                ) && self.unchanged(o)
            } else if !o.has_room() {
                r == Err::<WebGPUComputePipeline, GpuError>(GpuError::OperationFailed) && self.unchanged(
                    o,
                )
            } else {
                match r {
                    Ok(p) => self.creates(
                        o,
                        p.0,
                        device.0.backend,
                        Resource::ComputePipeline(
                            ComputePipelineEntry { device: device.0, layout: layout.0, module: module.0, entry_point },
                        ),
                    ),
                    Err(_) => false,
                }
            },
        })
    }

    /// Creates a compute pipeline from a pipeline layout and a shader module
    /// of the same device.
    pub fn create_compute_pipeline(
        &mut self,
        device: WebGPUDevice,
        layout: WebGPUPipelineLayout,
        module: WebGPUShaderModule,
        entry_point: String,
    ) -> (r: Result<WebGPUComputePipeline, GpuError>)
        requires
            old(self).wf(),
        ensures
            final(self).wf(),
            final(self).create_compute_pipeline_post(old(self), device, layout, module, entry_point, r),
    {
        if let Err(e) = self.resolve(device.0, ResourceKind::Device) {
            return Err(e);
        }
        if let Err(e) = self.check_ref(layout.0, ResourceKind::PipelineLayout, device.0) {
            return Err(e);
        }
        if let Err(e) = self.check_ref(module.0, ResourceKind::ShaderModule, device.0) {
            return Err(e);
        }
        match self.register(
            device.0.backend,
            Resource::ComputePipeline(
                ComputePipelineEntry { device: device.0, layout: layout.0, module: module.0, entry_point },
            ),
        ) {
            None => Err(GpuError::OperationFailed),
            Some(id) => Ok(WebGPUComputePipeline(id)),
        }
    }

    /// What `create_command_encoder` leaves and returns, from state `o`.
    pub open spec fn create_command_encoder_post(&self, o: &Self, device: WebGPUDevice, r: Result<WebGPUCommandEncoder, GpuError>) -> bool {
        &&& (match o.lookup(device.0, ResourceKind::Device) {
            Err(e) => r == Err::<WebGPUCommandEncoder, GpuError>(e) && self.unchanged(o),
            Ok(_) => if !o.has_room() {
                r == Err::<WebGPUCommandEncoder, GpuError>(GpuError::OperationFailed) && self.unchanged(
                    o,
                )
            } else {
                match r {
                    Ok(e) => self.creates(o, e.0, device.0.backend, self.resources()[e.0])
                        && (self.resources()[e.0] matches Resource::CommandEncoder(c) && c.device
                        == device.0 && c.ops@ == Seq::<EncodedOp>::empty() && c.valid),
                    Err(_) => false,
                }
            },
        })
    }

    /// Creates an empty, valid command encoder.
    pub fn create_command_encoder(&mut self, device: WebGPUDevice) -> (r: Result<WebGPUCommandEncoder, GpuError>)
        requires
            old(self).wf(),
        ensures
            final(self).wf(),
            final(self).create_command_encoder_post(old(self), device, r),
    {
        if let Err(e) = self.resolve(device.0, ResourceKind::Device) {
            return Err(e);
        }
        let entry = CommandEncoderEntry { device: device.0, ops: Vec::new(), valid: true };
        match self.register(device.0.backend, Resource::CommandEncoder(entry)) {
            None => Err(GpuError::OperationFailed),
            Some(id) => Ok(WebGPUCommandEncoder(id)),
        }
    }
}

} // verus!
