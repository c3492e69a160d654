//! What the actor keeps for each kind of resource.

use vstd::prelude::*;
use crate::buffer::GPUBufferState;
use crate::error::DeviceError;
use crate::ids::{RawId, WebGPUBindGroupLayout};
use crate::protocol::{BindGroupBinding, BindGroupLayoutBinding, ComputeCommand, DeviceDescriptor};

verus! {

#[derive(Clone, Copy, Debug, PartialEq, Eq, Structural)]
pub enum ResourceKind {
    Adapter,
    Device,
    Queue,
    Buffer,
    BindGroup,
    BindGroupLayout,
    PipelineLayout,
    ShaderModule,
    ComputePipeline,
    CommandEncoder,
    CommandBuffer,
}

pub struct AdapterEntry {
    pub name: String,
}

pub struct DeviceEntry {
    pub adapter: RawId,
    pub descriptor: DeviceDescriptor,
}

pub struct BufferEntry {
    pub device: RawId,
    pub size: u64,
    pub usage: u32,
    pub state: GPUBufferState,
    pub contents: Vec<u8>,
}

pub struct BindGroupLayoutEntry {
    pub device: RawId,
    pub bindings: Vec<BindGroupLayoutBinding>,
}

pub struct BindGroupEntry {
    pub device: RawId,
    pub layout: RawId,
    pub bindings: Vec<BindGroupBinding>,
}

pub struct PipelineLayoutEntry {
    pub device: RawId,
    pub bind_group_layouts: Vec<WebGPUBindGroupLayout>,
}

pub struct ShaderModuleEntry {
    pub device: RawId,
    pub code: Vec<u32>,
}

pub struct ComputePipelineEntry {
    pub device: RawId,
    pub layout: RawId,
    pub module: RawId,
    pub entry_point: String,
}

/// A buffer-to-buffer copy recorded on an encoder.
#[derive(Clone, Copy, Debug, PartialEq, Eq, Structural)]
pub struct CopyOp {
    pub src: RawId,
    pub src_offset: u64,
    pub dst: RawId,
    pub dst_offset: u64,
    pub size: u64,
}

/// An operation as the backend receives it.
pub enum EncodedOp {
    Compute(ComputeCommand),
    Copy(CopyOp),
}

pub struct CommandEncoderEntry {
    pub device: RawId,
    pub ops: Vec<EncodedOp>,
    /// Cleared by the first invalid command; the encoder then cannot finish.
    pub valid: bool,
}

pub struct CommandBufferEntry {
    pub device: RawId,
    pub ops: Vec<EncodedOp>,
}

pub enum Resource {
    Adapter(AdapterEntry),
    Device(DeviceEntry),
    Buffer(BufferEntry),
    BindGroup(BindGroupEntry),
    BindGroupLayout(BindGroupLayoutEntry),
    PipelineLayout(PipelineLayoutEntry),
    ShaderModule(ShaderModuleEntry),
    ComputePipeline(ComputePipelineEntry),
    CommandEncoder(CommandEncoderEntry),
    CommandBuffer(CommandBufferEntry),
}

impl Resource {
    /// Whether the resource can be named by an identifier of the given kind;
    /// a device is named by its queue's identifier too.
    pub open spec fn has_kind(&self, kind: ResourceKind) -> bool {
        match self {
            Resource::Adapter(_) => kind is Adapter,
            Resource::Device(_) => kind is Device || kind is Queue,
            Resource::Buffer(_) => kind is Buffer,
            Resource::BindGroup(_) => kind is BindGroup,
            Resource::BindGroupLayout(_) => kind is BindGroupLayout,
            Resource::PipelineLayout(_) => kind is PipelineLayout,
            Resource::ShaderModule(_) => kind is ShaderModule,
            Resource::ComputePipeline(_) => kind is ComputePipeline,
            Resource::CommandEncoder(_) => kind is CommandEncoder,
            Resource::CommandBuffer(_) => kind is CommandBuffer,
        }
    }

    pub fn is_kind(&self, kind: ResourceKind) -> (r: bool)
        ensures
            r == self.has_kind(kind),
    {
        match self {
            Resource::Adapter(_) => kind == ResourceKind::Adapter,
            Resource::Device(_) => kind == ResourceKind::Device || kind == ResourceKind::Queue,
            Resource::Buffer(_) => kind == ResourceKind::Buffer,
            Resource::BindGroup(_) => kind == ResourceKind::BindGroup,
            Resource::BindGroupLayout(_) => kind == ResourceKind::BindGroupLayout,
            Resource::PipelineLayout(_) => kind == ResourceKind::PipelineLayout,
            Resource::ShaderModule(_) => kind == ResourceKind::ShaderModule,
            Resource::ComputePipeline(_) => kind == ResourceKind::ComputePipeline,
            Resource::CommandEncoder(_) => kind == ResourceKind::CommandEncoder,
            Resource::CommandBuffer(_) => kind == ResourceKind::CommandBuffer,
        }
    }

    /// The device that owns the resource; an adapter owns itself.
    pub open spec fn owner(&self) -> Option<RawId> {
        match self {
            Resource::Adapter(_) => None,
            Resource::Device(_) => None,
            Resource::Buffer(e) => Some(e.device),
            Resource::BindGroup(e) => Some(e.device),
            Resource::BindGroupLayout(e) => Some(e.device),
            Resource::PipelineLayout(e) => Some(e.device),
            Resource::ShaderModule(e) => Some(e.device),
            Resource::ComputePipeline(e) => Some(e.device),
            Resource::CommandEncoder(e) => Some(e.device),
            Resource::CommandBuffer(e) => Some(e.device),
        }
    }

    pub fn device(&self) -> (r: Option<RawId>)
        ensures
            r == self.owner(),
    {
        match self {
            Resource::Adapter(_) => None,
            Resource::Device(_) => None,
            Resource::Buffer(e) => Some(e.device),
            Resource::BindGroup(e) => Some(e.device),
            Resource::BindGroupLayout(e) => Some(e.device),
            Resource::PipelineLayout(e) => Some(e.device),
            Resource::ShaderModule(e) => Some(e.device),
            Resource::ComputePipeline(e) => Some(e.device),
            Resource::CommandEncoder(e) => Some(e.device),
            Resource::CommandBuffer(e) => Some(e.device),
        }
    }
}

/// One entry of the error streams: the device it concerns and the error.
pub struct ErrorRecord {
    pub device: RawId,
    pub error: DeviceError,
}

/// An operation that a queue has executed.
pub struct SubmittedOp {
    pub queue: RawId,
    pub op: EncodedOp,
}

} // verus!
