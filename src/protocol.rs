//! The messages that front ends send to the actor, and its replies.

use vstd::prelude::*;
use crate::error::GpuError;
use crate::ids::{Backend, WebGPUAdapter, WebGPUBindGroup, WebGPUBindGroupLayout, WebGPUBuffer, WebGPUCommandBuffer, WebGPUCommandEncoder, WebGPUComputePipeline, WebGPUDevice, WebGPUPipelineLayout, WebGPUQueue, WebGPUShaderModule};

verus! {

/// Usage flags of a buffer.
pub const MAP_READ: u32 = 1;
pub const MAP_WRITE: u32 = 2;
pub const COPY_SRC: u32 = 4;
pub const COPY_DST: u32 = 8;
pub const STORAGE: u32 = 128;

/// One sub-command of a recorded compute pass.
pub enum ComputeCommand {
    SetBindGroup { index: u32, bind_group_id: WebGPUBindGroup, dynamic_offsets: Vec<u32> },
    SetComputePipeline(WebGPUComputePipeline),
    Dispatch([u32; 3]),
    End,
}

#[derive(Clone, Copy, Debug, PartialEq, Eq, Structural)]
pub struct DeviceDescriptor {
    pub max_bind_groups: u32,
    pub anisotropic_filtering: bool,
}

#[derive(Clone, Copy, Debug, PartialEq, Eq, Structural)]
pub struct BufferDescriptor {
    pub size: u64,
    pub usage: u32,
}

/// A slot of a bind group layout.
#[derive(Clone, Copy, Debug, PartialEq, Eq, Structural)]
pub struct BindGroupLayoutBinding {
    pub binding: u32,
}

/// A buffer bound to a slot of a bind group.
#[derive(Clone, Copy, Debug, PartialEq, Eq, Structural)]
pub struct BindGroupBinding {
    pub binding: u32,
    pub buffer: WebGPUBuffer,
}

/// A request to the actor; `S` is the channel that its reply goes to.
pub enum WebGPURequest<S> {
    /// Asks for an adapter of one of the given backends.
    RequestAdapter(S, Vec<Backend>),
    RequestDevice(S, WebGPUAdapter, DeviceDescriptor),
    Exit(S),
    CreateComputePipeline(S, WebGPUDevice, WebGPUPipelineLayout, WebGPUShaderModule, String),
    CreateBuffer(S, WebGPUDevice, BufferDescriptor),
    CreateBufferMapped(S, WebGPUDevice, BufferDescriptor),
    CreateBindGroup(S, WebGPUDevice, WebGPUBindGroupLayout, Vec<BindGroupBinding>),
    CreateBindGroupLayout(S, WebGPUDevice, Vec<BindGroupLayoutBinding>),
    CreatePipelineLayout(S, WebGPUDevice, Vec<WebGPUBindGroupLayout>),
    CreateShaderModule(S, WebGPUDevice, Vec<u32>),
    MapReadAsync(S, WebGPUBuffer),
    MapWriteAsync(S, WebGPUBuffer),
    UnmapBuffer(WebGPUBuffer, Vec<u8>),
    DestroyBuffer(WebGPUBuffer),
    CreateCommandEncoder(S, WebGPUDevice),
    CopyBuffer(WebGPUCommandEncoder, WebGPUBuffer, u64, WebGPUBuffer, u64, u64),
    CommandEncoderFinish(S, WebGPUCommandEncoder),
    Submit(WebGPUQueue, Vec<WebGPUCommandBuffer>),
    RunComputePass(S, WebGPUCommandEncoder, Vec<ComputeCommand>),
}

impl<S> WebGPURequest<S> {
    /// The channel that waits for this request's reply, if any.
    pub open spec fn reply_channel(&self) -> Option<S> {
        match self {
            WebGPURequest::RequestAdapter(s, _) => Some(*s),
            WebGPURequest::RequestDevice(s, _, _) => Some(*s),
            WebGPURequest::Exit(s) => Some(*s),
            WebGPURequest::CreateComputePipeline(s, _, _, _, _) => Some(*s),
            WebGPURequest::CreateBuffer(s, _, _) => Some(*s),
            WebGPURequest::CreateBufferMapped(s, _, _) => Some(*s),
            WebGPURequest::CreateBindGroup(s, _, _, _) => Some(*s),
            WebGPURequest::CreateBindGroupLayout(s, _, _) => Some(*s),
            WebGPURequest::CreatePipelineLayout(s, _, _) => Some(*s),
            WebGPURequest::CreateShaderModule(s, _, _) => Some(*s),
            WebGPURequest::MapReadAsync(s, _) => Some(*s),
            WebGPURequest::MapWriteAsync(s, _) => Some(*s),
            WebGPURequest::CreateCommandEncoder(s, _) => Some(*s),
            WebGPURequest::CommandEncoderFinish(s, _) => Some(*s),
            WebGPURequest::RunComputePass(s, _, _) => Some(*s),
            _ => None,
        }
    }
}

pub enum WebGPUResponse {
    RequestAdapter(String, WebGPUAdapter),
    RequestDevice(WebGPUDevice, WebGPUQueue, DeviceDescriptor),
    Buffer(WebGPUBuffer),
    BindGroup(WebGPUBindGroup),
    BindGroupLayout(WebGPUBindGroupLayout),
    PipelineLayout(WebGPUPipelineLayout),
    ShaderModule(WebGPUShaderModule),
    ComputePipeline(WebGPUComputePipeline),
    CommandEncoder(WebGPUCommandEncoder),
    CommandBuffer(WebGPUCommandBuffer),
    /// The contents of a buffer mapped for reading.
    MapReadAsync(Vec<u8>),
    /// A buffer is mapped for writing.
    MapWriteAsync,
    /// A compute pass was replayed, or rejected.
    PassDone,
    Exited,
}

pub type WebGPUResponseResult = Result<WebGPUResponse, GpuError>;

/// A reply and the channel it is owed to.
pub struct Reply<S> {
    pub to: S,
    pub result: WebGPUResponseResult,
}

} // verus!
