//! Front-end handles: what a content context holds for an adapter, a
//! buffer, an encoder or a queue, and the requests they send.  They never
//! block and never touch the actor's tables.

#![allow(non_snake_case)]

use vstd::prelude::*;
use crate::actor::MAX_BUFFER_SIZE;
use crate::buffer::GPUBufferState;
use crate::device::zeroed;
use crate::error::GpuError;
use crate::ids::{WebGPUAdapter, WebGPUBuffer, WebGPUCommandBuffer, WebGPUCommandEncoder, WebGPUDevice, WebGPUQueue};
use crate::protocol::{DeviceDescriptor, WebGPURequest, WebGPUResponse, WebGPUResponseResult};
use crate::recorder::GPUComputePassEncoder;

verus! {

pub struct GPUAdapter {
    pub name: String,
    pub adapter: WebGPUAdapter,
}

impl GPUAdapter {
    pub fn new(name: String, adapter: WebGPUAdapter) -> (r: GPUAdapter)
        ensures
            r.name == name,
            r.adapter == adapter,
    {
        GPUAdapter { name, adapter }
    }

    pub fn Name(&self) -> (r: String)
        ensures
            r == self.name,
    {
        self.name.clone()
    }

    /// The request that opens a device on this adapter.
    pub fn RequestDevice<S>(&self, reply: S, descriptor: DeviceDescriptor) -> (r: WebGPURequest<S>)
        ensures
            r == WebGPURequest::RequestDevice(reply, self.adapter, descriptor),
    {
        WebGPURequest::RequestDevice(reply, self.adapter, descriptor)
    }

    /// The device and queue of a reply to `RequestDevice`; any other reply
    /// is refused.
    pub fn handle_response(&self, response: WebGPUResponseResult) -> (r: Result<
        (WebGPUDevice, WebGPUQueue, DeviceDescriptor),
        GpuError,
    >)
        ensures
            match response {
                Ok(WebGPUResponse::RequestDevice(d, q, desc)) => r == Ok::<
                    (WebGPUDevice, WebGPUQueue, DeviceDescriptor),
                    GpuError,
                >((d, q, desc)),
                Ok(_) => r == Err::<(WebGPUDevice, WebGPUQueue, DeviceDescriptor), GpuError>(
                    GpuError::OperationFailed,
                ),
                Err(e) => r == Err::<(WebGPUDevice, WebGPUQueue, DeviceDescriptor), GpuError>(e),
            },
    {
        match response {
            Ok(WebGPUResponse::RequestDevice(d, q, desc)) => Ok((d, q, desc)),
            Ok(_) => Err(GpuError::OperationFailed),
            Err(e) => Err(e),
        }
    }
}

/// A buffer as a content context sees it: its state moves with the
/// requests it sends and the replies it gets.
pub struct GPUBuffer {
    buffer: WebGPUBuffer,
    device: WebGPUDevice,
    size: u64,
    usage: u32,
    state: GPUBufferState,
    mapping: Vec<u8>,
}

impl GPUBuffer {
    pub closed spec fn spec_id(&self) -> WebGPUBuffer {
        self.buffer
    }

    pub closed spec fn spec_device(&self) -> WebGPUDevice {
        self.device
    }

    pub closed spec fn spec_size(&self) -> u64 {
        self.size
    }

    pub closed spec fn spec_usage(&self) -> u32 {
        self.usage
    }

    pub closed spec fn spec_state(&self) -> GPUBufferState {
        self.state
    }

    /// The bytes the content context sees while the buffer is mapped.
    pub closed spec fn spec_mapping(&self) -> Seq<u8> {
        self.mapping@
    }

    pub open spec fn same_buffer(&self, o: &Self) -> bool {
        &&& self.spec_id() == o.spec_id()
        &&& self.spec_device() == o.spec_device()
        &&& self.spec_size() == o.spec_size()
        &&& self.spec_usage() == o.spec_usage()
    }

    pub fn new(buffer: WebGPUBuffer, device: WebGPUDevice, state: GPUBufferState, size: u64, usage: u32) -> (r:
        GPUBuffer)
        ensures
            r.spec_id() == buffer,
            r.spec_device() == device,
            r.spec_state() == state,
            r.spec_size() == size,
            r.spec_usage() == usage,
            r.spec_mapping() == Seq::<u8>::empty(),
    {
        GPUBuffer { buffer, device, size, usage, state, mapping: Vec::new() }
    }

    pub fn id(&self) -> (r: WebGPUBuffer)
        ensures
            r == self.spec_id(),
    {
        self.buffer
    }

    pub fn size(&self) -> (r: u64)
        ensures
            r == self.spec_size(),
    {
        self.size
    }

    pub fn usage(&self) -> (r: u32)
        ensures
            r == self.spec_usage(),
    {
        self.usage
    }

    pub fn state(&self) -> (r: GPUBufferState)
        ensures
            r == self.spec_state(),
    {
        self.state
    }

    /// The bytes the content context sees while the buffer is mapped.
    pub fn mapping(&self) -> (r: &Vec<u8>)
        ensures
            r@ == self.spec_mapping(),
    {
        &self.mapping
    }

    /// Asks for the buffer's contents.  Only an unmapped buffer may ask; a
    /// zero-filled mapping as long as the buffer is set up to receive them,
    /// and the buffer waits for the reply, so a second request is refused.
    /// A buffer too large to mirror fails with `OperationFailed`.
    pub fn MapReadAsync<S>(&mut self, reply: S) -> (r: Result<WebGPURequest<S>, GpuError>)
        ensures
            final(self).same_buffer(old(self)),
            if old(self).spec_state() !is Unmapped {
                &&& r == Err::<WebGPURequest<S>, GpuError>(GpuError::ValidationFailure)
                &&& final(self).spec_state() == old(self).spec_state()
                &&& final(self).spec_mapping() == old(self).spec_mapping()
            } else if old(self).spec_size() > MAX_BUFFER_SIZE {
                &&& r == Err::<WebGPURequest<S>, GpuError>(GpuError::OperationFailed)
                &&& final(self).spec_state() == old(self).spec_state()
                &&& final(self).spec_mapping() == old(self).spec_mapping()
            } else {
                &&& r == Ok::<WebGPURequest<S>, GpuError>(WebGPURequest::MapReadAsync(reply, old(self).spec_id()))
                &&& final(self).spec_state() == GPUBufferState::MappedPendingForReading
                &&& final(self).spec_mapping() == Seq::new(old(self).spec_size() as nat, |i: int| 0u8)
            },
    {
        match self.state {
            GPUBufferState::Unmapped => {
                if self.size > MAX_BUFFER_SIZE {
                    return Err(GpuError::OperationFailed);
                }
                self.mapping = zeroed(self.size);
                self.state = GPUBufferState::MappedPendingForReading;
                Ok(WebGPURequest::MapReadAsync(reply, self.buffer))
            },
            _ => Err(GpuError::ValidationFailure),
        }
    }

    /// Takes the reply to a read map: the contents, as long as the buffer,
    /// make the buffer mapped for reading.  Any other reply gives the map up
    /// and leaves the buffer unmapped.
    pub fn handle_response(&mut self, response: WebGPUResponseResult) -> (r: Result<(), GpuError>)
        ensures
            final(self).same_buffer(old(self)),
            old(self).spec_state() !is MappedPendingForReading ==> r == Err::<(), GpuError>(
                GpuError::OperationFailed,
            ) && final(self).spec_state() == old(self).spec_state() && final(self).spec_mapping()
                == old(self).spec_mapping(),
            old(self).spec_state() is MappedPendingForReading ==> match response {
                Ok(WebGPUResponse::MapReadAsync(bytes)) => if bytes@.len() == old(self).spec_size() {
                    r == Ok::<(), GpuError>(()) && final(self).spec_state() == GPUBufferState::MappedForReading
                        && final(self).spec_mapping() == bytes@
                } else {
                    r == Err::<(), GpuError>(GpuError::OperationFailed) && final(self).spec_state()
                        == GPUBufferState::Unmapped && final(self).spec_mapping() == old(self).spec_mapping()
                },
                Ok(_) => r == Err::<(), GpuError>(GpuError::OperationFailed) && final(self).spec_state()
                    == GPUBufferState::Unmapped && final(self).spec_mapping() == old(self).spec_mapping(),
                Err(e) => r == Err::<(), GpuError>(e) && final(self).spec_state() == GPUBufferState::Unmapped
                    && final(self).spec_mapping() == old(self).spec_mapping(),
            },
    {
        match self.state {
            GPUBufferState::MappedPendingForReading => {},
            _ => {
                return Err(GpuError::OperationFailed);
            },
        }
        match response {
            Ok(WebGPUResponse::MapReadAsync(bytes)) => {
                if bytes.len() as u64 == self.size {
                    self.mapping = bytes;
                    self.state = GPUBufferState::MappedForReading;
                    Ok(())
                } else {
                    self.state = GPUBufferState::Unmapped;
                    Err(GpuError::OperationFailed)
                }
            },
            Ok(_) => {
                self.state = GPUBufferState::Unmapped;
                Err(GpuError::OperationFailed)
            },
            Err(e) => {
                self.state = GPUBufferState::Unmapped;
                Err(e)
            },
        }
    }

    /// Unmaps a mapped buffer: the request hands the mapped bytes back to
    /// the actor, and the mapping is released.  A buffer that is not mapped
    /// sends nothing.
    pub fn Unmap<S>(&mut self) -> (r: Option<WebGPURequest<S>>)
        ensures
            final(self).same_buffer(old(self)),
            if old(self).spec_state() is MappedForReading || old(self).spec_state() is MappedForWriting {
                &&& r matches Some(WebGPURequest::UnmapBuffer(b, data)) && b == old(self).spec_id() && data@
                    == old(self).spec_mapping()
                &&& final(self).spec_state() == GPUBufferState::Unmapped
                &&& final(self).spec_mapping() == Seq::<u8>::empty()
            } else {
                r is None && final(self).spec_state() == old(self).spec_state() && final(self).spec_mapping()
                    == old(self).spec_mapping()
            },
    {
        match self.state {
            GPUBufferState::MappedForReading | GPUBufferState::MappedForWriting => {
                let mut data: Vec<u8> = Vec::new();
                std::mem::swap(&mut data, &mut self.mapping);
                self.state = GPUBufferState::Unmapped;
                Some(WebGPURequest::UnmapBuffer(self.buffer, data))
            },
            _ => None,
        }
    }

    /// Destroys the buffer: a mapped buffer is unmapped first.  Destroying
    /// is final; a destroyed buffer sends nothing more.
    pub fn Destroy<S>(&mut self) -> (r: Vec<WebGPURequest<S>>)
        ensures
            final(self).same_buffer(old(self)),
            final(self).spec_state() == GPUBufferState::Destroyed,
            old(self).spec_state() is Destroyed ==> r@.len() == 0,
            old(self).spec_state() !is Destroyed ==> r@.len() >= 1 && r@.last() == WebGPURequest::<S>::DestroyBuffer(
                old(self).spec_id(),
            ),
            (old(self).spec_state() is MappedForReading || old(self).spec_state() is MappedForWriting) ==> r@.len()
                == 2 && (r@[0] matches WebGPURequest::UnmapBuffer(b, _) && b == old(self).spec_id()),
            !(old(self).spec_state() is MappedForReading || old(self).spec_state() is MappedForWriting)
                && old(self).spec_state() !is Destroyed ==> r@.len() == 1,
    {
        let mut requests: Vec<WebGPURequest<S>> = Vec::new();
        match self.state {
            GPUBufferState::Destroyed => {
                return requests;
            },
            _ => {},
        }
        if let Some(unmap) = self.Unmap() {
            requests.push(unmap);
        }
        requests.push(WebGPURequest::DestroyBuffer(self.buffer));
        self.state = GPUBufferState::Destroyed;
        requests
    }
}

pub struct GPUCommandEncoder {
    pub encoder: WebGPUCommandEncoder,
}

impl GPUCommandEncoder {
    pub fn new(encoder: WebGPUCommandEncoder) -> (r: GPUCommandEncoder)
        ensures
            r.encoder == encoder,
    {
        GPUCommandEncoder { encoder }
    }

    /// A compute pass that records on this encoder.
    pub fn BeginComputePass(&self) -> (r: GPUComputePassEncoder)
        ensures
            r.parent() == self.encoder,
            r@ == Some(Seq::<crate::protocol::ComputeCommand>::empty()),
    {
        GPUComputePassEncoder::new(self.encoder)
    }

    /// The request that records a copy; both buffers must be unmapped as
    /// this context sees them, or the copy is refused here.
    pub fn CopyBufferToBuffer<S>(
        &self,
        source: &GPUBuffer,
        source_offset: u64,
        destination: &GPUBuffer,
        destination_offset: u64,
        size: u64,
    ) -> (r: Result<WebGPURequest<S>, GpuError>)
        ensures
            if source.spec_state() is Unmapped && destination.spec_state() is Unmapped {
                r == Ok::<WebGPURequest<S>, GpuError>(
                    WebGPURequest::<S>::CopyBuffer(
                        self.encoder,
                        source.spec_id(),
                        source_offset,
                        destination.spec_id(),
                        destination_offset,
                        size,
                    ),
                )
            } else {
                r == Err::<WebGPURequest<S>, GpuError>(GpuError::ValidationFailure)
            },
    {
        if !source.state().is_usable_by_commands() || !destination.state().is_usable_by_commands() {
            return Err(GpuError::ValidationFailure);
        }
        Ok(WebGPURequest::CopyBuffer(self.encoder, source.id(), source_offset, destination.id(), destination_offset, size))
    }

    /// The request that seals the encoder into a command buffer.
    pub fn Finish<S>(&self, reply: S) -> (r: WebGPURequest<S>)
        ensures
            r == WebGPURequest::CommandEncoderFinish(reply, self.encoder),
    {
        WebGPURequest::CommandEncoderFinish(reply, self.encoder)
    }
}

pub struct GPUQueue {
    pub queue: WebGPUQueue,
}

impl GPUQueue {
    pub fn new(queue: WebGPUQueue) -> (r: GPUQueue)
        ensures
            r.queue == queue,
    {
        GPUQueue { queue }
    }

    pub fn Submit<S>(&self, command_buffers: Vec<WebGPUCommandBuffer>) -> (r: WebGPURequest<S>)
        ensures
            r == WebGPURequest::<S>::Submit(self.queue, command_buffers),
    {
        WebGPURequest::Submit(self.queue, command_buffers)
    }
}

} // verus!
