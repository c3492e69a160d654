//! Backend-tagged resource identifiers, one wrapper type per resource kind.

use vstd::prelude::*;

verus! {

/// The native driver family that a resource lives on.
#[derive(Clone, Copy, Debug, PartialEq, Eq, Hash, Structural)]
pub enum Backend {
    Vulkan,
    Metal,
    Dx12,
    Dx11,
    Software,
}

/// A live resource is named by the backend it lives on, the slot it occupies
/// and the generation of that slot.
#[derive(Clone, Copy, Debug, PartialEq, Eq, Hash, Structural)]
pub struct RawId {
    pub backend: Backend,
    pub index: u32,
    pub epoch: u32,
}

impl RawId {
    pub fn backend(&self) -> (r: Backend)
        ensures
            r == self.backend,
    {
        self.backend
    }
}

/// A physical or software adapter.
#[derive(Clone, Copy, Debug, PartialEq, Eq, Hash, Structural)]
pub struct WebGPUAdapter(pub RawId);

/// A logical device; its queue shares its identifier.
#[derive(Clone, Copy, Debug, PartialEq, Eq, Hash, Structural)]
pub struct WebGPUDevice(pub RawId);

/// The submission queue of a device.
#[derive(Clone, Copy, Debug, PartialEq, Eq, Hash, Structural)]
pub struct WebGPUQueue(pub RawId);

#[derive(Clone, Copy, Debug, PartialEq, Eq, Hash, Structural)]
pub struct WebGPUBuffer(pub RawId);

#[derive(Clone, Copy, Debug, PartialEq, Eq, Hash, Structural)]
pub struct WebGPUBindGroup(pub RawId);

#[derive(Clone, Copy, Debug, PartialEq, Eq, Hash, Structural)]
pub struct WebGPUBindGroupLayout(pub RawId);

#[derive(Clone, Copy, Debug, PartialEq, Eq, Hash, Structural)]
pub struct WebGPUPipelineLayout(pub RawId);

#[derive(Clone, Copy, Debug, PartialEq, Eq, Hash, Structural)]
pub struct WebGPUShaderModule(pub RawId);

#[derive(Clone, Copy, Debug, PartialEq, Eq, Hash, Structural)]
pub struct WebGPUComputePipeline(pub RawId);

#[derive(Clone, Copy, Debug, PartialEq, Eq, Hash, Structural)]
pub struct WebGPUCommandEncoder(pub RawId);

#[derive(Clone, Copy, Debug, PartialEq, Eq, Hash, Structural)]
pub struct WebGPUCommandBuffer(pub RawId);

} // verus!
