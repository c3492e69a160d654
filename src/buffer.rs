//! The life cycle of a buffer: mapping, unmapping and destruction.

use vstd::prelude::*;

verus! {

#[derive(Clone, Copy, Debug, PartialEq, Eq, Structural)]
pub enum GPUBufferState {
    MappedForReading,
    MappedForWriting,
    MappedPendingForReading,
    MappedPendingForWriting,
    Unmapped,
    Destroyed,
}

/// What a map gives access to.
#[derive(Clone, Copy, Debug, PartialEq, Eq, Structural)]
pub enum MapMode {
    Read,
    Write,
}

/// The state of a buffer whose map of this mode waits for the backend.
pub open spec fn pending_state(mode: MapMode) -> GPUBufferState {
    match mode {
        MapMode::Read => GPUBufferState::MappedPendingForReading,
        MapMode::Write => GPUBufferState::MappedPendingForWriting,
    }
}

/// The state of a buffer mapped in this mode.
pub open spec fn mapped_state(mode: MapMode) -> GPUBufferState {
    match mode {
        MapMode::Read => GPUBufferState::MappedForReading,
        MapMode::Write => GPUBufferState::MappedForWriting,
    }
}

/// What can happen to a buffer.
#[derive(Clone, Copy, Debug, PartialEq, Eq, Structural)]
pub enum BufferOp {
    MapRead,
    MapWrite,
    /// The backend finished a pending map.
    CompleteMap,
    /// The backend gave a pending map up.
    FailMap,
    Unmap,
    Destroy,
}

impl GPUBufferState {
    pub open spec fn is_mapped(self) -> bool {
        self is MappedForReading || self is MappedForWriting
    }

    pub open spec fn is_pending(self) -> bool {
        self is MappedPendingForReading || self is MappedPendingForWriting
    }

    /// The state a buffer moves to, or `None` where the operation is not
    /// allowed in this state.
    pub open spec fn transition(self, op: BufferOp) -> Option<GPUBufferState> {
        match (self, op) {
            (GPUBufferState::Destroyed, _) => None,
            (_, BufferOp::Destroy) => Some(GPUBufferState::Destroyed),
            (GPUBufferState::Unmapped, BufferOp::MapRead) => Some(GPUBufferState::MappedPendingForReading),
            (GPUBufferState::Unmapped, BufferOp::MapWrite) => Some(GPUBufferState::MappedPendingForWriting),
            (GPUBufferState::MappedPendingForReading, BufferOp::CompleteMap) => Some(GPUBufferState::MappedForReading),
            (GPUBufferState::MappedPendingForWriting, BufferOp::CompleteMap) => Some(GPUBufferState::MappedForWriting),
            (GPUBufferState::MappedPendingForReading, BufferOp::FailMap) => Some(GPUBufferState::Unmapped),
            (GPUBufferState::MappedPendingForWriting, BufferOp::FailMap) => Some(GPUBufferState::Unmapped),
            (GPUBufferState::MappedForReading, BufferOp::Unmap) => Some(GPUBufferState::Unmapped),
            (GPUBufferState::MappedForWriting, BufferOp::Unmap) => Some(GPUBufferState::Unmapped),
            _ => None,
        }
    }

    pub fn next(self, op: BufferOp) -> (r: Option<GPUBufferState>)
        ensures
            r == self.transition(op),
    {
        match (self, op) {
            (GPUBufferState::Destroyed, _) => None,
            (_, BufferOp::Destroy) => Some(GPUBufferState::Destroyed),
            (GPUBufferState::Unmapped, BufferOp::MapRead) => Some(GPUBufferState::MappedPendingForReading),
            (GPUBufferState::Unmapped, BufferOp::MapWrite) => Some(GPUBufferState::MappedPendingForWriting),
            (GPUBufferState::MappedPendingForReading, BufferOp::CompleteMap) => Some(GPUBufferState::MappedForReading),
            (GPUBufferState::MappedPendingForWriting, BufferOp::CompleteMap) => Some(GPUBufferState::MappedForWriting),
            (GPUBufferState::MappedPendingForReading, BufferOp::FailMap) => Some(GPUBufferState::Unmapped),
            (GPUBufferState::MappedPendingForWriting, BufferOp::FailMap) => Some(GPUBufferState::Unmapped),
            (GPUBufferState::MappedForReading, BufferOp::Unmap) => Some(GPUBufferState::Unmapped),
            (GPUBufferState::MappedForWriting, BufferOp::Unmap) => Some(GPUBufferState::Unmapped),
            _ => None,
        }
    }

    /// Whether a recorded command may read or write the buffer.
    pub fn is_usable_by_commands(self) -> (r: bool)
        ensures
            r == (self is Unmapped),
    {
        match self {
            GPUBufferState::Unmapped => true,
            _ => false,
        }
    }
}

/// The buffer state machine: an unmapped buffer can only start a map (or be
/// destroyed), a mapped buffer can only be unmapped (or destroyed), destroying
/// succeeds from every live state, and a destroyed buffer accepts nothing.
pub proof fn lemma_buffer_state_machine(s: GPUBufferState, op: BufferOp)
    ensures
        s is Unmapped && s.transition(op) is Some ==> (op is MapRead || op is MapWrite || op is Destroy),
        s.is_mapped() && s.transition(op) is Some ==> (op is Unmap || op is Destroy),
        s !is Destroyed ==> s.transition(BufferOp::Destroy) == Some(GPUBufferState::Destroyed),
        s is Destroyed ==> s.transition(op) is None,
{
}

/// A buffer that is mapped, or waiting for a map, returns to `Unmapped`
/// before it can be mapped again: two maps never overlap.
pub proof fn lemma_no_overlapping_maps(s: GPUBufferState, op: BufferOp)
    requires
        s.is_mapped() || s.is_pending(),
        op is MapRead || op is MapWrite,
    ensures
        s.transition(op) is None,
{
}

} // verus!
