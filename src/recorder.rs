//! Front-end recording of a compute pass: sub-commands accumulate locally
//! and cross to the actor in one message when the pass ends.

#![allow(non_snake_case)]

use vstd::prelude::*;
use crate::ids::{WebGPUBindGroup, WebGPUCommandEncoder, WebGPUComputePipeline};
use crate::protocol::{ComputeCommand, WebGPURequest};

verus! {

#[derive(Clone, Copy, Debug, PartialEq, Eq, Structural)]
pub enum RecorderError {
    PassAlreadyEnded,
}

/// What ending a pass leaves behind and what it sends: from a pass still
/// open, an ended pass and its commands closed by `End`; from an ended pass,
/// nothing changes and nothing is sent.
pub open spec fn end_pass_step(
    pass: Option<Seq<ComputeCommand>>,
) -> (Option<Seq<ComputeCommand>>, Option<Seq<ComputeCommand>>) {
    match pass {
        Some(cmds) => (None, Some(cmds.push(ComputeCommand::End))),
        None => (None, None),
    }
}

/// Ending a pass twice sends its commands once: the second call finds the
/// pass ended and sends nothing.
pub proof fn lemma_end_pass_sends_once(pass: Option<Seq<ComputeCommand>>)
    ensures
        end_pass_step(end_pass_step(pass).0).1 is None,
        end_pass_step(end_pass_step(pass).0).0 == end_pass_step(pass).0,
{
}

pub struct GPUComputePassEncoder {
    parent: WebGPUCommandEncoder,
    raw_pass: Option<Vec<ComputeCommand>>,
}

impl View for GPUComputePassEncoder {
    type V = Option<Seq<ComputeCommand>>;

    /// The commands recorded so far, or `None` once the pass has ended.
    closed spec fn view(&self) -> Option<Seq<ComputeCommand>> {
        match self.raw_pass {
            Some(v) => Some(v@),
            None => None,
        }
    }
}

impl GPUComputePassEncoder {
    pub closed spec fn parent(&self) -> WebGPUCommandEncoder {
        self.parent
    }

    pub fn new(parent: WebGPUCommandEncoder) -> (r: GPUComputePassEncoder)
        ensures
            r.parent() == parent,
            r@ == Some(Seq::<ComputeCommand>::empty()),
    {
        GPUComputePassEncoder { parent, raw_pass: Some(Vec::new()) }
    }

    fn record(&mut self, command: ComputeCommand) -> (r: Result<(), RecorderError>)
        ensures
            final(self).parent() == old(self).parent(),
            r is Ok <==> old(self)@ is Some,
            match old(self)@ {
                Some(cmds) => final(self)@ == Some(cmds.push(command)),
                None => final(self)@ == old(self)@,
            },
    {
        match &mut self.raw_pass {
            Some(cmds) => {
                cmds.push(command);
                Ok(())
            },
            None => Err(RecorderError::PassAlreadyEnded),
        }
    }

    pub fn SetPipeline(&mut self, pipeline: WebGPUComputePipeline) -> (r: Result<(), RecorderError>)
        ensures
            final(self).parent() == old(self).parent(),
            r is Ok <==> old(self)@ is Some,
            match old(self)@ {
                Some(cmds) => final(self)@ == Some(cmds.push(ComputeCommand::SetComputePipeline(pipeline))),
                None => final(self)@ == old(self)@,
            },
    {
        self.record(ComputeCommand::SetComputePipeline(pipeline))
    }

    pub fn SetBindGroup(&mut self, index: u32, bind_group: WebGPUBindGroup, dynamic_offsets: Vec<u32>) -> (r:
        Result<(), RecorderError>)
        ensures
            final(self).parent() == old(self).parent(),
            r is Ok <==> old(self)@ is Some,
            match old(self)@ {
                Some(cmds) => final(self)@ == Some(
                    cmds.push(ComputeCommand::SetBindGroup { index, bind_group_id: bind_group, dynamic_offsets }),
                ),
                None => final(self)@ == old(self)@,
            },
    {
        self.record(ComputeCommand::SetBindGroup { index, bind_group_id: bind_group, dynamic_offsets })
    }

    pub fn Dispatch(&mut self, x: u32, y: u32, z: u32) -> (r: Result<(), RecorderError>)
        ensures
            final(self).parent() == old(self).parent(),
            r is Ok <==> old(self)@ is Some,
            match old(self)@ {
                Some(cmds) => final(self)@ == Some(cmds.push(ComputeCommand::Dispatch([x, y, z]))),
                None => final(self)@ == old(self)@,
            },
    {
        self.record(ComputeCommand::Dispatch([x, y, z]))
    }

    /// Ends the pass and hands its commands over in the request that runs it;
    /// the recorder is left empty, so a second call has nothing to send.
    pub fn EndPass<S>(&mut self, reply: S) -> (r: Result<WebGPURequest<S>, RecorderError>)
        ensures
            final(self).parent() == old(self).parent(),
            final(self)@ == end_pass_step(old(self)@).0,
            r is Ok <==> end_pass_step(old(self)@).1 is Some,
            r is Err ==> r == Err::<WebGPURequest<S>, RecorderError>(RecorderError::PassAlreadyEnded),
            match r {
                Ok(WebGPURequest::RunComputePass(s, encoder, cmds)) => s == reply && encoder == old(self).parent()
                    && Some(cmds@) == end_pass_step(old(self)@).1,
                Ok(_) => false,
                Err(_) => true,
            },
    {
        match self.raw_pass.take() {
            Some(mut cmds) => {
                cmds.push(ComputeCommand::End);
                Ok(WebGPURequest::RunComputePass(reply, self.parent, cmds))
            },
            None => Err(RecorderError::PassAlreadyEnded),
        }
    }
}

} // verus!
