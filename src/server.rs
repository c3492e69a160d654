//! One step of the actor's request loop: a request in, its replies out.

use vstd::prelude::*;
use crate::actor::{ActorStatus, PendingMap, WGPU};
use crate::buffer::mapped_state;
use crate::mapping::{mode_flag, with_state};
use crate::buffer::MapMode;
use crate::error::GpuError;
use crate::ids::{RawId, WebGPUAdapter, WebGPUBindGroup, WebGPUBindGroupLayout, WebGPUBuffer, WebGPUCommandBuffer, WebGPUCommandEncoder, WebGPUComputePipeline, WebGPUDevice, WebGPUPipelineLayout, WebGPUQueue, WebGPUShaderModule};
use crate::protocol::DeviceDescriptor;
use crate::protocol::{Reply, WebGPURequest, WebGPUResponse, WebGPUResponseResult};
use crate::resources::{Resource, ResourceKind};

verus! {

/// What handling a request produced: the replies to send, in order, and
/// the error of a request that has no channel to carry it, for the log.
pub struct Handled<S> {
    pub replies: Vec<Reply<S>>,
    pub unreported: Option<GpuError>,
}

proof fn lemma_filter_push<T>(s: Seq<T>, x: T, f: spec_fn(T) -> bool)
    ensures
        s.push(x).filter(f) == (if f(x) {
            s.filter(f).push(x)
        } else {
            s.filter(f)
        }),
{
    reveal(Seq::filter);
    assert(s.push(x).drop_last() =~= s);
}

/// The reply that carries an operation's result.
pub open spec fn reply_of<T>(res: Result<T, GpuError>, f: spec_fn(T) -> WebGPUResponse) -> WebGPUResponseResult {
    match res {
        Ok(x) => Ok(f(x)),
        Err(e) => Err(e),
    }
}

/// The error of an operation that has no channel to report it on.
pub open spec fn error_of<T>(res: Result<T, GpuError>) -> Option<GpuError> {
    match res {
        Ok(_) => None,
        Err(e) => Some(e),
    }
}

fn err_of<T>(res: Result<T, GpuError>) -> (r: Option<GpuError>)
    ensures
        r == error_of(res),
{
    match res {
        Ok(_) => None,
        Err(e) => Some(e),
    }
}

impl<S> WGPU<S> {
    /// Answers every map in flight, in the order issued.
    pub fn drain(&mut self) -> (r: Vec<Reply<S>>)
        requires
            old(self).wf(),
        ensures
            final(self).wf(),
            final(self).pending() == Seq::<PendingMap<S>>::empty(),
            final(self).completed(old(self), old(self).pending(), r@),
    {
        let taken = self.take_all_pending();
        let ghost mid = *self;
        let replies = self.complete_all(taken);
        proof {
            self.lemma_completed_from(&mid, old(self), old(self).pending(), replies@);
        }
        replies
    }

    /// Shuts the actor down: maps in flight are answered, every resource
    /// table is released, and the exit is acknowledged last.
    pub fn exit(&mut self, ack: S) -> (r: Vec<Reply<S>>)
        requires
            old(self).wf(),
        ensures
            final(self).wf(),
            final(self).exit_post(old(self), ack, r@),
    {
        self.set_status(ActorStatus::Draining);
        let ghost draining = *self;
        let mut replies = self.drain();
        let ghost drained = replies@;
        self.release_all();
        self.set_status(ActorStatus::Stopped);
        replies.push(Reply { to: ack, result: Ok(WebGPUResponse::Exited) });
        proof {
            assert(replies@.drop_last() =~= drained);
            assert forall|i: int| 0 <= i < old(self).pending().len() implies #[trigger] old(self).map_answer(
                old(self).pending()[i],
                replies@[i],
            ) by {
                assert(draining.map_answer(old(self).pending()[i], drained[i]));
                assert(draining.map_succeeds(old(self).pending()[i]) == old(self).map_succeeds(old(self).pending()[i]));
            }
        }
        replies
    }

    /// What `exit` leaves and returns: every map in flight answered as
    /// `map_answer` says, the exit acknowledged last, no resource left, and
    /// the actor stopped.
    pub open spec fn exit_post(&self, o: &Self, ack: S, replies: Seq<Reply<S>>) -> bool {
        &&& self.status() == ActorStatus::Stopped
        &&& self.resources() == Map::<RawId, Resource>::empty()
        &&& self.pending() == Seq::<PendingMap<S>>::empty()
        &&& replies.len() == o.pending().len() + 1
        &&& forall|i: int| 0 <= i < o.pending().len() ==> #[trigger] o.map_answer(o.pending()[i], replies[i])
        &&& replies.last() == (Reply { to: ack, result: Ok::<WebGPUResponse, GpuError>(WebGPUResponse::Exited) })
    }

    /// What a map request leaves and answers: the channel is answered
    /// last; a buffer that is unmapped and allows the mode is mapped and
    /// the channel gets its contents (for reading) or the go-ahead (for
    /// writing), after the maps already in flight on its device; otherwise
    /// the channel gets the error and nothing changes.
    pub open spec fn map_request_post(&self, o: &Self, s: S, buffer: WebGPUBuffer, mode: MapMode, replies: Seq<Reply<S>>) -> bool {
        &&& replies.len() >= 1
        &&& replies.last().to == s
        &&& match o.lookup(buffer.0, ResourceKind::Buffer) {
            Err(e) => replies == seq![Reply { to: s, result: Err::<WebGPUResponse, GpuError>(e) }] && self.unchanged(o),
            Ok(Resource::Buffer(b)) => if b.state !is Unmapped || b.usage & mode_flag(mode) == 0 {
                replies == seq![Reply { to: s, result: Err::<WebGPUResponse, GpuError>(GpuError::ValidationFailure) }]
                    && self.unchanged(o)
            } else {
                &&& match mode {
                    MapMode::Read => replies.last().result matches Ok(WebGPUResponse::MapReadAsync(bytes)) && bytes@
                        == b.contents@,
                    MapMode::Write => replies.last().result matches Ok(WebGPUResponse::MapWriteAsync),
                }
                &&& self.resources().contains_key(buffer.0)
                &&& with_state(self.resources()[buffer.0], b, mapped_state(mode))
                &&& self.status() == o.status()
                &&& self.errors() == o.errors()
                &&& self.retired() == o.retired()
                &&& self.adapters() == o.adapters()
                &&& self.submitted() == o.submitted()
                &&& self.resources().dom() == o.resources().dom()
                &&& self.pending() == o.pending().filter(|p: PendingMap<S>| p.device != b.device)
                &&& replies.len() == o.pending().filter(|p: PendingMap<S>| p.device == b.device).len() + 1
                &&& forall|i: int|
                    0 <= i < replies.len() - 1 ==> #[trigger] replies[i].to == o.pending().filter(
                        |p: PendingMap<S>| p.device == b.device,
                    )[i].reply
            },
            Ok(_) => false,
        }
    }

    /// Starts a map and polls the buffer's device at once, so that the map
    /// completes without waiting for another request.
    fn map_and_poll(&mut self, s: S, buffer: WebGPUBuffer, mode: MapMode) -> (r: Handled<S>)
        requires
            old(self).wf(),
        ensures
            final(self).wf(),
            final(self).map_request_post(old(self), s, buffer, mode, r.replies@),
            r.unreported is None,
    {
        let device = match self.resolve(buffer.0, ResourceKind::Buffer) {
            Ok(Resource::Buffer(b)) => Some(b.device),
            _ => None,
        };
        match self.map_async(s, buffer, mode) {
            Some(reply) => {
                let replies = vec![reply];
                proof {
                    assert(replies@ =~= seq![reply]);
                }
                Handled { replies, unreported: None }
            },
            None => {
                let ghost mid = *self;
                let d = match device {
                    Some(d) => d,
                    None => {
                        proof {
                            assert(false);
                        }
                        buffer.0
                    },
                };
                let ghost p = PendingMap { reply: s, buffer: buffer.0, device: d, mode };
                proof {
                    lemma_filter_push(old(self).pending(), p, |q: PendingMap<S>| q.device == d);
                    lemma_filter_push(old(self).pending(), p, |q: PendingMap<S>| q.device != d);
                }
                let replies = self.poll(d);
                proof {
                    let taken = mid.pending().filter(|q: PendingMap<S>| q.device == d);
                    let k = taken.len() - 1;
                    assert(taken[k] == p);
                    assert(mid.map_answer(taken[k], replies@[k]));
                    assert(mid.map_succeeds(p));
                    assert forall|i: int| 0 <= i < replies@.len() - 1 implies #[trigger] replies@[i].to
                        == old(self).pending().filter(|q: PendingMap<S>| q.device == d)[i].reply by {
                        assert(mid.map_answer(taken[i], replies@[i]));
                    }
                    let be = old(self).resources()[buffer.0]->Buffer_0;
                    assert(d == be.device);
                    assert(replies@.last() == replies@[k]);
                    assert(with_state(self.resources()[buffer.0], mid.resources()[buffer.0]->Buffer_0, mapped_state(mode)));
                    assert(with_state(self.resources()[buffer.0], be, mapped_state(mode)));
                    assert(self.pending() == old(self).pending().filter(|q: PendingMap<S>| q.device != d));
                    assert(self.resources().contains_key(buffer.0));
                    assert(self.status() == old(self).status());
                    assert(self.resources().dom() == old(self).resources().dom());
                    assert(replies@.len() >= 1);
                    assert(replies@.last().to == s);
                    assert(match mode {
                        MapMode::Read => replies@.last().result matches Ok(WebGPUResponse::MapReadAsync(bytes)) && bytes@
                            == be.contents@,
                        MapMode::Write => replies@.last().result matches Ok(WebGPUResponse::MapWriteAsync),
                    });
                }
                Handled { replies, unreported: None }
            },
        }
    }

    /// What handling `req` on a running actor leaves and produces: the
    /// reply and the new state that the operation it names gives, or for a
    /// request without a channel, no reply and the operation's error for the
    /// log.
    pub open spec fn handle_post(&self, o: &Self, req: WebGPURequest<S>, r: Handled<S>) -> bool {
        match req {
            WebGPURequest::RequestAdapter(s, candidates) => exists|res: Result<(String, WebGPUAdapter), GpuError>|
                #[trigger] self.request_adapter_post(o, candidates, res) && r.replies@ == seq![
                    Reply { to: s, result: reply_of(res, |x: (String, WebGPUAdapter)| WebGPUResponse::RequestAdapter(x.0, x.1)) },
                ] && r.unreported is None,
            WebGPURequest::RequestDevice(s, adapter, descriptor) => exists|
                res: Result<(WebGPUDevice, WebGPUQueue, DeviceDescriptor), GpuError>,
            |
                #[trigger] self.request_device_post(o, adapter, descriptor, res) && r.replies@ == seq![
                    Reply {
                        to: s,
                        result: reply_of(
                            res,
                            |x: (WebGPUDevice, WebGPUQueue, DeviceDescriptor)| WebGPUResponse::RequestDevice(x.0, x.1, x.2),
                        ),
                    },
                ] && r.unreported is None,
            WebGPURequest::Exit(s) => self.exit_post(o, s, r.replies@) && r.unreported is None,
            WebGPURequest::CreateComputePipeline(s, device, layout, module, entry) => exists|
                res: Result<WebGPUComputePipeline, GpuError>,
            |
                #[trigger] self.create_compute_pipeline_post(o, device, layout, module, entry, res) && r.replies@
                    == seq![Reply { to: s, result: reply_of(res, |x: WebGPUComputePipeline| WebGPUResponse::ComputePipeline(x)) }]
                    && r.unreported is None,
            WebGPURequest::CreateBuffer(s, device, desc) => exists|res: Result<WebGPUBuffer, GpuError>|
                #[trigger] self.create_buffer_post(o, device, desc, false, res) && r.replies@ == seq![
                    Reply { to: s, result: reply_of(res, |x: WebGPUBuffer| WebGPUResponse::Buffer(x)) },
                ] && r.unreported is None,
            WebGPURequest::CreateBufferMapped(s, device, desc) => exists|res: Result<WebGPUBuffer, GpuError>|
                #[trigger] self.create_buffer_post(o, device, desc, true, res) && r.replies@ == seq![
                    Reply { to: s, result: reply_of(res, |x: WebGPUBuffer| WebGPUResponse::Buffer(x)) },
                ] && r.unreported is None,
            WebGPURequest::CreateBindGroup(s, device, layout, bindings) => exists|res: Result<WebGPUBindGroup, GpuError>|
                #[trigger] self.create_bind_group_post(o, device, layout, bindings, res) && r.replies@ == seq![
                    Reply { to: s, result: reply_of(res, |x: WebGPUBindGroup| WebGPUResponse::BindGroup(x)) },
                ] && r.unreported is None,
            WebGPURequest::CreateBindGroupLayout(s, device, bindings) => exists|
                res: Result<WebGPUBindGroupLayout, GpuError>,
            |
                #[trigger] self.create_bind_group_layout_post(o, device, bindings, res) && r.replies@ == seq![
                    Reply { to: s, result: reply_of(res, |x: WebGPUBindGroupLayout| WebGPUResponse::BindGroupLayout(x)) },
                ] && r.unreported is None,
            WebGPURequest::CreatePipelineLayout(s, device, layouts) => exists|
                res: Result<WebGPUPipelineLayout, GpuError>,
            |
                #[trigger] self.create_pipeline_layout_post(o, device, layouts, res) && r.replies@ == seq![
                    Reply { to: s, result: reply_of(res, |x: WebGPUPipelineLayout| WebGPUResponse::PipelineLayout(x)) },
                ] && r.unreported is None,
            WebGPURequest::CreateShaderModule(s, device, code) => exists|res: Result<WebGPUShaderModule, GpuError>|
                #[trigger] self.create_shader_module_post(o, device, code, res) && r.replies@ == seq![
                    Reply { to: s, result: reply_of(res, |x: WebGPUShaderModule| WebGPUResponse::ShaderModule(x)) },
                ] && r.unreported is None,
            WebGPURequest::MapReadAsync(s, buffer) => self.map_request_post(o, s, buffer, MapMode::Read, r.replies@)
                && r.unreported is None,
            WebGPURequest::MapWriteAsync(s, buffer) => self.map_request_post(o, s, buffer, MapMode::Write, r.replies@)
                && r.unreported is None,
            WebGPURequest::UnmapBuffer(buffer, data) => exists|res: Result<(), GpuError>|
                #[trigger] self.unmap_post(o, buffer, data, res) && r.replies@.len() == 0 && r.unreported
                    == error_of(res),
            WebGPURequest::DestroyBuffer(buffer) => exists|res: Result<(), GpuError>|
                #[trigger] self.destroy_buffer_post(o, buffer, res) && r.replies@.len() == 0 && r.unreported
                    == error_of(res),
            WebGPURequest::CreateCommandEncoder(s, device) => exists|res: Result<WebGPUCommandEncoder, GpuError>|
                #[trigger] self.create_command_encoder_post(o, device, res) && r.replies@ == seq![
                    Reply { to: s, result: reply_of(res, |x: WebGPUCommandEncoder| WebGPUResponse::CommandEncoder(x)) },
                ] && r.unreported is None,
            WebGPURequest::CopyBuffer(encoder, src, src_offset, dst, dst_offset, size) => exists|res: Result<(), GpuError>|
                #[trigger] self.copy_buffer_post(o, encoder, src, src_offset, dst, dst_offset, size, res)
                    && r.replies@.len() == 0 && r.unreported == error_of(res),
            WebGPURequest::CommandEncoderFinish(s, encoder) => exists|res: Result<WebGPUCommandBuffer, GpuError>|
                #[trigger] self.finish_post(o, encoder, res) && r.replies@ == seq![
                    Reply { to: s, result: reply_of(res, |x: WebGPUCommandBuffer| WebGPUResponse::CommandBuffer(x)) },
                ] && r.unreported is None,
            WebGPURequest::Submit(queue, cbs) => exists|res: Result<(), GpuError>|
                #[trigger] self.submit_post(o, queue, cbs, res) && r.replies@.len() == 0 && r.unreported
                    == error_of(res),
            WebGPURequest::RunComputePass(s, encoder, commands) => exists|res: Result<(), GpuError>|
                #[trigger] self.run_compute_pass_post(o, encoder, commands, res) && r.replies@ == seq![
                    Reply { to: s, result: Ok::<WebGPUResponse, GpuError>(WebGPUResponse::PassDone) },
                ] && r.unreported == error_of(res),
        }
    }

    /// Handles one request.  A running actor carries out the operation that
    /// the request names and replies on its channel, if it has one, last
    /// among the replies produced; only `Exit` stops it.  Once the actor has
    /// stopped, each request is refused.
    pub fn handle(&mut self, req: WebGPURequest<S>) -> (r: Handled<S>)
        requires
            old(self).wf(),
        ensures
            final(self).wf(),
            match req.reply_channel() {
                Some(s) => r.replies@.len() >= 1 && r.replies@.last().to == s,
                None => r.replies@.len() == 0,
            },
            old(self).status() !is Running ==> final(self).unchanged(old(self)) && r.unreported is None && match req.reply_channel() {
                Some(s) => r.replies@ == seq![
                    Reply { to: s, result: Err::<WebGPUResponse, GpuError>(GpuError::OperationFailed) },
                ],
                None => r.replies@.len() == 0,
            },
            old(self).status() is Running ==> final(self).handle_post(old(self), req, r),
            old(self).status() is Running ==> (final(self).status() is Running <==> !(req is Exit)),
    {
        if self.actor_status() != ActorStatus::Running {
            let replies = match req {
                WebGPURequest::RequestAdapter(s, _) => vec![Reply { to: s, result: Err(GpuError::OperationFailed) }],
                WebGPURequest::RequestDevice(s, _, _) => vec![Reply { to: s, result: Err(GpuError::OperationFailed) }],
                WebGPURequest::Exit(s) => vec![Reply { to: s, result: Err(GpuError::OperationFailed) }],
                WebGPURequest::CreateComputePipeline(s, _, _, _, _) => vec![
                    Reply { to: s, result: Err(GpuError::OperationFailed) },
                ],
                WebGPURequest::CreateBuffer(s, _, _) => vec![Reply { to: s, result: Err(GpuError::OperationFailed) }],
                WebGPURequest::CreateBufferMapped(s, _, _) => vec![
                    Reply { to: s, result: Err(GpuError::OperationFailed) },
                ],
                WebGPURequest::CreateBindGroup(s, _, _, _) => vec![
                    Reply { to: s, result: Err(GpuError::OperationFailed) },
                ],
                WebGPURequest::CreateBindGroupLayout(s, _, _) => vec![
                    Reply { to: s, result: Err(GpuError::OperationFailed) },
                ],
                WebGPURequest::CreatePipelineLayout(s, _, _) => vec![
                    Reply { to: s, result: Err(GpuError::OperationFailed) },
                ],
                WebGPURequest::CreateShaderModule(s, _, _) => vec![
                    Reply { to: s, result: Err(GpuError::OperationFailed) },
                ],
                WebGPURequest::MapReadAsync(s, _) => vec![Reply { to: s, result: Err(GpuError::OperationFailed) }],
                WebGPURequest::MapWriteAsync(s, _) => vec![Reply { to: s, result: Err(GpuError::OperationFailed) }],
                WebGPURequest::CreateCommandEncoder(s, _) => vec![
                    Reply { to: s, result: Err(GpuError::OperationFailed) },
                ],
                WebGPURequest::CommandEncoderFinish(s, _) => vec![
                    Reply { to: s, result: Err(GpuError::OperationFailed) },
                ],
                WebGPURequest::RunComputePass(s, _, _) => vec![Reply { to: s, result: Err(GpuError::OperationFailed) }],
                _ => Vec::new(),
            };
            proof {
                if let Some(s) = req.reply_channel() {
                    assert(replies@ =~= seq![
                        Reply { to: s, result: Err::<WebGPUResponse, GpuError>(GpuError::OperationFailed) },
                    ]);
                }
            }
            return Handled { replies, unreported: None };
        }
        let ghost req0 = req;
        let r = match req {
            WebGPURequest::RequestAdapter(s, candidates) => {
                let res = self.request_adapter(&candidates);
                let ghost g = res;
                let result = match res {
                    Ok((name, a)) => Ok(WebGPUResponse::RequestAdapter(name, a)),
                    Err(e) => Err(e),
                };
                let replies = vec![Reply { to: s, result }];
                proof {
                    assert(replies@ =~= seq![Reply { to: s, result: reply_of(g, |x: (String, WebGPUAdapter)| WebGPUResponse::RequestAdapter(x.0, x.1)) }]);
                    assert(self.request_adapter_post(old(self), candidates, g));
                }
                Handled { replies, unreported: None }
            },
            WebGPURequest::RequestDevice(s, adapter, descriptor) => {
                let res = self.request_device(adapter, descriptor);
                let ghost g = res;
                let result = match res {
                    Ok((d, q, desc)) => Ok(WebGPUResponse::RequestDevice(d, q, desc)),
                    Err(e) => Err(e),
                };
                let replies = vec![Reply { to: s, result }];
                proof {
                    assert(replies@ =~= seq![Reply { to: s, result: reply_of(g, |x: (WebGPUDevice, WebGPUQueue, DeviceDescriptor)| WebGPUResponse::RequestDevice(x.0, x.1, x.2)) }]);
                    assert(self.request_device_post(old(self), adapter, descriptor, g));
                }
                Handled { replies, unreported: None }
            },
            WebGPURequest::Exit(s) => Handled { replies: self.exit(s), unreported: None },
            WebGPURequest::CreateComputePipeline(s, device, layout, module, entry) => {
                let ghost entry0 = entry;
                let res = self.create_compute_pipeline(device, layout, module, entry);
                let ghost g = res;
                let result = match res {
                    Ok(p) => Ok(WebGPUResponse::ComputePipeline(p)),
                    Err(e) => Err(e),
                };
                let replies = vec![Reply { to: s, result }];
                proof {
                    assert(replies@ =~= seq![Reply { to: s, result: reply_of(g, |x: WebGPUComputePipeline| WebGPUResponse::ComputePipeline(x)) }]);
                    assert(self.create_compute_pipeline_post(old(self), device, layout, module, entry0, g));
                }
                Handled { replies, unreported: None }
            },
            WebGPURequest::CreateBuffer(s, device, desc) => {
                let res = self.create_buffer(device, desc, false);
                let ghost g = res;
                let result = match res {
                    Ok(b) => Ok(WebGPUResponse::Buffer(b)),
                    Err(e) => Err(e),
                };
                let replies = vec![Reply { to: s, result }];
                proof {
                    assert(replies@ =~= seq![Reply { to: s, result: reply_of(g, |x: WebGPUBuffer| WebGPUResponse::Buffer(x)) }]);
                    assert(self.create_buffer_post(old(self), device, desc, false, g));
                }
                Handled { replies, unreported: None }
            },
            WebGPURequest::CreateBufferMapped(s, device, desc) => {
                let res = self.create_buffer(device, desc, true);
                let ghost g = res;
                let result = match res {
                    Ok(b) => Ok(WebGPUResponse::Buffer(b)),
                    Err(e) => Err(e),
                };
                let replies = vec![Reply { to: s, result }];
                proof {
                    assert(replies@ =~= seq![Reply { to: s, result: reply_of(g, |x: WebGPUBuffer| WebGPUResponse::Buffer(x)) }]);
                    assert(self.create_buffer_post(old(self), device, desc, true, g));
                }
                Handled { replies, unreported: None }
            },
            WebGPURequest::CreateBindGroup(s, device, layout, bindings) => {
                let ghost bindings0 = bindings;
                let res = self.create_bind_group(device, layout, bindings);
                let ghost g = res;
                let result = match res {
                    Ok(x) => Ok(WebGPUResponse::BindGroup(x)),
                    Err(e) => Err(e),
                };
                let replies = vec![Reply { to: s, result }];
                proof {
                    assert(replies@ =~= seq![Reply { to: s, result: reply_of(g, |x: WebGPUBindGroup| WebGPUResponse::BindGroup(x)) }]);
                    assert(self.create_bind_group_post(old(self), device, layout, bindings0, g));
                }
                Handled { replies, unreported: None }
            },
            WebGPURequest::CreateBindGroupLayout(s, device, bindings) => {
                let ghost bindings0 = bindings;
                let res = self.create_bind_group_layout(device, bindings);
                let ghost g = res;
                let result = match res {
                    Ok(x) => Ok(WebGPUResponse::BindGroupLayout(x)),
                    Err(e) => Err(e),
                };
                let replies = vec![Reply { to: s, result }];
                proof {
                    assert(replies@ =~= seq![Reply { to: s, result: reply_of(g, |x: WebGPUBindGroupLayout| WebGPUResponse::BindGroupLayout(x)) }]);
                    assert(self.create_bind_group_layout_post(old(self), device, bindings0, g));
                }
                Handled { replies, unreported: None }
            },
            WebGPURequest::CreatePipelineLayout(s, device, layouts) => {
                let ghost layouts0 = layouts;
                let res = self.create_pipeline_layout(device, layouts);
                let ghost g = res;
                let result = match res {
                    Ok(x) => Ok(WebGPUResponse::PipelineLayout(x)),
                    Err(e) => Err(e),
                };
                let replies = vec![Reply { to: s, result }];
                proof {
                    assert(replies@ =~= seq![Reply { to: s, result: reply_of(g, |x: WebGPUPipelineLayout| WebGPUResponse::PipelineLayout(x)) }]);
                    assert(self.create_pipeline_layout_post(old(self), device, layouts0, g));
                }
                Handled { replies, unreported: None }
            },
            WebGPURequest::CreateShaderModule(s, device, code) => {
                let ghost code0 = code;
                let res = self.create_shader_module(device, code);
                let ghost g = res;
                let result = match res {
                    Ok(x) => Ok(WebGPUResponse::ShaderModule(x)),
                    Err(e) => Err(e),
                };
                let replies = vec![Reply { to: s, result }];
                proof {
                    assert(replies@ =~= seq![Reply { to: s, result: reply_of(g, |x: WebGPUShaderModule| WebGPUResponse::ShaderModule(x)) }]);
                    assert(self.create_shader_module_post(old(self), device, code0, g));
                }
                Handled { replies, unreported: None }
            },
            WebGPURequest::MapReadAsync(s, buffer) => self.map_and_poll(s, buffer, MapMode::Read),
            WebGPURequest::MapWriteAsync(s, buffer) => self.map_and_poll(s, buffer, MapMode::Write),
            WebGPURequest::UnmapBuffer(buffer, data) => {
                let ghost data0 = data;
                let res = self.unmap(buffer, data);
                proof {
                    assert(self.unmap_post(old(self), buffer, data0, res));
                }
                Handled { replies: Vec::new(), unreported: err_of(res) }
            },
            WebGPURequest::DestroyBuffer(buffer) => {
                let res = self.destroy_buffer(buffer);
                proof {
                    assert(self.destroy_buffer_post(old(self), buffer, res));
                }
                Handled { replies: Vec::new(), unreported: err_of(res) }
            },
            WebGPURequest::CreateCommandEncoder(s, device) => {
                let res = self.create_command_encoder(device);
                let ghost g = res;
                let result = match res {
                    Ok(x) => Ok(WebGPUResponse::CommandEncoder(x)),
                    Err(e) => Err(e),
                };
                let replies = vec![Reply { to: s, result }];
                proof {
                    assert(replies@ =~= seq![Reply { to: s, result: reply_of(g, |x: WebGPUCommandEncoder| WebGPUResponse::CommandEncoder(x)) }]);
                    assert(self.create_command_encoder_post(old(self), device, g));
                }
                Handled { replies, unreported: None }
            },
            WebGPURequest::CopyBuffer(encoder, src, src_offset, dst, dst_offset, size) => {
                let res = self.copy_buffer(encoder, src, src_offset, dst, dst_offset, size);
                proof {
                    assert(self.copy_buffer_post(old(self), encoder, src, src_offset, dst, dst_offset, size, res));
                }
                Handled { replies: Vec::new(), unreported: err_of(res) }
            },
            WebGPURequest::CommandEncoderFinish(s, encoder) => {
                let res = self.finish(encoder);
                let ghost g = res;
                let result = match res {
                    Ok(x) => Ok(WebGPUResponse::CommandBuffer(x)),
                    Err(e) => Err(e),
                };
                let replies = vec![Reply { to: s, result }];
                proof {
                    assert(replies@ =~= seq![Reply { to: s, result: reply_of(g, |x: WebGPUCommandBuffer| WebGPUResponse::CommandBuffer(x)) }]);
                    assert(self.finish_post(old(self), encoder, g));
                }
                Handled { replies, unreported: None }
            },
            WebGPURequest::Submit(queue, cbs) => {
                let ghost cbs0 = cbs;
                let res = self.submit(queue, cbs);
                proof {
                    assert(self.submit_post(old(self), queue, cbs0, res));
                }
                Handled { replies: Vec::new(), unreported: err_of(res) }
            },
            WebGPURequest::RunComputePass(s, encoder, commands) => {
                let ghost commands0 = commands;
                let res = self.run_compute_pass(encoder, commands);
                let replies = vec![Reply { to: s, result: Ok(WebGPUResponse::PassDone) }];
                proof {
                    assert(replies@ =~= seq![Reply { to: s, result: Ok::<WebGPUResponse, GpuError>(WebGPUResponse::PassDone) }]);
                    assert(self.run_compute_pass_post(old(self), encoder, commands0, res));
                }
                Handled { replies, unreported: err_of(res) }
            },
        };
        r
    }
}

} // verus!
