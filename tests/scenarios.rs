use webgpu::actor::{ActorStatus, PhysicalAdapter, WGPU};
use webgpu::buffer::GPUBufferState;
use webgpu::error::{DeviceError, GpuError};
use webgpu::ids::{
    Backend, RawId, WebGPUAdapter, WebGPUBindGroup, WebGPUBuffer, WebGPUCommandBuffer, WebGPUCommandEncoder,
    WebGPUComputePipeline, WebGPUDevice, WebGPUQueue,
};
use webgpu::protocol::{
    BindGroupBinding, BindGroupLayoutBinding, BufferDescriptor, ComputeCommand, DeviceDescriptor, Reply,
    WebGPURequest, WebGPUResponse, COPY_DST, COPY_SRC, MAP_READ, MAP_WRITE, STORAGE,
};
use webgpu::recorder::GPUComputePassEncoder;
use webgpu::resources::EncodedOp;

fn actor() -> WGPU<u32> {
    WGPU::new(
        vec![Backend::Vulkan, Backend::Software],
        vec![
            PhysicalAdapter { backend: Backend::Vulkan, name: "gpu0".to_string() },
            PhysicalAdapter { backend: Backend::Software, name: "soft".to_string() },
        ],
    )
}

fn one(actor: &mut WGPU<u32>, req: WebGPURequest<u32>) -> Result<WebGPUResponse, GpuError> {
    let mut handled = actor.handle(req);
    assert_eq!(handled.replies.len(), 1);
    let reply = handled.replies.pop().unwrap();
    reply.result
}

fn device(actor: &mut WGPU<u32>) -> (WebGPUDevice, WebGPUQueue) {
    let adapter = match one(actor, WebGPURequest::RequestAdapter(1, vec![Backend::Vulkan])) {
        Ok(WebGPUResponse::RequestAdapter(name, a)) => {
            assert_eq!(name, "gpu0");
            a
        },
        _ => panic!("no adapter"),
    };
    let desc = DeviceDescriptor { max_bind_groups: 4, anisotropic_filtering: false };
    match one(actor, WebGPURequest::RequestDevice(2, adapter, desc)) {
        Ok(WebGPUResponse::RequestDevice(d, q, got)) => {
            assert_eq!(got, desc);
            assert_eq!(d.0, q.0);
            (d, q)
        },
        _ => panic!("no device"),
    }
}

fn buffer(actor: &mut WGPU<u32>, d: WebGPUDevice, size: u64, usage: u32) -> WebGPUBuffer {
    match one(actor, WebGPURequest::CreateBuffer(3, d, BufferDescriptor { size, usage })) {
        Ok(WebGPUResponse::Buffer(b)) => b,
        other => panic!("no buffer: {:?}", other.err()),
    }
}

fn encoder(actor: &mut WGPU<u32>, d: WebGPUDevice) -> WebGPUCommandEncoder {
    match one(actor, WebGPURequest::CreateCommandEncoder(4, d)) {
        Ok(WebGPUResponse::CommandEncoder(e)) => e,
        _ => panic!("no encoder"),
    }
}

fn finish(actor: &mut WGPU<u32>, e: WebGPUCommandEncoder) -> Result<WebGPUCommandBuffer, GpuError> {
    match one(actor, WebGPURequest::CommandEncoderFinish(5, e)) {
        Ok(WebGPUResponse::CommandBuffer(cb)) => Ok(cb),
        Ok(_) => panic!("unexpected reply"),
        Err(e) => Err(e),
    }
}

fn map_read(actor: &mut WGPU<u32>, b: WebGPUBuffer) -> Result<Vec<u8>, GpuError> {
    let mut handled = actor.handle(WebGPURequest::MapReadAsync(77, b));
    let reply = handled.replies.pop().unwrap();
    assert_eq!(reply.to, 77);
    match reply.result {
        Ok(WebGPUResponse::MapReadAsync(bytes)) => Ok(bytes),
        Ok(_) => panic!("unexpected reply"),
        Err(e) => Err(e),
    }
}

/// Two pipelines, each on its own layout over one bind group layout, and a
/// bind group over a storage buffer.
fn pipelines(actor: &mut WGPU<u32>, d: WebGPUDevice) -> (WebGPUComputePipeline, WebGPUComputePipeline, WebGPUBindGroup) {
    let storage = buffer(actor, d, 64, STORAGE);
    let bgl = match one(actor, WebGPURequest::CreateBindGroupLayout(6, d, vec![BindGroupLayoutBinding { binding: 0 }])) {
        Ok(WebGPUResponse::BindGroupLayout(l)) => l,
        _ => panic!("no layout"),
    };
    let group = match one(
        actor,
        WebGPURequest::CreateBindGroup(7, d, bgl, vec![BindGroupBinding { binding: 0, buffer: storage }]),
    ) {
        Ok(WebGPUResponse::BindGroup(g)) => g,
        _ => panic!("no bind group"),
    };
    let layout = match one(actor, WebGPURequest::CreatePipelineLayout(8, d, vec![bgl])) {
        Ok(WebGPUResponse::PipelineLayout(l)) => l,
        _ => panic!("no pipeline layout"),
    };
    let module = match one(actor, WebGPURequest::CreateShaderModule(9, d, vec![0x0723_0203, 1, 2])) {
        Ok(WebGPUResponse::ShaderModule(m)) => m,
        _ => panic!("no module"),
    };
    let p1 = match one(actor, WebGPURequest::CreateComputePipeline(10, d, layout, module, "main".to_string())) {
        Ok(WebGPUResponse::ComputePipeline(p)) => p,
        _ => panic!("no pipeline"),
    };
    let p2 = match one(actor, WebGPURequest::CreateComputePipeline(11, d, layout, module, "other".to_string())) {
        Ok(WebGPUResponse::ComputePipeline(p)) => p,
        _ => panic!("no pipeline"),
    };
    (p1, p2, group)
}

fn record(
    e: WebGPUCommandEncoder,
    p1: WebGPUComputePipeline,
    p2: WebGPUComputePipeline,
    g: WebGPUBindGroup,
    swap: bool,
) -> WebGPURequest<u32> {
    let mut pass = GPUComputePassEncoder::new(e);
    pass.SetPipeline(p1).unwrap();
    pass.SetBindGroup(0, g, vec![]).unwrap();
    if swap {
        pass.SetPipeline(p2).unwrap();
        pass.Dispatch(1, 1, 1).unwrap();
    } else {
        pass.Dispatch(1, 1, 1).unwrap();
        pass.SetPipeline(p2).unwrap();
    }
    pass.Dispatch(2, 2, 2).unwrap();
    pass.EndPass(20).unwrap()
}

fn observed(actor: &WGPU<u32>) -> Vec<String> {
    actor
        .submitted_ops()
        .iter()
        .map(|s| match &s.op {
            EncodedOp::Compute(ComputeCommand::SetComputePipeline(p)) => format!("pipeline {}", p.0.index),
            EncodedOp::Compute(ComputeCommand::SetBindGroup { index, bind_group_id, .. }) => {
                format!("group {} {}", index, bind_group_id.0.index)
            },
            EncodedOp::Compute(ComputeCommand::Dispatch(g)) => format!("dispatch {} {} {}", g[0], g[1], g[2]),
            EncodedOp::Compute(ComputeCommand::End) => "end".to_string(),
            EncodedOp::Copy(c) => format!("copy {}", c.size),
        })
        .collect()
}

#[test]
fn pass_is_replayed_in_recorded_order() {
    let mut a = actor();
    let (d, q) = device(&mut a);
    let (p1, p2, g) = pipelines(&mut a, d);
    let e = encoder(&mut a, d);
    let handled = a.handle(record(e, p1, p2, g, false));
    assert_eq!(handled.replies.len(), 1);
    assert_eq!(handled.replies[0].to, 20);
    assert!(matches!(handled.replies[0].result, Ok(WebGPUResponse::PassDone)));
    assert_eq!(handled.unreported, None);
    let cb = finish(&mut a, e).unwrap();
    let handled = a.handle(WebGPURequest::Submit(q, vec![cb]));
    assert_eq!(handled.unreported, None);
    let want = vec![
        format!("pipeline {}", p1.0.index),
        format!("group 0 {}", g.0.index),
        "dispatch 1 1 1".to_string(),
        format!("pipeline {}", p2.0.index),
        "dispatch 2 2 2".to_string(),
    ];
    assert_eq!(observed(&a), want);
}

#[test]
fn reordered_pass_is_observed_differently() {
    let mut a = actor();
    let (d, q) = device(&mut a);
    let (p1, p2, g) = pipelines(&mut a, d);
    let e = encoder(&mut a, d);
    a.handle(record(e, p1, p2, g, true));
    let cb = finish(&mut a, e).unwrap();
    a.handle(WebGPURequest::Submit(q, vec![cb]));
    let original = vec![
        format!("pipeline {}", p1.0.index),
        format!("group 0 {}", g.0.index),
        "dispatch 1 1 1".to_string(),
        format!("pipeline {}", p2.0.index),
        "dispatch 2 2 2".to_string(),
    ];
    let got = observed(&a);
    assert_eq!(got.len(), 5);
    assert_ne!(got, original);
    assert_eq!(got[2], format!("pipeline {}", p2.0.index));
}

#[test]
fn dispatch_before_any_pipeline_is_dropped() {
    let mut a = actor();
    let (d, q) = device(&mut a);
    let (p1, _p2, _g) = pipelines(&mut a, d);
    let e = encoder(&mut a, d);
    let mut pass = GPUComputePassEncoder::new(e);
    pass.Dispatch(9, 9, 9).unwrap();
    pass.SetPipeline(p1).unwrap();
    pass.Dispatch(3, 1, 1).unwrap();
    let req = pass.EndPass(21).unwrap();
    let handled = a.handle(req);
    assert_eq!(handled.unreported, None);
    let cb = finish(&mut a, e).unwrap();
    a.handle(WebGPURequest::Submit(q, vec![cb]));
    assert_eq!(observed(&a), vec![format!("pipeline {}", p1.0.index), "dispatch 3 1 1".to_string()]);
}

#[test]
fn ending_a_pass_twice_sends_once() {
    let e = WebGPUCommandEncoder(RawId { backend: Backend::Vulkan, index: 3, epoch: 0 });
    let mut pass = GPUComputePassEncoder::new(e);
    pass.Dispatch(1, 2, 3).unwrap();
    match pass.EndPass(5u32) {
        Ok(WebGPURequest::RunComputePass(s, enc, cmds)) => {
            assert_eq!(s, 5);
            assert_eq!(enc, e);
            assert_eq!(cmds.len(), 2);
            assert!(matches!(cmds[0], ComputeCommand::Dispatch([1, 2, 3])));
            assert!(matches!(cmds[1], ComputeCommand::End));
        },
        _ => panic!("first end must send the pass"),
    }
    assert!(pass.EndPass(6u32).is_err());
    assert!(pass.Dispatch(1, 1, 1).is_err());
    assert!(pass.SetPipeline(WebGPUComputePipeline(RawId { backend: Backend::Vulkan, index: 0, epoch: 0 })).is_err());
}

#[test]
fn map_read_round_trip_then_destroy() {
    let mut a = actor();
    let (d, _q) = device(&mut a);
    let b = buffer(&mut a, d, 1024, MAP_READ);
    assert_eq!(a.buffer_state(b), Ok(GPUBufferState::Unmapped));
    let bytes = map_read(&mut a, b).unwrap();
    assert_eq!(bytes.len(), 1024);
    assert!(bytes.iter().all(|x| *x == 0));
    assert_eq!(a.buffer_state(b), Ok(GPUBufferState::MappedForReading));
    let handled = a.handle(WebGPURequest::UnmapBuffer(b, vec![]));
    assert!(handled.replies.is_empty());
    assert_eq!(handled.unreported, None);
    assert_eq!(a.buffer_state(b), Ok(GPUBufferState::Unmapped));
    let handled = a.handle(WebGPURequest::DestroyBuffer(b));
    assert_eq!(handled.unreported, None);
    assert_eq!(a.buffer_state(b), Err(GpuError::UnknownResource));
    let handled = a.handle(WebGPURequest::DestroyBuffer(b));
    assert_eq!(handled.unreported, Some(GpuError::UnknownResource));
}

#[test]
fn copy_then_read_back() {
    let mut a = actor();
    let (d, q) = device(&mut a);
    let src = match one(&mut a, WebGPURequest::CreateBufferMapped(3, d, BufferDescriptor { size: 1024, usage: COPY_SRC })) {
        Ok(WebGPUResponse::Buffer(b)) => b,
        _ => panic!("no buffer"),
    };
    assert_eq!(a.buffer_state(src), Ok(GPUBufferState::MappedForWriting));
    let data: Vec<u8> = (0..1024u32).map(|i| (i * 7 % 251) as u8).collect();
    assert_eq!(a.handle(WebGPURequest::UnmapBuffer(src, data.clone())).unreported, None);
    let dst = buffer(&mut a, d, 1024, COPY_DST | MAP_READ);
    let e = encoder(&mut a, d);
    assert_eq!(a.handle(WebGPURequest::CopyBuffer(e, src, 0, dst, 0, 512)).unreported, None);
    let cb = finish(&mut a, e).unwrap();
    assert_eq!(a.handle(WebGPURequest::Submit(q, vec![cb])).unreported, None);
    let bytes = map_read(&mut a, dst).unwrap();
    assert_eq!(&bytes[..512], &data[..512]);
    assert!(bytes[512..].iter().all(|x| *x == 0));
    assert_eq!(a.submitted_ops().len(), 1);
}

#[test]
fn copy_with_offsets() {
    let mut a = actor();
    let (d, q) = device(&mut a);
    let src = match one(&mut a, WebGPURequest::CreateBufferMapped(3, d, BufferDescriptor { size: 8, usage: COPY_SRC })) {
        Ok(WebGPUResponse::Buffer(b)) => b,
        _ => panic!("no buffer"),
    };
    a.handle(WebGPURequest::UnmapBuffer(src, vec![1, 2, 3, 4, 5, 6, 7, 8]));
    let dst = buffer(&mut a, d, 8, COPY_DST | MAP_READ);
    let e = encoder(&mut a, d);
    a.handle(WebGPURequest::CopyBuffer(e, src, 2, dst, 5, 3));
    let cb = finish(&mut a, e).unwrap();
    a.handle(WebGPURequest::Submit(q, vec![cb]));
    assert_eq!(map_read(&mut a, dst).unwrap(), vec![0, 0, 0, 0, 0, 3, 4, 5]);
}

#[test]
fn out_of_bounds_copy_fails_at_finish() {
    let mut a = actor();
    let (d, _q) = device(&mut a);
    let src = buffer(&mut a, d, 16, COPY_SRC);
    let dst = buffer(&mut a, d, 16, COPY_DST);
    let e = encoder(&mut a, d);
    assert_eq!(a.handle(WebGPURequest::CopyBuffer(e, src, 8, dst, 0, 9)).unreported, None);
    assert_eq!(finish(&mut a, e), Err(GpuError::ValidationFailure));
    let log = a.error_log();
    assert_eq!(log.len(), 1);
    assert_eq!(log[0].device, d.0);
    assert!(matches!(log[0].error, DeviceError::Validation(_)));
    assert_eq!(finish(&mut a, e), Err(GpuError::UnknownResource));
}

#[test]
fn copy_from_mapped_buffer_invalidates_encoder() {
    let mut a = actor();
    let (d, _q) = device(&mut a);
    let src = buffer(&mut a, d, 16, COPY_SRC | MAP_READ);
    let dst = buffer(&mut a, d, 16, COPY_DST);
    map_read(&mut a, src).unwrap();
    let e = encoder(&mut a, d);
    let handled = a.handle(WebGPURequest::CopyBuffer(e, src, 0, dst, 0, 4));
    assert_eq!(handled.unreported, Some(GpuError::ValidationFailure));
    assert_eq!(a.error_log().len(), 1);
    assert_eq!(finish(&mut a, e), Err(GpuError::ValidationFailure));
}

#[test]
fn pass_with_stale_pipeline_fails_but_is_acknowledged() {
    let mut a = actor();
    let (d, _q) = device(&mut a);
    let (p1, _p2, _g) = pipelines(&mut a, d);
    let stale = WebGPUComputePipeline(RawId { backend: p1.0.backend, index: p1.0.index, epoch: p1.0.epoch + 1 });
    let e = encoder(&mut a, d);
    let mut pass = GPUComputePassEncoder::new(e);
    pass.SetPipeline(stale).unwrap();
    pass.Dispatch(1, 1, 1).unwrap();
    let handled = a.handle(pass.EndPass(30).unwrap());
    assert_eq!(handled.replies.len(), 1);
    assert_eq!(handled.replies[0].to, 30);
    assert!(matches!(handled.replies[0].result, Ok(WebGPUResponse::PassDone)));
    assert_eq!(handled.unreported, Some(GpuError::ValidationFailure));
    let log = a.error_log();
    assert_eq!(log.len(), 1);
    assert_eq!(log[0].device, d.0);
    assert!(matches!(log[0].error, DeviceError::Validation(_)));
    // the actor keeps serving
    let b = buffer(&mut a, d, 4, MAP_READ);
    assert_eq!(a.buffer_state(b), Ok(GPUBufferState::Unmapped));
    assert_eq!(a.actor_status(), ActorStatus::Running);
}

#[test]
fn map_on_one_device_does_not_hold_up_another() {
    let mut a = actor();
    let (da, _) = device(&mut a);
    let adapter_b = match one(&mut a, WebGPURequest::RequestAdapter(1, vec![Backend::Software])) {
        Ok(WebGPUResponse::RequestAdapter(name, ad)) => {
            assert_eq!(name, "soft");
            ad
        },
        _ => panic!("no adapter"),
    };
    let db = match one(
        &mut a,
        WebGPURequest::RequestDevice(2, adapter_b, DeviceDescriptor { max_bind_groups: 1, anisotropic_filtering: true }),
    ) {
        Ok(WebGPUResponse::RequestDevice(d, _, _)) => d,
        _ => panic!("no device"),
    };
    let big = buffer(&mut a, da, 1 << 20, MAP_READ);
    assert!(a.map_async(40, big, webgpu::buffer::MapMode::Read).is_none());
    assert_eq!(a.buffer_state(big), Ok(GPUBufferState::MappedPendingForReading));
    for _ in 0..10 {
        let b = buffer(&mut a, db, 16, MAP_READ);
        assert_eq!(a.buffer_state(b), Ok(GPUBufferState::Unmapped));
    }
    assert!(a.poll(db.0).is_empty());
    assert_eq!(a.buffer_state(big), Ok(GPUBufferState::MappedPendingForReading));
    let replies = a.poll(da.0);
    assert_eq!(replies.len(), 1);
    assert_eq!(replies[0].to, 40);
    match &replies[0].result {
        Ok(WebGPUResponse::MapReadAsync(bytes)) => assert_eq!(bytes.len(), 1 << 20),
        _ => panic!("map must complete"),
    }
}

#[test]
fn second_map_before_completion_is_rejected() {
    let mut a = actor();
    let (d, _) = device(&mut a);
    let b = buffer(&mut a, d, 8, MAP_READ);
    assert!(a.map_async(1, b, webgpu::buffer::MapMode::Read).is_none());
    let reply = a.map_async(2, b, webgpu::buffer::MapMode::Read).unwrap();
    assert_eq!(reply.to, 2);
    assert!(matches!(reply.result, Err(GpuError::ValidationFailure)));
    assert_eq!(a.poll(d.0).len(), 1);
}

#[test]
fn map_of_destroyed_buffer_still_answers() {
    let mut a = actor();
    let (d, _) = device(&mut a);
    let b = buffer(&mut a, d, 8, MAP_READ);
    assert!(a.map_async(9, b, webgpu::buffer::MapMode::Read).is_none());
    assert_eq!(a.destroy_buffer(b), Ok(()));
    let replies = a.poll(d.0);
    assert_eq!(replies.len(), 1);
    assert_eq!(replies[0].to, 9);
    assert!(matches!(replies[0].result, Err(GpuError::OperationFailed)));
}

#[test]
fn map_write_then_unmap_stores_data() {
    let mut a = actor();
    let (d, _) = device(&mut a);
    let b = buffer(&mut a, d, 4, MAP_WRITE | MAP_READ);
    let mut handled = a.handle(WebGPURequest::MapWriteAsync(3, b));
    let reply = handled.replies.pop().unwrap();
    assert_eq!(reply.to, 3);
    assert!(matches!(reply.result, Ok(WebGPUResponse::MapWriteAsync)));
    assert_eq!(a.buffer_state(b), Ok(GPUBufferState::MappedForWriting));
    assert_eq!(a.unmap(b, vec![9, 8, 7]), Err(GpuError::ValidationFailure));
    assert_eq!(a.unmap(b, vec![9, 8, 7, 6]), Ok(()));
    assert_eq!(map_read(&mut a, b).unwrap(), vec![9, 8, 7, 6]);
}

#[test]
fn map_without_usage_is_rejected() {
    let mut a = actor();
    let (d, _) = device(&mut a);
    let b = buffer(&mut a, d, 4, COPY_SRC);
    assert_eq!(map_read(&mut a, b), Err(GpuError::ValidationFailure));
    assert_eq!(a.buffer_state(b), Ok(GPUBufferState::Unmapped));
}

#[test]
fn unmap_of_unmapped_buffer_is_reported() {
    let mut a = actor();
    let (d, _) = device(&mut a);
    let b = buffer(&mut a, d, 4, MAP_READ);
    assert_eq!(a.handle(WebGPURequest::UnmapBuffer(b, vec![])).unreported, Some(GpuError::ValidationFailure));
    assert_eq!(a.error_log().len(), 1);
}

#[test]
fn wrong_kind_and_unknown_ids() {
    let mut a = actor();
    let (d, q) = device(&mut a);
    let b = buffer(&mut a, d, 4, MAP_READ);
    // a buffer's identifier used as a device's
    let r = one(&mut a, WebGPURequest::CreateBuffer(3, WebGPUDevice(b.0), BufferDescriptor { size: 4, usage: 0 }));
    assert!(matches!(r, Err(GpuError::WrongResourceKind)));
    let ghost = WebGPUDevice(RawId { backend: Backend::Vulkan, index: 999, epoch: 0 });
    let r = one(&mut a, WebGPURequest::CreateCommandEncoder(3, ghost));
    assert!(matches!(r, Err(GpuError::UnknownResource)));
    let r = one(&mut a, WebGPURequest::RequestDevice(3, WebGPUAdapter(q.0), DeviceDescriptor { max_bind_groups: 1, anisotropic_filtering: false }));
    assert!(matches!(r, Err(GpuError::WrongResourceKind)));
}

#[test]
fn adapter_requests() {
    let mut a = actor();
    let first = match one(&mut a, WebGPURequest::RequestAdapter(1, vec![Backend::Software, Backend::Vulkan])) {
        Ok(WebGPUResponse::RequestAdapter(name, ad)) => {
            assert_eq!(name, "gpu0");
            ad
        },
        _ => panic!("no adapter"),
    };
    // a known adapter of a candidate backend is reused
    match one(&mut a, WebGPURequest::RequestAdapter(1, vec![Backend::Vulkan])) {
        Ok(WebGPUResponse::RequestAdapter(_, ad)) => assert_eq!(ad, first),
        _ => panic!("no adapter"),
    }
    assert!(matches!(one(&mut a, WebGPURequest::RequestAdapter(1, vec![Backend::Metal])), Err(GpuError::BackendUnavailable)));
    let mut b: WGPU<u32> = WGPU::new(vec![Backend::Metal], vec![]);
    assert!(matches!(one(&mut b, WebGPURequest::RequestAdapter(1, vec![Backend::Metal])), Err(GpuError::OperationFailed)));
    assert_eq!(b.actor_status(), ActorStatus::Running);
}

#[test]
fn oversized_buffer_is_out_of_memory() {
    let mut a = actor();
    let (d, _) = device(&mut a);
    let r = one(&mut a, WebGPURequest::CreateBuffer(3, d, BufferDescriptor { size: 1 << 40, usage: MAP_READ }));
    assert!(matches!(r, Err(GpuError::OperationFailed)));
    let log = a.error_log();
    assert_eq!(log.len(), 1);
    assert!(matches!(log[0].error, DeviceError::OutOfMemory(_)));
}

#[test]
fn pipeline_layout_limits_and_refs() {
    let mut a = actor();
    let (d, _) = device(&mut a);
    let bgl = match one(&mut a, WebGPURequest::CreateBindGroupLayout(6, d, vec![])) {
        Ok(WebGPUResponse::BindGroupLayout(l)) => l,
        _ => panic!("no layout"),
    };
    let r = one(&mut a, WebGPURequest::CreatePipelineLayout(8, d, vec![bgl, bgl, bgl, bgl, bgl]));
    assert!(matches!(r, Err(GpuError::ValidationFailure)));
    let stale = webgpu::ids::WebGPUBindGroupLayout(RawId { backend: Backend::Vulkan, index: 500, epoch: 0 });
    let r = one(&mut a, WebGPURequest::CreatePipelineLayout(8, d, vec![bgl, stale]));
    assert!(matches!(r, Err(GpuError::UnknownResource)));
    let r = one(&mut a, WebGPURequest::CreatePipelineLayout(8, d, vec![bgl, bgl]));
    assert!(matches!(r, Ok(WebGPUResponse::PipelineLayout(_))));
}

#[test]
fn bind_group_must_fill_layout_slots() {
    let mut a = actor();
    let (d, _) = device(&mut a);
    let b = buffer(&mut a, d, 4, STORAGE);
    let bgl = match one(&mut a, WebGPURequest::CreateBindGroupLayout(6, d, vec![BindGroupLayoutBinding { binding: 2 }])) {
        Ok(WebGPUResponse::BindGroupLayout(l)) => l,
        _ => panic!("no layout"),
    };
    let r = one(&mut a, WebGPURequest::CreateBindGroup(7, d, bgl, vec![BindGroupBinding { binding: 1, buffer: b }]));
    assert!(matches!(r, Err(GpuError::ValidationFailure)));
    let r = one(&mut a, WebGPURequest::CreateBindGroup(7, d, bgl, vec![]));
    assert!(matches!(r, Err(GpuError::ValidationFailure)));
    let r = one(&mut a, WebGPURequest::CreateBindGroup(7, d, bgl, vec![BindGroupBinding { binding: 2, buffer: b }]));
    assert!(matches!(r, Ok(WebGPUResponse::BindGroup(_))));
}

#[test]
fn submit_rejects_spent_or_repeated_buffers() {
    let mut a = actor();
    let (d, q) = device(&mut a);
    let e = encoder(&mut a, d);
    let cb = finish(&mut a, e).unwrap();
    assert_eq!(a.handle(WebGPURequest::Submit(q, vec![cb, cb])).unreported, Some(GpuError::ValidationFailure));
    assert_eq!(a.handle(WebGPURequest::Submit(q, vec![cb])).unreported, None);
    assert_eq!(a.handle(WebGPURequest::Submit(q, vec![cb])).unreported, Some(GpuError::ValidationFailure));
    assert_eq!(a.error_log().len(), 2);
}

#[test]
fn exit_answers_everything_and_stops() {
    let mut a = actor();
    let (d, _) = device(&mut a);
    let b = buffer(&mut a, d, 4, MAP_READ);
    assert!(a.map_async(50, b, webgpu::buffer::MapMode::Read).is_none());
    let handled = a.handle(WebGPURequest::Exit(60));
    assert_eq!(handled.replies.len(), 2);
    assert_eq!(handled.replies[0].to, 50);
    assert_eq!(handled.replies[1].to, 60);
    assert!(matches!(handled.replies[1].result, Ok(WebGPUResponse::Exited)));
    assert_eq!(a.actor_status(), ActorStatus::Stopped);
    let handled: webgpu::server::Handled<u32> = a.handle(WebGPURequest::CreateCommandEncoder(70, d));
    assert_eq!(handled.replies.len(), 1);
    assert_eq!(handled.replies[0].to, 70);
    assert!(matches!(handled.replies[0].result, Err(GpuError::OperationFailed)));
}


#[test]
fn bind_group_must_match_pipeline_layout() {
    let mut a = actor();
    let (d, _q) = device(&mut a);
    let (p1, _p2, g1) = pipelines(&mut a, d);
    let other = buffer(&mut a, d, 8, STORAGE);
    let bgl2 = match one(&mut a, WebGPURequest::CreateBindGroupLayout(6, d, vec![BindGroupLayoutBinding { binding: 5 }])) {
        Ok(WebGPUResponse::BindGroupLayout(l)) => l,
        _ => panic!("no layout"),
    };
    let g2 = match one(&mut a, WebGPURequest::CreateBindGroup(7, d, bgl2, vec![BindGroupBinding { binding: 5, buffer: other }])) {
        Ok(WebGPUResponse::BindGroup(g)) => g,
        _ => panic!("no bind group"),
    };
    // a group bound before the pipeline is checked when the pipeline is set
    let e = encoder(&mut a, d);
    let mut pass = GPUComputePassEncoder::new(e);
    pass.SetBindGroup(0, g1, vec![]).unwrap();
    pass.SetPipeline(p1).unwrap();
    pass.SetBindGroup(0, g1, vec![4]).unwrap();
    assert_eq!(a.handle(pass.EndPass(1).unwrap()).unreported, None);
    let e = encoder(&mut a, d);
    let mut pass = GPUComputePassEncoder::new(e);
    pass.SetBindGroup(0, g2, vec![]).unwrap();
    pass.SetPipeline(p1).unwrap();
    assert_eq!(a.handle(pass.EndPass(1).unwrap()).unreported, Some(GpuError::ValidationFailure));
    // rebinding the slot before the pipeline is set replaces the first group
    let e = encoder(&mut a, d);
    let mut pass = GPUComputePassEncoder::new(e);
    pass.SetBindGroup(0, g2, vec![]).unwrap();
    pass.SetBindGroup(0, g1, vec![]).unwrap();
    pass.SetPipeline(p1).unwrap();
    assert_eq!(a.handle(pass.EndPass(1).unwrap()).unreported, None);
    // after the pipeline, a group of another layout is refused
    let e = encoder(&mut a, d);
    let mut pass = GPUComputePassEncoder::new(e);
    pass.SetPipeline(p1).unwrap();
    pass.SetBindGroup(0, g2, vec![]).unwrap();
    assert_eq!(a.handle(pass.EndPass(2).unwrap()).unreported, Some(GpuError::ValidationFailure));
    // and so is an index past the device's limit
    let e = encoder(&mut a, d);
    let mut pass = GPUComputePassEncoder::new(e);
    pass.SetBindGroup(4, g1, vec![]).unwrap();
    assert_eq!(a.handle(pass.EndPass(3).unwrap()).unreported, Some(GpuError::ValidationFailure));
    assert_eq!(a.error_log().len(), 3);
}

#[test]
fn failed_pass_then_create_on_same_channel() {
    let mut a = actor();
    let (d, _q) = device(&mut a);
    let e = encoder(&mut a, d);
    let mut pass = GPUComputePassEncoder::new(e);
    pass.SetPipeline(WebGPUComputePipeline(RawId { backend: Backend::Vulkan, index: 77, epoch: 3 })).unwrap();
    let handled = a.handle(pass.EndPass(5).unwrap());
    assert_eq!(handled.replies[0].to, 5);
    let handled = a.handle(WebGPURequest::CreateBuffer(5, d, BufferDescriptor { size: 8, usage: MAP_READ }));
    assert_eq!(handled.replies.len(), 1);
    assert_eq!(handled.replies[0].to, 5);
    assert!(matches!(handled.replies[0].result, Ok(WebGPUResponse::Buffer(_))));
    assert_eq!(a.actor_status(), ActorStatus::Running);
}

#[test]
fn destroyed_slot_is_reused_under_new_generation() {
    let mut a = actor();
    let (d, _q) = device(&mut a);
    let b = buffer(&mut a, d, 4, MAP_READ);
    a.handle(WebGPURequest::DestroyBuffer(b));
    let c = buffer(&mut a, d, 4, MAP_READ);
    assert_eq!(c.0.index, b.0.index);
    assert!(c.0.epoch > b.0.epoch);
    assert_eq!(a.buffer_state(b), Err(GpuError::UnknownResource));
    assert_eq!(a.buffer_state(c), Ok(GPUBufferState::Unmapped));
    assert_eq!(map_read(&mut a, b), Err(GpuError::UnknownResource));
}
