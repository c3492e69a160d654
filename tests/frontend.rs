use webgpu::actor::{PhysicalAdapter, WGPU};
use webgpu::buffer::GPUBufferState;
use webgpu::error::GpuError;
use webgpu::frontend::{GPUAdapter, GPUBuffer, GPUCommandEncoder, GPUQueue};
use webgpu::ids::{Backend, RawId, WebGPUBuffer, WebGPUCommandBuffer, WebGPUDevice, WebGPUQueue};
use webgpu::protocol::{BufferDescriptor, DeviceDescriptor, WebGPURequest, WebGPUResponse, COPY_DST, COPY_SRC, MAP_READ};

fn id(index: u32) -> RawId {
    RawId { backend: Backend::Vulkan, index, epoch: 0 }
}

#[test]
fn buffer_handle_map_read_cycle() {
    let mut b = GPUBuffer::new(WebGPUBuffer(id(1)), WebGPUDevice(id(0)), GPUBufferState::Unmapped, 4, MAP_READ);
    match b.MapReadAsync(7u32) {
        Ok(WebGPURequest::MapReadAsync(s, buf)) => {
            assert_eq!(s, 7);
            assert_eq!(buf, b.id());
        },
        _ => panic!("map must be sent"),
    }
    assert_eq!(b.state(), GPUBufferState::MappedPendingForReading);
    assert_eq!(b.mapping(), &vec![0, 0, 0, 0]);
    assert!(matches!(b.MapReadAsync(8u32), Err(GpuError::ValidationFailure)));
    assert_eq!(b.handle_response(Ok(WebGPUResponse::MapReadAsync(vec![1, 2, 3, 4]))), Ok(()));
    assert_eq!(b.state(), GPUBufferState::MappedForReading);
    assert_eq!(b.mapping(), &vec![1, 2, 3, 4]);
    match b.Unmap::<u32>() {
        Some(WebGPURequest::UnmapBuffer(buf, data)) => {
            assert_eq!(buf, b.id());
            assert_eq!(data, vec![1, 2, 3, 4]);
        },
        _ => panic!("unmap must be sent"),
    }
    assert_eq!(b.state(), GPUBufferState::Unmapped);
    assert!(b.mapping().is_empty());
    assert!(b.Unmap::<u32>().is_none());
}

#[test]
fn buffer_handle_failed_map_returns_to_unmapped() {
    let mut b = GPUBuffer::new(WebGPUBuffer(id(1)), WebGPUDevice(id(0)), GPUBufferState::Unmapped, 4, MAP_READ);
    b.MapReadAsync(1u32).unwrap();
    assert_eq!(b.handle_response(Err(GpuError::OperationFailed)), Err(GpuError::OperationFailed));
    assert_eq!(b.state(), GPUBufferState::Unmapped);
    b.MapReadAsync(1u32).unwrap();
    assert_eq!(b.handle_response(Ok(WebGPUResponse::MapReadAsync(vec![1]))), Err(GpuError::OperationFailed));
    assert_eq!(b.state(), GPUBufferState::Unmapped);
    assert_eq!(b.handle_response(Ok(WebGPUResponse::MapReadAsync(vec![1, 2, 3, 4]))), Err(GpuError::OperationFailed));
}

#[test]
fn buffer_handle_destroy_is_final() {
    let mut b = GPUBuffer::new(WebGPUBuffer(id(2)), WebGPUDevice(id(0)), GPUBufferState::MappedForWriting, 2, 0);
    let requests: Vec<WebGPURequest<u32>> = b.Destroy();
    assert_eq!(requests.len(), 2);
    assert!(matches!(requests[0], WebGPURequest::UnmapBuffer(buf, _) if buf == b.id()));
    assert!(matches!(requests[1], WebGPURequest::DestroyBuffer(buf) if buf == b.id()));
    assert_eq!(b.state(), GPUBufferState::Destroyed);
    let again: Vec<WebGPURequest<u32>> = b.Destroy();
    assert!(again.is_empty());
    assert!(b.MapReadAsync(1u32).is_err());
    let mut c = GPUBuffer::new(WebGPUBuffer(id(3)), WebGPUDevice(id(0)), GPUBufferState::Unmapped, 2, 0);
    let requests: Vec<WebGPURequest<u32>> = c.Destroy();
    assert_eq!(requests.len(), 1);
    assert_eq!(c.size(), 2);
    assert_eq!(c.usage(), 0);
}

#[test]
fn handles_drive_the_actor() {
    let mut actor: WGPU<u32> =
        WGPU::new(vec![Backend::Software], vec![PhysicalAdapter { backend: Backend::Software, name: "cpu".to_string() }]);
    let adapter = match actor.handle(WebGPURequest::RequestAdapter(1, vec![Backend::Software])).replies.pop().unwrap().result {
        Ok(WebGPUResponse::RequestAdapter(name, a)) => GPUAdapter::new(name, a),
        _ => panic!("no adapter"),
    };
    assert_eq!(adapter.Name(), "cpu");
    let desc = DeviceDescriptor { max_bind_groups: 2, anisotropic_filtering: false };
    let reply = actor.handle(adapter.RequestDevice(2, desc)).replies.pop().unwrap();
    let (device, queue, got) = adapter.handle_response(reply.result).unwrap();
    assert_eq!(got, desc);
    assert!(matches!(adapter.handle_response(Ok(WebGPUResponse::Exited)), Err(GpuError::OperationFailed)));
    let make = |usage: u32, actor: &mut WGPU<u32>| match actor
        .handle(WebGPURequest::CreateBuffer(3, device, BufferDescriptor { size: 4, usage }))
        .replies
        .pop()
        .unwrap()
        .result
    {
        Ok(WebGPUResponse::Buffer(b)) => GPUBuffer::new(b, device, GPUBufferState::Unmapped, 4, usage),
        _ => panic!("no buffer"),
    };
    let src = make(COPY_SRC, &mut actor);
    let mut dst = make(COPY_DST | MAP_READ, &mut actor);
    let encoder = match actor.handle(WebGPURequest::CreateCommandEncoder(4, device)).replies.pop().unwrap().result {
        Ok(WebGPUResponse::CommandEncoder(e)) => GPUCommandEncoder::new(e),
        _ => panic!("no encoder"),
    };
    let pass = encoder.BeginComputePass();
    drop(pass);
    assert_eq!(actor.handle(encoder.CopyBufferToBuffer(&src, 0, &dst, 0, 4).unwrap()).unreported, None);
    let cb: WebGPUCommandBuffer = match actor.handle(encoder.Finish(5)).replies.pop().unwrap().result {
        Ok(WebGPUResponse::CommandBuffer(cb)) => cb,
        _ => panic!("no command buffer"),
    };
    let q = GPUQueue::new(queue);
    assert_eq!(q.queue, WebGPUQueue(device.0));
    assert_eq!(actor.handle(q.Submit(vec![cb])).unreported, None);
    let map = dst.MapReadAsync(6).unwrap();
    let reply = actor.handle(map).replies.pop().unwrap();
    assert_eq!(dst.handle_response(reply.result), Ok(()));
    assert_eq!(dst.mapping(), &vec![0, 0, 0, 0]);
}

#[test]
fn copy_handle_refuses_mapped_buffers() {
    let encoder = GPUCommandEncoder::new(webgpu::ids::WebGPUCommandEncoder(id(9)));
    let src = GPUBuffer::new(WebGPUBuffer(id(1)), WebGPUDevice(id(0)), GPUBufferState::MappedForReading, 4, COPY_SRC);
    let dst = GPUBuffer::new(WebGPUBuffer(id(2)), WebGPUDevice(id(0)), GPUBufferState::Unmapped, 4, COPY_DST);
    let r: Result<WebGPURequest<u32>, GpuError> = encoder.CopyBufferToBuffer(&src, 0, &dst, 0, 4);
    assert!(matches!(r, Err(GpuError::ValidationFailure)));
    let r: Result<WebGPURequest<u32>, GpuError> = encoder.CopyBufferToBuffer(&dst, 0, &dst, 0, 4);
    assert!(r.is_ok());
}

#[test]
fn map_of_huge_buffer_handle_fails() {
    let mut b = GPUBuffer::new(WebGPUBuffer(id(1)), WebGPUDevice(id(0)), GPUBufferState::Unmapped, 1 << 40, MAP_READ);
    assert!(matches!(b.MapReadAsync(1u32), Err(GpuError::OperationFailed)));
    assert_eq!(b.state(), GPUBufferState::Unmapped);
}
