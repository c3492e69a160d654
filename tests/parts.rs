use webgpu::buffer::{BufferOp, GPUBufferState};
use webgpu::error::{GPUDeviceLostInfo, GPUOutOfMemoryError, GPUValidationError};
use webgpu::ids::{Backend, RawId};
use webgpu::registry::Registry;

#[test]
fn retired_id_is_unknown() {
    let mut r: Registry<&str> = Registry::new();
    let a = r.allocate(Backend::Vulkan, "a").unwrap();
    assert_eq!(r.get(a), Some(&"a"));
    assert_eq!(r.retire(a), Some("a"));
    assert_eq!(r.get(a), None);
    assert_eq!(r.retire(a), None);
    // the slot is reused under a new generation; the old id stays unknown
    let b = r.allocate(Backend::Vulkan, "b").unwrap();
    assert_eq!(b.index, a.index);
    assert_eq!(b.epoch, a.epoch + 1);
    assert_eq!(r.get(a), None);
    assert_eq!(r.get(b), Some(&"b"));
}

#[test]
fn ids_are_distinct_and_backend_tagged() {
    let mut r: Registry<u8> = Registry::new();
    let a = r.allocate(Backend::Metal, 1).unwrap();
    let b = r.allocate(Backend::Dx12, 2).unwrap();
    assert_ne!(a.index, b.index);
    assert_eq!(a.backend(), Backend::Metal);
    assert_eq!(b.backend(), Backend::Dx12);
    let other_backend = RawId { backend: Backend::Vulkan, ..a };
    assert_eq!(r.get(other_backend), None);
    r.set(a, 5);
    assert_eq!(r.get(a), Some(&5));
    assert_eq!(r.exchange(a, 6), 5);
    assert_eq!(r.get(a), Some(&6));
}

#[test]
fn buffer_state_machine() {
    let ops = [BufferOp::MapRead, BufferOp::MapWrite, BufferOp::CompleteMap, BufferOp::FailMap, BufferOp::Unmap, BufferOp::Destroy];
    for op in ops {
        let from_unmapped = GPUBufferState::Unmapped.next(op);
        match op {
            BufferOp::MapRead => assert_eq!(from_unmapped, Some(GPUBufferState::MappedPendingForReading)),
            BufferOp::MapWrite => assert_eq!(from_unmapped, Some(GPUBufferState::MappedPendingForWriting)),
            BufferOp::Destroy => assert_eq!(from_unmapped, Some(GPUBufferState::Destroyed)),
            _ => assert_eq!(from_unmapped, None),
        }
        for mapped in [GPUBufferState::MappedForReading, GPUBufferState::MappedForWriting] {
            match op {
                BufferOp::Unmap => assert_eq!(mapped.next(op), Some(GPUBufferState::Unmapped)),
                BufferOp::Destroy => assert_eq!(mapped.next(op), Some(GPUBufferState::Destroyed)),
                _ => assert_eq!(mapped.next(op), None),
            }
        }
        assert_eq!(GPUBufferState::Destroyed.next(op), None);
    }
    assert_eq!(GPUBufferState::MappedPendingForReading.next(BufferOp::CompleteMap), Some(GPUBufferState::MappedForReading));
    assert_eq!(GPUBufferState::MappedPendingForWriting.next(BufferOp::CompleteMap), Some(GPUBufferState::MappedForWriting));
    assert_eq!(GPUBufferState::MappedPendingForReading.next(BufferOp::FailMap), Some(GPUBufferState::Unmapped));
    assert_eq!(GPUBufferState::MappedPendingForWriting.next(BufferOp::MapRead), None);
    assert!(GPUBufferState::Unmapped.is_usable_by_commands());
    assert!(!GPUBufferState::MappedForReading.is_usable_by_commands());
}

#[test]
fn error_records() {
    let v = GPUValidationError::new("bad layout".to_string());
    assert_eq!(v.Message(), "bad layout");
    let c = GPUValidationError::Constructor("other".to_string());
    assert_eq!(c.Message(), "other");
    assert_eq!(GPUOutOfMemoryError::new(), GPUOutOfMemoryError::Constructor());
    let lost = GPUDeviceLostInfo::new("gone".to_string());
    assert_eq!(lost.Message(), "gone");
}
