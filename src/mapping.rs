//! Buffer mapping: maps start on the actor's loop and complete when the
//! backend is polled, each answering the channel that asked for it.

use vstd::prelude::*;
use crate::actor::{distinct_buffers, PendingMap, WGPU};
use crate::buffer::{mapped_state, pending_state, GPUBufferState, MapMode};
use crate::error::{DeviceError, GPUValidationError, GpuError};
use crate::ids::{RawId, WebGPUBuffer};
use crate::protocol::{Reply, WebGPUResponse, MAP_READ, MAP_WRITE};
use crate::queue::contents;
use crate::resources::{BufferEntry, CommandBufferEntry, Resource, ResourceKind};

verus! {

pub open spec fn mode_flag(mode: MapMode) -> u32 {
    match mode {
        MapMode::Read => MAP_READ,
        MapMode::Write => MAP_WRITE,
    }
}

/// `b` with only its state changed.
pub open spec fn with_state(r: Resource, b: BufferEntry, state: GPUBufferState) -> bool {
    &&& r is Buffer
    &&& r->Buffer_0.device == b.device
    &&& r->Buffer_0.size == b.size
    &&& r->Buffer_0.usage == b.usage
    &&& r->Buffer_0.state == state
    &&& r->Buffer_0.contents@ == b.contents@
}

/// Polling one device leaves the maps pending on any other device exactly
/// as they were: devices never wait on each other's maps.
pub proof fn lemma_poll_isolation<S>(pending: Seq<PendingMap<S>>, polled: RawId, other: RawId)
    requires
        polled != other,
    ensures
        pending.filter(|p: PendingMap<S>| p.device != polled).filter(|p: PendingMap<S>| p.device == other)
            == pending.filter(|p: PendingMap<S>| p.device == other),
    decreases pending.len(),
{
    reveal(Seq::filter);
    if pending.len() > 0 {
        lemma_poll_isolation(pending.drop_last(), polled, other);
        let kept = pending.filter(|p: PendingMap<S>| p.device != polled);
        if pending.last().device != polled {
            assert(kept.drop_last() == pending.drop_last().filter(|p: PendingMap<S>| p.device != polled));
        }
    }
}

fn copy_bytes(v: &Vec<u8>) -> (r: Vec<u8>)
    ensures
        r@ == v@,
{
    let mut r: Vec<u8> = Vec::new();
    while r.len() < v.len()
        invariant
            r@.len() <= v@.len(),
            forall|k: int| 0 <= k < r@.len() ==> r@[k] == v@[k],
        decreases v@.len() - r@.len(),
    {
        r.push(v[r.len()]);
    }
    assert(r@ =~= v@);
    r
}

impl<S> WGPU<S> {
    /// The buffer's state changes; nothing else does.
    pub open spec fn restated(&self, o: &Self, buffer: RawId, b: BufferEntry, state: GPUBufferState) -> bool {
        &&& self.keeps(o)
        &&& self.resources() == o.resources().insert(buffer, self.resources()[buffer])
        &&& with_state(self.resources()[buffer], b, state)
    }

    /// Whether map `p` succeeds here: its buffer is live and waits for it.
    pub open spec fn map_succeeds(&self, p: PendingMap<S>) -> bool {
        self.lookup(p.buffer, ResourceKind::Buffer) matches Ok(Resource::Buffer(b)) && b.state == pending_state(p.mode)
    }

    /// The answer that map `p` gets here: the buffer's contents for a read
    /// map that succeeds, the go-ahead for a write map that succeeds, and
    /// `OperationFailed` otherwise.
    pub open spec fn map_answer(&self, p: PendingMap<S>, reply: Reply<S>) -> bool {
        &&& reply.to == p.reply
        &&& if self.map_succeeds(p) {
            match p.mode {
                MapMode::Read => reply.result matches Ok(WebGPUResponse::MapReadAsync(bytes)) && bytes@
                    == self.resources()[p.buffer]->Buffer_0.contents@,
                MapMode::Write => reply.result matches Ok(WebGPUResponse::MapWriteAsync),
            }
        } else {
            reply.result == Err::<WebGPUResponse, GpuError>(GpuError::OperationFailed)
        }
    }

    /// What completing `maps` in order does, seen from the state `o` before:
    /// each map gets its answer, each buffer of a map that succeeds becomes
    /// mapped, and nothing else changes.
    pub open spec fn completed(&self, o: &Self, maps: Seq<PendingMap<S>>, replies: Seq<Reply<S>>) -> bool {
        &&& replies.len() == maps.len()
        &&& forall|i: int| 0 <= i < maps.len() ==> #[trigger] o.map_answer(maps[i], replies[i])
        &&& self.errors() == o.errors()
        &&& self.retired() == o.retired()
        &&& self.adapters() == o.adapters()
        &&& self.backends() == o.backends()
        &&& self.physical() == o.physical()
        &&& self.submitted() == o.submitted()
        &&& self.status() == o.status()
        &&& self.resources().dom() == o.resources().dom()
        &&& forall|i: int|
            0 <= i < maps.len() && #[trigger] o.map_succeeds(maps[i]) ==> with_state(
                self.resources()[maps[i].buffer],
                o.resources()[maps[i].buffer]->Buffer_0,
                mapped_state(maps[i].mode),
            )
        &&& forall|id: RawId| #[trigger]
            self.resources().contains_key(id) ==> self.resources()[id] == o.resources()[id] || exists|i: int|
                0 <= i < maps.len() && maps[i].buffer == id && o.map_succeeds(maps[i])
    }

    /// Whether no map in flight waits on `buffer`.
    pub open spec fn unawaited(&self, buffer: RawId) -> bool {
        forall|q: PendingMap<S>| #[trigger] self.pending().contains(q) ==> q.buffer != buffer
    }

    /// A live buffer that is not mapped nor waiting for a map has no map in
    /// flight on it.
    proof fn lemma_idle_is_unawaited(&self, buffer: RawId)
        requires
            self.wf(),
            self.resources().contains_key(buffer),
            self.resources()[buffer] is Buffer,
            !self.resources()[buffer]->Buffer_0.state.is_pending(),
        ensures
            self.unawaited(buffer),
    {
        self.lemma_pending_ok();
        assert forall|q: PendingMap<S>| #[trigger] self.pending().contains(q) implies q.buffer != buffer by {
            assert(self.map_target_ok(q));
        }
    }

    /// Moves a live buffer that no map waits on to another state.
    fn set_buffer_state(&mut self, buffer: RawId, state: GPUBufferState)
        requires
            old(self).wf(),
            old(self).resources().contains_key(buffer),
            old(self).resources()[buffer] is Buffer,
            old(self).unawaited(buffer),
        ensures
            final(self).wf(),
            final(self).has_room() == old(self).has_room(),
            final(self).restated(old(self), buffer, old(self).resources()[buffer]->Buffer_0, state),
    {
        let placeholder = Resource::CommandBuffer(CommandBufferEntry { device: buffer, ops: Vec::new() });
        let prior = self.exchange(buffer, placeholder);
        if let Resource::Buffer(b) = prior {
            proof {
                self.lemma_resource_ok_of(old(self), buffer);
            }
            self.replace(
                buffer,
                Resource::Buffer(BufferEntry { device: b.device, size: b.size, usage: b.usage, state, contents: b.contents }),
            );
        }
        proof {
            assert(self.resources() =~= old(self).resources().insert(buffer, self.resources()[buffer]));
        }
    }

    proof fn lemma_resource_ok_of(&self, o: &Self, id: RawId)
        requires
            o.wf(),
            o.resources().contains_key(id),
        ensures
            crate::actor::resource_ok(o.resources()[id]),
    {
        o.lemma_resource_ok(id);
    }

    /// Starts a map.  The buffer must be unmapped and allow the mode; then
    /// the map is left pending, to be answered when the device is polled.
    /// Otherwise the channel is answered at once with the error.
    pub fn map_async(&mut self, reply: S, buffer: WebGPUBuffer, mode: MapMode) -> (r: Option<Reply<S>>)
        requires
            old(self).wf(),
        ensures
            final(self).wf(),
            match old(self).lookup(buffer.0, ResourceKind::Buffer) {
                Err(e) => r == Some(Reply { to: reply, result: Err(e) }) && final(self).unchanged(old(self)),
                Ok(Resource::Buffer(b)) => if b.state !is Unmapped || b.usage & mode_flag(mode) == 0 {
                    r == Some(Reply { to: reply, result: Err(GpuError::ValidationFailure) }) && final(self).unchanged(
                        old(self),
                    )
                } else {
                    &&& r is None
                    &&& final(self).pending() == old(self).pending().push(
                        PendingMap { reply, buffer: buffer.0, device: b.device, mode },
                    )
                    &&& final(self).errors() == old(self).errors()
                    &&& final(self).retired() == old(self).retired()
                    &&& final(self).adapters() == old(self).adapters()
                    &&& final(self).backends() == old(self).backends()
                    &&& final(self).physical() == old(self).physical()
                    &&& final(self).submitted() == old(self).submitted()
                    &&& final(self).status() == old(self).status()
                    &&& final(self).resources() == old(self).resources().insert(
                        buffer.0,
                        final(self).resources()[buffer.0],
                    )
                    &&& with_state(final(self).resources()[buffer.0], b, pending_state(mode))
                },
                Ok(_) => false,
            },
    {
        let (device, state, usage) = match self.resolve(buffer.0, ResourceKind::Buffer) {
            Err(e) => {
                return Some(Reply { to: reply, result: Err(e) });
            },
            Ok(Resource::Buffer(b)) => (b.device, b.state, b.usage),
            Ok(_) => {
                return Some(Reply { to: reply, result: Err(GpuError::WrongResourceKind) });
            },
        };
        let flag = match mode {
            MapMode::Read => MAP_READ,
            MapMode::Write => MAP_WRITE,
        };
        if !state.is_usable_by_commands() || usage & flag == 0 {
            return Some(Reply { to: reply, result: Err(GpuError::ValidationFailure) });
        }
        let pending = match mode {
            MapMode::Read => GPUBufferState::MappedPendingForReading,
            MapMode::Write => GPUBufferState::MappedPendingForWriting,
        };
        proof {
            self.lemma_idle_is_unawaited(buffer.0);
        }
        self.set_buffer_state(buffer.0, pending);
        self.add_pending(PendingMap { reply, buffer: buffer.0, device, mode });
        None
    }

    /// Completes one pending map.  If its buffer is still live and waiting
    /// for it, the buffer becomes mapped and the channel gets the contents
    /// (for reading) or the go-ahead (for writing); otherwise the channel
    /// gets an error.  The channel is answered either way.
    pub fn complete_map(&mut self, p: PendingMap<S>) -> (r: Reply<S>)
        requires
            old(self).wf(),
            old(self).unawaited(p.buffer),
        ensures
            final(self).wf(),
            final(self).pending() == old(self).pending(),
            final(self).has_room() == old(self).has_room(),
            old(self).map_answer(p, r),
            old(self).map_succeeds(p) ==> final(self).restated(
                old(self),
                p.buffer,
                old(self).resources()[p.buffer]->Buffer_0,
                mapped_state(p.mode),
            ),
            !old(self).map_succeeds(p) ==> final(self).unchanged(old(self)),
    {
        let waiting = match p.mode {
            MapMode::Read => GPUBufferState::MappedPendingForReading,
            MapMode::Write => GPUBufferState::MappedPendingForWriting,
        };
        let bytes = match self.resolve(p.buffer, ResourceKind::Buffer) {
            Ok(Resource::Buffer(b)) => {
                if b.state != waiting {
                    return Reply { to: p.reply, result: Err(GpuError::OperationFailed) };
                }
                match p.mode {
                    MapMode::Read => Some(copy_bytes(&b.contents)),
                    MapMode::Write => None,
                }
            },
            _ => {
                return Reply { to: p.reply, result: Err(GpuError::OperationFailed) };
            },
        };
        let mapped = match p.mode {
            MapMode::Read => GPUBufferState::MappedForReading,
            MapMode::Write => GPUBufferState::MappedForWriting,
        };
        self.set_buffer_state(p.buffer, mapped);
        match bytes {
            Some(v) => Reply { to: p.reply, result: Ok(WebGPUResponse::MapReadAsync(v)) },
            None => Reply { to: p.reply, result: Ok(WebGPUResponse::MapWriteAsync) },
        }
    }

    /// Completion seen from `mid` reads the same from `o` when the two differ
    /// only in the maps in flight.
    pub(crate) proof fn lemma_completed_from(
        &self,
        mid: &Self,
        o: &Self,
        maps: Seq<PendingMap<S>>,
        replies: Seq<Reply<S>>,
    )
        requires
            self.completed(mid, maps, replies),
            mid.resources() == o.resources(),
            mid.retired() == o.retired(),
            mid.errors() == o.errors(),
            mid.adapters() == o.adapters(),
            mid.backends() == o.backends(),
            mid.physical() == o.physical(),
            mid.submitted() == o.submitted(),
            mid.status() == o.status(),
        ensures
            self.completed(o, maps, replies),
    {
        assert forall|i: int| 0 <= i < maps.len() implies #[trigger] o.map_answer(maps[i], replies[i]) by {
            assert(mid.map_answer(maps[i], replies[i]));
            assert(o.map_succeeds(maps[i]) == mid.map_succeeds(maps[i]));
        }
        assert forall|i: int| 0 <= i < maps.len() && #[trigger] o.map_succeeds(maps[i]) implies with_state(
            self.resources()[maps[i].buffer],
            o.resources()[maps[i].buffer]->Buffer_0,
            mapped_state(maps[i].mode),
        ) by {
            assert(mid.map_succeeds(maps[i]));
        }
        assert forall|id: RawId| #[trigger] self.resources().contains_key(id) implies self.resources()[id]
            == o.resources()[id] || exists|i: int| 0 <= i < maps.len() && maps[i].buffer == id && o.map_succeeds(maps[i]) by {
            if self.resources()[id] != o.resources()[id] {
                let i = choose|i: int| 0 <= i < maps.len() && maps[i].buffer == id && mid.map_succeeds(maps[i]);
                assert(o.map_succeeds(maps[i]) == mid.map_succeeds(maps[i]));
            }
        }
    }

    /// Completes maps taken out of flight, in order.
    pub(crate) fn complete_all(&mut self, maps: Vec<PendingMap<S>>) -> (r: Vec<Reply<S>>)
        requires
            old(self).wf(),
            distinct_buffers(maps@),
            forall|p: PendingMap<S>| #[trigger] maps@.contains(p) ==> old(self).unawaited(p.buffer),
        ensures
            final(self).wf(),
            final(self).pending() == old(self).pending(),
            final(self).completed(old(self), maps@, r@),
    {
        let ghost all = maps@;
        let mut taken = maps;
        let mut replies: Vec<Reply<S>> = Vec::new();
        let total = taken.len();
        proof {
            assert(all.subrange(0, all.len() as int) =~= all);
        }
        while taken.len() > 0
            invariant
                self.wf(),
                all.len() == total,
                replies@.len() <= all.len(),
                taken@ == all.subrange(replies@.len() as int, all.len() as int),
                distinct_buffers(all),
                forall|p: PendingMap<S>| #[trigger] all.contains(p) ==> old(self).unawaited(p.buffer),
                self.pending() == old(self).pending(),
                self.completed(old(self), all.take(replies@.len() as int), replies@),
            decreases taken.len(),
        {
            let ghost n = replies@.len() as int;
            proof {
                assert(n < all.len());
            }
            let p = taken.remove(0);
            let ghost before = *self;
            proof {
                assert(p == all[n]);
                assert(taken@ =~= all.subrange(n + 1, all.len() as int));
                assert(all.contains(p));
                let done = all.take(n);
                if before.resources().contains_key(p.buffer) && before.resources()[p.buffer] != old(self).resources()[p.buffer] {
                    let i = choose|i: int| 0 <= i < done.len() && done[i].buffer == p.buffer && old(self).map_succeeds(done[i]);
                    assert(all[i].buffer == all[n].buffer);
                }
                assert(before.lookup(p.buffer, ResourceKind::Buffer) == old(self).lookup(p.buffer, ResourceKind::Buffer));
            }
            let ghost replies_before = replies@;
            let reply = self.complete_map(p);
            replies.push(reply);
            proof {
                let done = all.take(n + 1);
                assert(done =~= all.take(n).push(p));
                assert forall|i: int| 0 <= i < done.len() implies #[trigger] old(self).map_answer(done[i], replies@[i]) by {
                    if i < n {
                        assert(done[i] == all.take(n)[i]);
                        assert(replies@[i] == replies_before[i]);
                    }
                }
                assert forall|i: int|
                    0 <= i < done.len() && #[trigger] old(self).map_succeeds(done[i]) implies with_state(
                    self.resources()[done[i].buffer],
                    old(self).resources()[done[i].buffer]->Buffer_0,
                    mapped_state(done[i].mode),
                ) by {
                    if i < n {
                        assert(done[i] == all.take(n)[i]);
                        assert(all[i].buffer != all[n].buffer);
                    }
                }
                assert forall|id: RawId| #[trigger] self.resources().contains_key(id) implies self.resources()[id]
                    == old(self).resources()[id] || exists|i: int|
                    0 <= i < done.len() && done[i].buffer == id && old(self).map_succeeds(done[i]) by {
                    if self.resources()[id] != old(self).resources()[id] {
                        if before.resources()[id] != old(self).resources()[id] {
                            let i = choose|i: int|
                                0 <= i < all.take(n).len() && all.take(n)[i].buffer == id && old(self).map_succeeds(all.take(n)[i]);
                            assert(done[i] == all.take(n)[i]);
                        } else {
                            assert(done[n] == p);
                        }
                    }
                }
                assert(self.resources().dom() =~= old(self).resources().dom());
            }
        }
        proof {
            assert(all.take(replies@.len() as int) =~= all);
        }
        replies
    }

    /// Polls a device: every map pending on it completes, in the order
    /// issued, and each of their channels gets exactly one reply, the one
    /// that `map_answer` gives.  Maps pending on other devices are left
    /// alone.
    pub fn poll(&mut self, device: RawId) -> (r: Vec<Reply<S>>)
        requires
            old(self).wf(),
        ensures
            final(self).wf(),
            final(self).pending() == old(self).pending().filter(|p: PendingMap<S>| p.device != device),
            final(self).completed(old(self), old(self).pending().filter(|p: PendingMap<S>| p.device == device), r@),
    {
        let taken = self.take_pending(device);
        let ghost mid = *self;
        let replies = self.complete_all(taken);
        proof {
            self.lemma_completed_from(&mid, old(self), old(self).pending().filter(|p: PendingMap<S>| p.device == device), replies@);
        }
        replies
    }

    /// What `unmap` leaves and returns, from state `o`.
    pub open spec fn unmap_post(&self, o: &Self, buffer: WebGPUBuffer, data: Vec<u8>, r: Result<(), GpuError>) -> bool {
        &&& (match o.lookup(buffer.0, ResourceKind::Buffer) {
            Err(e) => r == Err::<(), GpuError>(e) && self.unchanged(o),
            Ok(Resource::Buffer(b)) => if b.state is MappedForReading {
                r == Ok::<(), GpuError>(()) && self.restated(o, buffer.0, b, GPUBufferState::Unmapped)
            } else if b.state is MappedForWriting && data@.len() == b.size {
                &&& r == Ok::<(), GpuError>(())
                &&& self.keeps(o)
                &&& self.resources() == o.resources().insert(
                    buffer.0,
                    self.resources()[buffer.0],
                )
                &&& with_state(
                    self.resources()[buffer.0],
                    BufferEntry { contents: data, ..b },
                    GPUBufferState::Unmapped,
                )
            } else {
                &&& r == Err::<(), GpuError>(GpuError::ValidationFailure)
                &&& self.same_but_resources(o)
                &&& self.resources() == o.resources()
                &&& self.retired() == o.retired()
                &&& self.reported(o, b.device, true)
            },
            Ok(_) => false,
        })
    }

    /// Unmaps a mapped buffer.  A buffer mapped for writing takes `data` as
    /// its new contents, which must be exactly as long as the buffer.  Any
    /// other state is a validation error on the device's stream.
    pub fn unmap(&mut self, buffer: WebGPUBuffer, data: Vec<u8>) -> (r: Result<(), GpuError>)
        requires
            old(self).wf(),
        ensures
            final(self).wf(),
            final(self).unmap_post(old(self), buffer, data, r),
    {
        let (device, size, state) = match self.resolve(buffer.0, ResourceKind::Buffer) {
            Err(e) => {
                return Err(e);
            },
            Ok(Resource::Buffer(b)) => (b.device, b.size, b.state),
            Ok(_) => {
                return Err(GpuError::WrongResourceKind);
            },
        };
        match state {
            GPUBufferState::MappedForReading => {
                proof {
                    self.lemma_idle_is_unawaited(buffer.0);
                }
                self.set_buffer_state(buffer.0, GPUBufferState::Unmapped);
                Ok(())
            },
            GPUBufferState::MappedForWriting if data.len() as u64 == size => {
                proof {
                    self.lemma_idle_is_unawaited(buffer.0);
                }
                let placeholder = Resource::CommandBuffer(CommandBufferEntry { device: buffer.0, ops: Vec::new() });
                let prior = self.exchange(buffer.0, placeholder);
                if let Resource::Buffer(b) = prior {
                    proof {
                        self.lemma_resource_ok_of(old(self), buffer.0);
                    }
                    self.replace(
                        buffer.0,
                        Resource::Buffer(
                            BufferEntry {
                                device: b.device,
                                size: b.size,
                                usage: b.usage,
                                state: GPUBufferState::Unmapped,
                                contents: data,
                            },
                        ),
                    );
                }
                proof {
                    assert(self.resources() =~= old(self).resources().insert(buffer.0, self.resources()[buffer.0]));
                }
                Ok(())
            },
            _ => {
                self.report(device, DeviceError::Validation(GPUValidationError::new("unmap of a buffer that is not mapped".to_owned())));
                proof {
                    assert(self.errors().take(old(self).errors().len() as int) =~= old(self).errors());
                }
                Err(GpuError::ValidationFailure)
            },
        }
    }

    /// What `destroy_buffer` leaves and returns, from state `o`.
    pub open spec fn destroy_buffer_post(&self, o: &Self, buffer: WebGPUBuffer, r: Result<(), GpuError>) -> bool {
        &&& (match o.lookup(buffer.0, ResourceKind::Buffer) {
            Err(e) => r == Err::<(), GpuError>(e) && self.unchanged(o),
            Ok(_) => {
                &&& r == Ok::<(), GpuError>(())
                &&& self.same_but_resources(o)
                &&& self.errors() == o.errors()
                &&& self.resources() == o.resources().remove(buffer.0)
                &&& self.retired() == o.retired().insert(buffer.0)
            },
        })
    }

    /// Destroys a buffer, mapped or not: its identifier is retired and never
    /// resolves again.  A map still pending on it is answered with an error
    /// when its device is polled.
    pub fn destroy_buffer(&mut self, buffer: WebGPUBuffer) -> (r: Result<(), GpuError>)
        requires
            old(self).wf(),
        ensures
            final(self).wf(),
            final(self).destroy_buffer_post(old(self), buffer, r),
    {
        if let Err(e) = self.resolve(buffer.0, ResourceKind::Buffer) {
            return Err(e);
        }
        let _ = self.release(buffer.0);
        Ok(())
    }

    /// The state of a buffer.
    pub fn buffer_state(&self, buffer: WebGPUBuffer) -> (r: Result<GPUBufferState, GpuError>)
        ensures
            match self.lookup(buffer.0, ResourceKind::Buffer) {
                Err(e) => r == Err::<GPUBufferState, GpuError>(e),
                Ok(x) => r == Ok::<GPUBufferState, GpuError>(x->Buffer_0.state),
            },
    {
        match self.resolve(buffer.0, ResourceKind::Buffer) {
            Err(e) => Err(e),
            Ok(Resource::Buffer(b)) => Ok(b.state),
            Ok(_) => Err(GpuError::WrongResourceKind),
        }
    }
}

} // verus!
