//! The state that the execution actor owns, and the primitive steps through
//! which every request changes it.

use vstd::prelude::*;
use crate::buffer::{pending_state, MapMode};
use crate::error::{DeviceError, GpuError};
use crate::ids::{Backend, RawId, WebGPUAdapter};
use crate::registry::Registry;
use crate::resources::{AdapterEntry, ErrorRecord, Resource, ResourceKind, SubmittedOp};

verus! {

/// The largest buffer, in bytes, that the model's backend allocates: a
/// bound of this model, not of the API.  A larger buffer is reported as out
/// of memory.
pub const MAX_BUFFER_SIZE: u64 = 0x1000_0000;

/// The life of the actor's request loop.
#[derive(Clone, Copy, Debug, PartialEq, Eq, Structural)]
pub enum ActorStatus {
    Running,
    Draining,
    Stopped,
}

/// An adapter that the platform offers, before any request registers it.
pub struct PhysicalAdapter {
    pub backend: Backend,
    pub name: String,
}

/// A map that the backend has not completed yet, with the channel that
/// waits for its outcome.
pub struct PendingMap<S> {
    pub reply: S,
    pub buffer: RawId,
    pub device: RawId,
    pub mode: MapMode,
}

/// Whether a list of backends holds the given one.
pub fn contains_backend(v: &Vec<Backend>, b: Backend) -> (r: bool)
    ensures
        r == v@.contains(b),
{
    let mut i: usize = 0;
    while i < v.len()
        invariant
            i <= v@.len(),
            forall|j: int| 0 <= j < i ==> v@[j] != b,
        decreases v.len() - i,
    {
        if v[i] == b {
            return true;
        }
        i += 1;
    }
    false
}

/// No two maps of the sequence name the same buffer.
pub open spec fn distinct_buffers<S>(s: Seq<PendingMap<S>>) -> bool {
    forall|i: int, j: int| 0 <= i < s.len() && 0 <= j < s.len() && i != j ==> #[trigger] s[i].buffer != #[trigger] s[j].buffer
}

/// Keeping some of the maps keeps them apart.
pub proof fn lemma_filter_distinct<S>(s: Seq<PendingMap<S>>, f: spec_fn(PendingMap<S>) -> bool)
    requires
        distinct_buffers(s),
    ensures
        distinct_buffers(s.filter(f)),
        forall|p: PendingMap<S>| #[trigger] s.filter(f).contains(p) ==> s.contains(p) && f(p),
    decreases s.len(),
{
    reveal(Seq::filter);
    if s.len() > 0 {
        let rest = s.drop_last();
        assert(distinct_buffers(rest)) by {
            assert forall|i: int, j: int| 0 <= i < rest.len() && 0 <= j < rest.len() && i != j implies #[trigger] rest[i].buffer
                != #[trigger] rest[j].buffer by {
                assert(rest[i] == s[i] && rest[j] == s[j]);
            }
        }
        lemma_filter_distinct(rest, f);
        let fr = rest.filter(f);
        assert forall|p: PendingMap<S>| #[trigger] s.filter(f).contains(p) implies s.contains(p) && f(p) by {
            if fr.contains(p) {
                let k = choose|k: int| 0 <= k < rest.len() && rest[k] == p;
                assert(s[k] == p);
            } else {
                assert(p == s.last());
            }
        }
        if f(s.last()) {
            let t = fr.push(s.last());
            assert forall|i: int, j: int| 0 <= i < t.len() && 0 <= j < t.len() && i != j implies #[trigger] t[i].buffer
                != #[trigger] t[j].buffer by {
                if i < fr.len() && j < fr.len() {
                    assert(t[i] == fr[i] && t[j] == fr[j]);
                } else if i < fr.len() {
                    assert(fr.contains(fr[i]));
                    let k = choose|k: int| 0 <= k < rest.len() && rest[k] == fr[i];
                    assert(s[k] == t[i]);
                    assert(s[s.len() - 1] == t[j]);
                } else if j < fr.len() {
                    assert(fr.contains(fr[j]));
                    let k = choose|k: int| 0 <= k < rest.len() && rest[k] == fr[j];
                    assert(s[k] == t[j]);
                    assert(s[s.len() - 1] == t[i]);
                }
            }
        }
    }
}

/// Whether a resource is well formed on its own: a buffer's contents are as
/// long as the buffer, and no longer than the backend can allocate.
pub open spec fn resource_ok(r: Resource) -> bool {
    match r {
        Resource::Buffer(b) => b.contents@.len() == b.size as int && b.size <= MAX_BUFFER_SIZE,
        _ => true,
    }
}

/// The execution actor: every resource table, the platform's backends in
/// order of preference, the maps in flight, the devices' error streams and
/// what the queues have executed.
pub struct WGPU<S> {
    registry: Registry<Resource>,
    adapters: Vec<WebGPUAdapter>,
    backends: Vec<Backend>,
    physical: Vec<PhysicalAdapter>,
    pending: Vec<PendingMap<S>>,
    errors: Vec<ErrorRecord>,
    submitted: Vec<SubmittedOp>,
    status: ActorStatus,
}

impl<S> WGPU<S> {
    /// The live resources by identifier.
    pub closed spec fn resources(&self) -> Map<RawId, Resource> {
        self.registry@
    }

    /// Identifiers retired since the actor started.
    pub closed spec fn retired(&self) -> Set<RawId> {
        self.registry.retired()
    }

    pub closed spec fn has_room(&self) -> bool {
        self.registry.has_room()
    }

    /// Registered adapters, in the order of their registration.
    pub closed spec fn adapters(&self) -> Seq<WebGPUAdapter> {
        self.adapters@
    }

    /// The backends present on this platform, most preferred first.
    pub closed spec fn backends(&self) -> Seq<Backend> {
        self.backends@
    }

    pub closed spec fn physical(&self) -> Seq<PhysicalAdapter> {
        self.physical@
    }

    pub closed spec fn pending(&self) -> Seq<PendingMap<S>> {
        self.pending@
    }

    /// Every device's error stream, interleaved in the order of the reports.
    pub closed spec fn errors(&self) -> Seq<ErrorRecord> {
        self.errors@
    }

    /// What the queues have executed, in order.
    pub closed spec fn submitted(&self) -> Seq<SubmittedOp> {
        self.submitted@
    }

    pub closed spec fn status(&self) -> ActorStatus {
        self.status
    }

    /// Every registered adapter is live.
    closed spec fn adapters_live(&self) -> bool {
        forall|i: int|
            0 <= i < self.adapters@.len() ==> #[trigger] self.registry@.contains_key(self.adapters@[i].0)
                && self.registry@[self.adapters@[i].0] is Adapter
    }

    /// A map in flight names a buffer that is live, or was retired since;
    /// while the buffer lives it waits in the state of the map's mode.
    pub open spec fn map_target_ok(&self, p: PendingMap<S>) -> bool {
        &&& self.resources().contains_key(p.buffer) || self.retired().contains(p.buffer)
        &&& self.resources().contains_key(p.buffer) && self.resources()[p.buffer] is Buffer
            ==> self.resources()[p.buffer]->Buffer_0.state == pending_state(p.mode)
    }

    /// Every map in flight is well aimed, and no two name the same buffer.
    pub open spec fn pending_ok(&self) -> bool {
        &&& forall|p: PendingMap<S>| #[trigger] self.pending().contains(p) ==> self.map_target_ok(p)
        &&& distinct_buffers(self.pending())
    }

    pub closed spec fn wf(&self) -> bool {
        &&& self.registry.wf()
        &&& forall|id: RawId| #[trigger] self.registry@.contains_key(id) ==> resource_ok(self.registry@[id])
        &&& self.adapters_live()
        &&& self.pending_ok()
    }

    pub proof fn lemma_pending_ok(&self)
        requires
            self.wf(),
        ensures
            self.pending_ok(),
    {
    }

    /// Whether putting `res` at `id` leaves every map in flight well aimed:
    /// a buffer that a map waits on keeps the state of that map's mode.
    pub open spec fn keeps_map_targets(&self, id: RawId, res: Resource) -> bool {
        res is Buffer ==> forall|p: PendingMap<S>|
            #[trigger] self.pending().contains(p) && p.buffer == id ==> res->Buffer_0.state == pending_state(p.mode)
    }

    /// A change that keeps the maps in flight and keeps each of them well
    /// aimed keeps them all well formed.
    proof fn lemma_targets_kept(&self, o: &Self)
        requires
            o.pending_ok(),
            self.pending() == o.pending(),
            forall|p: PendingMap<S>| o.pending().contains(p) && o.map_target_ok(p) ==> #[trigger] self.map_target_ok(p),
        ensures
            self.pending_ok(),
    {
    }

    /// Adapters stay live through any change that keeps every adapter entry.
    proof fn lemma_adapters_kept(&self, o: &Self)
        requires
            o.adapters_live(),
            self.adapters@ == o.adapters@,
            forall|id: RawId|
                o.registry@.contains_key(id) && o.registry@[id] is Adapter ==> #[trigger] self.registry@.contains_key(id)
                    && self.registry@[id] is Adapter,
        ensures
            self.adapters_live(),
    {
        assert forall|i: int| 0 <= i < self.adapters@.len() implies #[trigger] self.registry@.contains_key(
            self.adapters@[i].0,
        ) && self.registry@[self.adapters@[i].0] is Adapter by {
            assert(o.registry@.contains_key(o.adapters@[i].0));
        }
    }

    /// What resolving an identifier as a resource of the given kind gives:
    /// the identifier must be live, its backend present here, and the
    /// resource of that kind.
    pub open spec fn lookup(&self, id: RawId, kind: ResourceKind) -> Result<Resource, GpuError> {
        if !self.resources().contains_key(id) {
            Err(GpuError::UnknownResource)
        } else if !self.backends().contains(id.backend) {
            Err(GpuError::BackendUnavailable)
        } else if !self.resources()[id].has_kind(kind) {
            Err(GpuError::WrongResourceKind)
        } else {
            Ok(self.resources()[id])
        }
    }

    /// What checking a reference from a resource of `device` gives: the
    /// referenced resource must resolve, and belong to the same device.
    pub open spec fn ref_check(&self, id: RawId, kind: ResourceKind, device: RawId) -> Result<(), GpuError> {
        match self.lookup(id, kind) {
            Err(e) => Err(e),
            Ok(r) => if r.owner() == Some(device) {
                Ok(())
            } else {
                Err(GpuError::ValidationFailure)
            },
        }
    }

    /// The same as `self`, but for the resource tables and error streams.
    pub open spec fn same_but_resources(&self, o: &Self) -> bool {
        &&& self.adapters() == o.adapters()
        &&& self.backends() == o.backends()
        &&& self.physical() == o.physical()
        &&& self.pending() == o.pending()
        &&& self.submitted() == o.submitted()
        &&& self.status() == o.status()
    }

    pub open spec fn unchanged(&self, o: &Self) -> bool {
        &&& self.same_but_resources(o)
        &&& self.resources() == o.resources()
        &&& self.errors() == o.errors()
        &&& self.retired() == o.retired()
        &&& self.has_room() == o.has_room()
    }

    /// A fresh identifier: never live before, of the given backend.
    pub open spec fn fresh(&self, id: RawId, backend: Backend) -> bool {
        &&& id.backend == backend
        &&& !self.resources().contains_key(id)
        &&& !self.retired().contains(id)
        &&& forall|x: RawId| #[trigger] self.retired().contains(x) && x.index == id.index ==> x.epoch < id.epoch
    }

    /// An identifier handed out after a retire in the same slot belongs to a
    /// later generation: it differs from the retired one, which stays
    /// unknown while the new one resolves.
    pub proof fn lemma_reused_slot_new_generation(&self, o: &Self, x: RawId, y: RawId, kind: ResourceKind)
        requires
            o.wf(),
            self.wf(),
            o.retired().contains(x),
            o.retired().subset_of(self.retired()),
            o.fresh(y, y.backend),
            self.resources().contains_key(y),
            y.index == x.index,
        ensures
            y.epoch > x.epoch,
            y != x,
            self.lookup(x, kind) == Err::<Resource, GpuError>(GpuError::UnknownResource),
            self.lookup(y, kind) != Err::<Resource, GpuError>(GpuError::UnknownResource),
    {
        self.lemma_retired_is_unknown(x, kind);
    }

    /// The error streams after one more report about `device`.
    pub open spec fn reported(&self, o: &Self, device: RawId, validation: bool) -> bool {
        &&& self.errors().len() == o.errors().len() + 1
        &&& self.errors().take(o.errors().len() as int) == o.errors()
        &&& self.errors().last().device == device
        &&& if validation {
            self.errors().last().error is Validation
        } else {
            self.errors().last().error is OutOfMemory
        }
    }

    /// An identifier, once retired, resolves to `UnknownResource` as any
    /// kind: never to the resource it named, nor to a later one.
    pub proof fn lemma_retired_is_unknown(&self, id: RawId, kind: ResourceKind)
        requires
            self.wf(),
            self.retired().contains(id),
        ensures
            self.lookup(id, kind) == Err::<Resource, GpuError>(GpuError::UnknownResource),
    {
        self.registry.lemma_retired_is_unknown(id);
    }

    /// No two live resources share a slot of the identifier space.
    pub proof fn lemma_live_index_unique(&self, a: RawId, b: RawId)
        requires
            self.wf(),
            self.resources().contains_key(a),
            self.resources().contains_key(b),
            a.index == b.index,
        ensures
            a == b,
    {
        self.registry.lemma_live_index_unique(a, b);
    }

    /// Every live resource is well formed on its own.
    pub proof fn lemma_resource_ok(&self, id: RawId)
        requires
            self.wf(),
            self.resources().contains_key(id),
        ensures
            resource_ok(self.resources()[id]),
    {
    }

    /// Starts an actor on a platform with the given backends, most preferred
    /// first, and adapters.
    pub fn new(backends: Vec<Backend>, physical: Vec<PhysicalAdapter>) -> (r: Self)
        ensures
            r.wf(),
            r.resources() == Map::<RawId, Resource>::empty(),
            r.retired() == Set::<RawId>::empty(),
            r.has_room(),
            r.adapters() == Seq::<WebGPUAdapter>::empty(),
            r.backends() == backends@,
            r.physical() == physical@,
            r.pending() == Seq::<PendingMap<S>>::empty(),
            r.errors() == Seq::<ErrorRecord>::empty(),
            r.submitted() == Seq::<SubmittedOp>::empty(),
            r.status() == ActorStatus::Running,
    {
        WGPU {
            registry: Registry::new(),
            adapters: Vec::new(),
            backends,
            physical,
            pending: Vec::new(),
            errors: Vec::new(),
            submitted: Vec::new(),
            status: ActorStatus::Running,
        }
    }

    /// The backend dispatch table: whether a backend is present here.
    pub fn backend_available(&self, backend: Backend) -> (r: bool)
        ensures
            r == self.backends().contains(backend),
    {
        contains_backend(&self.backends, backend)
    }

    /// Resolves an identifier as a resource of the given kind.
    pub fn resolve(&self, id: RawId, kind: ResourceKind) -> (r: Result<&Resource, GpuError>)
        ensures
            match r {
                Ok(x) => self.lookup(id, kind) == Ok::<Resource, GpuError>(*x),
                Err(e) => self.lookup(id, kind) == Err::<Resource, GpuError>(e),
            },
    {
        match self.registry.get(id) {
            None => Err(GpuError::UnknownResource),
            Some(x) => if !self.backend_available(id.backend) {
                Err(GpuError::BackendUnavailable)
            } else if x.is_kind(kind) {
                Ok(x)
            } else {
                Err(GpuError::WrongResourceKind)
            },
        }
    }

    pub fn check_ref(&self, id: RawId, kind: ResourceKind, device: RawId) -> (r: Result<(), GpuError>)
        ensures
            r == self.ref_check(id, kind, device),
    {
        match self.resolve(id, kind) {
            Err(e) => Err(e),
            Ok(x) => match x.device() {
                Some(d) => if d == device {
                    Ok(())
                } else {
                    Err(GpuError::ValidationFailure)
                },
                None => Err(GpuError::ValidationFailure),
            },
        }
    }

    /// Registers a resource under a fresh identifier of the given backend.
    pub(crate) fn register(&mut self, backend: Backend, res: Resource) -> (r: Option<RawId>)
        requires
            old(self).wf(),
            resource_ok(res),
        ensures
            final(self).wf(),
            final(self).same_but_resources(old(self)),
            final(self).errors() == old(self).errors(),
            final(self).retired() == old(self).retired(),
            r is Some <==> old(self).has_room(),
            match r {
                Some(id) => old(self).fresh(id, backend) && final(self).resources() == old(self).resources().insert(
                    id,
                    res,
                ),
                None => final(self).resources() == old(self).resources() && final(self).has_room()
                    == old(self).has_room(),
            },
    {
        let r = self.registry.allocate(backend, res);
        proof {
            assert forall|id: RawId| #[trigger] self.registry@.contains_key(id) implies resource_ok(
                self.registry@[id],
            ) by {
                if old(self).registry@.contains_key(id) && r != Some(id) {
                    assert(self.registry@[id] == old(self).registry@[id]);
                }
            }
            self.lemma_adapters_kept(old(self));
        }
        r
    }

    /// Replaces a live resource.
    pub(crate) fn replace(&mut self, id: RawId, res: Resource)
        requires
            old(self).wf(),
            old(self).resources().contains_key(id),
            old(self).resources()[id] !is Adapter,
            resource_ok(res),
            old(self).keeps_map_targets(id, res),
        ensures
            final(self).wf(),
            final(self).same_but_resources(old(self)),
            final(self).errors() == old(self).errors(),
            final(self).retired() == old(self).retired(),
            final(self).has_room() == old(self).has_room(),
            final(self).resources() == old(self).resources().insert(id, res),
    {
        self.registry.set(id, res);
        proof {
            self.lemma_adapters_kept(old(self));
            self.lemma_targets_kept(old(self));
        }
    }

    /// Retires the identifier of a resource other than an adapter, and hands
    /// back what it named.
    pub(crate) fn release(&mut self, id: RawId) -> (r: Option<Resource>)
        requires
            old(self).wf(),
            old(self).resources().contains_key(id) ==> old(self).resources()[id] !is Adapter,
        ensures
            final(self).wf(),
            final(self).same_but_resources(old(self)),
            final(self).errors() == old(self).errors(),
            r is Some <==> old(self).resources().contains_key(id),
            r is Some ==> r->0 == old(self).resources()[id],
            final(self).resources() == old(self).resources().remove(id),
            final(self).retired() == (if r is Some {
                old(self).retired().insert(id)
            } else {
                old(self).retired()
            }),
            old(self).has_room() ==> final(self).has_room(),
    {
        let r = self.registry.retire(id);
        proof {
            self.lemma_adapters_kept(old(self));
        }
        r
    }

    /// Replaces a live resource, other than an adapter, and hands the old one
    /// back.
    pub(crate) fn exchange(&mut self, id: RawId, res: Resource) -> (r: Resource)
        requires
            old(self).wf(),
            old(self).resources().contains_key(id),
            old(self).resources()[id] !is Adapter,
            resource_ok(res),
            old(self).keeps_map_targets(id, res),
        ensures
            final(self).wf(),
            final(self).same_but_resources(old(self)),
            final(self).errors() == old(self).errors(),
            final(self).retired() == old(self).retired(),
            final(self).has_room() == old(self).has_room(),
            final(self).resources() == old(self).resources().insert(id, res),
            r == old(self).resources()[id],
    {
        let r = self.registry.exchange(id, res);
        proof {
            self.lemma_adapters_kept(old(self));
            self.lemma_targets_kept(old(self));
        }
        r
    }

    /// Adds an operation to what the queues have executed.
    pub(crate) fn record_submitted(&mut self, op: SubmittedOp)
        requires
            old(self).wf(),
        ensures
            final(self).wf(),
            final(self).resources() == old(self).resources(),
            final(self).retired() == old(self).retired(),
            final(self).has_room() == old(self).has_room(),
            final(self).errors() == old(self).errors(),
            final(self).adapters() == old(self).adapters(),
            final(self).backends() == old(self).backends(),
            final(self).physical() == old(self).physical(),
            final(self).pending() == old(self).pending(),
            final(self).status() == old(self).status(),
            final(self).submitted() == old(self).submitted().push(op),
    {
        self.submitted.push(op);
        proof {
            self.lemma_adapters_kept(old(self));
        }
    }

    /// Adds a report to a device's error stream.
    pub(crate) fn report(&mut self, device: RawId, error: DeviceError)
        requires
            old(self).wf(),
        ensures
            final(self).wf(),
            final(self).same_but_resources(old(self)),
            final(self).resources() == old(self).resources(),
            final(self).retired() == old(self).retired(),
            final(self).has_room() == old(self).has_room(),
            final(self).errors() == old(self).errors().push(ErrorRecord { device, error }),
    {
        self.errors.push(ErrorRecord { device, error });
        proof {
            self.lemma_adapters_kept(old(self));
        }
    }

    /// Whether the registered adapter at position `i` is of a candidate backend.
    pub open spec fn known_match(&self, candidates: Seq<Backend>, i: int) -> bool {
        candidates.contains(self.adapters()[i].0.backend)
    }

    /// Whether the platform adapter at position `j` is of a candidate backend
    /// that is present here.
    pub open spec fn physical_match(&self, candidates: Seq<Backend>, j: int) -> bool {
        candidates.contains(self.physical()[j].backend) && self.backends().contains(self.physical()[j].backend)
    }

    pub open spec fn first_known(&self, candidates: Seq<Backend>, i: int) -> bool {
        &&& 0 <= i < self.adapters().len()
        &&& self.known_match(candidates, i)
        &&& forall|k: int| 0 <= k < i ==> !self.known_match(candidates, k)
    }

    pub open spec fn first_physical(&self, candidates: Seq<Backend>, j: int) -> bool {
        &&& 0 <= j < self.physical().len()
        &&& self.physical_match(candidates, j)
        &&& forall|k: int| 0 <= k < j ==> !self.physical_match(candidates, k)
    }

    /// Whether one of the candidate backends is present here.
    pub open spec fn any_available(&self, candidates: Seq<Backend>) -> bool {
        exists|i: int| 0 <= i < candidates.len() && self.backends().contains(#[trigger] candidates[i])
    }

    fn check_any_available(&self, candidates: &Vec<Backend>) -> (r: bool)
        ensures
            r == self.any_available(candidates@),
    {
        let mut i: usize = 0;
        while i < candidates.len()
            invariant
                i <= candidates@.len(),
                forall|k: int| 0 <= k < i ==> !self.backends().contains(#[trigger] candidates@[k]),
            decreases candidates.len() - i,
        {
            if self.backend_available(candidates[i]) {
                return true;
            }
            i += 1;
        }
        false
    }

    fn find_known(&self, candidates: &Vec<Backend>) -> (r: Option<usize>)
        ensures
            match r {
                Some(i) => self.first_known(candidates@, i as int),
                None => forall|k: int| 0 <= k < self.adapters().len() ==> !self.known_match(candidates@, k),
            },
    {
        let mut i: usize = 0;
        while i < self.adapters.len()
            invariant
                i <= self.adapters@.len(),
                forall|k: int| 0 <= k < i ==> !self.known_match(candidates@, k),
            decreases self.adapters.len() - i,
        {
            if contains_backend(candidates, self.adapters[i].0.backend) {
                return Some(i);
            }
            i += 1;
        }
        None
    }

    fn find_physical(&self, candidates: &Vec<Backend>) -> (r: Option<usize>)
        ensures
            match r {
                Some(j) => self.first_physical(candidates@, j as int),
                None => forall|k: int| 0 <= k < self.physical().len() ==> !self.physical_match(candidates@, k),
            },
    {
        let mut j: usize = 0;
        while j < self.physical.len()
            invariant
                j <= self.physical@.len(),
                forall|k: int| 0 <= k < j ==> !self.physical_match(candidates@, k),
            decreases self.physical.len() - j,
        {
            let b = self.physical[j].backend;
            if contains_backend(candidates, b) && self.backend_available(b) {
                return Some(j);
            }
            j += 1;
        }
        None
    }

    /// What `request_adapter` leaves and returns, from state `o`.
    pub open spec fn request_adapter_post(&self, o: &Self, candidates: Vec<Backend>, r: Result<(String, WebGPUAdapter), GpuError>) -> bool {
        &&& (r is Ok <==> (exists|i: int| o.first_known(candidates@, i)) || (o.has_room() && exists|j: int|
            o.first_physical(candidates@, j)))
        &&& (match r {
            Ok((name, a)) => {
                ||| exists|i: int|
                    {
                        &&& #[trigger] o.first_known(candidates@, i)
                        &&& a == o.adapters()[i]
                        &&& o.resources()[a.0] == Resource::Adapter(AdapterEntry { name })
                        &&& self.unchanged(o)
                    }
                ||| exists|j: int|
                    {
                        &&& #[trigger] o.first_physical(candidates@, j)
                        &&& forall|k: int| 0 <= k < o.adapters().len() ==> !o.known_match(candidates@, k)
                        &&& o.fresh(a.0, o.physical()[j].backend)
                        &&& name == o.physical()[j].name
                        &&& self.resources() == o.resources().insert(
                            a.0,
                            Resource::Adapter(AdapterEntry { name }),
                        )
                        &&& self.adapters() == o.adapters().push(a)
                        &&& self.errors() == o.errors()
                        &&& self.retired() == o.retired()
                    }
            },
            Err(e) => self.unchanged(o) && e == (if o.any_available(candidates@) {
                GpuError::OperationFailed
            } else {
                GpuError::BackendUnavailable
            }),
        })
        &&& (self.backends() == o.backends())
        &&& (self.physical() == o.physical())
        &&& (self.pending() == o.pending())
        &&& (self.submitted() == o.submitted())
        &&& (self.status() == o.status())
    }

    /// Picks an adapter of one of the candidate backends: the first
    /// registered one that matches, else the first matching adapter that the
    /// platform offers, which is then registered.  Replies with its name.
    /// Fails with `BackendUnavailable` when no candidate backend is present
    /// here, and with `OperationFailed` when none of them offers an adapter.
    pub fn request_adapter(&mut self, candidates: &Vec<Backend>) -> (r: Result<(String, WebGPUAdapter), GpuError>)
        requires
            old(self).wf(),
        ensures
            final(self).wf(),
            final(self).request_adapter_post(old(self), *candidates, r),
    {
        if let Some(i) = self.find_known(candidates) {
            let a = self.adapters[i];
            proof {
                assert(self.registry@.contains_key(self.adapters@[i as int].0));
            }
            match self.registry.get(a.0) {
                Some(Resource::Adapter(entry)) => {
                    return Ok((entry.name.clone(), a));
                },
                _ => {
                    return Err(GpuError::OperationFailed);
                },
            }
        }
        let fail = if self.check_any_available(candidates) {
            GpuError::OperationFailed
        } else {
            GpuError::BackendUnavailable
        };
        match self.find_physical(candidates) {
            None => Err(fail),
            Some(j) => {
                let backend = self.physical[j].backend;
                let name = self.physical[j].name.clone();
                let entry_name = self.physical[j].name.clone();
                match self.registry.allocate(backend, Resource::Adapter(AdapterEntry { name: entry_name })) {
                    None => Err(fail),
                    Some(id) => {
                        let a = WebGPUAdapter(id);
                        self.adapters.push(a);
                        proof {
                            assert forall|id2: RawId| #[trigger] self.registry@.contains_key(id2) implies resource_ok(
                                self.registry@[id2],
                            ) by {
                                if id2 != id {
                                    assert(old(self).registry@.contains_key(id2));
                                }
                            }
                            assert forall|k: int| 0 <= k < self.adapters@.len() implies #[trigger] self.registry@.contains_key(
                                self.adapters@[k].0,
                            ) && self.registry@[self.adapters@[k].0] is Adapter by {
                                if k < old(self).adapters@.len() {
                                    assert(old(self).registry@.contains_key(old(self).adapters@[k].0));
                                }
                            }
                            assert(old(self).first_physical(candidates@, j as int));
                        }
                        Ok((name, a))
                    },
                }
            },
        }
    }

    /// The error streams of every device, in the order of the reports.
    pub fn error_log(&self) -> (r: &Vec<ErrorRecord>)
        ensures
            r@ == self.errors(),
    {
        &self.errors
    }

    /// What the queues have executed, in order.
    pub fn submitted_ops(&self) -> (r: &Vec<SubmittedOp>)
        ensures
            r@ == self.submitted(),
    {
        &self.submitted
    }

    pub fn actor_status(&self) -> (r: ActorStatus)
        ensures
            r == self.status(),
    {
        self.status
    }

    /// Registers a map that the backend has yet to complete.
    pub(crate) fn add_pending(&mut self, p: PendingMap<S>)
        requires
            old(self).wf(),
            old(self).resources().contains_key(p.buffer),
            old(self).resources()[p.buffer] is Buffer,
            old(self).resources()[p.buffer]->Buffer_0.state == pending_state(p.mode),
            forall|q: PendingMap<S>| #[trigger] old(self).pending().contains(q) ==> q.buffer != p.buffer,
        ensures
            final(self).wf(),
            final(self).resources() == old(self).resources(),
            final(self).retired() == old(self).retired(),
            final(self).has_room() == old(self).has_room(),
            final(self).errors() == old(self).errors(),
            final(self).adapters() == old(self).adapters(),
            final(self).backends() == old(self).backends(),
            final(self).physical() == old(self).physical(),
            final(self).submitted() == old(self).submitted(),
            final(self).status() == old(self).status(),
            final(self).pending() == old(self).pending().push(p),
    {
        self.pending.push(p);
        proof {
            self.lemma_adapters_kept(old(self));
            let s = self.pending@;
            let o = old(self).pending();
            assert forall|q: PendingMap<S>| #[trigger] s.contains(q) implies self.map_target_ok(q) by {
                if q != p {
                    let k = choose|k: int| 0 <= k < s.len() && s[k] == q;
                    assert(o[k] == q);
                    assert(o.contains(q));
                }
            }
            assert forall|i: int, j: int| 0 <= i < s.len() && 0 <= j < s.len() && i != j implies #[trigger] s[i].buffer
                != #[trigger] s[j].buffer by {
                if i == o.len() {
                    assert(o.contains(s[j]));
                } else if j == o.len() {
                    assert(o.contains(s[i]));
                } else {
                    assert(s[i] == o[i] && s[j] == o[j]);
                }
            }
        }
    }

    /// Takes the maps in flight on one device out, in the order they were
    /// issued, leaving every other device's maps in place.
    pub(crate) fn take_pending(&mut self, device: RawId) -> (r: Vec<PendingMap<S>>)
        requires
            old(self).wf(),
        ensures
            final(self).wf(),
            final(self).resources() == old(self).resources(),
            final(self).retired() == old(self).retired(),
            final(self).has_room() == old(self).has_room(),
            final(self).errors() == old(self).errors(),
            final(self).adapters() == old(self).adapters(),
            final(self).backends() == old(self).backends(),
            final(self).physical() == old(self).physical(),
            final(self).submitted() == old(self).submitted(),
            final(self).status() == old(self).status(),
            r@ == old(self).pending().filter(|p: PendingMap<S>| p.device == device),
            final(self).pending() == old(self).pending().filter(|p: PendingMap<S>| p.device != device),
            distinct_buffers(r@),
            forall|p: PendingMap<S>| #[trigger] r@.contains(p) ==> old(self).map_target_ok(p),
            forall|p: PendingMap<S>, q: PendingMap<S>|
                #[trigger] r@.contains(p) && #[trigger] final(self).pending().contains(q) ==> p.buffer != q.buffer,
    {
        let mut all: Vec<PendingMap<S>> = Vec::new();
        std::mem::swap(&mut self.pending, &mut all);
        let ghost whole = all@;
        let mut mine: Vec<PendingMap<S>> = Vec::new();
        let mut n: usize = 0;
        let total = all.len();
        proof {
            reveal(Seq::filter);
            assert(whole.take(0) =~= Seq::<PendingMap<S>>::empty());
            assert(whole.subrange(0, whole.len() as int) =~= whole);
        }
        while all.len() > 0
            invariant
                whole == old(self).pending(),
                whole.len() == total,
                n <= whole.len(),
                all@ == whole.subrange(n as int, whole.len() as int),
                mine@ == whole.take(n as int).filter(|p: PendingMap<S>| p.device == device),
                self.pending@ == whole.take(n as int).filter(|p: PendingMap<S>| p.device != device),
                self.registry == old(self).registry,
                self.adapters == old(self).adapters,
                self.backends == old(self).backends,
                self.physical == old(self).physical,
                self.errors == old(self).errors,
                self.submitted == old(self).submitted,
                self.status == old(self).status,
            decreases all.len(),
        {
            proof {
                assert(n < whole.len());
            }
            let p = all.remove(0);
            proof {
                reveal(Seq::filter);
                assert(p == whole[n as int]);
                assert(all@ =~= whole.subrange(n + 1, whole.len() as int));
                assert(whole.take(n + 1).drop_last() =~= whole.take(n as int));
                assert(whole.take(n + 1).last() == p);
            }
            if p.device == device {
                mine.push(p);
            } else {
                self.pending.push(p);
            }
            n = n + 1;
        }
        proof {
            assert(whole.take(n as int) =~= whole);
            let eq = |p: PendingMap<S>| p.device == device;
            let ne = |p: PendingMap<S>| p.device != device;
            lemma_filter_distinct(whole, eq);
            lemma_filter_distinct(whole, ne);
            assert forall|p: PendingMap<S>, q: PendingMap<S>|
                #[trigger] mine@.contains(p) && #[trigger] self.pending@.contains(q) implies p.buffer != q.buffer by {
                let i = choose|i: int| 0 <= i < whole.len() && whole[i] == p;
                let j = choose|j: int| 0 <= j < whole.len() && whole[j] == q;
                assert(i != j);
            }
            self.lemma_adapters_kept(old(self));
        }
        mine
    }

    /// Takes every map in flight out, in the order they were issued.
    pub(crate) fn take_all_pending(&mut self) -> (r: Vec<PendingMap<S>>)
        requires
            old(self).wf(),
        ensures
            final(self).wf(),
            final(self).resources() == old(self).resources(),
            final(self).retired() == old(self).retired(),
            final(self).has_room() == old(self).has_room(),
            final(self).errors() == old(self).errors(),
            final(self).adapters() == old(self).adapters(),
            final(self).backends() == old(self).backends(),
            final(self).physical() == old(self).physical(),
            final(self).submitted() == old(self).submitted(),
            final(self).status() == old(self).status(),
            r@ == old(self).pending(),
            final(self).pending() == Seq::<PendingMap<S>>::empty(),
            distinct_buffers(r@),
            forall|p: PendingMap<S>| #[trigger] r@.contains(p) ==> old(self).map_target_ok(p),
    {
        let mut all: Vec<PendingMap<S>> = Vec::new();
        std::mem::swap(&mut self.pending, &mut all);
        proof {
            self.lemma_adapters_kept(old(self));
        }
        all
    }

    pub(crate) fn set_status(&mut self, status: ActorStatus)
        requires
            old(self).wf(),
        ensures
            final(self).wf(),
            final(self).resources() == old(self).resources(),
            final(self).retired() == old(self).retired(),
            final(self).has_room() == old(self).has_room(),
            final(self).errors() == old(self).errors(),
            final(self).adapters() == old(self).adapters(),
            final(self).backends() == old(self).backends(),
            final(self).physical() == old(self).physical(),
            final(self).submitted() == old(self).submitted(),
            final(self).pending() == old(self).pending(),
            final(self).status() == status,
    {
        self.status = status;
    }

    /// Releases every resource table at once; the adapter list goes with
    /// them.
    pub(crate) fn release_all(&mut self)
        requires
            old(self).wf(),
            old(self).pending() == Seq::<PendingMap<S>>::empty(),
        ensures
            final(self).wf(),
            final(self).resources() == Map::<RawId, Resource>::empty(),
            final(self).adapters() == Seq::<WebGPUAdapter>::empty(),
            final(self).errors() == old(self).errors(),
            final(self).backends() == old(self).backends(),
            final(self).physical() == old(self).physical(),
            final(self).submitted() == old(self).submitted(),
            final(self).pending() == old(self).pending(),
            final(self).status() == old(self).status(),
    {
        self.registry = Registry::new();
        self.adapters = Vec::new();
    }
}

} // verus!
