//! The arena: one pool of vertex buffers, one pool of index buffers and the
//! cache of their pairings, with a generation counter that tells which mesh
//! records are still good.
//!
//! The arena decides where a mesh goes and which device objects that takes.
//! The caller creates those objects and does the uploads: `plan` says what
//! will be needed, `register` takes the fresh device handles and returns what
//! is to be uploaded where.

use crate::gfx::layout::layout_valid;
use crate::gfx::layout::total_components;
use crate::gfx::layout::Attribute;
use crate::gfx::layout::VertexLayout;
use crate::gfx::pairing::Binding;
use crate::gfx::pairing::PairingCache;
use crate::gfx::pairing::PairingView;
use crate::gfx::pool::lemma_allocate_grows;
use crate::gfx::pool::lemma_allocate_len;
use crate::gfx::pool::lemma_first_fit;
use crate::gfx::pool::Allocation;
use crate::gfx::pool::Pool;
use crate::gfx::pool::PoolView;
use vstd::prelude::*;

verus! {

/// A pairing of buffers: the place of a vertex buffer in its pool and the
/// place of an index buffer in its.
#[derive(Clone, Copy, Debug, PartialEq, Eq, Structural)]
pub struct Pairing {
    pub vertex_buffer: usize,
    pub index_buffer: usize,
}

/// The record of a registered mesh, which its owner keeps: the pairing of
/// buffers the mesh lives in, where its indices start in the index buffer
/// and how many there are, and the generation in which it was written.
#[derive(Clone, Copy, Debug, PartialEq, Eq, Structural)]
pub struct BufferInfo {
    pub pairing: Pairing,
    pub element_offset: usize,
    pub element_count: usize,
    pub generation: usize,
}

/// What one indexed draw call needs: the binding to make current, the offset
/// of the first index and the number of indices.
#[derive(Clone, Copy, Debug, PartialEq, Eq, Structural)]
pub struct DrawParams {
    pub binding: u32,
    pub element_offset: usize,
    pub element_count: usize,
}

/// Device handles that the caller created for a registration. Each is used
/// only where the plan asks for it.
#[derive(Clone, Copy, Debug, PartialEq, Eq, Structural)]
pub struct DeviceObjects {
    pub index_buffer: Option<u32>,
    pub vertex_buffer: Option<u32>,
    pub binding: Option<u32>,
}

/// Which buffer of a pool a registration will use.
#[derive(Clone, Copy, Debug, PartialEq, Eq, Structural)]
pub enum BufferPlan {
    /// A buffer of the pool has room: its index and device handle.
    Reuse { index: usize, device: u32 },
    /// No buffer has room: one of this capacity has to be created.
    Create { capacity: usize },
}

/// The device objects a registration will use or need.
#[derive(Clone, Copy, Debug, PartialEq, Eq, Structural)]
pub struct Plan {
    pub index_buffer: BufferPlan,
    pub vertex_buffer: BufferPlan,
    /// The cached binding of the two buffers; `None` where one has to be
    /// created.
    pub binding: Option<u32>,
}

/// The device object that a registration needed and did not get.
#[derive(Clone, Copy, Debug, PartialEq, Eq, Structural)]
pub enum DeviceFailure {
    IndexBuffer,
    VertexBuffer,
    Binding,
}

/// The outcome of a registration: the mesh's record, and what the caller has
/// to upload. The vertex data goes to `vertices.device` at
/// `vertices.base_offset`; `elements`, the mesh's indices made absolute,
/// go to `indices.device` at `indices.base_offset`.
pub struct Registration {
    pub handle: BufferInfo,
    pub binding: Binding,
    pub vertices: Allocation,
    pub indices: Allocation,
    pub elements: Vec<u32>,
}

/// The outcome of resolving a record: the parameters of the draw call and,
/// where the mesh had to be registered again, that registration.
pub struct Resolution {
    pub draw: DrawParams,
    pub registration: Option<Registration>,
}

/// Every index, raised by `correction`, still fits the device's index type.
pub open spec fn indices_fit(elements: Seq<u32>, correction: int) -> bool {
    forall|i: int| 0 <= i < elements.len() ==> #[trigger] elements[i] + correction <= u32::MAX
}

/// The indices, each raised by `correction`.
pub open spec fn corrected(elements: Seq<u32>, correction: int) -> Seq<u32> {
    Seq::new(elements.len(), |i: int| (elements[i] + correction) as u32)
}

/// What a pool says of an allocation of `size` elements.
pub open spec fn buffer_plan(pool: PoolView, size: usize) -> BufferPlan {
    match pool.first_fit(size) {
        Some(index) => BufferPlan::Reuse {
            index: index as usize,
            device: pool.buffers[index].device,
        },
        None => BufferPlan::Create { capacity: pool.growth(size) },
    }
}

/// The index of the buffer that an allocation of `size` elements uses: the
/// first with room, else the one that is created for it.
pub open spec fn target(pool: PoolView, size: usize) -> int {
    match pool.first_fit(size) {
        Some(index) => index,
        None => pool.buffers.len() as int,
    }
}

/// The offset at which an allocation of `size` elements starts.
pub open spec fn base(pool: PoolView, size: usize) -> usize {
    match pool.first_fit(size) {
        Some(index) => pool.buffers[index].cursor,
        None => 0,
    }
}

/// What an arena is, as a value.
pub struct ArenaView {
    pub layout: Seq<Attribute>,
    pub vertices: PoolView,
    pub indices: PoolView,
    pub pairings: PairingView,
    pub generation: usize,
}

impl ArenaView {
    /// The layout is usable, the pools are well formed, and the cache has a
    /// row for each vertex buffer and a column for each index buffer.
    pub open spec fn wf(self) -> bool {
        &&& layout_valid(self.layout)
        &&& self.vertices.wf()
        &&& self.indices.wf()
        &&& self.pairings.wf()
        &&& self.pairings.rows.len() == self.vertices.buffers.len()
        &&& self.pairings.columns == self.indices.buffers.len()
    }

    /// Components per vertex.
    pub open spec fn stride(self) -> nat {
        total_components(self.layout)
    }

    /// The arena with one more vertex buffer, empty.
    pub open spec fn add_vertex_buffer(self, device: u32, min_size: usize) -> ArenaView {
        ArenaView {
            vertices: self.vertices.add_buffer(device, min_size),
            pairings: self.pairings.add_row(),
            ..self
        }
    }

    /// The arena with one more index buffer, empty.
    pub open spec fn add_index_buffer(self, device: u32, min_size: usize) -> ArenaView {
        ArenaView {
            indices: self.indices.add_buffer(device, min_size),
            pairings: self.pairings.add_column(),
            ..self
        }
    }

    /// The device objects that registering a mesh of `vertex_len` vertex
    /// components and `element_len` indices will use or need.
    pub open spec fn plan(self, vertex_len: usize, element_len: usize) -> Plan {
        Plan {
            index_buffer: buffer_plan(self.indices, element_len),
            vertex_buffer: buffer_plan(self.vertices, vertex_len),
            binding: match (self.vertices.first_fit(vertex_len), self.indices.first_fit(element_len)) {
                (Some(v), Some(e)) => self.pairings.get(v, e),
                _ => None,
            },
        }
    }

    /// The first device object that the plan asks for and `supplied` lacks.
    pub open spec fn failure(self, vertex_len: usize, element_len: usize, supplied: DeviceObjects)
        -> Option<DeviceFailure> {
        let plan = self.plan(vertex_len, element_len);
        if plan.index_buffer is Create && supplied.index_buffer.is_none() {
            Some(DeviceFailure::IndexBuffer)
        } else if plan.vertex_buffer is Create && supplied.vertex_buffer.is_none() {
            Some(DeviceFailure::VertexBuffer)
        } else if plan.binding.is_none() && supplied.binding.is_none() {
            Some(DeviceFailure::Binding)
        } else {
            None
        }
    }

    /// What is added to each index of a mesh of `vertex_len` vertex
    /// components: the offset of its vertex data, in whole vertices.
    pub open spec fn correction(self, vertex_len: usize) -> int {
        base(self.vertices, vertex_len) as int / self.stride() as int
    }

    /// The cache with the row and the column added that the registration's
    /// new buffers need.
    pub open spec fn grown_pairings(self, vertex_len: usize, element_len: usize) -> PairingView {
        let with_column = if self.indices.first_fit(element_len).is_none() {
            self.pairings.add_column()
        } else {
            self.pairings
        };
        if self.vertices.first_fit(vertex_len).is_none() {
            with_column.add_row()
        } else {
            with_column
        }
    }

    /// The record that a successful registration returns.
    pub open spec fn handle(self, vertex_len: usize, element_len: usize) -> BufferInfo {
        BufferInfo {
            pairing: Pairing {
                vertex_buffer: target(self.vertices, vertex_len) as usize,
                index_buffer: target(self.indices, element_len) as usize,
            },
            element_offset: base(self.indices, element_len),
            element_count: element_len,
            generation: self.generation,
        }
    }

    /// The binding that a successful registration uses.
    pub open spec fn binding(self, vertex_len: usize, element_len: usize, supplied: DeviceObjects)
        -> Binding {
        self.grown_pairings(vertex_len, element_len).binding(
            target(self.vertices, vertex_len),
            target(self.indices, element_len),
            supplied.binding,
        ).unwrap()
    }

    /// The arena after a registration; the same arena if a device object was
    /// missing.
    pub open spec fn register(self, vertex_len: usize, element_len: usize, supplied: DeviceObjects)
        -> ArenaView {
        if self.failure(vertex_len, element_len, supplied).is_some() {
            self
        } else {
            ArenaView {
                vertices: self.vertices.allocate(vertex_len, supplied.vertex_buffer),
                indices: self.indices.allocate(element_len, supplied.index_buffer),
                pairings: self.grown_pairings(vertex_len, element_len).get_or_create(
                    target(self.vertices, vertex_len),
                    target(self.indices, element_len),
                    supplied.binding,
                ),
                ..self
            }
        }
    }

    /// The binding of the record's pairing, if the cache has one.
    pub open spec fn binding_of(self, handle: BufferInfo) -> Option<u32> {
        if self.pairings.in_range(handle.pairing.vertex_buffer as int, handle.pairing.index_buffer as int) {
            self.pairings.get(handle.pairing.vertex_buffer as int, handle.pairing.index_buffer as int)
        } else {
            None
        }
    }

    /// The record is of this generation, and its pairing has a binding.
    pub open spec fn is_current(self, handle: BufferInfo) -> bool {
        handle.generation == self.generation && self.binding_of(handle).is_some()
    }

    /// The draw parameters of a current record.
    pub open spec fn draw_params(self, handle: BufferInfo) -> Option<DrawParams> {
        if self.is_current(handle) {
            Some(
                DrawParams {
                    binding: self.binding_of(handle).unwrap(),
                    element_offset: handle.element_offset,
                    element_count: handle.element_count,
                },
            )
        } else {
            None
        }
    }

    /// The arena after a record was resolved: as it was for a current
    /// record, else after the mesh was registered again.
    pub open spec fn resolve(
        self,
        handle: BufferInfo,
        vertex_len: usize,
        element_len: usize,
        supplied: DeviceObjects,
    ) -> ArenaView {
        if self.is_current(handle) {
            self
        } else {
            self.register(vertex_len, element_len, supplied)
        }
    }

    /// The record after it was resolved: as it was if it was current or a
    /// device object was missing, else the record of the new registration.
    pub open spec fn resolved_handle(
        self,
        handle: BufferInfo,
        vertex_len: usize,
        element_len: usize,
        supplied: DeviceObjects,
    ) -> BufferInfo {
        if self.is_current(handle) || self.failure(vertex_len, element_len, supplied).is_some() {
            handle
        } else {
            self.handle(vertex_len, element_len)
        }
    }

    /// The arena after everything in it was given up: the next generation,
    /// with every buffer empty and the cache without bindings.
    pub open spec fn invalidate_all(self) -> ArenaView {
        ArenaView {
            vertices: self.vertices.reset(),
            indices: self.indices.reset(),
            pairings: self.pairings.clear(),
            generation: (self.generation + 1) as usize,
            ..self
        }
    }
}

/// `registration` is what registering a mesh with `vertex_len` vertex
/// components and the indices `elements` returns on `arena`, with the
/// device objects `supplied`.
pub open spec fn registered(
    arena: ArenaView,
    vertex_len: usize,
    elements: Seq<u32>,
    supplied: DeviceObjects,
    registration: Registration,
) -> bool {
    let element_len = elements.len() as usize;
    &&& registration.handle == arena.handle(vertex_len, element_len)
    &&& registration.binding == arena.binding(vertex_len, element_len, supplied)
    &&& Some(registration.vertices) == arena.vertices.allocation(vertex_len, supplied.vertex_buffer)
    &&& Some(registration.indices) == arena.indices.allocation(element_len, supplied.index_buffer)
    &&& registration.elements@ == corrected(elements, arena.correction(vertex_len))
}

/// A registration keeps the arena well formed, and its record is current
/// afterwards, with the binding that the registration used.
pub proof fn lemma_register_current(
    arena: ArenaView,
    vertex_len: usize,
    element_len: usize,
    supplied: DeviceObjects,
)
    requires
        arena.wf(),
        arena.register(vertex_len, element_len, supplied).vertices.buffers.len() <= usize::MAX,
        arena.register(vertex_len, element_len, supplied).indices.buffers.len() <= usize::MAX,
    ensures
        arena.register(vertex_len, element_len, supplied).wf(),
        arena.register(vertex_len, element_len, supplied).generation == arena.generation,
        arena.register(vertex_len, element_len, supplied).layout == arena.layout,
        arena.failure(vertex_len, element_len, supplied).is_none() ==> {
            let after = arena.register(vertex_len, element_len, supplied);
            let handle = arena.handle(vertex_len, element_len);
            &&& after.is_current(handle)
            &&& after.draw_params(handle) == Some(
                DrawParams {
                    binding: arena.binding(vertex_len, element_len, supplied).id,
                    element_offset: handle.element_offset,
                    element_count: element_len,
                },
            )
            &&& handle.element_offset + element_len
                == after.indices.buffers[handle.pairing.index_buffer as int].cursor
        },
{
    if arena.failure(vertex_len, element_len, supplied).is_none() {
        lemma_first_fit(arena.vertices, vertex_len);
        lemma_first_fit(arena.indices, element_len);
        lemma_allocate_grows(arena.vertices, vertex_len, supplied.vertex_buffer);
        lemma_allocate_grows(arena.indices, element_len, supplied.index_buffer);
        let grown = arena.grown_pairings(vertex_len, element_len);
        assert(grown.wf());
    }
}

/// A record that is current stays current through a registration, with the
/// same draw parameters.
pub proof fn lemma_register_keeps_current(
    arena: ArenaView,
    handle: BufferInfo,
    vertex_len: usize,
    element_len: usize,
    supplied: DeviceObjects,
)
    requires
        arena.wf(),
        arena.vertices.buffers.len() < usize::MAX,
        arena.indices.buffers.len() < usize::MAX,
        arena.is_current(handle),
    ensures
        arena.register(vertex_len, element_len, supplied).draw_params(handle) == arena.draw_params(
            handle,
        ),
{
    lemma_first_fit(arena.vertices, vertex_len);
    lemma_first_fit(arena.indices, element_len);
    let v = handle.pairing.vertex_buffer as int;
    let e = handle.pairing.index_buffer as int;
    let grown = arena.grown_pairings(vertex_len, element_len);
    assert(grown.wf());
    assert(grown.in_range(v, e));
    assert(grown.get(v, e) == arena.pairings.get(v, e));
    if arena.failure(vertex_len, element_len, supplied).is_none() {
        let after = arena.register(vertex_len, element_len, supplied);
        assert(after.pairings.in_range(v, e));
        assert(after.pairings.get(v, e) == grown.get(v, e));
    }
}

/// Generation invalidation: after `invalidate_all`, a record written before
/// is not current. Resolving it registers the mesh once more, which is one
/// allocation in each pool, and the new record carries the new generation,
/// one above the old. Resolving the new record right away leaves the arena
/// and the record as they are, whatever device objects come with it.
pub proof fn lemma_invalidate_then_resolve(
    arena: ArenaView,
    handle: BufferInfo,
    vertex_len: usize,
    element_len: usize,
    supplied: DeviceObjects,
    again: DeviceObjects,
)
    requires
        arena.wf(),
        arena.generation < usize::MAX,
        arena.vertices.buffers.len() < usize::MAX,
        arena.indices.buffers.len() < usize::MAX,
        handle.generation <= arena.generation,
        arena.invalidate_all().failure(vertex_len, element_len, supplied).is_none(),
    ensures
        ({
            let cleared = arena.invalidate_all();
            let after = cleared.resolve(handle, vertex_len, element_len, supplied);
            let renewed = cleared.resolved_handle(handle, vertex_len, element_len, supplied);
            &&& cleared.wf()
            &&& cleared.generation == arena.generation + 1
            &&& !cleared.is_current(handle)
            &&& after == cleared.register(vertex_len, element_len, supplied)
            &&& after.vertices == cleared.vertices.allocate(vertex_len, supplied.vertex_buffer)
            &&& after.indices == cleared.indices.allocate(element_len, supplied.index_buffer)
            &&& renewed == cleared.handle(vertex_len, element_len)
            &&& renewed.generation == arena.generation + 1
            &&& after.generation == renewed.generation
            &&& after.is_current(renewed)
            &&& after.resolve(renewed, vertex_len, element_len, again) == after
            &&& after.resolved_handle(renewed, vertex_len, element_len, again) == renewed
        }),
{
    let cleared = arena.invalidate_all();
    assert(cleared.wf());
    lemma_allocate_len(cleared.vertices, vertex_len, supplied.vertex_buffer);
    lemma_allocate_len(cleared.indices, element_len, supplied.index_buffer);
    lemma_register_current(cleared, vertex_len, element_len, supplied);
}

/// Raises each index by `base_offset / stride`, the number of whole vertices
/// that come before the mesh in its vertex buffer.
pub fn correct_indices(elements: &Vec<u32>, base_offset: usize, stride: usize) -> (stored: Vec<u32>)
    requires
        stride > 0,
        indices_fit(elements@, base_offset as int / stride as int),
    ensures
        stored@ == corrected(elements@, base_offset as int / stride as int),
{
    let correction = base_offset / stride;
    let mut stored: Vec<u32> = Vec::new();
    let mut i: usize = 0;
    while i < elements.len()
        invariant
            i <= elements@.len(),
            correction == base_offset as int / stride as int,
            indices_fit(elements@, correction as int),
            stored@.len() == i,
            forall|k: int| 0 <= k < i ==> stored@[k] == (elements@[k] + correction) as u32,
        decreases elements.len() - i,
    {
        let element = elements[i];
        assert(elements@[i as int] + correction <= u32::MAX);
        stored.push(element + correction as u32);
        i += 1;
    }
    stored
}

/// Whether every index, raised by `base_offset / stride`, still fits the
/// device's index type.
pub fn check_indices(elements: &Vec<u32>, base_offset: usize, stride: usize) -> (fit: bool)
    requires
        stride > 0,
    ensures
        fit == indices_fit(elements@, base_offset as int / stride as int),
{
    let correction = base_offset / stride;
    let mut i: usize = 0;
    while i < elements.len()
        invariant
            i <= elements@.len(),
            correction == base_offset as int / stride as int,
            forall|k: int| 0 <= k < i ==> #[trigger] elements@[k] + correction <= u32::MAX,
        decreases elements.len() - i,
    {
        let element = elements[i];
        if correction > 0xffff_ffff || element > 0xffff_ffff - correction as u32 {
            assert(!(elements@[i as int] + correction <= u32::MAX));
            return false;
        }
        i += 1;
    }
    true
}

/// The two pools and the cache of their pairings.
struct Store {
    vertices: Pool,
    indices: Pool,
    pairings: PairingCache,
}

/// The geometry arena.
pub struct Arena {
    layout: VertexLayout,
    store: Store,
    generation: usize,
}

impl View for Arena {
    type V = ArenaView;

    closed spec fn view(&self) -> ArenaView {
        ArenaView {
            layout: self.layout@,
            vertices: self.store.vertices@,
            indices: self.store.indices@,
            pairings: self.store.pairings@,
            generation: self.generation,
        }
    }
}

impl Store {
    /// A store without buffers.
    fn new(default_capacity: usize) -> (store: Store)
        ensures
            store.vertices@ == (PoolView { buffers: Seq::empty(), default_capacity }),
            store.indices@ == (PoolView { buffers: Seq::empty(), default_capacity }),
            store.pairings@ == (PairingView { rows: Seq::empty(), columns: 0 }),
    {
        Store {
            vertices: Pool::new(default_capacity),
            indices: Pool::new(default_capacity),
            pairings: PairingCache::new(),
        }
    }
}

impl Arena {
    /// What holds of every value of this type.
    #[verifier::type_invariant]
    pub open spec fn well_formed(self) -> bool {
        self@.wf()
    }

    /// An arena without buffers, in generation 0, for meshes of the given
    /// layout. Each pool gives its buffers `default_capacity` elements unless
    /// a mesh needs more.
    pub fn new(layout: VertexLayout, default_capacity: usize) -> (arena: Arena)
        ensures
            arena@ == (ArenaView {
                layout: layout@,
                vertices: PoolView { buffers: Seq::empty(), default_capacity },
                indices: PoolView { buffers: Seq::empty(), default_capacity },
                pairings: PairingView { rows: Seq::empty(), columns: 0 },
                generation: 0,
            }),
    {
        proof {
            use_type_invariant(&layout);
            layout.lemma_valid();
        }
        Arena { layout, store: Store::new(default_capacity), generation: 0 }
    }

    /// The current generation.
    pub fn generation(&self) -> (generation: usize)
        ensures
            generation == self@.generation,
            self@.wf(),
    {
        proof {
            use_type_invariant(self);
        }
        self.generation
    }

    /// The layout of the vertices this arena stores.
    pub fn layout(&self) -> (layout: &VertexLayout)
        ensures
            layout@ == self@.layout,
    {
        &self.layout
    }

    /// The pool of vertex buffers.
    pub fn vertices(&self) -> (pool: &Pool)
        ensures
            pool@ == self@.vertices,
    {
        &self.store.vertices
    }

    /// The pool of index buffers.
    pub fn indices(&self) -> (pool: &Pool)
        ensures
            pool@ == self@.indices,
    {
        &self.store.indices
    }

    /// The cache of pairing bindings.
    pub fn pairings(&self) -> (cache: &PairingCache)
        ensures
            cache@ == self@.pairings,
    {
        &self.store.pairings
    }

    /// Adds an empty vertex buffer with the device handle `device`, made
    /// for `min_size` elements, and a row for it in the cache. Returns the
    /// buffer's index.
    pub fn add_vertex_buffer(&mut self, device: u32, min_size: usize) -> (index: usize)
        ensures
            final(self)@ == old(self)@.add_vertex_buffer(device, min_size),
            index == old(self)@.vertices.buffers.len(),
    {
        proof {
            use_type_invariant(&*self);
        }
        let mut store = Store::new(0);
        std::mem::swap(&mut store, &mut self.store);
        let index = store.vertices.add_buffer(device, min_size);
        store.pairings.add_row();
        proof {
            use_type_invariant(&store.vertices);
            use_type_invariant(&store.pairings);
        }
        self.store = store;
        index
    }

    /// Adds an empty index buffer with the device handle `device`, made for
    /// `min_size` elements, and a column for it in the cache. Returns the
    /// buffer's index.
    pub fn add_index_buffer(&mut self, device: u32, min_size: usize) -> (index: usize)
        ensures
            final(self)@ == old(self)@.add_index_buffer(device, min_size),
            index == old(self)@.indices.buffers.len(),
    {
        proof {
            use_type_invariant(&*self);
        }
        let mut store = Store::new(0);
        std::mem::swap(&mut store, &mut self.store);
        let index = store.indices.add_buffer(device, min_size);
        proof {
            use_type_invariant(&store.indices);
        }
        store.pairings.add_column();
        proof {
            use_type_invariant(&store.pairings);
        }
        self.store = store;
        index
    }

    /// The device objects that registering a mesh of `vertex_len` vertex
    /// components and `element_len` indices will use or need. Nothing is
    /// allocated.
    pub fn plan(&self, vertex_len: usize, element_len: usize) -> (plan: Plan)
        ensures
            plan == self@.plan(vertex_len, element_len),
    {
        proof {
            use_type_invariant(self);
            lemma_first_fit(self@.vertices, vertex_len);
            lemma_first_fit(self@.indices, element_len);
        }
        let vertex_fit = self.store.vertices.find_fit(vertex_len);
        let index_fit = self.store.indices.find_fit(element_len);
        let index_buffer = match index_fit {
            Some(index) => BufferPlan::Reuse {
                index,
                device: self.store.indices.buffer(index).device,
            },
            None => BufferPlan::Create {
                capacity: self.store.indices.growth_capacity(element_len),
            },
        };
        let vertex_buffer = match vertex_fit {
            Some(index) => BufferPlan::Reuse {
                index,
                device: self.store.vertices.buffer(index).device,
            },
            None => BufferPlan::Create {
                capacity: self.store.vertices.growth_capacity(vertex_len),
            },
        };
        let binding = match vertex_fit {
            Some(v) => match index_fit {
                Some(e) => self.store.pairings.get(v, e),
                None => None,
            },
            None => None,
        };
        Plan { index_buffer, vertex_buffer, binding }
    }

    /// Whether the indices of a mesh of `vertex_len` vertex components can be
    /// registered: whether each, raised by the number of whole vertices that
    /// will come before the mesh in its vertex buffer, fits the device's
    /// index type.
    pub fn takes_indices(&self, vertex_len: usize, elements: &Vec<u32>) -> (fit: bool)
        ensures
            fit == indices_fit(elements@, self@.correction(vertex_len)),
    {
        proof {
            use_type_invariant(self);
            lemma_first_fit(self@.vertices, vertex_len);
        }
        let stride = self.layout.stride();
        let base_offset = match self.store.vertices.find_fit(vertex_len) {
            Some(index) => self.store.vertices.buffer(index).cursor,
            None => 0,
        };
        check_indices(elements, base_offset, stride)
    }

    /// Registers a mesh: `vertices` is its flat array of vertex components,
    /// `elements` its indices, counted from the mesh's own first vertex.
    ///
    /// Room is allocated for the indices in the index pool, then for the
    /// vertex components in the vertex pool; where a pool has no room, the
    /// buffer that `supplied` brings is added to it. The binding of the two
    /// buffers is taken from the cache, or entered from `supplied`. The
    /// result holds the mesh's record, stamped with the current generation,
    /// and the indices raised by the number of whole vertices before the
    /// mesh in its vertex buffer.
    ///
    /// Where the plan asks for a device object that `supplied` lacks, the
    /// failure names the first such, and the arena stays as it is.
    pub fn register<V>(
        &mut self,
        vertices: &Vec<V>,
        elements: &Vec<u32>,
        supplied: DeviceObjects,
    ) -> (result: Result<Registration, DeviceFailure>)
        requires
            indices_fit(elements@, old(self)@.correction(vertices.len())),
        ensures
            final(self)@ == old(self)@.register(vertices.len(), elements.len(), supplied),
            match result {
                Ok(registration) => {
                    &&& old(self)@.failure(vertices.len(), elements.len(), supplied).is_none()
                    &&& registered(old(self)@, vertices.len(), elements@, supplied, registration)
                },
                Err(failure) => old(self)@.failure(vertices.len(), elements.len(), supplied)
                    == Some(failure),
            },
    {
        proof {
            use_type_invariant(&*self);
            lemma_first_fit(self@.vertices, vertices.len());
            lemma_first_fit(self@.indices, elements.len());
        }
        let vertex_len = vertices.len();
        let element_len = elements.len();
        let stride = self.layout.stride();
        let plan = self.plan(vertex_len, element_len);
        match plan.index_buffer {
            BufferPlan::Create { .. } => {
                if supplied.index_buffer.is_none() {
                    return Err(DeviceFailure::IndexBuffer);
                }
            },
            BufferPlan::Reuse { .. } => {},
        }
        match plan.vertex_buffer {
            BufferPlan::Create { .. } => {
                if supplied.vertex_buffer.is_none() {
                    return Err(DeviceFailure::VertexBuffer);
                }
            },
            BufferPlan::Reuse { .. } => {},
        }
        if plan.binding.is_none() && supplied.binding.is_none() {
            return Err(DeviceFailure::Binding);
        }
        let mut store = Store::new(0);
        std::mem::swap(&mut store, &mut self.store);
        let indices = store.indices.allocate(element_len, supplied.index_buffer).unwrap();
        if indices.created {
            proof {
                use_type_invariant(&store.indices);
            }
            store.pairings.add_column();
        }
        let placed = store.vertices.allocate(vertex_len, supplied.vertex_buffer).unwrap();
        if placed.created {
            store.pairings.add_row();
        }
        proof {
            assert(store.pairings@ == old(self)@.grown_pairings(vertex_len, element_len));
        }
        let binding = store.pairings.get_or_create(
            placed.buffer_index,
            indices.buffer_index,
            supplied.binding,
        ).unwrap();
        let stored = correct_indices(elements, placed.base_offset, stride);
        let handle = BufferInfo {
            pairing: Pairing {
                vertex_buffer: placed.buffer_index,
                index_buffer: indices.buffer_index,
            },
            element_offset: indices.base_offset,
            element_count: element_len,
            generation: self.generation,
        };
        proof {
            use_type_invariant(&store.vertices);
            use_type_invariant(&store.indices);
            use_type_invariant(&store.pairings);
        }
        self.store = store;
        Ok(Registration { handle, binding, vertices: placed, indices, elements: stored })
    }

    /// The draw parameters of a record that is current: of this generation,
    /// with a binding cached for its pairing. `None` for any other record.
    pub fn draw_params(&self, handle: &BufferInfo) -> (params: Option<DrawParams>)
        ensures
            params == self@.draw_params(*handle),
    {
        proof {
            use_type_invariant(self);
        }
        if handle.generation != self.generation {
            return None;
        }
        if handle.pairing.vertex_buffer >= self.store.pairings.rows() || handle.pairing.index_buffer
            >= self.store.pairings.columns() {
            return None;
        }
        match self.store.pairings.get(handle.pairing.vertex_buffer, handle.pairing.index_buffer) {
            Some(binding) => Some(
                DrawParams {
                    binding,
                    element_offset: handle.element_offset,
                    element_count: handle.element_count,
                },
            ),
            None => None,
        }
    }

    /// The device objects that resolving the record will use or need: none
    /// for a current record, else the plan of registering the mesh again.
    pub fn plan_resolve(&self, handle: &BufferInfo, vertex_len: usize, element_len: usize) -> (plan:
        Option<Plan>)
        ensures
            plan == if self@.is_current(*handle) {
                None
            } else {
                Some(self@.plan(vertex_len, element_len))
            },
    {
        match self.draw_params(handle) {
            Some(_) => None,
            None => Some(self.plan(vertex_len, element_len)),
        }
    }

    /// Resolves a record into the parameters of a draw call. A current
    /// record is resolved as it is: nothing is allocated and nothing is to be
    /// uploaded. For any other record the mesh, which the caller brings
    /// again as `vertices` and `elements`, is registered anew, and the new
    /// record takes the place of the old.
    pub fn resolve<V>(
        &mut self,
        handle: &mut BufferInfo,
        vertices: &Vec<V>,
        elements: &Vec<u32>,
        supplied: DeviceObjects,
    ) -> (result: Result<Resolution, DeviceFailure>)
        requires
            !old(self)@.is_current(*old(handle)) ==> indices_fit(
                elements@,
                old(self)@.correction(vertices.len()),
            ),
        ensures
            final(self)@ == old(self)@.resolve(
                *old(handle),
                vertices.len(),
                elements.len(),
                supplied,
            ),
            *final(handle) == old(self)@.resolved_handle(
                *old(handle),
                vertices.len(),
                elements.len(),
                supplied,
            ),
            match result {
                Ok(resolution) => {
                    &&& Some(resolution.draw) == final(self)@.draw_params(*final(handle))
                    &&& match resolution.registration {
                        None => old(self)@.is_current(*old(handle)),
                        Some(registration) => {
                            &&& !old(self)@.is_current(*old(handle))
                            &&& old(self)@.failure(vertices.len(), elements.len(), supplied).is_none()
                            &&& registered(
                                old(self)@,
                                vertices.len(),
                                elements@,
                                supplied,
                                registration,
                            )
                        },
                    }
                },
                Err(failure) => {
                    &&& !old(self)@.is_current(*old(handle))
                    &&& old(self)@.failure(vertices.len(), elements.len(), supplied) == Some(
                        failure,
                    )
                },
            },
    {
        proof {
            use_type_invariant(&*self);
        }
        match self.draw_params(handle) {
            Some(draw) => Ok(Resolution { draw, registration: None }),
            None => {
                match self.register(vertices, elements, supplied) {
                    Ok(registration) => {
                        proof {
                            use_type_invariant(&*self);
                            lemma_register_current(
                                old(self)@,
                                vertices.len(),
                                elements.len(),
                                supplied,
                            );
                        }
                        *handle = registration.handle;
                        let draw = DrawParams {
                            binding: registration.binding.id,
                            element_offset: registration.handle.element_offset,
                            element_count: registration.handle.element_count,
                        };
                        Ok(Resolution { draw, registration: Some(registration) })
                    },
                    Err(failure) => Err(failure),
                }
            },
        }
    }

    /// Gives up everything in the arena: the generation goes up by one, so
    /// that no record written before is current; every buffer is empty
    /// again; the cache loses its bindings, which are returned for the
    /// caller to destroy on the device. No buffer is destroyed or resized.
    pub fn invalidate_all(&mut self) -> (destroyed: Vec<u32>)
        requires
            old(self)@.generation < usize::MAX,
        ensures
            final(self)@ == old(self)@.invalidate_all(),
            destroyed@ == old(self)@.pairings.bindings(),
    {
        proof {
            use_type_invariant(&*self);
        }
        let mut store = Store::new(0);
        std::mem::swap(&mut store, &mut self.store);
        self.generation = self.generation + 1;
        store.vertices.reset();
        store.indices.reset();
        let destroyed = store.pairings.clear();
        proof {
            use_type_invariant(&store.vertices);
            use_type_invariant(&store.indices);
            use_type_invariant(&store.pairings);
        }
        self.store = store;
        destroyed
    }
}

} // verus!
