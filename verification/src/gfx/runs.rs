//! Runs of registrations and invalidations: what holds of an arena after any
//! sequence of calls, and of the places that the meshes of one generation
//! got from it.

use crate::gfx::arena::lemma_register_current;
use crate::gfx::arena::ArenaView;
use crate::gfx::arena::BufferInfo;
use crate::gfx::arena::DeviceObjects;
use crate::gfx::pool::lemma_allocate_grows;
use crate::gfx::pool::lemma_allocate_len;
use crate::gfx::pool::lemma_first_fit;
use crate::gfx::pool::Allocation;
use vstd::prelude::*;

verus! {

/// One registration asked of an arena: the sizes of the mesh and the device
/// objects that come with the request.
pub struct Request {
    pub vertex_len: usize,
    pub element_len: usize,
    pub supplied: DeviceObjects,
}

impl ArenaView {
    /// The arena after one request.
    pub open spec fn serve(self, request: Request) -> ArenaView {
        self.register(request.vertex_len, request.element_len, request.supplied)
    }

    /// The request finds every device object it needs.
    pub open spec fn serves(self, request: Request) -> bool {
        self.failure(request.vertex_len, request.element_len, request.supplied).is_none()
    }

    /// The arena after a run of requests, served in their order.
    pub open spec fn serve_all(self, requests: Seq<Request>) -> ArenaView
        decreases requests.len(),
    {
        if requests.len() == 0 {
            self
        } else {
            self.serve_all(requests.drop_last()).serve(requests.last())
        }
    }

    /// Request `k` of the run is served.
    pub open spec fn served_at(self, requests: Seq<Request>, k: int) -> bool {
        self.serve_all(requests.take(k)).serves(requests[k])
    }

    /// Where the vertex data of request `k` of the run goes.
    pub open spec fn vertices_at(self, requests: Seq<Request>, k: int) -> Allocation {
        self.serve_all(requests.take(k)).vertices.allocation(
            requests[k].vertex_len,
            requests[k].supplied.vertex_buffer,
        ).unwrap()
    }

    /// Where the indices of request `k` of the run go.
    pub open spec fn indices_at(self, requests: Seq<Request>, k: int) -> Allocation {
        self.serve_all(requests.take(k)).indices.allocation(
            requests[k].element_len,
            requests[k].supplied.index_buffer,
        ).unwrap()
    }

    /// The run cannot bring the number of buffers of a pool beyond the
    /// machine's limit.
    pub open spec fn has_room(self, requests: Seq<Request>) -> bool {
        &&& self.vertices.buffers.len() + requests.len() <= usize::MAX
        &&& self.indices.buffers.len() + requests.len() <= usize::MAX
    }
}

/// A request keeps the arena well formed, and each pool of the arena keeps
/// its buffers: their device handles and capacities stay and no cursor
/// moves back. Where the request is served, the cursor of each buffer it
/// used stands at the end of what it allocated there.
pub proof fn lemma_serve_extends(arena: ArenaView, request: Request)
    requires
        arena.wf(),
        arena.vertices.buffers.len() < usize::MAX,
        arena.indices.buffers.len() < usize::MAX,
    ensures
        arena.serve(request).wf(),
        arena.serve(request).vertices.extends(arena.vertices),
        arena.serve(request).indices.extends(arena.indices),
        arena.serve(request).vertices.buffers.len() <= arena.vertices.buffers.len() + 1,
        arena.serve(request).indices.buffers.len() <= arena.indices.buffers.len() + 1,
        arena.serves(request) ==> {
            let after = arena.serve(request);
            let placed = arena.vertices.allocation(
                request.vertex_len,
                request.supplied.vertex_buffer,
            );
            let indices = arena.indices.allocation(
                request.element_len,
                request.supplied.index_buffer,
            );
            &&& placed.is_some()
            &&& indices.is_some()
            &&& placed.unwrap().buffer_index < after.vertices.buffers.len()
            &&& indices.unwrap().buffer_index < after.indices.buffers.len()
            &&& after.vertices.buffers[placed.unwrap().buffer_index as int].cursor
                == placed.unwrap().base_offset + request.vertex_len
            &&& after.indices.buffers[indices.unwrap().buffer_index as int].cursor
                == indices.unwrap().base_offset + request.element_len
            &&& placed.unwrap().created ==> placed.unwrap().buffer_index
                == arena.vertices.buffers.len()
            &&& !placed.unwrap().created ==> placed.unwrap().buffer_index
                < arena.vertices.buffers.len() && placed.unwrap().base_offset
                == arena.vertices.buffers[placed.unwrap().buffer_index as int].cursor
            &&& indices.unwrap().created ==> indices.unwrap().buffer_index
                == arena.indices.buffers.len()
            &&& !indices.unwrap().created ==> indices.unwrap().buffer_index
                < arena.indices.buffers.len() && indices.unwrap().base_offset
                == arena.indices.buffers[indices.unwrap().buffer_index as int].cursor
        },
{
    let vertex_len = request.vertex_len;
    let element_len = request.element_len;
    let supplied = request.supplied;
    lemma_allocate_len(arena.vertices, vertex_len, supplied.vertex_buffer);
    lemma_allocate_len(arena.indices, element_len, supplied.index_buffer);
    lemma_register_current(arena, vertex_len, element_len, supplied);
    if arena.serves(request) {
        lemma_first_fit(arena.vertices, vertex_len);
        lemma_first_fit(arena.indices, element_len);
        lemma_allocate_grows(arena.vertices, vertex_len, supplied.vertex_buffer);
        lemma_allocate_grows(arena.indices, element_len, supplied.index_buffer);
    }
}

/// A run of requests keeps what `lemma_serve_extends` says of one.
pub proof fn lemma_serve_all_extends(arena: ArenaView, requests: Seq<Request>)
    requires
        arena.wf(),
        arena.has_room(requests),
    ensures
        arena.serve_all(requests).wf(),
        arena.serve_all(requests).vertices.extends(arena.vertices),
        arena.serve_all(requests).indices.extends(arena.indices),
        arena.serve_all(requests).vertices.buffers.len() <= arena.vertices.buffers.len()
            + requests.len(),
        arena.serve_all(requests).indices.buffers.len() <= arena.indices.buffers.len()
            + requests.len(),
    decreases requests.len(),
{
    if requests.len() > 0 {
        lemma_serve_all_extends(arena, requests.drop_last());
        lemma_serve_extends(arena.serve_all(requests.drop_last()), requests.last());
    }
}

/// A run that is cut in two: the whole run is the second part, served on
/// the result of the first.
pub proof fn lemma_serve_all_split(arena: ArenaView, requests: Seq<Request>, k: int)
    requires
        0 <= k <= requests.len(),
    ensures
        arena.serve_all(requests) == arena.serve_all(requests.take(k)).serve_all(requests.skip(k)),
    decreases requests.len() - k,
{
    if k == requests.len() {
        assert(requests.take(k) == requests);
        assert(requests.skip(k).len() == 0);
    } else {
        lemma_serve_all_split(arena, requests.drop_last(), k);
        assert(requests.drop_last().take(k) == requests.take(k));
        assert(requests.drop_last().skip(k) == requests.skip(k).drop_last());
        assert(requests.skip(k).last() == requests.last());
    }
}

/// Allocation correctness: in any run of registrations on a well-formed
/// arena, two meshes whose vertex data went into the same vertex buffer got
/// ranges that do not overlap, and so did two meshes whose indices went into
/// the same index buffer: the earlier range ends where the later begins, or
/// before.
pub proof fn lemma_registrations_disjoint(arena: ArenaView, requests: Seq<Request>, i: int, j: int)
    requires
        arena.wf(),
        arena.has_room(requests),
        0 <= i < j < requests.len(),
        arena.served_at(requests, i),
        arena.served_at(requests, j),
    ensures
        arena.vertices_at(requests, i).buffer_index == arena.vertices_at(requests, j).buffer_index
            ==> arena.vertices_at(requests, i).base_offset + requests[i].vertex_len
            <= arena.vertices_at(requests, j).base_offset,
        arena.indices_at(requests, i).buffer_index == arena.indices_at(requests, j).buffer_index
            ==> arena.indices_at(requests, i).base_offset + requests[i].element_len
            <= arena.indices_at(requests, j).base_offset,
{
    let before_i = arena.serve_all(requests.take(i));
    let after_i = arena.serve_all(requests.take(i + 1));
    let before_j = arena.serve_all(requests.take(j));

    // The state before and after request `i`.
    lemma_serve_all_extends(arena, requests.take(i));
    assert(requests.take(i + 1).drop_last() == requests.take(i));
    assert(after_i == before_i.serve(requests[i]));
    lemma_serve_extends(before_i, requests[i]);

    // From there to the state before request `j`.
    let middle = requests.take(j).skip(i + 1);
    lemma_serve_all_split(arena, requests.take(j), i + 1);
    assert(requests.take(j).take(i + 1) == requests.take(i + 1));
    assert(before_j == after_i.serve_all(middle));
    lemma_serve_all_extends(after_i, middle);

    // Request `j` itself.
    lemma_serve_extends(before_j, requests[j]);
}

/// One thing asked of an arena: to register a mesh, or to give up
/// everything it holds.
pub enum Step {
    Register(Request),
    Invalidate,
}

impl ArenaView {
    /// The arena after one step.
    pub open spec fn step(self, step: Step) -> ArenaView {
        match step {
            Step::Register(request) => self.serve(request),
            Step::Invalidate => self.invalidate_all(),
        }
    }

    /// The arena after a run of steps, taken in their order.
    pub open spec fn run(self, steps: Seq<Step>) -> ArenaView
        decreases steps.len(),
    {
        if steps.len() == 0 {
            self
        } else {
            self.run(steps.drop_last()).step(steps.last())
        }
    }

    /// The run can bring neither the number of buffers of a pool nor the
    /// generation beyond the machine's limit.
    pub open spec fn can_run(self, steps: Seq<Step>) -> bool {
        &&& self.vertices.buffers.len() + steps.len() <= usize::MAX
        &&& self.indices.buffers.len() + steps.len() <= usize::MAX
        &&& self.generation + steps.len() <= usize::MAX
    }

    /// Step `k` of the run is a registration that is served.
    pub open spec fn registers_at(self, steps: Seq<Step>, k: int) -> bool {
        steps[k] is Register && self.run(steps.take(k)).serves(steps[k]->Register_0)
    }

    /// The registration of step `k` of the run: its record, and where its
    /// vertex data and its indices go.
    pub open spec fn registration_at(self, steps: Seq<Step>, k: int) -> (
        BufferInfo,
        Allocation,
        Allocation,
    ) {
        let before = self.run(steps.take(k));
        let request = steps[k]->Register_0;
        (
            before.handle(request.vertex_len, request.element_len),
            before.vertices.allocation(request.vertex_len, request.supplied.vertex_buffer).unwrap(),
            before.indices.allocation(request.element_len, request.supplied.index_buffer).unwrap(),
        )
    }
}

/// A run of steps keeps the arena well formed. The generation goes up by
/// one with each invalidation and never down, and each pool gets at most
/// one buffer with each step.
pub proof fn lemma_run_wf(arena: ArenaView, steps: Seq<Step>)
    requires
        arena.wf(),
        arena.can_run(steps),
    ensures
        arena.run(steps).wf(),
        arena.run(steps).layout == arena.layout,
        arena.run(steps).vertices.buffers.len() <= arena.vertices.buffers.len() + steps.len(),
        arena.run(steps).indices.buffers.len() <= arena.indices.buffers.len() + steps.len(),
        arena.generation <= arena.run(steps).generation <= arena.generation + steps.len(),
        (exists|k: int| 0 <= k < steps.len() && steps[k] is Invalidate) ==> arena.generation
            < arena.run(steps).generation,
    decreases steps.len(),
{
    if steps.len() > 0 {
        let earlier = arena.run(steps.drop_last());
        lemma_run_wf(arena, steps.drop_last());
        match steps.last() {
            Step::Register(request) => {
                lemma_serve_extends(earlier, request);
                lemma_register_current(
                    earlier,
                    request.vertex_len,
                    request.element_len,
                    request.supplied,
                );
            },
            Step::Invalidate => {},
        }
        if exists|k: int| 0 <= k < steps.len() && steps[k] is Invalidate {
            let k = choose|k: int| 0 <= k < steps.len() && steps[k] is Invalidate;
            if k < steps.len() - 1 {
                assert(steps.drop_last()[k] is Invalidate);
            }
        }
    }
}

/// A run that is cut in two: the whole run is the second part, run on the
/// result of the first.
pub proof fn lemma_run_split(arena: ArenaView, steps: Seq<Step>, k: int)
    requires
        0 <= k <= steps.len(),
    ensures
        arena.run(steps) == arena.run(steps.take(k)).run(steps.skip(k)),
    decreases steps.len() - k,
{
    if k == steps.len() {
        assert(steps.take(k) == steps);
        assert(steps.skip(k).len() == 0);
    } else {
        lemma_run_split(arena, steps.drop_last(), k);
        assert(steps.drop_last().take(k) == steps.take(k));
        assert(steps.drop_last().skip(k) == steps.skip(k).drop_last());
        assert(steps.skip(k).last() == steps.last());
    }
}

/// A run of registrations only is a run of requests.
proof fn lemma_run_of_requests(arena: ArenaView, steps: Seq<Step>, requests: Seq<Request>)
    requires
        steps.len() == requests.len(),
        forall|k: int| 0 <= k < steps.len() ==> steps[k] == Step::Register(requests[k]),
    ensures
        arena.run(steps) == arena.serve_all(requests),
    decreases steps.len(),
{
    if steps.len() > 0 {
        lemma_run_of_requests(arena, steps.drop_last(), requests.drop_last());
    }
}

/// Allocation correctness, through invalidations: in any run of
/// registrations and invalidations on a well-formed arena, two meshes whose
/// records carry the same generation never overlap. Where their vertex data
/// went into the same vertex buffer, the earlier range ends where the later
/// begins, or before; and so for their indices in an index buffer.
pub proof fn lemma_meshes_of_a_generation_disjoint(
    arena: ArenaView,
    steps: Seq<Step>,
    i: int,
    j: int,
)
    requires
        arena.wf(),
        arena.can_run(steps),
        0 <= i < j < steps.len(),
        arena.registers_at(steps, i),
        arena.registers_at(steps, j),
        arena.registration_at(steps, i).0.generation == arena.registration_at(
            steps,
            j,
        ).0.generation,
    ensures
        ({
            let first = arena.registration_at(steps, i);
            let last = arena.registration_at(steps, j);
            &&& first.1.buffer_index == last.1.buffer_index ==> first.1.base_offset
                + (steps[i]->Register_0).vertex_len <= last.1.base_offset
            &&& first.2.buffer_index == last.2.buffer_index ==> first.2.base_offset
                + (steps[i]->Register_0).element_len <= last.2.base_offset
        }),
{
    let before_i = arena.run(steps.take(i));
    let before_j = arena.run(steps.take(j));
    let between = steps.take(j).skip(i);
    lemma_run_wf(arena, steps.take(i));
    lemma_run_split(arena, steps.take(j), i);
    assert(steps.take(j).take(i) == steps.take(i));
    assert(before_j == before_i.run(between));
    lemma_run_wf(before_i, between);

    // The generation did not change, so nothing was given up in between.
    assert forall|k: int| 0 <= k < between.len() implies between[k] is Register by {
        if between[k] is Invalidate {
            assert(before_j.generation > before_i.generation);
        }
    }
    let requests = Seq::new((j - i + 1) as nat, |k: int| steps[i + k]->Register_0);
    assert forall|k: int| 0 <= k <= j - i implies arena.run(steps.take(i + k))
        == before_i.serve_all(requests.take(k)) by {
        lemma_run_split(arena, steps.take(i + k), i);
        assert(steps.take(i + k).take(i) == steps.take(i));
        let part = steps.take(i + k).skip(i);
        assert forall|m: int| 0 <= m < part.len() implies part[m] == Step::Register(
            requests.take(k)[m],
        ) by {
            assert(part[m] == between[m]);
        }
        lemma_run_of_requests(before_i, part, requests.take(k));
    }
    assert(requests.take(0).len() == 0);
    assert(before_i.serve_all(requests.take(j - i)) == before_j);
    lemma_registrations_disjoint(before_i, requests, 0, j - i);
}

} // verus!
