//! The backing buffer pool: a growing list of device buffers of one kind,
//! each of a fixed capacity and filled from the front.

use vstd::prelude::*;

verus! {

/// Number of elements in a buffer that is created without a larger demand.
pub const DEFAULT_CAPACITY: usize = 65535 * 4;

/// One device buffer: its device handle, the number of elements it holds and
/// the offset of its first free element.
#[derive(Clone, Copy, Debug, PartialEq, Eq, Structural)]
pub struct BackingBuffer {
    pub device: u32,
    pub capacity: usize,
    pub cursor: usize,
}

/// Where an allocation went: the buffer's place in the pool and its device
/// handle, the offset of the first element, and whether the buffer was added
/// to the pool for this allocation.
#[derive(Clone, Copy, Debug, PartialEq, Eq, Structural)]
pub struct Allocation {
    pub buffer_index: usize,
    pub base_offset: usize,
    pub device: u32,
    pub created: bool,
}

/// What a pool is, as a value: its buffers in the order of their creation and
/// the capacity it gives a buffer by default.
pub struct PoolView {
    pub buffers: Seq<BackingBuffer>,
    pub default_capacity: usize,
}

/// First index at or after `from` whose buffer has `min_size` free elements.
pub open spec fn first_fit_from(buffers: Seq<BackingBuffer>, min_size: usize, from: int) -> Option<
    int,
>
    decreases buffers.len() - from,
{
    if from < 0 || from >= buffers.len() {
        None
    } else if buffers[from].capacity - buffers[from].cursor >= min_size {
        Some(from)
    } else {
        first_fit_from(buffers, min_size, from + 1)
    }
}

impl PoolView {
    /// No buffer is filled beyond its capacity.
    pub open spec fn wf(self) -> bool {
        &&& self.buffers.len() <= usize::MAX
        &&& forall|i: int|
            0 <= i < self.buffers.len() ==> (#[trigger] self.buffers[i]).cursor
                <= self.buffers[i].capacity
    }

    /// Buffer `index` has room for `min_size` more elements.
    pub open spec fn fits(self, index: int, min_size: usize) -> bool {
        &&& 0 <= index < self.buffers.len()
        &&& self.buffers[index].capacity - self.buffers[index].cursor >= min_size
    }

    /// `self` has every buffer of `earlier`, each with its device handle and
    /// capacity and with a cursor that did not move back.
    pub open spec fn extends(self, earlier: PoolView) -> bool {
        &&& self.default_capacity == earlier.default_capacity
        &&& earlier.buffers.len() <= self.buffers.len()
        &&& forall|i: int|
            0 <= i < earlier.buffers.len() ==> {
                let before = #[trigger] earlier.buffers[i];
                let after = self.buffers[i];
                &&& after.device == before.device
                &&& after.capacity == before.capacity
                &&& after.cursor >= before.cursor
            }
    }

    /// The first buffer, in the order of creation, with room for `min_size`
    /// more elements.
    pub open spec fn first_fit(self, min_size: usize) -> Option<int> {
        first_fit_from(self.buffers, min_size, 0)
    }

    /// Capacity of a buffer that is created to take `min_size` elements.
    pub open spec fn growth(self, min_size: usize) -> usize {
        if min_size > self.default_capacity {
            min_size
        } else {
            self.default_capacity
        }
    }

    /// The pool with one more buffer, empty, made for `min_size` elements.
    pub open spec fn add_buffer(self, device: u32, min_size: usize) -> PoolView {
        PoolView {
            buffers: self.buffers.push(
                BackingBuffer { device, capacity: self.growth(min_size), cursor: 0 },
            ),
            ..self
        }
    }

    /// Where `min_size` elements go: into the first buffer with room, else
    /// into a new buffer with the device handle `fresh`, else nowhere.
    pub open spec fn allocation(self, min_size: usize, fresh: Option<u32>) -> Option<Allocation> {
        match self.first_fit(min_size) {
            Some(index) => Some(
                Allocation {
                    buffer_index: index as usize,
                    base_offset: self.buffers[index].cursor,
                    device: self.buffers[index].device,
                    created: false,
                },
            ),
            None => match fresh {
                Some(device) => Some(
                    Allocation {
                        buffer_index: self.buffers.len() as usize,
                        base_offset: 0,
                        device,
                        created: true,
                    },
                ),
                None => None,
            },
        }
    }

    /// The pool after `min_size` elements were allocated, or the same pool if
    /// they went nowhere.
    pub open spec fn allocate(self, min_size: usize, fresh: Option<u32>) -> PoolView {
        match self.first_fit(min_size) {
            Some(index) => PoolView {
                buffers: self.buffers.update(
                    index,
                    BackingBuffer {
                        cursor: (self.buffers[index].cursor + min_size) as usize,
                        ..self.buffers[index]
                    },
                ),
                ..self
            },
            None => match fresh {
                Some(device) => PoolView {
                    buffers: self.buffers.push(
                        BackingBuffer { device, capacity: self.growth(min_size), cursor: min_size },
                    ),
                    ..self
                },
                None => self,
            },
        }
    }

    /// The pool with every buffer empty again.
    pub open spec fn reset(self) -> PoolView {
        PoolView {
            buffers: Seq::new(
                self.buffers.len(),
                |i: int| BackingBuffer { cursor: 0, ..self.buffers[i] },
            ),
            ..self
        }
    }

    /// The pool after a run of allocations, one for each entry of `sizes`,
    /// each with its own entry of `fresh`.
    pub open spec fn allocate_all(self, sizes: Seq<usize>, fresh: Seq<Option<u32>>) -> PoolView
        decreases sizes.len(),
    {
        if sizes.len() == 0 {
            self
        } else {
            self.allocate_all(sizes.drop_last(), fresh.drop_last()).allocate(
                sizes.last(),
                fresh.last(),
            )
        }
    }

    /// Where allocation number `k` of such a run went.
    pub open spec fn allocation_at(self, sizes: Seq<usize>, fresh: Seq<Option<u32>>, k: int)
        -> Option<Allocation> {
        self.allocate_all(sizes.take(k), fresh.take(k)).allocation(sizes[k], fresh[k])
    }
}

/// `first_fit_from` finds a buffer with room that no earlier buffer from
/// `from` on has, and finds none only if there is none.
pub proof fn lemma_first_fit_from(buffers: Seq<BackingBuffer>, min_size: usize, from: int)
    requires
        0 <= from,
    ensures
        match first_fit_from(buffers, min_size, from) {
            Some(index) => {
                &&& from <= index < buffers.len()
                &&& buffers[index].capacity - buffers[index].cursor >= min_size
                &&& forall|j: int|
                    from <= j < index ==> (#[trigger] buffers[j]).capacity - buffers[j].cursor
                        < min_size
            },
            None => forall|j: int|
                from <= j < buffers.len() ==> (#[trigger] buffers[j]).capacity - buffers[j].cursor
                    < min_size,
        },
    decreases buffers.len() - from,
{
    if from < buffers.len() && !(buffers[from].capacity - buffers[from].cursor >= min_size) {
        lemma_first_fit_from(buffers, min_size, from + 1);
    }
}

/// First fit: the chosen buffer has room and no buffer before it has; none
/// is chosen only if no buffer has room.
pub proof fn lemma_first_fit(pool: PoolView, min_size: usize)
    ensures
        match pool.first_fit(min_size) {
            Some(index) => {
                &&& pool.fits(index, min_size)
                &&& forall|j: int| 0 <= j < index ==> !pool.fits(j, min_size)
            },
            None => forall|j: int| !pool.fits(j, min_size),
        },
{
    lemma_first_fit_from(pool.buffers, min_size, 0);
}

/// An allocation adds at most one buffer and removes none.
pub proof fn lemma_allocate_len(pool: PoolView, min_size: usize, fresh: Option<u32>)
    ensures
        pool.buffers.len() <= pool.allocate(min_size, fresh).buffers.len() <= pool.buffers.len()
            + 1,
{
    lemma_first_fit(pool, min_size);
}

/// An allocation keeps the pool well formed, keeps every buffer that was
/// there with its device handle and capacity, and moves no cursor back.
pub proof fn lemma_allocate_grows(pool: PoolView, min_size: usize, fresh: Option<u32>)
    requires
        pool.wf(),
        pool.allocate(min_size, fresh).buffers.len() <= usize::MAX,
    ensures
        pool.allocate(min_size, fresh).wf(),
        pool.allocate(min_size, fresh).extends(pool),
        pool.allocate(min_size, fresh).buffers.len() <= pool.buffers.len() + 1,
        match pool.allocation(min_size, fresh) {
            Some(a) => {
                let after = pool.allocate(min_size, fresh);
                &&& a.buffer_index < after.buffers.len()
                &&& after.buffers[a.buffer_index as int].device == a.device
                &&& after.buffers[a.buffer_index as int].cursor == a.base_offset + min_size
                &&& a.created <==> a.buffer_index == pool.buffers.len()
                &&& !a.created ==> a.base_offset == pool.buffers[a.buffer_index as int].cursor
                &&& a.created ==> a.base_offset == 0
            },
            None => pool.allocate(min_size, fresh) == pool,
        },
{
    lemma_first_fit(pool, min_size);
}

/// A run of allocations keeps the pool well formed as long as the number of
/// buffers stays below the machine's limit.
pub open spec fn run_bounded(pool: PoolView, sizes: Seq<usize>) -> bool {
    pool.buffers.len() + sizes.len() <= usize::MAX
}

/// A run of allocations keeps what `lemma_allocate_grows` says of one.
pub proof fn lemma_allocate_all_grows(pool: PoolView, sizes: Seq<usize>, fresh: Seq<Option<u32>>)
    requires
        pool.wf(),
        sizes.len() == fresh.len(),
        run_bounded(pool, sizes),
    ensures
        pool.allocate_all(sizes, fresh).wf(),
        pool.allocate_all(sizes, fresh).extends(pool),
        pool.allocate_all(sizes, fresh).buffers.len() <= pool.buffers.len() + sizes.len(),
    decreases sizes.len(),
{
    if sizes.len() > 0 {
        let earlier = pool.allocate_all(sizes.drop_last(), fresh.drop_last());
        lemma_allocate_all_grows(pool, sizes.drop_last(), fresh.drop_last());
        lemma_allocate_len(earlier, sizes.last(), fresh.last());
        lemma_allocate_grows(earlier, sizes.last(), fresh.last());
    }
}

/// A run that is cut in two: the whole run is the second part run on the
/// result of the first.
pub proof fn lemma_allocate_all_split(
    pool: PoolView,
    sizes: Seq<usize>,
    fresh: Seq<Option<u32>>,
    k: int,
)
    requires
        sizes.len() == fresh.len(),
        0 <= k <= sizes.len(),
    ensures
        pool.allocate_all(sizes, fresh) == pool.allocate_all(
            sizes.take(k),
            fresh.take(k),
        ).allocate_all(sizes.skip(k), fresh.skip(k)),
    decreases sizes.len() - k,
{
    if k == sizes.len() {
        assert(sizes.take(k) == sizes);
        assert(fresh.take(k) == fresh);
        assert(sizes.skip(k).len() == 0);
    } else {
        lemma_allocate_all_split(pool, sizes.drop_last(), fresh.drop_last(), k);
        assert(sizes.drop_last().take(k) == sizes.take(k));
        assert(fresh.drop_last().take(k) == fresh.take(k));
        assert(sizes.drop_last().skip(k) == sizes.skip(k).drop_last());
        assert(fresh.drop_last().skip(k) == fresh.skip(k).drop_last());
        assert(sizes.skip(k).last() == sizes.last());
        assert(fresh.skip(k).last() == fresh.last());
    }
}

/// Allocation correctness: in any run of allocations on a well-formed pool,
/// two allocations that went into the same buffer got ranges that do not
/// overlap. The earlier one ends where the later one begins, or before, and
/// both lie within the buffer's capacity.
pub proof fn lemma_allocations_disjoint(
    pool: PoolView,
    sizes: Seq<usize>,
    fresh: Seq<Option<u32>>,
    i: int,
    j: int,
)
    requires
        pool.wf(),
        sizes.len() == fresh.len(),
        run_bounded(pool, sizes),
        0 <= i < j < sizes.len(),
        pool.allocation_at(sizes, fresh, i).is_some(),
        pool.allocation_at(sizes, fresh, j).is_some(),
        pool.allocation_at(sizes, fresh, i).unwrap().buffer_index == pool.allocation_at(
            sizes,
            fresh,
            j,
        ).unwrap().buffer_index,
    ensures
        pool.allocation_at(sizes, fresh, i).unwrap().base_offset + sizes[i] <= pool.allocation_at(
            sizes,
            fresh,
            j,
        ).unwrap().base_offset,
        ({
            let last = pool.allocation_at(sizes, fresh, j).unwrap();
            let end = pool.allocate_all(sizes, fresh);
            &&& last.buffer_index < end.buffers.len()
            &&& last.base_offset + sizes[j] <= end.buffers[last.buffer_index as int].capacity
        }),
{
    let before_i = pool.allocate_all(sizes.take(i), fresh.take(i));
    let after_i = pool.allocate_all(sizes.take(i + 1), fresh.take(i + 1));
    let before_j = pool.allocate_all(sizes.take(j), fresh.take(j));
    let after_j = pool.allocate_all(sizes.take(j + 1), fresh.take(j + 1));
    let end = pool.allocate_all(sizes, fresh);

    // The state before and after allocation `i`.
    lemma_allocate_all_grows(pool, sizes.take(i), fresh.take(i));
    assert(sizes.take(i + 1).drop_last() == sizes.take(i));
    assert(fresh.take(i + 1).drop_last() == fresh.take(i));
    assert(after_i == before_i.allocate(sizes[i], fresh[i]));
    lemma_allocate_len(before_i, sizes[i], fresh[i]);
    lemma_allocate_grows(before_i, sizes[i], fresh[i]);

    // From there to the state before allocation `j`.
    let mid_sizes = sizes.take(j).skip(i + 1);
    let mid_fresh = fresh.take(j).skip(i + 1);
    lemma_allocate_all_split(pool, sizes.take(j), fresh.take(j), i + 1);
    assert(sizes.take(j).take(i + 1) == sizes.take(i + 1));
    assert(fresh.take(j).take(i + 1) == fresh.take(i + 1));
    assert(before_j == after_i.allocate_all(mid_sizes, mid_fresh));
    lemma_allocate_all_grows(after_i, mid_sizes, mid_fresh);

    // Allocation `j` itself.
    assert(sizes.take(j + 1).drop_last() == sizes.take(j));
    assert(fresh.take(j + 1).drop_last() == fresh.take(j));
    assert(after_j == before_j.allocate(sizes[j], fresh[j]));
    lemma_allocate_len(before_j, sizes[j], fresh[j]);
    lemma_allocate_grows(before_j, sizes[j], fresh[j]);

    // And from there to the end of the run.
    lemma_allocate_all_split(pool, sizes, fresh, j + 1);
    lemma_allocate_all_grows(after_j, sizes.skip(j + 1), fresh.skip(j + 1));
    assert(end == after_j.allocate_all(sizes.skip(j + 1), fresh.skip(j + 1)));
}

/// A reset removes no buffer and changes no device handle and no capacity:
/// it empties every buffer, and nothing else.
pub proof fn lemma_reset_keeps_buffers(pool: PoolView)
    requires
        pool.wf(),
    ensures
        pool.reset().wf(),
        pool.reset().default_capacity == pool.default_capacity,
        pool.reset().buffers.len() == pool.buffers.len(),
        forall|i: int|
            0 <= i < pool.buffers.len() ==> {
                let before = #[trigger] pool.buffers[i];
                let after = pool.reset().buffers[i];
                &&& after.device == before.device
                &&& after.capacity == before.capacity
                &&& after.cursor == 0
            },
{
}

/// Growth: an allocation larger than the default capacity, made on a pool
/// without buffers, adds exactly one buffer, of just that size, and fills it.
pub proof fn lemma_oversized_allocation(default_capacity: usize, min_size: usize, device: u32)
    requires
        min_size > default_capacity,
    ensures
        ({
            let pool = PoolView { buffers: Seq::empty(), default_capacity };
            &&& pool.allocate(min_size, Some(device)).buffers == seq![
                BackingBuffer { device, capacity: min_size, cursor: min_size },
            ]
            &&& pool.allocation(min_size, Some(device)) == Some(
                Allocation { buffer_index: 0, base_offset: 0, device, created: true },
            )
        }),
{
    let pool = PoolView { buffers: Seq::empty(), default_capacity };
    assert(pool.allocate(min_size, Some(device)).buffers =~= seq![
        BackingBuffer { device, capacity: min_size, cursor: min_size },
    ]);
}

/// A growing list of device buffers of one kind.
pub struct Pool {
    buffers: Vec<BackingBuffer>,
    default_capacity: usize,
}

impl View for Pool {
    type V = PoolView;

    closed spec fn view(&self) -> PoolView {
        PoolView { buffers: self.buffers@, default_capacity: self.default_capacity }
    }
}

impl Pool {
    /// What holds of every value of this type.
    #[verifier::type_invariant]
    pub open spec fn well_formed(self) -> bool {
        self@.wf()
    }

    /// A pool without buffers.
    pub fn new(default_capacity: usize) -> (pool: Pool)
        ensures
            pool@ == (PoolView { buffers: Seq::empty(), default_capacity }),
    {
        Pool { buffers: Vec::new(), default_capacity }
    }

    /// Number of buffers.
    pub fn len(&self) -> (len: usize)
        ensures
            len == self@.buffers.len(),
            self@.wf(),
    {
        proof {
            use_type_invariant(self);
        }
        self.buffers.len()
    }

    /// The capacity a buffer gets unless more is asked of it.
    pub fn default_capacity(&self) -> (capacity: usize)
        ensures
            capacity == self@.default_capacity,
    {
        self.default_capacity
    }

    /// The buffer at `index`.
    pub fn buffer(&self, index: usize) -> (buffer: BackingBuffer)
        requires
            index < self@.buffers.len(),
        ensures
            buffer == self@.buffers[index as int],
            buffer.cursor <= buffer.capacity,
    {
        proof {
            use_type_invariant(self);
        }
        self.buffers[index]
    }

    /// The first buffer, in the order of creation, with room for `min_size`
    /// more elements.
    pub fn find_fit(&self, min_size: usize) -> (found: Option<usize>)
        ensures
            match found {
                Some(index) => self@.first_fit(min_size) == Some(index as int),
                None => self@.first_fit(min_size).is_none(),
            },
    {
        proof {
            use_type_invariant(self);
        }
        let mut i: usize = 0;
        while i < self.buffers.len()
            invariant
                i <= self.buffers@.len(),
                self@.wf(),
                first_fit_from(self.buffers@, min_size, 0) == first_fit_from(
                    self.buffers@,
                    min_size,
                    i as int,
                ),
            decreases self.buffers.len() - i,
        {
            let buffer = self.buffers[i];
            if buffer.capacity - buffer.cursor >= min_size {
                return Some(i);
            }
            i += 1;
        }
        None
    }

    /// Capacity of a buffer that is created to take `min_size` elements: the
    /// default, or `min_size` if that is more.
    pub fn growth_capacity(&self, min_size: usize) -> (capacity: usize)
        ensures
            capacity == self@.growth(min_size),
    {
        if min_size > self.default_capacity {
            min_size
        } else {
            self.default_capacity
        }
    }

    /// Adds an empty buffer with the device handle `device`, made for
    /// `min_size` elements, and returns its index.
    pub fn add_buffer(&mut self, device: u32, min_size: usize) -> (index: usize)
        ensures
            final(self)@ == old(self)@.add_buffer(device, min_size),
            index == old(self)@.buffers.len(),
    {
        proof {
            use_type_invariant(&*self);
        }
        let capacity = self.growth_capacity(min_size);
        let mut buffers: Vec<BackingBuffer> = Vec::new();
        std::mem::swap(&mut buffers, &mut self.buffers);
        let index = buffers.len();
        buffers.push(BackingBuffer { device, capacity, cursor: 0 });
        proof {
            assert(buffers.len() == buffers@.len());
        }
        self.buffers = buffers;
        index
    }

    /// Allocates `min_size` elements: in the first buffer with room; if none
    /// has room, in a new buffer with the device handle `fresh`, of the
    /// default capacity or of `min_size` if that is more. Returns where the
    /// elements went. Without room and without `fresh` nothing is allocated
    /// and the pool stays as it is.
    pub fn allocate(&mut self, min_size: usize, fresh: Option<u32>) -> (allocation: Option<
        Allocation,
    >)
        ensures
            allocation == old(self)@.allocation(min_size, fresh),
            final(self)@ == old(self)@.allocate(min_size, fresh),
            allocation.is_none() <==> old(self)@.first_fit(min_size).is_none() && fresh.is_none(),
    {
        proof {
            use_type_invariant(&*self);
            lemma_first_fit(self@, min_size);
        }
        let found = self.find_fit(min_size);
        let capacity = self.growth_capacity(min_size);
        let mut buffers: Vec<BackingBuffer> = Vec::new();
        std::mem::swap(&mut buffers, &mut self.buffers);
        let allocation = match found {
            Some(index) => {
                let buffer = buffers[index];
                buffers[index] = BackingBuffer {
                    device: buffer.device,
                    capacity: buffer.capacity,
                    cursor: buffer.cursor + min_size,
                };
                Some(
                    Allocation {
                        buffer_index: index,
                        base_offset: buffer.cursor,
                        device: buffer.device,
                        created: false,
                    },
                )
            },
            None => match fresh {
                Some(device) => {
                    let index = buffers.len();
                    buffers.push(BackingBuffer { device, capacity, cursor: min_size });
                    Some(
                        Allocation { buffer_index: index, base_offset: 0, device, created: true },
                    )
                },
                None => None,
            },
        };
        proof {
            assert(buffers.len() == buffers@.len());
            assert(buffers@ == old(self)@.allocate(min_size, fresh).buffers);
        }
        self.buffers = buffers;
        allocation
    }

    /// Empties every buffer. No buffer is removed or resized, and each keeps
    /// its device handle.
    pub fn reset(&mut self)
        ensures
            final(self)@ == old(self)@.reset(),
    {
        proof {
            use_type_invariant(&*self);
        }
        let mut buffers: Vec<BackingBuffer> = Vec::new();
        std::mem::swap(&mut buffers, &mut self.buffers);
        let mut i: usize = 0;
        while i < buffers.len()
            invariant
                i <= buffers@.len(),
                buffers@.len() == old(self).buffers@.len(),
                forall|j: int|
                    0 <= j < i ==> buffers@[j] == (BackingBuffer {
                        cursor: 0,
                        ..old(self).buffers@[j]
                    }),
                forall|j: int| i <= j < buffers@.len() ==> buffers@[j] == old(self).buffers@[j],
            decreases buffers.len() - i,
        {
            let buffer = buffers[i];
            buffers[i] = BackingBuffer {
                device: buffer.device,
                capacity: buffer.capacity,
                cursor: 0,
            };
            i += 1;
        }
        proof {
            assert(buffers@ =~= old(self)@.reset().buffers);
        }
        self.buffers = buffers;
    }
}

} // verus!
