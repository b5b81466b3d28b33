//! The buffer pairing cache: for each pair of a vertex buffer and an index
//! buffer, the device's binding object that couples the two, made on first
//! use and kept until the cache is cleared.

use vstd::prelude::*;

verus! {

/// A binding handed out by the cache: its device handle, and whether it was
/// entered into the cache by this request.
#[derive(Clone, Copy, Debug, PartialEq, Eq, Structural)]
pub struct Binding {
    pub id: u32,
    pub created: bool,
}

/// What the cache is, as a value: a table with one row for each vertex buffer
/// and one column for each index buffer.
pub struct PairingView {
    pub rows: Seq<Seq<Option<u32>>>,
    pub columns: usize,
}

/// The bindings of one row, in the order of the columns.
pub open spec fn row_bindings(row: Seq<Option<u32>>) -> Seq<u32>
    decreases row.len(),
{
    if row.len() == 0 {
        Seq::empty()
    } else {
        match row.last() {
            Some(id) => row_bindings(row.drop_last()).push(id),
            None => row_bindings(row.drop_last()),
        }
    }
}

/// The bindings of a table, row after row.
pub open spec fn table_bindings(rows: Seq<Seq<Option<u32>>>) -> Seq<u32>
    decreases rows.len(),
{
    if rows.len() == 0 {
        Seq::empty()
    } else {
        table_bindings(rows.drop_last()) + row_bindings(rows.last())
    }
}

impl PairingView {
    /// Every row has one entry for each column.
    pub open spec fn wf(self) -> bool {
        &&& self.rows.len() <= usize::MAX
        &&& forall|v: int| 0 <= v < self.rows.len() ==> (#[trigger] self.rows[v]).len() == self.columns
    }

    /// The table has an entry for vertex buffer `v` and index buffer `e`.
    pub open spec fn in_range(self, v: int, e: int) -> bool {
        0 <= v < self.rows.len() && 0 <= e < self.columns
    }

    /// The binding cached for the pairing, if there is one.
    pub open spec fn get(self, v: int, e: int) -> Option<u32> {
        self.rows[v][e]
    }

    /// The table with one more row, without bindings.
    pub open spec fn add_row(self) -> PairingView {
        PairingView {
            rows: self.rows.push(Seq::new(self.columns as nat, |e: int| None::<u32>)),
            ..self
        }
    }

    /// The table with one more column, without bindings.
    pub open spec fn add_column(self) -> PairingView {
        PairingView {
            rows: Seq::new(self.rows.len(), |v: int| self.rows[v].push(None::<u32>)),
            columns: (self.columns + 1) as usize,
        }
    }

    /// What a request for the pairing gets: the cached binding; else `fresh`,
    /// newly entered; else nothing.
    pub open spec fn binding(self, v: int, e: int, fresh: Option<u32>) -> Option<Binding> {
        match self.get(v, e) {
            Some(id) => Some(Binding { id, created: false }),
            None => match fresh {
                Some(id) => Some(Binding { id, created: true }),
                None => None,
            },
        }
    }

    /// The table after a request for the pairing: `fresh` is entered where
    /// there was no binding, and nothing else changes.
    pub open spec fn get_or_create(self, v: int, e: int, fresh: Option<u32>) -> PairingView {
        if self.get(v, e).is_none() && fresh.is_some() {
            PairingView { rows: self.rows.update(v, self.rows[v].update(e, fresh)), ..self }
        } else {
            self
        }
    }

    /// The table of the same size without any binding.
    pub open spec fn clear(self) -> PairingView {
        PairingView {
            rows: Seq::new(
                self.rows.len(),
                |v: int| Seq::new(self.rows[v].len(), |e: int| None::<u32>),
            ),
            ..self
        }
    }

    /// All bindings in the table, row after row.
    pub open spec fn bindings(self) -> Seq<u32> {
        table_bindings(self.rows)
    }
}

/// A row without bindings lists none.
proof fn lemma_row_bindings_none(row: Seq<Option<u32>>)
    requires
        forall|e: int| 0 <= e < row.len() ==> row[e].is_none(),
    ensures
        row_bindings(row) == Seq::<u32>::empty(),
    decreases row.len(),
{
    if row.len() > 0 {
        lemma_row_bindings_none(row.drop_last());
    }
}

/// A table without bindings lists none.
proof fn lemma_table_bindings_none(rows: Seq<Seq<Option<u32>>>)
    requires
        forall|v: int, e: int| 0 <= v < rows.len() && 0 <= e < rows[v].len() ==> rows[v][e].is_none(),
    ensures
        table_bindings(rows) == Seq::<u32>::empty(),
    decreases rows.len(),
{
    if rows.len() > 0 {
        lemma_table_bindings_none(rows.drop_last());
        lemma_row_bindings_none(rows.last());
    }
}

/// A cleared cache has the size it had and no binding: clearing it again
/// returns nothing.
pub proof fn lemma_clear_leaves_nothing(cache: PairingView)
    requires
        cache.wf(),
    ensures
        cache.clear().wf(),
        cache.clear().rows.len() == cache.rows.len(),
        cache.clear().columns == cache.columns,
        forall|v: int, e: int| #[trigger]
            cache.clear().in_range(v, e) ==> cache.clear().get(v, e).is_none(),
        cache.clear().bindings() == Seq::<u32>::empty(),
{
    lemma_table_bindings_none(cache.clear().rows);
}

/// Idempotence: once a request for a pairing has got a binding, every later
/// request for that pairing gets the same binding, enters nothing and leaves
/// the cache as it is, whatever fresh handle comes with it.
pub proof fn lemma_get_or_create_idempotent(
    cache: PairingView,
    v: int,
    e: int,
    first: Option<u32>,
    second: Option<u32>,
)
    requires
        cache.wf(),
        cache.in_range(v, e),
        cache.binding(v, e, first).is_some(),
    ensures
        cache.get_or_create(v, e, first).wf(),
        cache.get_or_create(v, e, first).binding(v, e, second) == Some(
            Binding { id: cache.binding(v, e, first).unwrap().id, created: false },
        ),
        cache.get_or_create(v, e, first).get_or_create(v, e, second) == cache.get_or_create(
            v,
            e,
            first,
        ),
{
}

/// A request changes no pairing but its own.
pub proof fn lemma_get_or_create_keeps_others(
    cache: PairingView,
    v: int,
    e: int,
    fresh: Option<u32>,
    other_v: int,
    other_e: int,
)
    requires
        cache.wf(),
        cache.in_range(v, e),
        cache.in_range(other_v, other_e),
        cache.get(other_v, other_e).is_some() || other_v != v || other_e != e,
    ensures
        cache.get_or_create(v, e, fresh).get(other_v, other_e) == cache.get(other_v, other_e),
{
}

/// The cache of pairing bindings.
pub struct PairingCache {
    table: Vec<Vec<Option<u32>>>,
    columns: usize,
}

/// The rows of a table as values.
pub open spec fn table_view(table: Seq<Vec<Option<u32>>>) -> Seq<Seq<Option<u32>>> {
    Seq::new(table.len(), |v: int| table[v]@)
}

impl View for PairingCache {
    type V = PairingView;

    closed spec fn view(&self) -> PairingView {
        PairingView { rows: table_view(self.table@), columns: self.columns }
    }
}

impl PairingCache {
    /// What holds of every value of this type.
    #[verifier::type_invariant]
    pub open spec fn well_formed(self) -> bool {
        self@.wf()
    }

    /// A cache for no buffers at all.
    pub fn new() -> (cache: PairingCache)
        ensures
            cache@ == (PairingView { rows: Seq::empty(), columns: 0 }),
    {
        let cache = PairingCache { table: Vec::new(), columns: 0 };
        proof {
            assert(cache@.rows =~= Seq::empty());
        }
        cache
    }

    /// Number of rows: one for each vertex buffer.
    pub fn rows(&self) -> (rows: usize)
        ensures
            rows == self@.rows.len(),
            self@.wf(),
    {
        proof {
            use_type_invariant(self);
        }
        self.table.len()
    }

    /// Number of columns: one for each index buffer.
    pub fn columns(&self) -> (columns: usize)
        ensures
            columns == self@.columns,
            self@.wf(),
    {
        proof {
            use_type_invariant(self);
        }
        self.columns
    }

    /// Adds a row without bindings, for a vertex buffer that was created.
    pub fn add_row(&mut self)
        ensures
            final(self)@ == old(self)@.add_row(),
    {
        proof {
            use_type_invariant(&*self);
        }
        let mut row: Vec<Option<u32>> = Vec::new();
        let mut e: usize = 0;
        while e < self.columns
            invariant
                e <= self.columns,
                row@.len() == e,
                forall|k: int| 0 <= k < e ==> row@[k].is_none(),
            decreases self.columns - e,
        {
            row.push(None);
            e += 1;
        }
        let mut table: Vec<Vec<Option<u32>>> = Vec::new();
        std::mem::swap(&mut table, &mut self.table);
        table.push(row);
        proof {
            assert(table.len() == table@.len());
            assert(row@ =~= Seq::new(self.columns as nat, |e: int| None::<u32>));
            assert(table_view(table@) =~= old(self)@.add_row().rows);
        }
        self.table = table;
    }

    /// Adds a column without bindings, for an index buffer that was created.
    pub fn add_column(&mut self)
        requires
            old(self)@.columns < usize::MAX,
        ensures
            final(self)@ == old(self)@.add_column(),
    {
        proof {
            use_type_invariant(&*self);
        }
        let mut table: Vec<Vec<Option<u32>>> = Vec::new();
        std::mem::swap(&mut table, &mut self.table);
        let mut v: usize = 0;
        while v < table.len()
            invariant
                v <= table@.len(),
                table@.len() == old(self).table@.len(),
                forall|k: int| 0 <= k < v ==> table@[k]@ == old(self).table@[k]@.push(None::<u32>),
                forall|k: int| v <= k < table@.len() ==> table@[k]@ == old(self).table@[k]@,
            decreases table.len() - v,
        {
            table[v].push(None);
            v += 1;
        }
        self.columns = self.columns + 1;
        proof {
            assert(table_view(table@) =~= old(self)@.add_column().rows);
        }
        self.table = table;
    }

    /// The binding cached for vertex buffer `v` and index buffer `e`, if any.
    pub fn get(&self, v: usize, e: usize) -> (binding: Option<u32>)
        requires
            self@.in_range(v as int, e as int),
        ensures
            binding == self@.get(v as int, e as int),
    {
        proof {
            use_type_invariant(self);
        }
        self.table[v][e]
    }

    /// The binding for vertex buffer `v` and index buffer `e`. A cached
    /// binding is returned as it is, and `fresh` is not looked at. Where
    /// none is cached, `fresh` is entered and returned; without `fresh`
    /// nothing is returned and the cache stays as it is.
    pub fn get_or_create(&mut self, v: usize, e: usize, fresh: Option<u32>) -> (binding: Option<
        Binding,
    >)
        requires
            old(self)@.in_range(v as int, e as int),
        ensures
            binding == old(self)@.binding(v as int, e as int, fresh),
            final(self)@ == old(self)@.get_or_create(v as int, e as int, fresh),
            binding.is_none() <==> old(self)@.get(v as int, e as int).is_none() && fresh.is_none(),
    {
        proof {
            use_type_invariant(&*self);
        }
        match self.table[v][e] {
            Some(id) => Some(Binding { id, created: false }),
            None => match fresh {
                Some(id) => {
                    let mut table: Vec<Vec<Option<u32>>> = Vec::new();
                    std::mem::swap(&mut table, &mut self.table);
                    table[v][e] = Some(id);
                    proof {
                        assert(table_view(table@) =~= old(self)@.get_or_create(
                            v as int,
                            e as int,
                            fresh,
                        ).rows);
                    }
                    self.table = table;
                    Some(Binding { id, created: true })
                },
                None => None,
            },
        }
    }

    /// Removes every binding from the cache and returns them, row after row,
    /// for the caller to destroy on the device. The table keeps its size.
    pub fn clear(&mut self) -> (destroyed: Vec<u32>)
        ensures
            destroyed@ == old(self)@.bindings(),
            final(self)@ == old(self)@.clear(),
    {
        proof {
            use_type_invariant(&*self);
        }
        let mut destroyed: Vec<u32> = Vec::new();
        let mut table: Vec<Vec<Option<u32>>> = Vec::new();
        std::mem::swap(&mut table, &mut self.table);
        let ghost before = table_view(table@);
        let mut v: usize = 0;
        while v < table.len()
            invariant
                v <= table@.len(),
                table@.len() == before.len(),
                before == table_view(old(self).table@),
                forall|k: int| 0 <= k < table@.len() ==> (#[trigger] table@[k])@.len() == before[k].len(),
                forall|k: int, e: int|
                    0 <= k < v && 0 <= e < before[k].len() ==> (#[trigger] table@[k]@[e]).is_none(),
                forall|k: int| v <= k < table@.len() ==> (#[trigger] table@[k])@ == before[k],
                destroyed@ == table_bindings(before.take(v as int)),
            decreases table.len() - v,
        {
            let ghost listed = destroyed@;
            let mut e: usize = 0;
            while e < table[v].len()
                invariant
                    v < table@.len(),
                    table@.len() == before.len(),
                    e <= before[v as int].len(),
                    forall|k: int|
                        0 <= k < table@.len() ==> (#[trigger] table@[k])@.len() == before[k].len(),
                    forall|k: int, c: int|
                        0 <= k < v && 0 <= c < before[k].len() ==> (#[trigger] table@[k]@[c]).is_none(),
                    forall|k: int| v < k < table@.len() ==> (#[trigger] table@[k])@ == before[k],
                    forall|c: int| 0 <= c < e ==> (#[trigger] table@[v as int]@[c]).is_none(),
                    forall|c: int|
                        e <= c < before[v as int].len() ==> table@[v as int]@[c] == before[v as int][c],
                    destroyed@ == listed + row_bindings(before[v as int].take(e as int)),
                decreases before[v as int].len() - e,
            {
                proof {
                    assert(before[v as int].take(e + 1).drop_last() == before[v as int].take(
                        e as int,
                    ));
                }
                match table[v][e] {
                    Some(id) => {
                        destroyed.push(id);
                        table[v][e] = None;
                    },
                    None => {},
                }
                e += 1;
            }
            proof {
                assert(before[v as int].take(e as int) == before[v as int]);
                assert(before.take(v + 1).drop_last() == before.take(v as int));
            }
            v += 1;
        }
        proof {
            assert(before.take(v as int) == before);
            assert(table_view(table@) =~~= old(self)@.clear().rows);
        }
        self.table = table;
        destroyed
    }
}

/// Remembers which binding is current on the device, so that the device is
/// asked to make a binding current only when another one is.
pub struct BoundBinding {
    bound_vao: Option<u32>,
}

impl View for BoundBinding {
    type V = Option<u32>;

    closed spec fn view(&self) -> Option<u32> {
        self.bound_vao
    }
}

impl BoundBinding {
    /// Nothing is known to be current.
    pub fn new() -> (bound: BoundBinding)
        ensures
            bound@.is_none(),
    {
        BoundBinding { bound_vao: None }
    }

    /// The binding that is current, as far as known.
    pub fn bound(&self) -> (bound: Option<u32>)
        ensures
            bound == self@,
    {
        self.bound_vao
    }

    /// Notes that `vao` is to be current, and says whether the device has
    /// to be told: not if `vao` is current already.
    pub fn bind_vao_checked(&mut self, vao: u32) -> (rebind: bool)
        ensures
            rebind == (old(self)@ != Some(vao)),
            final(self)@ == Some(vao),
    {
        let rebind = match self.bound_vao {
            Some(bv) => bv != vao,
            None => true,
        };
        if rebind {
            self.bound_vao = Some(vao);
        }
        rebind
    }
}

} // verus!
