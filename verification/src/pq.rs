use vstd::prelude::*;
use crate::item_pointer::{ItemPointer, BLCKSZ};
use crate::shape::{array3_elements, array3_from_shape_vec, array3_shape, nonzero_axes_product, QuantizerArray};

verus! {

/// The size in bytes of an item pointer in a record (a four-byte block number
/// and a two-byte offset, padded to a multiple of four).
pub const ITEM_POINTER_SIZE: usize = 8usize;

/// The size in bytes of one subquantizer element (an `f32`).
pub const ELEMENT_SIZE: usize = 4usize;

/// The number of quantizer elements stored in one vector record: a page's worth
/// of four-byte elements, less the size of an item pointer and 64.
pub open spec fn chunk_capacity() -> int {
    BLCKSZ as int / ELEMENT_SIZE as int - ITEM_POINTER_SIZE as int - 64
}

/// Where the last record of a vector of `len` elements begins: the final
/// `chunk_capacity()` elements go in one record, or all of them if there are fewer.
pub open spec fn chunk_start(len: int) -> int {
    if len > chunk_capacity() {
        len - chunk_capacity()
    } else {
        0
    }
}

/// A vector record fits in one page: it holds at most `BLCKSZ / 4 - 8 - 64`
/// (that is, 1976) elements of four bytes, and it holds exactly that many
/// unless it is the last record, which takes all the elements left.
pub proof fn lemma_vector_record_fits_page(len: int)
    requires
        len > 0,
    ensures
        BLCKSZ as int / 4 - 8 - 64 == 1976,
        0 <= chunk_start(len) < len,
        len - chunk_start(len) <= BLCKSZ as int / 4 - 8 - 64,
        len > BLCKSZ as int / 4 - 8 - 64 ==> len - chunk_start(len) == BLCKSZ as int / 4 - 8 - 64,
        len <= BLCKSZ as int / 4 - 8 - 64 ==> chunk_start(len) == 0,
{
}

/// The number of vector records needed for `len` elements.
pub open spec fn chunk_count(len: nat) -> nat
    decreases len,
{
    if len == 0 {
        0
    } else {
        1 + chunk_count(chunk_start(len as int) as nat)
    }
}

/// A stored vector record: its elements and the pointer to the next record.
pub type StoredVector = (Seq<u32>, ItemPointer);

/// The records that writing `v` produces, from its back, when the first record
/// points at `prev` and the records land at `ptrs` in turn (a later record
/// replaces an earlier one stored at the same pointer); with the pointer to the
/// last record written (the one that holds the front of `v`), or `prev` if
/// nothing was written.
pub open spec fn write_chain(v: Seq<u32>, prev: ItemPointer, ptrs: Seq<ItemPointer>) -> (Map<ItemPointer, StoredVector>, ItemPointer)
    decreases ptrs.len(),
{
    if v.len() == 0 || ptrs.len() == 0 {
        (Map::empty(), prev)
    } else {
        let s = chunk_start(v.len() as int);
        let rest = write_chain(v.subrange(0, s), ptrs[0], ptrs.drop_first());
        (Map::empty().insert(ptrs[0], (v.subrange(s, v.len() as int), prev)).union_prefer_right(rest.0), rest.1)
    }
}

/// The elements read by following the records of `store` from `at` until the
/// null pointer, in order, or `None` if a pointer leads nowhere or the chain is
/// longer than `fuel` records.
pub open spec fn read_chain(store: Map<ItemPointer, StoredVector>, at: ItemPointer, fuel: nat) -> Option<Seq<u32>>
    decreases fuel,
{
    if at == ItemPointer::spec_null() {
        Some(Seq::empty())
    } else if fuel == 0 || !store.dom().contains(at) {
        None
    } else {
        match read_chain(store, store[at].1, (fuel - 1) as nat) {
            Some(rest) => Some(store[at].0 + rest),
            None => None,
        }
    }
}

/// Following a chain in a larger store gives the same elements.
proof fn lemma_read_chain_in_larger_store(
    store: Map<ItemPointer, StoredVector>,
    larger: Map<ItemPointer, StoredVector>,
    at: ItemPointer,
    fuel: nat,
)
    requires
        store.submap_of(larger),
        read_chain(store, at, fuel) is Some,
    ensures
        read_chain(larger, at, fuel) == read_chain(store, at, fuel),
    decreases fuel,
{
    if at != ItemPointer::spec_null() {
        assert(store.dom().contains(at));
        assert(larger.dom().contains(at) && larger[at] == store[at]);
        lemma_read_chain_in_larger_store(store, larger, store[at].1, (fuel - 1) as nat);
    }
}

/// Each record of a write points at the record stored just before it, the
/// first at `prev`; and records land only at the pointers reported.
proof fn lemma_write_chain_links(v: Seq<u32>, prev: ItemPointer, ptrs: Seq<ItemPointer>)
    requires
        ptrs.len() == chunk_count(v.len()),
        ptrs.no_duplicates(),
    ensures
        forall|k: ItemPointer| #[trigger] write_chain(v, prev, ptrs).0.dom().contains(k) ==> ptrs.contains(k),
        forall|i: int|
            0 <= i < ptrs.len() ==> {
                &&& write_chain(v, prev, ptrs).0.dom().contains(#[trigger] ptrs[i])
                &&& write_chain(v, prev, ptrs).0[ptrs[i]].1 == (if i == 0 { prev } else { ptrs[i - 1] })
            },
    decreases ptrs.len(),
{
    if v.len() != 0 && ptrs.len() != 0 {
        let s = chunk_start(v.len() as int);
        let front = v.subrange(0, s);
        let p = ptrs[0];
        let tail = ptrs.drop_first();
        assert(tail.no_duplicates()) by {
            assert forall|i: int, j: int| 0 <= i < tail.len() && 0 <= j < tail.len() && i != j implies tail[i] != tail[j] by {
                assert(tail[i] == ptrs[i + 1] && tail[j] == ptrs[j + 1]);
            }
        }
        lemma_write_chain_links(front, p, tail);
        let inner = write_chain(front, p, tail);
        let whole = write_chain(v, prev, ptrs);
        assert(!inner.0.dom().contains(p)) by {
            if inner.0.dom().contains(p) {
                let k = choose|k: int| 0 <= k < tail.len() && tail[k] == p;
                assert(ptrs[k + 1] == ptrs[0]);
            }
        }
        assert forall|k: ItemPointer| #[trigger] whole.0.dom().contains(k) implies ptrs.contains(k) by {
            if k == p {
                assert(ptrs[0] == k);
            } else {
                assert(inner.0.dom().contains(k));
                let j = choose|j: int| 0 <= j < tail.len() && tail[j] == k;
                assert(ptrs[j + 1] == k);
            }
        }
        assert forall|i: int| 0 <= i < ptrs.len() implies {
            &&& whole.0.dom().contains(#[trigger] ptrs[i])
            &&& whole.0[ptrs[i]].1 == (if i == 0 { prev } else { ptrs[i - 1] })
        } by {
            if i > 0 {
                assert(ptrs[i] == tail[i - 1]);
                if i > 1 {
                    assert(ptrs[i - 1] == tail[i - 2]);
                }
            }
        }
    }
}

/// Following a chain with more fuel gives the same elements.
proof fn lemma_read_chain_more_fuel(store: Map<ItemPointer, StoredVector>, at: ItemPointer, fuel: nat, more: nat)
    requires
        fuel <= more,
        read_chain(store, at, fuel) is Some,
    ensures
        read_chain(store, at, more) == read_chain(store, at, fuel),
    decreases fuel,
{
    if at != ItemPointer::spec_null() {
        lemma_read_chain_more_fuel(store, store[at].1, (fuel - 1) as nat, (more - 1) as nat);
    }
}

/// Writing `v` on top of a store from which `prev` already reads `rest`, and then
/// reading from where the write ended, gives `v` followed by `rest`.
proof fn lemma_write_then_read(
    base: Map<ItemPointer, StoredVector>,
    prev: ItemPointer,
    fuel: nat,
    rest: Seq<u32>,
    v: Seq<u32>,
    ptrs: Seq<ItemPointer>,
)
    requires
        read_chain(base, prev, fuel) == Some(rest),
        ptrs.len() == chunk_count(v.len()),
        ptrs.no_duplicates(),
        forall|i: int| 0 <= i < ptrs.len() ==> #[trigger] ptrs[i] != ItemPointer::spec_null(),
        forall|i: int| 0 <= i < ptrs.len() ==> !base.dom().contains(#[trigger] ptrs[i]),
    ensures
        read_chain(
            base.union_prefer_right(write_chain(v, prev, ptrs).0),
            write_chain(v, prev, ptrs).1,
            fuel + ptrs.len(),
        ) == Some(v + rest),
    decreases ptrs.len(),
{
    if v.len() == 0 || ptrs.len() == 0 {
        assert(base.union_prefer_right(Map::empty()) =~= base);
        assert(v =~= Seq::<u32>::empty());
        assert(v + rest =~= rest);
    } else {
        let s = chunk_start(v.len() as int);
        let front = v.subrange(0, s);
        let back = v.subrange(s, v.len() as int);
        let p = ptrs[0];
        let tail = ptrs.drop_first();
        let node: StoredVector = (back, prev);
        let base2 = base.insert(p, node);
        // From `p`, the enlarged store reads the back part and then `rest`.
        lemma_read_chain_in_larger_store(base, base2, prev, fuel);
        assert(read_chain(base2, p, fuel + 1) == Some(back + rest));
        assert forall|i: int| 0 <= i < tail.len() implies #[trigger] tail[i] != ItemPointer::spec_null()
            && !base2.dom().contains(tail[i]) by {
            assert(tail[i] == ptrs[i + 1]);
        }
        lemma_write_then_read(base2, p, fuel + 1, back + rest, front, tail);
        let inner = write_chain(front, p, tail);
        assert(base2.union_prefer_right(inner.0)
            =~= base.union_prefer_right(Map::empty().insert(p, node).union_prefer_right(inner.0)));
        assert(front + (back + rest) =~= v + rest);
    }
}

/// Reading back a written product quantizer: when the vector records of `v`
/// are stored at distinct, non-null pointers `ptrs` (one per record, in the
/// order the writer hands them out), following the chain from where the
/// definition record points gives exactly `v`.
pub proof fn lemma_pq_vectors_read_back(v: Seq<u32>, ptrs: Seq<ItemPointer>)
    requires
        ptrs.len() == chunk_count(v.len()),
        ptrs.no_duplicates(),
        forall|i: int| 0 <= i < ptrs.len() ==> #[trigger] ptrs[i] != ItemPointer::spec_null(),
    ensures
        read_chain(
            write_chain(v, ItemPointer::spec_null(), ptrs).0,
            write_chain(v, ItemPointer::spec_null(), ptrs).1,
            ptrs.len(),
        ) == Some(v),
{
    let base = Map::<ItemPointer, StoredVector>::empty();
    lemma_write_then_read(base, ItemPointer::spec_null(), 0, Seq::empty(), v, ptrs);
    assert(base.union_prefer_right(write_chain(v, ItemPointer::spec_null(), ptrs).0)
        =~= write_chain(v, ItemPointer::spec_null(), ptrs).0);
    assert(v + Seq::<u32>::empty() =~= v);
}

/// The definition record of a product quantizer: the shape of its array of
/// subquantizers, its number of elements, and the first vector record.
pub struct PqQuantizerDef {
    pub dim_0: usize,
    pub dim_1: usize,
    pub dim_2: usize,
    pub vec_len: usize,
    pub next_vector_pointer: ItemPointer,
}

/// A record that holds part of the subquantizer elements (as `f32` bit patterns)
/// and points at the record that holds the part before it.
pub struct PqQuantizerVector {
    pub vec: Vec<u32>,
    pub next_vector_pointer: ItemPointer,
}

impl PqQuantizerDef {
    pub fn new(dim_0: usize, dim_1: usize, dim_2: usize, vec_len: usize) -> (result: PqQuantizerDef)
        ensures
            result == (PqQuantizerDef {
                dim_0,
                dim_1,
                dim_2,
                vec_len,
                next_vector_pointer: ItemPointer::spec_null(),
            }),
    {
        PqQuantizerDef { dim_0, dim_1, dim_2, vec_len, next_vector_pointer: ItemPointer::null() }
    }
}

fn vector_chunk_capacity() -> (result: usize)
    ensures
        result == chunk_capacity(),
{
    (BLCKSZ as usize) / ELEMENT_SIZE - ITEM_POINTER_SIZE - 64
}

/// What the writer of a product quantizer asks its caller to store next.
pub enum PqWriteStep {
    /// Store this vector record and report where it went (`PqWriter::vector_written`).
    WriteVector(PqQuantizerVector),
    /// Store this definition record; the quantizer is then completely written.
    WriteDef(PqQuantizerDef),
}

/// Writes the elements of a product quantizer as a chain of vector records,
/// from the back of the elements to the front, each record pointing at the one
/// stored before it, and then the definition record, which points at the last.
///
/// Besides what it computes with, the writer keeps in ghost state the records
/// stored so far, where, and the record handed out but not yet reported stored.
pub struct PqWriter {
    pq_node: PqQuantizerDef,
    prev: ItemPointer,
    prev_vec: Vec<u32>,
    elements: Ghost<Seq<u32>>,
    placed: Ghost<Seq<ItemPointer>>,
    store: Ghost<Map<ItemPointer, StoredVector>>,
    pending: Ghost<Option<StoredVector>>,
}

/// The pointer reported last, or the null pointer if none was reported.
pub open spec fn last_placed(placed: Seq<ItemPointer>) -> ItemPointer {
    if placed.len() == 0 {
        ItemPointer::spec_null()
    } else {
        placed.last()
    }
}

/// A store of records extended with what a write then adds.
pub open spec fn store_after(
    store: Map<ItemPointer, StoredVector>,
    write: (Map<ItemPointer, StoredVector>, ItemPointer),
) -> (Map<ItemPointer, StoredVector>, ItemPointer) {
    (store.union_prefer_right(write.0), write.1)
}

impl PqWriter {
    /// The elements not yet handed out in a vector record.
    pub closed spec fn spec_remaining(&self) -> Seq<u32> {
        self.prev_vec@
    }

    /// Where the record reported last was stored, or the null pointer.
    pub closed spec fn spec_prev(&self) -> ItemPointer {
        self.prev
    }

    /// The definition record, whose next pointer is filled in at the end.
    pub closed spec fn spec_def(&self) -> PqQuantizerDef {
        self.pq_node
    }

    /// All the elements being written.
    pub closed spec fn spec_elements(&self) -> Seq<u32> {
        self.elements@
    }

    /// Where the vector records were stored, in the order reported.
    pub closed spec fn spec_placed(&self) -> Seq<ItemPointer> {
        self.placed@
    }

    /// The vector records stored so far, by where they were stored.
    pub closed spec fn spec_store(&self) -> Map<ItemPointer, StoredVector> {
        self.store@
    }

    /// The vector record handed out and not yet reported stored, if any.
    pub closed spec fn spec_pending(&self) -> Option<StoredVector> {
        self.pending@
    }

    /// What has been stored, followed by writing what remains, is a write of all
    /// the elements: `write_chain(elements, null, placed ++ future)` for every
    /// continuation `future` of the pointers reported.
    pub closed spec fn wf(&self) -> bool {
        &&& self.prev == last_placed(self.placed@)
        &&& match self.pending@ {
            None => {
                &&& self.placed@.len() + chunk_count(self.prev_vec@.len()) == chunk_count(self.elements@.len())
                &&& forall|future: Seq<ItemPointer>|
                    #[trigger] write_chain(self.elements@, ItemPointer::spec_null(), self.placed@ + future)
                        == store_after(self.store@, write_chain(self.prev_vec@, self.prev, future))
            },
            Some(record) => {
                &&& self.placed@.len() + 1 + chunk_count(self.prev_vec@.len()) == chunk_count(self.elements@.len())
                &&& forall|at: ItemPointer, future: Seq<ItemPointer>|
                    #[trigger] write_chain(self.elements@, ItemPointer::spec_null(), self.placed@.push(at) + future)
                        == store_after(self.store@.insert(at, record), write_chain(self.prev_vec@, at, future))
            },
        }
    }

    /// A writer for the subquantizers of shape `(dim_0, dim_1, dim_2)` with
    /// elements `vec` in standard order.
    pub fn new(dim_0: usize, dim_1: usize, dim_2: usize, vec: Vec<u32>) -> (result: PqWriter)
        ensures
            result.wf(),
            result.spec_remaining() == vec@,
            result.spec_elements() == vec@,
            result.spec_prev() == ItemPointer::spec_null(),
            result.spec_placed() == Seq::<ItemPointer>::empty(),
            result.spec_store() == Map::<ItemPointer, StoredVector>::empty(),
            result.spec_pending() is None,
            result.spec_def() == (PqQuantizerDef {
                dim_0,
                dim_1,
                dim_2,
                vec_len: vec@.len() as usize,
                next_vector_pointer: ItemPointer::spec_null(),
            }),
    {
        let pq_node = PqQuantizerDef::new(dim_0, dim_1, dim_2, vec.len());
        let result = PqWriter {
            pq_node,
            prev: ItemPointer::null(),
            prev_vec: vec,
            elements: Ghost(vec@),
            placed: Ghost(Seq::empty()),
            store: Ghost(Map::empty()),
            pending: Ghost(None),
        };
        assert forall|future: Seq<ItemPointer>|
            #[trigger] write_chain(result.elements@, ItemPointer::spec_null(), result.placed@ + future)
                == store_after(result.store@, write_chain(result.prev_vec@, result.prev, future)) by {
            assert(result.placed@ + future =~= future);
            let w = write_chain(result.prev_vec@, result.prev, future);
            assert(Map::<ItemPointer, StoredVector>::empty().union_prefer_right(w.0) =~= w.0);
        }
        result
    }

    /// The next record to store. While elements remain, it is a vector record
    /// with the last `chunk_capacity()` of them (or all, if fewer) that points at
    /// the record stored before; then it is the definition record, pointing at
    /// the record stored last.
    pub fn next_step(&mut self) -> (step: PqWriteStep)
        ensures
            old(self).spec_remaining().len() == 0 ==> {
                &&& step == PqWriteStep::WriteDef(PqQuantizerDef {
                    next_vector_pointer: old(self).spec_prev(),
                    ..old(self).spec_def()
                })
                &&& *final(self) == *old(self)
                &&& (old(self).wf() ==> old(self).spec_prev() == last_placed(old(self).spec_placed()))
            },
            old(self).spec_remaining().len() > 0 ==> {
                let len = old(self).spec_remaining().len() as int;
                let s = chunk_start(len);
                &&& step matches PqWriteStep::WriteVector(record)
                &&& record.vec@ == old(self).spec_remaining().subrange(s, len)
                &&& 0 < record.vec@.len() <= chunk_capacity()
                &&& record.vec@.len() == (if len > BLCKSZ as int / 4 - 8 - 64 {
                    BLCKSZ as int / 4 - 8 - 64
                } else {
                    len
                })
                &&& record.next_vector_pointer == old(self).spec_prev()
                &&& (old(self).wf() ==> record.next_vector_pointer == last_placed(old(self).spec_placed()))
                &&& final(self).spec_remaining() == old(self).spec_remaining().subrange(0, s)
                &&& final(self).spec_pending() == Some((record.vec@, record.next_vector_pointer))
                &&& (old(self).wf() && old(self).spec_pending() is None ==> final(self).wf())
            },
            final(self).spec_prev() == old(self).spec_prev(),
            final(self).spec_def() == old(self).spec_def(),
            final(self).spec_elements() == old(self).spec_elements(),
            final(self).spec_placed() == old(self).spec_placed(),
            final(self).spec_store() == old(self).spec_store(),
    {
        let l = self.prev_vec.len();
        if l == 0 {
            let def = PqQuantizerDef {
                dim_0: self.pq_node.dim_0,
                dim_1: self.pq_node.dim_1,
                dim_2: self.pq_node.dim_2,
                vec_len: self.pq_node.vec_len,
                next_vector_pointer: self.prev,
            };
            return PqWriteStep::WriteDef(def);
        }
        let ghost old_self = *self;
        let block_fit = vector_chunk_capacity();
        let ni = if l > block_fit { l - block_fit } else { 0 };
        let a = self.prev_vec.split_off(ni);
        let ghost record: StoredVector = (a@, self.prev);
        self.pending = Ghost(Some(record));
        proof {
            if old_self.wf() && old_self.pending@ is None {
                let e = self.elements@;
                let null = ItemPointer::spec_null();
                assert forall|at: ItemPointer, future: Seq<ItemPointer>|
                    #[trigger] write_chain(e, null, self.placed@.push(at) + future)
                        == store_after(self.store@.insert(at, record), write_chain(self.prev_vec@, at, future)) by {
                    let longer = seq![at] + future;
                    assert(self.placed@.push(at) + future =~= self.placed@ + longer);
                    assert(write_chain(e, null, old_self.placed@ + longer)
                        == store_after(old_self.store@, write_chain(old_self.prev_vec@, old_self.prev, longer)));
                    assert(longer.drop_first() =~= future);
                    let inner = write_chain(self.prev_vec@, at, future);
                    assert(self.store@.insert(at, record).union_prefer_right(inner.0)
                        =~= self.store@.union_prefer_right(Map::empty().insert(at, record).union_prefer_right(inner.0)));
                }
            }
        }
        PqWriteStep::WriteVector(PqQuantizerVector { vec: a, next_vector_pointer: self.prev })
    }

    /// The vector record handed out last was stored at `at`.
    pub fn vector_written(&mut self, at: ItemPointer)
        ensures
            final(self).spec_prev() == at,
            final(self).spec_remaining() == old(self).spec_remaining(),
            final(self).spec_def() == old(self).spec_def(),
            final(self).spec_elements() == old(self).spec_elements(),
            final(self).spec_pending() is None,
            old(self).spec_pending() is None ==> {
                &&& final(self).spec_placed() == old(self).spec_placed()
                &&& final(self).spec_store() == old(self).spec_store()
            },
            old(self).spec_pending() matches Some(record) ==> {
                &&& final(self).spec_placed() == old(self).spec_placed().push(at)
                &&& final(self).spec_store() == old(self).spec_store().insert(at, record)
                &&& (old(self).wf() ==> final(self).wf())
            },
    {
        let ghost old_self = *self;
        self.prev = at;
        proof {
            if let Some(record) = old_self.pending@ {
                self.placed@ = old_self.placed@.push(at);
                self.store@ = old_self.store@.insert(at, record);
                self.pending@ = None;
                if old_self.wf() {
                    assert forall|future: Seq<ItemPointer>|
                        #[trigger] write_chain(self.elements@, ItemPointer::spec_null(), self.placed@ + future)
                            == store_after(self.store@, write_chain(self.prev_vec@, self.prev, future)) by {
                        assert(write_chain(old_self.elements@, ItemPointer::spec_null(), old_self.placed@.push(at) + future)
                            == store_after(old_self.store@.insert(at, record), write_chain(old_self.prev_vec@, at, future)));
                    }
                }
            }
        }
    }
}

/// The chain a writer stores is the sequence of reported pointers: once it has
/// no elements left (its protocol followed, records stored at distinct
/// pointers), each stored record points at the one reported just before it,
/// the first at the null pointer, and the definition record's next pointer
/// (the writer's last pointer) is the last one reported. So the chain is
/// acyclic, ends at the null pointer, and refers to nothing stored before the write.
pub proof fn lemma_pq_writer_links_back(w: PqWriter)
    requires
        w.wf(),
        w.spec_pending() is None,
        w.spec_remaining().len() == 0,
        w.spec_placed().no_duplicates(),
    ensures
        w.spec_prev() == last_placed(w.spec_placed()),
        forall|k: ItemPointer| #[trigger] w.spec_store().dom().contains(k) ==> w.spec_placed().contains(k),
        forall|i: int|
            0 <= i < w.spec_placed().len() ==> {
                &&& w.spec_store().dom().contains(#[trigger] w.spec_placed()[i])
                &&& w.spec_store()[w.spec_placed()[i]].1 == (if i == 0 {
                    ItemPointer::spec_null()
                } else {
                    w.spec_placed()[i - 1]
                })
            },
{
    let e = w.spec_elements();
    let placed = w.spec_placed();
    let empty = Seq::<ItemPointer>::empty();
    assert(placed + empty =~= placed);
    assert(write_chain(e, ItemPointer::spec_null(), placed + empty)
        == store_after(w.spec_store(), write_chain(w.spec_remaining(), w.spec_prev(), empty)));
    assert(w.spec_store().union_prefer_right(Map::empty()) =~= w.spec_store());
    lemma_write_chain_links(e, ItemPointer::spec_null(), placed);
}

/// What the writer stores reads back: once a writer that followed its
/// protocol (each vector record reported stored before the next step) has no
/// elements left, following its records from where the definition record
/// points gives exactly the elements, provided the records were stored at
/// distinct, non-null pointers.
pub proof fn lemma_pq_writer_reads_back(w: PqWriter)
    requires
        w.wf(),
        w.spec_pending() is None,
        w.spec_remaining().len() == 0,
        w.spec_placed().no_duplicates(),
        forall|i: int| 0 <= i < w.spec_placed().len() ==> #[trigger] w.spec_placed()[i] != ItemPointer::spec_null(),
    ensures
        read_chain(w.spec_store(), w.spec_prev(), w.spec_placed().len()) == Some(w.spec_elements()),
{
    let e = w.spec_elements();
    let placed = w.spec_placed();
    let empty = Seq::<ItemPointer>::empty();
    assert(placed + empty =~= placed);
    assert(write_chain(e, ItemPointer::spec_null(), placed + empty)
        == store_after(w.spec_store(), write_chain(w.spec_remaining(), w.spec_prev(), empty)));
    assert(w.spec_store().union_prefer_right(Map::empty()) =~= w.spec_store());
    lemma_pq_vectors_read_back(e, placed);
}

/// What the reader of a product quantizer asks its caller to do next.
#[derive(Debug, Clone, Copy, PartialEq, Eq, Structural)]
pub enum PqReadStep {
    /// Read the vector record at this pointer and hand it to `PqReader::vector_read`.
    ReadVector(ItemPointer),
    /// The chain has ended.
    Done,
}

/// The elements read do not fit the shape of the definition record.
#[derive(Debug, Clone, Copy, PartialEq, Eq, Structural)]
pub enum QuantizerShapeError {
    /// The product of the nonzero axis lengths exceeds `isize::MAX`, or the
    /// number of elements differs from the product of the axis lengths.
    ShapeMismatch,
}

/// Collects the elements of a product quantizer by following the chain of
/// vector records from its definition record.
pub struct PqReader {
    dim_0: usize,
    dim_1: usize,
    dim_2: usize,
    result: Vec<u32>,
    next: ItemPointer,
    start: Ghost<ItemPointer>,
    fed: Ghost<Seq<(ItemPointer, StoredVector)>>,
}

/// `store` holds each record that was read, at the pointer it was read from.
pub open spec fn agrees_with(store: Map<ItemPointer, StoredVector>, fed: Seq<(ItemPointer, StoredVector)>) -> bool {
    forall|i: int|
        0 <= i < fed.len() ==> store.dom().contains(#[trigger] fed[i].0) && store[fed[i].0] == fed[i].1
}

/// `prefix` followed by what a read gave, if it gave anything.
pub open spec fn prepend(prefix: Seq<u32>, read: Option<Seq<u32>>) -> Option<Seq<u32>> {
    match read {
        Some(rest) => Some(prefix + rest),
        None => None,
    }
}

impl PqReader {
    /// The elements collected so far.
    pub closed spec fn spec_result(&self) -> Seq<u32> {
        self.result@
    }

    /// The record to read next, or the null pointer at the end of the chain.
    pub closed spec fn spec_next(&self) -> ItemPointer {
        self.next
    }

    /// The shape of the subquantizer array.
    pub closed spec fn spec_dims(&self) -> (usize, usize, usize) {
        (self.dim_0, self.dim_1, self.dim_2)
    }

    /// Where the chain began: the definition record's next pointer.
    pub closed spec fn spec_start(&self) -> ItemPointer {
        self.start@
    }

    /// The records read so far, with the pointers they were read from.
    pub closed spec fn spec_fed(&self) -> Seq<(ItemPointer, StoredVector)> {
        self.fed@
    }

    /// In any store that holds the records read so far, following the chain
    /// from the start gives the elements collected followed by what following
    /// it from the next record gives.
    pub closed spec fn wf(&self) -> bool {
        forall|store: Map<ItemPointer, StoredVector>, fuel: nat|
            #![trigger read_chain(store, self.next, fuel)]
            agrees_with(store, self.fed@) ==> read_chain(store, self.start@, self.fed@.len() + fuel)
                == prepend(self.result@, read_chain(store, self.next, fuel))
    }

    pub fn new(def: &PqQuantizerDef) -> (result: PqReader)
        ensures
            result.wf(),
            result.spec_result() == Seq::<u32>::empty(),
            result.spec_next() == def.next_vector_pointer,
            result.spec_start() == def.next_vector_pointer,
            result.spec_fed() == Seq::<(ItemPointer, StoredVector)>::empty(),
            result.spec_dims() == (def.dim_0, def.dim_1, def.dim_2),
    {
        let result = PqReader {
            dim_0: def.dim_0,
            dim_1: def.dim_1,
            dim_2: def.dim_2,
            result: Vec::new(),
            next: def.next_vector_pointer,
            start: Ghost(def.next_vector_pointer),
            fed: Ghost(Seq::empty()),
        };
        assert forall|store: Map<ItemPointer, StoredVector>, fuel: nat|
            #![trigger read_chain(store, result.next, fuel)]
            agrees_with(store, result.fed@) implies read_chain(store, result.start@, result.fed@.len() + fuel)
                == prepend(result.result@, read_chain(store, result.next, fuel)) by {
            match read_chain(store, result.next, fuel) {
                Some(rest) => {
                    assert(result.result@ + rest =~= rest);
                },
                None => {},
            }
        }
        result
    }

    /// The chain ends at the null pointer; any other pointer is the next record to read.
    pub fn next_step(&self) -> (step: PqReadStep)
        ensures
            step == (if self.spec_next() == ItemPointer::spec_null() {
                PqReadStep::Done
            } else {
                PqReadStep::ReadVector(self.spec_next())
            }),
    {
        if self.next.is_null() {
            PqReadStep::Done
        } else {
            PqReadStep::ReadVector(self.next)
        }
    }

    /// Appends the elements of the record read from the next pointer and moves
    /// on to the record it points at.
    pub fn vector_read(&mut self, record: PqQuantizerVector)
        ensures
            final(self).spec_result() == old(self).spec_result() + record.vec@,
            final(self).spec_next() == record.next_vector_pointer,
            final(self).spec_dims() == old(self).spec_dims(),
            final(self).spec_start() == old(self).spec_start(),
            final(self).spec_fed() == old(self).spec_fed().push(
                (old(self).spec_next(), (record.vec@, record.next_vector_pointer)),
            ),
            old(self).wf() && old(self).spec_next() != ItemPointer::spec_null() ==> final(self).wf(),
    {
        let ghost old_self = *self;
        let ghost stored: StoredVector = (record.vec@, record.next_vector_pointer);
        let mut vec = record.vec;
        self.result.append(&mut vec);
        self.next = record.next_vector_pointer;
        self.fed = Ghost(old_self.fed@.push((old_self.next, stored)));
        proof {
            if old_self.wf() && old_self.next != ItemPointer::spec_null() {
                assert forall|store: Map<ItemPointer, StoredVector>, fuel: nat|
                    #![trigger read_chain(store, self.next, fuel)]
                    agrees_with(store, self.fed@) implies read_chain(store, self.start@, self.fed@.len() + fuel)
                        == prepend(self.result@, read_chain(store, self.next, fuel)) by {
                    assert(agrees_with(store, old_self.fed@)) by {
                        assert forall|i: int| 0 <= i < old_self.fed@.len() implies store.dom().contains(
                            #[trigger] old_self.fed@[i].0,
                        ) && store[old_self.fed@[i].0] == old_self.fed@[i].1 by {
                            assert(self.fed@[i] == old_self.fed@[i]);
                        }
                    }
                    assert(self.fed@[old_self.fed@.len() as int] == (old_self.next, stored));
                    let k = old_self.fed@.len() as int;
                    assert(store.dom().contains(self.fed@[k].0) && store[self.fed@[k].0] == self.fed@[k].1);
                    assert(store.dom().contains(old_self.next) && store[old_self.next] == stored);
                    assert(read_chain(store, old_self.next, fuel + 1) == prepend(
                        stored.0,
                        read_chain(store, stored.1, fuel),
                    ));
                    assert(read_chain(store, old_self.start@, old_self.fed@.len() + (fuel + 1))
                        == prepend(old_self.result@, read_chain(store, old_self.next, fuel + 1)));
                    assert(old_self.fed@.len() + (fuel + 1) == self.fed@.len() + fuel);
                    match read_chain(store, self.next, fuel) {
                        Some(rest) => {
                            assert(old_self.result@ + (stored.0 + rest) =~= self.result@ + rest);
                        },
                        None => {},
                    }
                }
            }
        }
    }

    /// The collected elements as an array of the recorded shape.
    pub fn finish(self) -> (result: Result<QuantizerArray, QuantizerShapeError>)
        ensures
            result is Ok <==> ({
                let (d0, d1, d2) = self.spec_dims();
                nonzero_axes_product(d0, d1, d2) <= isize::MAX && d0 * d1 * d2 == self.spec_result().len()
            }),
            result matches Ok(a) ==> array3_elements(a) == self.spec_result() && array3_shape(a) == self.spec_dims(),
    {
        match array3_from_shape_vec(self.dim_0, self.dim_1, self.dim_2, self.result) {
            Ok(a) => Ok(a),
            Err(_) => Err(QuantizerShapeError::ShapeMismatch),
        }
    }
}

/// What the reader collects is the chain: once it has reached the null
/// pointer, in any store that holds the records it read at the pointers it read
/// them from, following the chain from where it started gives exactly the
/// elements it collected.
pub proof fn lemma_pq_reader_result(r: PqReader, store: Map<ItemPointer, StoredVector>)
    requires
        r.wf(),
        r.spec_next() == ItemPointer::spec_null(),
        agrees_with(store, r.spec_fed()),
    ensures
        read_chain(store, r.spec_start(), r.spec_fed().len()) == Some(r.spec_result()),
{
    assert(read_chain(store, r.spec_start(), r.spec_fed().len() + 0) == prepend(
        r.spec_result(),
        read_chain(store, r.spec_next(), 0),
    ));
    assert(r.spec_result() + Seq::<u32>::empty() =~= r.spec_result());
}

/// Reading back a written product quantizer: when a writer has finished, with
/// its vector records stored at distinct, non-null pointers, and a reader that
/// started where the writer's definition record points was handed, for each
/// pointer it asked for, the record stored there, then once the reader reaches
/// the end of the chain it holds exactly the elements that were written.
pub proof fn lemma_pq_round_trip(w: PqWriter, r: PqReader)
    requires
        w.wf(),
        w.spec_pending() is None,
        w.spec_remaining().len() == 0,
        w.spec_placed().no_duplicates(),
        forall|i: int| 0 <= i < w.spec_placed().len() ==> #[trigger] w.spec_placed()[i] != ItemPointer::spec_null(),
        r.wf(),
        r.spec_start() == w.spec_prev(),
        r.spec_next() == ItemPointer::spec_null(),
        agrees_with(w.spec_store(), r.spec_fed()),
    ensures
        r.spec_result() == w.spec_elements(),
{
    let store = w.spec_store();
    let start = w.spec_prev();
    let n_w = w.spec_placed().len();
    let n_r = r.spec_fed().len();
    lemma_pq_writer_reads_back(w);
    lemma_pq_reader_result(r, store);
    if n_w <= n_r {
        lemma_read_chain_more_fuel(store, start, n_w, n_r);
    } else {
        lemma_read_chain_more_fuel(store, start, n_r, n_w);
    }
}

} // verus!
