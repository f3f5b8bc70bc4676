use vstd::prelude::*;
use crate::item_pointer::{
    ArchivedItemPointer, HeapPointer, ItemPointer, INVALID_BLOCK_NUMBER, INVALID_OFFSET_NUMBER,
};
use crate::neighbor::NeighborWithDistance;

verus! {

/// A node of the graph as it is built before being written to a page.
/// The full vector is held by the bit patterns of its `f32` elements.
pub struct Node {
    pub vector: Vec<u32>,
    pub pq_vector: Vec<u8>,
    pub neighbor_index_pointers: Vec<ItemPointer>,
    pub heap_item_pointer: HeapPointer,
}

/// A node as it lies in a page: the neighbor list is a fixed array of slots whose
/// used part ends at the first slot with an invalid block number.
pub struct ArchivedNode {
    pub vector: Vec<u32>,
    pub pq_vector: Vec<u8>,
    pub neighbor_index_pointers: Vec<ArchivedItemPointer>,
    pub heap_item_pointer: ItemPointer,
}

/// A slot that holds a neighbor: its block number is valid.
pub open spec fn is_used_slot(slot: ItemPointer) -> bool {
    slot.block_number != INVALID_BLOCK_NUMBER
}

/// The number of leading slots that hold a neighbor.
pub open spec fn neighbor_count(slots: Seq<ItemPointer>) -> nat
    decreases slots.len(),
{
    if slots.len() == 0 {
        0
    } else if !is_used_slot(slots[0]) {
        0
    } else {
        1 + neighbor_count(slots.drop_first())
    }
}

/// `n` is the position of the first unused slot, or the number of slots if all are used.
pub open spec fn is_first_unused(slots: Seq<ItemPointer>, n: int) -> bool {
    &&& 0 <= n <= slots.len()
    &&& forall|i: int| 0 <= i < n ==> is_used_slot(#[trigger] slots[i])
    &&& n < slots.len() ==> !is_used_slot(slots[n])
}

/// The neighbors of a node: the used prefix of its slots.
pub open spec fn neighbor_list(slots: Seq<ItemPointer>) -> Seq<ItemPointer> {
    slots.take(neighbor_count(slots) as int)
}

/// The item pointers of a list of neighbors, in order.
pub open spec fn pointers_of(neighbors: Seq<NeighborWithDistance>) -> Seq<ItemPointer> {
    neighbors.map_values(|nb: NeighborWithDistance| nb.spec_index_pointer())
}

/// The slots after the first `ptrs.len()` have been overwritten by `ptrs` and,
/// when fewer than `num_neighbors` were written, the slot just after them
/// marked unused.
pub open spec fn written_slots(slots: Seq<ItemPointer>, ptrs: Seq<ItemPointer>, num_neighbors: int) -> Seq<ItemPointer> {
    Seq::new(
        slots.len(),
        |i: int|
            if i < ptrs.len() {
                ptrs[i]
            } else if i == ptrs.len() && ptrs.len() < num_neighbors {
                ItemPointer::spec_invalid()
            } else {
                slots[i]
            },
    )
}

/// The count of leading used slots is the position of the first unused one.
pub proof fn lemma_neighbor_count_is_first_unused(slots: Seq<ItemPointer>, n: int)
    requires
        is_first_unused(slots, n),
    ensures
        neighbor_count(slots) == n,
    decreases slots.len(),
{
    if slots.len() > 0 && n > 0 {
        let rest = slots.drop_first();
        assert(is_first_unused(rest, n - 1)) by {
            assert forall|i: int| 0 <= i < n - 1 implies is_used_slot(#[trigger] rest[i]) by {
                assert(rest[i] == slots[i + 1]);
            }
            if n - 1 < rest.len() {
                assert(rest[n - 1] == slots[n]);
            }
        }
        lemma_neighbor_count_is_first_unused(rest, n - 1);
    }
}

/// Reading back written neighbors: after `set_neighbors` writes the pointers
/// `ptrs`, none of them with an invalid block number, into a node whose slots
/// they fit, the node's neighbors are exactly `ptrs`, in order, provided the end
/// of the list was marked (fewer than `num_neighbors` were written), or the list
/// fills every slot, or the slot just after it was already unused.
pub proof fn lemma_set_neighbors_read_back(slots: Seq<ItemPointer>, ptrs: Seq<ItemPointer>, num_neighbors: int)
    requires
        ptrs.len() <= slots.len(),
        ptrs.len() < num_neighbors ==> ptrs.len() < slots.len(),
        ptrs.len() < num_neighbors || ptrs.len() == slots.len() || !is_used_slot(slots[ptrs.len() as int]),
        forall|i: int| 0 <= i < ptrs.len() ==> is_used_slot(#[trigger] ptrs[i]),
    ensures
        neighbor_count(written_slots(slots, ptrs, num_neighbors)) == ptrs.len(),
        neighbor_list(written_slots(slots, ptrs, num_neighbors)) == ptrs,
{
    let w = written_slots(slots, ptrs, num_neighbors);
    assert forall|i: int| 0 <= i < ptrs.len() implies is_used_slot(#[trigger] w[i]) by {
        assert(w[i] == ptrs[i]);
    }
    if ptrs.len() < slots.len() {
        assert(w[ptrs.len() as int] == (if ptrs.len() < num_neighbors {
            ItemPointer::spec_invalid()
        } else {
            slots[ptrs.len() as int]
        }));
    }
    lemma_neighbor_count_is_first_unused(w, ptrs.len() as int);
    assert(w.take(ptrs.len() as int) =~= ptrs);
}

/// A slot holds a neighbor exactly when its block number is not the invalid
/// block number `0xFFFF_FFFF`; no other block number or offset matters.
pub proof fn lemma_used_slot_is_valid_block(slot: ItemPointer)
    ensures
        is_used_slot(slot) <==> slot.block_number != 0xFFFF_FFFFu32,
        INVALID_BLOCK_NUMBER == 0xFFFF_FFFFu32,
{
}

/// The neighbor count is the length of the longest prefix of slots whose block
/// numbers are all different from `0xFFFF_FFFF`.
pub proof fn lemma_neighbor_count_is_valid_prefix(slots: Seq<ItemPointer>)
    ensures
        neighbor_count(slots) <= slots.len(),
        forall|i: int| 0 <= i < neighbor_count(slots) ==> (#[trigger] slots[i]).block_number != 0xFFFF_FFFFu32,
        neighbor_count(slots) < slots.len() ==> slots[neighbor_count(slots) as int].block_number == 0xFFFF_FFFFu32,
    decreases slots.len(),
{
    if slots.len() > 0 && is_used_slot(slots[0]) {
        let rest = slots.drop_first();
        lemma_neighbor_count_is_valid_prefix(rest);
        assert forall|i: int| 0 <= i < neighbor_count(slots) implies (#[trigger] slots[i]).block_number != 0xFFFF_FFFFu32 by {
            if i > 0 {
                assert(slots[i] == rest[i - 1]);
            }
        }
        if neighbor_count(slots) < slots.len() {
            assert(slots[neighbor_count(slots) as int] == rest[neighbor_count(rest) as int]);
        }
    }
}

/// The pointers of a list of neighbors are the neighbors' own item pointers,
/// block number and offset, one for one and in order.
pub proof fn lemma_pointers_of_neighbors(neighbors: Seq<NeighborWithDistance>)
    ensures
        pointers_of(neighbors).len() == neighbors.len(),
        forall|i: int|
            0 <= i < neighbors.len() ==> (#[trigger] pointers_of(neighbors)[i]).block_number
                == neighbors[i].spec_index_pointer().block_number && pointers_of(neighbors)[i].offset
                == neighbors[i].spec_index_pointer().offset,
{
}

/// A node is deleted exactly when the offset of its heap pointer is zero (the
/// invalid offset); its block number plays no part: two nodes whose heap
/// pointers share the offset are both deleted or both live.
pub proof fn lemma_deleted_means_zero_offset(node: ArchivedNode, other: ArchivedNode)
    ensures
        node.spec_is_deleted() <==> node.heap_item_pointer.offset == 0u16,
        other.heap_item_pointer.offset == node.heap_item_pointer.offset ==> other.spec_is_deleted()
            == node.spec_is_deleted(),
{
}

/// One change that `set_neighbors`, a write through `neighbor_index_pointer`
/// or `pq_vectors`, or `delete` makes to a node: the heap pointer is kept, or
/// replaced by the invalid pointer.
pub open spec fn keeps_or_deletes_heap_pointer(before: ArchivedNode, after: ArchivedNode) -> bool {
    after.heap_item_pointer == before.heap_item_pointer || after.heap_item_pointer == ItemPointer::spec_invalid()
}

/// A deleted node stays deleted: along any sequence of nodes, each obtained
/// from the one before by `set_neighbors`, in-place writes to its neighbor
/// slots or quantized vector, or `delete`, every node after a deleted one is
/// deleted.
pub proof fn lemma_deleted_stays_deleted(nodes: Seq<ArchivedNode>)
    requires
        nodes.len() > 0,
        nodes[0].spec_is_deleted(),
        forall|i: int| 0 <= i < nodes.len() - 1 ==> keeps_or_deletes_heap_pointer(#[trigger] nodes[i], nodes[i + 1]),
    ensures
        forall|i: int| 0 <= i < nodes.len() ==> (#[trigger] nodes[i]).spec_is_deleted(),
    decreases nodes.len(),
{
    if nodes.len() > 1 {
        let front = nodes.drop_last();
        assert forall|i: int| 0 <= i < front.len() - 1 implies keeps_or_deletes_heap_pointer(#[trigger] front[i], front[i + 1]) by {
            assert(front[i] == nodes[i] && front[i + 1] == nodes[i + 1]);
        }
        lemma_deleted_stays_deleted(front);
        assert forall|i: int| 0 <= i < nodes.len() implies (#[trigger] nodes[i]).spec_is_deleted() by {
            if i < nodes.len() - 1 {
                assert(front[i] == nodes[i]);
            } else {
                assert(front[i - 1] == nodes[i - 1]);
                assert(keeps_or_deletes_heap_pointer(nodes[i - 1], nodes[i]));
            }
        }
    }
}

impl ArchivedNode {
    /// The node's heap tuple was deleted: its heap pointer has the invalid offset.
    pub open spec fn spec_is_deleted(&self) -> bool {
        self.heap_item_pointer.offset == INVALID_OFFSET_NUMBER
    }

    pub fn is_deleted(&self) -> (result: bool)
        ensures
            result == self.spec_is_deleted(),
            result == (self.heap_item_pointer.offset == 0u16),
    {
        self.heap_item_pointer.offset == INVALID_OFFSET_NUMBER
    }

    /// Marks the node deleted by invalidating its heap pointer.
    pub fn delete(&mut self)
        ensures
            final(self).heap_item_pointer == ItemPointer::spec_invalid(),
            final(self).spec_is_deleted(),
            final(self).vector == old(self).vector,
            final(self).pq_vector == old(self).pq_vector,
            final(self).neighbor_index_pointers == old(self).neighbor_index_pointers,
    {
        self.heap_item_pointer.offset = INVALID_OFFSET_NUMBER;
        self.heap_item_pointer.block_number = INVALID_BLOCK_NUMBER;
    }

    /// The neighbor slots, for writing in place (their number is fixed).
    pub fn neighbor_index_pointer(&mut self) -> (result: &mut [ArchivedItemPointer])
        ensures
            result@ == old(self).neighbor_index_pointers@,
            final(self).neighbor_index_pointers@ == final(result)@,
            final(self).vector == old(self).vector,
            final(self).pq_vector == old(self).pq_vector,
            final(self).heap_item_pointer == old(self).heap_item_pointer,
    {
        self.neighbor_index_pointers.as_mut_slice()
    }

    /// The quantized vector, for writing in place (its length is fixed).
    pub fn pq_vectors(&mut self) -> (result: &mut [u8])
        ensures
            result@ == old(self).pq_vector@,
            final(self).pq_vector@ == final(result)@,
            final(self).vector == old(self).vector,
            final(self).neighbor_index_pointers == old(self).neighbor_index_pointers,
            final(self).heap_item_pointer == old(self).heap_item_pointer,
    {
        self.pq_vector.as_mut_slice()
    }

    /// The number of neighbors: the position of the first slot with an invalid
    /// block number, or the number of slots when every slot is used.
    pub fn num_neighbors(&self) -> (result: usize)
        ensures
            result == neighbor_count(self.neighbor_index_pointers@),
            is_first_unused(self.neighbor_index_pointers@, result as int),
            result <= self.neighbor_index_pointers@.len(),
            forall|i: int| 0 <= i < result ==> (#[trigger] self.neighbor_index_pointers@[i]).block_number != 0xFFFF_FFFFu32,
            result < self.neighbor_index_pointers@.len() ==> self.neighbor_index_pointers@[result as int].block_number
                == 0xFFFF_FFFFu32,
    {
        let slots = &self.neighbor_index_pointers;
        let mut i: usize = 0;
        while i < slots.len()
            invariant
                slots@ == self.neighbor_index_pointers@,
                i <= slots@.len(),
                forall|j: int| 0 <= j < i ==> is_used_slot(#[trigger] slots@[j]),
            decreases slots@.len() - i,
        {
            if slots[i].block_number == INVALID_BLOCK_NUMBER {
                proof {
                    lemma_neighbor_count_is_first_unused(slots@, i as int);
                }
                return i;
            }
            i = i + 1;
        }
        proof {
            lemma_neighbor_count_is_first_unused(slots@, i as int);
        }
        i
    }

    /// Applies `f` to each neighbor in order and collects what it returns.
    pub fn apply_to_neighbors<R, F: Fn(&ArchivedItemPointer) -> R>(&self, f: F) -> (result: Vec<R>)
        requires
            forall|i: int|
                0 <= i < neighbor_count(self.neighbor_index_pointers@) ==> call_requires(
                    f,
                    (&#[trigger] self.neighbor_index_pointers@[i],),
                ),
        ensures
            result@.len() == neighbor_count(self.neighbor_index_pointers@),
            forall|i: int|
                0 <= i < result@.len() ==> call_ensures(
                    f,
                    (&self.neighbor_index_pointers@[i],),
                    #[trigger] result@[i],
                ),
    {
        let n = self.num_neighbors();
        let mut result: Vec<R> = Vec::new();
        let mut i: usize = 0;
        while i < n
            invariant
                n == neighbor_count(self.neighbor_index_pointers@),
                n <= self.neighbor_index_pointers@.len(),
                i <= n,
                result@.len() == i,
                forall|j: int|
                    0 <= j < n ==> call_requires(f, (&#[trigger] self.neighbor_index_pointers@[j],)),
                forall|j: int|
                    0 <= j < i ==> call_ensures(
                        f,
                        (&self.neighbor_index_pointers@[j],),
                        #[trigger] result@[j],
                    ),
            decreases n - i,
        {
            let r = f(&self.neighbor_index_pointers[i]);
            result.push(r);
            i = i + 1;
        }
        result
    }

    /// Writes the neighbors' pointers into the leading slots and, when there are
    /// fewer than `num_neighbors` of them, marks the next slot as the end of the list.
    /// `num_neighbors` is the number of neighbors per node of the index.
    pub fn set_neighbors(&mut self, neighbors: &Vec<NeighborWithDistance>, num_neighbors: u32)
        requires
            neighbors@.len() <= old(self).neighbor_index_pointers@.len(),
            neighbors@.len() < num_neighbors ==> neighbors@.len() < old(self).neighbor_index_pointers@.len(),
        ensures
            final(self).neighbor_index_pointers@ == written_slots(
                old(self).neighbor_index_pointers@,
                pointers_of(neighbors@),
                num_neighbors as int,
            ),
            final(self).neighbor_index_pointers@.len() == old(self).neighbor_index_pointers@.len(),
            forall|i: int|
                0 <= i < neighbors@.len() ==> final(self).neighbor_index_pointers@[i]
                    == (#[trigger] neighbors@[i]).spec_index_pointer(),
            neighbors@.len() < num_neighbors ==> final(self).neighbor_index_pointers@[neighbors@.len() as int]
                == (ItemPointer { block_number: 0xFFFF_FFFFu32, offset: 0u16 }),
            forall|i: int|
                neighbors@.len() < i < old(self).neighbor_index_pointers@.len()
                    || (i == neighbors@.len() && neighbors@.len() >= num_neighbors && i < old(
                    self,
                ).neighbor_index_pointers@.len()) ==> final(self).neighbor_index_pointers@[i]
                    == #[trigger] old(self).neighbor_index_pointers@[i],
            final(self).vector == old(self).vector,
            final(self).pq_vector == old(self).pq_vector,
            final(self).heap_item_pointer == old(self).heap_item_pointer,
    {
        let ghost old_slots = self.neighbor_index_pointers@;
        let ghost ptrs = pointers_of(neighbors@);
        let n = neighbors.len();
        let mut i: usize = 0;
        while i < n
            invariant
                n == neighbors@.len(),
                ptrs == pointers_of(neighbors@),
                n <= old_slots.len(),
                i <= n,
                self.neighbor_index_pointers@.len() == old_slots.len(),
                forall|j: int| 0 <= j < i ==> self.neighbor_index_pointers@[j] == #[trigger] ptrs[j],
                forall|j: int| i <= j < old_slots.len() ==> self.neighbor_index_pointers@[j] == #[trigger] old_slots[j],
                self.vector == old(self).vector,
                self.pq_vector == old(self).pq_vector,
                self.heap_item_pointer == old(self).heap_item_pointer,
            decreases n - i,
        {
            let p = neighbors[i].get_index_pointer_to_neighbor();
            self.neighbor_index_pointers.set(i, p);
            i = i + 1;
        }
        if n < num_neighbors as usize {
            self.neighbor_index_pointers.set(n, ItemPointer::invalid());
        }
        assert(self.neighbor_index_pointers@ =~= written_slots(old_slots, ptrs, num_neighbors as int));
    }
}

} // verus!
