use std::collections::HashMap;
use std::hash::{Hash, Hasher};

use timescale_vector::item_pointer::{ItemPointer, BLCKSZ, INVALID_BLOCK_NUMBER, INVALID_OFFSET_NUMBER};
use timescale_vector::neighbor::NeighborWithDistance;
use timescale_vector::node::ArchivedNode;
use timescale_vector::pq::{
    PqQuantizerDef, PqQuantizerVector, PqReadStep, PqReader, PqWriteStep, PqWriter, QuantizerShapeError,
    ELEMENT_SIZE, ITEM_POINTER_SIZE,
};
use timescale_vector::storage_common::HeapFullDistanceMeasure;

fn ip(block_number: u32, offset: u16) -> ItemPointer {
    ItemPointer::new(block_number, offset)
}

fn archived(slots: Vec<ItemPointer>) -> ArchivedNode {
    ArchivedNode {
        vector: vec![1.5f32.to_bits(), 2.5f32.to_bits()],
        pq_vector: vec![7, 8],
        neighbor_index_pointers: slots,
        heap_item_pointer: ip(10, 3),
    }
}

fn neighbor(block_number: u32, distance: f32) -> NeighborWithDistance {
    assert!(!distance.is_nan() && distance >= 0.0);
    NeighborWithDistance::new(ip(block_number, 1), distance.to_bits())
}

#[test]
fn item_pointer_constructors() {
    let p = ItemPointer::new(4, 9);
    assert_eq!(p.block_number, 4);
    assert_eq!(p.offset, 9);
    let inv = ItemPointer::invalid();
    assert_eq!(inv.block_number, INVALID_BLOCK_NUMBER);
    assert_eq!(inv.offset, INVALID_OFFSET_NUMBER);
    assert_eq!(inv.block_number, u32::MAX);
    assert_eq!(inv.offset, 0);
    assert!(ItemPointer::null().is_null());
    assert!(!ip(0, 1).is_null());
    assert!(!ip(1, 0).is_null());
    assert_eq!(BLCKSZ, 8192);
}

#[test]
fn num_neighbors_stops_at_first_invalid_block() {
    let a = archived(vec![ip(1, 1), ip(2, 2), ItemPointer::invalid(), ip(3, 3)]);
    assert_eq!(a.num_neighbors(), 2);
    // An invalid offset alone does not end the list; the block number does.
    let b = archived(vec![ip(1, 0), ip(INVALID_BLOCK_NUMBER, 5)]);
    assert_eq!(b.num_neighbors(), 1);
    let full = archived(vec![ip(1, 1), ip(2, 2)]);
    assert_eq!(full.num_neighbors(), 2);
    let none = archived(Vec::new());
    assert_eq!(none.num_neighbors(), 0);
}

#[test]
fn apply_to_neighbors_visits_the_used_slots_in_order() {
    let a = archived(vec![ip(5, 1), ip(6, 2), ItemPointer::invalid(), ip(7, 3)]);
    let seen = a.apply_to_neighbors(|p: &ItemPointer| *p);
    assert_eq!(seen, vec![ip(5, 1), ip(6, 2)]);
    let blocks = a.apply_to_neighbors(|p: &ItemPointer| p.block_number);
    assert_eq!(blocks, vec![5, 6]);
}

#[test]
fn set_neighbors_marks_end_of_short_list() {
    let mut a = archived(vec![ip(1, 1), ip(2, 2), ip(3, 3), ip(4, 4)]);
    let ns = vec![neighbor(20, 1.0), neighbor(21, 2.0)];
    a.set_neighbors(&ns, 4);
    assert_eq!(a.neighbor_index_pointers, vec![ip(20, 1), ip(21, 1), ItemPointer::invalid(), ip(4, 4)]);
    assert_eq!(a.num_neighbors(), 2);
    assert_eq!(a.apply_to_neighbors(|p: &ItemPointer| *p), vec![ip(20, 1), ip(21, 1)]);
    assert_eq!(a.heap_item_pointer, ip(10, 3));
    assert_eq!(a.pq_vector, vec![7, 8]);
}

#[test]
fn set_neighbors_filling_every_slot_writes_no_marker() {
    let mut a = archived(vec![ItemPointer::invalid(); 3]);
    assert_eq!(a.num_neighbors(), 0);
    let ns = vec![neighbor(1, 0.5), neighbor(2, 0.25), neighbor(3, 0.125)];
    a.set_neighbors(&ns, 3);
    assert_eq!(a.neighbor_index_pointers, vec![ip(1, 1), ip(2, 1), ip(3, 1)]);
    assert_eq!(a.num_neighbors(), 3);
}

#[test]
fn set_neighbors_with_no_neighbors_empties_the_list() {
    let mut a = archived(vec![ip(1, 1), ip(2, 2)]);
    a.set_neighbors(&Vec::new(), 2);
    assert_eq!(a.neighbor_index_pointers, vec![ItemPointer::invalid(), ip(2, 2)]);
    assert_eq!(a.num_neighbors(), 0);
}

#[test]
fn set_neighbors_at_the_index_limit_leaves_later_slots() {
    // With as many neighbors as the index allows, no marker is written, so a
    // used slot after them stays part of the list.
    let mut a = archived(vec![ip(1, 1), ip(2, 2), ip(3, 3)]);
    a.set_neighbors(&vec![neighbor(9, 1.0)], 1);
    assert_eq!(a.neighbor_index_pointers, vec![ip(9, 1), ip(2, 2), ip(3, 3)]);
    assert_eq!(a.num_neighbors(), 3);
}

#[test]
fn delete_marks_node_deleted() {
    let mut a = archived(vec![ip(1, 1)]);
    assert!(!a.is_deleted());
    a.delete();
    assert!(a.is_deleted());
    assert_eq!(a.heap_item_pointer, ItemPointer::invalid());
    assert_eq!(a.neighbor_index_pointers, vec![ip(1, 1)]);
    a.delete();
    assert!(a.is_deleted());
    let zero_offset = ArchivedNode { heap_item_pointer: ip(4, 0), ..archived(Vec::new()) };
    assert!(zero_offset.is_deleted());
}

#[test]
fn in_place_access_to_slots_and_quantized_vector() {
    let mut a = archived(vec![ip(1, 1), ip(2, 2)]);
    a.neighbor_index_pointer()[1] = ItemPointer::invalid();
    assert_eq!(a.num_neighbors(), 1);
    a.pq_vectors()[0] = 42;
    assert_eq!(a.pq_vector, vec![42, 8]);
    assert_eq!(a.heap_item_pointer, ip(10, 3));
}

#[test]
fn neighbor_accessors() {
    let n = neighbor(3, 0.75);
    assert_eq!(n.get_index_pointer_to_neighbor(), ip(3, 1));
    assert_eq!(f32::from_bits(n.get_distance()), 0.75);
    let z = neighbor(4, -0.0);
    assert_eq!(z.get_distance(), (-0.0f32).to_bits());
    let inf = neighbor(5, f32::INFINITY);
    assert_eq!(f32::from_bits(inf.get_distance()), f32::INFINITY);
}

#[test]
fn neighbors_are_equal_by_pointer() {
    assert!(neighbor(3, 1.0) == neighbor(3, 9.0));
    assert!(neighbor(3, 1.0) != neighbor(4, 1.0));
    let n = neighbor(8, 2.0);
    assert!(n == n);
}

#[test]
fn neighbor_hash_follows_pointer() {
    fn h<T: Hash>(t: &T) -> u64 {
        let mut s = std::collections::hash_map::DefaultHasher::new();
        t.hash(&mut s);
        s.finish()
    }
    assert_eq!(h(&neighbor(3, 1.0)), h(&neighbor(3, 5.0)));
    assert_eq!(h(&neighbor(3, 1.0)), h(&ip(3, 1)));
    let mut set = std::collections::HashSet::new();
    set.insert(neighbor(3, 1.0));
    assert!(set.contains(&neighbor(3, 2.0)));
    assert!(!set.contains(&neighbor(4, 1.0)));
}

#[test]
fn neighbor_orders_match_f32() {
    let values = [
        0.0f32, -0.0, 1e-45, 1e-38, 0.5, 1.0, 1.0000001, 2.0, 3.5, 1e10, f32::MAX, f32::INFINITY,
    ];
    for (i, &x) in values.iter().enumerate() {
        for (j, &y) in values.iter().enumerate() {
            let a = neighbor(i as u32, x);
            let b = neighbor(j as u32, y);
            assert_eq!(a.cmp(&b), x.total_cmp(&y), "{} {}", x, y);
            assert_eq!(a.partial_cmp(&b), x.partial_cmp(&y), "{} {}", x, y);
            assert_eq!(a < b, x < y);
            assert_eq!(a <= b, x <= y);
        }
    }
}

#[test]
fn neighbor_zero_distances() {
    let neg = neighbor(1, -0.0);
    let pos = neighbor(2, 0.0);
    assert_eq!(neg.partial_cmp(&pos), Some(std::cmp::Ordering::Equal));
    assert_eq!(neg.cmp(&pos), std::cmp::Ordering::Less);
    assert_eq!(pos.cmp(&neg), std::cmp::Ordering::Greater);
}

#[test]
fn sorting_neighbors_by_distance() {
    let mut ns = vec![neighbor(1, 3.0), neighbor(2, 0.5), neighbor(3, 2.0), neighbor(4, 0.0)];
    ns.sort_by(|a, b| a.cmp(b));
    let order: Vec<u32> = ns.iter().map(|n| n.get_index_pointer_to_neighbor().block_number).collect();
    assert_eq!(order, vec![4, 2, 3, 1]);
}

#[test]
fn record_sizes_match_the_types() {
    assert_eq!(std::mem::size_of::<ItemPointer>(), ITEM_POINTER_SIZE);
    assert_eq!(std::mem::size_of::<f32>(), ELEMENT_SIZE);
    assert_eq!(BLCKSZ as usize / ELEMENT_SIZE - ITEM_POINTER_SIZE - 64, 1976);
}

#[test]
fn quantizer_def_new_has_null_next() {
    let d = PqQuantizerDef::new(2, 3, 4, 24);
    assert_eq!((d.dim_0, d.dim_1, d.dim_2, d.vec_len), (2, 3, 4, 24));
    assert!(d.next_vector_pointer.is_null());
}

/// Runs the writer, storing each record at a fresh pointer, and returns the
/// stored vector records, the definition record and the sizes of the records
/// in the order written.
fn write_all(dims: (usize, usize, usize), v: Vec<u32>) -> (HashMap<ItemPointer, PqQuantizerVector>, PqQuantizerDef, Vec<usize>) {
    let mut store = HashMap::new();
    let mut sizes = Vec::new();
    let mut w = PqWriter::new(dims.0, dims.1, dims.2, v);
    let mut block = 100u32;
    loop {
        match w.next_step() {
            PqWriteStep::WriteVector(record) => {
                let at = ip(block, 1);
                block += 1;
                sizes.push(record.vec.len());
                assert!(!store.contains_key(&at));
                store.insert(at, record);
                w.vector_written(at);
            }
            PqWriteStep::WriteDef(def) => return (store, def, sizes),
        }
    }
}

fn read_all(store: &HashMap<ItemPointer, PqQuantizerVector>, def: &PqQuantizerDef) -> (PqReader, usize) {
    let mut r = PqReader::new(def);
    let mut reads = 0;
    loop {
        match r.next_step() {
            PqReadStep::ReadVector(at) => {
                let rec = &store[&at];
                reads += 1;
                r.vector_read(PqQuantizerVector { vec: rec.vec.clone(), next_vector_pointer: rec.next_vector_pointer });
            }
            PqReadStep::Done => return (r, reads),
        }
    }
}

#[test]
fn pq_write_then_read_round_trip() {
    let v: Vec<u32> = (0..5000u32).map(|i| (i as f32 * 0.5).to_bits()).collect();
    let (store, def, sizes) = write_all((10, 20, 25), v.clone());
    // Records are cut from the back, 1976 elements each.
    assert_eq!(sizes, vec![1976, 1976, 1048]);
    assert_eq!(def.vec_len, 5000);
    assert_eq!(def.next_vector_pointer, ip(102, 1));
    assert_eq!(store[&ip(100, 1)].vec, v[3024..].to_vec());
    assert!(store[&ip(100, 1)].next_vector_pointer.is_null());
    assert_eq!(store[&ip(101, 1)].next_vector_pointer, ip(100, 1));
    let (r, reads) = read_all(&store, &def);
    assert_eq!(reads, 3);
    let arr = r.finish().unwrap().0;
    assert_eq!(arr.dim(), (10, 20, 25));
    assert_eq!(arr.iter().copied().collect::<Vec<u32>>(), v);
    assert_eq!(f32::from_bits(arr[[0, 0, 3]]), 1.5);
}

#[test]
fn pq_small_and_exact_multiple() {
    let v: Vec<u32> = (0..1976u32).collect();
    let (store, def, sizes) = write_all((1976, 1, 1), v.clone());
    assert_eq!(sizes, vec![1976]);
    let (r, _) = read_all(&store, &def);
    assert_eq!(r.finish().unwrap().0.iter().copied().collect::<Vec<u32>>(), v);

    let v: Vec<u32> = (0..1977u32).collect();
    let (_, _, sizes) = write_all((1977, 1, 1), v);
    assert_eq!(sizes, vec![1976, 1]);
}

#[test]
fn pq_empty_quantizer() {
    let (store, def, sizes) = write_all((0, 4, 4), Vec::new());
    assert!(sizes.is_empty());
    assert!(store.is_empty());
    assert!(def.next_vector_pointer.is_null());
    let (r, reads) = read_all(&store, &def);
    assert_eq!(reads, 0);
    let arr = r.finish().unwrap().0;
    assert_eq!(arr.dim(), (0, 4, 4));
}

#[test]
fn pq_shape_mismatch_is_an_error() {
    let def = PqQuantizerDef { dim_0: 2, dim_1: 2, dim_2: 2, vec_len: 3, next_vector_pointer: ip(1, 1) };
    let mut r = PqReader::new(&def);
    assert_eq!(r.next_step(), PqReadStep::ReadVector(ip(1, 1)));
    r.vector_read(PqQuantizerVector { vec: vec![1, 2, 3], next_vector_pointer: ItemPointer::null() });
    assert_eq!(r.next_step(), PqReadStep::Done);
    assert_eq!(r.finish().err(), Some(QuantizerShapeError::ShapeMismatch));
}

#[test]
fn pq_shape_overflow_is_an_error() {
    let def = PqQuantizerDef { dim_0: 0, dim_1: usize::MAX, dim_2: 2, vec_len: 0, next_vector_pointer: ItemPointer::null() };
    let r = PqReader::new(&def);
    assert_eq!(r.finish().err(), Some(QuantizerShapeError::ShapeMismatch));
}

#[test]
fn heap_distance_measure_keeps_slot_and_storage() {
    let storage = String::from("heap");
    let m = HeapFullDistanceMeasure::new(&storage, vec![1.0f32.to_bits()]);
    assert_eq!(m.table_slot(), &vec![1.0f32.to_bits()]);
    assert_eq!(m.storage(), "heap");
}

#[test]
fn deleted_node_stays_deleted_after_later_writes() {
    let mut a = archived(vec![ip(1, 1), ip(2, 2), ip(3, 3)]);
    a.delete();
    a.set_neighbors(&vec![neighbor(7, 1.0)], 3);
    assert!(a.is_deleted());
    a.neighbor_index_pointer()[2] = ip(8, 8);
    a.pq_vectors()[1] = 9;
    assert!(a.is_deleted());
    a.delete();
    assert!(a.is_deleted());
}

#[test]
fn pq_writer_links_each_record_to_the_one_before() {
    let v: Vec<u32> = (0..4000u32).collect();
    let (store, def, _) = write_all((4000, 1, 1), v);
    assert_eq!(store.len(), 3);
    assert!(store[&ip(100, 1)].next_vector_pointer.is_null());
    assert_eq!(store[&ip(101, 1)].next_vector_pointer, ip(100, 1));
    assert_eq!(store[&ip(102, 1)].next_vector_pointer, ip(101, 1));
    assert_eq!(def.next_vector_pointer, ip(102, 1));
}

#[test]
fn set_neighbors_at_the_index_limit_before_an_unused_slot() {
    // No marker is written, but the slot after the list was already unused.
    let mut a = archived(vec![ip(1, 1), ItemPointer::invalid(), ip(3, 3)]);
    a.set_neighbors(&vec![neighbor(9, 1.0)], 1);
    assert_eq!(a.num_neighbors(), 1);
    assert_eq!(a.apply_to_neighbors(|p: &ItemPointer| *p), vec![ip(9, 1)]);
}
