# timescale_vector

The storage model of a graph-based vector index, verified with Verus.

- `src/item_pointer.rs` — item pointers and the page constants they rely on.
- `src/node.rs` — graph nodes and their fixed array of neighbor slots: counting,
  visiting, replacing the neighbors, and marking a node deleted. Building a new
  node is not supported (it panics after preparing the slots), so it is
  `new_node` in `app/`, not a verified function.
- `src/neighbor.rs` — a neighbor with its distance; distances are `f32` values
  held by their bit patterns, compared as `f32::partial_cmp` and
  `f32::total_cmp` compare them.
- `src/pq.rs` — how a product quantizer is cut into page-sized records and read
  back, as two step-by-step machines (writer and reader) whose caller does the
  page I/O; the proof that reading gives back what was written.
- `src/shape.rs` — the call into `ndarray` that shapes the elements read.
- `src/storage_common.rs` — the state of a full-precision distance measure.
- `app/` — the code around the library: rkyv records, page access, and the
  floating-point distance computations.
- `tests/` — tests of the library on concrete values.
