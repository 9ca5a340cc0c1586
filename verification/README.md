# voxt

A voxel world engine's core, verified with Verus: positions on the world,
chunk and voxel grids and the conversions between them, space-filling curves
over a chunk, block ids and versions, chunk storage (a plain per-voxel layout
and a paletted, bit-packed one), the set of resident chunks, the world that
answers block reads and writes, and the scheduler that decides which chunk
work to do next.

- `src/` is the verified library. Each public function states its result in
  its contract; the laws that span several functions are public proof
  functions beside the functions they speak of.
- `tests/` exercise the library on concrete values.
- `app/` holds what the library leaves to its host: the worker threads, the
  floating-point views of positions inside a voxel, and the text forms of
  values.
