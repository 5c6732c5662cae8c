# h5rio

A small library for writing and reading HDF5 datasets: appendable tables of
typed records, appendable arrays of fixed-shape entries, fixed-size chunked
arrays, and readers that load a whole dataset or walk it row by row or entry
by entry.

The crate is a Verus project. `src/` is the verified core: it validates every
request, buffers appended entries, decides when a full chunk is due, lays out
the datasets, plans the resize and the hyperslab that receive buffered
entries, and plans each step of the readers. Its contracts state these
decisions exactly, and `src/model.rs` proves the round trip: once a writer's
buffer is stored, the dataset read back entry by entry gives the entries in
the order they were written.

`app/` holds the file side: the `hdf5_metno` file and dataset handles, the
HDF5 calls that carry out the core's plans, the conversion of `ndarray`
arrays to and from the core's `DenseArray`, flushing on drop, and the
`h5type!` macro that declares table row types.

`tests/` exercises the core against in-memory stand-ins for datasets.
