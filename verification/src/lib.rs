//! Verified core of a small library for writing and reading HDF5 datasets:
//! appendable tables of records, appendable arrays of fixed-shape entries,
//! fixed-size chunked arrays, and readers that load or walk them.
//!
//! The library decides everything the HDF5 layer is then asked to do: which
//! requests are valid, how appended entries are buffered, when a chunk of
//! buffered entries is due, how a dataset is laid out and resized, which
//! hyperslab receives buffered entries, and which hyperslab each step of a
//! reader reads.  Files and dataset handles belong to the application layer,
//! which carries out these plans with HDF5 and hands the outcomes back.
//!
//! - [`shape`]: element counts of shapes and checks on them.
//! - [`dense`]: [`DenseArray`], a row-major array whose element count
//!   matches its shape.
//! - [`layout`]: dataset extents, chunk shapes and hyperslab selections.
//! - [`array_writer`]: [`ArrayHdf5Writer`] and [`write_chunked_array`].
//! - [`table_writer`]: [`TableHdf5Writer`].
//! - [`reader`]: [`iter_table`], [`iter_array`], [`read_array`] and
//!   [`single_row`].
//! - [`model`]: a dataset seen as the flat sequence of its elements, and the
//!   round-trip laws of the writers.
//! - [`error`]: [`H5rioError`].

pub mod shape;
pub mod dense;
pub mod error;
pub mod layout;
pub mod array_writer;
pub mod table_writer;
pub mod reader;
pub mod model;

pub use dense::DenseArray;
pub use shape::{contains_zero, shape_size, shapes_equal};
pub use error::H5rioError;
pub use layout::{DatasetLayout, Extent, SliceSpec};
pub use array_writer::{ArrayHdf5Writer, DumpPlan, WriteOutcome, write_chunked_array};
pub use table_writer::TableHdf5Writer;
pub use reader::{Hdf5ArrayIter, Hdf5TableIter, iter_array, iter_table, read_array, single_row};
