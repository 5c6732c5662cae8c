//! The ways in which the library refuses a request.

use vstd::prelude::*;

verus! {

/// Why a writer, an array or a reader refused what it was asked to do.
#[derive(Debug, PartialEq, Eq)]
pub enum H5rioError {
    /// A buffered writer was asked to buffer zero entries per chunk.
    InvalidChunkSize,
    /// An appendable array writer was configured with a zero-length axis.
    InvalidItemShape { shape: Vec<usize> },
    /// An entry appended to an array writer does not have the writer's shape.
    ItemShapeMismatch { got: Vec<usize>, expected: Vec<usize> },
    /// The chunk shape of a fixed-size array has the wrong rank or a
    /// zero-length axis.
    InvalidChunkShape { chunk_shape: Vec<usize>, array_shape: Vec<usize> },
    /// A table was read from a dataset that is not one-dimensional.
    NotATable { shape: Vec<usize> },
    /// An array iterator was asked to walk a scalar dataset.
    ScalarDataset,
    /// Reading one row of a table produced no row.
    EmptyRowSlice,
    /// Data read from a dataset does not fit the dataset's shape.
    ReshapeFailed { read_shape: Vec<usize>, dataset_shape: Vec<usize> },
}

} // verus!
