//! Reading tables and arrays back: the checks on what a dataset holds, and
//! the walk of the row and entry iterators over it.

use vstd::prelude::*;

use crate::dense::DenseArray;
use crate::error::H5rioError;
use crate::layout::{SliceSpec, push_whole_axes, whole_axes};
use crate::shape::{copy_shape, shape_product};

verus! {

/// Walks the rows of a one-dimensional table dataset, one row at a time.
#[derive(Debug)]
pub struct Hdf5TableIter {
    index: usize,
    len: usize,
}

impl Hdf5TableIter {
    #[verifier::type_invariant]
    spec fn within_bounds(&self) -> bool {
        self.index <= self.len
    }

    /// The index of the next row to read.
    pub closed spec fn position(&self) -> nat {
        self.index as nat
    }

    /// The number of rows of the table.
    pub closed spec fn row_count(&self) -> nat {
        self.len as nat
    }

    /// The index of the next row to read; it never exceeds the row count.
    pub fn position_now(&self) -> (r: usize)
        ensures
            r == self.position(),
            r <= self.row_count(),
    {
        proof {
            use_type_invariant(self);
        }
        self.index
    }

    /// The number of rows of the table.
    pub fn row_count_now(&self) -> (r: usize)
        ensures
            r == self.row_count(),
    {
        self.len
    }

    /// The index of the row to read next, which is then passed: every row
    /// `0 .. row_count` is handed out once, in order, and then `None` for
    /// ever.
    pub fn next(&mut self) -> (r: Option<usize>)
        ensures
            final(self).row_count() == old(self).row_count(),
            final(self).position() <= final(self).row_count(),
            old(self).position() < old(self).row_count() ==> {
                &&& r == Some(old(self).position() as usize)
                &&& final(self).position() == old(self).position() + 1
            },
            old(self).position() >= old(self).row_count() ==> {
                &&& r is None
                &&& final(self).position() == old(self).position()
            },
    {
        proof {
            use_type_invariant(&*self);
        }
        if self.index == self.len {
            return None;
        }
        let row = self.index;
        self.index = self.index + 1;
        Some(row)
    }
}

/// Starts walking the rows of a table dataset of shape `shape`.  Refused
/// when the dataset is not one-dimensional.
pub fn iter_table(shape: &Vec<usize>) -> (r: Result<Hdf5TableIter, H5rioError>)
    ensures
        r is Err <==> shape@.len() != 1,
        r matches Err(e) ==> (e matches H5rioError::NotATable { shape: s } && s@ == shape@),
        r matches Ok(it) ==> it.position() == 0 && it.row_count() == shape@[0],
{
    if shape.len() != 1 {
        return Err(H5rioError::NotATable { shape: copy_shape(shape) });
    }
    Ok(Hdf5TableIter { index: 0, len: shape[0] })
}

/// The one row read for a one-row slice of a table: the first of `rows`.
/// Refused when the slice produced no row.
pub fn single_row<T>(rows: Vec<T>) -> (r: Result<T, H5rioError>)
    ensures
        r is Err <==> rows@.len() == 0,
        r matches Err(e) ==> e matches H5rioError::EmptyRowSlice,
        r matches Ok(v) ==> v == rows@[0],
{
    let mut rows = rows;
    if rows.len() == 0 {
        return Err(H5rioError::EmptyRowSlice);
    }
    Ok(rows.swap_remove(0))
}

/// The array read from a dataset, given the shape the dataset declares:
/// the elements read, in row-major order, arranged in that shape.  Refused
/// when the number of elements read does not fit the dataset's shape.
pub fn read_array<T>(read: DenseArray<T>, dataset_shape: Vec<usize>) -> (r: Result<
    DenseArray<T>,
    H5rioError,
>)
    ensures
        r is Ok <==> read.elems().len() == shape_product(dataset_shape@),
        r matches Ok(a) ==> a.shape_of() == dataset_shape@ && a.elems() == read.elems(),
        r matches Err(e) ==> (e matches H5rioError::ReshapeFailed { read_shape: rs, dataset_shape: ds }
            && rs@ == read.shape_of() && ds@ == dataset_shape@),
{
    let (read_shape, data) = read.into_parts();
    let error_shape = copy_shape(&dataset_shape);
    match DenseArray::from_shape_vec(dataset_shape, data) {
        Some(a) => Ok(a),
        None => Err(H5rioError::ReshapeFailed { read_shape, dataset_shape: error_shape }),
    }
}

/// Walks the entries of a dataset along its leading axis: entry `i` is the
/// part of the dataset at position `i` of that axis.
#[derive(Debug)]
pub struct Hdf5ArrayIter {
    index: usize,
    len: usize,
    ndim: usize,
}

/// The selection of position `index` of the leading axis and of every
/// position along the `rank - 1` axes that follow it.
pub open spec fn entry_selection(index: usize, rank: nat) -> Seq<SliceSpec> {
    seq![SliceSpec::Index(index)] + whole_axes((rank - 1) as nat)
}

/// Law: the selection of entry `index` fixes the leading axis at exactly
/// `index` and takes each of the other `rank - 1` axes whole.
pub proof fn law_entry_selection(index: usize, rank: nat)
    requires
        rank >= 1,
    ensures
        entry_selection(index, rank).len() == rank,
        entry_selection(index, rank)[0] == SliceSpec::Index(index),
        forall|i: int|
            1 <= i < rank ==> #[trigger] entry_selection(index, rank)[i] == (SliceSpec::Unlimited {
                start: 0,
                step: 1,
                block: 1,
            }),
{
}

impl Hdf5ArrayIter {
    #[verifier::type_invariant]
    spec fn within_bounds(&self) -> bool {
        &&& self.index <= self.len
        &&& self.ndim >= 1
    }

    /// The index of the next entry to read.
    pub closed spec fn position(&self) -> nat {
        self.index as nat
    }

    /// The number of entries: the length of the dataset's leading axis.
    pub closed spec fn entry_count(&self) -> nat {
        self.len as nat
    }

    /// The number of axes of the dataset.
    pub closed spec fn rank(&self) -> nat {
        self.ndim as nat
    }

    /// The index of the next entry to read; it never exceeds the number of
    /// entries.
    pub fn position_now(&self) -> (r: usize)
        ensures
            r == self.position(),
            r <= self.entry_count(),
    {
        proof {
            use_type_invariant(self);
        }
        self.index
    }

    /// The number of entries.
    pub fn entry_count_now(&self) -> (r: usize)
        ensures
            r == self.entry_count(),
    {
        self.len
    }

    /// The selection that reads the next entry, which is then passed: the
    /// entries `0 .. entry_count` are handed out once, in order, and then
    /// `None` for ever.  The selection fixes the leading axis and takes every
    /// other axis whole, so an entry has the dataset's shape without its
    /// leading axis.
    pub fn next(&mut self) -> (r: Option<Vec<SliceSpec>>)
        ensures
            final(self).entry_count() == old(self).entry_count(),
            final(self).rank() == old(self).rank(),
            final(self).rank() >= 1,
            final(self).position() <= final(self).entry_count(),
            old(self).position() < old(self).entry_count() ==> {
                &&& r matches Some(sel)
                &&& sel@ == entry_selection(old(self).position() as usize, old(self).rank())
                &&& sel@.len() == old(self).rank()
                &&& sel@[0] == SliceSpec::Index(old(self).position() as usize)
                &&& forall|i: int|
                    1 <= i < sel@.len() ==> #[trigger] sel@[i] == (SliceSpec::Unlimited {
                        start: 0,
                        step: 1,
                        block: 1,
                    })
                &&& final(self).position() == old(self).position() + 1
            },
            old(self).position() >= old(self).entry_count() ==> {
                &&& r is None
                &&& final(self).position() == old(self).position()
            },
    {
        proof {
            use_type_invariant(&*self);
        }
        if self.index == self.len {
            return None;
        }
        let mut selection: Vec<SliceSpec> = Vec::new();
        selection.push(SliceSpec::Index(self.index));
        push_whole_axes(&mut selection, self.ndim - 1);
        proof {
            assert(selection@ =~= entry_selection(self.index, self.ndim as nat));
        }
        self.index = self.index + 1;
        Some(selection)
    }
}

/// Starts walking the entries of a dataset of shape `shape` along its
/// leading axis.  Refused when the dataset is scalar.
pub fn iter_array(shape: &Vec<usize>) -> (r: Result<Hdf5ArrayIter, H5rioError>)
    ensures
        r is Err <==> shape@.len() == 0,
        r matches Err(e) ==> e matches H5rioError::ScalarDataset,
        r matches Ok(it) ==> {
            &&& it.position() == 0
            &&& it.entry_count() == shape@[0]
            &&& it.rank() == shape@.len()
        },
{
    if shape.len() == 0 {
        return Err(H5rioError::ScalarDataset);
    }
    Ok(Hdf5ArrayIter { index: 0, len: shape[0], ndim: shape.len() })
}

} // verus!
