//! Appendable tables: one-dimensional datasets that grow one row at a time.

use vstd::prelude::*;

use crate::array_writer::{ArrayHdf5Writer, DumpPlan, WriteOutcome, rows_selection};
use crate::dense::DenseArray;
use crate::error::H5rioError;
use crate::layout::{DatasetLayout, Extent, SliceSpec, fixed_extents, run};
use crate::shape::{has_zero_axis, shape_product};

verus! {

/// Buffered writer of the rows of a one-dimensional table dataset whose
/// shape is `(n_rows,)`.  Each row is an entry of the zero-dimensional shape.
pub struct TableHdf5Writer<T>(ArrayHdf5Writer<T>);

impl<T> TableHdf5Writer<T> {
    /// The writer of zero-dimensional entries that holds the rows.
    pub closed spec fn rows(&self) -> ArrayHdf5Writer<T> {
        self.0
    }

    /// The writer's invariant.
    pub open spec fn wf(&self) -> bool {
        &&& self.rows().wf()
        &&& self.rows().item_shape() == Seq::<usize>::empty()
    }

    /// The buffered rows, in the order in which they were written.
    pub open spec fn pending(&self) -> Seq<T> {
        self.rows().pending()
    }

    /// The number of rows a full buffer holds.
    pub open spec fn chunk_rows(&self) -> nat {
        self.rows().chunk_entries_of()
    }

    /// Every row ever written, in order.
    pub open spec fn written(&self) -> Seq<T> {
        self.rows().accepted().flatten()
    }

    /// Every row the writer was told was stored, in order.
    pub open spec fn committed(&self) -> Seq<T> {
        self.rows().committed()
    }

    /// What the invariant says of a table writer: a full buffer holds
    /// `chunk_rows` rows, and every written row is either stored or still
    /// buffered, in the order of writing.
    pub proof fn lemma_wf(&self)
        requires
            self.wf(),
        ensures
            self.chunk_rows() >= 1,
            self.rows().chunk_len() == self.chunk_rows(),
            self.rows().item_len() == 1,
            self.pending().len() == self.rows().pending_entries(),
            self.written() == self.committed() + self.pending(),
    {
        self.rows().lemma_wf();
        let c = self.chunk_rows();
        let n = self.pending().len();
        assert(c * 1 == c) by (nonlinear_arith);
        assert(n / 1 == n) by (nonlinear_arith);
    }

    /// Creates the buffered writer of a table; a chunk holds `chunk_size`
    /// rows.  Refused when `chunk_size` is zero.
    pub fn new(chunk_size: usize) -> (r: Result<Self, H5rioError>)
        ensures
            chunk_size == 0 <==> r is Err,
            r matches Err(e) ==> e matches H5rioError::InvalidChunkSize,
            r matches Ok(w) ==> {
                &&& w.wf()
                &&& w.chunk_rows() == chunk_size
                &&& w.pending() == Seq::<T>::empty()
                &&& w.written() == Seq::<T>::empty()
                &&& w.committed() == Seq::<T>::empty()
            },
    {
        let shape: Vec<usize> = Vec::new();
        proof {
            assert(shape_product(shape@) == 1);
            assert(!has_zero_axis(shape@));
            assert(Seq::<Seq<T>>::empty().flatten() =~= Seq::<T>::empty());
        }
        match ArrayHdf5Writer::new(chunk_size, shape) {
            Ok(w) => Ok(TableHdf5Writer(w)),
            Err(e) => Err(e),
        }
    }

    /// The layout of the table's dataset: one resizable axis that starts
    /// empty, chunked by `chunk_rows` rows.
    pub fn dataset_layout(&self) -> (r: DatasetLayout)
        requires
            self.wf(),
        ensures
            r.chunk@ == seq![self.chunk_rows() as usize],
            r.extents@ == seq![Extent::Resizable(0)],
    {
        let r = self.0.dataset_layout();
        proof {
            assert(fixed_extents(Seq::<usize>::empty()) =~= Seq::<Extent>::empty());
            assert(r.chunk@ =~= seq![self.chunk_rows() as usize]);
            assert(r.extents@ =~= seq![Extent::Resizable(0)]);
        }
        r
    }

    /// The buffered rows, in the order in which they were written.
    pub fn cache(&self) -> (r: &Vec<T>)
        ensures
            r@ == self.pending(),
    {
        self.0.cache()
    }

    /// The number of buffered rows.
    pub fn buffered_rows(&self) -> (r: usize)
        requires
            self.wf(),
        ensures
            r == self.pending().len(),
    {
        proof {
            self.lemma_wf();
        }
        self.0.buffered_entries()
    }

    /// Appends one row to the buffer; never refused.  The outcome says
    /// whether the buffer now holds exactly one full chunk, in which case it
    /// is due to be written out.
    pub fn write(&mut self, value: T) -> (r: Result<WriteOutcome, H5rioError>)
        requires
            old(self).wf(),
        ensures
            final(self).wf(),
            r is Ok,
            final(self).chunk_rows() == old(self).chunk_rows(),
            final(self).pending() == old(self).pending().push(value),
            final(self).written() == old(self).written().push(value),
            final(self).committed() == old(self).committed(),
            r matches Ok(WriteOutcome::ChunkFull) <==> final(self).pending().len()
                == final(self).chunk_rows(),
            old(self).pending().len() < old(self).chunk_rows() ==> final(self).pending().len()
                <= final(self).chunk_rows(),
    {
        let ghost before = self.0.accepted();
        proof {
            self.lemma_wf();
            before.lemma_flatten_push(seq![value]);
        }
        let item = DenseArray::scalar(value);
        let r = self.0.write(item);
        proof {
            self.lemma_wf();
            assert(self.pending() =~= old(self).pending().push(value));
            assert(self.written() =~= old(self).written().push(value));
        }
        r
    }

    /// Plans the writing of every buffered row into a table dataset that
    /// holds `stored_rows` rows: `None` when the buffer is empty; otherwise
    /// the dataset grows by the number of buffered rows and exactly the new
    /// rows receive the whole buffer.
    pub fn flush(&self, stored_rows: usize) -> (r: Option<DumpPlan>)
        requires
            self.wf(),
            stored_rows + self.pending().len() <= usize::MAX,
        ensures
            r is None <==> self.pending().len() == 0,
            r matches Some(p) ==> {
                &&& p.entries == self.pending().len()
                &&& p.resize_to@ == seq![(stored_rows + p.entries) as usize]
                &&& p.selection@ == seq![run(stored_rows, p.entries)]
                &&& p.view_shape@ == seq![p.entries]
                &&& p.selection@.len() == 1
                &&& p.selection@[0] == (SliceSpec::SliceCount {
                    start: stored_rows,
                    count: p.entries,
                    step: 1,
                    block: 1,
                })
            },
    {
        proof {
            self.lemma_wf();
        }
        let r = self.0.flush(stored_rows);
        proof {
            if r is Some {
                let p = r->0;
                assert(p.resize_to@ =~= seq![(stored_rows + p.entries) as usize]);
                assert(p.view_shape@ =~= seq![p.entries]);
                assert(rows_selection(stored_rows, p.entries, 0) =~= seq![run(stored_rows, p.entries)]);
            }
        }
        r
    }

    /// Records that the whole buffer was stored.
    pub fn mark_flushed(&mut self)
        requires
            old(self).wf(),
        ensures
            final(self).wf(),
            final(self).chunk_rows() == old(self).chunk_rows(),
            final(self).pending() == Seq::<T>::empty(),
            final(self).written() == old(self).written(),
            final(self).committed() == old(self).committed() + old(self).pending(),
    {
        self.0.mark_flushed();
    }
}

} // verus!
