//! Appendable arrays: entries of one fixed shape are buffered in memory and
//! written, a chunk at a time, along the growing leading axis of a dataset.

use vstd::prelude::*;

use crate::dense::DenseArray;
use crate::error::H5rioError;
use crate::layout::{
    DatasetLayout, Extent, SliceSpec, fixed_extents, push_fixed_extents, push_whole_axes, run,
    whole_axes,
};
use crate::shape::{
    contains_zero, copy_shape, has_zero_axis, lemma_product_prefix_le, lemma_product_prepend,
    shape_product, shape_size, shapes_equal,
};

verus! {

/// What became of an entry handed to a buffered writer.
#[derive(Debug, Clone, Copy, PartialEq, Eq)]
pub enum WriteOutcome {
    /// The entry was buffered; the chunk is not full yet.
    Buffered,
    /// The entry was buffered and completed a chunk: the buffer is due to be
    /// written out now.
    ChunkFull,
}

/// How to move the buffered entries of a writer into its dataset.
///
/// The dataset is first resized to `resize_to`; then the buffered elements,
/// seen as an array of shape `view_shape`, are written to the hyperslab
/// `selection`.
#[derive(Debug, PartialEq, Eq)]
pub struct DumpPlan {
    /// How many entries are written.
    pub entries: usize,
    /// The shape of the dataset once the entries are added.
    pub resize_to: Vec<usize>,
    /// The part of the resized dataset that receives the entries.
    pub selection: Vec<SliceSpec>,
    /// The shape of the block of buffered elements that is written.
    pub view_shape: Vec<usize>,
}

/// The selection of rows `start .. start + count` of the leading axis, and of
/// every position along the `rank` axes that follow it.
pub open spec fn rows_selection(start: usize, count: usize, rank: nat) -> Seq<SliceSpec> {
    seq![run(start, count)] + whole_axes(rank)
}

/// Law: the rows selection selects exactly the `count` rows
/// `start .. start + count` of the leading axis, and each of the `rank`
/// following axes whole.
pub proof fn law_rows_selection(start: usize, count: usize, rank: nat)
    ensures
        rows_selection(start, count, rank).len() == rank + 1,
        rows_selection(start, count, rank)[0] == (SliceSpec::SliceCount {
            start: start,
            count: count,
            step: 1,
            block: 1,
        }),
        forall|i: int|
            1 <= i <= rank ==> #[trigger] rows_selection(start, count, rank)[i] == (
            SliceSpec::Unlimited { start: 0, step: 1, block: 1 }),
{
}

/// The layout of an appendable dataset: a leading axis that starts empty and
/// grows, followed by the fixed axes of one entry; chunks hold
/// `chunk_entries` entries.
pub open spec fn appendable_layout(chunk_entries: usize, item_shape: Seq<usize>) -> (
    Seq<usize>,
    Seq<Extent>,
) {
    (seq![chunk_entries] + item_shape, seq![Extent::Resizable(0)] + fixed_extents(item_shape))
}

/// Buffered writer of entries of one fixed shape along the leading axis of
/// an appendable dataset.
///
/// Besides the buffer itself, the writer keeps, as ghost state, every entry
/// it ever accepted and every element it was told was stored.
pub struct ArrayHdf5Writer<T> {
    cache: Vec<T>,
    chunk_size: usize,
    chunk_entries: usize,
    shape: Vec<usize>,
    item_size: usize,
    accepted: Ghost<Seq<Seq<T>>>,
    committed: Ghost<Seq<T>>,
}

impl<T> ArrayHdf5Writer<T> {
    /// The shape of every entry.
    pub closed spec fn item_shape(&self) -> Seq<usize> {
        self.shape@
    }

    /// The number of elements of one entry.
    pub open spec fn item_len(&self) -> nat {
        shape_product(self.item_shape())
    }

    /// The number of entries a full buffer holds.
    pub closed spec fn chunk_entries_of(&self) -> nat {
        self.chunk_entries as nat
    }

    /// The number of elements a full buffer holds.
    pub closed spec fn chunk_len(&self) -> nat {
        self.chunk_size as nat
    }

    /// The buffered elements, in the order in which they were accepted.
    pub closed spec fn pending(&self) -> Seq<T> {
        self.cache@
    }

    /// The number of whole entries in the buffer.
    pub open spec fn pending_entries(&self) -> nat {
        self.pending().len() / self.item_len()
    }

    /// Every entry the writer ever accepted, each as its row-major elements,
    /// in the order in which they were accepted.
    pub closed spec fn accepted(&self) -> Seq<Seq<T>> {
        self.accepted@
    }

    /// Every element the writer was told was stored, in order.
    pub closed spec fn committed(&self) -> Seq<T> {
        self.committed@
    }

    /// The writer's invariant.
    pub closed spec fn wf(&self) -> bool {
        &&& self.item_size as nat == shape_product(self.shape@)
        &&& !has_zero_axis(self.shape@)
        &&& self.item_size >= 1
        &&& self.chunk_entries >= 1
        &&& self.chunk_size as nat == self.chunk_entries as nat * self.item_size as nat
        &&& self.cache@.len() % (self.item_size as nat) == 0
        &&& forall|k: int|
            0 <= k < self.accepted@.len() ==> (#[trigger] self.accepted@[k]).len()
                == self.item_size as nat
        &&& self.accepted@.flatten() == self.committed@ + self.cache@
    }

    /// What the invariant says of a writer: entries have no zero-length
    /// axis, a full buffer holds `chunk_entries` entries, the buffer holds
    /// whole entries only, and every accepted element is either stored or
    /// still buffered, in the order of acceptance.
    pub proof fn lemma_wf(&self)
        requires
            self.wf(),
        ensures
            !has_zero_axis(self.item_shape()),
            self.item_len() >= 1,
            self.chunk_entries_of() >= 1,
            self.chunk_len() == self.chunk_entries_of() * self.item_len(),
            self.pending().len() % self.item_len() == 0,
            self.pending().len() == self.pending_entries() * self.item_len(),
            forall|k: int|
                0 <= k < self.accepted().len() ==> (#[trigger] self.accepted()[k]).len()
                    == self.item_len(),
            self.accepted().flatten() == self.committed() + self.pending(),
    {
        let m = self.item_len();
        let x = self.pending().len();
        assert(x == (x / m) * m) by (nonlinear_arith)
            requires
                m >= 1,
                x % m == 0,
        ;
    }

    /// Creates the buffered writer of an appendable dataset whose entries
    /// have shape `shape`; a chunk holds `chunk_size` entries.
    ///
    /// Refused when `chunk_size` is zero, then when `shape` has a
    /// zero-length axis.
    pub fn new(chunk_size: usize, shape: Vec<usize>) -> (r: Result<Self, H5rioError>)
        requires
            chunk_size == 0 || has_zero_axis(shape@) || chunk_size * shape_product(shape@)
                <= usize::MAX,
        ensures
            chunk_size == 0 ==> r matches Err(H5rioError::InvalidChunkSize),
            chunk_size != 0 && has_zero_axis(shape@) ==> (r matches Err(
                H5rioError::InvalidItemShape { shape: s },
            ) && s@ == shape@),
            chunk_size != 0 && !has_zero_axis(shape@) ==> (r matches Ok(w) && {
                &&& w.wf()
                &&& w.item_shape() == shape@
                &&& w.chunk_entries_of() == chunk_size
                &&& w.pending() == Seq::<T>::empty()
                &&& w.accepted() == Seq::<Seq<T>>::empty()
                &&& w.committed() == Seq::<T>::empty()
            }),
    {
        if chunk_size == 0 {
            return Err(H5rioError::InvalidChunkSize);
        }
        if contains_zero(&shape) {
            return Err(H5rioError::InvalidItemShape { shape });
        }
        proof {
            lemma_product_prefix_le(shape@, 0);
            let p = shape_product(shape@);
            assert(p <= chunk_size * p) by (nonlinear_arith)
                requires
                    chunk_size >= 1,
            ;
        }
        let item_size = shape_size(&shape).unwrap();
        let chunk_total = chunk_size * item_size;
        let cache: Vec<T> = Vec::with_capacity(chunk_total);
        proof {
            assert(Seq::<Seq<T>>::empty().flatten() =~= Seq::<T>::empty());
            assert(0nat % (item_size as nat) == 0);
        }
        Ok(ArrayHdf5Writer {
            cache,
            chunk_size: chunk_total,
            chunk_entries: chunk_size,
            shape,
            item_size,
            accepted: Ghost(Seq::empty()),
            committed: Ghost(Seq::empty()),
        })
    }

    /// The layout of the dataset the writer appends to: its leading axis
    /// starts empty and is resizable, the other axes are the entry's axes,
    /// and a chunk holds `chunk_entries` entries.
    pub fn dataset_layout(&self) -> (r: DatasetLayout)
        requires
            self.wf(),
        ensures
            (r.chunk@, r.extents@) == appendable_layout(
                self.chunk_entries_of() as usize,
                self.item_shape(),
            ),
            r.chunk@.len() == self.item_shape().len() + 1,
            r.chunk@[0] == self.chunk_entries_of(),
            forall|i: int|
                0 <= i < self.item_shape().len() ==> #[trigger] r.chunk@[i + 1]
                    == self.item_shape()[i],
            r.extents@.len() == self.item_shape().len() + 1,
            r.extents@[0] == Extent::Resizable(0),
            forall|i: int|
                0 <= i < self.item_shape().len() ==> #[trigger] r.extents@[i + 1] == Extent::Fixed(
                    self.item_shape()[i],
                ),
    {
        let mut chunk: Vec<usize> = Vec::new();
        chunk.push(self.chunk_entries);
        let mut rest = copy_shape(&self.shape);
        chunk.append(&mut rest);
        let mut extents: Vec<Extent> = Vec::new();
        extents.push(Extent::Resizable(0));
        push_fixed_extents(&mut extents, &self.shape);
        proof {
            assert(chunk@ =~= seq![self.chunk_entries] + self.shape@);
            assert(extents@ =~= seq![Extent::Resizable(0)] + fixed_extents(self.shape@));
            assert forall|i: int| 0 <= i < self.shape@.len() implies #[trigger] extents@[i + 1]
                == Extent::Fixed(self.shape@[i]) by {
                assert(extents@[1 + i] == Extent::Fixed(self.shape@[i]));
            }
        }
        DatasetLayout { chunk, extents }
    }

    /// The shape of every entry.
    pub fn shape(&self) -> (r: &Vec<usize>)
        ensures
            r@ == self.item_shape(),
    {
        &self.shape
    }

    /// The buffered elements, in the order in which they were accepted.
    pub fn cache(&self) -> (r: &Vec<T>)
        ensures
            r@ == self.pending(),
    {
        &self.cache
    }

    /// The number of whole entries in the buffer.
    pub fn buffered_entries(&self) -> (r: usize)
        requires
            self.wf(),
        ensures
            r == self.pending_entries(),
    {
        self.cache.len() / self.item_size
    }

    /// Appends one entry to the buffer.
    ///
    /// Refused, with the buffer unchanged, when the entry's shape is not the
    /// writer's.  Otherwise the entry's elements are appended to the buffer,
    /// and the outcome says whether the buffer now holds exactly one full
    /// chunk, in which case it is due to be written out.
    pub fn write(&mut self, item: DenseArray<T>) -> (r: Result<WriteOutcome, H5rioError>)
        requires
            old(self).wf(),
        ensures
            final(self).wf(),
            final(self).item_shape() == old(self).item_shape(),
            final(self).chunk_entries_of() == old(self).chunk_entries_of(),
            final(self).chunk_len() == old(self).chunk_len(),
            final(self).committed() == old(self).committed(),
            item.shape_of() != old(self).item_shape() ==> {
                &&& r matches Err(H5rioError::ItemShapeMismatch { got, expected })
                &&& got@ == item.shape_of()
                &&& expected@ == old(self).item_shape()
                &&& final(self).pending() == old(self).pending()
                &&& final(self).accepted() == old(self).accepted()
            },
            item.shape_of() == old(self).item_shape() ==> {
                &&& r is Ok
                &&& final(self).pending() == old(self).pending() + item.elems()
                &&& final(self).accepted() == old(self).accepted().push(item.elems())
                &&& (r matches Ok(WriteOutcome::ChunkFull) <==> final(self).pending().len()
                    == final(self).chunk_len())
                &&& old(self).pending().len() < old(self).chunk_len()
                    ==> final(self).pending().len() <= final(self).chunk_len()
            },
    {
        let (item_shape, mut data) = item.into_parts();
        if !shapes_equal(&item_shape, &self.shape) {
            let expected = copy_shape(&self.shape);
            return Err(H5rioError::ItemShapeMismatch { got: item_shape, expected });
        }
        let ghost old_cache = self.cache@;
        let ghost entry = data@;
        let ghost m = self.item_size as nat;
        proof {
            self.accepted@.lemma_flatten_push(entry);
            assert(self.accepted@.push(entry).flatten() =~= self.accepted@.flatten() + entry);
            let x = old_cache.len();
            let c = self.chunk_entries as nat;
            assert((x + m) % m == 0) by (nonlinear_arith)
                requires
                    m >= 1,
                    x % m == 0,
            ;
            assert(x < c * m ==> x + m <= c * m) by (nonlinear_arith)
                requires
                    m >= 1,
                    x % m == 0,
            ;
        }
        self.cache.append(&mut data);
        self.accepted = Ghost(self.accepted@.push(entry));
        proof {
            assert(self.committed@ + self.cache@ =~= self.committed@ + old_cache + entry);
            assert forall|k: int| 0 <= k < self.accepted@.len() implies (
            #[trigger] self.accepted@[k]).len() == self.item_size as nat by {
                if k < self.accepted@.len() - 1 {
                    assert(self.accepted@[k] == old(self).accepted@[k]);
                }
            }
        }
        if self.cache.len() == self.chunk_size {
            Ok(WriteOutcome::ChunkFull)
        } else {
            Ok(WriteOutcome::Buffered)
        }
    }

    /// Plans the writing of every buffered entry into a dataset that holds
    /// `stored_entries` entries: `None` when the buffer is empty; otherwise
    /// the dataset grows by the number of buffered entries and exactly the
    /// new rows receive the whole buffer.
    pub fn flush(&self, stored_entries: usize) -> (r: Option<DumpPlan>)
        requires
            self.wf(),
            stored_entries + self.pending_entries() <= usize::MAX,
        ensures
            r is None <==> self.pending().len() == 0,
            r matches Some(p) ==> {
                &&& p.entries == self.pending_entries()
                &&& p.entries >= 1
                &&& p.entries * self.item_len() == self.pending().len()
                &&& p.resize_to@ == seq![(stored_entries + p.entries) as usize]
                    + self.item_shape()
                &&& p.selection@ == rows_selection(
                    stored_entries,
                    p.entries,
                    self.item_shape().len(),
                )
                &&& p.view_shape@ == seq![p.entries] + self.item_shape()
                &&& shape_product(p.view_shape@) == self.pending().len()
            },
            r matches Some(p) ==> {
                &&& p.resize_to@.len() == self.item_shape().len() + 1
                &&& p.resize_to@[0] == stored_entries + p.entries
                &&& forall|i: int|
                    0 <= i < self.item_shape().len() ==> #[trigger] p.resize_to@[i + 1]
                        == self.item_shape()[i]
                &&& p.selection@.len() == self.item_shape().len() + 1
                &&& p.selection@[0] == (SliceSpec::SliceCount {
                    start: stored_entries,
                    count: p.entries,
                    step: 1,
                    block: 1,
                })
                &&& forall|i: int|
                    1 <= i < p.selection@.len() ==> #[trigger] p.selection@[i] == (
                    SliceSpec::Unlimited { start: 0, step: 1, block: 1 })
                &&& p.view_shape@.len() == self.item_shape().len() + 1
                &&& p.view_shape@[0] == p.entries
                &&& forall|i: int|
                    0 <= i < self.item_shape().len() ==> #[trigger] p.view_shape@[i + 1]
                        == self.item_shape()[i]
            },
    {
        proof {
            self.lemma_wf();
        }
        let n_write = self.cache.len() / self.item_size;
        if n_write == 0 {
            proof {
                let m = self.item_len();
                assert(0 * m == 0) by (nonlinear_arith);
            }
            return None;
        }
        let mut resize_to: Vec<usize> = Vec::new();
        resize_to.push(stored_entries + n_write);
        let mut rest = copy_shape(&self.shape);
        resize_to.append(&mut rest);
        let mut selection: Vec<SliceSpec> = Vec::new();
        selection.push(
            SliceSpec::SliceCount { start: stored_entries, count: n_write, step: 1, block: 1 },
        );
        push_whole_axes(&mut selection, self.shape.len());
        let mut view_shape: Vec<usize> = Vec::new();
        view_shape.push(n_write);
        let mut rest = copy_shape(&self.shape);
        view_shape.append(&mut rest);
        proof {
            assert(resize_to@ =~= seq![(stored_entries + n_write) as usize] + self.shape@);
            assert(view_shape@ =~= seq![n_write] + self.shape@);
            lemma_product_prepend(n_write, self.shape@);
            assert(selection@ =~= rows_selection(stored_entries, n_write, self.shape@.len()));
            assert(selection@[0] == (SliceSpec::SliceCount {
                start: stored_entries,
                count: n_write,
                step: 1,
                block: 1,
            }));
        }
        Some(DumpPlan { entries: n_write, resize_to, selection, view_shape })
    }

    /// Records that the whole buffer was stored: the buffer is emptied and
    /// its elements join the stored ones.
    pub fn mark_flushed(&mut self)
        requires
            old(self).wf(),
        ensures
            final(self).wf(),
            final(self).item_shape() == old(self).item_shape(),
            final(self).chunk_entries_of() == old(self).chunk_entries_of(),
            final(self).chunk_len() == old(self).chunk_len(),
            final(self).pending() == Seq::<T>::empty(),
            final(self).accepted() == old(self).accepted(),
            final(self).committed() == old(self).committed() + old(self).pending(),
    {
        let ghost stored = self.committed@ + self.cache@;
        self.cache.clear();
        self.committed = Ghost(stored);
        proof {
            assert(self.committed@ + self.cache@ =~= stored);
            assert(0nat % (self.item_size as nat) == 0);
        }
    }
}

} // verus!

verus! {

/// Plans the storing of a whole array of shape `array_shape` as a
/// fixed-size dataset chunked by `chunk_shape`: the dataset has exactly the
/// array's shape, with no extensible axis.
///
/// Refused when `chunk_shape` does not have one length per axis of the
/// array, or has a zero-length axis.
pub fn write_chunked_array(chunk_shape: Vec<usize>, array_shape: &Vec<usize>) -> (r: Result<
    DatasetLayout,
    H5rioError,
>)
    ensures
        r is Err <==> (chunk_shape@.len() != array_shape@.len() || has_zero_axis(chunk_shape@)),
        r matches Err(e) ==> (e matches H5rioError::InvalidChunkShape { chunk_shape: c, array_shape: a }
            && c@ == chunk_shape@ && a@ == array_shape@),
        r matches Ok(layout) ==> layout.chunk@ == chunk_shape@ && layout.extents@
            == fixed_extents(array_shape@),
        r matches Ok(layout) ==> {
            &&& layout.extents@.len() == array_shape@.len()
            &&& forall|i: int|
                0 <= i < array_shape@.len() ==> #[trigger] layout.extents@[i] == Extent::Fixed(
                    array_shape@[i],
                )
        },
{
    if chunk_shape.len() != array_shape.len() || contains_zero(&chunk_shape) {
        let array_shape = copy_shape(array_shape);
        return Err(H5rioError::InvalidChunkShape { chunk_shape, array_shape });
    }
    let mut extents: Vec<Extent> = Vec::new();
    push_fixed_extents(&mut extents, array_shape);
    proof {
        assert(extents@ =~= fixed_extents(array_shape@));
        assert forall|i: int| 0 <= i < array_shape@.len() implies #[trigger] extents@[i]
            == Extent::Fixed(array_shape@[i]) by {
            assert(extents@[0 + i] == Extent::Fixed(array_shape@[i]));
        }
    }
    Ok(DatasetLayout { chunk: chunk_shape, extents })
}

} // verus!
