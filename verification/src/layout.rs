//! How datasets are laid out and which parts of them are read or written.

use vstd::prelude::*;

verus! {

/// The extent of one axis of a dataset.
#[derive(Debug, Clone, Copy, PartialEq, Eq)]
pub enum Extent {
    /// An axis of exactly this length that can never change.
    Fixed(usize),
    /// An axis that starts with this length and can grow without bound.
    Resizable(usize),
}

/// The selection along one axis of a dataset (a hyperslab component).
#[derive(Debug, Clone, Copy, PartialEq, Eq)]
pub enum SliceSpec {
    /// A single position; the axis disappears from the selected shape.
    Index(usize),
    /// `count` blocks of `block` positions, `step` apart, from `start` on.
    SliceCount { start: usize, count: usize, step: usize, block: usize },
    /// Blocks of `block` positions, `step` apart, from `start` to the end of
    /// the axis.
    Unlimited { start: usize, step: usize, block: usize },
}

/// The shape and chunking with which a dataset is created.
#[derive(Debug, PartialEq, Eq)]
pub struct DatasetLayout {
    /// The chunk shape; it has one length per axis of the dataset.
    pub chunk: Vec<usize>,
    /// The extent of each axis of the dataset.
    pub extents: Vec<Extent>,
}

/// The selection of every position along an axis.
pub open spec fn whole_axis() -> SliceSpec {
    SliceSpec::Unlimited { start: 0, step: 1, block: 1 }
}

/// The selection of `count` consecutive positions from `start` on.
pub open spec fn run(start: usize, count: usize) -> SliceSpec {
    SliceSpec::SliceCount { start, count, step: 1, block: 1 }
}

/// `n` selections of whole axes.
pub open spec fn whole_axes(n: nat) -> Seq<SliceSpec> {
    Seq::new(n, |i: int| whole_axis())
}

/// Fixed extents with the given lengths.
pub open spec fn fixed_extents(shape: Seq<usize>) -> Seq<Extent> {
    Seq::new(shape.len(), |i: int| Extent::Fixed(shape[i]))
}

/// Law: `run(start, count)` selects exactly the `count` positions
/// `start .. start + count`, one by one.
pub proof fn law_run(start: usize, count: usize)
    ensures
        run(start, count) == (SliceSpec::SliceCount { start: start, count: count, step: 1, block: 1 }),
{
}

/// Law: `whole_axes(n)` is `n` selections, each of a whole axis from its
/// first position on.
pub proof fn law_whole_axes(n: nat)
    ensures
        whole_axes(n).len() == n,
        forall|i: int|
            0 <= i < n ==> #[trigger] whole_axes(n)[i] == (SliceSpec::Unlimited {
                start: 0,
                step: 1,
                block: 1,
            }),
{
}

/// Law: `fixed_extents(shape)` has one fixed extent per axis of `shape`,
/// each of exactly that axis's length.
pub proof fn law_fixed_extents(shape: Seq<usize>)
    ensures
        fixed_extents(shape).len() == shape.len(),
        forall|i: int| 0 <= i < shape.len() ==> #[trigger] fixed_extents(shape)[i] == Extent::Fixed(shape[i]),
{
}

/// Appends `n` selections of whole axes to `sel`.
pub fn push_whole_axes(sel: &mut Vec<SliceSpec>, n: usize)
    ensures
        final(sel)@ == old(sel)@ + whole_axes(n as nat),
        final(sel)@.len() == old(sel)@.len() + n,
        forall|i: int| 0 <= i < old(sel)@.len() ==> #[trigger] final(sel)@[i] == old(sel)@[i],
        forall|i: int|
            old(sel)@.len() <= i < final(sel)@.len() ==> #[trigger] final(sel)@[i]
                == (SliceSpec::Unlimited { start: 0, step: 1, block: 1 }),
{
    let ghost start = sel@;
    let mut i: usize = 0;
    while i < n
        invariant
            i <= n,
            sel@ == start + whole_axes(i as nat),
        decreases n - i,
    {
        sel.push(SliceSpec::Unlimited { start: 0, step: 1, block: 1 });
        i = i + 1;
        proof {
            assert(sel@ =~= start + whole_axes(i as nat));
        }
    }
}

/// Appends one fixed extent per axis of `shape` to `extents`.
pub fn push_fixed_extents(extents: &mut Vec<Extent>, shape: &Vec<usize>)
    ensures
        final(extents)@ == old(extents)@ + fixed_extents(shape@),
        final(extents)@.len() == old(extents)@.len() + shape@.len(),
        forall|i: int|
            0 <= i < old(extents)@.len() ==> #[trigger] final(extents)@[i] == old(extents)@[i],
        forall|i: int|
            0 <= i < shape@.len() ==> #[trigger] final(extents)@[old(extents)@.len() + i]
                == Extent::Fixed(shape@[i]),
{
    let ghost start = extents@;
    let mut i: usize = 0;
    while i < shape.len()
        invariant
            i <= shape@.len(),
            extents@ == start + fixed_extents(shape@.take(i as int)),
        decreases shape@.len() - i,
    {
        extents.push(Extent::Fixed(shape[i]));
        i = i + 1;
        proof {
            assert(extents@ =~= start + fixed_extents(shape@.take(i as int)));
        }
    }
    proof {
        assert(shape@.take(i as int) =~= shape@);
    }
}

} // verus!
