//! What a dataset with an appendable leading axis holds, seen as the flat
//! row-major sequence of its elements, and the laws that tie the writers'
//! plans to what is read back.

use vstd::prelude::*;

use crate::array_writer::{ArrayHdf5Writer, DumpPlan};
use crate::layout::SliceSpec;
use crate::table_writer::TableHdf5Writer;

verus! {

/// Entry `i` of a dataset whose entries hold `item` elements each.
pub open spec fn entry_at<T>(data: Seq<T>, item: nat, i: int) -> Seq<T> {
    data.subrange(i * item, (i + 1) * item)
}

/// The contents of a dataset after `payload` is written to its rows from
/// `start` on, entries holding `item` elements each: the rows before `start`
/// and those after the payload keep their values.
pub open spec fn write_rows<T>(data: Seq<T>, item: nat, start: nat, payload: Seq<T>) -> Seq<T> {
    data.take((start * item) as int) + payload + data.skip((start * item + payload.len()) as int)
}

/// Concatenating entries of `item` elements each gives `items.len() * item`
/// elements, and entry `k` of the concatenation is `items[k]`.
pub proof fn lemma_entries_of_concat<T>(items: Seq<Seq<T>>, item: nat)
    requires
        forall|k: int| 0 <= k < items.len() ==> (#[trigger] items[k]).len() == item,
    ensures
        items.flatten().len() == items.len() * item,
        forall|k: int| 0 <= k < items.len() ==> #[trigger] entry_at(items.flatten(), item, k) == items[k],
    decreases items.len(),
{
    if items.len() == 0 {
        assert(items.len() * item == 0) by (nonlinear_arith)
            requires
                items.len() == 0,
        ;
    } else {
        let init = items.drop_last();
        let last = items.last();
        let n = items.len();
        assert forall|k: int| 0 <= k < init.len() implies (#[trigger] init[k]).len() == item by {
            assert(init[k] == items[k]);
        }
        lemma_entries_of_concat(init, item);
        init.lemma_flatten_push(last);
        assert(init.push(last) =~= items);
        let a = init.flatten();
        assert(a.len() == (n - 1) * item);
        assert(n * item == (n - 1) * item + item) by (nonlinear_arith);
        assert forall|k: int| 0 <= k < items.len() implies #[trigger] entry_at(
            items.flatten(),
            item,
            k,
        ) == items[k] by {
            if k < n - 1 {
                assert((k + 1) * item <= (n - 1) * item) by (nonlinear_arith)
                    requires
                        k + 1 <= n - 1,
                ;
                assert(k * item >= 0) by (nonlinear_arith)
                    requires
                        k >= 0,
                ;
                assert((k + 1) * item == k * item + item) by (nonlinear_arith);
                assert(entry_at(items.flatten(), item, k) =~= entry_at(a, item, k));
                assert(entry_at(a, item, k) == init[k]);
                assert(init[k] == items[k]);
            } else {
                assert(k == n - 1);
                assert(k * item == (n - 1) * item);
                assert((k + 1) * item == n * item);
                assert(entry_at(items.flatten(), item, k) =~= last);
            }
        }
    }
}

impl<T> ArrayHdf5Writer<T> {
    /// Law (a flush plan appends the whole buffer): take a dataset that
    /// holds `stored_entries` entries, grow it to the plan's new row count
    /// with rows of any contents `fill`, and write the whole buffer into the
    /// rows the plan's leading-axis selection starts at.  The result has the
    /// plan's row count; its first `stored_entries` entries are the former
    /// ones, untouched; and entry `stored_entries + j` is buffered entry `j`,
    /// for every buffered entry.
    pub proof fn law_flush_appends(
        &self,
        stored_entries: usize,
        plan: DumpPlan,
        data: Seq<T>,
        fill: Seq<T>,
    )
        requires
            self.wf(),
            plan.entries * self.item_len() == self.pending().len(),
            plan.resize_to@.len() >= 1,
            plan.resize_to@[0] == stored_entries + plan.entries,
            plan.selection@.len() >= 1,
            plan.selection@[0] == (SliceSpec::SliceCount {
                start: stored_entries,
                count: plan.entries,
                step: 1,
                block: 1,
            }),
            data.len() == stored_entries * self.item_len(),
            fill.len() == plan.entries * self.item_len(),
        ensures
            plan.selection@[0] matches SliceSpec::SliceCount { start, count, step, block } && {
                let written = write_rows(data + fill, self.item_len(), start as nat, self.pending());
                &&& written == data + self.pending()
                &&& written.len() == plan.resize_to@[0] * self.item_len()
                &&& forall|k: int|
                    0 <= k < stored_entries ==> #[trigger] entry_at(written, self.item_len(), k)
                        == entry_at(data, self.item_len(), k)
                &&& forall|j: int|
                    0 <= j < count ==> #[trigger] entry_at(
                        written,
                        self.item_len(),
                        stored_entries + j,
                    ) == entry_at(self.pending(), self.item_len(), j)
            },
    {
        self.lemma_wf();
        let m = self.item_len();
        let s = stored_entries as nat;
        let n = plan.entries as nat;
        assert(plan.resize_to@[0] * m == s * m + n * m) by (nonlinear_arith)
            requires
                plan.resize_to@[0] == s + n,
        ;
        let grown = data + fill;
        assert(grown.take((s * m) as int) =~= data);
        assert(grown.skip((s * m + self.pending().len()) as int) =~= Seq::<T>::empty());
        let written = write_rows(grown, m, s, self.pending());
        assert(written =~= data + self.pending());
        assert forall|k: int| 0 <= k < stored_entries implies #[trigger] entry_at(written, m, k)
            == entry_at(data, m, k) by {
            assert((k + 1) * m <= s * m) by (nonlinear_arith)
                requires
                    k + 1 <= s,
            ;
            assert(k * m >= 0) by (nonlinear_arith)
                requires
                    k >= 0,
            ;
            assert((k + 1) * m == k * m + m) by (nonlinear_arith);
            assert(entry_at(written, m, k) =~= entry_at(data, m, k));
        }
        assert forall|j: int| 0 <= j < plan.entries implies #[trigger] entry_at(
            written,
            m,
            stored_entries + j,
        ) == entry_at(self.pending(), m, j) by {
            assert((s + j) * m == s * m + j * m) by (nonlinear_arith);
            assert((s + j + 1) * m == s * m + (j + 1) * m) by (nonlinear_arith);
            assert(j * m >= 0) by (nonlinear_arith)
                requires
                    j >= 0,
            ;
            assert((j + 1) * m <= n * m) by (nonlinear_arith)
                requires
                    j + 1 <= n,
            ;
            assert((j + 1) * m == j * m + m) by (nonlinear_arith);
            assert(entry_at(written, m, stored_entries + j) =~= entry_at(self.pending(), m, j));
        }
    }

    /// Law (round trip): once nothing is buffered, the stored elements read
    /// back as entries give, at every index, the entry accepted at that
    /// index.
    pub proof fn law_round_trip(&self, k: int)
        requires
            self.wf(),
            self.pending().len() == 0,
            0 <= k < self.accepted().len(),
        ensures
            entry_at(self.committed(), self.item_len(), k) == self.accepted()[k],
            self.committed().len() == self.accepted().len() * self.item_len(),
    {
        self.lemma_wf();
        lemma_entries_of_concat(self.accepted(), self.item_len());
        assert(self.committed() + self.pending() =~= self.committed());
    }
}

impl<T> TableHdf5Writer<T> {
    /// Law (a table flush plan appends the buffered rows): take a table
    /// that holds `stored_rows` rows, grow it to the plan's row count with
    /// rows of any contents `fill`, and write the buffered rows from the row
    /// the plan's selection starts at.  The result is the former rows
    /// followed by the buffered rows: no stored row is overwritten, and row
    /// `stored_rows + j` is buffered row `j`.
    pub proof fn law_table_flush_appends(
        &self,
        stored_rows: usize,
        plan: DumpPlan,
        data: Seq<T>,
        fill: Seq<T>,
    )
        requires
            self.wf(),
            plan.entries == self.pending().len(),
            stored_rows + plan.entries <= usize::MAX,
            plan.resize_to@ == seq![(stored_rows + plan.entries) as usize],
            plan.selection@.len() == 1,
            plan.selection@[0] == (SliceSpec::SliceCount {
                start: stored_rows,
                count: plan.entries,
                step: 1,
                block: 1,
            }),
            data.len() == stored_rows,
            fill.len() == plan.entries,
        ensures
            plan.selection@[0] matches SliceSpec::SliceCount { start, count, step, block } && {
                let written = write_rows(data + fill, 1, start as nat, self.pending());
                &&& written == data + self.pending()
                &&& written.len() == plan.resize_to@[0]
                &&& forall|k: int| 0 <= k < stored_rows ==> #[trigger] written[k] == data[k]
                &&& forall|j: int|
                    0 <= j < count ==> #[trigger] written[stored_rows + j] == self.pending()[j]
            },
    {
        self.lemma_wf();
        let s = stored_rows as nat;
        assert(s * 1 == s) by (nonlinear_arith);
        let grown = data + fill;
        assert(grown.take(s as int) =~= data);
        assert(grown.skip((s + self.pending().len()) as int) =~= Seq::<T>::empty());
        let written = write_rows(grown, 1, s, self.pending());
        assert(written =~= data + self.pending());
        assert(plan.resize_to@[0] == stored_rows + plan.entries);
    }

    /// Law (table round trip): once nothing is buffered, the stored rows are
    /// exactly the written rows, in the order of writing.
    pub proof fn law_table_round_trip(&self)
        requires
            self.wf(),
            self.pending().len() == 0,
        ensures
            self.committed() == self.written(),
    {
        self.lemma_wf();
        assert(self.committed() + self.pending() =~= self.committed());
    }
}

} // verus!
