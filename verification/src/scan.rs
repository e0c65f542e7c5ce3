//! The leaf operator: a table scan restricted to record-id ranges.

use vstd::prelude::*;
use crate::ScanIterator;
use crate::memory_table::MemoryTable;
use crate::schema::{
    Column, ColumnV, TableInfo, TableInfoV, duplicate_columns, qualified_columns, table_info_wf,
};
use crate::tuple::{Tuple, ValueV};

verus! {

/// An inclusive record-id interval `[low, high]` limiting a table scan.
#[derive(Clone, Copy, PartialEq, Eq, Structural, Debug)]
pub struct ScanRange {
    pub low: u64,
    pub high: u64,
}

impl ScanRange {
    /// The inclusive interval `[low, high]`.
    pub fn new(low: u64, high: u64) -> (r: ScanRange)
        ensures
            r == (ScanRange { low, high }),
    {
        ScanRange { low, high }
    }
}

/// Whether a record id falls within any of the ranges.
pub open spec fn id_in_ranges(id: int, ranges: Seq<ScanRange>) -> bool {
    exists|j: int| 0 <= j < ranges.len() && (#[trigger] ranges[j]).low <= id <= ranges[j].high
}

/// The rows among the first `n` whose record id (index plus one) falls in
/// any range, in ascending record-id order.
pub open spec fn selected_rows(rows: Seq<Seq<ValueV>>, ranges: Seq<ScanRange>, n: int) -> Seq<Seq<ValueV>>
    decreases n,
{
    if n <= 0 {
        Seq::empty()
    } else if id_in_ranges(n, ranges) {
        selected_rows(rows, ranges, n - 1) + seq![rows[n - 1]]
    } else {
        selected_rows(rows, ranges, n - 1)
    }
}

/// A scan over the single range `[1, rows.len()]` selects every row, in
/// order: the default whole-table scan.
pub proof fn lemma_selected_rows_full(rows: Seq<Seq<ValueV>>, n: int)
    requires
        0 <= n <= rows.len(),
        rows.len() <= u64::MAX,
    ensures
        selected_rows(rows, seq![ScanRange { low: 1, high: rows.len() as u64 }], n)
            == rows.take(n),
    decreases n,
{
    let ranges = seq![ScanRange { low: 1, high: rows.len() as u64 }];
    if n > 0 {
        lemma_selected_rows_full(rows, n - 1);
        assert(ranges[0].low <= n <= ranges[0].high);
        assert(id_in_ranges(n, ranges));
        assert(rows.take(n - 1) + seq![rows[n - 1]] =~= rows.take(n));
    } else {
        assert(selected_rows(rows, ranges, n) =~= rows.take(n));
    }
}

/// Whether a record id falls within any of the ranges, per [`id_in_ranges`].
fn ranges_contain(ranges: &Vec<ScanRange>, id: u64) -> (r: bool)
    ensures
        r == id_in_ranges(id as int, ranges@),
{
    let mut j: usize = 0;
    while j < ranges.len()
        invariant
            j <= ranges@.len(),
            forall|k: int| 0 <= k < j ==> !((#[trigger] ranges@[k]).low <= id <= ranges@[k].high),
        decreases ranges@.len() - j,
    {
        if ranges[j].low <= id && id <= ranges[j].high {
            return true;
        }
        j = j + 1;
    }
    false
}

/// The leaf operator: emits every row of a base table whose record id falls
/// within any of the given inclusive ranges, in ascending record-id order.
#[derive(Debug)]
pub struct MemoryTableScanExec {
    pub buffer: Vec<Tuple>,
    pub cursor: usize,
    pub columns: Vec<Column>,
    pub meta: TableInfo,
}

impl MemoryTableScanExec {
    /// Builds a scan of `table` (described by `meta`) over `ranges`.  With no
    /// ranges, the scan is empty.
    pub fn new(table: &MemoryTable, meta: TableInfo, ranges: Vec<ScanRange>) -> (r: MemoryTableScanExec)
        requires
            table@.len() < u64::MAX,
            table_info_wf(meta@),
            forall|i: int| 0 <= i < table@.len() ==> (#[trigger] table@[i]).len()
                == meta@.columns.len(),
        ensures
            r.inv(),
            r.columns() == qualified_columns(meta@),
            r.meta() == meta@,
            r.pending() == selected_rows(table@, ranges@, table@.len() as int),
    {
        let mut columns: Vec<Column> = Vec::new();
        let mut i: usize = 0;
        while i < meta.columns.len()
            invariant
                i <= meta.columns@.len(),
                columns@.len() == i,
                forall|k: int| 0 <= k < i ==> columns@[k]@ == qualified_columns(meta@)[k],
            decreases meta.columns@.len() - i,
        {
            columns.push(
                Column {
                    table_name: meta.name.clone(),
                    name: meta.columns[i].name.clone(),
                    dtype: meta.columns[i].dtype,
                    offset: meta.columns[i].offset,
                },
            );
            i = i + 1;
        }
        assert(columns.deep_view() =~= qualified_columns(meta@));

        let mut buffer: Vec<Tuple> = Vec::new();
        let mut j: usize = 0;
        while j < table.rows.len()
            invariant
                j <= table.rows@.len(),
                table@.len() < u64::MAX,
                buffer.deep_view() =~= selected_rows(table@, ranges@, j as int),
                forall|k: int| 0 <= k < table@.len() ==> (#[trigger] table@[k]).len()
                    == meta@.columns.len(),
                forall|k: int| 0 <= k < buffer@.len() ==> (#[trigger] buffer@[k])@.len()
                    == meta@.columns.len(),
            decreases table.rows@.len() - j,
        {
            let id: u64 = (j as u64) + 1;
            if ranges_contain(&ranges, id) {
                buffer.push(table.rows[j].duplicate());
            }
            j = j + 1;
            assert(buffer.deep_view() =~= selected_rows(table@, ranges@, j as int));
        }
        let r = MemoryTableScanExec { buffer, cursor: 0, columns, meta };
        assert(r.pending() =~= selected_rows(table@, ranges@, table@.len() as int));
        r
    }
}

impl ScanIterator for MemoryTableScanExec {
    open spec fn columns(&self) -> Seq<ColumnV> {
        self.columns.deep_view()
    }

    open spec fn pending(&self) -> Seq<Seq<ValueV>> {
        self.buffer.deep_view().skip(self.cursor as int)
    }

    open spec fn meta(&self) -> TableInfoV {
        self.meta@
    }

    open spec fn inv(&self) -> bool {
        &&& self.cursor <= self.buffer@.len()
        &&& forall|i: int| 0 <= i < self.buffer@.len() ==> (#[trigger] self.buffer@[i])@.len()
            == self.columns.deep_view().len()
        &&& forall|i: int| 0 <= i < self.columns.deep_view().len()
            ==> (#[trigger] self.columns.deep_view()[i]).offset == i
    }

    proof fn pending_wf(&self) {
    }

    proof fn columns_wf(&self) {
    }

    fn next(&mut self) -> (r: Option<Tuple>) {
        if self.cursor < self.buffer.len() {
            let t = self.buffer[self.cursor].duplicate();
            self.cursor = self.cursor + 1;
            proof {
                assert(old(self).pending()[0] == old(self).buffer.deep_view()[old(self).cursor as int]);
                assert(self.pending() =~= old(self).pending().drop_first());
            }
            Some(t)
        } else {
            proof {
                assert(self.pending().len() == 0);
            }
            None
        }
    }

    fn get_columns(&self) -> (r: Vec<Column>) {
        duplicate_columns(&self.columns)
    }

    fn get_meta(&self) -> (r: TableInfo) {
        self.meta.duplicate()
    }
}

} // verus!
