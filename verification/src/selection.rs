//! The Selection operator: passes a tuple iff every selector holds of it.

use vstd::prelude::*;
use crate::ScanIterator;
use crate::schema::{Column, ColumnV, TableInfo, TableInfoV, duplicate_columns};
use crate::selector::{Selector, eval_all, sel_filter, lemma_sel_filter_widths};
use crate::tuple::{Tuple, ValueV};

verus! {

/// A unary operator holding a child and a compiled selector list; it drains
/// the child and emits exactly the tuples on which every selector holds.
pub struct SelectionExec<C: ScanIterator> {
    pub child: C,
    pub selectors: Vec<Selector>,
    pub columns: Vec<Column>,
}

impl<C: ScanIterator> SelectionExec<C> {
    /// Wraps a child operator with a selector list.
    pub fn new(child: C, selectors: Vec<Selector>) -> (r: SelectionExec<C>)
        requires
            child.inv(),
        ensures
            r.inv(),
            r.columns() == child.columns(),
            r.meta() == child.meta(),
            r.selectors.deep_view() == selectors.deep_view(),
            r.pending() == sel_filter(child.pending(), selectors.deep_view(), child.columns()),
    {
        let columns = child.get_columns();
        SelectionExec { child, selectors, columns }
    }
}

impl<C: ScanIterator> ScanIterator for SelectionExec<C> {
    open spec fn columns(&self) -> Seq<ColumnV> {
        self.child.columns()
    }

    open spec fn pending(&self) -> Seq<Seq<ValueV>> {
        sel_filter(self.child.pending(), self.selectors.deep_view(), self.child.columns())
    }

    open spec fn meta(&self) -> TableInfoV {
        self.child.meta()
    }

    open spec fn inv(&self) -> bool {
        &&& self.child.inv()
        &&& self.columns.deep_view() == self.child.columns()
    }

    proof fn pending_wf(&self) {
        self.child.pending_wf();
        lemma_sel_filter_widths(
            self.child.pending(),
            self.selectors.deep_view(),
            self.child.columns(),
            self.columns().len() as int,
        );
    }

    proof fn columns_wf(&self) {
        self.child.columns_wf();
    }

    fn next(&mut self) -> (r: Option<Tuple>) {
        loop
            invariant
                self.child.inv(),
                self.columns.deep_view() == self.child.columns(),
                self.selectors == old(self).selectors,
                self.columns == old(self).columns,
                self.child.columns() == old(self).child.columns(),
                self.child.meta() == old(self).child.meta(),
                sel_filter(self.child.pending(), self.selectors.deep_view(), self.child.columns())
                    == old(self).pending(),
            decreases self.child.pending().len(),
        {
            let ghost before = self.child.pending();
            match self.child.next() {
                None => {
                    assert(before.len() == 0);
                    assert(old(self).pending() =~= self.pending());
                    return None;
                },
                Some(t) => {
                    assert(t@ == before[0]);
                    assert(self.child.pending() == before.drop_first());
                    if eval_all(&self.selectors, &t, &self.columns) {
                        assert(sel_filter(before, self.selectors.deep_view(), self.child.columns())
                            == seq![before[0]] + sel_filter(
                            before.drop_first(),
                            self.selectors.deep_view(),
                            self.child.columns(),
                        ));
                        assert(old(self).pending()[0] == t@);
                        assert(self.pending() =~= old(self).pending().drop_first());
                        return Some(t);
                    }
                    assert(sel_filter(before, self.selectors.deep_view(), self.child.columns())
                        == sel_filter(
                        before.drop_first(),
                        self.selectors.deep_view(),
                        self.child.columns(),
                    ));
                },
            }
        }
    }

    fn get_columns(&self) -> (r: Vec<Column>) {
        duplicate_columns(&self.columns)
    }

    fn get_meta(&self) -> (r: TableInfo) {
        self.child.get_meta()
    }
}

} // verus!
