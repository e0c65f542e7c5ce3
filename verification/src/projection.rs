//! The Projection operator: narrows each tuple to the target columns.

use vstd::prelude::*;
use crate::ScanIterator;
use crate::schema::{
    Column, ColumnV, TableInfo, TableInfoError, TableInfoV, build_synthetic_meta,
    duplicate_columns, lemma_resolve_target_some, resolve_target, synthetic_meta,
};
use crate::statement::TargetRef;
use crate::tuple::{Tuple, ValueV, project_seq};

verus! {

/// The stream a projection emits: each child tuple narrowed to `offsets`.
pub open spec fn project_all(ts: Seq<Seq<ValueV>>, offsets: Seq<usize>) -> Seq<Seq<ValueV>> {
    Seq::new(ts.len(), |i: int| project_seq(ts[i], offsets))
}

/// Projecting a stream of `n`-wide tuples onto the identity offsets
/// `0..n-1` returns the stream unchanged.
pub proof fn lemma_projection_identity(ts: Seq<Seq<ValueV>>, offsets: Seq<usize>, n: int)
    requires
        offsets.len() == n,
        forall|j: int| 0 <= j < n ==> #[trigger] offsets[j] == j,
        forall|i: int| 0 <= i < ts.len() ==> (#[trigger] ts[i]).len() == n,
    ensures
        project_all(ts, offsets) == ts,
{
    assert forall|i: int| 0 <= i < ts.len()
        implies #[trigger] project_all(ts, offsets)[i] == ts[i] by {
        assert(project_all(ts, offsets)[i] == project_seq(ts[i], offsets));
        assert(project_seq(ts[i], offsets) =~= ts[i]);
    }
    assert(project_all(ts, offsets) =~= ts);
}

/// A unary operator that narrows each child tuple to the target columns, in
/// the order the targets declare.  Targets are resolved against the child's
/// schema once, at construction.
pub struct ProjectionExec<C: ScanIterator> {
    pub child: C,
    pub offsets: Vec<usize>,
    pub columns: Vec<Column>,
    pub meta: TableInfo,
}

impl<C: ScanIterator> ProjectionExec<C> {
    /// Resolves every target against the child's schema and wraps the child.
    /// An unknown target name fails fast, before any tuple flows.
    pub fn new(child: C, targets: Vec<TargetRef>) -> (r: Result<ProjectionExec<C>, TableInfoError>)
        requires
            child.inv(),
        ensures
            match r {
                Ok(p) => {
                    &&& p.inv()
                    &&& p.offsets@.len() == targets@.len()
                    &&& forall|j: int| 0 <= j < targets@.len()
                        ==> resolve_target(child.columns(), targets.deep_view()[j])
                            == Some(#[trigger] p.offsets@[j] as int)
                    &&& p.columns().len() == targets@.len()
                    &&& forall|j: int| 0 <= j < targets@.len() ==> (#[trigger] p.columns()[j])
                        == (ColumnV {
                            table_name: child.columns()[p.offsets@[j] as int].table_name,
                            name: child.columns()[p.offsets@[j] as int].name,
                            dtype: child.columns()[p.offsets@[j] as int].dtype,
                            offset: j,
                        })
                    &&& p.meta() == synthetic_meta(p.columns())
                    &&& p.pending() == project_all(child.pending(), p.offsets@)
                },
                Err(e) => {
                    &&& exists|j: int| 0 <= j < targets@.len()
                        && resolve_target(child.columns(), #[trigger] targets.deep_view()[j]) is None
                    &&& e == TableInfoError::ColumnNotFoundError
                },
            },
    {
        let child_cols = child.get_columns();
        proof {
            child.columns_wf();
        }
        let mut offsets: Vec<usize> = Vec::new();
        let mut columns: Vec<Column> = Vec::new();
        let mut j: usize = 0;
        while j < targets.len()
            invariant
                j <= targets@.len(),
                child.inv(),
                child_cols.deep_view() == child.columns(),
                forall|i: int| 0 <= i < child.columns().len()
                    ==> (#[trigger] child.columns()[i]).offset == i,
                offsets@.len() == j,
                columns@.len() == j,
                forall|k: int| 0 <= k < j
                    ==> resolve_target(child.columns(), targets.deep_view()[k])
                        == Some(#[trigger] offsets@[k] as int),
                forall|k: int| 0 <= k < j ==> offsets@[k] < child.columns().len(),
                forall|k: int| 0 <= k < j ==> (#[trigger] columns.deep_view()[k])
                    == (ColumnV {
                        table_name: child.columns()[offsets@[k] as int].table_name,
                        name: child.columns()[offsets@[k] as int].name,
                        dtype: child.columns()[offsets@[k] as int].dtype,
                        offset: k,
                    }),
            decreases targets@.len() - j,
        {
            let off = match crate::schema::find_column(&child_cols, &targets[j]) {
                None => {
                    assert(resolve_target(child.columns(), targets.deep_view()[j as int]) is None);
                    return Err(TableInfoError::ColumnNotFoundError);
                },
                Some(o) => o,
            };
            proof {
                lemma_resolve_target_some(child.columns(), targets.deep_view()[j as int], off as int);
            }
            assert(off < child.columns().len());
            let c = &child_cols[off];
            let ghost cols_before = columns.deep_view();
            let ghost offs_before = offsets@;
            columns.push(
                Column {
                    table_name: c.table_name.clone(),
                    name: c.name.clone(),
                    dtype: c.dtype,
                    offset: j,
                },
            );
            offsets.push(off);
            proof {
                assert(offsets@ =~= offs_before.push(off));
                assert((child_cols@[off as int])@ == child_cols.deep_view()[off as int]);
                assert forall|k: int| 0 <= k < j + 1 implies (#[trigger] columns.deep_view()[k])
                    == (ColumnV {
                        table_name: child.columns()[offsets@[k] as int].table_name,
                        name: child.columns()[offsets@[k] as int].name,
                        dtype: child.columns()[offsets@[k] as int].dtype,
                        offset: k,
                    }) by {
                    assert(columns.deep_view()[k] == (columns@[k])@);
                    if k < j {
                        assert((columns@[k])@ == cols_before[k]);
                        assert(offsets@[k] == offs_before[k]);
                    } else {
                        assert(offsets@[k] == off);
                    }
                }
            }
            j = j + 1;
        }
        let meta = build_synthetic_meta(&columns);
        let p = ProjectionExec { child, offsets, columns, meta };
        proof {
            assert(p.pending() =~= project_all(p.child.pending(), p.offsets@));
        }
        Ok(p)
    }
}

impl<C: ScanIterator> ScanIterator for ProjectionExec<C> {
    open spec fn columns(&self) -> Seq<ColumnV> {
        self.columns.deep_view()
    }

    open spec fn pending(&self) -> Seq<Seq<ValueV>> {
        project_all(self.child.pending(), self.offsets@)
    }

    open spec fn meta(&self) -> TableInfoV {
        self.meta@
    }

    open spec fn inv(&self) -> bool {
        &&& self.child.inv()
        &&& self.columns@.len() == self.offsets@.len()
        &&& forall|j: int| 0 <= j < self.offsets@.len() ==> (#[trigger] self.offsets@[j])
            < self.child.columns().len()
        &&& forall|j: int| 0 <= j < self.columns.deep_view().len()
            ==> (#[trigger] self.columns.deep_view()[j]).offset == j
    }

    proof fn pending_wf(&self) {
        assert(forall|i: int| 0 <= i < self.pending().len()
            ==> (#[trigger] self.pending()[i]).len() == self.offsets@.len());
    }

    proof fn columns_wf(&self) {
    }

    fn next(&mut self) -> (r: Option<Tuple>) {
        let ghost before = self.child.pending();
        match self.child.next() {
            None => {
                assert(self.pending() =~= old(self).pending());
                assert(before.len() == 0 && self.pending().len() == 0);
                None
            },
            Some(t) => {
                assert(t@.len() == self.child.columns().len());
                let p = t.project(&self.offsets);
                assert(p@ == old(self).pending()[0]);
                assert(self.pending() =~= old(self).pending().drop_first());
                Some(p)
            },
        }
    }

    fn get_columns(&self) -> (r: Vec<Column>) {
        duplicate_columns(&self.columns)
    }

    fn get_meta(&self) -> (r: TableInfo) {
        self.meta.duplicate()
    }
}

} // verus!
