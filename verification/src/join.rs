//! The nested-loop join: every outer tuple against every inner tuple,
//! schema-widened, optionally `ON`-filtered.

use vstd::prelude::*;
use crate::{ScanIterator, drain};
use crate::schema::{
    Column, ColumnV, TableInfo, TableInfoError, TableInfoV, build_synthetic_meta,
    duplicate_columns, synthetic_meta,
};
use crate::selector::{
    Selector, compile_join, compile_join_spec, sel_filter, lemma_sel_filter_identity,
    lemma_sel_filter_len, lemma_sel_filter_widths, lemma_sel_filter_full_means_all_pass,
    lemma_sel_filter_all_pass, all_true,
};
use crate::statement::Condition;
use crate::tuple::{Tuple, ValueV};

verus! {

/// A column list with every offset shifted by `k`.
pub open spec fn shift_columns(cols: Seq<ColumnV>, k: int) -> Seq<ColumnV> {
    Seq::new(
        cols.len(),
        |i: int| ColumnV {
            table_name: cols[i].table_name,
            name: cols[i].name,
            dtype: cols[i].dtype,
            offset: cols[i].offset + k,
        },
    )
}

/// A join's result schema: the outer columns followed by the inner columns,
/// inner offsets shifted by the outer column count.
pub open spec fn merged_columns(outer: Seq<ColumnV>, inner: Seq<ColumnV>) -> Seq<ColumnV> {
    outer + shift_columns(inner, outer.len() as int)
}

/// One outer tuple concatenated with each inner tuple, in inner order.
pub open spec fn cross_row(o: Seq<ValueV>, inners: Seq<Seq<ValueV>>) -> Seq<Seq<ValueV>> {
    Seq::new(inners.len(), |i: int| o + inners[i])
}

/// The Cartesian product of two tuple streams, outer-major: all pairings of
/// the first outer tuple, then all of the second, and so on.
pub open spec fn cross(outers: Seq<Seq<ValueV>>, inners: Seq<Seq<ValueV>>) -> Seq<Seq<ValueV>>
    decreases outers.len(),
{
    if outers.len() == 0 {
        Seq::empty()
    } else {
        cross_row(outers[0], inners) + cross(outers.drop_first(), inners)
    }
}

/// The product of an `n`-tuple stream with an `m`-tuple stream holds exactly
/// `n * m` tuples.
pub proof fn lemma_cross_len(outers: Seq<Seq<ValueV>>, inners: Seq<Seq<ValueV>>)
    ensures
        cross(outers, inners).len() == outers.len() * inners.len(),
    decreases outers.len(),
{
    if outers.len() > 0 {
        lemma_cross_len(outers.drop_first(), inners);
        assert((outers.len() - 1) * inners.len() + inners.len() == outers.len() * inners.len())
            by (nonlinear_arith);
    }
}

/// Crossing streams of uniform widths emits tuples of the summed width.
pub proof fn lemma_cross_widths(outers: Seq<Seq<ValueV>>, inners: Seq<Seq<ValueV>>, wo: int, wi: int)
    requires
        forall|i: int| 0 <= i < outers.len() ==> (#[trigger] outers[i]).len() == wo,
        forall|i: int| 0 <= i < inners.len() ==> (#[trigger] inners[i]).len() == wi,
    ensures
        forall|i: int| 0 <= i < cross(outers, inners).len()
            ==> (#[trigger] cross(outers, inners)[i]).len() == wo + wi,
    decreases outers.len(),
{
    if outers.len() > 0 {
        assert(forall|i: int| 0 <= i < outers.drop_first().len()
            ==> (#[trigger] outers.drop_first()[i]).len() == wo);
        lemma_cross_widths(outers.drop_first(), inners, wo, wi);
        let c = cross(outers, inners);
        let head = cross_row(outers[0], inners);
        let rest = cross(outers.drop_first(), inners);
        assert forall|i: int| 0 <= i < c.len() implies (#[trigger] c[i]).len() == wo + wi by {
            if i < head.len() {
                assert(c[i] == head[i]);
            } else {
                assert(c[i] == rest[i - head.len()]);
            }
        }
    }
}

/// A join emits at most one tuple per pairing: its output is no longer than
/// the product of its children's outputs.  Equality holds exactly when
/// every pairing passes the `ON` filter — in particular with no `ON`
/// condition at all.
pub proof fn lemma_join_output_size(
    outers: Seq<Seq<ValueV>>,
    inners: Seq<Seq<ValueV>>,
    sels: Seq<crate::selector::SelectorV>,
    cols: Seq<ColumnV>,
)
    ensures
        sel_filter(cross(outers, inners), sels, cols).len() <= outers.len() * inners.len(),
        sels.len() == 0 ==> sel_filter(cross(outers, inners), sels, cols).len() == outers.len()
            * inners.len(),
        (forall|i: int| 0 <= i < cross(outers, inners).len()
            ==> all_true(sels, #[trigger] cross(outers, inners)[i], cols)) ==> sel_filter(
            cross(outers, inners),
            sels,
            cols,
        ).len() == outers.len() * inners.len(),
        sel_filter(cross(outers, inners), sels, cols).len() == outers.len() * inners.len()
            ==> (forall|i: int| 0 <= i < cross(outers, inners).len()
            ==> all_true(sels, #[trigger] cross(outers, inners)[i], cols)),
{
    let c = cross(outers, inners);
    lemma_cross_len(outers, inners);
    lemma_sel_filter_len(c, sels, cols);
    if sels.len() == 0 {
        lemma_sel_filter_identity(c, sels, cols);
    }
    if forall|i: int| 0 <= i < c.len() ==> all_true(sels, #[trigger] c[i], cols) {
        lemma_sel_filter_all_pass(c, sels, cols);
    }
    if sel_filter(c, sels, cols).len() == c.len() {
        lemma_sel_filter_full_means_all_pass(c, sels, cols);
    }
}

/// The failures a join can report while it is built.
#[derive(Debug, PartialEq, Eq, Structural, Clone, Copy)]
pub enum JoinExecError {
    TableInfoError(TableInfoError),
}

impl From<TableInfoError> for JoinExecError {
    fn from(err: TableInfoError) -> (r: JoinExecError) {
        JoinExecError::TableInfoError(err)
    }
}

impl vstd::std_specs::convert::FromSpecImpl<TableInfoError> for JoinExecError {
    open spec fn obeys_from_spec() -> bool {
        true
    }

    open spec fn from_spec(err: TableInfoError) -> JoinExecError {
        JoinExecError::TableInfoError(err)
    }
}

/// The binary operator: strict nested loops, outer-major.  The inner stream
/// is materialized once, at construction, so that it can be rewound for
/// every outer tuple; the cursor state is `(current outer tuple, position in
/// the inner buffer)`.
pub struct NestedLoopJoinExec<O: ScanIterator> {
    pub outer: O,
    pub inner_buf: Vec<Tuple>,
    pub current: Option<Tuple>,
    pub inner_pos: usize,
    pub selectors: Vec<Selector>,
    pub columns: Vec<Column>,
    pub meta: TableInfo,
}

impl<O: ScanIterator> NestedLoopJoinExec<O> {
    /// The width of the buffered inner tuples.
    pub open spec fn inner_width(&self) -> int {
        self.columns.deep_view().len() - self.outer.columns().len()
    }

    /// The joined tuples not yet offered to the `ON` filter: the pairings
    /// left for the current outer tuple, then those of every outer tuple
    /// still pending.
    pub open spec fn rest_cross(&self) -> Seq<Seq<ValueV>> {
        (match self.current {
            Some(t) => cross_row(t@, self.inner_buf.deep_view().skip(self.inner_pos as int)),
            None => Seq::empty(),
        }) + cross(self.outer.pending(), self.inner_buf.deep_view())
    }

    /// Builds a join of two child operators, materializing the inner one.
    /// The optional `ON` comparison is compiled against the merged schema;
    /// an unknown right-hand column name fails fast.  Without a condition
    /// the join emits the full Cartesian product.
    pub fn new<I: ScanIterator>(outer: O, inner: I, condition: Option<Condition>) -> (r: Result<
        NestedLoopJoinExec<O>,
        JoinExecError,
    >)
        requires
            outer.inv(),
            inner.inv(),
            outer.columns().len() + inner.columns().len() <= usize::MAX,
        ensures
            match r {
                Ok(j) => {
                    &&& j.inv()
                    &&& j.columns() == merged_columns(outer.columns(), inner.columns())
                    &&& j.meta() == synthetic_meta(merged_columns(outer.columns(), inner.columns()))
                    &&& match condition.deep_view() {
                        None => j.selectors.deep_view() =~= Seq::<crate::selector::SelectorV>::empty()
                            && j.pending() == cross(outer.pending(), inner.pending()),
                        Some(c) => compile_join_spec(
                            c,
                            merged_columns(outer.columns(), inner.columns()),
                        ) == Some(j.selectors.deep_view()) && j.pending() == sel_filter(
                            cross(outer.pending(), inner.pending()),
                            j.selectors.deep_view(),
                            merged_columns(outer.columns(), inner.columns()),
                        ),
                    }
                },
                Err(e) => {
                    &&& condition.deep_view() matches Some(c) && compile_join_spec(
                        c,
                        merged_columns(outer.columns(), inner.columns()),
                    ) is None
                    &&& e == JoinExecError::TableInfoError(TableInfoError::ColumnNotFoundError)
                },
            },
    {
        let ghost ocv = outer.columns();
        let ghost icv = inner.columns();
        let ghost inner_pending = inner.pending();
        proof {
            outer.columns_wf();
            inner.columns_wf();
            inner.pending_wf();
        }
        let mut inner = inner;
        let outer_cols = outer.get_columns();
        let inner_cols = inner.get_columns();
        let inner_buf = drain(&mut inner);

        let outer_len = outer_cols.len();
        let mut columns = duplicate_columns(&outer_cols);
        let mut i: usize = 0;
        while i < inner_cols.len()
            invariant
                i <= inner_cols@.len(),
                outer_len == ocv.len(),
                inner_cols.deep_view() == icv,
                forall|k: int| 0 <= k < icv.len() ==> (#[trigger] icv[k]).offset == k,
                ocv.len() + icv.len() <= usize::MAX,
                columns@.len() == ocv.len() + i,
                forall|k: int| 0 <= k < columns@.len() ==> (#[trigger] columns.deep_view()[k])
                    == merged_columns(ocv, icv)[k],
            decreases inner_cols@.len() - i,
        {
            let c = &inner_cols[i];
            assert((inner_cols@[i as int])@ == icv[i as int]);
            let ghost before = columns.deep_view();
            columns.push(
                Column {
                    table_name: c.table_name.clone(),
                    name: c.name.clone(),
                    dtype: c.dtype,
                    offset: c.offset + outer_len,
                },
            );
            proof {
                assert forall|k: int| 0 <= k < columns@.len()
                    implies (#[trigger] columns.deep_view()[k]) == merged_columns(ocv, icv)[k] by {
                    assert(columns.deep_view()[k] == (columns@[k])@);
                    if k < before.len() {
                        assert((columns@[k])@ == before[k]);
                    }
                }
            }
            i = i + 1;
        }
        assert(columns.deep_view() =~= merged_columns(ocv, icv));

        let selectors: Vec<Selector> = match condition {
            None => Vec::new(),
            Some(c) => match compile_join(c, &columns) {
                Ok(s) => s,
                Err(e) => {
                    return Err(JoinExecError::TableInfoError(e));
                },
            },
        };
        let meta = build_synthetic_meta(&columns);
        let j = NestedLoopJoinExec {
            outer,
            inner_buf,
            current: None,
            inner_pos: 0,
            selectors,
            columns,
            meta,
        };
        proof {
            assert(j.inner_buf.deep_view() == inner_pending);
            assert forall|k: int| 0 <= k < j.inner_buf@.len()
                implies (#[trigger] j.inner_buf@[k])@.len() == j.inner_width() by {
                assert((j.inner_buf@[k])@ == j.inner_buf.deep_view()[k]);
                assert(j.inner_buf.deep_view()[k] == inner_pending[k]);
            }
            assert(j.rest_cross() =~= cross(j.outer.pending(), inner_pending));
            if j.selectors@.len() == 0 {
                lemma_sel_filter_identity(
                    j.rest_cross(),
                    j.selectors.deep_view(),
                    j.columns.deep_view(),
                );
            }
        }
        Ok(j)
    }
}

impl<O: ScanIterator> ScanIterator for NestedLoopJoinExec<O> {
    open spec fn columns(&self) -> Seq<ColumnV> {
        self.columns.deep_view()
    }

    open spec fn pending(&self) -> Seq<Seq<ValueV>> {
        sel_filter(self.rest_cross(), self.selectors.deep_view(), self.columns.deep_view())
    }

    open spec fn meta(&self) -> TableInfoV {
        self.meta@
    }

    open spec fn inv(&self) -> bool {
        &&& self.outer.inv()
        &&& self.inner_pos <= self.inner_buf@.len()
        &&& self.columns.deep_view().len() >= self.outer.columns().len()
        &&& (self.current matches Some(t) ==> t@.len() == self.outer.columns().len())
        &&& forall|i: int| 0 <= i < self.inner_buf@.len() ==> (#[trigger] self.inner_buf@[i])@.len()
            == self.inner_width()
        &&& forall|i: int| 0 <= i < self.columns.deep_view().len()
            ==> (#[trigger] self.columns.deep_view()[i]).offset == i
    }

    proof fn pending_wf(&self) {
        let w = self.columns.deep_view().len() as int;
        let wo = self.outer.columns().len() as int;
        self.outer.pending_wf();
        lemma_cross_widths(
            self.outer.pending(),
            self.inner_buf.deep_view(),
            wo,
            self.inner_width(),
        );
        let rest = self.rest_cross();
        assert forall|i: int| 0 <= i < rest.len() implies (#[trigger] rest[i]).len() == w by {
            match self.current {
                Some(t) => {
                    let head = cross_row(t@, self.inner_buf.deep_view().skip(self.inner_pos as int));
                    if i < head.len() {
                        assert(rest[i] == head[i]);
                        assert(self.inner_buf.deep_view().skip(self.inner_pos as int)[i]
                            == self.inner_buf.deep_view()[self.inner_pos + i]);
                    } else {
                        assert(rest[i] == cross(self.outer.pending(), self.inner_buf.deep_view())[
                            i - head.len()]);
                    }
                },
                None => {
                    assert(rest[i] == cross(self.outer.pending(), self.inner_buf.deep_view())[i]);
                },
            }
        }
        lemma_sel_filter_widths(rest, self.selectors.deep_view(), self.columns.deep_view(), w);
    }

    proof fn columns_wf(&self) {
    }

    fn next(&mut self) -> (r: Option<Tuple>) {
        loop
            invariant
                self.inv(),
                self.columns == old(self).columns,
                self.selectors == old(self).selectors,
                self.meta == old(self).meta,
                self.inner_buf == old(self).inner_buf,
                self.outer.columns() == old(self).outer.columns(),
                self.outer.meta() == old(self).outer.meta(),
                sel_filter(self.rest_cross(), self.selectors.deep_view(), self.columns.deep_view())
                    == old(self).pending(),
            decreases
                self.outer.pending().len(),
                (if self.current is Some { 1int } else { 0int }),
                self.inner_buf@.len() - self.inner_pos,
        {
            let ghost rest_before = self.rest_cross();
            if self.current.is_none() {
                let ghost op = self.outer.pending();
                match self.outer.next() {
                    None => {
                        proof {
                            assert(op.len() == 0);
                            assert(rest_before =~= Seq::<Seq<ValueV>>::empty());
                            assert(self.rest_cross() =~= Seq::<Seq<ValueV>>::empty());
                            assert(old(self).pending() =~= self.pending());
                        }
                        return None;
                    },
                    Some(t) => {
                        self.current = Some(t);
                        self.inner_pos = 0;
                        proof {
                            let buf = self.inner_buf.deep_view();
                            assert(buf.skip(0) =~= buf);
                            assert(cross(op, buf) == cross_row(op[0], buf) + cross(
                                op.drop_first(),
                                buf,
                            ));
                            assert(self.rest_cross() =~= rest_before);
                        }
                    },
                }
            } else if self.inner_pos < self.inner_buf.len() {
                let joined = match &self.current {
                    Some(cur) => cur.append(&self.inner_buf[self.inner_pos]),
                    None => Tuple::empty(),
                };
                let ghost cur_v = self.current->Some_0@;
                let ghost buf = self.inner_buf.deep_view();
                let ghost p = self.inner_pos as int;
                self.inner_pos = self.inner_pos + 1;
                proof {
                    let head = cross_row(cur_v, buf.skip(p));
                    assert(head.len() == buf.len() - p);
                    assert(head[0] == cur_v + buf.skip(p)[0]);
                    assert(buf.skip(p)[0] == buf[p]);
                    assert(rest_before[0] == head[0]);
                    assert(joined@ == rest_before[0]);
                    assert(cross_row(cur_v, buf.skip(p + 1)) =~= head.drop_first());
                    assert(self.rest_cross() =~= rest_before.drop_first());
                }
                if crate::selector::eval_all(&self.selectors, &joined, &self.columns) {
                    proof {
                        assert(sel_filter(
                            rest_before,
                            self.selectors.deep_view(),
                            self.columns.deep_view(),
                        ) == seq![rest_before[0]] + sel_filter(
                            rest_before.drop_first(),
                            self.selectors.deep_view(),
                            self.columns.deep_view(),
                        ));
                        assert(old(self).pending()[0] == joined@);
                        assert(self.pending() =~= old(self).pending().drop_first());
                        assert(joined@.len() == self.columns.deep_view().len());
                    }
                    return Some(joined);
                }
                proof {
                    assert(sel_filter(
                        rest_before,
                        self.selectors.deep_view(),
                        self.columns.deep_view(),
                    ) == sel_filter(
                        rest_before.drop_first(),
                        self.selectors.deep_view(),
                        self.columns.deep_view(),
                    ));
                }
            } else {
                proof {
                    let cur_v = self.current->Some_0@;
                    let buf = self.inner_buf.deep_view();
                    assert(cross_row(cur_v, buf.skip(self.inner_pos as int)).len() == 0);
                }
                self.current = None;
                proof {
                    assert(self.rest_cross() =~= rest_before);
                }
            }
        }
    }

    fn get_columns(&self) -> (r: Vec<Column>) {
        duplicate_columns(&self.columns)
    }

    fn get_meta(&self) -> (r: TableInfo) {
        self.meta.duplicate()
    }
}

} // verus!
