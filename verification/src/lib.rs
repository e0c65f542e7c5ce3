//! A small in-memory relational query engine.
//!
//! The crate models the pull-based pipeline of physical operators that
//! executes a parsed `SELECT` statement against in-memory tables:
//! `Scan -> [Join] -> Selection -> Projection`.  Every operator implements
//! the scanning-iterator contract declared in [`ScanIterator`], and the
//! predicate compiler turns a boolean `WHERE` tree into the flat list of
//! selectors that `Selection` applies conjunctively.

use vstd::prelude::*;

pub mod client;
pub mod context;
pub mod database;
pub mod join;
pub mod memory_table;
pub mod projection;
pub mod selection;
pub mod scan;
pub mod schema;
pub mod selector;
pub mod statement;
pub mod tuple;

use crate::schema::{Column, ColumnV, TableInfo, TableInfoV};
use crate::tuple::{Tuple, ValueV};

verus! {

/// The uniform pull contract every physical operator provides and consumes.
///
/// An operator models itself by the schema of the tuples it emits
/// ([`ScanIterator::columns`]) and by the sequence of tuples it has yet to
/// emit ([`ScanIterator::pending`]).  `next` pulls the head of that sequence;
/// end-of-stream is sticky: once `pending` is empty it stays empty.
pub trait ScanIterator: Sized {
    /// The qualified columns of emitted tuples, with offsets in THIS
    /// operator's tuple-space.
    spec fn columns(&self) -> Seq<ColumnV>;

    /// The tuples this operator has yet to emit, in emission order.
    spec fn pending(&self) -> Seq<Seq<ValueV>>;

    /// The schema metadata this operator produces.
    spec fn meta(&self) -> TableInfoV;

    /// The operator's internal well-formedness.
    spec fn inv(&self) -> bool;

    /// Every tuple yet to be emitted is exactly as wide as the schema.
    proof fn pending_wf(&self)
        requires
            self.inv(),
        ensures
            forall|i: int| 0 <= i < self.pending().len()
                ==> (#[trigger] self.pending()[i]).len() == self.columns().len(),
    ;

    /// The schema indexes this operator's own tuple-space: the column at
    /// position `i` carries offset `i`.
    proof fn columns_wf(&self)
        requires
            self.inv(),
        ensures
            forall|i: int| 0 <= i < self.columns().len()
                ==> (#[trigger] self.columns()[i]).offset == i,
    ;

    /// Pulls the next tuple.  `None` signals end-of-stream and is sticky:
    /// with nothing pending, this call and every later one return `None`.
    /// An emitted tuple is exactly as wide as `get_columns()` is long.
    fn next(&mut self) -> (r: Option<Tuple>)
        requires
            old(self).inv(),
        ensures
            final(self).inv(),
            final(self).columns() == old(self).columns(),
            final(self).meta() == old(self).meta(),
            old(self).pending().len() == 0 ==> r is None && final(self).pending()
                == old(self).pending(),
            old(self).pending().len() > 0 ==> (r matches Some(t) && t@ == old(self).pending()[0]
                && final(self).pending() == old(self).pending().drop_first()),
            r matches Some(t) ==> t@.len() == final(self).columns().len(),
    ;

    /// The qualified columns of the tuples this operator emits.
    fn get_columns(&self) -> (r: Vec<Column>)
        requires
            self.inv(),
        ensures
            r.deep_view() == self.columns(),
    ;

    /// The schema metadata this operator produces.
    fn get_meta(&self) -> (r: TableInfo)
        requires
            self.inv(),
        ensures
            r@ == self.meta(),
    ;
}

/// Pulls an operator dry: the tuples it had yet to emit, in emission order.
pub fn drain<T: ScanIterator>(op: &mut T) -> (r: Vec<Tuple>)
    requires
        old(op).inv(),
    ensures
        final(op).inv(),
        final(op).columns() == old(op).columns(),
        final(op).meta() == old(op).meta(),
        final(op).pending().len() == 0,
        r.deep_view() == old(op).pending(),
{
    let mut out: Vec<Tuple> = Vec::new();
    loop
        invariant
            op.inv(),
            op.columns() == old(op).columns(),
            op.meta() == old(op).meta(),
            old(op).pending() =~= out.deep_view() + op.pending(),
        decreases op.pending().len(),
    {
        let ghost before = op.pending();
        match op.next() {
            None => {
                assert(out.deep_view() =~= old(op).pending());
                return out;
            },
            Some(t) => {
                out.push(t);
                assert(out.deep_view().drop_last() + seq![t@] =~= out.deep_view());
                assert(old(op).pending() =~= out.deep_view() + op.pending());
            },
        }
    }
}

} // verus!
