//! The execution context a client carries between statements.

use vstd::prelude::*;
use crate::database::Database;
use crate::schema::Allocator;

verus! {

/// The shared state statements run against: an optional active catalog and
/// the table-id counter.
#[derive(Debug)]
pub struct Context {
    pub db: Option<Database>,
    pub table_id_alloc: Allocator,
}

/// A context is well-formed when its catalog, if any, is.
pub open spec fn context_wf(ctx: &Context) -> bool {
    match ctx.db {
        None => true,
        Some(db) => db.wf(),
    }
}

impl Context {
    /// A context over a catalog.
    pub fn new(db: Option<Database>, table_id_alloc: Allocator) -> (r: Context)
        ensures
            r.db == db,
            r.table_id_alloc == table_id_alloc,
    {
        Context { db, table_id_alloc }
    }
}

} // verus!
