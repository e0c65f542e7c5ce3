//! The catalog: table metadata and storage, addressed by table name.

use vstd::prelude::*;
use crate::memory_table::MemoryTable;
use crate::schema::{TableInfo, TableInfoV, table_info_wf};
use crate::tuple::{Tuple, ValueV};

verus! {

/// The failures a catalog lookup can report.
#[derive(Debug, PartialEq, Eq, Structural, Clone, Copy)]
pub enum DatabaseError {
    TableNotFoundError,
}

/// The index of the first table with the given name.
pub open spec fn resolve_table(infos: Seq<TableInfoV>, name: Seq<char>) -> Option<int>
    decreases infos.len(),
{
    if infos.len() == 0 {
        None
    } else if infos[0].name == name {
        Some(0)
    } else {
        match resolve_table(infos.drop_first(), name) {
            None => None,
            Some(i) => Some(i + 1),
        }
    }
}

/// One step of [`resolve_table`].
proof fn lemma_resolve_table_bounds(infos: Seq<TableInfoV>, name: Seq<char>)
    ensures
        match resolve_table(infos, name) {
            None => true,
            Some(i) => 0 <= i < infos.len() && infos[i].name == name,
        },
    decreases infos.len(),
{
    if infos.len() > 0 && infos[0].name != name {
        lemma_resolve_table_bounds(infos.drop_first(), name);
    }
}

/// The catalog: parallel lists of table metadata and table storage.
#[derive(Debug)]
pub struct Database {
    pub infos: Vec<TableInfo>,
    pub tables: Vec<MemoryTable>,
}

impl Database {
    /// Catalog well-formedness: metadata and storage run in parallel, every
    /// schema is gapless, every stored row is as wide as its schema, and
    /// each table's record counter stands one past its row count.
    pub open spec fn wf(&self) -> bool {
        &&& self.infos@.len() == self.tables@.len()
        &&& forall|i: int| 0 <= i < self.infos@.len()
            ==> table_info_wf(#[trigger] self.infos.deep_view()[i])
        &&& forall|i: int| 0 <= i < self.infos@.len()
            ==> (#[trigger] self.infos.deep_view()[i]).next_record_id
                == self.tables@[i]@.len() + 1
        &&& forall|i: int, j: int| 0 <= i < self.infos@.len() && 0 <= j < self.tables@[i]@.len()
            ==> (#[trigger] self.tables@[i]@[j]).len() == self.infos.deep_view()[i].columns.len()
    }

    /// An empty catalog.
    pub fn new() -> (r: Database)
        ensures
            r.wf(),
            r.infos@.len() == 0,
    {
        Database { infos: Vec::new(), tables: Vec::new() }
    }

    /// Registers a table: its metadata, and empty storage for its rows.
    pub fn add_table(&mut self, info: TableInfo)
        requires
            old(self).wf(),
            table_info_wf(info@),
            info@.next_record_id == 1,
        ensures
            final(self).wf(),
            final(self).infos.deep_view() == old(self).infos.deep_view().push(info@),
            final(self).tables@.len() == old(self).tables@.len() + 1,
            forall|i: int| 0 <= i < old(self).tables@.len() ==> #[trigger] final(self).tables@[i]
                == old(self).tables@[i],
            final(self).tables@[old(self).tables@.len() as int]@.len() == 0,
    {
        self.infos.push(info);
        self.tables.push(MemoryTable::new());
        assert(self.infos.deep_view() =~= old(self).infos.deep_view().push(info@));
        assert forall|i: int| 0 <= i < self.infos@.len()
            implies (#[trigger] self.infos.deep_view()[i]).next_record_id
                == self.tables@[i]@.len() + 1 by {
            if i < old(self).infos@.len() {
                assert(self.infos.deep_view()[i] == old(self).infos.deep_view()[i]);
            }
        }
    }

    /// Finds the index of the table with the given name, per
    /// [`resolve_table`].
    pub fn table_index_from_str(&self, name: &str) -> (r: Result<usize, DatabaseError>)
        ensures
            match r {
                Ok(i) => resolve_table(self.infos.deep_view(), name@) == Some(i as int)
                    && i < self.infos@.len(),
                Err(e) => resolve_table(self.infos.deep_view(), name@) is None
                    && e == DatabaseError::TableNotFoundError,
            },
    {
        let key: String = name.to_owned();
        let ghost iv = self.infos.deep_view();
        let mut i: usize = 0;
        loop
            invariant
                i <= self.infos@.len(),
                iv == self.infos.deep_view(),
                key@ == name@,
                forall|k: int| 0 <= k < i ==> (#[trigger] iv[k]).name != name@,
            decreases self.infos@.len() - i,
        {
            if i == self.infos.len() {
                proof {
                    lemma_resolve_table_bounds(iv, name@);
                }
                return Err(DatabaseError::TableNotFoundError);
            }
            if self.infos[i].name.eq(&key) {
                proof {
                    assert((self.infos@[i as int])@ == iv[i as int]);
                    lemma_resolve_table_first(iv, name@, i as int);
                }
                return Ok(i);
            }
            proof {
                assert((self.infos@[i as int])@ == iv[i as int]);
            }
            i = i + 1;
        }
    }

    /// The metadata of the table at an index, copied.
    pub fn table_info_at(&self, i: usize) -> (r: TableInfo)
        requires
            i < self.infos@.len(),
        ensures
            r@ == self.infos.deep_view()[i as int],
    {
        let r = self.infos[i].duplicate();
        assert((self.infos@[i as int])@ == self.infos.deep_view()[i as int]);
        r
    }

    /// The storage of the table at an index.
    pub fn table_at(&self, i: usize) -> (r: &MemoryTable)
        requires
            i < self.tables@.len(),
        ensures
            r == self.tables@[i as int],
    {
        &self.tables[i]
    }

    /// Appends a row to the table at an index and steps its record counter.
    pub fn insert_at(&mut self, i: usize, row: Tuple)
        requires
            old(self).wf(),
            i < old(self).infos@.len(),
            row@.len() == old(self).infos.deep_view()[i as int].columns.len(),
            old(self).infos.deep_view()[i as int].next_record_id < u64::MAX,
        ensures
            final(self).wf(),
            final(self).infos@.len() == old(self).infos@.len(),
            final(self).tables@[i as int]@ == old(self).tables@[i as int]@.push(row@),
            final(self).infos.deep_view()[i as int] == (TableInfoV {
                id: old(self).infos.deep_view()[i as int].id,
                name: old(self).infos.deep_view()[i as int].name,
                columns: old(self).infos.deep_view()[i as int].columns,
                next_record_id: old(self).infos.deep_view()[i as int].next_record_id + 1,
            }),
            forall|k: int| 0 <= k < old(self).infos@.len() && k != i
                ==> #[trigger] final(self).tables@[k] == old(self).tables@[k],
            forall|k: int| 0 <= k < old(self).infos@.len() && k != i
                ==> #[trigger] final(self).infos.deep_view()[k] == old(self).infos.deep_view()[k],
    {
        let table = &mut self.tables[i];
        table.insert(row);
        let info = &mut self.infos[i];
        info.next_record_id.increment();
        proof {
            assert forall|k: int| 0 <= k < self.infos@.len() && k != i
                implies #[trigger] self.infos.deep_view()[k] == old(self).infos.deep_view()[k] by {
                assert(self.infos@[k] == old(self).infos@[k]);
            }
            assert(self.infos.deep_view()[i as int].columns == old(self).infos.deep_view()[
                i as int].columns);
        }
    }
}

/// When a matching prefix is scanned past without a hit and the table at `i`
/// matches, resolution lands exactly on `i`.
proof fn lemma_resolve_table_first(infos: Seq<TableInfoV>, name: Seq<char>, i: int)
    requires
        0 <= i < infos.len(),
        forall|k: int| 0 <= k < i ==> (#[trigger] infos[k]).name != name,
        infos[i].name == name,
    ensures
        resolve_table(infos, name) == Some(i),
    decreases i,
{
    if i > 0 {
        assert(forall|k: int| 0 <= k < i - 1
            ==> (#[trigger] infos.drop_first()[k]).name != name);
        lemma_resolve_table_first(infos.drop_first(), name, i - 1);
    }
}

} // verus!
