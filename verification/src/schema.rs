//! Schemas: column metadata, table metadata, and name-to-offset resolution.

use vstd::prelude::*;
use crate::tuple::DataType;
use crate::statement::{TargetRef, TargetRefV};

verus! {

/// A monotonically increasing id counter.
#[derive(Debug)]
pub struct Allocator {
    pub base: u64,
}

impl Allocator {
    /// A counter starting at `base`.
    pub fn new(base: u64) -> (r: Allocator)
        ensures
            r.base == base,
    {
        Allocator { base }
    }

    /// Steps the counter by one.
    pub fn increment(&mut self)
        requires
            old(self).base < u64::MAX,
        ensures
            final(self).base == old(self).base + 1,
    {
        self.base = self.base + 1;
    }

    /// A copy of the counter.
    pub fn duplicate(&self) -> (r: Allocator)
        ensures
            r.base == self.base,
    {
        Allocator { base: self.base }
    }
}

/// Mathematical model of a [`ColumnInfo`].
pub ghost struct ColumnInfoV {
    pub name: Seq<char>,
    pub dtype: DataType,
    pub offset: int,
}

/// A column of a base table: its name, dtype, and index within the table's
/// tuples.
#[derive(Debug)]
pub struct ColumnInfo {
    pub name: String,
    pub dtype: DataType,
    pub offset: usize,
}

impl View for ColumnInfo {
    type V = ColumnInfoV;

    open spec fn view(&self) -> ColumnInfoV {
        ColumnInfoV { name: self.name@, dtype: self.dtype, offset: self.offset as int }
    }
}

impl DeepView for ColumnInfo {
    type V = ColumnInfoV;

    open spec fn deep_view(&self) -> ColumnInfoV {
        self@
    }
}

impl ColumnInfo {
    /// A structural copy.
    pub fn duplicate(&self) -> (r: ColumnInfo)
        ensures
            r@ == self@,
    {
        ColumnInfo { name: self.name.clone(), dtype: self.dtype, offset: self.offset }
    }
}

/// Mathematical model of a [`Column`].
pub ghost struct ColumnV {
    pub table_name: Seq<char>,
    pub name: Seq<char>,
    pub dtype: DataType,
    pub offset: int,
}

/// A qualified column of the tuples an operator emits; `offset` indexes the
/// CURRENT operator's tuple-space, which may differ from any base table's.
#[derive(Debug)]
pub struct Column {
    pub table_name: String,
    pub name: String,
    pub dtype: DataType,
    pub offset: usize,
}

impl View for Column {
    type V = ColumnV;

    open spec fn view(&self) -> ColumnV {
        ColumnV {
            table_name: self.table_name@,
            name: self.name@,
            dtype: self.dtype,
            offset: self.offset as int,
        }
    }
}

impl DeepView for Column {
    type V = ColumnV;

    open spec fn deep_view(&self) -> ColumnV {
        self@
    }
}

impl Column {
    /// A structural copy.
    pub fn duplicate(&self) -> (r: Column)
        ensures
            r@ == self@,
    {
        Column {
            table_name: self.table_name.clone(),
            name: self.name.clone(),
            dtype: self.dtype,
            offset: self.offset,
        }
    }
}

/// Whether a column answers to a target reference: the names agree, and a
/// qualifier, if present, agrees with the column's table name.
pub open spec fn target_matches(c: ColumnV, t: TargetRefV) -> bool {
    c.name == t.name && match t.table_name {
        None => true,
        Some(q) => q == c.table_name,
    }
}

/// The offset of the first column answering to a target reference.
pub open spec fn resolve_target(cols: Seq<ColumnV>, t: TargetRefV) -> Option<int>
    decreases cols.len(),
{
    if cols.len() == 0 {
        None
    } else if target_matches(cols[0], t) {
        Some(cols[0].offset)
    } else {
        resolve_target(cols.drop_first(), t)
    }
}

/// One step of [`resolve_target`]: skipping a non-matching column keeps the
/// result.
proof fn lemma_resolve_target_step(cols: Seq<ColumnV>, t: TargetRefV, i: int)
    requires
        0 <= i < cols.len(),
        !target_matches(cols[i], t),
    ensures
        resolve_target(cols.skip(i), t) == resolve_target(cols.skip(i + 1), t),
{
    assert(cols.skip(i).drop_first() =~= cols.skip(i + 1));
}

/// A resolved target names the offset of some matching column.
pub proof fn lemma_resolve_target_some(cols: Seq<ColumnV>, t: TargetRefV, o: int)
    requires
        resolve_target(cols, t) == Some(o),
    ensures
        exists|k: int| 0 <= k < cols.len() && (#[trigger] cols[k]).offset == o
            && target_matches(cols[k], t),
    decreases cols.len(),
{
    if cols.len() > 0 {
        if target_matches(cols[0], t) {
            assert(cols[0].offset == o);
        } else {
            lemma_resolve_target_some(cols.drop_first(), t, o);
            let k = choose|k: int| 0 <= k < cols.drop_first().len()
                && (#[trigger] cols.drop_first()[k]).offset == o
                && target_matches(cols.drop_first()[k], t);
            assert(cols[k + 1] == cols.drop_first()[k]);
        }
    }
}

/// The synthetic metadata of an operator whose schema is not any base
/// table's: id 0, empty name, record counter at 1.
pub open spec fn synthetic_meta(cols: Seq<ColumnV>) -> TableInfoV {
    TableInfoV {
        id: 0,
        name: Seq::empty(),
        columns: Seq::new(
            cols.len(),
            |i: int| ColumnInfoV { name: cols[i].name, dtype: cols[i].dtype, offset: cols[i].offset },
        ),
        next_record_id: 1,
    }
}

/// Builds the synthetic [`TableInfo`] for a derived schema, per
/// [`synthetic_meta`].
pub fn build_synthetic_meta(cols: &Vec<Column>) -> (r: TableInfo)
    ensures
        r@ == synthetic_meta(cols.deep_view()),
{
    let mut infos: Vec<ColumnInfo> = Vec::new();
    let mut i: usize = 0;
    while i < cols.len()
        invariant
            i <= cols@.len(),
            infos@.len() == i,
            forall|k: int| 0 <= k < i ==> infos@[k]@ == synthetic_meta(cols.deep_view()).columns[k],
        decreases cols@.len() - i,
    {
        infos.push(
            ColumnInfo { name: cols[i].name.clone(), dtype: cols[i].dtype, offset: cols[i].offset },
        );
        i = i + 1;
    }
    assert(infos.deep_view() =~= synthetic_meta(cols.deep_view()).columns);
    let r = TableInfo { id: 0, name: String::new(), columns: infos, next_record_id: Allocator::new(1) };
    proof {
        assert(r@.name =~= Seq::<char>::empty());
        assert(r@.columns =~= synthetic_meta(cols.deep_view()).columns);
    }
    r
}

/// Whether a column matches a target reference.
fn column_matches(c: &Column, t: &TargetRef) -> (r: bool)
    ensures
        r == target_matches(c@, t@),
{
    if !c.name.eq(&t.name) {
        return false;
    }
    match &t.table_name {
        None => true,
        Some(q) => q.eq(&c.table_name),
    }
}

/// Finds the first column answering to a target reference, per
/// [`resolve_target`].
pub fn find_column(cols: &Vec<Column>, t: &TargetRef) -> (r: Option<usize>)
    ensures
        match r {
            Some(o) => resolve_target(cols.deep_view(), t@) == Some(o as int),
            None => resolve_target(cols.deep_view(), t@) is None,
        },
{
    let ghost cv = cols.deep_view();
    let mut i: usize = 0;
    assert(cv.skip(0) =~= cv);
    loop
        invariant
            i <= cols@.len(),
            cv == cols.deep_view(),
            resolve_target(cv, t@) == resolve_target(cv.skip(i as int), t@),
        decreases cols@.len() - i,
    {
        if i == cols.len() {
            assert(cv.skip(i as int).len() == 0);
            return None;
        }
        assert(cv.skip(i as int)[0] == cv[i as int]);
        if column_matches(&cols[i], t) {
            return Some(cols[i].offset);
        }
        proof {
            lemma_resolve_target_step(cv, t@, i as int);
        }
        i = i + 1;
    }
}

/// The qualified runtime columns of a base table: each catalog column under
/// the table's name, native offsets kept.
pub open spec fn qualified_columns(t: TableInfoV) -> Seq<ColumnV> {
    Seq::new(
        t.columns.len(),
        |i: int| ColumnV {
            table_name: t.name,
            name: t.columns[i].name,
            dtype: t.columns[i].dtype,
            offset: t.columns[i].offset,
        },
    )
}

/// A structural copy of a column list.
pub fn duplicate_columns(cols: &Vec<Column>) -> (r: Vec<Column>)
    ensures
        r.deep_view() == cols.deep_view(),
{
    let mut out: Vec<Column> = Vec::new();
    let mut i: usize = 0;
    while i < cols.len()
        invariant
            i <= cols@.len(),
            out@.len() == i,
            forall|k: int| 0 <= k < i ==> out@[k]@ == cols.deep_view()[k],
        decreases cols@.len() - i,
    {
        out.push(cols[i].duplicate());
        i = i + 1;
    }
    assert(out.deep_view() =~= cols.deep_view());
    out
}

/// Mathematical model of a [`TableInfo`].
pub ghost struct TableInfoV {
    pub id: int,
    pub name: Seq<char>,
    pub columns: Seq<ColumnInfoV>,
    pub next_record_id: int,
}

/// The catalog's description of a table.  `next_record_id` counts from 1 and
/// is allocated on insert.
#[derive(Debug)]
pub struct TableInfo {
    pub id: u64,
    pub name: String,
    pub columns: Vec<ColumnInfo>,
    pub next_record_id: Allocator,
}

impl View for TableInfo {
    type V = TableInfoV;

    open spec fn view(&self) -> TableInfoV {
        TableInfoV {
            id: self.id as int,
            name: self.name@,
            columns: self.columns.deep_view(),
            next_record_id: self.next_record_id.base as int,
        }
    }
}

impl DeepView for TableInfo {
    type V = TableInfoV;

    open spec fn deep_view(&self) -> TableInfoV {
        self@
    }
}

/// Well-formedness of a table's schema: offsets run `0..N-1` without gaps.
pub open spec fn table_info_wf(t: TableInfoV) -> bool {
    forall|i: int| 0 <= i < t.columns.len() ==> (#[trigger] t.columns[i]).offset == i
}

/// The index of the first catalog column with the given name.
pub open spec fn resolve_column_info(cols: Seq<ColumnInfoV>, name: Seq<char>) -> Option<int>
    decreases cols.len(),
{
    if cols.len() == 0 {
        None
    } else if cols[0].name == name {
        Some(cols[0].offset)
    } else {
        resolve_column_info(cols.drop_first(), name)
    }
}

/// One step of [`resolve_column_info`].
proof fn lemma_resolve_column_info_step(cols: Seq<ColumnInfoV>, name: Seq<char>, i: int)
    requires
        0 <= i < cols.len(),
        cols[i].name != name,
    ensures
        resolve_column_info(cols.skip(i), name) == resolve_column_info(cols.skip(i + 1), name),
{
    assert(cols.skip(i).drop_first() =~= cols.skip(i + 1));
}

/// The schema-lookup failures a catalog operation can report.
#[derive(Debug, PartialEq, Eq, Structural, Clone, Copy)]
pub enum TableInfoError {
    ColumnNotFoundError,
}

impl TableInfo {
    /// A structural copy of the metadata.
    pub fn duplicate(&self) -> (r: TableInfo)
        ensures
            r@ == self@,
    {
        let mut columns: Vec<ColumnInfo> = Vec::new();
        let mut i: usize = 0;
        while i < self.columns.len()
            invariant
                i <= self.columns.len(),
                columns@.len() == i,
                forall|k: int| 0 <= k < i ==> columns@[k]@ == self@.columns[k],
            decreases self.columns.len() - i,
        {
            columns.push(self.columns[i].duplicate());
            i = i + 1;
        }
        assert(columns.deep_view() =~= self@.columns);
        TableInfo {
            id: self.id,
            name: self.name.clone(),
            columns,
            next_record_id: self.next_record_id.duplicate(),
        }
    }

    /// Looks a column up by name, per [`resolve_column_info`].
    pub fn column_info_from_str(&self, name: &str) -> (r: Result<&ColumnInfo, TableInfoError>)
        ensures
            match r {
                Ok(c) => resolve_column_info(self@.columns, name@) == Some(c@.offset),
                Err(e) => resolve_column_info(self@.columns, name@) is None
                    && e == TableInfoError::ColumnNotFoundError,
            },
    {
        let key: String = name.to_owned();
        let ghost cv = self@.columns;
        let mut i: usize = 0;
        assert(cv.skip(0) =~= cv);
        loop
            invariant
                i <= self.columns@.len(),
                cv == self.columns.deep_view(),
                key@ == name@,
                resolve_column_info(cv, name@) == resolve_column_info(cv.skip(i as int), name@),
            decreases self.columns@.len() - i,
        {
            if i == self.columns.len() {
                assert(cv.skip(i as int).len() == 0);
                return Err(TableInfoError::ColumnNotFoundError);
            }
            assert(cv.skip(i as int)[0] == cv[i as int]);
            if self.columns[i].name.eq(&key) {
                return Ok(&self.columns[i]);
            }
            proof {
                lemma_resolve_column_info_step(cv, name@, i as int);
            }
            i = i + 1;
        }
    }
}

} // verus!
