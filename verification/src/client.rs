//! The client: statement dispatch, the `WHERE` compiler, and the pipeline
//! builder that composes `Scan -> [Join] -> Selection -> Projection`.

use vstd::prelude::*;
use crate::{ScanIterator, drain};
use crate::context::{Context, context_wf};
use crate::database::{Database, DatabaseError, resolve_table};
use crate::join::{NestedLoopJoinExec, JoinExecError, cross, merged_columns};
use crate::projection::{ProjectionExec, project_all};
use crate::scan::{MemoryTableScanExec, ScanRange, lemma_selected_rows_full};
use crate::schema::{
    Allocator, ColumnInfo, ColumnInfoV, ColumnV, TableInfo, TableInfoError, TableInfoV,
    qualified_columns, resolve_target,
};
use crate::selection::SelectionExec;
use crate::selector::{
    RightHand, RightHandV, SelKind, Selector, SelectorV, all_true, compile_join_spec, direct_kind,
    lemma_all_true_concat, lemma_notequal_negates_equal, sel_comparable, sel_filter, sel_true,
};
use crate::statement::{
    Comparable, ComparableV, ConditionV, Conditions, ConditionsV, CreateStmt, CreateTableStmt,
    DDL, DML, InsertStmt, Operator, SelectStmt, Statement, TargetRefV,
};
use crate::tuple::{Tuple, ValueV};

verus! {

/// The failures statement execution can report.
#[derive(Debug, PartialEq, Eq, Structural, Clone, Copy)]
pub enum ClientError {
    DatabaseError(DatabaseError),
    TableInfoError(TableInfoError),
    BuildExecutorError,
    DatabaseNotFoundError,
}

impl From<DatabaseError> for ClientError {
    fn from(err: DatabaseError) -> (r: ClientError) {
        ClientError::DatabaseError(err)
    }
}

impl vstd::std_specs::convert::FromSpecImpl<DatabaseError> for ClientError {
    open spec fn obeys_from_spec() -> bool {
        true
    }

    open spec fn from_spec(err: DatabaseError) -> ClientError {
        ClientError::DatabaseError(err)
    }
}

impl From<TableInfoError> for ClientError {
    fn from(err: TableInfoError) -> (r: ClientError) {
        ClientError::TableInfoError(err)
    }
}

impl vstd::std_specs::convert::FromSpecImpl<TableInfoError> for ClientError {
    open spec fn obeys_from_spec() -> bool {
        true
    }

    open spec fn from_spec(err: TableInfoError) -> ClientError {
        ClientError::TableInfoError(err)
    }
}

/// Whether a predicate tree is in `WHERE` form: every leaf's right-hand side
/// is a literal or an offset, never an unresolved column name.
pub open spec fn where_form(c: ConditionsV) -> bool
    decreases c,
{
    match c {
        ConditionsV::And(l, r) => where_form(*l) && where_form(*r),
        ConditionsV::Or(l, r) => where_form(*l) && where_form(*r),
        ConditionsV::Leaf(cond) => !(cond.right is Word),
    }
}

/// Checks [`where_form`].
pub fn is_where_form(c: &Conditions) -> (r: bool)
    ensures
        r == where_form(c@),
    decreases *c,
{
    match c {
        Conditions::And(l, r) => is_where_form(l) && is_where_form(r),
        Conditions::Or(l, r) => is_where_form(l) && is_where_form(r),
        Conditions::Leaf(cond) => match &cond.right {
            Comparable::Word(_) => false,
            _ => true,
        },
    }
}

/// The operator a `WHERE` leaf compiles to OUTSIDE a disjunction: the
/// INVERSE of the written operator.  Selection applies selectors
/// conjunctively, so the default path filters OUT rows matching the
/// inverted comparison.
pub open spec fn inverted_kind(op: Operator) -> SelKind {
    match op {
        Operator::Equ => SelKind::NotEqual,
        Operator::NEqu => SelKind::Equal,
        Operator::GT => SelKind::LE,
        Operator::LT => SelKind::GE,
        Operator::GE => SelKind::LT,
        Operator::LE => SelKind::GT,
    }
}

/// The operator a `WHERE` leaf compiles to: as written under a disjunction,
/// inverted otherwise.
pub open spec fn where_kind(op: Operator, under_or: bool) -> SelKind {
    if under_or {
        direct_kind(op)
    } else {
        inverted_kind(op)
    }
}

/// The selector right-hand side a comparable compiles to.  A `Word` never
/// stands in a `WHERE` tree ([`where_form`]); it is mapped to an offset no
/// tuple has, so the selector would reject every row.
pub open spec fn right_of(c: ComparableV) -> RightHandV {
    match c {
        ComparableV::Lit(v) => RightHandV::Lit(v),
        ComparableV::Target(o) => RightHandV::Offset(o),
        ComparableV::Word(_) => RightHandV::Offset(-1),
    }
}

/// The selector one `WHERE` leaf compiles to.
pub open spec fn leaf_selector(c: ConditionV, under_or: bool) -> SelectorV {
    SelectorV { kind: where_kind(c.op, under_or), left: c.left, right: right_of(c.right) }
}

/// The flat selector list a `WHERE` tree compiles to: children of an `And`
/// are compiled outside a disjunction, children of an `Or` inside one, and
/// the lists are concatenated in tree order.
pub open spec fn compile_where(c: ConditionsV, under_or: bool) -> Seq<SelectorV>
    decreases c,
{
    match c {
        ConditionsV::And(l, r) => compile_where(*l, false) + compile_where(*r, false),
        ConditionsV::Or(l, r) => compile_where(*l, true) + compile_where(*r, true),
        ConditionsV::Leaf(cond) => seq![leaf_selector(cond, under_or)],
    }
}

/// The number of comparison leaves of a predicate tree.
pub open spec fn leaf_count(c: ConditionsV) -> int
    decreases c,
{
    match c {
        ConditionsV::And(l, r) => leaf_count(*l) + leaf_count(*r),
        ConditionsV::Or(l, r) => leaf_count(*l) + leaf_count(*r),
        ConditionsV::Leaf(_) => 1,
    }
}

/// The compiler is stable: whatever the context flag, the selector list is
/// exactly one selector per leaf of the tree.
pub proof fn lemma_compile_where_stable(c: ConditionsV, under_or: bool)
    ensures
        compile_where(c, under_or).len() == leaf_count(c),
    decreases c,
{
    match c {
        ConditionsV::And(l, r) => {
            lemma_compile_where_stable(*l, false);
            lemma_compile_where_stable(*r, false);
        },
        ConditionsV::Or(l, r) => {
            lemma_compile_where_stable(*l, true);
            lemma_compile_where_stable(*r, true);
        },
        ConditionsV::Leaf(_) => {},
    }
}

/// Compiles a `WHERE` tree into the flat selector list of
/// [`compile_where`], inverting each leaf's operator outside disjunctions.
pub fn execute_where(condition: Conditions, is_or: bool) -> (r: Vec<Selector>)
    requires
        where_form(condition@),
    ensures
        r.deep_view() == compile_where(condition@, is_or),
    decreases condition,
{
    match condition {
        Conditions::And(c1, c2) => {
            let mut selectors1 = execute_where(*c1, false);
            let mut selectors2 = execute_where(*c2, false);
            let ghost s1 = selectors1.deep_view();
            let ghost s2 = selectors2.deep_view();
            selectors1.append(&mut selectors2);
            assert(selectors1.deep_view() =~= s1 + s2);
            selectors1
        },
        Conditions::Or(c1, c2) => {
            let mut selectors1 = execute_where(*c1, true);
            let mut selectors2 = execute_where(*c2, true);
            let ghost s1 = selectors1.deep_view();
            let ghost s2 = selectors2.deep_view();
            selectors1.append(&mut selectors2);
            assert(selectors1.deep_view() =~= s1 + s2);
            selectors1
        },
        Conditions::Leaf(condition) => {
            let kind = match condition.op {
                Operator::Equ => if is_or {
                    SelKind::Equal
                } else {
                    SelKind::NotEqual
                },
                Operator::NEqu => if is_or {
                    SelKind::NotEqual
                } else {
                    SelKind::Equal
                },
                Operator::GT => if is_or {
                    SelKind::GT
                } else {
                    SelKind::LE
                },
                Operator::LT => if is_or {
                    SelKind::LT
                } else {
                    SelKind::GE
                },
                Operator::GE => if is_or {
                    SelKind::GE
                } else {
                    SelKind::LT
                },
                Operator::LE => if is_or {
                    SelKind::LE
                } else {
                    SelKind::GT
                },
            };
            let ghost cv = condition@;
            let right = match condition.right {
                Comparable::Lit(l) => RightHand::Lit(l),
                Comparable::Target(t) => RightHand::Offset(t),
                Comparable::Word(_) => vstd::pervasive::unreached(),
            };
            let ghost rv = right@;
            let ghost lv = condition.left@;
            let r = vec![Selector::new(kind, condition.left, right)];
            assert(r.deep_view() =~= seq![SelectorV { kind: kind, left: lv, right: rv }]);
            r
        },
    }
}

/// The selectors an optional `WHERE` clause compiles to.
pub open spec fn where_selectors(cond: Option<ConditionsV>) -> Seq<SelectorV> {
    match cond {
        None => Seq::empty(),
        Some(c) => compile_where(c, false),
    }
}

/// Whether an optional `WHERE` clause is in `WHERE` form.
pub open spec fn where_form_opt(cond: Option<ConditionsV>) -> bool {
    match cond {
        None => true,
        Some(c) => where_form(c),
    }
}

/// The offsets a projection list resolves to against a schema, or nothing
/// when some target is unknown.
pub open spec fn resolve_all(cols: Seq<ColumnV>, ts: Seq<TargetRefV>) -> Option<Seq<int>> {
    if forall|j: int| 0 <= j < ts.len() ==> resolve_target(cols, #[trigger] ts[j]) is Some {
        Some(Seq::new(ts.len(), |j: int| resolve_target(cols, ts[j])->Some_0))
    } else {
        None
    }
}

/// Each tuple of a stream narrowed to the given offsets, in their order.
pub open spec fn project_all_at(ts: Seq<Seq<ValueV>>, offs: Seq<int>) -> Seq<Seq<ValueV>> {
    Seq::new(ts.len(), |i: int| Seq::new(offs.len(), |j: int| ts[i][offs[j]]))
}

/// What a `SELECT` returns against a catalog.
///
/// One table: its rows, `WHERE`-filtered under its qualified schema, then
/// projected.  Two tables: the Cartesian product in outer-major order,
/// `ON`-filtered, `WHERE`-filtered under the merged schema, then projected.
/// Anything else, a `WHERE` not in `WHERE` form, or a merged schema too
/// wide for the machine, is a build error; an unknown table or column is a
/// lookup error.
pub open spec fn select_result(db: Database, stmt: SelectStmt) -> Result<
    Seq<Seq<ValueV>>,
    ClientError,
> {
    let names = stmt.source.tables.deep_view();
    if !where_form_opt(stmt.condition.deep_view()) {
        Err(ClientError::BuildExecutorError)
    } else if names.len() == 1 {
        match resolve_table(db.infos.deep_view(), names[0]) {
            None => Err(ClientError::DatabaseError(DatabaseError::TableNotFoundError)),
            Some(ti) => {
                let qcols = qualified_columns(db.infos.deep_view()[ti]);
                let filtered = sel_filter(
                    db.tables@[ti]@,
                    where_selectors(stmt.condition.deep_view()),
                    qcols,
                );
                match resolve_all(qcols, stmt.targets.deep_view()) {
                    None => Err(ClientError::TableInfoError(TableInfoError::ColumnNotFoundError)),
                    Some(offs) => Ok(project_all_at(filtered, offs)),
                }
            },
        }
    } else if names.len() == 2 {
        match resolve_table(db.infos.deep_view(), names[0]) {
            None => Err(ClientError::DatabaseError(DatabaseError::TableNotFoundError)),
            Some(li) => match resolve_table(db.infos.deep_view(), names[1]) {
                None => Err(ClientError::DatabaseError(DatabaseError::TableNotFoundError)),
                Some(ri) => {
                    let lcols = qualified_columns(db.infos.deep_view()[li]);
                    let rcols = qualified_columns(db.infos.deep_view()[ri]);
                    if lcols.len() + rcols.len() > usize::MAX {
                        Err(ClientError::BuildExecutorError)
                    } else {
                        let merged = merged_columns(lcols, rcols);
                        let on_sels = match stmt.source.condition.deep_view() {
                            None => Some(Seq::<SelectorV>::empty()),
                            Some(c) => compile_join_spec(c, merged),
                        };
                        match on_sels {
                            None => Err(
                                ClientError::TableInfoError(TableInfoError::ColumnNotFoundError),
                            ),
                            Some(onsels) => {
                                let joined = sel_filter(
                                    cross(db.tables@[li]@, db.tables@[ri]@),
                                    onsels,
                                    merged,
                                );
                                let filtered = sel_filter(
                                    joined,
                                    where_selectors(stmt.condition.deep_view()),
                                    merged,
                                );
                                match resolve_all(merged, stmt.targets.deep_view()) {
                                    None => Err(
                                        ClientError::TableInfoError(
                                            TableInfoError::ColumnNotFoundError,
                                        ),
                                    ),
                                    Some(offs) => Ok(project_all_at(filtered, offs)),
                                }
                            },
                        }
                    }
                },
            },
        }
    } else {
        Err(ClientError::BuildExecutorError)
    }
}

/// Projecting by resolved exec offsets equals projecting by the offsets the
/// spec-level resolution yields.
proof fn lemma_projection_bridge(
    ts: Seq<Seq<ValueV>>,
    cols: Seq<ColumnV>,
    targets: Seq<TargetRefV>,
    offsets: Seq<usize>,
)
    requires
        offsets.len() == targets.len(),
        forall|j: int| 0 <= j < targets.len() ==> resolve_target(cols, targets[j]) == Some(
            #[trigger] offsets[j] as int,
        ),
    ensures
        resolve_all(cols, targets) is Some,
        project_all(ts, offsets) == project_all_at(ts, resolve_all(cols, targets)->Some_0),
{
    assert forall|j: int| 0 <= j < targets.len()
        implies resolve_target(cols, #[trigger] targets[j]) is Some by {
        assert(resolve_target(cols, targets[j]) == Some(offsets[j] as int));
    }
    let offs = resolve_all(cols, targets)->Some_0;
    assert forall|j: int| 0 <= j < targets.len() implies #[trigger] offs[j] == offsets[j] as int by {
        assert(resolve_target(cols, targets[j]) == Some(offsets[j] as int));
    }
    assert forall|i: int| 0 <= i < ts.len()
        implies #[trigger] project_all(ts, offsets)[i] == project_all_at(ts, offs)[i] by {
        assert(project_all(ts, offsets)[i] == crate::tuple::project_seq(ts[i], offsets));
        assert(crate::tuple::project_seq(ts[i], offsets) =~= project_all_at(ts, offs)[i]);
    }
    assert(project_all(ts, offsets) =~= project_all_at(ts, offs));
}

/// Builds the pipeline for a `SELECT` (`Scan -> [Join] -> Selection ->
/// Projection`), drains it, and returns the emitted tuples, per
/// [`select_result`].  With no active catalog the build fails.
pub fn exec_select(ctx: &mut Context, stmt: SelectStmt) -> (r: Result<Vec<Tuple>, ClientError>)
    requires
        context_wf(old(ctx)),
    ensures
        *final(ctx) == *old(ctx),
        match old(ctx).db {
            None => r == Err::<Vec<Tuple>, ClientError>(ClientError::BuildExecutorError),
            Some(db) => match select_result(db, stmt) {
                Ok(s) => r matches Ok(v) && v.deep_view() == s,
                Err(e) => r matches Err(e2) && e2 == e,
            },
        },
{
    let db = match &ctx.db {
        None => {
            return Err(ClientError::BuildExecutorError);
        },
        Some(db) => db,
    };
    let where_ok = match &stmt.condition {
        None => true,
        Some(c) => is_where_form(c),
    };
    if !where_ok {
        return Err(ClientError::BuildExecutorError);
    }

    if stmt.source.tables.len() == 1 {
        let ti = match db.table_index_from_str(stmt.source.tables[0].as_str()) {
            Err(_) => {
                return Err(ClientError::DatabaseError(DatabaseError::TableNotFoundError));
            },
            Ok(i) => i,
        };
        let info = db.table_info_at(ti);
        let table = db.table_at(ti);
        let ghost rows = table@;
        assert(info.next_record_id.base >= 1);
        let high: u64 = info.next_record_id.base - 1;
        let ranges = vec![ScanRange::new(1, high)];
        proof {
            assert(ranges@ =~= seq![ScanRange { low: 1, high: rows.len() as u64 }]);
        }
        let scan_exec = MemoryTableScanExec::new(table, info, ranges);
        proof {
            lemma_selected_rows_full(rows, rows.len() as int);
            assert(rows.take(rows.len() as int) =~= rows);
            assert(scan_exec.pending() == rows);
        }
        let conditions: Vec<Selector> = match stmt.condition {
            None => Vec::new(),
            Some(condition) => execute_where(condition, false),
        };
        let ghost wsels = conditions.deep_view();
        proof {
            assert(wsels =~= where_selectors(stmt.condition.deep_view()));
        }
        let selection_exec = SelectionExec::new(scan_exec, conditions);
        let ghost filtered = selection_exec.pending();
        let mut proj_exec = match ProjectionExec::new(selection_exec, stmt.targets) {
            Err(e) => {
                return Err(ClientError::TableInfoError(e));
            },
            Ok(p) => p,
        };
        let ghost qcols = qualified_columns(db.infos.deep_view()[ti as int]);
        let ghost offs = resolve_all(qcols, stmt.targets.deep_view())->Some_0;
        let ghost offsets = proj_exec.offsets@;
        let out = drain(&mut proj_exec);
        proof {
            lemma_projection_bridge(filtered, qcols, stmt.targets.deep_view(), offsets);
            assert(out.deep_view() == project_all_at(filtered, offs));
        }
        Ok(out)
    } else if stmt.source.tables.len() == 2 {
        let li = match db.table_index_from_str(stmt.source.tables[0].as_str()) {
            Err(_) => {
                return Err(ClientError::DatabaseError(DatabaseError::TableNotFoundError));
            },
            Ok(i) => i,
        };
        let ri = match db.table_index_from_str(stmt.source.tables[1].as_str()) {
            Err(_) => {
                return Err(ClientError::DatabaseError(DatabaseError::TableNotFoundError));
            },
            Ok(i) => i,
        };
        let left_info = db.table_info_at(li);
        let rht_info = db.table_info_at(ri);
        let l_width = left_info.columns.len();
        let r_width = rht_info.columns.len();
        if l_width > usize::MAX - r_width {
            return Err(ClientError::BuildExecutorError);
        }
        let left_table = db.table_at(li);
        let rht_table = db.table_at(ri);
        let ghost lrows = left_table@;
        let ghost rrows = rht_table@;
        assert(left_info.next_record_id.base >= 1);
        assert(rht_info.next_record_id.base >= 1);
        let l_high: u64 = left_info.next_record_id.base - 1;
        let r_high: u64 = rht_info.next_record_id.base - 1;
        let l_ranges = vec![ScanRange::new(1, l_high)];
        let r_ranges = vec![ScanRange::new(1, r_high)];
        proof {
            assert(l_ranges@ =~= seq![ScanRange { low: 1, high: lrows.len() as u64 }]);
            assert(r_ranges@ =~= seq![ScanRange { low: 1, high: rrows.len() as u64 }]);
        }
        let left_tbl_scan = MemoryTableScanExec::new(left_table, left_info, l_ranges);
        let rht_tbl_scan = MemoryTableScanExec::new(rht_table, rht_info, r_ranges);
        proof {
            lemma_selected_rows_full(lrows, lrows.len() as int);
            lemma_selected_rows_full(rrows, rrows.len() as int);
            assert(lrows.take(lrows.len() as int) =~= lrows);
            assert(rrows.take(rrows.len() as int) =~= rrows);
            assert(left_tbl_scan.pending() == lrows);
            assert(rht_tbl_scan.pending() == rrows);
        }
        let ghost lcols = qualified_columns(db.infos.deep_view()[li as int]);
        let ghost rcols = qualified_columns(db.infos.deep_view()[ri as int]);
        let ghost merged = merged_columns(lcols, rcols);
        let join_exec = match NestedLoopJoinExec::new(
            left_tbl_scan,
            rht_tbl_scan,
            stmt.source.condition,
        ) {
            Err(JoinExecError::TableInfoError(e)) => {
                return Err(ClientError::TableInfoError(e));
            },
            Ok(j) => j,
        };
        let ghost onsels = join_exec.selectors.deep_view();
        proof {
            if stmt.source.condition.deep_view() is None {
                crate::selector::lemma_sel_filter_identity(cross(lrows, rrows), onsels, merged);
                assert(join_exec.pending() == sel_filter(cross(lrows, rrows), onsels, merged));
            }
        }
        let conditions: Vec<Selector> = match stmt.condition {
            None => Vec::new(),
            Some(condition) => execute_where(condition, false),
        };
        let ghost wsels = conditions.deep_view();
        proof {
            assert(wsels =~= where_selectors(stmt.condition.deep_view()));
        }
        let selection_exec = SelectionExec::new(join_exec, conditions);
        let ghost filtered = selection_exec.pending();
        let mut proj_exec = match ProjectionExec::new(selection_exec, stmt.targets) {
            Err(e) => {
                return Err(ClientError::TableInfoError(e));
            },
            Ok(p) => p,
        };
        let ghost offs = resolve_all(merged, stmt.targets.deep_view())->Some_0;
        let ghost offsets = proj_exec.offsets@;
        let out = drain(&mut proj_exec);
        proof {
            lemma_projection_bridge(filtered, merged, stmt.targets.deep_view(), offsets);
            assert(out.deep_view() == project_all_at(filtered, offs));
        }
        Ok(out)
    } else {
        Err(ClientError::BuildExecutorError)
    }
}

/// The metadata a `CREATE TABLE` statement defines, under a fresh table id:
/// its columns at offsets `0..N-1`, record counter at 1.
pub open spec fn created_info(stmt: CreateTableStmt, id: int) -> TableInfoV {
    TableInfoV {
        id: id,
        name: stmt.table_name@,
        columns: Seq::new(
            stmt.columns.deep_view().len(),
            |i: int| ColumnInfoV {
                name: stmt.columns.deep_view()[i].name,
                dtype: stmt.columns.deep_view()[i].datatype,
                offset: i,
            },
        ),
        next_record_id: 1,
    }
}

/// How a catalog grows by one freshly created table.
pub open spec fn created_db(db: Database, stmt: CreateTableStmt, id: int, db2: Database) -> bool {
    &&& db2.infos.deep_view() == db.infos.deep_view().push(created_info(stmt, id))
    &&& db2.tables@.len() == db.tables@.len() + 1
    &&& forall|k: int| 0 <= k < db.tables@.len() ==> #[trigger] db2.tables@[k] == db.tables@[k]
    &&& db2.tables@[db.tables@.len() as int]@.len() == 0
}

/// What executing a `CREATE TABLE` does: with no active catalog it fails and
/// changes nothing; otherwise it registers the table and steps the table-id
/// counter.
pub open spec fn create_post(
    c1: Context,
    c2: Context,
    stmt: CreateTableStmt,
    r: Result<(), ClientError>,
) -> bool {
    match c1.db {
        None => r == Err::<(), ClientError>(ClientError::DatabaseNotFoundError) && c2 == c1,
        Some(db) => {
            &&& r is Ok
            &&& c2.db matches Some(db2) && created_db(db, stmt, c1.table_id_alloc.base as int, db2)
            &&& c2.table_id_alloc.base == c1.table_id_alloc.base + 1
        },
    }
}

/// How one catalog table grows by one row, its record counter stepped, all
/// other tables untouched.
pub open spec fn inserted_db(db: Database, ti: int, row: Seq<ValueV>, db2: Database) -> bool {
    &&& db2.infos@.len() == db.infos@.len()
    &&& db2.tables@.len() == db.tables@.len()
    &&& db2.tables@[ti]@ == db.tables@[ti]@.push(row)
    &&& db2.infos.deep_view()[ti] == (TableInfoV {
        id: db.infos.deep_view()[ti].id,
        name: db.infos.deep_view()[ti].name,
        columns: db.infos.deep_view()[ti].columns,
        next_record_id: db.infos.deep_view()[ti].next_record_id + 1,
    })
    &&& forall|k: int| 0 <= k < db.tables@.len() && k != ti ==> #[trigger] db2.tables@[k]
        == db.tables@[k]
    &&& forall|k: int| 0 <= k < db.infos@.len() && k != ti ==> #[trigger] db2.infos.deep_view()[k]
        == db.infos.deep_view()[k]
}

/// What executing an `INSERT` does: the row lands in the named table when
/// the catalog is active, the table exists, the arity matches its schema,
/// and record ids are not exhausted; otherwise nothing changes and the
/// build fails.
pub open spec fn insert_post(
    c1: Context,
    c2: Context,
    stmt: InsertStmt,
    r: Result<(), ClientError>,
) -> bool {
    match c1.db {
        None => r == Err::<(), ClientError>(ClientError::BuildExecutorError) && c2 == c1,
        Some(db) => match resolve_table(db.infos.deep_view(), stmt.table_name@) {
            None => r == Err::<(), ClientError>(ClientError::BuildExecutorError) && c2 == c1,
            Some(ti) => {
                if stmt.values.deep_view().len() == db.infos.deep_view()[ti].columns.len()
                    && db.infos.deep_view()[ti].next_record_id < u64::MAX {
                    &&& r is Ok
                    &&& c2.db matches Some(db2) && inserted_db(db, ti, stmt.values.deep_view(), db2)
                    &&& c2.table_id_alloc == c1.table_id_alloc
                } else {
                    r == Err::<(), ClientError>(ClientError::BuildExecutorError) && c2 == c1
                }
            },
        },
    }
}

/// What executing a `SELECT` does: the context is untouched and the result
/// follows [`select_result`]; with no active catalog the build fails.
pub open spec fn select_post(
    c1: Context,
    c2: Context,
    stmt: SelectStmt,
    r: Result<Vec<Tuple>, ClientError>,
) -> bool {
    &&& c2 == c1
    &&& match c1.db {
        None => r == Err::<Vec<Tuple>, ClientError>(ClientError::BuildExecutorError),
        Some(db) => match select_result(db, stmt) {
            Ok(s) => r matches Ok(v) && v.deep_view() == s,
            Err(e) => r matches Err(e2) && e2 == e,
        },
    }
}

/// What executing a data-manipulation statement does, by its form.
pub open spec fn dml_post(
    c1: Context,
    c2: Context,
    stmt: DML,
    r: Result<Vec<Tuple>, ClientError>,
) -> bool {
    match stmt {
        DML::Insert(s) => {
            &&& insert_post(
                c1,
                c2,
                s,
                match r {
                    Ok(_) => Ok(()),
                    Err(e) => Err(e),
                },
            )
            &&& (r matches Ok(v) ==> v@.len() == 0)
        },
        DML::Select(s) => select_post(c1, c2, s, r),
    }
}

/// What executing a data-definition statement does, by its form.
pub open spec fn ddl_post(
    c1: Context,
    c2: Context,
    stmt: DDL,
    r: Result<(), ClientError>,
) -> bool {
    match stmt {
        DDL::Create(CreateStmt::Table(s)) => create_post(c1, c2, s, r),
    }
}

/// Executes a `CREATE TABLE`, per [`create_post`]: registers the table
/// under the next table id and steps the table-id counter.
pub fn create_table_stmt(ctx: &mut Context, stmt: CreateTableStmt) -> (r: Result<(), ClientError>)
    requires
        context_wf(old(ctx)),
        old(ctx).table_id_alloc.base < u64::MAX,
    ensures
        context_wf(final(ctx)),
        create_post(*old(ctx), *final(ctx), stmt, r),
{
    let mut columns: Vec<ColumnInfo> = Vec::new();
    let mut i: usize = 0;
    while i < stmt.columns.len()
        invariant
            i <= stmt.columns@.len(),
            columns@.len() == i,
            forall|k: int| 0 <= k < i ==> (#[trigger] columns.deep_view()[k])
                == created_info(stmt, old(ctx).table_id_alloc.base as int).columns[k],
        decreases stmt.columns@.len() - i,
    {
        let ghost before = columns.deep_view();
        columns.push(
            ColumnInfo {
                name: stmt.columns[i].name.clone(),
                dtype: stmt.columns[i].datatype,
                offset: i,
            },
        );
        proof {
            assert((stmt.columns@[i as int])@ == stmt.columns.deep_view()[i as int]);
            assert forall|k: int| 0 <= k < i + 1 implies (#[trigger] columns.deep_view()[k])
                == created_info(stmt, old(ctx).table_id_alloc.base as int).columns[k] by {
                assert(columns.deep_view()[k] == (columns@[k])@);
                if k < i {
                    assert((columns@[k])@ == before[k]);
                }
            }
        }
        i = i + 1;
    }
    let table_info = TableInfo {
        id: ctx.table_id_alloc.base,
        name: stmt.table_name.clone(),
        columns,
        next_record_id: Allocator::new(1),
    };
    proof {
        assert(table_info@.columns =~= created_info(
            stmt,
            old(ctx).table_id_alloc.base as int,
        ).columns);
        assert(table_info@ == created_info(stmt, old(ctx).table_id_alloc.base as int));
    }
    match &mut ctx.db {
        None => {
            return Err(ClientError::DatabaseNotFoundError);
        },
        Some(db) => {
            db.add_table(table_info);
        },
    };
    ctx.table_id_alloc.increment();
    Ok(())
}

/// Executes a data-definition statement by dispatching on its form.
pub fn exec_create(ctx: &mut Context, stmt: CreateStmt) -> (r: Result<(), ClientError>)
    requires
        context_wf(old(ctx)),
        old(ctx).table_id_alloc.base < u64::MAX,
    ensures
        context_wf(final(ctx)),
        match stmt {
            CreateStmt::Table(s) => create_post(*old(ctx), *final(ctx), s, r),
        },
{
    match stmt {
        CreateStmt::Table(stmt) => create_table_stmt(ctx, stmt),
    }
}

/// Executes a data-definition statement, per [`ddl_post`].
pub fn exec_ddl(ctx: &mut Context, stmt: DDL) -> (r: Result<(), ClientError>)
    requires
        context_wf(old(ctx)),
        old(ctx).table_id_alloc.base < u64::MAX,
    ensures
        context_wf(final(ctx)),
        ddl_post(*old(ctx), *final(ctx), stmt, r),
{
    match stmt {
        DDL::Create(stmt) => exec_create(ctx, stmt),
    }
}

/// Executes an `INSERT`, per [`insert_post`]: the literal row, already
/// turned to values, lands in the named table.
pub fn exec_insert(ctx: &mut Context, stmt: InsertStmt) -> (r: Result<(), ClientError>)
    requires
        context_wf(old(ctx)),
    ensures
        context_wf(final(ctx)),
        insert_post(*old(ctx), *final(ctx), stmt, r),
{
    match &mut ctx.db {
        None => Err(ClientError::BuildExecutorError),
        Some(db) => {
            let ti = match db.table_index_from_str(stmt.table_name.as_str()) {
                Err(_) => {
                    return Err(ClientError::BuildExecutorError);
                },
                Ok(i) => i,
            };
            let width = db.infos[ti].columns.len();
            let base = db.infos[ti].next_record_id.base;
            proof {
                assert((db.infos@[ti as int])@ == db.infos.deep_view()[ti as int]);
            }
            if base == u64::MAX {
                return Err(ClientError::BuildExecutorError);
            }
            if stmt.values.len() != width {
                return Err(ClientError::BuildExecutorError);
            }
            let row = Tuple::new(stmt.values);
            db.insert_at(ti, row);
            Ok(())
        },
    }
}

/// Executes a data-manipulation statement, per [`dml_post`].  An `INSERT`
/// yields no tuples; a `SELECT` yields what it emitted.
pub fn exec_dml(ctx: &mut Context, stmt: DML) -> (r: Result<Vec<Tuple>, ClientError>)
    requires
        context_wf(old(ctx)),
    ensures
        context_wf(final(ctx)),
        dml_post(*old(ctx), *final(ctx), stmt, r),
{
    match stmt {
        DML::Insert(stmt) => match exec_insert(ctx, stmt) {
            Ok(_) => Ok(Vec::new()),
            Err(e) => Err(e),
        },
        DML::Select(stmt) => exec_select(ctx, stmt),
    }
}

/// An empty source stream yields an empty stream through every stage of a
/// pipeline: filtering, crossing on either side, and projection.
pub proof fn lemma_empty_stream_composition(
    sels: Seq<SelectorV>,
    cols: Seq<ColumnV>,
    others: Seq<Seq<ValueV>>,
    offs: Seq<int>,
)
    ensures
        sel_filter(Seq::empty(), sels, cols) == Seq::<Seq<ValueV>>::empty(),
        cross(Seq::empty(), others).len() == 0,
        cross(others, Seq::empty()).len() == 0,
        project_all_at(Seq::empty(), offs) == Seq::<Seq<ValueV>>::empty(),
{
    assert(sel_filter(Seq::empty(), sels, cols) =~= Seq::<Seq<ValueV>>::empty());
    crate::join::lemma_cross_len(Seq::empty(), others);
    crate::join::lemma_cross_len(others, Seq::empty());
    assert(project_all_at(Seq::empty(), offs) =~= Seq::<Seq<ValueV>>::empty());
}

/// Whether a predicate tree is a pure conjunction of `Equ` leaves.
pub open spec fn only_equ_and(c: ConditionsV) -> bool
    decreases c,
{
    match c {
        ConditionsV::And(l, r) => only_equ_and(*l) && only_equ_and(*r),
        ConditionsV::Or(_, _) => false,
        ConditionsV::Leaf(cond) => cond.op == Operator::Equ,
    }
}

/// The comparison leaves of a predicate tree, in tree order.
pub open spec fn leaves(c: ConditionsV) -> Seq<ConditionV>
    decreases c,
{
    match c {
        ConditionsV::And(l, r) => leaves(*l) + leaves(*r),
        ConditionsV::Or(l, r) => leaves(*l) + leaves(*r),
        ConditionsV::Leaf(cond) => seq![cond],
    }
}

/// The selector that tests a leaf's equality as written, uninverted.
pub open spec fn equ_sel(cond: ConditionV) -> SelectorV {
    SelectorV { kind: SelKind::Equal, left: cond.left, right: right_of(cond.right) }
}

/// The documented inversion quirk: a `WHERE` holding only `Equ` leaves
/// under `And` compiles, outside a disjunction, to `NotEqual` selectors, so
/// Selection keeps exactly the rows on which NONE of the written equalities
/// hold.  Stated for tuples on which every leaf's operands are comparable:
/// on a dtype mismatch or an unresolvable column both the equality and its
/// compiled inversion are false, and the row is filtered although no
/// equality holds.
pub proof fn lemma_where_inversion_quirk(c: ConditionsV, t: Seq<ValueV>, cols: Seq<ColumnV>)
    requires
        only_equ_and(c),
        forall|k: int| 0 <= k < leaves(c).len()
            ==> sel_comparable(equ_sel(#[trigger] leaves(c)[k]), t, cols),
    ensures
        all_true(compile_where(c, false), t, cols) <==> (forall|k: int| 0 <= k < leaves(c).len()
            ==> !sel_true(equ_sel(#[trigger] leaves(c)[k]), t, cols)),
    decreases c,
{
    match c {
        ConditionsV::And(l, r) => {
            let ll = leaves(*l);
            let lr = leaves(*r);
            assert forall|k: int| 0 <= k < ll.len()
                implies sel_comparable(equ_sel(#[trigger] ll[k]), t, cols) by {
                assert(leaves(c)[k] == ll[k]);
            }
            assert forall|k: int| 0 <= k < lr.len()
                implies sel_comparable(equ_sel(#[trigger] lr[k]), t, cols) by {
                assert(leaves(c)[ll.len() + k] == lr[k]);
            }
            lemma_where_inversion_quirk(*l, t, cols);
            lemma_where_inversion_quirk(*r, t, cols);
            lemma_all_true_concat(compile_where(*l, false), compile_where(*r, false), t, cols);
            if all_true(compile_where(c, false), t, cols) {
                assert forall|k: int| 0 <= k < leaves(c).len()
                    implies !sel_true(equ_sel(#[trigger] leaves(c)[k]), t, cols) by {
                    if k < ll.len() {
                        assert(leaves(c)[k] == ll[k]);
                    } else {
                        assert(leaves(c)[k] == lr[k - ll.len()]);
                    }
                }
            }
            if forall|k: int| 0 <= k < leaves(c).len()
                ==> !sel_true(equ_sel(#[trigger] leaves(c)[k]), t, cols) {
                assert forall|k: int| 0 <= k < ll.len()
                    implies !sel_true(equ_sel(#[trigger] ll[k]), t, cols) by {
                    assert(leaves(c)[k] == ll[k]);
                }
                assert forall|k: int| 0 <= k < lr.len()
                    implies !sel_true(equ_sel(#[trigger] lr[k]), t, cols) by {
                    assert(leaves(c)[ll.len() + k] == lr[k]);
                }
            }
        },
        ConditionsV::Or(_, _) => {},
        ConditionsV::Leaf(cond) => {
            let compiled = leaf_selector(cond, false);
            assert(compiled == (SelectorV {
                kind: SelKind::NotEqual,
                left: cond.left,
                right: right_of(cond.right),
            }));
            assert(leaves(c)[0] == cond);
            assert(sel_comparable(equ_sel(cond), t, cols));
            lemma_notequal_negates_equal(cond.left, right_of(cond.right), t, cols);
            assert(compile_where(c, false)[0] == compiled);
            if sel_true(compiled, t, cols) {
                assert(all_true(compile_where(c, false), t, cols));
            }
            if all_true(compile_where(c, false), t, cols) {
                assert(sel_true(compiled, t, cols));
            }
        },
    }
}

/// A client: the execution context and the statement entry point.
#[derive(Debug)]
pub struct Client {
    pub ctx: Context,
}

impl Client {
    /// A client over a context.
    pub fn new(ctx: Context) -> (r: Client)
        ensures
            r.ctx == ctx,
    {
        Client { ctx }
    }

    /// Executes one parsed statement against the client's context: DDL and
    /// DML dispatch, per [`ddl_post`] and [`dml_post`].  A statement that
    /// yields no tuples answers with an empty list.
    pub fn handle_query(&mut self, stmt: Statement) -> (r: Result<Vec<Tuple>, ClientError>)
        requires
            context_wf(&old(self).ctx),
            old(self).ctx.table_id_alloc.base < u64::MAX,
        ensures
            context_wf(&final(self).ctx),
            match stmt {
                Statement::DDL(d) => ddl_post(
                    old(self).ctx,
                    final(self).ctx,
                    d,
                    match r {
                        Ok(_) => Ok(()),
                        Err(e) => Err(e),
                    },
                ) && (r matches Ok(v) ==> v@.len() == 0),
                Statement::DML(d) => dml_post(old(self).ctx, final(self).ctx, d, r),
            },
    {
        match stmt {
            Statement::DDL(stmt) => match exec_ddl(&mut self.ctx, stmt) {
                Ok(_) => Ok(Vec::new()),
                Err(e) => Err(e),
            },
            Statement::DML(stmt) => exec_dml(&mut self.ctx, stmt),
        }
    }
}

} // verus!
