use tinydb::ScanIterator;
use tinydb::client::execute_where;
use tinydb::join::NestedLoopJoinExec;
use tinydb::memory_table::MemoryTable;
use tinydb::projection::ProjectionExec;
use tinydb::scan::{MemoryTableScanExec, ScanRange};
use tinydb::schema::{Allocator, ColumnInfo, TableInfo};
use tinydb::selection::SelectionExec;
use tinydb::selector::{RightHand, SelKind, Selector};
use tinydb::statement::{Comparable, Condition, Conditions, Operator, TargetRef};
use tinydb::tuple::{DataType, Tuple, Value};

fn info(name: &str, cols: Vec<(&str, DataType)>, rows: usize) -> TableInfo {
    TableInfo {
        id: 1,
        name: name.to_string(),
        columns: cols
            .into_iter()
            .enumerate()
            .map(|(i, (n, d))| ColumnInfo { name: n.to_string(), dtype: d, offset: i })
            .collect(),
        next_record_id: Allocator::new(rows as u64 + 1),
    }
}

fn table(rows: Vec<Vec<Value>>) -> MemoryTable {
    MemoryTable { rows: rows.into_iter().map(Tuple::new).collect() }
}

fn sample() -> (MemoryTable, TableInfo) {
    let t = table(vec![
        vec![Value::Int(1), Value::Text("a".to_string())],
        vec![Value::Int(2), Value::Text("b".to_string())],
        vec![Value::Int(3), Value::Text("c".to_string())],
    ]);
    let i = info("t", vec![("id", DataType::Int), ("name", DataType::Text)], 3);
    (t, i)
}

fn first_int(t: &Tuple) -> i64 {
    match &t.values[0] {
        Value::Int(i) => *i,
        Value::Text(_) => panic!("expected an integer value"),
    }
}

#[test]
fn scan_respects_ranges_in_record_id_order() {
    let (t, i) = sample();
    let mut scan = MemoryTableScanExec::new(&t, i, vec![ScanRange::new(2, 3)]);
    let ids: Vec<i64> = std::iter::from_fn(|| scan.next()).map(|t| first_int(&t)).collect();
    assert_eq!(ids, vec![2, 3]);
}

#[test]
fn scan_with_no_ranges_is_empty() {
    let (t, i) = sample();
    let mut scan = MemoryTableScanExec::new(&t, i, Vec::new());
    assert!(scan.next().is_none());
}

#[test]
fn end_of_stream_is_sticky() {
    let (t, i) = sample();
    let mut scan = MemoryTableScanExec::new(&t, i, vec![ScanRange::new(1, 3)]);
    while scan.next().is_some() {}
    assert!(scan.next().is_none());
    assert!(scan.next().is_none());
}

#[test]
fn emitted_tuples_are_as_wide_as_get_columns() {
    let (t, i) = sample();
    let mut scan = MemoryTableScanExec::new(&t, i, vec![ScanRange::new(1, 3)]);
    let width = scan.get_columns().len();
    while let Some(tuple) = scan.next() {
        assert_eq!(tuple.len(), width);
    }
}

#[test]
fn selection_with_no_selectors_is_identity() {
    let (t, i) = sample();
    let scan = MemoryTableScanExec::new(&t, i, vec![ScanRange::new(1, 3)]);
    let mut sel = SelectionExec::new(scan, Vec::new());
    let ids: Vec<i64> = std::iter::from_fn(|| sel.next()).map(|t| first_int(&t)).collect();
    assert_eq!(ids, vec![1, 2, 3]);
}

#[test]
fn selection_preserves_child_order() {
    let (t, i) = sample();
    let scan = MemoryTableScanExec::new(&t, i, vec![ScanRange::new(1, 3)]);
    let selectors = vec![Selector::new(
        SelKind::NotEqual,
        TargetRef::named("id".to_string()),
        RightHand::Lit(Value::Int(2)),
    )];
    let mut sel = SelectionExec::new(scan, selectors);
    let ids: Vec<i64> = std::iter::from_fn(|| sel.next()).map(|t| first_int(&t)).collect();
    assert_eq!(ids, vec![1, 3]);
}

#[test]
fn join_output_is_bounded_by_the_product() {
    let a = table(vec![vec![Value::Int(1)], vec![Value::Int(2)]]);
    let ai = info("a", vec![("x", DataType::Int)], 2);
    let b = table(vec![vec![Value::Int(10)], vec![Value::Int(20)], vec![Value::Int(30)]]);
    let bi = info("b", vec![("y", DataType::Int)], 3);
    let outer = MemoryTableScanExec::new(&a, ai, vec![ScanRange::new(1, 2)]);
    let inner = MemoryTableScanExec::new(&b, bi, vec![ScanRange::new(1, 3)]);
    let mut join = NestedLoopJoinExec::new(outer, inner, None).unwrap();
    let mut n = 0;
    while let Some(t) = join.next() {
        assert_eq!(t.len(), 2);
        n += 1;
    }
    assert_eq!(n, 6);
}

#[test]
fn join_on_filters_pairings() {
    let a = table(vec![vec![Value::Int(1)], vec![Value::Int(2)]]);
    let ai = info("a", vec![("x", DataType::Int)], 2);
    let b = table(vec![vec![Value::Int(2)], vec![Value::Int(3)]]);
    let bi = info("b", vec![("x", DataType::Int)], 2);
    let outer = MemoryTableScanExec::new(&a, ai, vec![ScanRange::new(1, 2)]);
    let inner = MemoryTableScanExec::new(&b, bi, vec![ScanRange::new(1, 2)]);
    let on = Condition {
        left: TargetRef::qualified("a".to_string(), "x".to_string()),
        op: Operator::Equ,
        right: Comparable::Word(TargetRef::qualified("b".to_string(), "x".to_string())),
    };
    let mut join = NestedLoopJoinExec::new(outer, inner, Some(on)).unwrap();
    let out: Vec<Tuple> = std::iter::from_fn(|| join.next()).collect();
    assert_eq!(out.len(), 1);
    assert_eq!(first_int(&out[0]), 2);
}

#[test]
fn projection_narrows_and_renumbers() {
    let (t, i) = sample();
    let scan = MemoryTableScanExec::new(&t, i, vec![ScanRange::new(1, 3)]);
    let mut proj =
        ProjectionExec::new(scan, vec![TargetRef::named("name".to_string())]).unwrap();
    let cols = proj.get_columns();
    assert_eq!(cols.len(), 1);
    assert_eq!(cols[0].name, "name");
    assert_eq!(cols[0].offset, 0);
    while let Some(tuple) = proj.next() {
        assert_eq!(tuple.len(), 1);
    }
}

#[test]
fn projection_identity_keeps_the_stream() {
    let (t, i) = sample();
    let scan = MemoryTableScanExec::new(&t, i, vec![ScanRange::new(1, 3)]);
    let targets = vec![
        TargetRef::named("id".to_string()),
        TargetRef::named("name".to_string()),
    ];
    let mut proj = ProjectionExec::new(scan, targets).unwrap();
    let ids: Vec<i64> = std::iter::from_fn(|| proj.next()).map(|t| first_int(&t)).collect();
    assert_eq!(ids, vec![1, 2, 3]);
}

#[test]
fn compile_emits_one_selector_per_leaf() {
    let leaf = |n: i64, op: Operator| {
        Box::new(Conditions::Leaf(Condition {
            left: TargetRef::named("id".to_string()),
            op,
            right: Comparable::Lit(Value::Int(n)),
        }))
    };
    let tree = Conditions::And(
        leaf(1, Operator::Equ),
        Box::new(Conditions::Or(leaf(2, Operator::GT), leaf(3, Operator::LE))),
    );
    let sels = execute_where(tree, false);
    assert_eq!(sels.len(), 3);
}

#[test]
fn compile_inverts_each_operator_outside_a_disjunction() {
    let pairs = vec![
        (Operator::Equ, SelKind::NotEqual),
        (Operator::NEqu, SelKind::Equal),
        (Operator::GT, SelKind::LE),
        (Operator::LT, SelKind::GE),
        (Operator::GE, SelKind::LT),
        (Operator::LE, SelKind::GT),
    ];
    for (op, expected) in pairs {
        let tree = Conditions::Leaf(Condition {
            left: TargetRef::named("id".to_string()),
            op,
            right: Comparable::Lit(Value::Int(1)),
        });
        let sels = execute_where(tree, false);
        assert_eq!(sels.len(), 1);
        assert_eq!(sels[0].kind, expected);
    }
}

#[test]
fn compile_keeps_each_operator_under_a_disjunction() {
    let pairs = vec![
        (Operator::Equ, SelKind::Equal),
        (Operator::NEqu, SelKind::NotEqual),
        (Operator::GT, SelKind::GT),
        (Operator::LT, SelKind::LT),
        (Operator::GE, SelKind::GE),
        (Operator::LE, SelKind::LE),
    ];
    for (op, expected) in pairs {
        let tree = Conditions::Leaf(Condition {
            left: TargetRef::named("id".to_string()),
            op,
            right: Comparable::Lit(Value::Int(1)),
        });
        let sels = execute_where(tree, true);
        assert_eq!(sels.len(), 1);
        assert_eq!(sels[0].kind, expected);
    }
}

#[test]
fn values_order_structurally() {
    let a = Value::Int(1);
    let b = Value::Int(2);
    assert!(a.lt_value(&b));
    assert!(!b.lt_value(&a));
    assert!(a.le_value(&a));
    let s = Value::Text("abc".to_string());
    let t = Value::Text("abd".to_string());
    assert!(s.lt_value(&t));
    assert!(!t.le_value(&s));
    assert!(s.eq_value(&Value::Text("abc".to_string())));
}

#[test]
fn values_of_different_dtypes_never_compare() {
    let a = Value::Int(1);
    let s = Value::Text("1".to_string());
    assert!(!a.eq_value(&s));
    assert!(!a.neq_value(&s));
    assert!(!a.lt_value(&s));
    assert!(!a.le_value(&s));
    assert!(!s.lt_value(&a));
}

#[test]
fn tuple_append_and_project() {
    let a = Tuple::new(vec![Value::Int(1), Value::Int(2)]);
    let b = Tuple::new(vec![Value::Int(3)]);
    let joined = a.append(&b);
    assert_eq!(joined.len(), 3);
    let narrowed = joined.project(&vec![2, 0]);
    assert_eq!(narrowed.len(), 2);
    assert!(matches!(narrowed.values[0], Value::Int(3)));
    assert!(matches!(narrowed.values[1], Value::Int(1)));
}
