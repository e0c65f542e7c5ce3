use tinydb::client::{Client, ClientError};
use tinydb::context::Context;
use tinydb::database::{Database, DatabaseError};
use tinydb::schema::{Allocator, TableInfoError};
use tinydb::statement::{
    ColumnDef, Comparable, Condition, Conditions, CreateStmt, CreateTableStmt, DataSource, DDL,
    DML, InsertStmt, Operator, SelectStmt, Statement, TargetRef,
};
use tinydb::tuple::{DataType, Tuple, Value};

fn client() -> Client {
    Client::new(Context::new(Some(Database::new()), Allocator::new(1)))
}

fn create(client: &mut Client, table: &str, cols: Vec<(&str, DataType)>) {
    let stmt = CreateTableStmt {
        table_name: table.to_string(),
        columns: cols
            .into_iter()
            .map(|(n, d)| ColumnDef { name: n.to_string(), datatype: d })
            .collect(),
    };
    client
        .handle_query(Statement::DDL(DDL::Create(CreateStmt::Table(stmt))))
        .unwrap();
}

fn insert(client: &mut Client, table: &str, values: Vec<Value>) {
    let stmt = InsertStmt { table_name: table.to_string(), values };
    client
        .handle_query(Statement::DML(DML::Insert(stmt)))
        .unwrap();
}

fn select(
    client: &mut Client,
    targets: Vec<TargetRef>,
    tables: Vec<&str>,
    on: Option<Condition>,
    where_clause: Option<Conditions>,
) -> Result<Vec<Tuple>, ClientError> {
    let stmt = SelectStmt {
        targets,
        source: DataSource {
            tables: tables.into_iter().map(|t| t.to_string()).collect(),
            condition: on,
        },
        condition: where_clause,
    };
    client.handle_query(Statement::DML(DML::Select(stmt)))
}

fn sample_table(client: &mut Client) {
    create(client, "t", vec![("id", DataType::Int), ("name", DataType::Text)]);
    insert(client, "t", vec![Value::Int(1), Value::Text("a".to_string())]);
    insert(client, "t", vec![Value::Int(2), Value::Text("b".to_string())]);
    insert(client, "t", vec![Value::Int(3), Value::Text("c".to_string())]);
}

fn ints(rows: &[Tuple]) -> Vec<Vec<i64>> {
    rows.iter()
        .map(|t| {
            t.values
                .iter()
                .map(|v| match v {
                    Value::Int(i) => *i,
                    Value::Text(_) => panic!("expected an integer value"),
                })
                .collect()
        })
        .collect()
}

fn texts(rows: &[Tuple]) -> Vec<Vec<String>> {
    rows.iter()
        .map(|t| {
            t.values
                .iter()
                .map(|v| match v {
                    Value::Text(s) => s.clone(),
                    Value::Int(_) => panic!("expected a text value"),
                })
                .collect()
        })
        .collect()
}

#[test]
fn single_table_projection() {
    let mut c = client();
    sample_table(&mut c);
    let out = select(&mut c, vec![TargetRef::named("name".to_string())], vec!["t"], None, None)
        .unwrap();
    assert_eq!(texts(&out), vec![vec!["a".to_string()], vec!["b".to_string()], vec!["c".to_string()]]);
}

#[test]
fn where_equ_inversion_quirk() {
    let mut c = client();
    sample_table(&mut c);
    let where_clause = Conditions::Leaf(Condition {
        left: TargetRef::named("id".to_string()),
        op: Operator::Equ,
        right: Comparable::Lit(Value::Int(2)),
    });
    let out = select(
        &mut c,
        vec![TargetRef::named("id".to_string())],
        vec!["t"],
        None,
        Some(where_clause),
    )
    .unwrap();
    assert_eq!(ints(&out), vec![vec![1], vec![3]]);
}

#[test]
fn where_under_or_is_conjunctive() {
    let mut c = client();
    sample_table(&mut c);
    let leaf = |n: i64| {
        Box::new(Conditions::Leaf(Condition {
            left: TargetRef::named("id".to_string()),
            op: Operator::Equ,
            right: Comparable::Lit(Value::Int(n)),
        }))
    };
    let where_clause = Conditions::Or(leaf(1), leaf(3));
    let out = select(
        &mut c,
        vec![TargetRef::named("id".to_string())],
        vec!["t"],
        None,
        Some(where_clause),
    )
    .unwrap();
    assert_eq!(out.len(), 0);
}

fn two_tables(client: &mut Client) {
    create(client, "a", vec![("k", DataType::Int), ("v", DataType::Text)]);
    create(client, "b", vec![("k", DataType::Int), ("w", DataType::Text)]);
    insert(client, "a", vec![Value::Int(1), Value::Text("p".to_string())]);
    insert(client, "a", vec![Value::Int(2), Value::Text("q".to_string())]);
    insert(client, "b", vec![Value::Int(2), Value::Text("r".to_string())]);
    insert(client, "b", vec![Value::Int(3), Value::Text("s".to_string())]);
}

#[test]
fn cartesian_join_outer_major() {
    let mut c = client();
    create(&mut c, "a", vec![("x", DataType::Int)]);
    create(&mut c, "b", vec![("y", DataType::Int)]);
    insert(&mut c, "a", vec![Value::Int(1)]);
    insert(&mut c, "a", vec![Value::Int(2)]);
    insert(&mut c, "b", vec![Value::Int(10)]);
    insert(&mut c, "b", vec![Value::Int(20)]);
    let out = select(
        &mut c,
        vec![TargetRef::named("x".to_string()), TargetRef::named("y".to_string())],
        vec!["a", "b"],
        None,
        None,
    )
    .unwrap();
    assert_eq!(ints(&out), vec![vec![1, 10], vec![1, 20], vec![2, 10], vec![2, 20]]);
}

#[test]
fn equi_join_on_condition() {
    let mut c = client();
    two_tables(&mut c);
    let on = Condition {
        left: TargetRef::qualified("a".to_string(), "k".to_string()),
        op: Operator::Equ,
        right: Comparable::Word(TargetRef::qualified("b".to_string(), "k".to_string())),
    };
    let out = select(
        &mut c,
        vec![
            TargetRef::qualified("a".to_string(), "v".to_string()),
            TargetRef::qualified("b".to_string(), "w".to_string()),
        ],
        vec!["a", "b"],
        Some(on),
        None,
    )
    .unwrap();
    assert_eq!(texts(&out), vec![vec!["q".to_string(), "r".to_string()]]);
}

#[test]
fn projection_after_join_keeps_declared_order() {
    let mut c = client();
    two_tables(&mut c);
    let on = Condition {
        left: TargetRef::qualified("a".to_string(), "k".to_string()),
        op: Operator::Equ,
        right: Comparable::Word(TargetRef::qualified("b".to_string(), "k".to_string())),
    };
    let out = select(
        &mut c,
        vec![
            TargetRef::qualified("b".to_string(), "w".to_string()),
            TargetRef::qualified("a".to_string(), "v".to_string()),
        ],
        vec!["a", "b"],
        Some(on),
        None,
    )
    .unwrap();
    assert_eq!(texts(&out), vec![vec!["r".to_string(), "q".to_string()]]);
}

#[test]
fn projection_of_all_columns_in_order_is_identity() {
    let mut c = client();
    sample_table(&mut c);
    let out = select(
        &mut c,
        vec![TargetRef::named("id".to_string()), TargetRef::named("name".to_string())],
        vec!["t"],
        None,
        None,
    )
    .unwrap();
    assert_eq!(out.len(), 3);
    assert!(matches!(&out[0].values[0], Value::Int(1)));
    assert!(matches!(&out[2].values[1], Value::Text(s) if s == "c"));
}

#[test]
fn empty_scan_empty_output_through_composition() {
    let mut c = client();
    create(&mut c, "t", vec![("id", DataType::Int)]);
    create(&mut c, "u", vec![("x", DataType::Int)]);
    let out = select(&mut c, vec![TargetRef::named("id".to_string())], vec!["t"], None, None)
        .unwrap();
    assert_eq!(out.len(), 0);
    let out2 = select(
        &mut c,
        vec![TargetRef::named("id".to_string()), TargetRef::named("x".to_string())],
        vec!["t", "u"],
        None,
        None,
    )
    .unwrap();
    assert_eq!(out2.len(), 0);
}

#[test]
fn where_greater_than_compiles_inverted() {
    let mut c = client();
    sample_table(&mut c);
    let where_clause = Conditions::Leaf(Condition {
        left: TargetRef::named("id".to_string()),
        op: Operator::GT,
        right: Comparable::Lit(Value::Int(1)),
    });
    let out = select(
        &mut c,
        vec![TargetRef::named("id".to_string())],
        vec!["t"],
        None,
        Some(where_clause),
    )
    .unwrap();
    assert_eq!(ints(&out), vec![vec![1]]);
}

#[test]
fn dtype_mismatch_filters_the_row() {
    let mut c = client();
    sample_table(&mut c);
    let where_clause = Conditions::Leaf(Condition {
        left: TargetRef::named("id".to_string()),
        op: Operator::Equ,
        right: Comparable::Lit(Value::Text("2".to_string())),
    });
    let out = select(
        &mut c,
        vec![TargetRef::named("id".to_string())],
        vec!["t"],
        None,
        Some(where_clause),
    )
    .unwrap();
    // The mismatched comparison is false for every row, whatever the
    // operator, so the compiled NotEqual selector rejects them all.
    assert_eq!(out.len(), 0);
}

#[test]
fn three_way_join_is_a_build_error() {
    let mut c = client();
    sample_table(&mut c);
    let r = select(
        &mut c,
        vec![TargetRef::named("id".to_string())],
        vec!["t", "t", "t"],
        None,
        None,
    );
    assert_eq!(r.unwrap_err(), ClientError::BuildExecutorError);
}

#[test]
fn unknown_table_is_a_lookup_error() {
    let mut c = client();
    sample_table(&mut c);
    let r = select(&mut c, vec![TargetRef::named("id".to_string())], vec!["nope"], None, None);
    assert_eq!(
        r.unwrap_err(),
        ClientError::DatabaseError(DatabaseError::TableNotFoundError)
    );
}

#[test]
fn unknown_projection_column_is_a_lookup_error() {
    let mut c = client();
    sample_table(&mut c);
    let r = select(&mut c, vec![TargetRef::named("nope".to_string())], vec!["t"], None, None);
    assert_eq!(
        r.unwrap_err(),
        ClientError::TableInfoError(TableInfoError::ColumnNotFoundError)
    );
}

#[test]
fn unknown_on_column_is_a_lookup_error() {
    let mut c = client();
    two_tables(&mut c);
    let on = Condition {
        left: TargetRef::qualified("a".to_string(), "k".to_string()),
        op: Operator::Equ,
        right: Comparable::Word(TargetRef::named("nope".to_string())),
    };
    let r = select(
        &mut c,
        vec![TargetRef::qualified("a".to_string(), "v".to_string())],
        vec!["a", "b"],
        Some(on),
        None,
    );
    assert_eq!(
        r.unwrap_err(),
        ClientError::TableInfoError(TableInfoError::ColumnNotFoundError)
    );
}

#[test]
fn create_without_catalog_is_database_not_found() {
    let mut c = Client::new(Context::new(None, Allocator::new(1)));
    let stmt = CreateTableStmt {
        table_name: "t".to_string(),
        columns: vec![ColumnDef { name: "id".to_string(), datatype: DataType::Int }],
    };
    let r = c.handle_query(Statement::DDL(DDL::Create(CreateStmt::Table(stmt))));
    assert_eq!(r.unwrap_err(), ClientError::DatabaseNotFoundError);
}

#[test]
fn select_without_catalog_is_a_build_error() {
    let mut c = Client::new(Context::new(None, Allocator::new(1)));
    let r = select(&mut c, vec![TargetRef::named("id".to_string())], vec!["t"], None, None);
    assert_eq!(r.unwrap_err(), ClientError::BuildExecutorError);
}

#[test]
fn insert_into_unknown_table_is_a_build_error() {
    let mut c = client();
    let stmt = InsertStmt { table_name: "nope".to_string(), values: vec![Value::Int(1)] };
    let r = c.handle_query(Statement::DML(DML::Insert(stmt)));
    assert_eq!(r.unwrap_err(), ClientError::BuildExecutorError);
}

#[test]
fn text_ordering_is_lexicographic_through_a_query() {
    let mut c = client();
    sample_table(&mut c);
    // LT compiles to GE outside a disjunction: kept rows have name >= "b".
    let where_clause = Conditions::Leaf(Condition {
        left: TargetRef::named("name".to_string()),
        op: Operator::LT,
        right: Comparable::Lit(Value::Text("b".to_string())),
    });
    let out = select(
        &mut c,
        vec![TargetRef::named("id".to_string())],
        vec!["t"],
        None,
        Some(where_clause),
    )
    .unwrap();
    assert_eq!(ints(&out), vec![vec![2], vec![3]]);
}

#[test]
fn insert_arity_mismatch_is_a_build_error() {
    let mut c = client();
    create(&mut c, "t", vec![("id", DataType::Int)]);
    let stmt = InsertStmt {
        table_name: "t".to_string(),
        values: vec![Value::Int(1), Value::Int(2)],
    };
    let r = c.handle_query(Statement::DML(DML::Insert(stmt)));
    assert_eq!(r.unwrap_err(), ClientError::BuildExecutorError);
}
