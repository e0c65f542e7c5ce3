//! The parsed-statement forms the engine consumes.
//!
//! A parser collaborator produces these; the engine only walks them.

use vstd::prelude::*;
use crate::tuple::{DataType, Value, ValueV};

verus! {

/// The comparison operators a predicate leaf can carry.
#[derive(Clone, Copy, PartialEq, Eq, Structural, Debug)]
pub enum Operator {
    Equ,
    NEqu,
    GT,
    LT,
    GE,
    LE,
}

/// Mathematical model of a [`TargetRef`].
pub ghost struct TargetRefV {
    pub table_name: Option<Seq<char>>,
    pub name: Seq<char>,
}

/// A reference to a column by name, optionally qualified by a table name.
#[derive(Debug)]
pub struct TargetRef {
    pub table_name: Option<String>,
    pub name: String,
}

impl View for TargetRef {
    type V = TargetRefV;

    open spec fn view(&self) -> TargetRefV {
        TargetRefV { table_name: self.table_name.deep_view(), name: self.name@ }
    }
}

impl DeepView for TargetRef {
    type V = TargetRefV;

    open spec fn deep_view(&self) -> TargetRefV {
        self@
    }
}

impl TargetRef {
    /// An unqualified reference.
    pub fn named(name: String) -> (r: TargetRef)
        ensures
            r@ == (TargetRefV { table_name: None, name: name@ }),
    {
        TargetRef { table_name: None, name }
    }

    /// A table-qualified reference.
    pub fn qualified(table_name: String, name: String) -> (r: TargetRef)
        ensures
            r@ == (TargetRefV { table_name: Some(table_name@), name: name@ }),
    {
        TargetRef { table_name: Some(table_name), name }
    }

    /// A structural copy of the reference.
    pub fn duplicate(&self) -> (r: TargetRef)
        ensures
            r@ == self@,
    {
        let table_name = match &self.table_name {
            None => None,
            Some(t) => Some(t.clone()),
        };
        TargetRef { table_name, name: self.name.clone() }
    }
}

/// Mathematical model of a [`Comparable`].
pub ghost enum ComparableV {
    Lit(ValueV),
    Target(int),
    Word(TargetRefV),
}

/// The right-hand side of a predicate leaf: a literal, an offset into the
/// current tuple-space (`WHERE` form), or a named column to be resolved
/// against the merged schema (join `ON` form).
#[derive(Debug)]
pub enum Comparable {
    Lit(Value),
    Target(usize),
    Word(TargetRef),
}

impl View for Comparable {
    type V = ComparableV;

    open spec fn view(&self) -> ComparableV {
        match self {
            Comparable::Lit(v) => ComparableV::Lit(v@),
            Comparable::Target(o) => ComparableV::Target(*o as int),
            Comparable::Word(t) => ComparableV::Word(t@),
        }
    }
}

impl DeepView for Comparable {
    type V = ComparableV;

    open spec fn deep_view(&self) -> ComparableV {
        self@
    }
}

/// Mathematical model of a [`Condition`].
pub ghost struct ConditionV {
    pub left: TargetRefV,
    pub op: Operator,
    pub right: ComparableV,
}

/// A single comparison: `left op right`.
#[derive(Debug)]
pub struct Condition {
    pub left: TargetRef,
    pub op: Operator,
    pub right: Comparable,
}

impl View for Condition {
    type V = ConditionV;

    open spec fn view(&self) -> ConditionV {
        ConditionV { left: self.left@, op: self.op, right: self.right@ }
    }
}

impl DeepView for Condition {
    type V = ConditionV;

    open spec fn deep_view(&self) -> ConditionV {
        self@
    }
}

/// Mathematical model of a [`Conditions`] tree.
pub ghost enum ConditionsV {
    And(Box<ConditionsV>, Box<ConditionsV>),
    Or(Box<ConditionsV>, Box<ConditionsV>),
    Leaf(ConditionV),
}

/// A boolean predicate tree, as a `WHERE` clause carries it.
#[derive(Debug)]
pub enum Conditions {
    And(Box<Conditions>, Box<Conditions>),
    Or(Box<Conditions>, Box<Conditions>),
    Leaf(Condition),
}

/// The model of a predicate tree.
pub open spec fn conditions_view(c: &Conditions) -> ConditionsV
    decreases c,
{
    match c {
        Conditions::And(l, r) => ConditionsV::And(
            Box::new(conditions_view(l)),
            Box::new(conditions_view(r)),
        ),
        Conditions::Or(l, r) => ConditionsV::Or(
            Box::new(conditions_view(l)),
            Box::new(conditions_view(r)),
        ),
        Conditions::Leaf(cond) => ConditionsV::Leaf(cond@),
    }
}

impl View for Conditions {
    type V = ConditionsV;

    open spec fn view(&self) -> ConditionsV {
        conditions_view(self)
    }
}

impl DeepView for Conditions {
    type V = ConditionsV;

    open spec fn deep_view(&self) -> ConditionsV {
        self@
    }
}

/// The tables a `SELECT` reads, with the optional join `ON` comparison.
#[derive(Debug)]
pub struct DataSource {
    pub tables: Vec<String>,
    pub condition: Option<Condition>,
}

/// A parsed `SELECT` statement.
#[derive(Debug)]
pub struct SelectStmt {
    pub targets: Vec<TargetRef>,
    pub source: DataSource,
    pub condition: Option<Conditions>,
}

/// Mathematical model of a [`ColumnDef`].
pub ghost struct ColumnDefV {
    pub name: Seq<char>,
    pub datatype: DataType,
}

/// One column of a `CREATE TABLE` statement.
#[derive(Debug)]
pub struct ColumnDef {
    pub name: String,
    pub datatype: DataType,
}

impl View for ColumnDef {
    type V = ColumnDefV;

    open spec fn view(&self) -> ColumnDefV {
        ColumnDefV { name: self.name@, datatype: self.datatype }
    }
}

impl DeepView for ColumnDef {
    type V = ColumnDefV;

    open spec fn deep_view(&self) -> ColumnDefV {
        self@
    }
}

/// A parsed `CREATE TABLE` statement.
#[derive(Debug)]
pub struct CreateTableStmt {
    pub table_name: String,
    pub columns: Vec<ColumnDef>,
}

/// The data-definition statements.
#[derive(Debug)]
pub enum CreateStmt {
    Table(CreateTableStmt),
}

/// The data-definition statement forms.
#[derive(Debug)]
pub enum DDL {
    Create(CreateStmt),
}

/// A parsed `INSERT` statement; its literals arrive already turned to values.
#[derive(Debug)]
pub struct InsertStmt {
    pub table_name: String,
    pub values: Vec<Value>,
}

/// The data-manipulation statement forms.
#[derive(Debug)]
pub enum DML {
    Insert(InsertStmt),
    Select(SelectStmt),
}

/// A parsed statement.
#[derive(Debug)]
pub enum Statement {
    DDL(DDL),
    DML(DML),
}

} // verus!
