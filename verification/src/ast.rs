//! The statement tree: typed representations of the six statement kinds.
//!
//! A node is constructed once, bottom-up, from already-validated tokens, and
//! handed to the caller immutably; a failed parse never exposes a partially
//! built tree.

use vstd::prelude::*;

verus! {

/// A literal value wherever one appears in data manipulation: string text or
/// the lexeme of a numeric literal (digits with at most one decimal point).
#[derive(Debug, PartialEq)]
pub enum Value {
    StrValue(String),
    NumValue(String),
}

/// The mathematical image of a `Value`.
#[verifier::ext_equal]
pub ghost enum ValueV {
    StrValue(Seq<char>),
    NumValue(Seq<char>),
}

impl View for Value {
    type V = ValueV;

    open spec fn view(&self) -> ValueV {
        match self {
            Value::StrValue(s) => ValueV::StrValue(s@),
            Value::NumValue(s) => ValueV::NumValue(s@),
        }
    }
}

/// One column definition of a CREATE TABLE statement: a name.
#[derive(Debug, PartialEq)]
pub struct ColumnDefinition {
    pub name: String,
}

impl View for ColumnDefinition {
    type V = Seq<char>;

    open spec fn view(&self) -> Seq<char> {
        self.name@
    }
}

/// The sole supported WHERE form: `column = literal`.
#[derive(Debug, PartialEq)]
pub struct Expression {
    pub column: String,
    pub value: Value,
}

/// The mathematical image of an `Expression`.
#[verifier::ext_equal]
pub ghost struct ExpressionV {
    pub column: Seq<char>,
    pub value: ValueV,
}

impl View for Expression {
    type V = ExpressionV;

    open spec fn view(&self) -> ExpressionV {
        ExpressionV { column: self.column@, value: self.value@ }
    }
}

/// An optional single equality predicate.
#[derive(Debug, PartialEq)]
pub struct WhereClause {
    pub condition: Expression,
}

impl View for WhereClause {
    type V = ExpressionV;

    open spec fn view(&self) -> ExpressionV {
        self.condition@
    }
}

/// One `column = literal` assignment of an UPDATE statement.
#[derive(Debug, PartialEq)]
pub struct SetClause {
    pub field: String,
    pub value: Value,
}

/// The mathematical image of a `SetClause`.
#[verifier::ext_equal]
pub ghost struct SetClauseV {
    pub field: Seq<char>,
    pub value: ValueV,
}

impl View for SetClause {
    type V = SetClauseV;

    open spec fn view(&self) -> SetClauseV {
        SetClauseV { field: self.field@, value: self.value@ }
    }
}


impl DeepView for Value {
    type V = ValueV;

    open spec fn deep_view(&self) -> ValueV {
        self.view()
    }
}

impl DeepView for ColumnDefinition {
    type V = Seq<char>;

    open spec fn deep_view(&self) -> Seq<char> {
        self.view()
    }
}

impl DeepView for SetClause {
    type V = SetClauseV;

    open spec fn deep_view(&self) -> SetClauseV {
        self.view()
    }
}

/// CREATE TABLE: a table name and an ordered list of column definitions.
#[derive(Debug, PartialEq)]
pub struct CreateStatement {
    pub table_name: String,
    pub columns: Vec<ColumnDefinition>,
}

/// DROP TABLE: a table name.
#[derive(Debug, PartialEq)]
pub struct DropStatement {
    pub table_name: String,
}

/// SELECT: a table name and an ordered list of column names; the empty list
/// signifies "all columns" (the source used `*`).
#[derive(Debug, PartialEq)]
pub struct SelectStatement {
    pub table_name: String,
    pub columns: Vec<String>,
}

/// INSERT: a table name, column names and positionally corresponding values.
#[derive(Debug, PartialEq)]
pub struct InsertStatement {
    pub table_name: String,
    pub columns: Vec<String>,
    pub values: Vec<Value>,
}

/// UPDATE: a table name, assignment pairs and an optional equality predicate.
#[derive(Debug, PartialEq)]
pub struct UpdateStatement {
    pub table_name: String,
    pub set_clauses: Vec<SetClause>,
    pub where_clause: Option<WhereClause>,
}

/// DELETE: a table name and an optional equality predicate.
#[derive(Debug, PartialEq)]
pub struct DeleteStatement {
    pub table_name: String,
    pub where_clause: Option<WhereClause>,
}

/// The statement tree: a tagged union over the six statement kinds.
#[derive(Debug, PartialEq)]
pub enum SQLStatement {
    CreateTable(CreateStatement),
    DropTable(DropStatement),
    Select(SelectStatement),
    Insert(InsertStatement),
    Update(UpdateStatement),
    Delete(DeleteStatement),
}

/// The mathematical image of a whole statement.
#[verifier::ext_equal]
pub ghost enum StatementV {
    CreateTable { table_name: Seq<char>, columns: Seq<Seq<char>> },
    DropTable { table_name: Seq<char> },
    Select { table_name: Seq<char>, columns: Seq<Seq<char>> },
    Insert { table_name: Seq<char>, columns: Seq<Seq<char>>, values: Seq<ValueV> },
    Update {
        table_name: Seq<char>,
        set_clauses: Seq<SetClauseV>,
        where_clause: Option<ExpressionV>,
    },
    Delete { table_name: Seq<char>, where_clause: Option<ExpressionV> },
}

/// The view of an optional predicate.
pub open spec fn where_view(w: &Option<WhereClause>) -> Option<ExpressionV> {
    match w {
        Some(c) => Some(c@),
        None => None,
    }
}

impl View for CreateStatement {
    type V = StatementV;

    open spec fn view(&self) -> StatementV {
        StatementV::CreateTable {
            table_name: self.table_name@,
            columns: self.columns.deep_view(),
        }
    }
}

impl View for DropStatement {
    type V = StatementV;

    open spec fn view(&self) -> StatementV {
        StatementV::DropTable { table_name: self.table_name@ }
    }
}

impl View for SelectStatement {
    type V = StatementV;

    open spec fn view(&self) -> StatementV {
        StatementV::Select { table_name: self.table_name@, columns: self.columns.deep_view() }
    }
}

impl View for InsertStatement {
    type V = StatementV;

    open spec fn view(&self) -> StatementV {
        StatementV::Insert {
            table_name: self.table_name@,
            columns: self.columns.deep_view(),
            values: self.values.deep_view(),
        }
    }
}

impl View for UpdateStatement {
    type V = StatementV;

    open spec fn view(&self) -> StatementV {
        StatementV::Update {
            table_name: self.table_name@,
            set_clauses: self.set_clauses.deep_view(),
            where_clause: where_view(&self.where_clause),
        }
    }
}

impl View for DeleteStatement {
    type V = StatementV;

    open spec fn view(&self) -> StatementV {
        StatementV::Delete {
            table_name: self.table_name@,
            where_clause: where_view(&self.where_clause),
        }
    }
}

impl View for SQLStatement {
    type V = StatementV;

    open spec fn view(&self) -> StatementV {
        match self {
            SQLStatement::CreateTable(s) => s@,
            SQLStatement::DropTable(s) => s@,
            SQLStatement::Select(s) => s@,
            SQLStatement::Insert(s) => s@,
            SQLStatement::Update(s) => s@,
            SQLStatement::Delete(s) => s@,
        }
    }
}

impl CreateStatement {
    pub fn new(table_name: String, columns: Vec<ColumnDefinition>) -> (r: Self)
        ensures
            r.table_name == table_name,
            r.columns == columns,
    {
        CreateStatement { table_name, columns }
    }
}

impl ColumnDefinition {
    pub fn new(name: String) -> (r: Self)
        ensures
            r.name == name,
    {
        ColumnDefinition { name }
    }
}

impl DropStatement {
    pub fn new(table_name: String) -> (r: Self)
        ensures
            r.table_name == table_name,
    {
        DropStatement { table_name }
    }
}

impl SelectStatement {
    pub fn new(table_name: String, columns: Vec<String>) -> (r: Self)
        ensures
            r.table_name == table_name,
            r.columns == columns,
    {
        SelectStatement { table_name, columns }
    }
}

impl InsertStatement {
    pub fn new(table_name: String, columns: Vec<String>, values: Vec<Value>) -> (r: Self)
        ensures
            r.table_name == table_name,
            r.columns == columns,
            r.values == values,
    {
        InsertStatement { table_name, columns, values }
    }
}

impl UpdateStatement {
    pub fn new(
        table_name: String,
        set_clauses: Vec<SetClause>,
        where_clause: Option<WhereClause>,
    ) -> (r: Self)
        ensures
            r.table_name == table_name,
            r.set_clauses == set_clauses,
            r.where_clause == where_clause,
    {
        UpdateStatement { table_name, set_clauses, where_clause }
    }
}

impl DeleteStatement {
    pub fn new(table_name: String, where_clause: Option<WhereClause>) -> (r: Self)
        ensures
            r.table_name == table_name,
            r.where_clause == where_clause,
    {
        DeleteStatement { table_name, where_clause }
    }
}

impl SetClause {
    pub fn new(field: String, value: Value) -> (r: Self)
        ensures
            r.field == field,
            r.value == value,
    {
        SetClause { field, value }
    }
}

impl WhereClause {
    pub fn new(condition: Expression) -> (r: Self)
        ensures
            r.condition == condition,
    {
        WhereClause { condition }
    }
}

impl Expression {
    pub fn new(column: String, value: Value) -> (r: Self)
        ensures
            r.column == column,
            r.value == value,
    {
        Expression { column, value }
    }
}

} // verus!
