//! The migration step vocabulary: DDL-level schema changes as data.

use vstd::prelude::*;

verus! {

/// One schema migration step.
#[derive(Debug)]
pub enum SqlMigrationStep {
    CreateTable(CreateTable),
    AlterTable(AlterTable),
    DropTable(DropTable),
}

/// Creation of a table with its columns and primary key.
#[derive(Debug)]
pub struct CreateTable {
    pub name: String,
    pub columns: Vec<ColumnDescription>,
    pub primary_columns: Vec<String>,
}

/// Removal of a table.
#[derive(Debug)]
pub struct DropTable {
    pub name: String,
}

/// A set of changes to one table.
#[derive(Debug)]
pub struct AlterTable {
    pub table: String,
    pub changes: Vec<TableChange>,
}

/// One change to a table.
#[derive(Debug)]
pub enum TableChange {
    AddColumn(AddColumn),
    AlterColumn(AlterColumn),
    DropColumn(DropColumn),
}

/// Addition of one column.
#[derive(Debug)]
pub struct AddColumn {
    pub column: ColumnDescription,
}

/// Removal of one column.
#[derive(Debug)]
pub struct DropColumn {
    pub name: String,
}

/// Replacement of one column's description.
#[derive(Debug)]
pub struct AlterColumn {
    pub name: String,
    pub column: ColumnDescription,
}

/// A column: name, type and nullability.
#[derive(Debug)]
pub struct ColumnDescription {
    pub name: String,
    pub tpe: ColumnType,
    pub required: bool,
}

/// The storable column types.
#[derive(Debug, Copy, PartialEq, Eq, Structural, Clone)]
pub enum ColumnType {
    Int,
    Float,
    Boolean,
    String,
    DateTime,
}

} // verus!
