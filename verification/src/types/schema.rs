//! Table schemas.

use vstd::prelude::*;

verus! {

/// Physical type of a column.
#[derive(Debug, Clone, Copy, PartialEq, Eq, Structural)]
pub enum ColumnType {
    Boolean,
    Int32,
    Int64,
    Float,
    Double,
    ByteArray,
}

/// One column.
#[derive(Debug, Clone)]
pub struct ColumnDef {
    pub name: String,
    pub col_type: ColumnType,
    pub nullable: bool,
}

/// The schema of a table. `primary_key` holds column positions.
#[derive(Debug, Clone)]
pub struct TableSchema {
    pub table_name: String,
    pub columns: Vec<ColumnDef>,
    pub primary_key: Vec<usize>,
}

impl Default for ColumnDef {
    fn default() -> (r: Self)
        ensures
            r.name@ == Seq::<char>::empty(),
            r.col_type == ColumnType::Boolean,
            !r.nullable,
    {
        ColumnDef { name: String::new(), col_type: ColumnType::Boolean, nullable: false }
    }
}

impl Default for TableSchema {
    fn default() -> (r: Self)
        ensures
            r.table_name@ == Seq::<char>::empty(),
            r.columns@.len() == 0,
            r.primary_key@.len() == 0,
    {
        TableSchema { table_name: String::new(), columns: Vec::new(), primary_key: Vec::new() }
    }
}

} // verus!
