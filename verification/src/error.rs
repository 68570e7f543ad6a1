//! The one error type of the compiler. Every rejected input, a filter with
//! the wrong number of values as much as a join that the schema does not
//! declare, comes back as a value of it.

use vstd::prelude::*;
use vstd::string::StringExecFns;
use crate::model::OperatorType;

verus! {

/// Why a query could not be compiled.
#[derive(Debug)]
pub enum CompileError {
    /// The query names no table: it has neither aggregations nor labels.
    NoTables,
    /// A table that has to be joined to earlier ones has no entry in the
    /// schema.
    TableWithoutRelationships { table: String },
    /// `table` has an entry in the schema, but none that joins it to
    /// `previous`, which stands before it in the join order.
    NoRelationship { previous: String, table: String },
    /// A filter holds `found` values, which its operator does not accept.
    FilterArity { operator: OperatorType, found: usize },
}

/// What a [`CompileError`] holds.
pub enum CompileErrorView {
    NoTables,
    TableWithoutRelationships { table: Seq<char> },
    NoRelationship { previous: Seq<char>, table: Seq<char> },
    FilterArity { operator: OperatorType, found: nat },
}

impl View for CompileError {
    type V = CompileErrorView;

    open spec fn view(&self) -> CompileErrorView {
        match self {
            CompileError::NoTables => CompileErrorView::NoTables,
            CompileError::TableWithoutRelationships { table } => {
                CompileErrorView::TableWithoutRelationships { table: table@ }
            },
            CompileError::NoRelationship { previous, table } => CompileErrorView::NoRelationship {
                previous: previous@,
                table: table@,
            },
            CompileError::FilterArity { operator, found } => CompileErrorView::FilterArity {
                operator: *operator,
                found: *found as nat,
            },
        }
    }
}

/// Whether an error names the table, or the pair of tables, at fault.
pub open spec fn names_a_table(e: CompileErrorView) -> bool {
    e is TableWithoutRelationships || e is NoRelationship
}

/// The message of an error.
pub open spec fn message_text(e: CompileErrorView) -> Seq<char> {
    match e {
        CompileErrorView::NoTables => "There must be atleast one table"@,
        CompileErrorView::TableWithoutRelationships { table } => "Table "@ + table
            + " has no relationship, and cannot be included in joins"@,
        CompileErrorView::NoRelationship { previous, table } =>
            "No relastionship exists between "@ + previous + " and "@ + table,
        CompileErrorView::FilterArity { operator, found } => match operator {
            OperatorType::EQUAL => "Equal operator should only have one value"@,
            OperatorType::IN => "In operator should have atleast one value"@,
            OperatorType::BETWEEN => "Between operator should only have 2 values"@,
        },
    }
}

impl CompileError {
    /// The message of this error, for a reader.
    pub fn message(&self) -> (text: String)
        ensures
            text@ == message_text(self@),
    {
        match self {
            CompileError::NoTables => String::from_str("There must be atleast one table"),
            CompileError::TableWithoutRelationships { table } => {
                let mut text = String::from_str("Table ");
                text.append(table.as_str());
                text.append(" has no relationship, and cannot be included in joins");
                text
            },
            CompileError::NoRelationship { previous, table } => {
                let mut text = String::from_str("No relastionship exists between ");
                text.append(previous.as_str());
                text.append(" and ");
                text.append(table.as_str());
                text
            },
            CompileError::FilterArity { operator, found: _ } => match operator {
                OperatorType::EQUAL => String::from_str(
                    "Equal operator should only have one value",
                ),
                OperatorType::IN => String::from_str("In operator should have atleast one value"),
                OperatorType::BETWEEN => String::from_str(
                    "Between operator should only have 2 values",
                ),
            },
        }
    }
}

} // verus!
