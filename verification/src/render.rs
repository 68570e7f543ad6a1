//! The fragment renderer: the SQL text of one column, one aggregation or one
//! filter.

use vstd::prelude::*;
use vstd::string::StringExecFns;
use crate::error::{CompileError, CompileErrorView};
use crate::model::{
    Aggregation, AggregationType, AggregationView, Column, ColumnView, Filter, FilterView,
    OperatorType,
};
use crate::text::{join, join_texts, texts};

verus! {

/// A column is written as its table, a dot and its name.
pub open spec fn column_text(c: ColumnView) -> Seq<char> {
    c.table + "."@ + c.column
}

/// The SQL name of an aggregate function.
pub open spec fn aggregation_name(t: AggregationType) -> Seq<char> {
    match t {
        AggregationType::SUM => "sum"@,
        AggregationType::AVG => "avg"@,
        AggregationType::MIN => "min"@,
        AggregationType::MAX => "max"@,
        AggregationType::COUNT => "count"@,
    }
}

/// The name by which a filter's operator is read.
pub open spec fn operator_name(o: OperatorType) -> Seq<char> {
    match o {
        OperatorType::EQUAL => "eq"@,
        OperatorType::BETWEEN => "between"@,
        OperatorType::IN => "in"@,
    }
}

/// An aggregation is written as the function applied to the column, then the
/// column's bare name as alias. `count` takes no argument.
pub open spec fn aggregation_text(a: AggregationView) -> Seq<char> {
    if a.aggregation_type == AggregationType::COUNT {
        "count() "@ + a.column.column
    } else {
        aggregation_name(a.aggregation_type) + "("@ + column_text(a.column) + ") "@
            + a.column.column
    }
}

/// Whether a filter holds as many values as its operator takes.
pub open spec fn arity_ok(f: FilterView) -> bool {
    match f.operator {
        OperatorType::EQUAL => f.values.len() == 1,
        OperatorType::IN => f.values.len() > 0,
        OperatorType::BETWEEN => f.values.len() == 2,
    }
}

/// The error that a filter with the wrong number of values is rejected with.
pub open spec fn arity_error(f: FilterView) -> CompileErrorView {
    CompileErrorView::FilterArity { operator: f.operator, found: f.values.len() }
}

/// What stands before the bracket of a filter: `NOT ` where it is negated.
pub open spec fn negation_text(negate: bool) -> Seq<char> {
    if negate {
        "NOT "@
    } else {
        ""@
    }
}

/// The text of a filter whose arity is right.
pub open spec fn filter_text(f: FilterView) -> Seq<char> {
    let head = negation_text(f.negate) + " ("@ + column_text(f.column);
    match f.operator {
        OperatorType::EQUAL => head + " = "@ + f.values[0] + ")"@,
        OperatorType::IN => head + " in ("@ + join_texts(f.values, ", "@) + "))"@,
        OperatorType::BETWEEN => head + " between "@ + f.values[0] + " and "@ + f.values[1]
            + ")"@,
    }
}

/// What rendering a filter gives: its text, or the arity error.
pub open spec fn rendered_filter(f: FilterView) -> Result<Seq<char>, CompileErrorView> {
    if arity_ok(f) {
        Ok(filter_text(f))
    } else {
        Err(arity_error(f))
    }
}

impl Column {
    /// Renders the column as `table.column`.
    pub fn render(&self) -> (text: String)
        ensures
            text@ == column_text(self@),
    {
        let mut text = self.table.clone();
        text.append(".");
        text.append(self.column.as_str());
        text
    }
}

impl AggregationType {
    /// The SQL name of the function.
    pub fn name(&self) -> (text: &'static str)
        ensures
            text@ == aggregation_name(*self),
    {
        match self {
            AggregationType::SUM => "sum",
            AggregationType::AVG => "avg",
            AggregationType::MIN => "min",
            AggregationType::MAX => "max",
            AggregationType::COUNT => "count",
        }
    }

    /// Reads a function from its SQL name: `Ok` exactly for the five names.
    pub fn from_str(s: &str) -> (parsed: Result<AggregationType, ()>)
        ensures
            match parsed {
                Ok(t) => s@ == aggregation_name(t),
                Err(_) => forall|t: AggregationType| s@ != aggregation_name(t),
            },
    {
        if *s == *"sum" {
            Ok(AggregationType::SUM)
        } else if *s == *"avg" {
            Ok(AggregationType::AVG)
        } else if *s == *"min" {
            Ok(AggregationType::MIN)
        } else if *s == *"max" {
            Ok(AggregationType::MAX)
        } else if *s == *"count" {
            Ok(AggregationType::COUNT)
        } else {
            Err(())
        }
    }
}

impl OperatorType {
    /// Reads an operator from its name: `Ok` exactly for `eq`, `between` and
    /// `in`.
    pub fn from_str(s: &str) -> (parsed: Result<OperatorType, ()>)
        ensures
            match parsed {
                Ok(o) => s@ == operator_name(o),
                Err(_) => forall|o: OperatorType| s@ != operator_name(o),
            },
    {
        if *s == *"eq" {
            Ok(OperatorType::EQUAL)
        } else if *s == *"between" {
            Ok(OperatorType::BETWEEN)
        } else if *s == *"in" {
            Ok(OperatorType::IN)
        } else {
            Err(())
        }
    }
}

impl Aggregation {
    /// Renders the aggregation with its alias.
    pub fn render(&self) -> (text: String)
        ensures
            text@ == aggregation_text(self@),
    {
        match self.aggregation_type {
            AggregationType::COUNT => {
                let mut text = String::from_str("count() ");
                text.append(self.column.column.as_str());
                text
            },
            _ => {
                let mut text = String::from_str(self.aggregation_type.name());
                text.append("(");
                text.append(self.column.render().as_str());
                text.append(") ");
                text.append(self.column.column.as_str());
                text
            },
        }
    }
}

impl Filter {
    /// Renders the filter, or rejects it where it holds the wrong number of
    /// values for its operator.
    pub fn render(&self) -> (rendered: Result<String, CompileError>)
        ensures
            match rendered {
                Ok(text) => rendered_filter(self@) == Ok::<Seq<char>, CompileErrorView>(text@),
                Err(e) => rendered_filter(self@) == Err::<Seq<char>, CompileErrorView>(e@),
            },
    {
        let found = self.values.len();
        let mut text = String::from_str(if self.negate { "NOT " } else { "" });
        text.append(" (");
        text.append(self.column.render().as_str());
        match self.operator {
            OperatorType::EQUAL => {
                if found != 1 {
                    return Err(CompileError::FilterArity { operator: self.operator, found });
                }
                text.append(" = ");
                text.append(self.values[0].as_str());
                text.append(")");
            },
            OperatorType::IN => {
                if found == 0 {
                    return Err(CompileError::FilterArity { operator: self.operator, found });
                }
                text.append(" in (");
                text.append(join(&self.values, ", ").as_str());
                text.append("))");
            },
            OperatorType::BETWEEN => {
                if found != 2 {
                    return Err(CompileError::FilterArity { operator: self.operator, found });
                }
                text.append(" between ");
                text.append(self.values[0].as_str());
                text.append(" and ");
                text.append(self.values[1].as_str());
                text.append(")");
            },
        }
        Ok(text)
    }
}

} // verus!
