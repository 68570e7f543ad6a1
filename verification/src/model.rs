//! The data model: the query that asks for columns, aggregations and filters,
//! and the schema that records how tables join.
//!
//! Relationships are directional. A table records, for each other table that
//! may stand before it in a join order, the conditions that join the two. An
//! entry of `b` for `a` says nothing of an entry of `a` for `b`: a schema that
//! wants a pair joined in either order declares both.

use vstd::prelude::*;
use vstd::hash_map::StringHashMap;
use crate::text::texts;

verus! {

/// A column of a table.
#[derive(Debug)]
pub struct Column {
    pub table: String,
    pub column: String,
}

/// What a [`Column`] holds, as character sequences.
pub struct ColumnView {
    pub table: Seq<char>,
    pub column: Seq<char>,
}

impl View for Column {
    type V = ColumnView;

    open spec fn view(&self) -> ColumnView {
        ColumnView { table: self.table@, column: self.column@ }
    }
}

impl Clone for Column {
    fn clone(&self) -> (copy: Self)
        ensures
            copy@ == self@,
    {
        Column { table: self.table.clone(), column: self.column.clone() }
    }
}

/// The function an aggregation applies.
#[derive(Clone, Copy, Debug, PartialEq, Eq, Structural)]
pub enum AggregationType {
    SUM,
    AVG,
    MIN,
    MAX,
    COUNT,
}

/// The comparison a filter makes.
#[derive(Clone, Copy, Debug, PartialEq, Eq, Structural)]
pub enum OperatorType {
    EQUAL,
    BETWEEN,
    IN,
}

/// An aggregate of one column.
#[derive(Debug)]
pub struct Aggregation {
    pub column: Column,
    pub aggregation_type: AggregationType,
}

/// What an [`Aggregation`] holds.
pub struct AggregationView {
    pub column: ColumnView,
    pub aggregation_type: AggregationType,
}

impl View for Aggregation {
    type V = AggregationView;

    open spec fn view(&self) -> AggregationView {
        AggregationView { column: self.column@, aggregation_type: self.aggregation_type }
    }
}

/// A condition on one column. `EQUAL` compares with exactly one value,
/// `BETWEEN` with exactly two, `IN` with at least one.
#[derive(Debug)]
pub struct Filter {
    pub column: Column,
    pub negate: bool,
    pub operator: OperatorType,
    pub values: Vec<String>,
}

/// What a [`Filter`] holds.
pub struct FilterView {
    pub column: ColumnView,
    pub negate: bool,
    pub operator: OperatorType,
    pub values: Seq<Seq<char>>,
}

impl View for Filter {
    type V = FilterView;

    open spec fn view(&self) -> FilterView {
        FilterView {
            column: self.column@,
            negate: self.negate,
            operator: self.operator,
            values: texts(self.values@),
        }
    }
}

/// A query: the columns to project, the aggregates to compute and the
/// conditions to apply.
#[derive(Debug)]
pub struct Query {
    pub labels: Vec<Column>,
    pub aggregations: Vec<Aggregation>,
    pub filters: Vec<Filter>,
}

/// What a [`Query`] holds.
pub struct QueryView {
    pub labels: Seq<ColumnView>,
    pub aggregations: Seq<AggregationView>,
    pub filters: Seq<FilterView>,
}

impl View for Query {
    type V = QueryView;

    open spec fn view(&self) -> QueryView {
        QueryView {
            labels: self.labels@.map_values(|c: Column| c@),
            aggregations: self.aggregations@.map_values(|a: Aggregation| a@),
            filters: self.filters@.map_values(|f: Filter| f@),
        }
    }
}

/// The relationships of one table: for each other table, the conditions that
/// join this table to it, in the order they were declared.
pub type Relationships = Map<Seq<char>, Seq<Seq<char>>>;

/// A schema: for each table that declares any, its relationships.
pub type Schema = Map<Seq<char>, Relationships>;

/// One table of a schema.
pub struct Table {
    relationships: StringHashMap<Vec<String>>,
}

impl View for Table {
    type V = Relationships;

    closed spec fn view(&self) -> Relationships {
        Map::new(
            |other: Seq<char>| self.relationships@.contains_key(other),
            |other: Seq<char>| texts(self.relationships@[other]@),
        )
    }
}

impl Table {
    /// A table that declares no relationship.
    pub fn new() -> (table: Table)
        ensures
            table@ == Relationships::empty(),
    {
        let table = Table { relationships: StringHashMap::new() };
        proof {
            assert(table@ =~= Relationships::empty());
        }
        table
    }

    /// Declares `conditions` as what joins this table to `other`, in place of
    /// any earlier declaration for `other`.
    pub fn add_relationship(&mut self, other: String, conditions: Vec<String>)
        ensures
            final(self)@ == old(self)@.insert(other@, texts(conditions@)),
    {
        let ghost joined = old(self)@.insert(other@, texts(conditions@));
        self.relationships.insert(other, conditions);
        proof {
            assert(self@ =~= joined);
        }
    }

    /// The conditions that join this table to `other`, if any were declared.
    pub fn conditions(&self, other: &str) -> (found: Option<&Vec<String>>)
        ensures
            match found {
                Some(conditions) => self@.contains_key(other@) && texts(conditions@)
                    == self@[other@],
                None => !self@.contains_key(other@),
            },
    {
        self.relationships.get(other)
    }
}

/// The tables of a schema, by name.
pub struct Database {
    tables: StringHashMap<Table>,
}

impl View for Database {
    type V = Schema;

    closed spec fn view(&self) -> Schema {
        Map::new(
            |name: Seq<char>| self.tables@.contains_key(name),
            |name: Seq<char>| self.tables@[name]@,
        )
    }
}

impl Database {
    /// A schema without tables.
    pub fn new() -> (database: Database)
        ensures
            database@ == Schema::empty(),
    {
        let database = Database { tables: StringHashMap::new() };
        proof {
            assert(database@ =~= Schema::empty());
        }
        database
    }

    /// Records `table` under `name`, in place of any earlier table of that
    /// name.
    pub fn add_table(&mut self, name: String, table: Table)
        ensures
            final(self)@ == old(self)@.insert(name@, table@),
    {
        let ghost grown = old(self)@.insert(name@, table@);
        self.tables.insert(name, table);
        proof {
            assert(self@ =~= grown);
        }
    }

    /// The table recorded under `name`, if there is one.
    pub fn table(&self, name: &str) -> (found: Option<&Table>)
        ensures
            match found {
                Some(table) => self@.contains_key(name@) && table@ == self@[name@],
                None => !self@.contains_key(name@),
            },
    {
        self.tables.get(name)
    }
}

} // verus!
