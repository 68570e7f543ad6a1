//! The statement assembler: from a query and a schema, the SQL statement.
//!
//! Aggregations are walked before labels, so the tables of the aggregations
//! come first in the join order. Tables, labels, aggregations and filters are
//! each kept once, at their first occurrence; fragments are told apart by
//! their rendered text. Every filter of the query takes part in the `WHERE`
//! clause.

use vstd::prelude::*;
use vstd::string::StringExecFns;
use crate::error::{names_a_table, CompileError, CompileErrorView};
use crate::joins::{
    from_clause, fully_connected, generate_from_stmt, join_segments, lemma_connected_tables_join,
    lemma_unknown_table_fails,
};
use crate::model::{
    AggregationView, ColumnView, Database, FilterView, Query, QueryView, Schema,
};
use crate::render::{aggregation_text, arity_error, arity_ok, column_text, filter_text};
use crate::text::{
    first_occurrences, join, join_texts, lemma_first_occurrences_distinct,
    lemma_first_occurrences_members, lemma_first_occurrences_step, push_unique, texts,
};

verus! {

/// The table of each aggregation, then the table of each label.
pub open spec fn table_references(q: QueryView) -> Seq<Seq<char>> {
    q.aggregations.map_values(|a: AggregationView| a.column.table) + q.labels.map_values(
        |c: ColumnView| c.table,
    )
}

/// The tables of a query in join order: each once, in the order of first
/// reference.
pub open spec fn referenced_tables(q: QueryView) -> Seq<Seq<char>> {
    first_occurrences(table_references(q))
}

/// The text of each aggregation, in order.
pub open spec fn aggregation_texts(q: QueryView) -> Seq<Seq<char>> {
    q.aggregations.map_values(|a: AggregationView| aggregation_text(a))
}

/// The text of each label, in order.
pub open spec fn label_texts(q: QueryView) -> Seq<Seq<char>> {
    q.labels.map_values(|c: ColumnView| column_text(c))
}

/// The text of each filter, in order.
pub open spec fn filter_texts(filters: Seq<FilterView>) -> Seq<Seq<char>> {
    filters.map_values(|f: FilterView| filter_text(f))
}

/// The index of the first filter with the wrong number of values, if there is
/// one.
pub open spec fn first_rejected(filters: Seq<FilterView>) -> Option<int>
    decreases filters.len(),
{
    if filters.len() == 0 {
        None
    } else {
        match first_rejected(filters.drop_last()) {
            Some(k) => Some(k),
            None => if arity_ok(filters.last()) {
                None
            } else {
                Some(filters.len() - 1)
            },
        }
    }
}

/// The separator between two labels.
pub open spec fn label_separator() -> Seq<char> {
    ",\n\t"@
}

/// The `SELECT` clause: the labels, then the aggregations. A separator
/// follows the labels wherever there is a label.
pub open spec fn select_clause(labels: Seq<Seq<char>>, aggregations: Seq<Seq<char>>) -> Seq<
    char,
> {
    "SELECT "@ + join_texts(labels, label_separator()) + (if labels.len() > 0 {
        label_separator()
    } else {
        Seq::empty()
    }) + join_texts(aggregations, ","@)
}

/// The `WHERE` clause: one line for each filter, the first after `WHERE`, the
/// others after `AND`. Empty without filters.
pub open spec fn where_clause(filters: Seq<Seq<char>>) -> Seq<char>
    decreases filters.len(),
{
    if filters.len() == 0 {
        Seq::empty()
    } else {
        where_clause(filters.drop_last()) + (if filters.len() == 1 {
            "WHERE "@
        } else {
            "\tAND "@
        }) + filters.last() + "\n"@
    }
}

/// The `GROUP BY` clause: all labels, where there is an aggregation; empty
/// where there is none.
pub open spec fn group_by_clause(labels: Seq<Seq<char>>, aggregations: Seq<Seq<char>>) -> Seq<
    char,
> {
    if aggregations.len() > 0 {
        "GROUP BY "@ + join_texts(labels, label_separator())
    } else {
        Seq::empty()
    }
}

/// The four clauses with a blank line between neighbours.
pub open spec fn statement(
    select: Seq<char>,
    from: Seq<char>,
    filter: Seq<char>,
    group_by: Seq<char>,
) -> Seq<char> {
    select + "\n\n"@ + from + "\n\n"@ + filter + "\n\n"@ + group_by
}

/// The statement of a query whose `FROM` clause is `from`.
pub open spec fn statement_of(q: QueryView, from: Seq<char>) -> Seq<char> {
    let labels = first_occurrences(label_texts(q));
    let aggregations = first_occurrences(aggregation_texts(q));
    let filters = first_occurrences(filter_texts(q.filters));
    statement(
        select_clause(labels, aggregations),
        from,
        where_clause(filters),
        group_by_clause(labels, aggregations),
    )
}

/// What compiling a query against a schema gives. A filter with the wrong
/// number of values is rejected first; then the tables are joined, and the
/// join's error, if any, is the result.
pub open spec fn compiled(q: QueryView, schema: Schema) -> Result<Seq<char>, CompileErrorView> {
    match first_rejected(q.filters) {
        Some(k) => Err(arity_error(q.filters[k])),
        None => match from_clause(schema, referenced_tables(q)) {
            Err(e) => Err(e),
            Ok(from) => Ok(statement_of(q, from)),
        },
    }
}

/// A filter rejected within a prefix is the first rejected one of the whole.
pub proof fn lemma_first_rejected_prefix(filters: Seq<FilterView>, n: int)
    requires
        0 <= n <= filters.len(),
        first_rejected(filters.take(n)) is Some,
    ensures
        first_rejected(filters) == first_rejected(filters.take(n)),
    decreases filters.len() - n,
{
    if n < filters.len() {
        assert(filters.take(n + 1).drop_last() =~= filters.take(n));
        lemma_first_rejected_prefix(filters, n + 1);
    } else {
        assert(filters.take(n) =~= filters);
    }
}

/// What the first rejected filter is: every filter before it has the right
/// number of values, and it has not; where there is none, all filters have.
pub proof fn lemma_first_rejected(filters: Seq<FilterView>)
    ensures
        match first_rejected(filters) {
            Some(k) => {
                &&& 0 <= k < filters.len()
                &&& !arity_ok(filters[k])
                &&& forall|j: int| 0 <= j < k ==> arity_ok(#[trigger] filters[j])
            },
            None => forall|j: int| 0 <= j < filters.len() ==> arity_ok(#[trigger] filters[j]),
        },
    decreases filters.len(),
{
    if filters.len() > 0 {
        let front = filters.drop_last();
        lemma_first_rejected(front);
        match first_rejected(front) {
            Some(k) => {
                assert(front[k] == filters[k]);
                assert forall|j: int| 0 <= j < k implies arity_ok(#[trigger] filters[j]) by {
                    assert(front[j] == filters[j]);
                }
            },
            None => {
                assert forall|j: int| 0 <= j < front.len() implies arity_ok(
                    #[trigger] filters[j],
                ) by {
                    assert(front[j] == filters[j]);
                }
            },
        }
    }
}

/// A query with a filter that holds the wrong number of values for its
/// operator does not compile: the result is the arity error of the first
/// such filter, whatever the schema.
pub proof fn lemma_wrong_arity_fails(q: QueryView, schema: Schema, k: int)
    requires
        0 <= k < q.filters.len(),
        !arity_ok(q.filters[k]),
    ensures
        first_rejected(q.filters) matches Some(first) && 0 <= first <= k && compiled(q, schema)
            == Err::<Seq<char>, CompileErrorView>(arity_error(q.filters[first])),
        compiled(q, schema) matches Err(e) && e is FilterArity,
{
    lemma_first_rejected(q.filters);
}

/// A query whose filters are in order, and which refers to a table after the
/// first that the schema does not know, does not compile: the error names a
/// table.
pub proof fn lemma_unknown_table_is_named(q: QueryView, schema: Schema, i: int)
    requires
        first_rejected(q.filters) is None,
        1 <= i < referenced_tables(q).len(),
        !schema.contains_key(referenced_tables(q)[i]),
    ensures
        compiled(q, schema) matches Err(e) && names_a_table(e),
{
    lemma_unknown_table_fails(schema, referenced_tables(q), i);
}

/// A query whose tables are fully connected in the order of first reference,
/// and whose filters are in order, compiles: its `FROM` clause is the seed
/// and one segment for each table after the first.
pub proof fn lemma_connected_query_compiles(q: QueryView, schema: Schema)
    requires
        first_rejected(q.filters) is None,
        referenced_tables(q).len() > 0,
        fully_connected(schema, referenced_tables(q)),
    ensures
        join_segments(schema, referenced_tables(q)).len() == referenced_tables(q).len() - 1,
        compiled(q, schema) == Ok::<Seq<char>, CompileErrorView>(
            statement_of(
                q,
                "FROM "@ + referenced_tables(q)[0] + "\n"@ + join_segments(
                    schema,
                    referenced_tables(q),
                ).flatten(),
            ),
        ),
{
    lemma_connected_tables_join(schema, referenced_tables(q));
}

/// Compiling is a function of what the query and the schema hold: two
/// queries and two schemas that hold the same give the same result, text or
/// error.
pub proof fn lemma_compile_is_deterministic(
    first: Query,
    first_model: Database,
    second: Query,
    second_model: Database,
)
    requires
        first@ == second@,
        first_model@ == second_model@,
    ensures
        compiled(first@, first_model@) == compiled(second@, second_model@),
{
}

/// The aggregations of the `SELECT` clause hold no text twice, and hold the
/// text of every aggregation of the query: two aggregations with the same
/// text stand there once.
pub proof fn lemma_aggregations_appear_once(q: QueryView, i: int)
    requires
        0 <= i < q.aggregations.len(),
    ensures
        first_occurrences(aggregation_texts(q)).no_duplicates(),
        first_occurrences(aggregation_texts(q)).contains(aggregation_text(q.aggregations[i])),
{
    lemma_first_occurrences_distinct(aggregation_texts(q));
    lemma_first_occurrences_members(aggregation_texts(q), aggregation_text(q.aggregations[i]));
    assert(aggregation_texts(q)[i] == aggregation_text(q.aggregations[i]));
}

/// The tables of the join order hold no table twice, and hold every table
/// that an aggregation or a label refers to.
pub proof fn lemma_tables_appear_once(q: QueryView, table: Seq<char>)
    ensures
        referenced_tables(q).no_duplicates(),
        referenced_tables(q).contains(table) <==> table_references(q).contains(table),
{
    lemma_first_occurrences_distinct(table_references(q));
    lemma_first_occurrences_members(table_references(q), table);
}

/// Renders the `WHERE` clause of the given filter texts.
fn render_where(filters: &Vec<String>) -> (clause: String)
    ensures
        clause@ == where_clause(texts(filters@)),
{
    let mut clause = String::new();
    let mut k: usize = 0;
    while k < filters.len()
        invariant
            k <= filters.len(),
            clause@ == where_clause(texts(filters@).take(k as int)),
        decreases filters.len() - k,
    {
        let ghost before = clause@;
        if k == 0 {
            clause.append("WHERE ");
        } else {
            clause.append("\tAND ");
        }
        clause.append(filters[k].as_str());
        clause.append("\n");
        proof {
            let all = texts(filters@);
            assert(all.take(k + 1).drop_last() =~= all.take(k as int));
            assert(all.take(k + 1).last() == filters@[k as int]@);
        }
        k += 1;
    }
    proof {
        assert(texts(filters@).take(filters.len() as int) =~= texts(filters@));
    }
    clause
}

/// Compiles `query` against `data_model` into one SQL statement: the
/// `SELECT`, `FROM`, `WHERE` and `GROUP BY` clauses, in that order.
///
/// Fails with [`CompileError::FilterArity`] at the first filter that holds
/// the wrong number of values, and otherwise with the error of the join
/// resolver, unchanged.
pub fn sql_builder(query: Query, data_model: Database) -> (sql: Result<String, CompileError>)
    ensures
        match sql {
            Ok(text) => compiled(query@, data_model@) == Ok::<Seq<char>, CompileErrorView>(
                text@,
            ),
            Err(e) => compiled(query@, data_model@) == Err::<Seq<char>, CompileErrorView>(e@),
        },
{
    let ghost q = query@;
    let ghost references = table_references(q);
    let mut tables: Vec<String> = Vec::new();
    let mut aggregations: Vec<String> = Vec::new();
    let mut labels: Vec<String> = Vec::new();
    let mut filters: Vec<String> = Vec::new();

    let mut i: usize = 0;
    while i < query.aggregations.len()
        invariant
            i <= query.aggregations.len(),
            q == query@,
            references == table_references(q),
            texts(tables@) == first_occurrences(references.take(i as int)),
            texts(aggregations@) == first_occurrences(aggregation_texts(q).take(i as int)),
        decreases query.aggregations.len() - i,
    {
        let aggregation = &query.aggregations[i];
        proof {
            assert(q.aggregations[i as int] == aggregation@);
            lemma_first_occurrences_step(references, i as int);
            lemma_first_occurrences_step(aggregation_texts(q), i as int);
        }
        push_unique(&mut tables, aggregation.column.table.clone());
        push_unique(&mut aggregations, aggregation.render());
        i += 1;
    }
    let count: usize = query.aggregations.len();
    let mut i: usize = 0;
    while i < query.labels.len()
        invariant
            i <= query.labels.len(),
            count == query.aggregations.len(),
            q == query@,
            references == table_references(q),
            texts(tables@) == first_occurrences(references.take(count + i)),
            texts(labels@) == first_occurrences(label_texts(q).take(i as int)),
        decreases query.labels.len() - i,
    {
        let label = &query.labels[i];
        proof {
            assert(q.labels[i as int] == label@);
            lemma_first_occurrences_step(references, count + i);
            lemma_first_occurrences_step(label_texts(q), i as int);
        }
        push_unique(&mut tables, label.table.clone());
        push_unique(&mut labels, label.render());
        i += 1;
    }
    let mut i: usize = 0;
    while i < query.filters.len()
        invariant
            i <= query.filters.len(),
            q == query@,
            first_rejected(q.filters.take(i as int)) is None,
            texts(filters@) == first_occurrences(filter_texts(q.filters).take(i as int)),
        decreases query.filters.len() - i,
    {
        let filter = &query.filters[i];
        proof {
            assert(q.filters[i as int] == filter@);
            assert(q.filters.take(i + 1).drop_last() =~= q.filters.take(i as int));
            lemma_first_occurrences_step(filter_texts(q.filters), i as int);
        }
        match filter.render() {
            Ok(text) => {
                push_unique(&mut filters, text);
            },
            Err(e) => {
                proof {
                    lemma_first_rejected_prefix(q.filters, i + 1);
                }
                return Err(e);
            },
        }
        i += 1;
    }
    proof {
        assert(references.take(references.len() as int) =~= references);
        assert(aggregation_texts(q).take(count as int) =~= aggregation_texts(q));
        assert(label_texts(q).take(query.labels.len() as int) =~= label_texts(q));
        assert(filter_texts(q.filters).take(query.filters.len() as int) =~= filter_texts(
            q.filters,
        ));
        assert(q.filters.take(query.filters.len() as int) =~= q.filters);
    }

    let from_stmt = match generate_from_stmt(tables, &data_model) {
        Ok(from_stmt) => from_stmt,
        Err(e) => {
            return Err(e);
        },
    };

    let joined_labels = join(&labels, ",\n\t");
    let mut select_stmt = String::from_str("SELECT ");
    select_stmt.append(joined_labels.as_str());
    if labels.len() > 0 {
        select_stmt.append(",\n\t");
    }
    select_stmt.append(join(&aggregations, ",").as_str());
    assert(select_stmt@ =~= select_clause(texts(labels@), texts(aggregations@)));

    let mut group_by_stmt = String::new();
    if aggregations.len() > 0 {
        group_by_stmt.append("GROUP BY ");
        group_by_stmt.append(joined_labels.as_str());
    }
    assert(group_by_stmt@ =~= group_by_clause(texts(labels@), texts(aggregations@)));

    let where_stmt = render_where(&filters);

    let mut query_str = select_stmt;
    query_str.append("\n\n");
    query_str.append(from_stmt.as_str());
    query_str.append("\n\n");
    query_str.append(where_stmt.as_str());
    query_str.append("\n\n");
    query_str.append(group_by_stmt.as_str());
    Ok(query_str)
}

} // verus!
