//! The join resolver: from the tables of a query, in the order they are to be
//! included, and a schema, the `FROM` clause that joins them.
//!
//! The first table seeds the clause. Each later table is joined to all tables
//! before it: the resolver looks in the later table's own relationships for
//! each earlier table, and never the other way round. For `n` tables it makes
//! `n * (n - 1) / 2` lookups.

use vstd::prelude::*;
use vstd::string::StringExecFns;
use crate::error::{names_a_table, CompileError, CompileErrorView};
use crate::model::{Database, Relationships, Schema};
use crate::text::{append_all, join, join_texts, texts};

verus! {

/// The index of the first of `previous` for which `relationships` holds no
/// entry, if there is one.
pub open spec fn first_unrelated(relationships: Relationships, previous: Seq<Seq<char>>) -> Option<
    int,
>
    decreases previous.len(),
{
    if previous.len() == 0 {
        None
    } else {
        match first_unrelated(relationships, previous.drop_last()) {
            Some(j) => Some(j),
            None => if relationships.contains_key(previous.last()) {
                None
            } else {
                Some(previous.len() - 1)
            },
        }
    }
}

/// The conditions that join a table to all of `previous`: for each of them in
/// order, the conditions declared for it, in the order of their declaration.
pub open spec fn join_conditions(relationships: Relationships, previous: Seq<Seq<char>>) -> Seq<
    Seq<char>,
>
    decreases previous.len(),
{
    if previous.len() == 0 {
        Seq::empty()
    } else {
        join_conditions(relationships, previous.drop_last()) + relationships[previous.last()]
    }
}

/// One condition as it stands in a segment: after a space.
pub open spec fn spaced(condition: Seq<char>) -> Seq<char> {
    " "@ + condition
}

/// Each of `conditions` as it stands in a segment.
pub open spec fn spaced_all(conditions: Seq<Seq<char>>) -> Seq<Seq<char>> {
    conditions.map_values(|c: Seq<char>| spaced(c))
}

/// The segment that joins `table` on `conditions`, all of them linked by
/// `AND`.
pub open spec fn join_segment(table: Seq<char>, conditions: Seq<Seq<char>>) -> Seq<char> {
    "\tJOIN "@ + table + " ON"@ + join_texts(spaced_all(conditions), "\n\t\tAND"@)
}

/// The segment for the table at place `i`, which is joined to the `i` tables
/// before it, or the reason why it cannot be joined.
pub open spec fn join_step(schema: Schema, tables: Seq<Seq<char>>, i: int) -> Result<
    Seq<char>,
    CompileErrorView,
> {
    let table = tables[i];
    if !schema.contains_key(table) {
        Err(CompileErrorView::TableWithoutRelationships { table })
    } else {
        match first_unrelated(schema[table], tables.take(i)) {
            Some(j) => Err(CompileErrorView::NoRelationship { previous: tables[j], table }),
            None => Ok(join_segment(table, join_conditions(schema[table], tables.take(i)))),
        }
    }
}

/// The clause over the first `n` of `tables`, for `n` of at least one: the
/// seed, then one segment for each later table. The first table that cannot
/// be joined decides the error.
pub open spec fn from_clause_of(schema: Schema, tables: Seq<Seq<char>>, n: int) -> Result<
    Seq<char>,
    CompileErrorView,
>
    decreases n,
{
    if n <= 1 {
        Ok("FROM "@ + tables[0] + "\n"@)
    } else {
        match from_clause_of(schema, tables, n - 1) {
            Err(e) => Err(e),
            Ok(clause) => match join_step(schema, tables, n - 1) {
                Err(e) => Err(e),
                Ok(segment) => Ok(clause + segment),
            },
        }
    }
}

/// The `FROM` clause for `tables`, or why there is none.
pub open spec fn from_clause(schema: Schema, tables: Seq<Seq<char>>) -> Result<
    Seq<char>,
    CompileErrorView,
> {
    if tables.len() == 0 {
        Err(CompileErrorView::NoTables)
    } else {
        from_clause_of(schema, tables, tables.len() as int)
    }
}

/// Once a table cannot be joined, the error stands whatever follows it.
pub proof fn lemma_from_clause_error_stays(schema: Schema, tables: Seq<Seq<char>>, n: int, m: int)
    requires
        1 <= n <= m,
        from_clause_of(schema, tables, n) is Err,
    ensures
        from_clause_of(schema, tables, m) == from_clause_of(schema, tables, n),
    decreases m - n,
{
    if n < m {
        lemma_from_clause_error_stays(schema, tables, n, m - 1);
    }
}

/// A table that is unrelated within a prefix of `previous` is the first
/// unrelated one of the whole.
pub proof fn lemma_first_unrelated_prefix(
    relationships: Relationships,
    previous: Seq<Seq<char>>,
    n: int,
)
    requires
        0 <= n <= previous.len(),
        first_unrelated(relationships, previous.take(n)) is Some,
    ensures
        first_unrelated(relationships, previous) == first_unrelated(
            relationships,
            previous.take(n),
        ),
    decreases previous.len() - n,
{
    if n < previous.len() {
        assert(previous.take(n + 1).drop_last() =~= previous.take(n));
        lemma_first_unrelated_prefix(relationships, previous, n + 1);
    } else {
        assert(previous.take(n) =~= previous);
    }
}

/// What the first unrelated table is: no table before it lacks an entry, and
/// it does; where there is none, every table has an entry.
pub proof fn lemma_first_unrelated(relationships: Relationships, previous: Seq<Seq<char>>)
    ensures
        match first_unrelated(relationships, previous) {
            Some(j) => {
                &&& 0 <= j < previous.len()
                &&& !relationships.contains_key(previous[j])
                &&& forall|k: int| 0 <= k < j ==> relationships.contains_key(#[trigger] previous[k])
            },
            None => forall|k: int|
                0 <= k < previous.len() ==> relationships.contains_key(#[trigger] previous[k]),
        },
    decreases previous.len(),
{
    if previous.len() > 0 {
        let front = previous.drop_last();
        lemma_first_unrelated(relationships, front);
        assert forall|k: int| 0 <= k < front.len() implies front[k] == previous[k] by {}
        match first_unrelated(relationships, front) {
            Some(j) => {
                assert(front[j] == previous[j]);
                assert forall|k: int| 0 <= k < j implies relationships.contains_key(
                    #[trigger] previous[k],
                ) by {
                    assert(front[k] == previous[k]);
                }
            },
            None => {
                assert forall|k: int| 0 <= k < front.len() implies relationships.contains_key(
                    #[trigger] previous[k],
                ) by {
                    assert(front[k] == previous[k]);
                }
            },
        }
    }
}

/// Where each earlier table has exactly one condition declared, a table is
/// joined on exactly one condition for each earlier table, in their order.
pub proof fn lemma_one_condition_each(relationships: Relationships, previous: Seq<Seq<char>>)
    requires
        forall|j: int|
            0 <= j < previous.len() ==> relationships[#[trigger] previous[j]].len() == 1,
    ensures
        join_conditions(relationships, previous).len() == previous.len(),
        forall|j: int|
            0 <= j < previous.len() ==> join_conditions(relationships, previous)[j]
                == relationships[#[trigger] previous[j]][0],
    decreases previous.len(),
{
    if previous.len() > 0 {
        let front = previous.drop_last();
        assert forall|j: int| 0 <= j < front.len() implies relationships[#[trigger] front[j]].len()
            == 1 by {
            assert(front[j] == previous[j]);
        }
        lemma_one_condition_each(relationships, front);
        assert(relationships[previous[previous.len() - 1]].len() == 1);
        assert forall|j: int| 0 <= j < previous.len() implies join_conditions(
            relationships,
            previous,
        )[j] == relationships[#[trigger] previous[j]][0] by {
            if j < front.len() {
                assert(front[j] == previous[j]);
            }
        }
    }
}

/// Whether `table` declares how it joins to `previous`.
pub open spec fn declares(schema: Schema, table: Seq<char>, previous: Seq<char>) -> bool {
    schema.contains_key(table) && schema[table].contains_key(previous)
}

/// Whether each table after the first declares how it joins to every table
/// before it.
pub open spec fn fully_connected(schema: Schema, tables: Seq<Seq<char>>) -> bool {
    forall|i: int, j: int|
        0 <= j < i < tables.len() ==> declares(schema, #[trigger] tables[i], #[trigger] tables[j])
}

/// The segments of a clause: one for each table after the first, each joined
/// on the conditions declared for the tables before it.
pub open spec fn join_segments(schema: Schema, tables: Seq<Seq<char>>) -> Seq<Seq<char>> {
    Seq::new(
        (tables.len() - 1) as nat,
        |k: int|
            join_segment(
                tables[k + 1],
                join_conditions(schema[tables[k + 1]], tables.take(k + 1)),
            ),
    )
}

/// For tables that are fully connected in the order given, the clause over
/// the first `n` is the seed and the first `n - 1` segments.
proof fn lemma_connected_prefix(schema: Schema, tables: Seq<Seq<char>>, n: int)
    requires
        1 <= n <= tables.len(),
        fully_connected(schema, tables),
    ensures
        from_clause_of(schema, tables, n) == Ok::<Seq<char>, CompileErrorView>(
            "FROM "@ + tables[0] + "\n"@ + join_segments(schema, tables).take(n - 1).flatten_alt(),
        ),
    decreases n,
{
    let segments = join_segments(schema, tables);
    let seed = "FROM "@ + tables[0] + "\n"@;
    if n <= 1 {
        assert(segments.take(0).flatten_alt() =~= Seq::<char>::empty());
        assert(seed + Seq::<char>::empty() =~= seed);
    } else {
        lemma_connected_prefix(schema, tables, n - 1);
        let table = tables[n - 1];
        let previous = tables.take(n - 1);
        assert(declares(schema, tables[n - 1], tables[0]));
        lemma_first_unrelated(schema[table], previous);
        if first_unrelated(schema[table], previous) is Some {
            let j = first_unrelated(schema[table], previous)->Some_0;
            assert(previous[j] == tables[j]);
            assert(declares(schema, tables[n - 1], tables[j]));
        }
        assert(segments.take(n - 1).drop_last() =~= segments.take(n - 2));
        assert(segments.take(n - 1).last() == segments[n - 2]);
        assert(seed + (segments.take(n - 2).flatten_alt() + segments[n - 2]) =~= seed
            + segments.take(n - 2).flatten_alt() + segments[n - 2]);
    }
}

/// Tables that are fully connected in the order given can be joined: the
/// clause is the seed followed by exactly one segment for each table after
/// the first.
pub proof fn lemma_connected_tables_join(schema: Schema, tables: Seq<Seq<char>>)
    requires
        tables.len() > 0,
        fully_connected(schema, tables),
    ensures
        join_segments(schema, tables).len() == tables.len() - 1,
        from_clause(schema, tables) == Ok::<Seq<char>, CompileErrorView>(
            "FROM "@ + tables[0] + "\n"@ + join_segments(schema, tables).flatten(),
        ),
{
    let segments = join_segments(schema, tables);
    lemma_connected_prefix(schema, tables, tables.len() as int);
    assert(segments.take(tables.len() - 1) =~= segments);
    segments.lemma_flatten_and_flatten_alt_are_equivalent();
}

/// An error of the join resolver on a list that is not empty names the table
/// that could not be joined.
pub proof fn lemma_join_errors_name_a_table(schema: Schema, tables: Seq<Seq<char>>, n: int)
    requires
        1 <= n,
    ensures
        match from_clause_of(schema, tables, n) {
            Ok(_) => true,
            Err(e) => names_a_table(e),
        },
    decreases n,
{
    if n > 1 {
        lemma_join_errors_name_a_table(schema, tables, n - 1);
    }
}

/// A table after the first that the schema does not know makes the join
/// fail, with an error that names a table.
pub proof fn lemma_unknown_table_fails(schema: Schema, tables: Seq<Seq<char>>, i: int)
    requires
        1 <= i < tables.len(),
        !schema.contains_key(tables[i]),
    ensures
        match from_clause(schema, tables) {
            Ok(_) => false,
            Err(e) => names_a_table(e),
        },
{
    assert(join_step(schema, tables, i) is Err);
    assert(from_clause_of(schema, tables, i + 1) is Err);
    lemma_from_clause_error_stays(schema, tables, i + 1, tables.len() as int);
    lemma_join_errors_name_a_table(schema, tables, tables.len() as int);
}

/// Writes each condition after a space.
fn with_leading_space(conditions: &Vec<String>) -> (out: Vec<String>)
    ensures
        texts(out@) == spaced_all(texts(conditions@)),
{
    let mut out: Vec<String> = Vec::new();
    let mut k: usize = 0;
    while k < conditions.len()
        invariant
            k <= conditions.len(),
            texts(out@) == spaced_all(texts(conditions@).take(k as int)),
        decreases conditions.len() - k,
    {
        let mut condition = String::from_str(" ");
        condition.append(conditions[k].as_str());
        proof {
            let all = texts(conditions@);
            assert(condition@ == spaced(all[k as int]));
            assert(texts(out@.push(condition)) =~= texts(out@).push(condition@));
            assert(all.take(k + 1) =~= all.take(k as int).push(all[k as int]));
            assert(spaced_all(all.take(k as int).push(all[k as int])) =~= spaced_all(
                all.take(k as int),
            ).push(spaced(all[k as int])));
        }
        out.push(condition);
        k += 1;
    }
    proof {
        assert(texts(conditions@).take(conditions.len() as int) =~= texts(conditions@));
    }
    out
}

/// Builds the `FROM` clause that joins `tables` in the order given.
///
/// Fails with [`CompileError::NoTables`] on an empty list, with
/// [`CompileError::TableWithoutRelationships`] at the first table after the
/// seed that the schema does not know, and with
/// [`CompileError::NoRelationship`] at the first pair for which the later
/// table declares nothing.
pub fn generate_from_stmt(tables: Vec<String>, data_model: &Database) -> (clause: Result<
    String,
    CompileError,
>)
    ensures
        match clause {
            Ok(text) => from_clause(data_model@, texts(tables@)) == Ok::<
                Seq<char>,
                CompileErrorView,
            >(text@),
            Err(e) => from_clause(data_model@, texts(tables@)) == Err::<
                Seq<char>,
                CompileErrorView,
            >(e@),
        },
{
    if tables.len() == 0 {
        return Err(CompileError::NoTables);
    }
    let ghost names = texts(tables@);
    let mut from_statement = String::from_str("FROM ");
    from_statement.append(tables[0].as_str());
    from_statement.append("\n");
    let mut i: usize = 1;
    while i < tables.len()
        invariant
            1 <= i <= tables.len(),
            names == texts(tables@),
            from_clause_of(data_model@, names, i as int) == Ok::<Seq<char>, CompileErrorView>(
                from_statement@,
            ),
        decreases tables.len() - i,
    {
        let table = &tables[i];
        let ghost previous = names.take(i as int);
        assert(names[i as int] == table@);
        let relationships = match data_model.table(table.as_str()) {
            Some(found) => found,
            None => {
                proof {
                    assert(join_step(data_model@, names, i as int) is Err);
                    lemma_from_clause_error_stays(
                        data_model@,
                        names,
                        i + 1,
                        tables.len() as int,
                    );
                }
                return Err(CompileError::TableWithoutRelationships { table: table.clone() });
            },
        };
        let mut conditions: Vec<String> = Vec::new();
        let mut j: usize = 0;
        while j < i
            invariant
                j <= i < tables.len(),
                names == texts(tables@),
                previous == names.take(i as int),
                table@ == names[i as int],
                data_model@.contains_key(table@),
                relationships@ == data_model@[table@],
                from_clause_of(data_model@, names, i as int) is Ok,
                first_unrelated(relationships@, previous.take(j as int)) is None,
                texts(conditions@) == join_conditions(relationships@, previous.take(j as int)),
            decreases i - j,
        {
            let previous_table = &tables[j];
            proof {
                assert(previous.take(j + 1).drop_last() =~= previous.take(j as int));
                assert(previous.take(j + 1).last() == previous_table@);
                assert(names[j as int] == previous_table@);
            }
            match relationships.conditions(previous_table.as_str()) {
                Some(declared) => {
                    append_all(&mut conditions, declared);
                },
                None => {
                    proof {
                        assert(first_unrelated(relationships@, previous.take(j + 1)) == Some(
                            j as int,
                        ));
                        lemma_first_unrelated_prefix(relationships@, previous, j + 1);
                        assert(join_step(data_model@, names, i as int) is Err);
                        lemma_from_clause_error_stays(
                            data_model@,
                            names,
                            i + 1,
                            tables.len() as int,
                        );
                    }
                    return Err(
                        CompileError::NoRelationship {
                            previous: previous_table.clone(),
                            table: table.clone(),
                        },
                    );
                },
            }
            j += 1;
        }
        let ghost before = from_statement@;
        let joined = join(&with_leading_space(&conditions), "\n\t\tAND");
        from_statement.append("\tJOIN ");
        from_statement.append(table.as_str());
        from_statement.append(" ON");
        from_statement.append(joined.as_str());
        proof {
            assert(previous.take(i as int) =~= previous);
            let segment = join_segment(table@, join_conditions(relationships@, previous));
            assert(join_step(data_model@, names, i as int) == Ok::<Seq<char>, CompileErrorView>(
                segment,
            ));
            assert(from_statement@ =~= before + segment);
        }
        i += 1;
    }
    Ok(from_statement)
}

} // verus!
