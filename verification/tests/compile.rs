use webasm_module::builder::sql_builder;
use webasm_module::error::CompileError;
use webasm_module::joins::generate_from_stmt;
use webasm_module::model::{
    Aggregation, AggregationType, Column, Database, Filter, OperatorType, Query, Table,
};

fn column(table: &str, name: &str) -> Column {
    Column { table: table.to_string(), column: name.to_string() }
}

fn aggregation(table: &str, name: &str, aggregation_type: AggregationType) -> Aggregation {
    Aggregation { column: column(table, name), aggregation_type }
}

fn filter(table: &str, name: &str, negate: bool, operator: OperatorType, values: &[&str]) -> Filter {
    Filter {
        column: column(table, name),
        negate,
        operator,
        values: values.iter().map(|v| v.to_string()).collect(),
    }
}

fn table(relationships: &[(&str, &[&str])]) -> Table {
    let mut table = Table::new();
    for (other, conditions) in relationships {
        table.add_relationship(
            other.to_string(),
            conditions.iter().map(|c| c.to_string()).collect(),
        );
    }
    table
}

fn shop() -> Database {
    let mut database = Database::new();
    database.add_table("orders".to_string(), table(&[]));
    database.add_table(
        "customers".to_string(),
        table(&[("orders", &["customers.id = orders.customer_id"])]),
    );
    database
}

fn names(tables: &[&str]) -> Vec<String> {
    tables.iter().map(|t| t.to_string()).collect()
}

#[test]
fn end_to_end_orders_and_customers() {
    let query = Query {
        labels: vec![column("customers", "name")],
        aggregations: vec![aggregation("orders", "total", AggregationType::SUM)],
        filters: vec![],
    };
    let sql = sql_builder(query, shop()).unwrap();
    assert_eq!(
        sql,
        "SELECT customers.name,\n\tsum(orders.total) total\n\n\
         FROM orders\n\tJOIN customers ON customers.id = orders.customer_id\n\n\
         \n\n\
         GROUP BY customers.name"
    );
}

#[test]
fn from_clause_walks_aggregation_tables_first() {
    let clause = generate_from_stmt(names(&["orders", "customers"]), &shop()).unwrap();
    assert_eq!(clause, "FROM orders\n\tJOIN customers ON customers.id = orders.customer_id");
}

#[test]
fn single_table_needs_no_schema_entry() {
    let clause = generate_from_stmt(names(&["anything"]), &Database::new()).unwrap();
    assert_eq!(clause, "FROM anything\n");
}

#[test]
fn empty_table_list_is_an_error() {
    let result = generate_from_stmt(Vec::new(), &shop());
    assert!(matches!(result, Err(CompileError::NoTables)));
}

#[test]
fn relationships_are_directional() {
    let result = generate_from_stmt(names(&["customers", "orders"]), &shop());
    match result {
        Err(CompileError::NoRelationship { previous, table }) => {
            assert_eq!(previous, "customers");
            assert_eq!(table, "orders");
        }
        other => panic!("unexpected result: {:?}", other),
    }
}

#[test]
fn unknown_table_is_named_in_the_error() {
    let result = generate_from_stmt(names(&["orders", "products"]), &shop());
    match result {
        Err(CompileError::TableWithoutRelationships { table }) => {
            assert_eq!(table, "products");
            let error = CompileError::TableWithoutRelationships { table };
            assert_eq!(
                error.message(),
                "Table products has no relationship, and cannot be included in joins"
            );
        }
        other => panic!("unexpected result: {:?}", other),
    }
}

#[test]
fn filter_with_wrong_arity_is_rejected() {
    let query = Query {
        labels: vec![column("orders", "id")],
        aggregations: vec![],
        filters: vec![filter("orders", "id", false, OperatorType::EQUAL, &["1", "2"])],
    };
    let result = sql_builder(query, shop());
    assert!(matches!(
        result,
        Err(CompileError::FilterArity { operator: OperatorType::EQUAL, found: 2 })
    ));
}

fn warehouse() -> Database {
    let mut database = Database::new();
    database.add_table("a".to_string(), table(&[]));
    database.add_table("b".to_string(), table(&[("a", &["b.a_id = a.id"])]));
    database.add_table(
        "c".to_string(),
        table(&[("a", &["c.a_id = a.id"]), ("b", &["c.b_id = b.id", "c.k = b.k"])]),
    );
    database
}

#[test]
fn three_connected_tables_give_two_joins() {
    let clause = generate_from_stmt(names(&["a", "b", "c"]), &warehouse()).unwrap();
    assert_eq!(
        clause,
        "FROM a\n\tJOIN b ON b.a_id = a.id\tJOIN c ON c.a_id = a.id\n\t\tAND c.b_id = b.id\n\t\tAND c.k = b.k"
    );
    assert_eq!(clause.matches("JOIN").count(), 2);
}

#[test]
fn join_order_decides_which_entries_are_read() {
    let result = generate_from_stmt(names(&["a", "c", "b"]), &warehouse());
    match result {
        Err(CompileError::NoRelationship { previous, table }) => {
            assert_eq!(previous, "c");
            assert_eq!(table, "b");
        }
        other => panic!("unexpected result: {:?}", other),
    }
}

#[test]
fn first_failure_in_join_order_is_reported() {
    let result = generate_from_stmt(names(&["b", "a", "nowhere"]), &warehouse());
    match result {
        Err(CompileError::NoRelationship { previous, table }) => {
            assert_eq!(previous, "b");
            assert_eq!(table, "a");
        }
        other => panic!("unexpected result: {:?}", other),
    }
}

#[test]
fn relationship_without_conditions_gives_bare_join() {
    let mut database = Database::new();
    database.add_table("b".to_string(), table(&[("a", &[])]));
    let clause = generate_from_stmt(names(&["a", "b"]), &database).unwrap();
    assert_eq!(clause, "FROM a\n\tJOIN b ON");
}

#[test]
fn later_declaration_replaces_earlier_one() {
    let mut b = Table::new();
    b.add_relationship("a".to_string(), vec!["old".to_string()]);
    b.add_relationship("a".to_string(), vec!["new".to_string()]);
    assert_eq!(b.conditions("a"), Some(&vec!["new".to_string()]));
    assert_eq!(b.conditions("z"), None);
    let mut database = Database::new();
    database.add_table("b".to_string(), Table::new());
    database.add_table("b".to_string(), b);
    assert!(database.table("a").is_none());
    let clause = generate_from_stmt(names(&["a", "b"]), &database).unwrap();
    assert_eq!(clause, "FROM a\n\tJOIN b ON new");
}

#[test]
fn error_messages_name_the_tables() {
    assert_eq!(CompileError::NoTables.message(), "There must be atleast one table");
    assert_eq!(
        CompileError::NoRelationship { previous: "a".to_string(), table: "b".to_string() }
            .message(),
        "No relastionship exists between a and b"
    );
    assert_eq!(
        CompileError::FilterArity { operator: OperatorType::EQUAL, found: 0 }.message(),
        "Equal operator should only have one value"
    );
    assert_eq!(
        CompileError::FilterArity { operator: OperatorType::IN, found: 0 }.message(),
        "In operator should have atleast one value"
    );
    assert_eq!(
        CompileError::FilterArity { operator: OperatorType::BETWEEN, found: 3 }.message(),
        "Between operator should only have 2 values"
    );
}

#[test]
fn query_without_tables_is_an_error() {
    let query = Query { labels: vec![], aggregations: vec![], filters: vec![] };
    assert!(matches!(sql_builder(query, shop()), Err(CompileError::NoTables)));
}

#[test]
fn labels_only_query_has_no_group_by() {
    let query = Query {
        labels: vec![column("orders", "id"), column("orders", "day")],
        aggregations: vec![],
        filters: vec![],
    };
    let sql = sql_builder(query, shop()).unwrap();
    assert_eq!(sql, "SELECT orders.id,\n\torders.day,\n\t\n\nFROM orders\n\n\n\n\n");
}

#[test]
fn aggregations_only_query_groups_by_nothing() {
    let query = Query {
        labels: vec![],
        aggregations: vec![
            aggregation("orders", "total", AggregationType::MAX),
            aggregation("orders", "id", AggregationType::COUNT),
        ],
        filters: vec![],
    };
    let sql = sql_builder(query, shop()).unwrap();
    assert_eq!(
        sql,
        "SELECT max(orders.total) total,count() id\n\nFROM orders\n\n\n\n\nGROUP BY "
    );
}

#[test]
fn every_filter_stands_once_in_where() {
    let query = Query {
        labels: vec![column("orders", "id")],
        aggregations: vec![],
        filters: vec![
            filter("orders", "id", false, OperatorType::EQUAL, &["1"]),
            filter("orders", "day", true, OperatorType::IN, &["2", "3"]),
            filter("orders", "id", false, OperatorType::EQUAL, &["1"]),
            filter("orders", "total", false, OperatorType::BETWEEN, &["5", "9"]),
        ],
    };
    let sql = sql_builder(query, shop()).unwrap();
    assert_eq!(
        sql,
        "SELECT orders.id,\n\t\n\nFROM orders\n\n\n\
         WHERE  (orders.id = 1)\n\
         \tAND NOT  (orders.day in (2, 3))\n\
         \tAND  (orders.total between 5 and 9)\n\
         \n\n"
    );
}

#[test]
fn equal_aggregations_appear_once() {
    let query = Query {
        labels: vec![column("customers", "name"), column("customers", "name")],
        aggregations: vec![
            aggregation("orders", "total", AggregationType::SUM),
            aggregation("orders", "total", AggregationType::AVG),
            aggregation("orders", "total", AggregationType::SUM),
        ],
        filters: vec![],
    };
    let sql = sql_builder(query, shop()).unwrap();
    assert_eq!(sql.matches("sum(orders.total) total").count(), 1);
    assert_eq!(
        sql,
        "SELECT customers.name,\n\tsum(orders.total) total,avg(orders.total) total\n\n\
         FROM orders\n\tJOIN customers ON customers.id = orders.customer_id\n\n\
         \n\n\
         GROUP BY customers.name"
    );
}

#[test]
fn count_aggregations_differing_only_by_table_are_one_fragment() {
    let query = Query {
        labels: vec![],
        aggregations: vec![
            aggregation("orders", "id", AggregationType::COUNT),
            aggregation("customers", "id", AggregationType::COUNT),
        ],
        filters: vec![],
    };
    let sql = sql_builder(query, shop()).unwrap();
    assert_eq!(
        sql,
        "SELECT count() id\n\n\
         FROM orders\n\tJOIN customers ON customers.id = orders.customer_id\n\n\
         \n\n\
         GROUP BY "
    );
}

#[test]
fn compiling_twice_gives_the_same_text() {
    let build = || Query {
        labels: vec![column("customers", "name")],
        aggregations: vec![aggregation("orders", "total", AggregationType::MIN)],
        filters: vec![filter("orders", "total", true, OperatorType::BETWEEN, &["1", "2"])],
    };
    let first = sql_builder(build(), shop()).unwrap();
    let second = sql_builder(build(), shop()).unwrap();
    assert_eq!(first, second);
    assert_eq!(first.as_bytes(), second.as_bytes());
}

#[test]
fn table_without_entry_fails_with_its_name() {
    let query = Query {
        labels: vec![column("products", "name")],
        aggregations: vec![aggregation("orders", "total", AggregationType::SUM)],
        filters: vec![],
    };
    match sql_builder(query, shop()) {
        Err(CompileError::TableWithoutRelationships { table }) => assert_eq!(table, "products"),
        other => panic!("unexpected result: {:?}", other),
    }
}

#[test]
fn first_table_needs_no_entry() {
    let query = Query {
        labels: vec![column("products", "name")],
        aggregations: vec![],
        filters: vec![],
    };
    let sql = sql_builder(query, shop()).unwrap();
    assert_eq!(sql, "SELECT products.name,\n\t\n\nFROM products\n\n\n\n\n");
}

#[test]
fn arity_is_checked_before_the_join() {
    let query = Query {
        labels: vec![column("orders", "id"), column("products", "name")],
        aggregations: vec![],
        filters: vec![
            filter("orders", "id", false, OperatorType::IN, &["1"]),
            filter("orders", "id", false, OperatorType::BETWEEN, &["1"]),
            filter("orders", "id", false, OperatorType::EQUAL, &[]),
        ],
    };
    assert!(matches!(
        sql_builder(query, shop()),
        Err(CompileError::FilterArity { operator: OperatorType::BETWEEN, found: 1 })
    ));
}

#[test]
fn each_operator_rejects_a_wrong_number_of_values() {
    let cases: Vec<(OperatorType, Vec<&str>)> = vec![
        (OperatorType::EQUAL, vec![]),
        (OperatorType::EQUAL, vec!["1", "2"]),
        (OperatorType::IN, vec![]),
        (OperatorType::BETWEEN, vec![]),
        (OperatorType::BETWEEN, vec!["1"]),
        (OperatorType::BETWEEN, vec!["1", "2", "3"]),
    ];
    for (operator, values) in cases {
        let query = Query {
            labels: vec![column("orders", "id")],
            aggregations: vec![],
            filters: vec![filter("orders", "id", false, operator, &values)],
        };
        match sql_builder(query, shop()) {
            Err(CompileError::FilterArity { operator: found_operator, found }) => {
                assert_eq!(found_operator, operator);
                assert_eq!(found, values.len());
            }
            other => panic!("unexpected result: {:?}", other),
        }
    }
}
