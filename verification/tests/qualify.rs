use webasm_module::keywords::reserved_keywords;
use webasm_module::qualify::{
    fold, fold_all, qualify_identifiers, rewrite_words, sql_parser_autocomplete, Word,
};
use webasm_module::text::{chars_of, string_of};
use webasm_module::words::{is_whitespace_char, matches_at, replace_chars, split_words};

fn strings(items: &[&str]) -> Vec<String> {
    items.iter().map(|s| s.to_string()).collect()
}

fn complete(query: &str, tables: &[&str], cursor: usize) -> String {
    sql_parser_autocomplete(query.to_string(), strings(tables), cursor)
}

fn replaced(text: &str, pattern: &str, replacement: &str) -> String {
    string_of(&replace_chars(&chars_of(text), &chars_of(pattern), &chars_of(replacement)))
}

fn word(text: &str, folded: &str) -> Word {
    Word { text: text.to_string(), folded: folded.to_string() }
}

#[test]
fn alias_is_replaced_by_table_name() {
    assert_eq!(
        complete("select a.x from orders a", &["orders"], 24),
        "select orders.x from orders a"
    );
}

#[test]
fn only_the_text_before_the_cursor_is_returned() {
    assert_eq!(complete("select a.x from orders a", &["orders"], 10), "select orders.x");
    assert_eq!(complete("select a.x from orders a", &["orders"], 8), "select a");
    assert_eq!(complete("select a.x, a.y from orders a", &["orders"], 15), "select orders.x, orders.y");
}

#[test]
fn cursor_is_clamped_to_the_query() {
    assert_eq!(complete("select a.x from orders a", &["orders"], 0), "");
    assert_eq!(
        complete("select a.x from orders a", &["orders"], 1000),
        "select orders.x from orders a"
    );
    assert_eq!(complete("", &["orders"], 3), "");
}

#[test]
fn cursor_counts_characters() {
    assert_eq!(complete("sélect é.x from t é", &["t"], 10), "sélect t.x");
}

#[test]
fn alias_after_as_is_found() {
    assert_eq!(
        complete("select o.x from orders as o where o.y = 1", &["orders"], 41),
        "select orders.x from orders as o where orders.y = 1"
    );
}

#[test]
fn only_lower_case_as_is_skipped() {
    assert_eq!(
        complete("select o.x from orders AS o", &["orders"], 27),
        "select o.x from orders AS o"
    );
}

#[test]
fn keyword_after_table_is_no_alias() {
    let query = "select select.x from orders select";
    assert_eq!(complete(query, &["orders"], query.len()), query);
    let query = "select where.x, join.y from orders where join.y = 1";
    assert_eq!(complete(query, &["orders"], query.len()), query);
    let query = "select Join.y, join.y from orders JOIN customers";
    assert_eq!(complete(query, &["orders"], query.len()), query);
}

#[test]
fn keyword_list_decides_what_is_an_alias() {
    let query = "select select.x from orders select";
    assert_eq!(
        qualify_identifiers(query, &strings(&["orders"]), query.len(), &strings(&[])),
        "select orders.x from orders select"
    );
    let query = "select a.x from orders a";
    assert_eq!(
        qualify_identifiers(query, &strings(&["orders"]), query.len(), &strings(&["a"])),
        query
    );
}

#[test]
fn table_names_match_without_regard_to_case() {
    assert_eq!(
        complete("select a.x from ORDERS a", &["orders"], 24),
        "select orders.x from ORDERS a"
    );
    assert_eq!(
        complete("select a.x from orders a", &["Orders"], 24),
        "select Orders.x from orders a"
    );
}

#[test]
fn alias_is_looked_for_in_lower_case() {
    assert_eq!(
        complete("select A.x, a.y from orders A", &["orders"], 29),
        "select A.x, orders.y from orders A"
    );
}

#[test]
fn table_at_the_end_has_no_alias() {
    let query = "select a.x from orders";
    assert_eq!(complete(query, &["orders"], query.len()), query);
    let query = "select a.x from orders as";
    assert_eq!(complete(query, &["orders"], query.len()), query);
}

#[test]
fn each_table_is_handled_in_turn() {
    let query = "select o.x, c.y from orders o join customers c on o.id = c.id";
    assert_eq!(
        complete(query, &["orders", "customers"], query.len()),
        "select orders.x, customers.y from orders o join customers c on orders.id = customers.id"
    );
    assert_eq!(complete(query, &[], query.len()), query);
}

#[test]
fn alias_at_the_start_of_the_text_is_kept() {
    assert_eq!(complete("a.x from orders a", &["orders"], 17), "a.x from orders a");
}

#[test]
fn words_come_from_the_whole_query() {
    assert_eq!(complete("select a.x from orders a", &["orders"], 12), "select orders.x f");
}

#[test]
fn folding_lowers_the_case() {
    let folded = fold("OrDeRs Ä".to_string());
    assert_eq!(folded.text, "OrDeRs Ä");
    assert_eq!(folded.folded, "orders ä");
    let all = fold_all(&strings(&["A", "b", ""]));
    assert_eq!(all.len(), 3);
    assert_eq!(all[0].text, "A");
    assert_eq!(all[0].folded, "a");
    assert_eq!(all[1].folded, "b");
    assert_eq!(all[2].folded, "");
}

#[test]
fn rewriting_goes_by_the_folded_forms() {
    let tokens = vec![word("from", "from"), word("T1", "same"), word("X", "y")];
    let tables = vec![word("orders", "same")];
    let out = rewrite_words(chars_of("select y.a, X.b"), &tokens, &tables, &strings(&[]));
    assert_eq!(string_of(&out), "select orders.a, X.b");
    let out = rewrite_words(chars_of("select y.a"), &tokens, &tables, &strings(&["y"]));
    assert_eq!(string_of(&out), "select y.a");
    let tables = vec![word("same", "other")];
    let out = rewrite_words(chars_of("select y.a"), &tokens, &tables, &strings(&[]));
    assert_eq!(string_of(&out), "select y.a");
}

#[test]
fn a_table_named_twice_is_rewritten_from_the_left() {
    let query = "select a.x, b.y from t a join t b";
    assert_eq!(complete(query, &["t"], query.len()), "select t.x, t.y from t a join t b");
}

#[test]
fn replacement_finds_occurrences_from_the_left() {
    assert_eq!(replaced("aaa", "aa", "b"), "ba");
    assert_eq!(replaced("abcabc", "bc", "-"), "a-a-");
    assert_eq!(replaced("abc", "abcd", "x"), "abc");
    assert_eq!(replaced("abc", "abc", ""), "");
    assert_eq!(replaced("", "a", "b"), "");
    assert_eq!(replaced("abab", "ab", "abab"), "abababab");
    assert_eq!(replaced("x a.y a.z", " a.", " t."), "x t.y t.z");
    for (text, pattern, replacement) in
        [("aaaa", "aa", "a"), ("mississippi", "ss", "SS"), ("mississippi", "issi", "")]
    {
        assert_eq!(replaced(text, pattern, replacement), text.replace(pattern, replacement));
    }
}

#[test]
fn empty_pattern_occurs_nowhere() {
    assert_eq!(replaced("abc", "", "x"), "abc");
}

#[test]
fn pattern_is_found_only_where_it_fits() {
    let text = chars_of("abcab");
    assert!(matches_at(&text, &chars_of("ab"), 0));
    assert!(!matches_at(&text, &chars_of("ab"), 1));
    assert!(matches_at(&text, &chars_of("ab"), 3));
    assert!(!matches_at(&text, &chars_of("abc"), 3));
    assert!(matches_at(&text, &chars_of(""), 5));
    assert!(!matches_at(&text, &chars_of("a"), 5));
}

#[test]
fn words_are_split_at_whitespace() {
    assert_eq!(split_words(&chars_of("  select\ta.x \n from  t ")), strings(&["select", "a.x", "from", "t"]));
    assert_eq!(split_words(&chars_of("")), strings(&[]));
    assert_eq!(split_words(&chars_of(" \t\n")), strings(&[]));
    assert_eq!(split_words(&chars_of("one")), strings(&["one"]));
    let text = "a\u{3000}b\u{a0}c\u{2003}d\u{85}e\u{200b}f\u{1680}g\u{2028}h\u{2029}i\u{202f}j\u{205f}k\u{b}l\u{c}m\rn";
    let expected: Vec<String> = text.split_whitespace().map(|w| w.to_string()).collect();
    assert_eq!(split_words(&chars_of(text)), expected);
}

#[test]
fn whitespace_is_what_the_standard_library_calls_whitespace() {
    let mut code: u32 = 0;
    while code <= 0x3100 {
        if let Some(c) = char::from_u32(code) {
            assert_eq!(is_whitespace_char(c), c.is_whitespace(), "code point {:x}", code);
        }
        code += 1;
    }
    assert!(!is_whitespace_char('\u{feff}'));
    assert!(!is_whitespace_char('\u{10ffff}'));
}

#[test]
fn reserved_words_are_lower_case_and_sorted() {
    let keywords = reserved_keywords();
    assert_eq!(keywords.len(), 105);
    assert_eq!(keywords[0], "all");
    assert_eq!(keywords[104], "with");
    for pair in keywords.windows(2) {
        assert!(pair[0] < pair[1]);
    }
    for keyword in &keywords {
        assert_eq!(*keyword, keyword.to_lowercase());
    }
    for expected in ["select", "from", "where", "join", "left", "as", "on", "group"] {
        assert!(keywords.iter().any(|k| k == expected));
    }
}
