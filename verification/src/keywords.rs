//! The reserved words of the SQL dialect. A word of this list that follows a
//! table name is never taken for an alias.
//!
//! The list holds the words that the dialect reserves outright, and those
//! that it reserves where a table or an alias may stand, such as `join` and
//! `left`.

use vstd::prelude::*;
use vstd::string::StringExecFns;
use crate::text::texts;

verus! {

/// The reserved words, in lower case and in alphabetical order.
pub open spec fn reserved_keyword_texts() -> Seq<Seq<char>> {
    Seq::<Seq<char>>::empty()
        .push("all"@)
        .push("analyse"@)
        .push("analyze"@)
        .push("and"@)
        .push("anti"@)
        .push("any"@)
        .push("array"@)
        .push("as"@)
        .push("asc"@)
        .push("asof"@)
        .push("asymmetric"@)
        .push("authorization"@)
        .push("binary"@)
        .push("both"@)
        .push("case"@)
        .push("cast"@)
        .push("check"@)
        .push("collate"@)
        .push("collation"@)
        .push("column"@)
        .push("concurrently"@)
        .push("constraint"@)
        .push("create"@)
        .push("cross"@)
        .push("default"@)
        .push("deferrable"@)
        .push("desc"@)
        .push("describe"@)
        .push("distinct"@)
        .push("do"@)
        .push("else"@)
        .push("end"@)
        .push("except"@)
        .push("false"@)
        .push("fetch"@)
        .push("for"@)
        .push("foreign"@)
        .push("freeze"@)
        .push("from"@)
        .push("full"@)
        .push("generated"@)
        .push("glob"@)
        .push("grant"@)
        .push("group"@)
        .push("having"@)
        .push("ilike"@)
        .push("in"@)
        .push("initially"@)
        .push("inner"@)
        .push("intersect"@)
        .push("into"@)
        .push("is"@)
        .push("isnull"@)
        .push("join"@)
        .push("lambda"@)
        .push("lateral"@)
        .push("leading"@)
        .push("left"@)
        .push("like"@)
        .push("limit"@)
        .push("natural"@)
        .push("not"@)
        .push("notnull"@)
        .push("null"@)
        .push("offset"@)
        .push("on"@)
        .push("only"@)
        .push("or"@)
        .push("order"@)
        .push("outer"@)
        .push("overlaps"@)
        .push("pivot"@)
        .push("pivot_longer"@)
        .push("pivot_wider"@)
        .push("placing"@)
        .push("positional"@)
        .push("primary"@)
        .push("qualify"@)
        .push("references"@)
        .push("returning"@)
        .push("right"@)
        .push("select"@)
        .push("semi"@)
        .push("show"@)
        .push("similar"@)
        .push("some"@)
        .push("summarize"@)
        .push("symmetric"@)
        .push("table"@)
        .push("tablesample"@)
        .push("then"@)
        .push("to"@)
        .push("trailing"@)
        .push("true"@)
        .push("try_cast"@)
        .push("union"@)
        .push("unique"@)
        .push("unpivot"@)
        .push("using"@)
        .push("variadic"@)
        .push("verbose"@)
        .push("when"@)
        .push("where"@)
        .push("window"@)
        .push("with"@)
}

/// Appends `word` to `list`.
fn push_word(list: &mut Vec<String>, word: &str)
    ensures
        texts(final(list)@) == texts(old(list)@).push(word@),
{
    let item = String::from_str(word);
    proof {
        assert(texts(list@.push(item)) =~= texts(list@).push(word@));
    }
    list.push(item);
}

/// The reserved words, in lower case and in alphabetical order.
pub fn reserved_keywords() -> (keywords: Vec<String>)
    ensures
        texts(keywords@) == reserved_keyword_texts(),
{
    let mut keywords: Vec<String> = Vec::new();
    assert(texts(keywords@) =~= Seq::empty());
    push_word(&mut keywords, "all");
    push_word(&mut keywords, "analyse");
    push_word(&mut keywords, "analyze");
    push_word(&mut keywords, "and");
    push_word(&mut keywords, "anti");
    push_word(&mut keywords, "any");
    push_word(&mut keywords, "array");
    push_word(&mut keywords, "as");
    push_word(&mut keywords, "asc");
    push_word(&mut keywords, "asof");
    push_word(&mut keywords, "asymmetric");
    push_word(&mut keywords, "authorization");
    push_word(&mut keywords, "binary");
    push_word(&mut keywords, "both");
    push_word(&mut keywords, "case");
    push_word(&mut keywords, "cast");
    push_word(&mut keywords, "check");
    push_word(&mut keywords, "collate");
    push_word(&mut keywords, "collation");
    push_word(&mut keywords, "column");
    push_word(&mut keywords, "concurrently");
    push_word(&mut keywords, "constraint");
    push_word(&mut keywords, "create");
    push_word(&mut keywords, "cross");
    push_word(&mut keywords, "default");
    push_word(&mut keywords, "deferrable");
    push_word(&mut keywords, "desc");
    push_word(&mut keywords, "describe");
    push_word(&mut keywords, "distinct");
    push_word(&mut keywords, "do");
    push_word(&mut keywords, "else");
    push_word(&mut keywords, "end");
    push_word(&mut keywords, "except");
    push_word(&mut keywords, "false");
    push_word(&mut keywords, "fetch");
    push_word(&mut keywords, "for");
    push_word(&mut keywords, "foreign");
    push_word(&mut keywords, "freeze");
    push_word(&mut keywords, "from");
    push_word(&mut keywords, "full");
    push_word(&mut keywords, "generated");
    push_word(&mut keywords, "glob");
    push_word(&mut keywords, "grant");
    push_word(&mut keywords, "group");
    push_word(&mut keywords, "having");
    push_word(&mut keywords, "ilike");
    push_word(&mut keywords, "in");
    push_word(&mut keywords, "initially");
    push_word(&mut keywords, "inner");
    push_word(&mut keywords, "intersect");
    push_word(&mut keywords, "into");
    push_word(&mut keywords, "is");
    push_word(&mut keywords, "isnull");
    push_word(&mut keywords, "join");
    push_word(&mut keywords, "lambda");
    push_word(&mut keywords, "lateral");
    push_word(&mut keywords, "leading");
    push_word(&mut keywords, "left");
    push_word(&mut keywords, "like");
    push_word(&mut keywords, "limit");
    push_word(&mut keywords, "natural");
    push_word(&mut keywords, "not");
    push_word(&mut keywords, "notnull");
    push_word(&mut keywords, "null");
    push_word(&mut keywords, "offset");
    push_word(&mut keywords, "on");
    push_word(&mut keywords, "only");
    push_word(&mut keywords, "or");
    push_word(&mut keywords, "order");
    push_word(&mut keywords, "outer");
    push_word(&mut keywords, "overlaps");
    push_word(&mut keywords, "pivot");
    push_word(&mut keywords, "pivot_longer");
    push_word(&mut keywords, "pivot_wider");
    push_word(&mut keywords, "placing");
    push_word(&mut keywords, "positional");
    push_word(&mut keywords, "primary");
    push_word(&mut keywords, "qualify");
    push_word(&mut keywords, "references");
    push_word(&mut keywords, "returning");
    push_word(&mut keywords, "right");
    push_word(&mut keywords, "select");
    push_word(&mut keywords, "semi");
    push_word(&mut keywords, "show");
    push_word(&mut keywords, "similar");
    push_word(&mut keywords, "some");
    push_word(&mut keywords, "summarize");
    push_word(&mut keywords, "symmetric");
    push_word(&mut keywords, "table");
    push_word(&mut keywords, "tablesample");
    push_word(&mut keywords, "then");
    push_word(&mut keywords, "to");
    push_word(&mut keywords, "trailing");
    push_word(&mut keywords, "true");
    push_word(&mut keywords, "try_cast");
    push_word(&mut keywords, "union");
    push_word(&mut keywords, "unique");
    push_word(&mut keywords, "unpivot");
    push_word(&mut keywords, "using");
    push_word(&mut keywords, "variadic");
    push_word(&mut keywords, "verbose");
    push_word(&mut keywords, "when");
    push_word(&mut keywords, "where");
    push_word(&mut keywords, "window");
    push_word(&mut keywords, "with");
    keywords
}

} // verus!
