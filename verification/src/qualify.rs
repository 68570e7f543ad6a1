//! The identifier qualifier: in the part of a query that stands before the
//! cursor, writes the full table name in place of an alias.
//!
//! This is a heuristic on whitespace-separated words, not a parser. A word
//! that equals a table name inside a string literal or a comment is taken for
//! the table.
//!
//! The cursor counts characters. A cursor beyond the end of the query is read
//! as the end of the query; a cursor of zero leaves nothing to rewrite.

use vstd::prelude::*;
use crate::keywords::{reserved_keyword_texts, reserved_keywords};
use crate::text::{chars_of, contains_text, string_of, texts};
use crate::words::{replace_all, replace_chars, split_words, tokens};

verus! {

/// The lower-case form of a text, as `str::to_lowercase` of the standard
/// library gives it.
pub uninterp spec fn lowercase_of(s: Seq<char>) -> Seq<char>;

/// `str::to_lowercase` of the standard library: the result is the lower-case
/// form of the slice. It depends on the characters alone. Believed, not
/// proved.
pub assume_specification[ str::to_lowercase ](s: &str) -> (lowered: String)
    ensures
        lowered@ == lowercase_of(s@),
;

/// A word together with the form by which it is compared.
#[derive(Debug)]
pub struct Word {
    pub text: String,
    pub folded: String,
}

/// What a [`Word`] holds.
pub struct WordView {
    pub text: Seq<char>,
    pub folded: Seq<char>,
}

impl View for Word {
    type V = WordView;

    open spec fn view(&self) -> WordView {
        WordView { text: self.text@, folded: self.folded@ }
    }
}

/// What a list of words holds.
pub open spec fn word_views(words: Seq<Word>) -> Seq<WordView> {
    words.map_values(|w: Word| w@)
}

/// A text with its lower-case form.
pub open spec fn folded_word(text: Seq<char>) -> WordView {
    WordView { text, folded: lowercase_of(text) }
}

/// Each text with its lower-case form.
pub open spec fn folded_words(items: Seq<Seq<char>>) -> Seq<WordView> {
    items.map_values(|t: Seq<char>| folded_word(t))
}

/// A name as it is looked for and written: after a space, before a dot.
pub open spec fn qualifier(name: Seq<char>) -> Seq<char> {
    seq![' '] + name + seq!['.']
}

/// The place of the alias that may follow the table name at place `i`: the
/// next word, or the one after it where the next word is `as`.
pub open spec fn candidate_index(tokens: Seq<WordView>, i: int) -> int {
    if i + 1 < tokens.len() && tokens[i + 1].text == "as"@ {
        i + 2
    } else {
        i + 1
    }
}

/// Whether the word at place `i` names `table` and is followed by an alias
/// that is no keyword.
pub open spec fn has_alias(
    tokens: Seq<WordView>,
    table: WordView,
    i: int,
    keywords: Seq<Seq<char>>,
) -> bool {
    &&& tokens[i].folded == table.folded
    &&& candidate_index(tokens, i) < tokens.len()
    &&& !keywords.contains(tokens[candidate_index(tokens, i)].folded)
}

/// `text` after the word at place `i` has been looked at for `table`: where
/// an alias follows it, every use of the alias as a qualifier is replaced by
/// the table's name; else `text` is unchanged.
pub open spec fn rewritten_at(
    text: Seq<char>,
    tokens: Seq<WordView>,
    table: WordView,
    i: int,
    keywords: Seq<Seq<char>>,
) -> Seq<char> {
    if has_alias(tokens, table, i, keywords) {
        replace_all(
            text,
            qualifier(tokens[candidate_index(tokens, i)].folded),
            qualifier(table.text),
        )
    } else {
        text
    }
}

/// `text` after the first `n` words have been looked at for `table`, from the
/// left.
pub open spec fn rewritten_for_table(
    text: Seq<char>,
    tokens: Seq<WordView>,
    table: WordView,
    n: int,
    keywords: Seq<Seq<char>>,
) -> Seq<char>
    decreases n,
{
    if n <= 0 {
        text
    } else {
        rewritten_at(
            rewritten_for_table(text, tokens, table, n - 1, keywords),
            tokens,
            table,
            n - 1,
            keywords,
        )
    }
}

/// `text` after all words have been looked at for each of the first `m`
/// tables, one table after the other.
pub open spec fn rewritten_for_tables(
    text: Seq<char>,
    tokens: Seq<WordView>,
    tables: Seq<WordView>,
    m: int,
    keywords: Seq<Seq<char>>,
) -> Seq<char>
    decreases m,
{
    if m <= 0 {
        text
    } else {
        rewritten_for_table(
            rewritten_for_tables(text, tokens, tables, m - 1, keywords),
            tokens,
            tables[m - 1],
            tokens.len() as int,
            keywords,
        )
    }
}

/// `text` rewritten for all of `tables`.
pub open spec fn rewritten(
    text: Seq<char>,
    tokens: Seq<WordView>,
    tables: Seq<WordView>,
    keywords: Seq<Seq<char>>,
) -> Seq<char> {
    rewritten_for_tables(text, tokens, tables, tables.len() as int, keywords)
}

/// The part of `text` before the cursor: its first `cursor` characters, or
/// all of it where it has fewer.
pub open spec fn truncated(text: Seq<char>, cursor: nat) -> Seq<char> {
    if cursor <= text.len() {
        text.take(cursor as int)
    } else {
        text
    }
}

/// The part of `query` before the cursor, with the aliases of `tables`
/// rewritten. The words are those of the whole query.
pub open spec fn qualified(
    query: Seq<char>,
    tables: Seq<Seq<char>>,
    cursor: nat,
    keywords: Seq<Seq<char>>,
) -> Seq<char> {
    rewritten(truncated(query, cursor), folded_words(tokens(query)), folded_words(tables), keywords)
}

/// A word that is a keyword is never taken for an alias: looking at the table
/// name before it leaves the text as it is.
pub proof fn lemma_keyword_is_no_alias(
    text: Seq<char>,
    tokens: Seq<WordView>,
    table: WordView,
    i: int,
    keywords: Seq<Seq<char>>,
)
    requires
        candidate_index(tokens, i) < tokens.len() ==> keywords.contains(
            tokens[candidate_index(tokens, i)].folded,
        ),
    ensures
        rewritten_at(text, tokens, table, i, keywords) == text,
{
}

/// Where every word that follows a table name is a keyword, nothing is
/// rewritten: the result is the text itself.
pub proof fn lemma_only_keywords_follow(
    text: Seq<char>,
    tokens: Seq<WordView>,
    tables: Seq<WordView>,
    keywords: Seq<Seq<char>>,
)
    requires
        forall|t: int, i: int|
            0 <= t < tables.len() && 0 <= i < tokens.len() && (#[trigger] tokens[i]).folded == (
            #[trigger] tables[t]).folded && candidate_index(tokens, i) < tokens.len()
                ==> keywords.contains(tokens[candidate_index(tokens, i)].folded),
    ensures
        rewritten(text, tokens, tables, keywords) == text,
{
    lemma_unchanged_for_tables(text, tokens, tables, tables.len() as int, keywords);
}

proof fn lemma_unchanged_for_table(
    text: Seq<char>,
    tokens: Seq<WordView>,
    table: WordView,
    n: int,
    keywords: Seq<Seq<char>>,
)
    requires
        n <= tokens.len(),
        forall|i: int| 0 <= i < tokens.len() ==> !has_alias(tokens, table, i, keywords),
    ensures
        rewritten_for_table(text, tokens, table, n, keywords) == text,
    decreases n,
{
    if n > 0 {
        lemma_unchanged_for_table(text, tokens, table, n - 1, keywords);
    }
}

proof fn lemma_unchanged_for_tables(
    text: Seq<char>,
    tokens: Seq<WordView>,
    tables: Seq<WordView>,
    m: int,
    keywords: Seq<Seq<char>>,
)
    requires
        m <= tables.len(),
        forall|t: int, i: int|
            0 <= t < tables.len() && 0 <= i < tokens.len() && (#[trigger] tokens[i]).folded == (
            #[trigger] tables[t]).folded && candidate_index(tokens, i) < tokens.len()
                ==> keywords.contains(tokens[candidate_index(tokens, i)].folded),
    ensures
        rewritten_for_tables(text, tokens, tables, m, keywords) == text,
    decreases m,
{
    if m > 0 {
        lemma_unchanged_for_tables(text, tokens, tables, m - 1, keywords);
        let table = tables[m - 1];
        assert forall|i: int| 0 <= i < tokens.len() implies !has_alias(
            tokens,
            table,
            i,
            keywords,
        ) by {
            if tokens[i].folded == tables[m - 1].folded {
            }
        }
        lemma_unchanged_for_table(text, tokens, table, tokens.len() as int, keywords);
    }
}

/// Pairs a text with its lower-case form.
pub fn fold(text: String) -> (word: Word)
    ensures
        word@ == folded_word(text@),
{
    let folded = text.as_str().to_lowercase();
    Word { text, folded }
}

/// Pairs each text with its lower-case form.
pub fn fold_all(items: &Vec<String>) -> (words: Vec<Word>)
    ensures
        word_views(words@) == folded_words(texts(items@)),
{
    let mut words: Vec<Word> = Vec::new();
    let mut i: usize = 0;
    while i < items.len()
        invariant
            i <= items.len(),
            word_views(words@) == folded_words(texts(items@).take(i as int)),
        decreases items.len() - i,
    {
        let word = fold(items[i].clone());
        proof {
            let all = texts(items@);
            assert(word@ == folded_word(all[i as int]));
            assert(word_views(words@.push(word)) =~= word_views(words@).push(word@));
            assert(all.take(i + 1) =~= all.take(i as int).push(all[i as int]));
            assert(folded_words(all.take(i as int).push(all[i as int])) =~= folded_words(
                all.take(i as int),
            ).push(folded_word(all[i as int])));
        }
        words.push(word);
        i += 1;
    }
    proof {
        assert(texts(items@).take(items.len() as int) =~= texts(items@));
    }
    words
}

/// The characters of `name` as a qualifier.
fn qualifier_chars(name: &str) -> (out: Vec<char>)
    ensures
        out@ == qualifier(name@),
{
    let letters = chars_of(name);
    let mut out: Vec<char> = Vec::new();
    out.push(' ');
    let mut k: usize = 0;
    while k < letters.len()
        invariant
            k <= letters.len(),
            out@ == seq![' '] + letters@.take(k as int),
        decreases letters.len() - k,
    {
        out.push(letters[k]);
        assert(letters@.take(k + 1) =~= letters@.take(k as int).push(letters@[k as int]));
        k += 1;
    }
    assert(letters@.take(letters.len() as int) =~= letters@);
    out.push('.');
    out
}

/// The first `cursor` characters of `text`, or all of it where it has fewer.
fn truncate(text: &Vec<char>, cursor: usize) -> (out: Vec<char>)
    ensures
        out@ == truncated(text@, cursor as nat),
{
    let mut out: Vec<char> = Vec::new();
    let mut k: usize = 0;
    while k < text.len() && k < cursor
        invariant
            k <= text.len(),
            k <= cursor,
            out@ == text@.take(k as int),
        decreases text.len() - k,
    {
        out.push(text[k]);
        assert(text@.take(k + 1) =~= text@.take(k as int).push(text@[k as int]));
        k += 1;
    }
    assert(text@.take(text.len() as int) =~= text@);
    out
}

/// Rewrites `prefix` for each of `tables` in turn. For each word among
/// `tokens` whose folded form equals that of the table, the word behind it
/// (behind `as`, where that follows) is taken for an alias, unless its folded
/// form is one of `keywords`.
pub fn rewrite_words(
    prefix: Vec<char>,
    tokens: &Vec<Word>,
    tables: &Vec<Word>,
    keywords: &Vec<String>,
) -> (out: Vec<char>)
    ensures
        out@ == rewritten(prefix@, word_views(tokens@), word_views(tables@), texts(keywords@)),
{
    let ghost start = prefix@;
    let ghost words = word_views(tokens@);
    let ghost names = word_views(tables@);
    let mut result = prefix;
    let mut t: usize = 0;
    while t < tables.len()
        invariant
            t <= tables.len(),
            words == word_views(tokens@),
            names == word_views(tables@),
            result@ == rewritten_for_tables(start, words, names, t as int, texts(keywords@)),
        decreases tables.len() - t,
    {
        let table = &tables[t];
        let ghost before = result@;
        assert(names[t as int] == table@);
        let mut i: usize = 0;
        while i < tokens.len()
            invariant
                i <= tokens.len(),
                words == word_views(tokens@),
                result@ == rewritten_for_table(before, words, table@, i as int, texts(keywords@)),
            decreases tokens.len() - i,
        {
            assert(words[i as int] == tokens@[i as int]@);
            if *tokens[i].folded.as_str() == *table.folded.as_str() {
                let mut candidate: usize = i + 1;
                if candidate < tokens.len() {
                    assert(words[i + 1] == tokens@[i + 1]@);
                    if *tokens[candidate].text.as_str() == *"as" {
                        candidate = candidate + 1;
                    }
                }
                assert(candidate == candidate_index(words, i as int));
                if candidate < tokens.len() {
                    assert(words[candidate as int] == tokens@[candidate as int]@);
                    let alias = &tokens[candidate].folded;
                    if !contains_text(keywords, alias.as_str()) {
                        let pattern = qualifier_chars(alias.as_str());
                        let replacement = qualifier_chars(table.text.as_str());
                        result = replace_chars(&result, &pattern, &replacement);
                    }
                }
            }
            i += 1;
        }
        t += 1;
    }
    result
}

/// Qualifies the identifiers of `query` before `cursor`: wherever one of
/// `tables` is followed by an alias that is none of `keywords`, the alias is
/// replaced by the table's name in each place where it qualifies a column.
pub fn qualify_identifiers(
    query: &str,
    tables: &Vec<String>,
    cursor: usize,
    keywords: &Vec<String>,
) -> (out: String)
    ensures
        out@ == qualified(query@, texts(tables@), cursor as nat, texts(keywords@)),
{
    let chars = chars_of(query);
    let tokens = fold_all(&split_words(&chars));
    let names = fold_all(tables);
    let prefix = truncate(&chars, cursor);
    string_of(&rewrite_words(prefix, &tokens, &names, keywords))
}

/// Qualifies the identifiers of `query` before `cursor_loc`, with the
/// reserved words of the SQL dialect as keywords.
pub fn sql_parser_autocomplete(query: String, tables: Vec<String>, cursor_loc: usize) -> (out:
    String)
    ensures
        out@ == qualified(query@, texts(tables@), cursor_loc as nat, reserved_keyword_texts()),
{
    let keywords = reserved_keywords();
    qualify_identifiers(query.as_str(), &tables, cursor_loc, &keywords)
}

} // verus!
