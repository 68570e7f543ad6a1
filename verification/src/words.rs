//! Splitting a text into words at whitespace, and replacing every occurrence
//! of one run of characters by another.

use vstd::prelude::*;
use crate::text::texts;

verus! {

/// Whether `c` is a whitespace character: one of the code points that
/// Unicode gives the property `White_Space`.
pub open spec fn is_whitespace(c: char) -> bool {
    ||| ('\u{9}' <= c && c <= '\u{D}')
    ||| c == ' '
    ||| c == '\u{85}'
    ||| c == '\u{A0}'
    ||| c == '\u{1680}'
    ||| ('\u{2000}' <= c && c <= '\u{200A}')
    ||| c == '\u{2028}'
    ||| c == '\u{2029}'
    ||| c == '\u{202F}'
    ||| c == '\u{205F}'
    ||| c == '\u{3000}'
}

/// The words of `text`: its maximal runs of characters that are not
/// whitespace, in order. Read from the left, a whitespace character adds
/// nothing; any other character lengthens the last word where the character
/// before it belongs to a word too, and starts a new word where not.
pub open spec fn tokens(text: Seq<char>) -> Seq<Seq<char>>
    decreases text.len(),
{
    if text.len() == 0 {
        Seq::empty()
    } else {
        let before = tokens(text.drop_last());
        let c = text.last();
        if is_whitespace(c) {
            before
        } else if text.len() >= 2 && !is_whitespace(text[text.len() - 2]) {
            before.drop_last().push(before.last().push(c))
        } else {
            before.push(seq![c])
        }
    }
}

/// `text` with every occurrence of `pattern` replaced by `replacement`.
/// Occurrences are found from the left and do not overlap. An empty pattern
/// occurs nowhere.
pub open spec fn replace_all(text: Seq<char>, pattern: Seq<char>, replacement: Seq<char>) -> Seq<
    char,
>
    decreases text.len(),
{
    if pattern.len() == 0 || text.len() < pattern.len() {
        text
    } else if text.take(pattern.len() as int) == pattern {
        replacement + replace_all(text.skip(pattern.len() as int), pattern, replacement)
    } else {
        seq![text[0]] + replace_all(text.skip(1), pattern, replacement)
    }
}

/// Whether `pattern` stands in `text` at place `at`.
pub open spec fn occurs_at(text: Seq<char>, pattern: Seq<char>, at: int) -> bool {
    0 <= at && at + pattern.len() <= text.len() && text.subrange(at, at + pattern.len())
        == pattern
}

/// Whether `word` holds at least one character and no whitespace.
pub open spec fn is_word(word: Seq<char>) -> bool {
    word.len() > 0 && forall|k: int| 0 <= k < word.len() ==> !is_whitespace(#[trigger] word[k])
}

/// Every token is a word, and a text that ends in a word has a token.
pub proof fn lemma_tokens_are_words(text: Seq<char>)
    ensures
        forall|i: int| 0 <= i < tokens(text).len() ==> is_word(#[trigger] tokens(text)[i]),
        text.len() > 0 && !is_whitespace(text.last()) ==> tokens(text).len() > 0,
    decreases text.len(),
{
    if text.len() > 0 {
        let front = text.drop_last();
        let before = tokens(front);
        let c = text.last();
        lemma_tokens_are_words(front);
        if is_whitespace(c) {
        } else if text.len() >= 2 && !is_whitespace(text[text.len() - 2]) {
            assert(front.last() == text[text.len() - 2]);
            let longer = before.last().push(c);
            assert(is_word(before.last()));
            assert(is_word(longer)) by {
                assert forall|k: int| 0 <= k < longer.len() implies !is_whitespace(
                    #[trigger] longer[k],
                ) by {
                    if k < before.last().len() {
                        assert(longer[k] == before.last()[k]);
                    }
                }
            }
            assert forall|i: int| 0 <= i < tokens(text).len() implies is_word(
                #[trigger] tokens(text)[i],
            ) by {
                if i < before.len() - 1 {
                    assert(tokens(text)[i] == before[i]);
                }
            }
        } else {
            assert(is_word(seq![c]));
            assert forall|i: int| 0 <= i < tokens(text).len() implies is_word(
                #[trigger] tokens(text)[i],
            ) by {
                if i < before.len() {
                    assert(tokens(text)[i] == before[i]);
                }
            }
        }
    }
}

/// Whether `c` is a whitespace character.
pub fn is_whitespace_char(c: char) -> (space: bool)
    ensures
        space == is_whitespace(c),
{
    ('\u{9}' <= c && c <= '\u{D}') || c == ' ' || c == '\u{85}' || c == '\u{A0}' || c
        == '\u{1680}' || ('\u{2000}' <= c && c <= '\u{200A}') || c == '\u{2028}' || c
        == '\u{2029}' || c == '\u{202F}' || c == '\u{205F}' || c == '\u{3000}'
}

/// Splits `text` into its words.
pub fn split_words(text: &Vec<char>) -> (words: Vec<String>)
    ensures
        texts(words@) == tokens(text@),
{
    let mut words: Vec<String> = Vec::new();
    let mut word = String::new();
    let mut in_word = false;
    let mut i: usize = 0;
    while i < text.len()
        invariant
            i <= text.len(),
            in_word <==> i > 0 && !is_whitespace(text@[i - 1]),
            in_word ==> tokens(text@.take(i as int)) == texts(words@).push(word@),
            !in_word ==> tokens(text@.take(i as int)) == texts(words@) && word@.len() == 0,
        decreases text.len() - i,
    {
        let c = text[i];
        proof {
            assert(text@.take(i + 1).drop_last() =~= text@.take(i as int));
            assert(texts(words@).push(word@).drop_last() =~= texts(words@));
        }
        if is_whitespace_char(c) {
            if in_word {
                proof {
                    assert(texts(words@.push(word)) =~= texts(words@).push(word@));
                }
                words.push(word);
                word = String::new();
                in_word = false;
            }
        } else {
            word.push(c);
            proof {
                if !in_word {
                    assert(word@ =~= seq![c]);
                }
            }
            in_word = true;
        }
        i += 1;
    }
    proof {
        assert(text@.take(text.len() as int) =~= text@);
    }
    if in_word {
        proof {
            assert(texts(words@.push(word)) =~= texts(words@).push(word@));
        }
        words.push(word);
    }
    words
}

/// Whether `pattern` stands in `text` at place `at`.
pub fn matches_at(text: &Vec<char>, pattern: &Vec<char>, at: usize) -> (found: bool)
    requires
        at <= text.len(),
    ensures
        found == occurs_at(text@, pattern@, at as int),
{
    if pattern.len() > text.len() - at {
        return false;
    }
    let mut k: usize = 0;
    while k < pattern.len()
        invariant
            k <= pattern.len(),
            at + pattern.len() <= text.len(),
            text@.subrange(at as int, at + k) == pattern@.take(k as int),
        decreases pattern.len() - k,
    {
        if text[at + k] != pattern[k] {
            proof {
                assert(text@.subrange(at as int, at + pattern.len())[k as int] != pattern@[k as int]);
            }
            return false;
        }
        proof {
            assert(text@.subrange(at as int, at + k + 1) =~= text@.subrange(
                at as int,
                at + k,
            ).push(text@[at + k]));
            assert(pattern@.take(k + 1) =~= pattern@.take(k as int).push(pattern@[k as int]));
        }
        k += 1;
    }
    proof {
        assert(pattern@.take(pattern.len() as int) =~= pattern@);
    }
    true
}

/// Replaces every occurrence of `pattern` in `text` by `replacement`.
pub fn replace_chars(text: &Vec<char>, pattern: &Vec<char>, replacement: &Vec<char>) -> (out: Vec<
    char,
>)
    ensures
        out@ == replace_all(text@, pattern@, replacement@),
{
    let mut out: Vec<char> = Vec::new();
    let mut i: usize = 0;
    proof {
        assert(text@.skip(0) =~= text@);
        assert(out@ + replace_all(text@, pattern@, replacement@) =~= replace_all(
            text@,
            pattern@,
            replacement@,
        ));
    }
    while i < text.len()
        invariant
            i <= text.len(),
            out@ + replace_all(text@.skip(i as int), pattern@, replacement@) == replace_all(
                text@,
                pattern@,
                replacement@,
            ),
        decreases text.len() - i,
    {
        let ghost rest = text@.skip(i as int);
        let ghost before = out@;
        if pattern.len() > 0 && matches_at(text, pattern, i) {
            proof {
                assert(rest.take(pattern.len() as int) =~= text@.subrange(
                    i as int,
                    i + pattern.len(),
                ));
                assert(rest.skip(pattern.len() as int) =~= text@.skip(i + pattern.len()));
            }
            let mut k: usize = 0;
            while k < replacement.len()
                invariant
                    k <= replacement.len(),
                    out@ == before + replacement@.take(k as int),
                decreases replacement.len() - k,
            {
                out.push(replacement[k]);
                assert(replacement@.take(k + 1) =~= replacement@.take(k as int).push(
                    replacement@[k as int],
                ));
                k += 1;
            }
            proof {
                assert(replacement@.take(replacement.len() as int) =~= replacement@);
                assert(out@ + replace_all(text@.skip(i + pattern.len()), pattern@, replacement@)
                    =~= before + replace_all(rest, pattern@, replacement@));
            }
            i += pattern.len();
        } else {
            proof {
                assert(rest.skip(1) =~= text@.skip(i + 1));
                if pattern.len() > 0 && rest.len() >= pattern.len() {
                    assert(rest.take(pattern.len() as int) =~= text@.subrange(
                        i as int,
                        i + pattern.len(),
                    ));
                }
                lemma_replace_step(rest, pattern@, replacement@);
                assert(before.push(text@[i as int]) + replace_all(
                    text@.skip(i + 1),
                    pattern@,
                    replacement@,
                ) =~= before + replace_all(rest, pattern@, replacement@));
            }
            out.push(text[i]);
            i += 1;
        }
    }
    proof {
        assert(out@ + Seq::<char>::empty() =~= out@);
    }
    out
}

/// Where the pattern does not stand at the start of a text, the text's first
/// character stays and the replacement goes on behind it.
pub proof fn lemma_replace_step(text: Seq<char>, pattern: Seq<char>, replacement: Seq<char>)
    requires
        text.len() > 0,
        !(pattern.len() > 0 && text.len() >= pattern.len() && text.take(pattern.len() as int)
            == pattern),
    ensures
        replace_all(text, pattern, replacement) == seq![text[0]] + replace_all(
            text.skip(1),
            pattern,
            replacement,
        ),
{
    if pattern.len() == 0 || text.len() < pattern.len() {
        assert(replace_all(text.skip(1), pattern, replacement) == text.skip(1));
        assert(seq![text[0]] + text.skip(1) =~= text);
    }
}

} // verus!
