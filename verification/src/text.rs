//! Text helpers shared by the renderers: membership, joining and
//! first-occurrence deduplication, each stated over sequences of characters.

use vstd::prelude::*;
use vstd::string::StringExecFns;

verus! {

/// `str::eq` of the standard library: two string slices are equal exactly
/// when they hold the same characters. Believed, not proved.
pub assume_specification[ <str as PartialEq>::eq ](a: &str, b: &str) -> (r: bool)
    ensures
        r == (a@ == b@),
;

/// `String::push` of the standard library: appends the one character to the
/// end of the string. Believed, not proved.
pub assume_specification[ String::push ](s: &mut String, c: char)
    ensures
        final(s)@ == old(s)@.push(c),
;

/// The character sequences of a list of strings, in order.
pub open spec fn texts(v: Seq<String>) -> Seq<Seq<char>> {
    v.map_values(|s: String| s@)
}

/// `parts` written one after another with `sep` between neighbours.
pub open spec fn join_texts(parts: Seq<Seq<char>>, sep: Seq<char>) -> Seq<char>
    decreases parts.len(),
{
    if parts.len() == 0 {
        Seq::empty()
    } else if parts.len() == 1 {
        parts[0]
    } else {
        join_texts(parts.drop_last(), sep) + sep + parts.last()
    }
}

/// `items` with every repetition of an earlier element removed: each distinct
/// element stays once, at the place of its first occurrence.
pub open spec fn first_occurrences<A>(items: Seq<A>) -> Seq<A>
    decreases items.len(),
{
    if items.len() == 0 {
        Seq::empty()
    } else {
        let kept = first_occurrences(items.drop_last());
        if kept.contains(items.last()) {
            kept
        } else {
            kept.push(items.last())
        }
    }
}

/// Taking one more element keeps the first occurrences found so far, and adds
/// the new element exactly when it is not among them.
pub proof fn lemma_first_occurrences_step<A>(items: Seq<A>, i: int)
    requires
        0 <= i < items.len(),
    ensures
        first_occurrences(items.take(i + 1)) == {
            let kept = first_occurrences(items.take(i));
            if kept.contains(items[i]) {
                kept
            } else {
                kept.push(items[i])
            }
        },
{
    assert(items.take(i + 1).drop_last() =~= items.take(i));
}

/// An element occurs among the first occurrences exactly when it occurs in
/// the sequence itself.
pub proof fn lemma_first_occurrences_members<A>(items: Seq<A>, x: A)
    ensures
        first_occurrences(items).contains(x) <==> items.contains(x),
    decreases items.len(),
{
    if items.len() > 0 {
        let front = items.drop_last();
        let kept = first_occurrences(front);
        lemma_first_occurrences_members(front, x);
        lemma_first_occurrences_members(front, items.last());
        if items.contains(x) {
            let i = choose|i: int| 0 <= i < items.len() && items[i] == x;
            if i < front.len() {
                assert(front[i] == x);
            }
        }
        if front.contains(x) {
            let i = choose|i: int| 0 <= i < front.len() && front[i] == x;
            assert(items[i] == x);
        }
        if kept.contains(items.last()) {
        } else {
            let all = kept.push(items.last());
            if kept.contains(x) {
                let i = choose|i: int| 0 <= i < kept.len() && kept[i] == x;
                assert(all[i] == x);
            }
            if x == items.last() {
                assert(all[kept.len() as int] == x);
                assert(items[items.len() - 1] == x);
            }
        }
    }
}

/// No element occurs twice among the first occurrences.
pub proof fn lemma_first_occurrences_distinct<A>(items: Seq<A>)
    ensures
        first_occurrences(items).no_duplicates(),
    decreases items.len(),
{
    if items.len() > 0 {
        lemma_first_occurrences_distinct(items.drop_last());
    }
}

/// The characters of `s`, in order.
pub fn chars_of(s: &str) -> (out: Vec<char>)
    ensures
        out@ == s@,
{
    let mut out: Vec<char> = Vec::new();
    for c in it: s.chars()
        invariant
            out@ == it.seq().take(it.index() as int),
            it.seq() == s@,
    {
        out.push(c);
    }
    out
}

/// The string made of `chars`, in order.
pub fn string_of(chars: &Vec<char>) -> (out: String)
    ensures
        out@ == chars@,
{
    let mut out = String::new();
    let mut i: usize = 0;
    while i < chars.len()
        invariant
            i <= chars.len(),
            out@ == chars@.take(i as int),
        decreases chars.len() - i,
    {
        out.push(chars[i]);
        assert(chars@.take(i + 1) =~= chars@.take(i as int).push(chars@[i as int]));
        i += 1;
    }
    assert(chars@.take(chars.len() as int) =~= chars@);
    out
}

/// Whether `needle` occurs in `items`, compared by content.
pub fn contains_text(items: &Vec<String>, needle: &str) -> (found: bool)
    ensures
        found == texts(items@).contains(needle@),
{
    let mut i: usize = 0;
    while i < items.len()
        invariant
            i <= items.len(),
            forall|k: int| 0 <= k < i ==> texts(items@)[k] != needle@,
        decreases items.len() - i,
    {
        if *items[i].as_str() == *needle {
            assert(texts(items@)[i as int] == needle@);
            return true;
        }
        i += 1;
    }
    false
}

/// Appends `item` unless an element with the same content is already there.
pub fn push_unique(list: &mut Vec<String>, item: String)
    ensures
        texts(final(list)@) == if texts(old(list)@).contains(item@) {
            texts(old(list)@)
        } else {
            texts(old(list)@).push(item@)
        },
{
    if !contains_text(list, item.as_str()) {
        proof {
            assert(texts(list@.push(item)) =~= texts(list@).push(item@));
        }
        list.push(item);
    }
}

/// Appends a copy of each element of `more`, in order.
pub fn append_all(list: &mut Vec<String>, more: &Vec<String>)
    ensures
        texts(final(list)@) == texts(old(list)@) + texts(more@),
{
    let mut k: usize = 0;
    while k < more.len()
        invariant
            k <= more.len(),
            texts(list@) == texts(old(list)@) + texts(more@).take(k as int),
        decreases more.len() - k,
    {
        let item = more[k].clone();
        proof {
            let all = texts(more@);
            assert(item@ == all[k as int]);
            assert(texts(list@.push(item)) =~= texts(list@).push(item@));
            assert(all.take(k + 1) =~= all.take(k as int).push(item@));
            assert(texts(list@).push(item@) =~= texts(old(list)@) + all.take(k + 1));
        }
        list.push(item);
        k += 1;
    }
    proof {
        assert(texts(more@).take(more.len() as int) =~= texts(more@));
    }
}

/// Joins `parts` with `sep` between neighbours.
pub fn join(parts: &Vec<String>, sep: &str) -> (out: String)
    ensures
        out@ == join_texts(texts(parts@), sep@),
{
    let mut out = String::new();
    let mut i: usize = 0;
    while i < parts.len()
        invariant
            i <= parts.len(),
            out@ == join_texts(texts(parts@).take(i as int), sep@),
        decreases parts.len() - i,
    {
        if i > 0 {
            out.append(sep);
        }
        out.append(parts[i].as_str());
        proof {
            let t = texts(parts@);
            assert(t.take(i + 1).drop_last() =~= t.take(i as int));
            assert(t.take(i + 1).last() == parts@[i as int]@);
            assert(Seq::<char>::empty() + parts@[i as int]@ =~= parts@[i as int]@);
        }
        i += 1;
    }
    proof {
        assert(texts(parts@).take(parts.len() as int) =~= texts(parts@));
    }
    out
}

} // verus!
