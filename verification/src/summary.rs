//! The short label of a statement: its first words.

use crate::chars::{
    from_chars, is_whitespace, join, join_chars, lemma_run_len_bounds, lemma_run_len_is, run_len,
    slice_chars, to_chars, views, whitespace,
};
use vstd::prelude::*;

verus! {

/// How many words a summary holds at most.
pub const SUMMARY_WORDS: usize = 4;

/// Whether `c` belongs to a word: it is no whitespace.
pub open spec fn word_char(c: char) -> bool {
    !whitespace(c)
}

/// The words of `s` in order: the longest stretches of it that hold no
/// whitespace.
pub open spec fn words(s: Seq<char>) -> Seq<Seq<char>>
    decreases s.len(),
    via words_decreases
{
    if s.len() == 0 {
        Seq::empty()
    } else if whitespace(s.first()) {
        words(s.drop_first())
    } else {
        let k = run_len(s, |c: char| word_char(c));
        seq![s.take(k as int)] + words(s.skip(k as int))
    }
}

#[via_fn]
proof fn words_decreases(s: Seq<char>) {
    if s.len() > 0 && !whitespace(s.first()) {
        lemma_run_len_bounds(s, |c: char| word_char(c));
    }
}

/// The first words of `s`, at most `SUMMARY_WORDS` of them, with one space
/// between each two.
pub open spec fn summary(s: Seq<char>) -> Seq<char> {
    join(first_words(s), ' ')
}

/// The first words of a text, at most four, joined by single spaces.
pub fn summary_chars(v: &Vec<char>) -> (r: Vec<char>)
    ensures
        r@ == summary(v@),
{
    let mut found: Vec<Vec<char>> = Vec::new();
    let mut i: usize = 0;
    proof {
        assert(v@.skip(0) =~= v@);
        assert(views(found@) + words(v@) =~= words(v@));
    }
    while i < v.len() && found.len() < SUMMARY_WORDS
        invariant
            i <= v.len(),
            found.len() <= SUMMARY_WORDS,
            words(v@) == views(found@) + words(v@.skip(i as int)),
        decreases v.len() - i,
    {
        let ghost rest = v@.skip(i as int);
        if is_whitespace(v[i]) {
            proof {
                assert(rest.drop_first() =~= v@.skip(i + 1));
            }
            i += 1;
        } else {
            let mut j: usize = i + 1;
            while j < v.len() && !is_whitespace(v[j])
                invariant
                    i < j <= v.len(),
                    forall|k: int| i <= k < j ==> word_char(#[trigger] v@[k]),
                decreases v.len() - j,
            {
                j += 1;
            }
            let word = slice_chars(v, i, j);
            proof {
                assert forall|k: int| 0 <= k < j - i implies word_char(#[trigger] rest[k]) by {
                    assert(rest[k] == v@[k + i]);
                }
                lemma_run_len_is(rest, |c: char| word_char(c), j - i);
                assert(rest.take(j - i) =~= word@);
                assert(rest.skip(j - i) =~= v@.skip(j as int));
                assert(views(found@.push(word)) =~= views(found@) + seq![word@]);
                assert((views(found@) + seq![word@]) + words(v@.skip(j as int)) =~= views(found@)
                    + (seq![word@] + words(v@.skip(j as int))));
            }
            found.push(word);
            i = j;
        }
    }
    proof {
        let all = words(v@);
        if found.len() < SUMMARY_WORDS {
            assert(v@.skip(v.len() as int) =~= Seq::<char>::empty());
            assert(all =~= views(found@));
        } else {
            assert(all.take(SUMMARY_WORDS as int) =~= views(found@));
        }
    }
    join_chars(&found, ' ')
}

/// The first words of the statement, at most four, joined by single spaces.
///
/// Whitespace of any kind and length parts the words; none of it is kept.
pub fn parse_query_summary(sql: &str) -> (r: String)
    ensures
        r@ == summary(sql@),
{
    from_chars(&summary_chars(&to_chars(sql)))
}

/// Whether `word` has a character and holds no whitespace.
pub open spec fn is_word(word: Seq<char>) -> bool {
    word.len() > 0 && forall|j: int| 0 <= j < word.len() ==> word_char(#[trigger] word[j])
}

/// The first words of `s`: all of them where there are no more than
/// `SUMMARY_WORDS`.
pub open spec fn first_words(s: Seq<char>) -> Seq<Seq<char>> {
    let all = words(s);
    if all.len() <= SUMMARY_WORDS {
        all
    } else {
        all.take(SUMMARY_WORDS as int)
    }
}

/// Every word of a text has a character and holds no whitespace.
pub proof fn lemma_words_are_words(s: Seq<char>)
    ensures
        forall|i: int| 0 <= i < words(s).len() ==> is_word(#[trigger] words(s)[i]),
    decreases s.len(),
{
    if s.len() > 0 {
        if whitespace(s.first()) {
            lemma_words_are_words(s.drop_first());
            assert(words(s) == words(s.drop_first()));
        } else {
            let k = run_len(s, |c: char| word_char(c));
            lemma_run_len_bounds(s, |c: char| word_char(c));
            let rest = s.skip(k as int);
            lemma_words_are_words(rest);
            let word = s.take(k as int);
            assert(is_word(word)) by {
                assert forall|j: int| 0 <= j < word.len() implies word_char(#[trigger] word[j]) by {
                    assert(word[j] == s[j]);
                }
            }
            assert forall|i: int| 0 <= i < words(s).len() implies is_word(#[trigger] words(s)[i]) by {
                if i > 0 {
                    assert(words(s)[i] == words(rest)[i - 1]);
                } else {
                    assert(words(s)[0] == word);
                }
            }
        }
    }
}

/// A word alone is its only word.
proof fn lemma_words_of_word(word: Seq<char>)
    requires
        is_word(word),
    ensures
        words(word) == seq![word],
{
    assert(word_char(word[0]));
    lemma_run_len_is(word, |c: char| word_char(c), word.len() as int);
    assert(word.take(word.len() as int) =~= word);
    assert(word.skip(word.len() as int) =~= Seq::<char>::empty());
    assert(words(Seq::<char>::empty()) =~= Seq::<Seq<char>>::empty());
    assert(seq![word] + Seq::<Seq<char>>::empty() =~= seq![word]);
}

/// A word put behind a text and a space is one more word.
proof fn lemma_words_push(a: Seq<char>, word: Seq<char>)
    requires
        is_word(word),
    ensures
        words(a.push(' ') + word) == words(a).push(word),
    decreases a.len(),
{
    let t = a.push(' ') + word;
    if a.len() == 0 {
        assert(t.drop_first() =~= word);
        lemma_words_of_word(word);
        assert(Seq::<Seq<char>>::empty().push(word) =~= seq![word]);
    } else if whitespace(a.first()) {
        lemma_words_push(a.drop_first(), word);
        assert(t.drop_first() =~= a.drop_first().push(' ') + word);
    } else {
        let k = run_len(a, |c: char| word_char(c));
        lemma_run_len_bounds(a, |c: char| word_char(c));
        assert forall|j: int| 0 <= j < k implies word_char(#[trigger] t[j]) by {
            assert(t[j] == a[j]);
        }
        assert(t[k as int] == if k < a.len() { a[k as int] } else { ' ' });
        lemma_run_len_is(t, |c: char| word_char(c), k as int);
        assert(t.take(k as int) =~= a.take(k as int));
        let rest = a.skip(k as int);
        lemma_words_push(rest, word);
        assert(t.skip(k as int) =~= rest.push(' ') + word);
        assert(seq![a.take(k as int)] + words(rest).push(word) =~= (seq![a.take(k as int)] + words(
            rest,
        )).push(word));
    }
}

/// Words with one space between each two are a text of just those words.
pub proof fn lemma_words_join(ws: Seq<Seq<char>>)
    requires
        forall|i: int| 0 <= i < ws.len() ==> is_word(#[trigger] ws[i]),
    ensures
        words(join(ws, ' ')) == ws,
    decreases ws.len(),
{
    if ws.len() == 0 {
        assert(ws =~= Seq::<Seq<char>>::empty());
    } else if ws.len() == 1 {
        lemma_words_of_word(ws[0]);
        assert(seq![ws[0]] =~= ws);
    } else {
        lemma_words_join(ws.drop_last());
        lemma_words_push(join(ws.drop_last(), ' '), ws.last());
        assert(ws.drop_last().push(ws.last()) =~= ws);
    }
}

/// The words of a summary are the first words of the text, as they stand
/// there, and no more than `SUMMARY_WORDS`; so a summary is its own summary.
pub proof fn lemma_summary_words(s: Seq<char>)
    ensures
        words(summary(s)) == first_words(s),
        words(summary(s)).len() <= SUMMARY_WORDS,
        summary(summary(s)) == summary(s),
{
    lemma_words_are_words(s);
    lemma_words_join(first_words(s));
}

} // verus!
