//! Splitting a raw line into whitespace-delimited tokens.

use vstd::prelude::*;
use crate::text::{chars_of, is_whitespace, whitespace};

verus! {

/// Length of the longest prefix of `s` that holds no whitespace.
pub open spec fn word_len(s: Seq<char>) -> nat
    decreases s.len(),
{
    if s.len() == 0 || is_whitespace(s[0]) {
        0
    } else {
        1 + word_len(s.drop_first())
    }
}

/// The tokens of a line: its maximal runs of non-whitespace characters, from
/// left to right.
pub open spec fn tokens_of(s: Seq<char>) -> Seq<Seq<char>>
    decreases s.len(),
    via tokens_of_decreases
{
    if s.len() == 0 {
        Seq::empty()
    } else if is_whitespace(s[0]) {
        tokens_of(s.drop_first())
    } else {
        let n = word_len(s) as int;
        seq![s.take(n)] + tokens_of(s.skip(n))
    }
}

#[via_fn]
proof fn tokens_of_decreases(s: Seq<char>) {
    lemma_word_len_bound(s);
}

/// The text of each token in a token vector.
pub open spec fn token_views(tokens: Seq<Vec<char>>) -> Seq<Seq<char>> {
    Seq::new(tokens.len(), |i: int| tokens[i]@)
}

/// A word is no longer than the text it starts.
pub proof fn lemma_word_len_bound(s: Seq<char>)
    ensures
        word_len(s) <= s.len(),
        s.len() > 0 && !is_whitespace(s[0]) ==> word_len(s) >= 1,
    decreases s.len(),
{
    if s.len() > 0 && !is_whitespace(s[0]) {
        lemma_word_len_bound(s.drop_first());
    }
}

/// A run of `n` non-whitespace characters that ends at the end of the text or
/// before a whitespace character is the word the text starts with.
pub proof fn lemma_word_len_is(s: Seq<char>, n: int)
    requires
        0 <= n <= s.len(),
        forall|k: int| 0 <= k < n ==> !is_whitespace(#[trigger] s[k]),
        n == s.len() || is_whitespace(s[n]),
    ensures
        word_len(s) == n,
    decreases n,
{
    if n > 0 {
        let rest = s.drop_first();
        assert forall|k: int| 0 <= k < n - 1 implies !is_whitespace(#[trigger] rest[k]) by {
            assert(rest[k] == s[k + 1]);
        }
        lemma_word_len_is(rest, n - 1);
    }
}

/// The first word of a text holds no whitespace and ends at the end of the
/// text or before a whitespace character.
pub proof fn lemma_word_len_ends_the_word(s: Seq<char>)
    ensures
        word_len(s) <= s.len(),
        forall|k: int| 0 <= k < word_len(s) ==> !is_whitespace(#[trigger] s[k]),
        word_len(s) < s.len() ==> is_whitespace(s[word_len(s) as int]),
    decreases s.len(),
{
    if s.len() > 0 && !is_whitespace(s[0]) {
        let rest = s.drop_first();
        lemma_word_len_ends_the_word(rest);
        assert forall|k: int| 0 <= k < word_len(s) implies !is_whitespace(#[trigger] s[k]) by {
            if k > 0 {
                assert(s[k] == rest[k - 1]);
            }
        }
        if word_len(s) < s.len() {
            assert(s[word_len(s) as int] == rest[word_len(rest) as int]);
        }
    }
}

/// A word: text that is not empty and holds no whitespace.
pub open spec fn is_word(s: Seq<char>) -> bool {
    s.len() > 0 && forall|k: int| 0 <= k < s.len() ==> !is_whitespace(#[trigger] s[k])
}

/// Every token is a word.
pub proof fn lemma_tokens_are_words(s: Seq<char>)
    ensures
        forall|i: int| 0 <= i < tokens_of(s).len() ==> is_word(#[trigger] tokens_of(s)[i]),
    decreases s.len(),
{
    if s.len() == 0 {
        assert(tokens_of(s).len() == 0);
    } else if is_whitespace(s[0]) {
        lemma_tokens_are_words(s.drop_first());
        assert(tokens_of(s) == tokens_of(s.drop_first()));
    } else {
        let n = word_len(s) as int;
        lemma_word_len_bound(s);
        lemma_word_len_ends_the_word(s);
        lemma_tokens_are_words(s.skip(n));
        let word = s.take(n);
        let rest = tokens_of(s.skip(n));
        assert(tokens_of(s) == seq![word] + rest);
        assert forall|k: int| 0 <= k < word.len() implies !is_whitespace(#[trigger] word[k]) by {
            assert(word[k] == s[k]);
        }
        assert forall|i: int| 0 <= i < tokens_of(s).len() implies is_word(#[trigger] tokens_of(s)[i]) by {
            if i == 0 {
                assert(tokens_of(s)[0] == word);
            } else {
                assert(tokens_of(s)[i] == rest[i - 1]);
            }
        }
    }
}

/// A word is its own single token.
pub proof fn lemma_word_is_one_token(s: Seq<char>)
    requires
        is_word(s),
    ensures
        tokens_of(s) == seq![s],
{
    lemma_word_len_is(s, s.len() as int);
    assert(!is_whitespace(s[0]));
    assert(s.take(s.len() as int) == s);
    assert(s.skip(s.len() as int).len() == 0);
    assert(tokens_of(s.skip(s.len() as int)) == Seq::<Seq<char>>::empty());
    assert(tokens_of(s) == seq![s] + Seq::<Seq<char>>::empty());
}

/// Whitespace between two texts keeps their tokens apart: the tokens of the
/// whole are those of the left part followed by those of the right part.
pub proof fn lemma_whitespace_separates(a: Seq<char>, w: char, b: Seq<char>)
    requires
        is_whitespace(w),
    ensures
        tokens_of(a.push(w) + b) == tokens_of(a) + tokens_of(b),
    decreases a.len(),
{
    let whole = a.push(w) + b;
    if a.len() == 0 {
        assert(whole.drop_first() == b);
        assert(tokens_of(a) + tokens_of(b) == tokens_of(b));
    } else if is_whitespace(a[0]) {
        assert(whole.drop_first() == a.drop_first().push(w) + b);
        lemma_whitespace_separates(a.drop_first(), w, b);
    } else {
        let n = word_len(a) as int;
        lemma_word_len_bound(a);
        lemma_word_len_ends_the_word(a);
        assert forall|k: int| 0 <= k < n implies !is_whitespace(#[trigger] whole[k]) by {
            assert(whole[k] == a[k]);
        }
        if n < a.len() {
            assert(whole[n] == a[n]);
        } else {
            assert(whole[n] == w);
        }
        lemma_word_len_is(whole, n);
        assert(whole.take(n) == a.take(n));
        assert(whole.skip(n) == a.skip(n).push(w) + b);
        lemma_whitespace_separates(a.skip(n), w, b);
        assert(tokens_of(whole) == seq![a.take(n)] + (tokens_of(a.skip(n)) + tokens_of(b)));
        assert(tokens_of(a) == seq![a.take(n)] + tokens_of(a.skip(n)));
    }
}

/// Splits `line` at whitespace. No token is empty; leading, trailing and
/// repeated whitespace produce no token.
pub fn tokenize(line: &str) -> (tokens: Vec<Vec<char>>)
    ensures
        token_views(tokens@) == tokens_of(line@),
{
    let chars = chars_of(line);
    let mut tokens: Vec<Vec<char>> = Vec::new();
    let mut i: usize = 0;
    assert(chars@.skip(0) == chars@);
    while i < chars.len()
        invariant
            i <= chars.len(),
            chars@ == line@,
            token_views(tokens@) + tokens_of(chars@.skip(i as int)) == tokens_of(chars@),
        decreases chars.len() - i,
    {
        let ghost rest = chars@.skip(i as int);
        if whitespace(chars[i]) {
            assert(rest.drop_first() == chars@.skip(i + 1));
            i += 1;
        } else {
            let start = i;
            let mut word: Vec<char> = Vec::new();
            while i < chars.len() && !whitespace(chars[i])
                invariant
                    start <= i <= chars.len(),
                    word@ == chars@.subrange(start as int, i as int),
                    forall|k: int| start <= k < i ==> !is_whitespace(#[trigger] chars@[k]),
                decreases chars.len() - i,
            {
                word.push(chars[i]);
                i += 1;
            }
            proof {
                let n = i - start;
                lemma_word_len_is(rest, n);
                assert(rest.take(n) == word@);
                assert(rest.skip(n) == chars@.skip(i as int));
                assert(token_views(tokens@.push(word)) == token_views(tokens@) + seq![word@]);
            }
            tokens.push(word);
        }
    }
    assert(tokens_of(chars@.skip(i as int)) == Seq::<Seq<char>>::empty());
    tokens
}

} // verus!
