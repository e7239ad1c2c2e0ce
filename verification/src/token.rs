//! The tokenizer: one pipeline stage, as text, becomes its words.
//!
//! White space outside quotes parts the words. A double quote switches
//! quoting on or off and is left out of the word it stands in; it still counts
//! as part of that word, so that `""` is a word, the empty one.
use crate::text::{is_whitespace, push_char, to_chars, whitespace};
use vstd::prelude::*;

verus! {

/// Whether an odd number of quote characters stands before position `i` of
/// `s`, so that `s[i]` is read as quoted.
pub open spec fn in_quotes(s: Seq<char>, i: int) -> bool
    decreases i,
{
    if i <= 0 {
        false
    } else {
        in_quotes(s, i - 1) != (s[i - 1] == '"')
    }
}

/// Whether a word of `s` ends before position `i`: white space stands there,
/// outside quotes.
pub open spec fn is_gap(s: Seq<char>, i: int) -> bool {
    0 <= i < s.len() && whitespace(s[i]) && !in_quotes(s, i)
}

/// The first gap of `s` at or after `from`; the length of `s` if there is
/// none.
pub open spec fn next_gap(s: Seq<char>, from: nat) -> nat
    decreases s.len() - from,
{
    if from >= s.len() {
        s.len()
    } else if is_gap(s, from as int) {
        from
    } else {
        next_gap(s, from + 1)
    }
}

/// The first word of `s` as it stands: what comes before the first gap.
pub open spec fn first_word(s: Seq<char>) -> Seq<char> {
    s.take(next_gap(s, 0) as int)
}

/// `word` without its quote characters.
pub open spec fn strip_quotes(word: Seq<char>) -> Seq<char> {
    word.filter(|c: char| c != '"')
}

/// The words of `s`: `s` is cut at its gaps, the empty pieces are dropped,
/// and the quote characters are taken out of the others.
pub open spec fn tokens(s: Seq<char>) -> Seq<Seq<char>>
    decreases s.len(),
{
    if s.len() == 0 {
        Seq::empty()
    } else {
        let gap = next_gap(s, 0);
        let word = if gap > 0 {
            seq![strip_quotes(s.take(gap as int))]
        } else {
            Seq::empty()
        };
        if gap < s.len() {
            word + tokens(s.skip(gap as int + 1))
        } else {
            word
        }
    }
}

/// `next_gap` answers `gap` when no gap lies in `from..gap` and `gap` is one,
/// or the end.
pub proof fn lemma_next_gap(s: Seq<char>, from: nat, gap: nat)
    requires
        from <= gap <= s.len(),
        forall|j: int| from <= j < gap ==> !is_gap(s, j),
        gap == s.len() || is_gap(s, gap as int),
    ensures
        next_gap(s, from) == gap,
    decreases gap - from,
{
    if from < gap {
        lemma_next_gap(s, from + 1, gap);
    }
}

/// Stripping takes out the quote characters and nothing else: none is left,
/// a word without any stays as it is, and the result is empty only for a
/// word made of quote characters.
pub proof fn lemma_strip_quotes(word: Seq<char>)
    ensures
        forall|j: int| 0 <= j < strip_quotes(word).len() ==> strip_quotes(word)[j] != '"',
        strip_quotes(word).len() == 0 <==> (forall|j: int|
            0 <= j < word.len() ==> word[j] == '"'),
        (forall|j: int| 0 <= j < word.len() ==> word[j] != '"') ==> strip_quotes(word) == word,
    decreases word.len(),
{
    reveal(Seq::filter);
    let kept = strip_quotes(word);
    if word.len() > 0 {
        let front = word.drop_last();
        let last = word.last();
        lemma_strip_quotes(front);
        let before = strip_quotes(front);
        assert(kept == if last != '"' {
            before.push(last)
        } else {
            before
        });
        if kept.len() == 0 {
            assert forall|j: int| 0 <= j < word.len() implies word[j] == '"' by {
                if j < front.len() {
                    assert(front[j] == word[j]);
                }
            }
        }
    }
}

/// Where `next_gap` points, from `from` on: at a gap or at the end, with no
/// gap before it.
pub proof fn lemma_next_gap_end(s: Seq<char>, from: nat)
    requires
        from <= s.len(),
    ensures
        from <= next_gap(s, from) <= s.len(),
        forall|j: int| from <= j < next_gap(s, from) ==> !is_gap(s, j),
        next_gap(s, from) < s.len() ==> is_gap(s, next_gap(s, from) as int),
    decreases s.len() - from,
{
    if from < s.len() && !is_gap(s, from as int) {
        lemma_next_gap_end(s, from + 1);
    }
}

/// A text that begins with anything but white space has a first token: its
/// first word, which is not empty, without the quote characters.
pub proof fn lemma_first_token(s: Seq<char>)
    requires
        s.len() > 0,
        !whitespace(s[0]),
    ensures
        first_word(s).len() > 0,
        tokens(s).len() > 0,
        tokens(s)[0] == strip_quotes(first_word(s)),
{
    lemma_next_gap_end(s, 0);
}

/// White space alone holds no token.
pub proof fn lemma_blank_has_no_token(s: Seq<char>)
    requires
        forall|j: int| 0 <= j < s.len() ==> whitespace(#[trigger] s[j]),
    ensures
        tokens(s).len() == 0,
    decreases s.len(),
{
    if s.len() > 0 {
        assert(is_gap(s, 0));
        lemma_blank_has_no_token(s.skip(1));
    }
}

/// A run of characters without white space or quotes is one token: itself.
pub proof fn lemma_plain_word_is_its_token(s: Seq<char>)
    requires
        s.len() > 0,
        forall|j: int| 0 <= j < s.len() ==> !whitespace(#[trigger] s[j]) && s[j] != '"',
    ensures
        tokens(s) == seq![s],
{
    lemma_next_gap(s, 0, s.len());
    lemma_strip_quotes(s);
    assert(s.take(s.len() as int) == s);
}

/// No token holds a quote character.
pub proof fn lemma_tokens_hold_no_quote(s: Seq<char>)
    ensures
        forall|k: int, j: int|
            0 <= k < tokens(s).len() && 0 <= j < tokens(s)[k].len() ==> tokens(s)[k][j] != '"',
    decreases s.len(),
{
    if s.len() > 0 {
        let gap = next_gap(s, 0);
        lemma_next_gap_end(s, 0);
        lemma_strip_quotes(s.take(gap as int));
        if gap < s.len() {
            lemma_tokens_hold_no_quote(s.skip(gap as int + 1));
        }
        assert forall|k: int, j: int|
            0 <= k < tokens(s).len() && 0 <= j < tokens(s)[k].len() implies tokens(s)[k][j]
            != '"' by {
            if gap > 0 && k > 0 {
                assert(tokens(s)[k] == tokens(s.skip(gap as int + 1))[k - 1]);
            }
        }
    }
}

/// The words of `s` from the start of a word at `start` on, given that its
/// first gap from there is at `gap`: the word `s[start..gap]` unless it is
/// empty, then the words after the gap.
proof fn lemma_tokens_step(s: Seq<char>, start: int, gap: int)
    requires
        0 <= start <= gap <= s.len(),
        next_gap(s.skip(start), 0) == gap - start,
    ensures
        tokens(s.skip(start)) == (if gap > start {
            seq![strip_quotes(s.subrange(start, gap))]
        } else {
            Seq::empty()
        }) + (if gap < s.len() {
            tokens(s.skip(gap + 1))
        } else {
            Seq::empty()
        }),
{
    let rest = s.skip(start);
    if rest.len() > 0 {
        assert(rest.take(gap - start) == s.subrange(start, gap));
        if gap < s.len() {
            assert(rest.skip(gap - start + 1) == s.skip(gap + 1));
        }
    }
}

/// Splits `chars` into words. A word is a longest run of characters without
/// white space outside quotes; its quote characters are left out.
pub fn tokenize(chars: &[char]) -> (out: Vec<String>)
    ensures
        out.deep_view() == tokens(chars@),
{
    let ghost s = chars@;
    let mut out: Vec<String> = Vec::new();
    let mut current: Option<String> = None;
    let mut quoted = false;
    let ghost mut start: int = 0;
    let mut i: usize = 0;
    assert(s.skip(0) == s);
    while i < chars.len()
        invariant
            s == chars@,
            0 <= start <= i <= s.len(),
            tokens(s) == out.deep_view() + tokens(s.skip(start)),
            forall|j: int| 0 <= j < i - start ==> !is_gap(s.skip(start), j),
            quoted == in_quotes(s.skip(start), i - start),
            current is None <==> start == i,
            current is Some ==> current.unwrap()@ == strip_quotes(s.subrange(start, i as int)),
        decreases chars.len() - i,
    {
        let c = chars[i];
        if c == '"' || !is_whitespace(c) || quoted {
            let mut token = match current {
                Some(token) => token,
                None => {
                    proof {
                        reveal(Seq::filter);
                    }
                    String::new()
                },
            };
            proof {
                let sofar = s.subrange(start, i as int);
                assert(s.subrange(start, i + 1) == sofar.push(c));
                sofar.lemma_filter_push(c, |c: char| c != '"');
            }
            if c == '"' {
                quoted = !quoted;
            } else {
                push_char(&mut token, c);
            }
            current = Some(token);
        } else {
            proof {
                lemma_next_gap(s.skip(start), 0, (i - start) as nat);
                lemma_tokens_step(s, start, i as int);
            }
            match current {
                Some(token) => {
                    out.push(token);
                },
                None => {},
            }
            current = None;
            proof {
                start = i + 1;
            }
        }
        i = i + 1;
    }
    proof {
        lemma_next_gap(s.skip(start), 0, (i - start) as nat);
        lemma_tokens_step(s, start, i as int);
    }
    match current {
        Some(token) => {
            out.push(token);
        },
        None => {},
    }
    out
}

/// Splits one pipeline stage into its words.
pub fn tokenize_with_quotes(input: &str) -> (out: Vec<String>)
    ensures
        out.deep_view() == tokens(input@),
{
    let chars = to_chars(input);
    tokenize(chars.as_slice())
}

} // verus!
