//! Characters and character sequences: white space, trimming, comparison,
//! and passage between strings and vectors of characters.
use vstd::prelude::*;
use vstd::slice::slice_subrange;
use vstd::utf8::{encode_utf8, encode_utf8_decode_utf8};

verus! {

/// Whether `c` has the Unicode property `White_Space`.
pub open spec fn whitespace(c: char) -> bool {
    let n = c as u32;
    ||| 0x09 <= n <= 0x0D
    ||| n == 0x20
    ||| n == 0x85
    ||| n == 0xA0
    ||| n == 0x1680
    ||| 0x2000 <= n <= 0x200A
    ||| n == 0x2028
    ||| n == 0x2029
    ||| n == 0x202F
    ||| n == 0x205F
    ||| n == 0x3000
}

/// Tells whether `c` is a white space character.
pub fn is_whitespace(c: char) -> (b: bool)
    ensures
        b == whitespace(c),
{
    let n: u32 = c as u32;
    (0x09 <= n && n <= 0x0D) || n == 0x20 || n == 0x85 || n == 0xA0 || n == 0x1680 || (0x2000 <= n
        && n <= 0x200A) || n == 0x2028 || n == 0x2029 || n == 0x202F || n == 0x205F || n == 0x3000
}

/// How many white space characters `s` begins with.
pub open spec fn leading_spaces(s: Seq<char>) -> nat
    decreases s.len(),
{
    if s.len() > 0 && whitespace(s[0]) {
        1 + leading_spaces(s.drop_first())
    } else {
        0
    }
}

/// How many white space characters `s` ends with.
pub open spec fn trailing_spaces(s: Seq<char>) -> nat
    decreases s.len(),
{
    if s.len() > 0 && whitespace(s.last()) {
        1 + trailing_spaces(s.drop_last())
    } else {
        0
    }
}

/// `s` without the white space it begins with.
pub open spec fn trim_start(s: Seq<char>) -> Seq<char> {
    s.skip(leading_spaces(s) as int)
}

/// `s` without the white space it ends with.
pub open spec fn trim_end(s: Seq<char>) -> Seq<char> {
    s.take(s.len() - trailing_spaces(s))
}

/// `s` without the white space at either end.
pub open spec fn trim(s: Seq<char>) -> Seq<char> {
    trim_end(trim_start(s))
}

/// `leading_spaces` counts exactly the white space before the first other
/// character.
pub proof fn lemma_leading_spaces(s: Seq<char>, k: int)
    requires
        0 <= k <= s.len(),
        forall|j: int| 0 <= j < k ==> whitespace(#[trigger] s[j]),
        k == s.len() || !whitespace(s[k]),
    ensures
        leading_spaces(s) == k,
    decreases k,
{
    if k > 0 {
        lemma_leading_spaces(s.drop_first(), k - 1);
    }
}

/// `trailing_spaces` counts exactly the white space after the last other
/// character.
pub proof fn lemma_trailing_spaces(s: Seq<char>, k: int)
    requires
        0 <= k <= s.len(),
        forall|j: int| s.len() - k <= j < s.len() ==> whitespace(#[trigger] s[j]),
        k == s.len() || !whitespace(s[s.len() - k - 1]),
    ensures
        trailing_spaces(s) == k,
    decreases k,
{
    if k > 0 {
        lemma_trailing_spaces(s.drop_last(), k - 1);
    }
}

/// What `leading_spaces` counts is white space, and what stands behind it is
/// not.
pub proof fn lemma_leading_spaces_end(s: Seq<char>)
    ensures
        leading_spaces(s) <= s.len(),
        forall|j: int| 0 <= j < leading_spaces(s) ==> whitespace(#[trigger] s[j]),
        leading_spaces(s) < s.len() ==> !whitespace(s[leading_spaces(s) as int]),
    decreases s.len(),
{
    if s.len() > 0 && whitespace(s[0]) {
        let rest = s.drop_first();
        lemma_leading_spaces_end(rest);
        assert forall|j: int| 0 <= j < leading_spaces(s) implies whitespace(#[trigger] s[j]) by {
            if j > 0 {
                assert(s[j] == rest[j - 1]);
            }
        }
    }
}

/// What `trailing_spaces` counts is white space, and what stands before it
/// is not.
pub proof fn lemma_trailing_spaces_end(s: Seq<char>)
    ensures
        trailing_spaces(s) <= s.len(),
        forall|j: int| s.len() - trailing_spaces(s) <= j < s.len() ==> whitespace(#[trigger] s[j]),
        trailing_spaces(s) < s.len() ==> !whitespace(s[s.len() - trailing_spaces(s) - 1]),
    decreases s.len(),
{
    if s.len() > 0 && whitespace(s.last()) {
        let rest = s.drop_last();
        lemma_trailing_spaces_end(rest);
        assert forall|j: int| s.len() - trailing_spaces(s) <= j < s.len() implies whitespace(
            #[trigger] s[j],
        ) by {
            if j < s.len() - 1 {
                assert(s[j] == rest[j]);
            }
        }
        if trailing_spaces(s) < s.len() {
            assert(s[s.len() - trailing_spaces(s) - 1] == rest[rest.len() - trailing_spaces(rest)
                - 1]);
        }
    }
}

/// Trimming cuts white space off both ends and nothing else: `trim(s)` is
/// the part of `s` between the two bounds returned, all before and all
/// behind it is white space, and it neither begins nor ends with white
/// space.
pub proof fn lemma_trim(s: Seq<char>) -> (bounds: (int, int))
    ensures
        0 <= bounds.0 <= bounds.1 <= s.len(),
        trim(s) == s.subrange(bounds.0, bounds.1),
        forall|j: int| 0 <= j < bounds.0 ==> whitespace(#[trigger] s[j]),
        forall|j: int| bounds.1 <= j < s.len() ==> whitespace(#[trigger] s[j]),
        trim(s).len() > 0 ==> !whitespace(trim(s)[0]) && !whitespace(trim(s).last()),
{
    let from = leading_spaces(s) as int;
    lemma_leading_spaces_end(s);
    let rest = s.skip(from);
    lemma_trailing_spaces_end(rest);
    let to = s.len() - trailing_spaces(rest);
    assert forall|j: int| to <= j < s.len() implies whitespace(#[trigger] s[j]) by {
        assert(s[j] == rest[j - from]);
    }
    (from, to)
}

/// The characters of `s`, in order.
pub fn to_chars(s: &str) -> (chars: Vec<char>)
    ensures
        chars@ == s@,
{
    let mut chars: Vec<char> = Vec::new();
    for c in it: s.chars()
        invariant
            it.seq() == s@,
            chars@ == it.seq().take(it.index() as int),
    {
        chars.push(c);
    }
    chars
}

/// Appends `c` to `s` by `String::push`, which adds the one character at the
/// end and leaves what was there in place. The contract is taken on trust:
/// Verus does not look into `String`.
#[verifier::external_body]
pub(crate) fn push_char(s: &mut String, c: char)
    ensures
        final(s)@ == old(s)@.push(c),
{
    s.push(c);
}

/// The string that holds `chars`.
pub fn string_of(chars: &[char]) -> (s: String)
    ensures
        s@ == chars@,
{
    let mut s = String::new();
    let mut i: usize = 0;
    while i < chars.len()
        invariant
            i <= chars.len(),
            s@ == chars@.take(i as int),
        decreases chars.len() - i,
    {
        push_char(&mut s, chars[i]);
        i = i + 1;
    }
    s
}

/// `chars` without the white space at its end.
pub fn trim_end_chars(chars: &[char]) -> (out: &[char])
    ensures
        out@ == trim_end(chars@),
{
    let mut to: usize = chars.len();
    while to > 0 && is_whitespace(chars[to - 1])
        invariant
            to <= chars.len(),
            forall|j: int| to <= j < chars.len() ==> whitespace(#[trigger] chars@[j]),
        decreases to,
    {
        to = to - 1;
    }
    proof {
        lemma_trailing_spaces(chars@, chars.len() - to);
    }
    slice_subrange(chars, 0, to)
}

/// `chars` without the white space at its start.
pub fn trim_start_chars(chars: &[char]) -> (out: &[char])
    ensures
        out@ == trim_start(chars@),
{
    let mut from: usize = 0;
    while from < chars.len() && is_whitespace(chars[from])
        invariant
            from <= chars.len(),
            forall|j: int| 0 <= j < from ==> whitespace(#[trigger] chars@[j]),
        decreases chars.len() - from,
    {
        from = from + 1;
    }
    proof {
        lemma_leading_spaces(chars@, from as int);
    }
    slice_subrange(chars, from, chars.len())
}

/// `chars` without the white space at either end.
pub fn trim_chars(chars: &[char]) -> (out: &[char])
    ensures
        out@ == trim(chars@),
{
    trim_end_chars(trim_start_chars(chars))
}

/// Tells whether two strings hold the same characters.
pub fn same_text(a: &str, b: &str) -> (same: bool)
    ensures
        same == (a@ == b@),
{
    let x = a.as_bytes();
    let y = b.as_bytes();
    proof {
        encode_utf8_decode_utf8(a@);
        encode_utf8_decode_utf8(b@);
    }
    if x.len() != y.len() {
        return false;
    }
    let mut i: usize = 0;
    while i < x.len()
        invariant
            i <= x.len() == y.len(),
            x@ == encode_utf8(a@),
            y@ == encode_utf8(b@),
            x@.take(i as int) == y@.take(i as int),
        decreases x.len() - i,
    {
        if x[i] != y[i] {
            return false;
        }
        i = i + 1;
    }
    assert(x@ == x@.take(i as int));
    assert(y@ == y@.take(i as int));
    true
}

/// A copy of `words`.
pub fn copy_words(words: &[String]) -> (copy: Vec<String>)
    ensures
        copy.deep_view() == words.deep_view(),
{
    let mut copy: Vec<String> = Vec::new();
    let mut i: usize = 0;
    while i < words.len()
        invariant
            i <= words.len(),
            copy.len() == i,
            forall|j: int| 0 <= j < i ==> copy@[j]@ == words@[j]@,
        decreases words.len() - i,
    {
        copy.push(words[i].clone());
        i = i + 1;
    }
    copy
}

/// `words` in one string, with one space between each two.
pub open spec fn joined(words: Seq<Seq<char>>) -> Seq<char>
    decreases words.len(),
{
    if words.len() == 0 {
        Seq::empty()
    } else if words.len() == 1 {
        words[0]
    } else {
        joined(words.drop_last()) + seq![' '] + words.last()
    }
}

/// Joins `words` with single spaces.
pub fn join_words(words: &[String]) -> (line: String)
    ensures
        line@ == joined(words.deep_view()),
{
    let ghost all = words.deep_view();
    let mut line = String::new();
    let mut i: usize = 0;
    while i < words.len()
        invariant
            i <= words.len(),
            all == words.deep_view(),
            line@ == joined(all.take(i as int)),
        decreases words.len() - i,
    {
        if i > 0 {
            push_char(&mut line, ' ');
        }
        line.append(words[i].as_str());
        proof {
            let now = all.take(i + 1);
            assert(now.drop_last() == all.take(i as int));
        }
        i = i + 1;
    }
    assert(all.take(i as int) == all);
    line
}

/// `head` followed by `tail`.
pub fn concat(head: &str, tail: &str) -> (whole: String)
    ensures
        whole@ == head@ + tail@,
{
    let mut whole = String::from_str(head);
    whole.append(tail);
    whole
}

} // verus!
