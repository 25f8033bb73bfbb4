//! Lines of text: their words, their prefixes and the numbers written in them.

use vstd::prelude::*;
use vstd::string::StrSliceExecFns;

verus! {

/// Whether `c` has the Unicode property `White_Space`.
pub open spec fn is_whitespace(c: char) -> bool {
    let n = c as u32;
    ||| 0x09 <= n <= 0x0D
    ||| n == 0x20
    ||| n == 0x85
    ||| n == 0xA0
    ||| n == 0x1680
    ||| 0x2000 <= n <= 0x200A
    ||| n == 0x2028
    ||| n == 0x2029
    ||| n == 0x202F
    ||| n == 0x205F
    ||| n == 0x3000
}

/// The end of the run of characters without whitespace that starts at `from`.
pub open spec fn word_end(s: Seq<char>, from: int) -> int
    decreases s.len() - from,
{
    if 0 <= from < s.len() && !is_whitespace(s[from]) {
        word_end(s, from + 1)
    } else {
        from
    }
}

/// The words of `s` from index `from` on: its maximal runs of characters
/// without whitespace, in order.
pub open spec fn words_from(s: Seq<char>, from: int) -> Seq<Seq<char>>
    decreases s.len() - from,
{
    if from < 0 || from >= s.len() {
        Seq::empty()
    } else if is_whitespace(s[from]) {
        words_from(s, from + 1)
    } else {
        let end = word_end(s, from);
        if from < end <= s.len() {
            seq![s.subrange(from, end)] + words_from(s, end)
        } else {
            Seq::empty()
        }
    }
}

/// The words of a line: what is left when it is split at whitespace.
pub open spec fn words(s: Seq<char>) -> Seq<Seq<char>> {
    words_from(s, 0)
}

/// The views of a sequence of strings.
pub open spec fn views(tokens: Seq<String>) -> Seq<Seq<char>> {
    tokens.map_values(|token: String| token@)
}

/// A run of characters without whitespace ends where `word_end` says.
pub proof fn lemma_word_end(s: Seq<char>, from: int, end: int)
    requires
        0 <= from <= end <= s.len(),
        forall|k: int| from <= k < end ==> !is_whitespace(#[trigger] s[k]),
        end == s.len() || is_whitespace(s[end]),
    ensures
        word_end(s, from) == end,
    decreases end - from,
{
    if from < end {
        lemma_word_end(s, from + 1, end);
    }
}

/// The run that `word_end` ends lies in `s` and has no whitespace, and it
/// cannot go on: it ends at the end of `s` or before a whitespace.
pub proof fn lemma_word_end_is_maximal(s: Seq<char>, from: int)
    requires
        0 <= from <= s.len(),
    ensures
        from <= word_end(s, from) <= s.len(),
        forall|k: int| from <= k < word_end(s, from) ==> !is_whitespace(#[trigger] s[k]),
        word_end(s, from) == s.len() || is_whitespace(s[word_end(s, from)]),
    decreases s.len() - from,
{
    if from < s.len() && !is_whitespace(s[from]) {
        lemma_word_end_is_maximal(s, from + 1);
    }
}

/// Whether `word` has a character, and no whitespace among its characters.
pub open spec fn is_word(word: Seq<char>) -> bool {
    word.len() > 0 && forall|j: int| 0 <= j < word.len() ==> !is_whitespace(#[trigger] word[j])
}

/// Every word of a line has a character, and none of its characters is
/// whitespace.
pub proof fn lemma_words_have_no_whitespace(s: Seq<char>, from: int)
    requires
        0 <= from <= s.len(),
    ensures
        forall|k: int| 0 <= k < words_from(s, from).len() ==> is_word(#[trigger] words_from(s, from)[k]),
    decreases s.len() - from,
{
    if from < s.len() {
        if is_whitespace(s[from]) {
            lemma_words_have_no_whitespace(s, from + 1);
            assert(words_from(s, from) == words_from(s, from + 1));
        } else {
            let end = word_end(s, from);
            lemma_word_end_is_maximal(s, from);
            lemma_words_have_no_whitespace(s, end);
            let first = s.subrange(from, end);
            let rest = words_from(s, end);
            assert(from < end);
            assert(words_from(s, from) == seq![first] + rest);
            assert(is_word(first)) by {
                assert forall|j: int| 0 <= j < first.len() implies !is_whitespace(
                    #[trigger] first[j],
                ) by {
                    assert(first[j] == s[from + j]);
                }
            }
            assert forall|k: int| 0 <= k < words_from(s, from).len() implies is_word(
                #[trigger] words_from(s, from)[k],
            ) by {
                if k > 0 {
                    assert(words_from(s, from)[k] == rest[k - 1]);
                }
            }
        }
    }
}

/// Whether `c` is whitespace, as `char::is_whitespace` says.
pub fn is_whitespace_char(c: char) -> (r: bool)
    ensures
        r == is_whitespace(c),
{
    let n: u32 = c as u32;
    (0x09 <= n && n <= 0x0D) || n == 0x20 || n == 0x85 || n == 0xA0 || n == 0x1680 || (0x2000 <= n
        && n <= 0x200A) || n == 0x2028 || n == 0x2029 || n == 0x202F || n == 0x205F || n == 0x3000
}

/// The characters of `text`, in order.
pub fn characters(text: &str) -> (chars: Vec<char>)
    ensures
        chars@ == text@,
{
    let mut chars: Vec<char> = Vec::new();
    for c in it: text.chars()
        invariant
            it.seq() == text@,
            chars@ == it.seq().take(it.index()),
    {
        chars.push(c);
    }
    chars
}

/// Splits a line at whitespace, as `str::split_whitespace` does.
pub fn split_whitespace(input: &str) -> (tokens: Vec<String>)
    ensures
        views(tokens@) == words(input@),
{
    let chars = characters(input);
    let n = chars.len();
    let mut tokens: Vec<String> = Vec::new();
    let mut i: usize = 0;
    while i < n
        invariant
            chars@ == input@,
            n == chars@.len(),
            i <= n,
            words(input@) == views(tokens@) + words_from(input@, i as int),
        decreases n - i,
    {
        if is_whitespace_char(chars[i]) {
            i = i + 1;
        } else {
            let start = i;
            while i < n && !is_whitespace_char(chars[i])
                invariant
                    chars@ == input@,
                    n == chars@.len(),
                    start <= i <= n,
                    forall|k: int| start <= k < i ==> !is_whitespace(#[trigger] input@[k]),
                decreases n - i,
            {
                i = i + 1;
            }
            proof {
                lemma_word_end(input@, start as int, i as int);
            }
            let ghost before = views(tokens@);
            let token = input.substring_char(start, i).to_owned();
            tokens.push(token);
            assert(views(tokens@) == before.push(input@.subrange(start as int, i as int)));
            assert(before + (seq![input@.subrange(start as int, i as int)] + words_from(
                input@,
                i as int,
            )) == before.push(input@.subrange(start as int, i as int)) + words_from(
                input@,
                i as int,
            ));
        }
    }
    assert(words_from(input@, n as int) == Seq::<Seq<char>>::empty());
    tokens
}

/// Whether `c` is one of the ten decimal digits.
pub open spec fn is_digit(c: char) -> bool {
    0x30 <= c as u32 <= 0x39
}

/// The number that a decimal digit stands for.
pub open spec fn digit_value(c: char) -> nat {
    (c as u32 - 0x30) as nat
}

/// The number that a run of decimal digits stands for.
pub open spec fn digits_value(s: Seq<char>) -> nat
    decreases s.len(),
{
    if s.len() == 0 {
        0
    } else {
        digits_value(s.drop_last()) * 10 + digit_value(s.last())
    }
}

/// Whether every character of `s` is a decimal digit.
pub open spec fn all_digits(s: Seq<char>) -> bool {
    forall|i: int| 0 <= i < s.len() ==> is_digit(#[trigger] s[i])
}

/// `s` without a leading plus sign.
pub open spec fn without_sign(s: Seq<char>) -> Seq<char> {
    if s.len() > 0 && s[0] == '+' {
        s.drop_first()
    } else {
        s
    }
}

/// The unsigned number written in `s`, if `s` is an optional plus sign and
/// then one or more decimal digits whose value is at most `max`.
pub open spec fn unsigned_value(s: Seq<char>, max: nat) -> Option<nat> {
    let digits = without_sign(s);
    if digits.len() > 0 && all_digits(digits) && digits_value(digits) <= max {
        Some(digits_value(digits))
    } else {
        None
    }
}

/// A run of digits is worth at least as much as each of its prefixes.
pub proof fn lemma_digits_value_grows(s: Seq<char>, k: int)
    requires
        0 <= k <= s.len(),
    ensures
        digits_value(s.take(k)) <= digits_value(s),
    decreases s.len(),
{
    if k < s.len() {
        lemma_digits_value_grows(s.drop_last(), k);
        assert(s.drop_last().take(k) == s.take(k));
    } else {
        assert(s.take(k) == s);
    }
}

/// Reads an unsigned decimal number that is at most `max`, as `str::parse`
/// does for an unsigned integer type whose largest value is `max`.
pub fn parse_unsigned(token: &str, max: u64) -> (value: Option<u64>)
    ensures
        value == match unsigned_value(token@, max as nat) {
            Some(n) => Some(n as u64),
            None => None,
        },
{
    let chars = characters(token);
    let n = chars.len();
    let first: usize = if n > 0 && chars[0] == '+' {
        1
    } else {
        0
    };
    let ghost digits = without_sign(token@);
    assert(digits == token@.skip(first as int));
    if first == n {
        return None;
    }
    let mut acc: u64 = 0;
    let mut i: usize = first;
    while i < n
        invariant
            chars@ == token@,
            n == chars@.len(),
            first <= i <= n,
            digits == token@.skip(first as int),
            digits == without_sign(token@),
            all_digits(digits.take(i - first)),
            acc == digits_value(digits.take(i - first)),
            acc <= max,
        decreases n - i,
    {
        let c: u32 = chars[i] as u32;
        let ghost next = digits.take(i - first + 1);
        assert(next.drop_last() == digits.take(i - first));
        assert(next.last() == token@[i as int]);
        assert(digits[i - first] == chars@[i as int]);
        if c < 0x30 || c > 0x39 {
            assert(!is_digit(digits[i - first]));
            return None;
        }
        let d: u64 = (c - 0x30) as u64;
        assert(d == digit_value(next.last()));
        if d > max || acc > (max - d) / 10 {
            proof {
                assert(digits_value(next) > max);
                lemma_digits_value_grows(digits, i - first + 1);
            }
            return None;
        }
        acc = acc * 10 + d;
        i = i + 1;
        assert(all_digits(next)) by {
            assert forall|k: int| 0 <= k < next.len() implies is_digit(#[trigger] next[k]) by {
                if k < next.len() - 1 {
                    assert(next[k] == digits.take(i - first - 1)[k]);
                }
            }
        }
    }
    assert(digits.take(n - first) == digits);
    Some(acc)
}

/// Whether `text` begins with `prefix`.
pub fn starts_with(text: &str, prefix: &str) -> (r: bool)
    ensures
        r == prefix@.is_prefix_of(text@),
{
    let t = characters(text);
    let p = characters(prefix);
    if p.len() > t.len() {
        return false;
    }
    let mut i: usize = 0;
    while i < p.len()
        invariant
            t@ == text@,
            p@ == prefix@,
            i <= p.len() <= t.len(),
            forall|k: int| 0 <= k < i ==> t@[k] == p@[k],
        decreases p.len() - i,
    {
        if t[i] != p[i] {
            assert(text@.subrange(0, prefix@.len() as int)[i as int] != prefix@[i as int]);
            return false;
        }
        i = i + 1;
    }
    assert(text@.subrange(0, prefix@.len() as int) == prefix@);
    true
}

/// Whether two texts hold the same characters.
pub fn same_text(a: &str, b: &str) -> (r: bool)
    ensures
        r == (a@ == b@),
{
    let x = characters(a);
    let y = characters(b);
    if x.len() != y.len() {
        return false;
    }
    let mut i: usize = 0;
    while i < x.len()
        invariant
            x@ == a@,
            y@ == b@,
            i <= x.len() == y.len(),
            forall|k: int| 0 <= k < i ==> x@[k] == y@[k],
        decreases x.len() - i,
    {
        if x[i] != y[i] {
            return false;
        }
        i = i + 1;
    }
    assert(a@ =~= b@);
    true
}

} // verus!
