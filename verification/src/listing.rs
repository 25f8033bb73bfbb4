//! The order and the limit of a listing of documents, as a command gives them.

use crate::text::{characters, parse_unsigned, unsigned_value, views};
use vstd::prelude::*;
use vstd::string::StrSliceExecFns;

verus! {

/// The greatest number of documents that one listing shows, and the number
/// it shows where no limit is given.
pub const MAX_LISTED: u16 = 10000;

/// What is wrong with the limit of a listing. The listing is made all the
/// same, with the greatest limit.
#[derive(Clone, Copy, Debug, PartialEq, Eq)]
pub enum LimitError {
    /// The limit is not written as an integer of sixteen bits.
    NotAnInteger,
    /// The limit is not from 1 to 10000.
    OutOfRange,
}

/// The words of a listing command that name the order and the limit: of
/// two words the first names the order and the second the limit; one word
/// names the order where it begins with `[`, and the limit where it does not.
pub open spec fn order_and_limit_words(arguments: Seq<Seq<char>>) -> (
    Option<Seq<char>>,
    Option<Seq<char>>,
) {
    if arguments.len() >= 2 {
        (Some(arguments[0]), Some(arguments[1]))
    } else if arguments.len() == 1 {
        if arguments[0].len() > 0 && arguments[0][0] == '[' {
            (Some(arguments[0]), None)
        } else {
            (None, Some(arguments[0]))
        }
    } else {
        (None, None)
    }
}

/// The limit that a word stands for, and what is wrong with the word.
pub open spec fn limit_of(word: Option<Seq<char>>) -> (u16, Option<LimitError>) {
    match word {
        None => (MAX_LISTED, None),
        Some(text) => match unsigned_value(text, u16::MAX as nat) {
            None => (MAX_LISTED, Some(LimitError::NotAnInteger)),
            Some(limit) => if 0 < limit <= MAX_LISTED {
                (limit as u16, None)
            } else {
                (MAX_LISTED, Some(LimitError::OutOfRange))
            },
        },
    }
}

/// The first comma of `s` at or after `from`, or the length of `s` where
/// there is none.
pub open spec fn first_comma(s: Seq<char>, from: int) -> int
    decreases s.len() - from,
{
    if from < 0 || from >= s.len() {
        s.len() as int
    } else if s[from] == ',' {
        from
    } else {
        first_comma(s, from + 1)
    }
}

/// The parts of `s` from `from` on that its commas divide it into.
pub open spec fn parts_from(s: Seq<char>, from: int) -> Seq<Seq<char>>
    decreases s.len() - from,
{
    let comma = first_comma(s, from);
    if from < 0 || from > s.len() {
        Seq::empty()
    } else if from <= comma < s.len() {
        seq![s.subrange(from, comma)] + parts_from(s, comma + 1)
    } else {
        seq![s.subrange(from, s.len() as int)]
    }
}

/// `s` without its first and its last character.
pub open spec fn unwrapped(s: Seq<char>) -> Seq<char> {
    if s.len() >= 2 {
        s.subrange(1, s.len() - 1)
    } else {
        Seq::empty()
    }
}

/// The fields that a word written as `[first,second]` names, in their order.
pub open spec fn fields_of(word: Option<Seq<char>>) -> Seq<Seq<char>> {
    match word {
        None => Seq::empty(),
        Some(text) => parts_from(unwrapped(text), 0),
    }
}

/// The first comma of `chars` at or after `from`.
fn find_comma(chars: &Vec<char>, from: usize) -> (place: usize)
    requires
        from <= chars@.len(),
    ensures
        place == first_comma(chars@, from as int),
        from <= place <= chars@.len(),
{
    let mut i = from;
    while i < chars.len() && chars[i] != ','
        invariant
            from <= i <= chars@.len(),
            first_comma(chars@, from as int) == first_comma(chars@, i as int),
        decreases chars@.len() - i,
    {
        i = i + 1;
    }
    i
}

/// The fields that a word written as `[first,second]` names.
fn fields(word: &str) -> (names: Vec<String>)
    ensures
        views(names@) == fields_of(Some(word@)),
{
    let length = word.unicode_len();
    let inner: &str = if length >= 2 {
        word.substring_char(1, length - 1)
    } else {
        ""
    };
    proof {
        reveal_strlit("");
        assert(inner@ =~= unwrapped(word@));
    }
    let chars = characters(inner);
    let n = chars.len();
    let mut names: Vec<String> = Vec::new();
    let mut from: usize = 0;
    loop
        invariant_except_break
            parts_from(inner@, 0) == views(names@) + parts_from(inner@, from as int),
        invariant
            chars@ == inner@,
            n == chars@.len(),
            from <= n,
        ensures
            views(names@) == parts_from(inner@, 0),
        decreases n - from,
    {
        let comma = find_comma(&chars, from);
        let ghost before = views(names@);
        names.push(inner.substring_char(from, comma).to_owned());
        assert(views(names@) == before.push(inner@.subrange(from as int, comma as int)));
        if comma >= n {
            assert(before + seq![inner@.subrange(from as int, n as int)] == views(names@));
            break;
        }
        assert(before + (seq![inner@.subrange(from as int, comma as int)] + parts_from(
            inner@,
            comma + 1,
        )) == views(names@) + parts_from(inner@, comma + 1));
        from = comma + 1;
    }
    names
}

/// Reads the order and the limit of a listing from the words that follow
/// the command: the fields to order by, the limit, and what is wrong with
/// the limit as it was written.
pub fn order_and_limit(arguments: &Vec<String>) -> (listing: (Vec<String>, u16, Option<LimitError>))
    ensures
        views(listing.0@) == fields_of(order_and_limit_words(views(arguments@)).0),
        (listing.1, listing.2) == limit_of(order_and_limit_words(views(arguments@)).1),
{
    assert(views(arguments@).len() == arguments@.len());
    let (order_word, limit_word): (Option<&String>, Option<&String>) = if arguments.len() >= 2 {
        assert(views(arguments@)[0] == arguments@[0]@);
        assert(views(arguments@)[1] == arguments@[1]@);
        (Some(&arguments[0]), Some(&arguments[1]))
    } else if arguments.len() == 1 {
        assert(views(arguments@)[0] == arguments@[0]@);
        let first = characters(arguments[0].as_str());
        if first.len() > 0 && first[0] == '[' {
            (Some(&arguments[0]), None)
        } else {
            (None, Some(&arguments[0]))
        }
    } else {
        (None, None)
    };
    let (limit, error): (u16, Option<LimitError>) = match limit_word {
        None => (MAX_LISTED, None),
        Some(text) => match parse_unsigned(text.as_str(), 0xFFFF) {
            None => (MAX_LISTED, Some(LimitError::NotAnInteger)),
            Some(limit) => if 0 < limit && limit <= MAX_LISTED as u64 {
                (limit as u16, None)
            } else {
                (MAX_LISTED, Some(LimitError::OutOfRange))
            },
        },
    };
    let order_by = match order_word {
        None => {
            let none: Vec<String> = Vec::new();
            assert(views(none@) =~= Seq::<Seq<char>>::empty());
            none
        },
        Some(text) => fields(text.as_str()),
    };
    (order_by, limit, error)
}

} // verus!
