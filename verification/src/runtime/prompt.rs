use crate::book::placeholder::{is_space, is_space_char, skip_spaces};
use crate::text::{chars_of, lowercase, str_eq, string_of_range, texts, to_lowercase};
use vstd::prelude::*;

verus! {

/// The end of what is left of `s` between `from` and `to` once the white space at its
/// end is taken off.
pub open spec fn trim_end(s: Seq<char>, from: int, to: int) -> int
    decreases to,
{
    if 0 <= from < to <= s.len() && is_space(s[to - 1]) {
        trim_end(s, from, to - 1)
    } else {
        to
    }
}

/// `s` without the white space at its beginning and at its end.
pub open spec fn trimmed(s: Seq<char>) -> Seq<char> {
    let from = skip_spaces(s, 0);
    s.subrange(from, trim_end(s, from, s.len() as int))
}

/// `s` without the white space at its beginning and at its end.
pub fn trim(s: &str) -> (r: String)
    ensures
        r@ == trimmed(s@),
{
    let chars = chars_of(s);
    let n = chars.len();
    let mut from: usize = 0;
    while from < n && is_space_char(chars[from])
        invariant
            from <= n,
            n == chars@.len(),
            skip_spaces(chars@, 0) == skip_spaces(chars@, from as int),
        decreases n - from,
    {
        from += 1;
    }
    let mut to: usize = n;
    while to > from && is_space_char(chars[to - 1])
        invariant
            from <= to <= n,
            n == chars@.len(),
            trim_end(chars@, from as int, n as int) == trim_end(chars@, from as int, to as int),
        decreases to,
    {
        to -= 1;
    }
    string_of_range(&chars, from, to)
}

/// The choice that the line `input` stands for: the line without the white space around
/// it, in lower case.
pub open spec fn choice_of(input: Seq<char>) -> Seq<char> {
    lowercase(trimmed(input))
}

/// The choice that the user has made with the line `input`, if it is one of `choices`;
/// any choice is taken where `choices` is empty.
pub fn accept(input: &str, choices: &Vec<String>) -> (r: Option<String>)
    ensures
        match r {
            Some(choice) => choice@ == choice_of(input@) && (choices@.len() == 0 || texts(
                choices@,
            ).contains(choice@)),
            None => choices@.len() > 0 && !texts(choices@).contains(choice_of(input@)),
        },
{
    let choice = to_lowercase(trim(input).as_str());
    if choices.len() == 0 {
        return Some(choice);
    }
    let mut k: usize = 0;
    while k < choices.len()
        invariant
            k <= choices.len(),
            choice@ == choice_of(input@),
            forall|j: int| 0 <= j < k ==> texts(choices@)[j] != choice@,
        decreases choices.len() - k,
    {
        assert(texts(choices@)[k as int] == choices@[k as int]@);
        if str_eq(choices[k].as_str(), choice.as_str()) {
            assert(texts(choices@)[k as int] == choice@);
            return Some(choice);
        }
        k += 1;
    }
    None
}

} // verus!
