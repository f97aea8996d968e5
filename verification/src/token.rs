//! How a line of input is cut into words and fields, how words are put
//! together again, and how a word is read as a number.

use vstd::prelude::*;
use crate::path::texts;
use crate::text::{chars_of, find_from, index_of, slice_of};

verus! {

/// Whether `c` has the Unicode property White_Space: tab to carriage
/// return, the space, the next-line control, the no-break space, the Ogham
/// space mark, the spaces from en quad to hair space, the line and the
/// paragraph separator, the narrow no-break space, the medium mathematical
/// space and the ideographic space.
pub open spec fn white_space(c: char) -> bool {
    ||| '\u{0009}' <= c <= '\u{000D}'
    ||| c == '\u{0020}'
    ||| c == '\u{0085}'
    ||| c == '\u{00A0}'
    ||| c == '\u{1680}'
    ||| '\u{2000}' <= c <= '\u{200A}'
    ||| c == '\u{2028}'
    ||| c == '\u{2029}'
    ||| c == '\u{202F}'
    ||| c == '\u{205F}'
    ||| c == '\u{3000}'
}

/// `char::is_whitespace` of the standard library tells whether a character
/// has the Unicode property White_Space. The contract states the property
/// as the set of its characters.
pub assume_specification[ char::is_whitespace ](c: char) -> (r: bool)
    ensures
        r == white_space(c),
;

/// Position of the first white space in `s`, or `s.len()` when there is
/// none.
pub open spec fn first_space(s: Seq<char>) -> nat
    decreases s.len(),
{
    if s.len() == 0 {
        0
    } else if white_space(s[0]) {
        0
    } else {
        1 + first_space(s.drop_first())
    }
}

/// The non-empty runs of characters between the white space of `s`, in
/// order.
pub open spec fn words(s: Seq<char>) -> Seq<Seq<char>>
    decreases s.len(),
{
    if s.len() == 0 {
        Seq::empty()
    } else {
        let i = first_space(s) as int;
        let rest = if i < s.len() {
            words(s.skip(i + 1))
        } else {
            Seq::empty()
        };
        if i == 0 {
            rest
        } else {
            seq![s.take(i)] + rest
        }
    }
}

/// The runs of characters between the occurrences of `c` in `s`, in order,
/// the empty ones too.
pub open spec fn fields(s: Seq<char>, c: char) -> Seq<Seq<char>>
    decreases s.len(),
{
    let i = index_of(s, c) as int;
    if i < s.len() {
        seq![s.take(i)] + fields(s.skip(i + 1), c)
    } else {
        seq![s]
    }
}

/// `words` with one space between each two of them.
pub open spec fn spaced(words: Seq<Seq<char>>) -> Seq<char>
    decreases words.len(),
{
    if words.len() == 0 {
        Seq::empty()
    } else if words.len() == 1 {
        words[0]
    } else {
        spaced(words.drop_last()) + seq![' '] + words.last()
    }
}

/// `s` without any occurrence of `./`, read from the left.
pub open spec fn without_dot_slash(s: Seq<char>) -> Seq<char>
    decreases s.len(),
{
    if s.len() < 2 {
        s
    } else if s[0] == '.' && s[1] == '/' {
        without_dot_slash(s.skip(2))
    } else {
        seq![s[0]] + without_dot_slash(s.skip(1))
    }
}

/// Any position that is preceded only by characters other than white
/// space, and that either holds white space or is the end of `s`, is
/// `first_space(s)`.
pub proof fn lemma_first_space_is(s: Seq<char>, k: int)
    requires
        0 <= k <= s.len(),
        forall|j: int| 0 <= j < k ==> !white_space(s[j]),
        k < s.len() ==> white_space(s[k]),
    ensures
        first_space(s) == k,
    decreases s.len(),
{
    if s.len() > 0 && !white_space(s[0]) {
        let t = s.drop_first();
        assert forall|j: int| 0 <= j < k - 1 implies !white_space(t[j]) by {}
        lemma_first_space_is(t, k - 1);
    }
}

/// First position at or after `from` that holds white space, or the length
/// of `chars` when there is none.
fn find_space_from(chars: &Vec<char>, from: usize) -> (k: usize)
    requires
        from <= chars.len(),
    ensures
        from <= k <= chars.len(),
        k == from + first_space(chars@.skip(from as int)),
{
    let mut k: usize = from;
    while k < chars.len() && !chars[k].is_whitespace()
        invariant
            from <= k <= chars.len(),
            forall|j: int| from <= j < k ==> !white_space(chars@[j]),
        decreases chars.len() - k,
    {
        k += 1;
    }
    proof {
        lemma_first_space_is(chars@.skip(from as int), k - from);
    }
    k
}

/// Cuts `line` into its words.
pub fn split_words(line: &str) -> (out: Vec<String>)
    ensures
        texts(out@) == words(line@),
{
    let chars = chars_of(line);
    let n = chars.len();
    let mut out: Vec<String> = Vec::new();
    let mut start: usize = 0;
    proof {
        assert(line@.skip(0) =~= line@);
    }
    while start < n
        invariant
            n == chars.len(),
            chars@ == line@,
            start <= n,
            words(line@) == texts(out@) + words(line@.skip(start as int)),
        decreases n - start,
    {
        let end = find_space_from(&chars, start);
        let ghost tail = line@.skip(start as int);
        proof {
            assert(tail.take(end - start) =~= line@.subrange(start as int, end as int));
            if end < n {
                assert(tail.skip(end - start + 1) =~= line@.skip(end + 1));
            }
        }
        if end > start {
            out.push(slice_of(line, start, end));
        }
        if end < n {
            start = end + 1;
        } else {
            start = n;
        }
    }
    out
}

/// Cuts `s` at every occurrence of `c`, and keeps the empty pieces.
pub fn split_fields(s: &str, c: char) -> (out: Vec<String>)
    ensures
        texts(out@) == fields(s@, c),
{
    let chars = chars_of(s);
    let n = chars.len();
    let mut out: Vec<String> = Vec::new();
    let mut start: usize = 0;
    proof {
        assert(s@.skip(0) =~= s@);
    }
    loop
        invariant
            n == chars.len(),
            chars@ == s@,
            start <= n,
            fields(s@, c) == texts(out@) + fields(s@.skip(start as int), c),
        decreases n - start,
    {
        let end = find_from(&chars, start, c);
        let ghost tail = s@.skip(start as int);
        proof {
            assert(tail.take(end - start) =~= s@.subrange(start as int, end as int));
            if end < n {
                assert(tail.skip(end - start + 1) =~= s@.skip(end + 1));
            }
        }
        out.push(slice_of(s, start, end));
        if end < n {
            start = end + 1;
        } else {
            return out;
        }
    }
}

/// The words of `words` from position `from` on, with one space between
/// each two of them.
pub fn join_spaced(words: &Vec<String>, from: usize) -> (out: String)
    requires
        from <= words.len(),
    ensures
        out@ == spaced(texts(words@).skip(from as int)),
{
    let ghost all = texts(words@).skip(from as int);
    let mut out = String::new();
    let mut k: usize = from;
    while k < words.len()
        invariant
            from <= k <= words.len(),
            all == texts(words@).skip(from as int),
            out@ == spaced(all.take(k - from)),
        decreases words.len() - k,
    {
        proof {
            reveal_strlit(" ");
            assert(all.take(k - from + 1).drop_last() =~= all.take(k - from));
        }
        if k > from {
            out.append(" ");
        }
        out.append(words[k].as_str());
        k += 1;
    }
    assert(all.take(k - from) =~= all);
    out
}

/// `s` without any occurrence of `./`, read from the left.
pub fn strip_dot_slash(s: &str) -> (out: String)
    ensures
        out@ == without_dot_slash(s@),
{
    let chars = chars_of(s);
    let n = chars.len();
    let mut out = String::new();
    let mut from: usize = 0;
    let mut i: usize = 0;
    proof {
        assert(s@.skip(0) =~= s@);
    }
    while i < n
        invariant
            n == chars.len(),
            chars@ == s@,
            from <= i <= n,
            without_dot_slash(s@) == out@ + s@.subrange(from as int, i as int)
                + without_dot_slash(s@.skip(i as int)),
        decreases n - i,
    {
        let ghost tail = s@.skip(i as int);
        if i + 1 < n && chars[i] == '.' && chars[i + 1] == '/' {
            proof {
                assert(tail.skip(2) =~= s@.skip(i + 2));
            }
            out.append(slice_of(s, from, i).as_str());
            i += 2;
            from = i;
        } else {
            proof {
                assert(tail.skip(1) =~= s@.skip(i + 1));
            }
            i += 1;
        }
    }
    out.append(slice_of(s, from, n).as_str());
    out
}

/// The value of the digit `c`, if it is one.
pub open spec fn digit_value(c: char) -> Option<nat> {
    if '0' <= c <= '9' {
        Some((c as nat - '0' as nat) as nat)
    } else {
        None
    }
}

/// The number that `digits` write in decimal, if they are digits, and at
/// least one.
pub open spec fn number(digits: Seq<char>) -> Option<nat>
    decreases digits.len(),
{
    if digits.len() == 0 {
        None
    } else if digits.len() == 1 {
        digit_value(digits[0])
    } else {
        match (number(digits.drop_last()), digit_value(digits.last())) {
            (Some(n), Some(d)) => Some(n * 10 + d),
            _ => None,
        }
    }
}

/// What `s` reads as: decimal digits, behind a plus sign or none, that
/// write a number of 32 bits.
pub open spec fn parsed_u32(s: Seq<char>) -> Option<u32> {
    let digits = if s.len() > 0 && s[0] == '+' {
        s.skip(1)
    } else {
        s
    };
    match number(digits) {
        Some(n) => if n <= u32::MAX {
            Some(n as u32)
        } else {
            None
        },
        None => None,
    }
}

/// Where digits write a number, every beginning of them writes a number
/// that is no larger, and every one of them is a digit.
pub proof fn lemma_number_prefix(digits: Seq<char>, k: int)
    requires
        number(digits) is Some,
        1 <= k <= digits.len(),
    ensures
        number(digits.take(k)) is Some,
        number(digits.take(k))->0 <= number(digits)->0,
        digit_value(digits[k - 1]) is Some,
    decreases digits.len(),
{
    if k == digits.len() {
        assert(digits.take(k) =~= digits);
    } else {
        lemma_number_prefix(digits.drop_last(), k);
        assert(digits.drop_last().take(k) =~= digits.take(k));
    }
}

/// Reads `s` as a number of 32 bits.
pub fn parse_u32(s: &str) -> (r: Option<u32>)
    ensures
        r == parsed_u32(s@),
{
    let chars = chars_of(s);
    let n = chars.len();
    let start: usize = if n > 0 && chars[0] == '+' {
        1
    } else {
        0
    };
    let ghost digits = s@.skip(start as int);
    proof {
        assert(s@.skip(0) =~= s@);
    }
    if start == n {
        return None;
    }
    let mut value: u64 = 0;
    let mut k: usize = start;
    while k < n
        invariant
            n == chars.len(),
            chars@ == s@,
            start <= k <= n,
            start < n,
            digits == s@.skip(start as int),
            value <= u32::MAX,
            parsed_u32(s@) == match number(digits) {
                Some(n) => if n <= u32::MAX {
                    Some(n as u32)
                } else {
                    None
                },
                None => None,
            },
            k == start ==> value == 0,
            k > start ==> number(digits.take(k - start)) == Some(value as nat),
        decreases n - k,
    {
        let c = chars[k];
        proof {
            assert(digits.take(k - start + 1).drop_last() =~= digits.take(k - start));
            if number(digits) is Some {
                lemma_number_prefix(digits, k - start + 1);
            }
        }
        if !('0' <= c && c <= '9') {
            return None;
        }
        let d: u64 = (c as u32 - '0' as u32) as u64;
        let next: u64 = value * 10 + d;
        if next > u32::MAX as u64 {
            return None;
        }
        value = next;
        k += 1;
    }
    assert(digits.take(n - start) =~= digits);
    Some(value as u32)
}

} // verus!
