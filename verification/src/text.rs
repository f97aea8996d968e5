//! Character-level helpers shared by the path grammar and the command layer.

use vstd::prelude::*;

verus! {

/// `str`'s equality of the standard library compares the two slices
/// character by character; the contract states exactly that over the views.
pub assume_specification[ <str as PartialEq>::eq ](a: &str, b: &str) -> (r: bool)
    ensures
        r == (a@ == b@),
;

/// Position of the first occurrence of `c` in `s`, or `s.len()` when `c`
/// does not occur.
pub open spec fn index_of<T>(s: Seq<T>, c: T) -> nat
    decreases s.len(),
{
    if s.len() == 0 {
        0
    } else if s[0] == c {
        0
    } else {
        1 + index_of(s.drop_first(), c)
    }
}

/// Position of the last occurrence of `c` in `s`, or `-1` when `c` does not
/// occur.
pub open spec fn last_index_of<T>(s: Seq<T>, c: T) -> int
    decreases s.len(),
{
    if s.len() == 0 {
        -1
    } else if s.last() == c {
        s.len() - 1
    } else {
        last_index_of(s.drop_last(), c)
    }
}

/// `index_of` is within bounds, skips only elements other than `c`, and
/// stops on `c`.
pub proof fn lemma_index_of<T>(s: Seq<T>, c: T)
    ensures
        index_of(s, c) <= s.len(),
        forall|j: int| 0 <= j < index_of(s, c) ==> s[j] != c,
        index_of(s, c) < s.len() ==> s[index_of(s, c) as int] == c,
    decreases s.len(),
{
    if s.len() > 0 && s[0] != c {
        let t = s.drop_first();
        lemma_index_of(t, c);
        assert forall|j: int| 0 <= j < index_of(s, c) implies s[j] != c by {
            if j > 0 {
                assert(s[j] == t[j - 1]);
            }
        }
    }
}

/// Any position that is preceded only by elements other than `c`, and that
/// either holds `c` or is the end of `s`, is `index_of(s, c)`.
pub proof fn lemma_index_of_is<T>(s: Seq<T>, c: T, k: int)
    requires
        0 <= k <= s.len(),
        forall|j: int| 0 <= j < k ==> s[j] != c,
        k < s.len() ==> s[k] == c,
    ensures
        index_of(s, c) == k,
    decreases s.len(),
{
    if s.len() > 0 && s[0] != c {
        let t = s.drop_first();
        assert forall|j: int| 0 <= j < k - 1 implies t[j] != c by {}
        lemma_index_of_is(t, c, k - 1);
    }
}

/// `last_index_of` is within bounds, is followed only by elements other
/// than `c`, and stops on `c`.
pub proof fn lemma_last_index_of<T>(s: Seq<T>, c: T)
    ensures
        -1 <= last_index_of(s, c) < s.len(),
        forall|j: int| last_index_of(s, c) < j < s.len() ==> s[j] != c,
        last_index_of(s, c) >= 0 ==> s[last_index_of(s, c)] == c,
    decreases s.len(),
{
    if s.len() > 0 && s.last() != c {
        let t = s.drop_last();
        lemma_last_index_of(t, c);
        assert forall|j: int| last_index_of(s, c) < j < s.len() implies s[j] != c by {
            if j < s.len() - 1 {
                assert(s[j] == t[j]);
            }
        }
    }
}

/// Any position that is followed only by elements other than `c`, and that
/// either holds `c` or is `-1`, is `last_index_of(s, c)`.
pub proof fn lemma_last_index_of_is<T>(s: Seq<T>, c: T, k: int)
    requires
        -1 <= k < s.len(),
        forall|j: int| k < j < s.len() ==> s[j] != c,
        k >= 0 ==> s[k] == c,
    ensures
        last_index_of(s, c) == k,
    decreases s.len(),
{
    if s.len() > 0 && s.last() != c {
        let t = s.drop_last();
        assert forall|j: int| k < j < t.len() implies t[j] != c by {}
        lemma_last_index_of_is(t, c, k);
    }
}

/// The characters of `s`, in order.
pub fn chars_of(s: &str) -> (v: Vec<char>)
    ensures
        v@ == s@,
{
    let mut v: Vec<char> = Vec::new();
    for c in it: s.chars()
        invariant
            it.seq() == s@,
            v@ == s@.take(it.index() as int),
    {
        v.push(c);
    }
    v
}

/// The characters of `s` from position `from` up to, not including, `to`,
/// as a string of their own.
pub fn slice_of(s: &str, from: usize, to: usize) -> (r: String)
    requires
        from <= to <= s@.len(),
    ensures
        r@ == s@.subrange(from as int, to as int),
{
    s.substring_char(from, to).to_owned()
}

/// First position at or after `from` that holds `c`, or the length of
/// `chars` when there is none.
pub fn find_from(chars: &Vec<char>, from: usize, c: char) -> (k: usize)
    requires
        from <= chars.len(),
    ensures
        from <= k <= chars.len(),
        k == from + index_of(chars@.skip(from as int), c),
{
    let mut k: usize = from;
    while k < chars.len() && chars[k] != c
        invariant
            from <= k <= chars.len(),
            forall|j: int| from <= j < k ==> chars@[j] != c,
        decreases chars.len() - k,
    {
        k += 1;
    }
    proof {
        lemma_index_of_is(chars@.skip(from as int), c, k - from);
    }
    k
}

/// Last position that holds `c`, if there is one.
pub fn find_last(chars: &Vec<char>, c: char) -> (r: Option<usize>)
    ensures
        match r {
            Some(k) => k < chars.len() && k == last_index_of(chars@, c),
            None => last_index_of(chars@, c) == -1,
        },
{
    let mut k: usize = chars.len();
    while k > 0 && chars[k - 1] != c
        invariant
            k <= chars.len(),
            forall|j: int| k <= j < chars.len() ==> chars@[j] != c,
        decreases k,
    {
        k -= 1;
    }
    proof {
        lemma_last_index_of_is(chars@, c, k - 1);
    }
    if k == 0 {
        None
    } else {
        Some(k - 1)
    }
}

/// The character that writes the digit `d`.
pub open spec fn digit(d: nat) -> char
    recommends
        d < 10,
{
    (('0' as u8) + d) as char
}

/// `n` in decimal digits, without leading zeros.
pub open spec fn decimal(n: nat) -> Seq<char>
    decreases n,
{
    if n < 10 {
        seq![digit(n)]
    } else {
        decimal(n / 10).push(digit(n % 10))
    }
}

/// The string that writes the digit `d`.
fn digit_text(d: u32) -> (r: &'static str)
    requires
        d < 10,
    ensures
        r@ == seq![digit(d as nat)],
{
    proof {
        reveal_strlit("0");
        reveal_strlit("1");
        reveal_strlit("2");
        reveal_strlit("3");
        reveal_strlit("4");
        reveal_strlit("5");
        reveal_strlit("6");
        reveal_strlit("7");
        reveal_strlit("8");
        reveal_strlit("9");
    }
    let r = match d {
        0 => "0",
        1 => "1",
        2 => "2",
        3 => "3",
        4 => "4",
        5 => "5",
        6 => "6",
        7 => "7",
        8 => "8",
        _ => "9",
    };
    r
}

/// Writes `n` in decimal digits behind what `out` holds.
pub fn push_decimal(out: &mut String, n: u32)
    ensures
        final(out)@ == old(out)@ + decimal(n as nat),
    decreases n,
{
    if n >= 10 {
        push_decimal(out, n / 10);
    }
    out.append(digit_text(n % 10));
}

} // verus!
