//! Small helpers for working with strings as sequences of characters.

use crate::version::{
    all_digits, decimal_value, is_digit, lemma_decimal_value_grows, lemma_decimal_value_push,
};
use vstd::prelude::*;
use vstd::std_specs::iter::IteratorSpec;
use vstd::utf8::encode_utf8_decode_utf8;

verus! {

/// Copies the characters of a string slice into a vector.
pub fn chars_of(s: &str) -> (out: Vec<char>)
    ensures
        out@ == s@,
{
    let mut out: Vec<char> = Vec::new();
    let mut it = s.chars();
    let ghost full = s@;
    loop
        invariant
            it.obeys_prophetic_iter_laws(),
            it.decrease() is Some,
            full == out@ + it.remaining(),
        ensures
            out@ == full,
        decreases it.decrease()->0,
    {
        match it.next() {
            Some(c) => {
                out.push(c);
            },
            None => {
                break ;
            },
        }
    }
    out
}

/// Whether two string slices hold the same characters.
pub fn str_eq(a: &str, b: &str) -> (same: bool)
    ensures
        same == (a@ == b@),
{
    let x = a.as_bytes();
    let y = b.as_bytes();
    proof {
        encode_utf8_decode_utf8(a@);
        encode_utf8_decode_utf8(b@);
    }
    if x.len() != y.len() {
        return false;
    }
    let mut i: usize = 0;
    while i < x.len()
        invariant
            x@ == vstd::utf8::encode_utf8(a@),
            y@ == vstd::utf8::encode_utf8(b@),
            x@.len() == y@.len(),
            0 <= i <= x@.len(),
            forall|k: int| 0 <= k < i ==> x@[k] == y@[k],
        decreases x@.len() - i,
    {
        if x[i] != y[i] {
            return false;
        }
        i += 1;
    }
    assert(x@ =~= y@);
    true
}


/// The decimal digits of a number, as ASCII bytes, without leading zeros.
pub open spec fn decimal_digits(n: nat) -> Seq<u8>
    decreases n,
{
    if n < 10 {
        seq![(48 + n) as u8]
    } else {
        decimal_digits(n / 10).push((48 + n % 10) as u8)
    }
}

/// Appends the decimal digits of `n` to `out`.
pub fn push_decimal(out: &mut Vec<u8>, n: u64)
    ensures
        final(out)@ == old(out)@ + decimal_digits(n as nat),
    decreases n,
{
    if n >= 10 {
        push_decimal(out, n / 10);
    }
    let digit: u8 = 48 + (n % 10) as u8;
    out.push(digit);
    assert(out@ =~= old(out)@ + decimal_digits(n as nat));
}


/// `String::push`: appends one character.
#[verifier::external_body]
pub(crate) fn push_char(s: &mut String, c: char)
    ensures
        final(s)@ == old(s)@.push(c),
{
    s.push(c)
}

/// The string of the first `n` characters of `s`, or all of `s` where it is
/// shorter.
pub fn take_chars(s: &str, n: usize) -> (out: String)
    ensures
        out@ == if s@.len() <= n {
            s@
        } else {
            s@.take(n as int)
        },
{
    let chars = chars_of(s);
    let mut out = String::new();
    let mut i: usize = 0;
    while i < chars.len() && i < n
        invariant
            i <= chars@.len(),
            i <= n,
            out@ == chars@.take(i as int),
        decreases chars@.len() - i,
    {
        push_char(&mut out, chars[i]);
        assert(chars@.take(i + 1) =~= chars@.take(i as int).push(chars@[i as int]));
        i += 1;
    }
    assert(chars@.take(chars@.len() as int) =~= chars@);
    out
}

/// A string with every `from` replaced by `to`.
pub open spec fn replaced(s: Seq<char>, from: char, to: char) -> Seq<char> {
    s.map_values(
        |c: char|
            if c == from {
                to
            } else {
                c
            },
    )
}

/// Replaces every character `from` in `s` by `to`.
pub fn replace_char(s: &str, from: char, to: char) -> (out: String)
    ensures
        out@ == replaced(s@, from, to),
{
    let chars = chars_of(s);
    let mut out = String::new();
    let mut i: usize = 0;
    while i < chars.len()
        invariant
            i <= chars@.len(),
            out@ == replaced(chars@.take(i as int), from, to),
        decreases chars@.len() - i,
    {
        let c = chars[i];
        push_char(
            &mut out,
            if c == from {
                to
            } else {
                c
            },
        );
        assert(replaced(chars@.take(i + 1), from, to) =~= replaced(chars@.take(i as int), from, to).push(
            if c == from {
                to
            } else {
                c
            },
        ));
        i += 1;
    }
    assert(chars@.take(chars@.len() as int) =~= chars@);
    out
}

/// Whether a string has no characters.
pub fn is_blank(s: &str) -> (empty: bool)
    ensures
        empty == (s@.len() == 0),
{
    s.is_empty()
}


/// `core::str::from_utf8`: the string that the bytes encode, where they are
/// UTF-8, and nothing where they are not.
#[verifier::external_body]
pub(crate) fn utf8_text(data: &[u8]) -> (text: Option<&str>)
    ensures
        match text {
            Some(s) => vstd::utf8::valid_utf8(data@) && vstd::utf8::encode_utf8(s@) == data@,
            None => !vstd::utf8::valid_utf8(data@),
        },
{
    core::str::from_utf8(data).ok()
}

/// The text that a byte string encodes, where it is UTF-8.
pub fn decode_text(data: &[u8]) -> (text: Option<&str>)
    ensures
        match text {
            Some(s) => vstd::utf8::valid_utf8(data@) && s@ == vstd::utf8::decode_utf8(data@),
            None => !vstd::utf8::valid_utf8(data@),
        },
{
    let text = utf8_text(data);
    proof {
        if let Some(s) = text {
            encode_utf8_decode_utf8(s@);
        }
    }
    text
}

/// The characters of an optional string.
pub open spec fn optional_text(text: Option<String>) -> Option<Seq<char>> {
    match text {
        Some(t) => Some(t@),
        None => None,
    }
}


/// The character of a decimal digit.
pub open spec fn digit_char(d: nat) -> char {
    if d == 0 {
        '0'
    } else if d == 1 {
        '1'
    } else if d == 2 {
        '2'
    } else if d == 3 {
        '3'
    } else if d == 4 {
        '4'
    } else if d == 5 {
        '5'
    } else if d == 6 {
        '6'
    } else if d == 7 {
        '7'
    } else if d == 8 {
        '8'
    } else {
        '9'
    }
}

/// The decimal digits of a number, as characters, without leading zeros.
pub open spec fn decimal_text(n: nat) -> Seq<char>
    decreases n,
{
    if n < 10 {
        seq![digit_char(n)]
    } else {
        decimal_text(n / 10).push(digit_char(n % 10))
    }
}

fn digit_to_char(d: u64) -> (c: char)
    requires
        d < 10,
    ensures
        c == digit_char(d as nat),
{
    if d == 0 {
        '0'
    } else if d == 1 {
        '1'
    } else if d == 2 {
        '2'
    } else if d == 3 {
        '3'
    } else if d == 4 {
        '4'
    } else if d == 5 {
        '5'
    } else if d == 6 {
        '6'
    } else if d == 7 {
        '7'
    } else if d == 8 {
        '8'
    } else {
        '9'
    }
}

/// Appends the decimal digits of `n` to `out`.
pub fn push_decimal_text(out: &mut String, n: u64)
    ensures
        final(out)@ == old(out)@ + decimal_text(n as nat),
    decreases n,
{
    if n >= 10 {
        push_decimal_text(out, n / 10);
    }
    push_char(out, digit_to_char(n % 10));
    assert(out@ =~= old(out)@ + decimal_text(n as nat));
}


/// The number that a text denotes: it must be a run of decimal digits, at
/// least one, whose value fits in 64 bits.
pub open spec fn unsigned_number(text: Seq<char>) -> Option<u64> {
    if text.len() > 0 && all_digits(text) && decimal_value(text) <= u64::MAX {
        Some(decimal_value(text) as u64)
    } else {
        None
    }
}

/// Reads a decimal number.
pub fn parse_u64(text: &str) -> (n: Option<u64>)
    ensures
        n == unsigned_number(text@),
{
    let chars = chars_of(text);
    if chars.len() == 0 {
        return None;
    }
    let ghost all = chars@;
    let mut acc: u64 = 0;
    let mut i: usize = 0;
    assert(decimal_value(all.take(0)) == 0);
    while i < chars.len()
        invariant
            i <= chars@.len(),
            all == chars@,
            all == text@,
            all.len() > 0,
            all_digits(all.take(i as int)),
            acc == decimal_value(all.take(i as int)),
        decreases chars@.len() - i,
    {
        let c = chars[i];
        let ghost read = all.take(i as int);
        if !(c >= '0' && c <= '9') {
            assert(!is_digit(all[i as int]));
            return None;
        }
        let d: u64 = ((c as u32) - 48) as u64;
        proof {
            assert(all.take(i + 1) =~= read.push(c));
            lemma_decimal_value_push(read, c);
            lemma_decimal_value_grows(read.push(c), all);
        }
        if acc > (u64::MAX - d) / 10 {
            assert(decimal_value(read.push(c)) > u64::MAX) by (nonlinear_arith)
                requires
                    decimal_value(read.push(c)) == acc * 10 + d,
                    acc > (u64::MAX - d) / 10,
                    0 <= d <= 9,
            ;
            return None;
        }
        acc = acc * 10 + d;
        i += 1;
        assert(all_digits(all.take(i as int))) by {
            assert forall|k: int| 0 <= k < i implies is_digit(#[trigger] all.take(i as int)[k]) by {
                if k < i - 1 {
                    assert(all.take(i as int)[k] == read[k]);
                }
            }
        }
    }
    assert(all.take(i as int) =~= all);
    Some(acc)
}


/// How many characters stand before the first `sep`.
pub open spec fn run_len(s: Seq<char>, sep: char) -> nat
    decreases s.len(),
{
    if s.len() == 0 || s[0] == sep {
        0
    } else {
        1 + run_len(s.drop_first(), sep)
    }
}

/// The pieces between the occurrences of `sep`; there is one more of them
/// than occurrences.
pub open spec fn pieces(s: Seq<char>, sep: char) -> Seq<Seq<char>>
    decreases s.len(),
{
    let k = run_len(s, sep) as int;
    if k < s.len() {
        seq![s.take(k)] + pieces(s.skip(k + 1), sep)
    } else {
        seq![s]
    }
}

/// The first `sep` at or after `from` is where the run that begins at `from`
/// ends.
pub proof fn lemma_run_len_scan(s: Seq<char>, sep: char, from: int, at: int)
    requires
        0 <= from <= at <= s.len(),
        forall|i: int| from <= i < at ==> #[trigger] s[i] != sep,
        at == s.len() || s[at] == sep,
    ensures
        run_len(s.skip(from), sep) == at - from,
    decreases at - from,
{
    let t = s.skip(from);
    if from == at {
        if at < s.len() {
            assert(t[0] == s[at]);
        }
    } else {
        assert(t[0] == s[from]);
        assert(t.drop_first() =~= s.skip(from + 1));
        lemma_run_len_scan(s, sep, from + 1, at);
    }
}

/// The characters of a list of strings.
pub open spec fn texts_view(texts: Seq<String>) -> Seq<Seq<char>> {
    texts.map_values(|t: String| t@)
}

/// Splits a text at every `sep`.
pub fn split_chars(text: &str, sep: char) -> (parts: Vec<String>)
    ensures
        texts_view(parts@) == pieces(text@, sep),
{
    let chars = chars_of(text);
    let ghost full = chars@;
    let n = chars.len();
    let mut parts: Vec<String> = Vec::new();
    let mut start: usize = 0;
    assert(full.skip(0) =~= full);
    assert(texts_view(parts@) + pieces(full, sep) =~= pieces(full, sep));
    loop
        invariant_except_break
            pieces(full, sep) == texts_view(parts@) + pieces(full.skip(start as int), sep),
        invariant
            full == chars@,
            full == text@,
            n == full.len(),
            start <= n,
        ensures
            texts_view(parts@) == pieces(full, sep),
        decreases n - start,
    {
        let mut piece = String::new();
        let mut end: usize = start;
        while end < n && chars[end] != sep
            invariant
                n == chars@.len(),
                full == chars@,
                start <= end <= n,
                piece@ == full.subrange(start as int, end as int),
                forall|i: int| start <= i < end ==> #[trigger] full[i] != sep,
            decreases n - end,
        {
            push_char(&mut piece, chars[end]);
            assert(full.subrange(start as int, end + 1) =~= full.subrange(
                start as int,
                end as int,
            ).push(full[end as int]));
            end += 1;
        }
        let ghost rest = full.skip(start as int);
        let ghost before = texts_view(parts@);
        proof {
            lemma_run_len_scan(full, sep, start as int, end as int);
            assert(rest.take(end - start) =~= full.subrange(start as int, end as int));
        }
        parts.push(piece);
        assert(texts_view(parts@) =~= before.push(piece@));
        if end == n {
            proof {
                assert(rest.take(end - start) =~= rest);
                assert(pieces(rest, sep) =~= seq![rest]);
                assert(texts_view(parts@) =~= pieces(full, sep));
            }
            break ;
        }
        proof {
            let k = end - start;
            assert(rest.skip(k + 1) =~= full.skip(end + 1));
            assert(pieces(rest, sep) == seq![rest.take(k)] + pieces(full.skip(end + 1), sep));
            assert(pieces(full, sep) =~= texts_view(parts@) + pieces(full.skip(end + 1), sep));
        }
        start = end + 1;
    }
    parts
}


/// Whether a text ends with another.
pub open spec fn has_suffix(s: Seq<char>, suffix: Seq<char>) -> bool {
    s.len() >= suffix.len() && s.skip(s.len() - suffix.len()) == suffix
}

/// Whether `s` ends with `suffix`.
pub fn ends_with(s: &str, suffix: &str) -> (yes: bool)
    ensures
        yes == has_suffix(s@, suffix@),
{
    let a = chars_of(s);
    let b = chars_of(suffix);
    if a.len() < b.len() {
        return false;
    }
    let offset = a.len() - b.len();
    let ghost tail = a@.skip(offset as int);
    let mut i: usize = 0;
    while i < b.len()
        invariant
            i <= b@.len(),
            a@ == s@,
            b@ == suffix@,
            offset == a@.len() - b@.len(),
            a@.len() <= usize::MAX,
            tail == a@.skip(offset as int),
            forall|k: int| 0 <= k < i ==> tail[k] == b@[k],
        decreases b@.len() - i,
    {
        assert(tail[i as int] == a@[offset + i]);
        if a[offset + i] != b[i] {
            return false;
        }
        i += 1;
    }
    assert(tail =~= b@);
    true
}


/// The value of the first pair of a list that is called `key`.
pub open spec fn first_value<V>(pairs: Seq<(Seq<char>, V)>, key: Seq<char>) -> Option<V>
    decreases pairs.len(),
{
    if pairs.len() == 0 {
        None
    } else if pairs[0].0 == key {
        Some(pairs[0].1)
    } else {
        first_value(pairs.drop_first(), key)
    }
}

/// What is found under `key` is the value of the pair at `at`, where that
/// is the first pair called `key`, and nothing where `at` is the end of a
/// list without such a pair.
pub proof fn lemma_first_value<V>(pairs: Seq<(Seq<char>, V)>, key: Seq<char>, at: int)
    requires
        0 <= at <= pairs.len(),
        forall|j: int| 0 <= j < at ==> (#[trigger] pairs[j]).0 != key,
        at < pairs.len() ==> pairs[at].0 == key,
    ensures
        first_value(pairs, key) == if at < pairs.len() {
            Some(pairs[at].1)
        } else {
            None
        },
    decreases at,
{
    if at > 0 {
        let rest = pairs.drop_first();
        assert(pairs[0].0 != key);
        assert forall|j: int| 0 <= j < at - 1 implies (#[trigger] rest[j]).0 != key by {
            assert(rest[j] == pairs[j + 1]);
        }
        if at < pairs.len() {
            assert(rest[at - 1] == pairs[at]);
        }
        lemma_first_value(rest, key, at - 1);
    }
}

/// Where the first pair called `key` stands in a list.
pub fn position_of<V>(pairs: &Vec<(String, V)>, key: &str) -> (at: Option<usize>)
    ensures
        match at {
            Some(i) => i < pairs@.len() && pairs@[i as int].0@ == key@ && forall|j: int|
                0 <= j < i ==> (#[trigger] pairs@[j]).0@ != key@,
            None => forall|j: int| 0 <= j < pairs@.len() ==> (#[trigger] pairs@[j]).0@ != key@,
        },
{
    let mut i: usize = 0;
    while i < pairs.len()
        invariant
            i <= pairs@.len(),
            forall|j: int| 0 <= j < i ==> (#[trigger] pairs@[j]).0@ != key@,
        decreases pairs@.len() - i,
    {
        if str_eq(pairs[i].0.as_str(), key) {
            return Some(i);
        }
        i += 1;
    }
    None
}

} // verus!
