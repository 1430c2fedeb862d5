//! Ordering of dotted-numeric version strings.
//!
//! A version is split at its dots; each segment is read as a decimal number
//! (a segment that is not one counts as zero), and two versions are compared
//! number by number over the positions that both of them have.

use crate::text::{chars_of, lemma_run_len_scan, pieces, run_len};
use vstd::prelude::*;

verus! {

pub open spec fn is_digit(c: char) -> bool {
    '0' <= c && c <= '9'
}

pub open spec fn digit_value(c: char) -> nat {
    (c as u32 - 48) as nat
}

pub open spec fn all_digits(s: Seq<char>) -> bool {
    forall|i: int| 0 <= i < s.len() ==> is_digit(#[trigger] s[i])
}

/// The number that a run of decimal digits denotes.
pub open spec fn decimal_value(s: Seq<char>) -> nat
    decreases s.len(),
{
    if s.len() == 0 {
        0
    } else {
        decimal_value(s.drop_last()) * 10 + digit_value(s.last())
    }
}

/// A segment without the one plus sign that may lead it.
pub open spec fn unsigned_part(s: Seq<char>) -> Seq<char> {
    if s.len() > 0 && s[0] == '+' {
        s.skip(1)
    } else {
        s
    }
}

/// Whether a segment is a decimal number that fits in 32 bits.
pub open spec fn is_number(s: Seq<char>) -> bool {
    let body = unsigned_part(s);
    body.len() > 0 && all_digits(body) && decimal_value(body) <= u32::MAX
}

/// The number a segment stands for: its decimal value, or zero where it is
/// not a number.
pub open spec fn segment_value(s: Seq<char>) -> nat {
    if is_number(s) {
        decimal_value(unsigned_part(s))
    } else {
        0
    }
}

/// The numbers of a version string, one for each of the segments between
/// its dots.
pub open spec fn version_numbers(s: Seq<char>) -> Seq<nat> {
    pieces(s, '.').map_values(|seg: Seq<char>| segment_value(seg))
}

/// Number-by-number comparison over the common length: the first position
/// that differs decides, and without one the result is zero.
pub open spec fn compare_numbers(a: Seq<nat>, b: Seq<nat>) -> int
    decreases a.len(),
{
    if a.len() == 0 || b.len() == 0 {
        0
    } else if a[0] < b[0] {
        -1
    } else if a[0] > b[0] {
        1
    } else {
        compare_numbers(a.drop_first(), b.drop_first())
    }
}

/// What `compare_versions` returns.
pub open spec fn compare_spec(version1: Seq<char>, version2: Seq<char>) -> int {
    compare_numbers(version_numbers(version1), version_numbers(version2))
}

pub proof fn lemma_decimal_value_push(s: Seq<char>, c: char)
    ensures
        decimal_value(s.push(c)) == decimal_value(s) * 10 + digit_value(c),
{
    assert(s.push(c).drop_last() =~= s);
}

pub proof fn lemma_decimal_value_grows(s: Seq<char>, t: Seq<char>)
    requires
        s.is_prefix_of(t),
    ensures
        decimal_value(s) <= decimal_value(t),
    decreases t.len(),
{
    if s.len() < t.len() {
        assert(s.is_prefix_of(t.drop_last()));
        lemma_decimal_value_grows(s, t.drop_last());
    } else {
        assert(s =~= t);
    }
}

/// Whether `k` is the first position at which two number sequences differ.
pub open spec fn first_difference(a: Seq<nat>, b: Seq<nat>, k: int) -> bool {
    &&& 0 <= k < a.len()
    &&& k < b.len()
    &&& a[k] != b[k]
    &&& forall|j: int| 0 <= j < k ==> a[j] == b[j]
}

/// Comparing in the other direction gives the opposite sign.
pub proof fn lemma_compare_numbers_antisymmetric(a: Seq<nat>, b: Seq<nat>)
    ensures
        compare_numbers(a, b) == -compare_numbers(b, a),
        -1 <= compare_numbers(a, b) <= 1,
    decreases a.len(),
{
    if a.len() == 0 || b.len() == 0 {
    } else if a[0] == b[0] {
        lemma_compare_numbers_antisymmetric(a.drop_first(), b.drop_first());
    }
}

/// The comparison is decided by the first position that differs, and is zero
/// exactly where the common positions hold the same numbers.
pub proof fn lemma_compare_numbers_lexicographic(a: Seq<nat>, b: Seq<nat>)
    ensures
        compare_numbers(a, b) == 0 <==> forall|j: int|
            0 <= j < a.len() && j < b.len() ==> a[j] == b[j],
        compare_numbers(a, b) == -1 <==> exists|k: int| first_difference(a, b, k) && a[k] < b[k],
        compare_numbers(a, b) == 1 <==> exists|k: int| first_difference(a, b, k) && a[k] > b[k],
    decreases a.len(),
{
    lemma_compare_numbers_antisymmetric(a, b);
    if a.len() == 0 || b.len() == 0 {
    } else if a[0] != b[0] {
        assert(first_difference(a, b, 0));
        assert forall|k: int| first_difference(a, b, k) implies k == 0 by {
            if k > 0 {
                assert(a[0] == b[0]);
            }
        }
    } else {
        let ta = a.drop_first();
        let tb = b.drop_first();
        lemma_compare_numbers_lexicographic(ta, tb);
        lemma_compare_numbers_antisymmetric(ta, tb);
        assert forall|k: int| first_difference(ta, tb, k) implies first_difference(
            a,
            b,
            k + 1,
        ) by {
            assert forall|j: int| 0 <= j < k + 1 implies a[j] == b[j] by {
                if j > 0 {
                    assert(ta[j - 1] == a[j]);
                    assert(tb[j - 1] == b[j]);
                }
            }
            assert(ta[k] == a[k + 1]);
            assert(tb[k] == b[k + 1]);
        }
        assert forall|k: int| first_difference(a, b, k) implies first_difference(
            ta,
            tb,
            k - 1,
        ) by {
            assert(k > 0);
            assert forall|j: int| 0 <= j < k - 1 implies ta[j] == tb[j] by {
                assert(ta[j] == a[j + 1]);
                assert(tb[j] == b[j + 1]);
            }
        }
        if compare_numbers(a, b) == 0 {
            assert forall|j: int| 0 <= j < a.len() && j < b.len() implies a[j] == b[j] by {
                if j > 0 {
                    assert(ta[j - 1] == a[j]);
                    assert(tb[j - 1] == b[j]);
                }
            }
        }
        if forall|j: int| 0 <= j < a.len() && j < b.len() ==> a[j] == b[j] {
            assert forall|j: int| 0 <= j < ta.len() && j < tb.len() implies ta[j] == tb[j] by {
                assert(ta[j] == a[j + 1]);
                assert(tb[j] == b[j + 1]);
            }
        }
        if compare_numbers(a, b) == -1 {
            let k = choose|k: int| first_difference(ta, tb, k) && ta[k] < tb[k];
            assert(first_difference(a, b, k + 1) && a[k + 1] < b[k + 1]);
        }
        if compare_numbers(a, b) == 1 {
            let k = choose|k: int| first_difference(ta, tb, k) && ta[k] > tb[k];
            assert(first_difference(a, b, k + 1) && a[k + 1] > b[k + 1]);
        }
        if exists|k: int| first_difference(a, b, k) && a[k] < b[k] {
            let k = choose|k: int| first_difference(a, b, k) && a[k] < b[k];
            assert(first_difference(ta, tb, k - 1) && ta[k - 1] < tb[k - 1]);
        }
        if exists|k: int| first_difference(a, b, k) && a[k] > b[k] {
            let k = choose|k: int| first_difference(a, b, k) && a[k] > b[k];
            assert(first_difference(ta, tb, k - 1) && ta[k - 1] > tb[k - 1]);
        }
    }
}

/// Swapping the two versions of a comparison negates its result, and the
/// result is always -1, 0 or 1.
pub proof fn lemma_compare_antisymmetric(version1: Seq<char>, version2: Seq<char>)
    ensures
        compare_spec(version1, version2) == -compare_spec(version2, version1),
        -1 <= compare_spec(version1, version2) <= 1,
{
    lemma_compare_numbers_antisymmetric(version_numbers(version1), version_numbers(version2));
}

/// For two versions with the same number of segments the comparison is the
/// lexicographic order of their numbers: zero exactly where the numbers are
/// the same, and otherwise decided by the first position that differs.
pub proof fn lemma_compare_lexicographic(version1: Seq<char>, version2: Seq<char>)
    requires
        version_numbers(version1).len() == version_numbers(version2).len(),
    ensures
        compare_spec(version1, version2) == 0 <==> version_numbers(version1) == version_numbers(
            version2,
        ),
        compare_spec(version1, version2) == -1 <==> exists|k: int|
            first_difference(version_numbers(version1), version_numbers(version2), k)
                && version_numbers(version1)[k] < version_numbers(version2)[k],
        compare_spec(version1, version2) == 1 <==> exists|k: int|
            first_difference(version_numbers(version1), version_numbers(version2), k)
                && version_numbers(version1)[k] > version_numbers(version2)[k],
{
    let a = version_numbers(version1);
    let b = version_numbers(version2);
    lemma_compare_numbers_lexicographic(a, b);
    if forall|j: int| 0 <= j < a.len() && j < b.len() ==> a[j] == b[j] {
        assert(a =~= b);
    }
}

/// Reads the segment that starts at `start`: returns its number and the
/// index at which it ends (a dot, or the end of the string).
fn read_segment(chars: &Vec<char>, start: usize) -> (r: (u32, usize))
    requires
        start <= chars@.len(),
    ensures
        start <= r.1 <= chars@.len(),
        r.1 - start == run_len(chars@.skip(start as int), '.'),
        r.0 == segment_value(chars@.subrange(start as int, r.1 as int)),
{
    let n = chars.len();
    let mut end: usize = start;
    while end < n && chars[end] != '.'
        invariant
            n == chars@.len(),
            start <= end <= n,
            forall|i: int| start <= i < end ==> #[trigger] chars@[i] != '.',
        decreases n - end,
    {
        end += 1;
    }
    proof {
        lemma_run_len_scan(chars@, '.', start as int, end as int);
    }
    let ghost seg = chars@.subrange(start as int, end as int);
    let mut i: usize = start;
    if i < end && chars[i] == '+' {
        i += 1;
    }
    let body_start = i;
    let ghost body = unsigned_part(seg);
    assert(body =~= chars@.subrange(body_start as int, end as int)) by {
        if start < end {
            assert(seg[0] == chars@[start as int]);
        }
    }
    if i == end {
        return (0, end);
    }
    let mut acc: u32 = 0;
    while i < end
        invariant
            start <= body_start <= i <= end <= chars@.len(),
            end - start == run_len(chars@.skip(start as int), '.'),
            seg == chars@.subrange(start as int, end as int),
            body == unsigned_part(seg),
            body.len() > 0,
            body == chars@.subrange(body_start as int, end as int),
            all_digits(body.take(i - body_start)),
            acc == decimal_value(body.take(i - body_start)),
        decreases end - i,
    {
        let c = chars[i];
        let ghost read = body.take(i - body_start);
        assert(body[i - body_start] == c);
        if !(c >= '0' && c <= '9') {
            assert(!all_digits(body));
            return (0, end);
        }
        let d: u32 = (c as u32) - 48;
        proof {
            assert(body.take(i - body_start + 1) =~= read.push(c));
            lemma_decimal_value_push(read, c);
            lemma_decimal_value_grows(read.push(c), body);
        }
        if acc > (u32::MAX - d) / 10 {
            assert(decimal_value(read.push(c)) > u32::MAX) by (nonlinear_arith)
                requires
                    decimal_value(read.push(c)) == acc * 10 + d,
                    acc > (u32::MAX - d) / 10,
                    0 <= d <= 9,
            ;
            return (0, end);
        }
        acc = acc * 10 + d;
        i += 1;
        assert(all_digits(body.take(i - body_start))) by {
            assert forall|k: int| 0 <= k < i - body_start implies is_digit(
                #[trigger] body.take(i - body_start)[k],
            ) by {
                if k < i - body_start - 1 {
                    assert(body.take(i - body_start)[k] == read[k]);
                }
            }
        }
    }
    assert(body.take(i - body_start) =~= body);
    (acc, end)
}

/// The numbers of a version string.
pub fn version_parts(version: &str) -> (parts: Vec<u32>)
    ensures
        parts@.map_values(|x: u32| x as nat) == version_numbers(version@),
{
    let chars = chars_of(version);
    let mut parts: Vec<u32> = Vec::new();
    let mut start: usize = 0;
    let ghost full = chars@;
    assert(full.skip(0) =~= full);
    assert(parts@.map_values(|x: u32| x as nat) + version_numbers(full) =~= version_numbers(full));
    loop
        invariant_except_break
            version_numbers(full) == parts@.map_values(|x: u32| x as nat) + version_numbers(
                full.skip(start as int),
            ),
        invariant
            full == chars@,
            full == version@,
            start <= full.len(),
        ensures
            parts@.map_values(|x: u32| x as nat) == version_numbers(full),
        decreases full.len() - start,
    {
        let (value, end) = read_segment(&chars, start);
        let ghost rest = full.skip(start as int);
        let ghost before = parts@.map_values(|x: u32| x as nat);
        proof {
            assert(rest.take(end - start) =~= full.subrange(start as int, end as int));
        }
        parts.push(value);
        assert(parts@.map_values(|x: u32| x as nat) =~= before.push(value as nat));
        if end == chars.len() {
            proof {
                assert(rest.take(end - start) =~= rest);
                assert(pieces(rest, '.') =~= seq![rest]);
                assert(version_numbers(rest) =~= seq![value as nat]);
                assert(parts@.map_values(|x: u32| x as nat) =~= version_numbers(full));
            }
            break ;
        }
        proof {
            let k = end - start;
            assert(rest.skip(k + 1) =~= full.skip(end + 1));
            assert(pieces(rest, '.') == seq![rest.take(k)] + pieces(full.skip(end + 1), '.'));
            assert(version_numbers(rest) =~= seq![value as nat] + version_numbers(
                full.skip(end + 1),
            ));
        }
        start = end + 1;
    }
    parts
}

/// Compares two version strings: -1 where the first is older, 1 where it is
/// newer, 0 where no position that both have differs.
pub fn compare_versions(version1: &str, version2: &str) -> (r: i32)
    ensures
        r == compare_spec(version1@, version2@),
{
    let a = version_parts(version1);
    let b = version_parts(version2);
    let ghost na = version_numbers(version1@);
    let ghost nb = version_numbers(version2@);
    let len = if a.len() < b.len() {
        a.len()
    } else {
        b.len()
    };
    let mut i: usize = 0;
    assert(na.skip(0) =~= na);
    assert(nb.skip(0) =~= nb);
    while i < len
        invariant
            na == version_numbers(version1@),
            nb == version_numbers(version2@),
            na.len() == a@.len(),
            nb.len() == b@.len(),
            len <= a@.len(),
            len <= b@.len(),
            len == a@.len() || len == b@.len(),
            i <= len,
            na == a@.map_values(|x: u32| x as nat),
            nb == b@.map_values(|x: u32| x as nat),
            compare_numbers(na, nb) == compare_numbers(na.skip(i as int), nb.skip(i as int)),
        decreases len - i,
    {
        let ghost ra = na.skip(i as int);
        let ghost rb = nb.skip(i as int);
        assert(ra[0] == a@[i as int] as nat);
        assert(rb[0] == b@[i as int] as nat);
        if a[i] < b[i] {
            return -1;
        }
        if a[i] > b[i] {
            return 1;
        }
        assert(ra.drop_first() =~= na.skip(i + 1));
        assert(rb.drop_first() =~= nb.skip(i + 1));
        i += 1;
    }
    assert(na.skip(i as int).len() == 0 || nb.skip(i as int).len() == 0);
    0
}

} // verus!
