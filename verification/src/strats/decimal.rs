//! Reading the gateway's numbers: identifiers as plain digits, amounts and
//! prices as decimal text with up to eight places.
use crate::strats::strat_util::SCALE;
use vstd::prelude::*;
use vstd::string::is_ascii_spec_bytes;
use vstd::string::StrSliceExecFns;
use vstd::utf8::is_ascii_chars;

verus! {

pub open spec fn is_digit(c: char) -> bool {
    '0' <= c <= '9'
}

/// The number that a digit stands for.
pub open spec fn digit_of(c: char) -> int {
    (c as u32) - 48
}

pub open spec fn all_digits(s: Seq<char>) -> bool {
    forall|i: int| 0 <= i < s.len() ==> is_digit(#[trigger] s[i])
}

/// The number that a run of digits stands for.
pub open spec fn digits_value(s: Seq<char>) -> int
    decreases s.len(),
{
    if s.len() == 0 {
        0
    } else {
        digits_value(s.drop_last()) * 10 + digit_of(s.last())
    }
}

/// A run of digits read as a number: `None` where the text is empty, holds
/// anything but digits, or names a number beyond `u64`.
pub open spec fn parsed_u64(s: Seq<char>) -> Option<u64> {
    if s.len() > 0 && all_digits(s) && digits_value(s) <= u64::MAX {
        Some(digits_value(s) as u64)
    } else {
        None
    }
}

/// Position of the first point in the text, or its length without one.
pub open spec fn dot_at(s: Seq<char>) -> int
    decreases s.len(),
{
    if s.len() == 0 || s[0] == '.' {
        0
    } else {
        1 + dot_at(s.skip(1))
    }
}

/// The digits after the point, read place by place: the first digit counts
/// `weight`, the next a tenth of it, and digits beyond the last place are
/// dropped.
pub open spec fn frac_value(f: Seq<char>, weight: int) -> int
    decreases weight,
{
    if weight <= 0 || f.len() == 0 {
        0
    } else {
        digit_of(f[0]) * weight + frac_value(f.skip(1), weight / 10)
    }
}

/// The part of the text behind its first point.
pub open spec fn after_dot(s: Seq<char>) -> Seq<char> {
    if dot_at(s) < s.len() {
        s.skip(dot_at(s) + 1)
    } else {
        Seq::empty()
    }
}

/// Decimal text read as a fixed-point number, in units of 1/SCALE and
/// rounded down: digits, then optionally a point and more digits. `None`
/// where there is no digit before the point, anything but digits on either
/// side of it, or a number beyond `u64`.
pub open spec fn parsed_decimal(s: Seq<char>) -> Option<u64> {
    let whole = s.take(dot_at(s));
    let frac = after_dot(s);
    let value = digits_value(whole) * SCALE + frac_value(frac, 10_000_000);
    if whole.len() > 0 && all_digits(whole) && all_digits(frac) && value <= u64::MAX {
        Some(value as u64)
    } else {
        None
    }
}

proof fn lemma_digits_grow(s: Seq<char>, k: int)
    requires
        all_digits(s),
        0 <= k <= s.len(),
    ensures
        0 <= digits_value(s.take(k)) <= digits_value(s),
    decreases s.len(),
{
    if k == s.len() {
        assert(s.take(k) =~= s);
        if s.len() > 0 {
            assert(s.drop_last() =~= s.take(k - 1));
            lemma_digits_grow(s.drop_last(), k - 1);
            assert(is_digit(s[s.len() - 1]));
        }
    } else {
        assert(s.drop_last().take(k) =~= s.take(k));
        assert forall|i: int| 0 <= i < s.drop_last().len() implies is_digit(
            #[trigger] s.drop_last()[i],
        ) by {
            assert(s.drop_last()[i] == s[i]);
        }
        lemma_digits_grow(s.drop_last(), k);
        lemma_digits_grow(s.drop_last(), s.len() - 1);
        assert(s.drop_last().take(s.len() - 1) =~= s.drop_last());
        assert(is_digit(s[s.len() - 1]));
    }
}

proof fn lemma_dot_at(s: Seq<char>, k: int)
    requires
        0 <= k <= s.len(),
        forall|j: int| 0 <= j < k ==> s[j] != '.',
    ensures
        dot_at(s) >= k,
        dot_at(s) <= s.len(),
        k == s.len() || s[k] == '.' ==> dot_at(s) == k,
    decreases s.len(),
{
    if s.len() > 0 && s[0] != '.' {
        let rest = s.skip(1);
        if k > 0 {
            assert forall|j: int| 0 <= j < k - 1 implies rest[j] != '.' by {
                assert(rest[j] == s[j + 1]);
            }
            lemma_dot_at(rest, k - 1);
        } else {
            lemma_dot_at(rest, 0);
        }
    }
}

proof fn lemma_dot_found(s: Seq<char>)
    ensures
        0 <= dot_at(s) <= s.len(),
        forall|j: int| 0 <= j < dot_at(s) ==> s[j] != '.',
        dot_at(s) < s.len() ==> s[dot_at(s)] == '.',
    decreases s.len(),
{
    if s.len() > 0 && s[0] != '.' {
        let rest = s.skip(1);
        lemma_dot_found(rest);
        assert forall|j: int| 0 <= j < dot_at(s) implies s[j] != '.' by {
            if j > 0 {
                assert(rest[j - 1] == s[j]);
            }
        }
        if dot_at(s) < s.len() {
            assert(rest[dot_at(rest)] == s[dot_at(s)]);
        }
    }
}

proof fn lemma_frac_bounds(f: Seq<char>, weight: int)
    requires
        all_digits(f),
        0 <= weight,
    ensures
        0 <= frac_value(f, weight) <= 10 * weight,
    decreases weight,
{
    if weight > 0 && f.len() > 0 {
        assert(is_digit(f[0]));
        assert forall|i: int| 0 <= i < f.skip(1).len() implies is_digit(#[trigger] f.skip(1)[i]) by {
            assert(f.skip(1)[i] == f[i + 1]);
        }
        lemma_frac_bounds(f.skip(1), weight / 10);
        assert(digit_of(f[0]) * weight <= 9 * weight) by (nonlinear_arith)
            requires
                0 <= digit_of(f[0]) <= 9,
                weight >= 0,
        ;
        assert(0 <= digit_of(f[0]) * weight) by (nonlinear_arith)
            requires
                0 <= digit_of(f[0]) <= 9,
                weight >= 0,
        ;
    }
}

/// Reads a run of digits as a number.
pub fn parse_u64(s: &str) -> (r: Option<u64>)
    ensures
        r == parsed_u64(s@),
{
    broadcast use is_ascii_spec_bytes;

    if !s.is_ascii() {
        return None;
    }
    let b = s.as_bytes();
    let n: usize = b.len();
    if n == 0 {
        return None;
    }
    let mut acc: u64 = 0;
    let mut i: usize = 0;
    while i < n
        invariant
            i <= n,
            n == s@.len(),
            b@.len() == n,
            is_ascii_chars(s@),
            forall|j: int| 0 <= j < n ==> b@[j] == s@[j] as u8,
            all_digits(s@.take(i as int)),
            acc == digits_value(s@.take(i as int)),
        decreases n - i,
    {
        let c: u8 = b[i];
        assert(c == s@[i as int] as u8);
        if c < 48 || c > 57 {
            assert(!is_digit(s@[i as int]));
            return None;
        }
        let d: u64 = (c - 48) as u64;
        assert(is_digit(s@[i as int]) && d == digit_of(s@[i as int]));
        proof {
            assert(s@.take(i + 1).drop_last() =~= s@.take(i as int));
            assert(s@.take(i + 1).last() == s@[i as int]);
        }
        if acc > (u64::MAX - d) / 10 {
            proof {
                if all_digits(s@) {
                    lemma_digits_grow(s@, i + 1);
                }
            }
            return None;
        }
        acc = acc * 10 + d;
        i = i + 1;
    }
    assert(s@.take(n as int) =~= s@);
    Some(acc)
}

/// Reads decimal text as a fixed-point number in units of 1/SCALE.
pub fn parse_decimal(s: &str) -> (r: Option<u64>)
    ensures
        r == parsed_decimal(s@),
{
    broadcast use is_ascii_spec_bytes;

    if !s.is_ascii() {
        proof {
            lemma_dot_found(s@);
            let k = choose|k: int| 0 <= k < s@.len() && !('\0' <= #[trigger] s@[k] <= '\u{7f}');
            let d = dot_at(s@);
            if k < d {
                assert(s@.take(d)[k] == s@[k]);
            } else if k > d {
                assert(after_dot(s@)[k - d - 1] == s@[k]);
            }
        }
        return None;
    }
    let b = s.as_bytes();
    let n: usize = b.len();
    let mut whole: u64 = 0;
    let mut i: usize = 0;
    while i < n && b[i] != 46
        invariant
            i <= n,
            n == s@.len(),
            b@.len() == n,
            is_ascii_chars(s@),
            forall|j: int| 0 <= j < n ==> b@[j] == s@[j] as u8,
            forall|j: int| 0 <= j < i ==> s@[j] != '.',
            all_digits(s@.take(i as int)),
            whole == digits_value(s@.take(i as int)),
        decreases n - i,
    {
        let c: u8 = b[i];
        assert(c == s@[i as int] as u8);
        assert(s@[i as int] != '.');
        proof {
            lemma_dot_at(s@, i + 1);
            assert(s@.take(dot_at(s@))[i as int] == s@[i as int]);
        }
        if c < 48 || c > 57 {
            assert(!is_digit(s@[i as int]));
            return None;
        }
        let d: u64 = (c - 48) as u64;
        assert(is_digit(s@[i as int]) && d == digit_of(s@[i as int]));
        proof {
            assert(s@.take(i + 1).drop_last() =~= s@.take(i as int));
            assert(s@.take(i + 1).last() == s@[i as int]);
        }
        if whole > (u64::MAX - d) / 10 {
            proof {
                let w = s@.take(dot_at(s@));
                if all_digits(w) && all_digits(after_dot(s@)) {
                    lemma_digits_grow(w, i + 1);
                    assert(w.take(i + 1) =~= s@.take(i + 1));
                    lemma_frac_bounds(after_dot(s@), 10_000_000);
                    assert(digits_value(w) * SCALE >= digits_value(w)) by (nonlinear_arith)
                        requires
                            digits_value(w) >= 0,
                            SCALE == 100_000_000,
                    ;
                }
            }
            return None;
        }
        whole = whole * 10 + d;
        i = i + 1;
    }
    proof {
        assert(i < n ==> s@[i as int] == '.');
        lemma_dot_at(s@, i as int);
    }
    if i == 0 {
        return None;
    }
    let ghost frac = after_dot(s@);
    let start: usize = if i < n {
        i + 1
    } else {
        n
    };
    assert(frac =~= s@.skip(start as int));
    assert(frac.skip(0) =~= frac);
    let mut acc: u64 = 0;
    let mut weight: u64 = 10_000_000;
    let mut k: usize = start;
    while k < n
        invariant
            start <= k <= n,
            n == s@.len(),
            b@.len() == n,
            is_ascii_chars(s@),
            forall|j: int| 0 <= j < n ==> b@[j] == s@[j] as u8,
            frac == s@.skip(start as int),
            frac == after_dot(s@),
            all_digits(frac.take(k - start)),
            acc + frac_value(frac.skip(k - start), weight as int) == frac_value(frac, 10_000_000),
            acc + 10 * weight <= 100_000_000,
        decreases n - k,
    {
        let c: u8 = b[k];
        assert(c == s@[k as int] as u8);
        assert(frac[k - start] == s@[k as int]);
        if c < 48 || c > 57 {
            assert(!is_digit(frac[k - start]));
            return None;
        }
        let d: u64 = (c - 48) as u64;
        assert(is_digit(s@[k as int]) && d == digit_of(s@[k as int]));
        proof {
            let rest = frac.skip(k - start);
            assert(rest[0] == s@[k as int]);
            assert(rest.skip(1) =~= frac.skip(k + 1 - start));
            assert forall|j: int| 0 <= j < frac.take(k + 1 - start).len() implies is_digit(
                #[trigger] frac.take(k + 1 - start)[j],
            ) by {
                if j < k - start {
                    assert(frac.take(k - start)[j] == frac[j]);
                }
            }
        }
        if weight > 0 {
            assert(d * weight <= 9 * weight) by (nonlinear_arith)
                requires
                    d <= 9,
            ;
            acc = acc + d * weight;
            weight = weight / 10;
        }
        k = k + 1;
    }
    proof {
        assert(frac.take(n - start) =~= frac);
        assert(frac.skip(n - start).len() == 0);
    }
    if whole > (u64::MAX - acc) / SCALE {
        assert(whole * SCALE + acc > u64::MAX) by (nonlinear_arith)
            requires
                whole > (u64::MAX - acc) / (SCALE as int),
                SCALE == 100_000_000,
                acc <= u64::MAX,
        ;
        return None;
    }
    assert(whole * SCALE + acc <= u64::MAX) by (nonlinear_arith)
        requires
            whole <= (u64::MAX - acc) / (SCALE as int),
            SCALE == 100_000_000,
            acc <= u64::MAX,
    ;
    Some(whole * SCALE + acc)
}

/// Whether two texts are the same.
pub fn same_text(a: &str, b: &str) -> (same: bool)
    ensures
        same == (a@ == b@),
{
    let n: usize = a.unicode_len();
    if n != b.unicode_len() {
        return false;
    }
    let mut i: usize = 0;
    while i < n
        invariant
            i <= n,
            n == a@.len(),
            n == b@.len(),
            forall|j: int| 0 <= j < i ==> a@[j] == b@[j],
        decreases n - i,
    {
        if a.get_char(i) != b.get_char(i) {
            return false;
        }
        i = i + 1;
    }
    assert(a@ =~= b@);
    true
}

} // verus!
