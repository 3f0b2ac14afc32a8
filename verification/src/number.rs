//! Decimal integers as `str::parse` reads them for `u64` and `i32`.

use vstd::prelude::*;

verus! {

/// `c` is one of the ASCII digits `0` to `9`.
pub open spec fn is_digit(c: char) -> bool {
    '0' <= c <= '9'
}

/// The value of the digit `c`.
pub open spec fn digit_value(c: char) -> int {
    (c as u32) - ('0' as u32)
}

/// Every character of `s` is a digit.
pub open spec fn all_digits(s: Seq<char>) -> bool {
    forall|i: int| 0 <= i < s.len() ==> is_digit(#[trigger] s[i])
}

/// The number that the digits of `s` spell in base ten.
pub open spec fn decimal(s: Seq<char>) -> int
    decreases s.len(),
{
    if s.len() == 0 {
        0
    } else {
        decimal(s.drop_last()) * 10 + digit_value(s.last())
    }
}

/// The value of a nonempty run of digits, if `s` is one.
pub open spec fn magnitude(s: Seq<char>) -> Option<int> {
    if s.len() > 0 && all_digits(s) {
        Some(decimal(s))
    } else {
        None
    }
}

/// What `s.parse::<u64>()` returns: an optional `+` and then digits whose
/// value fits in a `u64`.
pub open spec fn spec_parse_u64(s: Seq<char>) -> Option<u64> {
    let body = if s.len() > 0 && s[0] == '+' {
        s.drop_first()
    } else {
        s
    };
    match magnitude(body) {
        Some(v) => if v <= u64::MAX {
            Some(v as u64)
        } else {
            None
        },
        None => None,
    }
}

/// What `s.parse::<i32>()` returns: an optional sign and then digits whose
/// signed value fits in an `i32`.
pub open spec fn spec_parse_i32(s: Seq<char>) -> Option<i32> {
    if s.len() > 0 && s[0] == '-' {
        match magnitude(s.drop_first()) {
            Some(v) => if v <= 0x8000_0000 {
                Some((-v) as i32)
            } else {
                None
            },
            None => None,
        }
    } else {
        let body = if s.len() > 0 && s[0] == '+' {
            s.drop_first()
        } else {
            s
        };
        match magnitude(body) {
            Some(v) => if v <= i32::MAX {
                Some(v as i32)
            } else {
                None
            },
            None => None,
        }
    }
}

proof fn lemma_decimal_nonneg(s: Seq<char>)
    requires
        all_digits(s),
    ensures
        decimal(s) >= 0,
    decreases s.len(),
{
    if s.len() > 0 {
        assert(all_digits(s.drop_last())) by {
            assert forall|i: int| 0 <= i < s.drop_last().len() implies is_digit(
                #[trigger] s.drop_last()[i],
            ) by {
                assert(s.drop_last()[i] == s[i]);
            }
        }
        lemma_decimal_nonneg(s.drop_last());
        assert(is_digit(s[s.len() - 1]));
    }
}

/// A run of digits is worth at least as much as any of its prefixes.
proof fn lemma_decimal_prefix(s: Seq<char>, i: int)
    requires
        all_digits(s),
        0 <= i <= s.len(),
    ensures
        decimal(s.take(i)) <= decimal(s),
    decreases s.len(),
{
    if i < s.len() {
        let d = s.drop_last();
        assert(all_digits(d)) by {
            assert forall|j: int| 0 <= j < d.len() implies is_digit(#[trigger] d[j]) by {
                assert(d[j] == s[j]);
            }
        }
        lemma_decimal_prefix(d, i);
        assert(d.take(i) =~= s.take(i));
        lemma_decimal_nonneg(d);
        assert(is_digit(s[s.len() - 1]));
    } else {
        assert(s.take(i) =~= s);
    }
}

/// Reads the digits of `s` as a decimal number no larger than `limit`.
fn parse_digits(s: &str, limit: u64) -> (r: Option<u64>)
    ensures
        r matches Some(x) ==> x <= limit && magnitude(s@) == Some(x as int),
        r is None ==> (magnitude(s@) matches Some(v) ==> v > limit),
{
    let n = s.unicode_len();
    if n == 0 {
        return None;
    }
    let mut acc: u64 = 0;
    let mut i: usize = 0;
    assert(s@.take(0) =~= Seq::<char>::empty());
    while i < n
        invariant
            n == s@.len(),
            i <= n,
            all_digits(s@.take(i as int)),
            acc == decimal(s@.take(i as int)),
            acc <= limit,
        decreases n - i,
    {
        let c = s.get_char(i);
        if !('0' <= c && c <= '9') {
            assert(!is_digit(s@[i as int]));
            return None;
        }
        let d = (c as u32 - '0' as u32) as u64;
        let ghost t = s@.take(i + 1);
        assert(t.drop_last() =~= s@.take(i as int));
        assert(all_digits(t)) by {
            assert forall|j: int| 0 <= j < t.len() implies is_digit(#[trigger] t[j]) by {
                if j < i {
                    assert(s@.take(i as int)[j] == t[j]);
                }
            }
        }
        assert(decimal(t) == acc * 10 + d);
        let next = match acc.checked_mul(10) {
            Some(m) => m.checked_add(d),
            None => None,
        };
        match next {
            Some(v) => {
                if v > limit {
                    proof {
                        if all_digits(s@) {
                            lemma_decimal_prefix(s@, i + 1);
                        }
                    }
                    return None;
                }
                acc = v;
            },
            None => {
                proof {
                    if all_digits(s@) {
                        lemma_decimal_prefix(s@, i + 1);
                    }
                }
                return None;
            },
        }
        i += 1;
    }
    assert(s@.take(n as int) =~= s@);
    Some(acc)
}

/// Parses a `u64` as `str::parse` does.
pub fn parse_u64(s: &str) -> (r: Option<u64>)
    ensures
        r == spec_parse_u64(s@),
{
    let n = s.unicode_len();
    if n > 0 && s.get_char(0) == '+' {
        let body = s.substring_char(1, n);
        assert(body@ =~= s@.drop_first());
        parse_digits(body, u64::MAX)
    } else {
        parse_digits(s, u64::MAX)
    }
}

/// Parses an `i32` as `str::parse` does.
pub fn parse_i32(s: &str) -> (r: Option<i32>)
    ensures
        r == spec_parse_i32(s@),
{
    let n = s.unicode_len();
    if n > 0 && s.get_char(0) == '-' {
        let body = s.substring_char(1, n);
        assert(body@ =~= s@.drop_first());
        match parse_digits(body, 0x8000_0000) {
            Some(v) => {
                if v == 0x8000_0000 {
                    Some(i32::MIN)
                } else {
                    Some(-(v as i32))
                }
            },
            None => None,
        }
    } else if n > 0 && s.get_char(0) == '+' {
        let body = s.substring_char(1, n);
        assert(body@ =~= s@.drop_first());
        match parse_digits(body, 0x7fff_ffff) {
            Some(v) => Some(v as i32),
            None => None,
        }
    } else {
        match parse_digits(s, 0x7fff_ffff) {
            Some(v) => Some(v as i32),
            None => None,
        }
    }
}

/// The digit character for `d`, which is below ten.
pub open spec fn digit_char(d: int) -> char {
    if d == 0 {
        '0'
    } else if d == 1 {
        '1'
    } else if d == 2 {
        '2'
    } else if d == 3 {
        '3'
    } else if d == 4 {
        '4'
    } else if d == 5 {
        '5'
    } else if d == 6 {
        '6'
    } else if d == 7 {
        '7'
    } else if d == 8 {
        '8'
    } else {
        '9'
    }
}

/// The decimal spelling of `n`, with no leading zeros.
pub open spec fn digits_of(n: nat) -> Seq<char>
    decreases n,
{
    if n < 10 {
        seq![digit_char(n as int)]
    } else {
        digits_of(n / 10).push(digit_char((n % 10) as int))
    }
}

proof fn lemma_digits_of(n: nat)
    ensures
        digits_of(n).len() > 0,
        all_digits(digits_of(n)),
        decimal(digits_of(n)) == n,
        is_digit(digits_of(n)[0]),
    decreases n,
{
    if n >= 10 {
        let q = n / 10;
        let r = n % 10;
        assert(n == q * 10 + r && 0 <= r < 10 && q < n) by (nonlinear_arith)
            requires
                n >= 10,
                q == n / 10,
                r == n % 10,
        ;
        lemma_digits_of(q);
        let d = digits_of(q).push(digit_char(r as int));
        assert(d.drop_last() =~= digits_of(q));
        assert forall|i: int| 0 <= i < d.len() implies is_digit(#[trigger] d[i]) by {
            if i < d.len() - 1 {
                assert(d[i] == digits_of(q)[i]);
            }
        }
        assert(d[0] == digits_of(q)[0]);
        assert(d.last() == digit_char(r as int));
        assert(digit_value(digit_char(r as int)) == r);
        assert(decimal(d) == decimal(digits_of(q)) * 10 + r);
    } else {
        let d = seq![digit_char(n as int)];
        assert(d.drop_last() =~= Seq::<char>::empty());
        assert(digit_value(digit_char(n as int)) == n);
        assert(decimal(d) == decimal(d.drop_last()) * 10 + digit_value(d.last()));
    }
}

/// Reading the decimal spelling of any `u64` gives it back, with or without
/// a leading `+`.
pub proof fn law_u64_reads_its_digits(n: u64)
    ensures
        spec_parse_u64(digits_of(n as nat)) == Some(n),
        spec_parse_u64(seq!['+'] + digits_of(n as nat)) == Some(n),
{
    lemma_digits_of(n as nat);
    assert((seq!['+'] + digits_of(n as nat)).drop_first() =~= digits_of(n as nat));
}

/// Reading the decimal spelling of any `i32` gives it back: a leading `-`
/// for negative values, and an optional `+` for the others.
pub proof fn law_i32_reads_its_digits(n: i32)
    ensures
        n >= 0 ==> spec_parse_i32(digits_of(n as nat)) == Some(n),
        n >= 0 ==> spec_parse_i32(seq!['+'] + digits_of(n as nat)) == Some(n),
        n <= 0 ==> spec_parse_i32(seq!['-'] + digits_of((-n) as nat)) == Some(n),
{
    if n >= 0 {
        lemma_digits_of(n as nat);
        assert((seq!['+'] + digits_of(n as nat)).drop_first() =~= digits_of(n as nat));
    }
    if n <= 0 {
        lemma_digits_of((-n) as nat);
        assert((seq!['-'] + digits_of((-n) as nat)).drop_first() =~= digits_of((-n) as nat));
    }
}

} // verus!
