//! Human-readable durations: `7d`, `2w`, `1m`, `1y`, or plain milliseconds.

use vstd::prelude::*;
use crate::text::{
    all_digits, chars_of, int_to_decimal, is_ascii_digit, is_whitespace_char, nat_to_decimal,
    parse_u64_chars, parse_unsigned_spec, push_char, push_i64_decimal, sub_chars, trim,
    trim_chars, unsigned_digits,
};

verus! {

/// Milliseconds in a day.
pub const DAY_MS: i64 = 86400000;
/// Milliseconds in a week.
pub const WEEK_MS: i64 = 604800000;
/// Milliseconds in a month (30 days).
pub const MONTH_MS: i64 = 2592000000;
/// Milliseconds in a year (365 days).
pub const YEAR_MS: i64 = 31536000000;

/// How `format_duration` writes `ms`: the largest unit among years, months
/// (30 days), weeks and days that fits, with the count rounded down, or the
/// plain number of milliseconds below one day.
pub open spec fn format_duration_spec(ms: int) -> Seq<char> {
    if ms >= YEAR_MS {
        int_to_decimal(ms / (YEAR_MS as int)).push('y')
    } else if ms >= MONTH_MS {
        int_to_decimal(ms / (MONTH_MS as int)).push('m')
    } else if ms >= WEEK_MS {
        int_to_decimal(ms / (WEEK_MS as int)).push('w')
    } else if ms >= DAY_MS {
        int_to_decimal(ms / (DAY_MS as int)).push('d')
    } else {
        int_to_decimal(ms) + seq!['m', 's']
    }
}

/// Format milliseconds as a human-readable duration.
pub fn format_duration(ms: i64) -> (s: String)
    ensures
        s@ == format_duration_spec(ms as int),
{
    let mut s = String::new();
    if ms >= YEAR_MS {
        push_i64_decimal(&mut s, ms / YEAR_MS);
        push_char(&mut s, 'y');
    } else if ms >= MONTH_MS {
        push_i64_decimal(&mut s, ms / MONTH_MS);
        push_char(&mut s, 'm');
    } else if ms >= WEEK_MS {
        push_i64_decimal(&mut s, ms / WEEK_MS);
        push_char(&mut s, 'w');
    } else if ms >= DAY_MS {
        push_i64_decimal(&mut s, ms / DAY_MS);
        push_char(&mut s, 'd');
    } else {
        push_i64_decimal(&mut s, ms);
        push_char(&mut s, 'm');
        push_char(&mut s, 's');
        proof {
            assert(int_to_decimal(ms as int).push('m').push('s')
                == int_to_decimal(ms as int) + seq!['m', 's']);
        }
    }
    s
}

/// Milliseconds in one duration unit letter (`d`, `w`, `m`, `y`), or 0 for any
/// other character.
pub open spec fn duration_unit_ms(u: char) -> int {
    if u == 'd' {
        DAY_MS as int
    } else if u == 'w' {
        WEEK_MS as int
    } else if u == 'm' {
        MONTH_MS as int
    } else if u == 'y' {
        YEAR_MS as int
    } else {
        0
    }
}

/// The value `parse_duration` gives for `s`: after trimming, a plain number
/// is milliseconds; otherwise a number followed by one unit letter is that
/// many days, weeks, months (30 days) or years (365 days). Anything else is
/// `None`.
pub open spec fn parse_duration_spec(s: Seq<char>) -> Option<int> {
    let t = trim(s);
    if t.len() == 0 {
        None
    } else {
        match parse_unsigned_spec(t, u64::MAX as nat) {
            Some(ms) => Some(ms as int),
            None => {
                match parse_unsigned_spec(t.drop_last(), u64::MAX as nat) {
                    Some(n) => if duration_unit_ms(t.last()) > 0 {
                        Some(n * duration_unit_ms(t.last()))
                    } else {
                        None
                    },
                    None => None,
                }
            },
        }
    }
}

/// The inputs on which `parse_duration` panics: the trimmed text is not a
/// plain number and either ends in a character of more than one UTF-8 byte
/// (the split at the last byte is not a character boundary) or gives a
/// count whose product with its unit exceeds `u64::MAX`.
pub open spec fn parse_duration_panics(s: Seq<char>) -> bool {
    let t = trim(s);
    &&& t.len() > 0
    &&& parse_unsigned_spec(t, u64::MAX as nat) is None
    &&& {
        ||| (t.last() as u32) >= 0x80
        ||| (parse_unsigned_spec(t.drop_last(), u64::MAX as nat) is Some
            && duration_unit_ms(t.last()) > 0
            && parse_unsigned_spec(t.drop_last(), u64::MAX as nat)->0 * duration_unit_ms(t.last())
            > u64::MAX)
    }
}

fn unit_ms(u: char) -> (m: u64)
    ensures
        m == duration_unit_ms(u),
{
    if u == 'd' {
        86400000
    } else if u == 'w' {
        604800000
    } else if u == 'm' {
        2592000000
    } else if u == 'y' {
        31536000000
    } else {
        0
    }
}

/// Whether `parse_duration` would panic on `s` (see `parse_duration_panics`).
pub fn parse_duration_would_panic(s: &str) -> (b: bool)
    ensures
        b == parse_duration_panics(s@),
{
    let t = trim_chars(&chars_of(s));
    if t.len() == 0 {
        return false;
    }
    if parse_u64_chars(&t).is_some() {
        return false;
    }
    let last = t[t.len() - 1];
    if (last as u32) >= 0x80 {
        return true;
    }
    let num_chars = sub_chars(&t, 0, t.len() - 1);
    proof {
        assert(num_chars@ == t@.drop_last());
    }
    match parse_u64_chars(&num_chars) {
        Some(n) => {
            let m = unit_ms(last);
            proof {
                let nn = n as int;
                let mm = m as int;
                assert(nn * mm <= 18446744073709551615 * 31536000000) by (nonlinear_arith)
                    requires
                        0 <= nn <= 18446744073709551615,
                        0 <= mm <= 31536000000,
                ;
            }
            m > 0 && (n as u128) * (m as u128) > u64::MAX as u128
        },
        None => false,
    }
}

/// Parse a duration such as `7d`, `2w`, `1m`, `1y`, or a plain number of
/// milliseconds.
pub fn parse_duration(s: &str) -> (r: Option<u64>)
    requires
        !parse_duration_panics(s@),
    ensures
        match parse_duration_spec(s@) {
            Some(v) => r == Some(v as u64) && v <= u64::MAX,
            None => r is None,
        },
{
    let t = trim_chars(&chars_of(s));
    if t.len() == 0 {
        return None;
    }
    if let Some(ms) = parse_u64_chars(&t) {
        return Some(ms);
    }
    let last = t[t.len() - 1];
    let num_chars = sub_chars(&t, 0, t.len() - 1);
    proof {
        assert(num_chars@ == t@.drop_last());
    }
    let num = match parse_u64_chars(&num_chars) {
        Some(n) => n,
        None => return None,
    };
    let multiplier = unit_ms(last);
    if multiplier == 0 {
        return None;
    }
    Some(num * multiplier)
}

/// The unit `format_duration` writes a duration of at least a day in, in
/// milliseconds.
pub open spec fn format_unit_ms(ms: int) -> int {
    if ms >= YEAR_MS {
        YEAR_MS as int
    } else if ms >= MONTH_MS {
        MONTH_MS as int
    } else if ms >= WEEK_MS {
        WEEK_MS as int
    } else {
        DAY_MS as int
    }
}

proof fn lemma_count_then_unit(q: nat, u: char)
    requires
        duration_unit_ms(u) > 0,
        q * duration_unit_ms(u) <= u64::MAX,
    ensures
        !parse_duration_panics(nat_to_decimal(q).push(u)),
        parse_duration_spec(nat_to_decimal(q).push(u)) == Some(q * duration_unit_ms(u)),
{
    crate::text::lemma_decimal_roundtrip(q);
    let d = nat_to_decimal(q);
    let t = d.push(u);
    assert(t[0] == d[0]);
    assert(is_ascii_digit(d[0]));
    crate::text::lemma_trim_unchanged(t);
    assert(!all_digits(t)) by {
        assert(!is_ascii_digit(t[t.len() - 1]));
    }
    assert(t.drop_last() =~= d);
    assert(unsigned_digits(t) == t);
    assert(unsigned_digits(d) == d);
    assert(q <= u64::MAX) by (nonlinear_arith)
        requires
            q * duration_unit_ms(u) <= u64::MAX,
            duration_unit_ms(u) >= 1,
    ;
}

/// What `format_duration` writes from a duration of at least a day,
/// `parse_duration` reads back as that duration rounded down to the unit
/// written; what it writes from less than a day (`{ms}ms`) is not read.
pub proof fn law_parse_reads_formatted(ms: i64)
    ensures
        ms >= DAY_MS ==> !parse_duration_panics(format_duration_spec(ms as int))
            && parse_duration_spec(format_duration_spec(ms as int)) == Some(
            ((ms as int) / format_unit_ms(ms as int)) * format_unit_ms(ms as int),
        ),
        ms < DAY_MS ==> !parse_duration_panics(format_duration_spec(ms as int))
            && parse_duration_spec(format_duration_spec(ms as int)) is None,
{
    if ms >= DAY_MS {
        let u = format_unit_ms(ms as int);
        let q = (ms as int) / u;
        let letter = if ms >= YEAR_MS {
            'y'
        } else if ms >= MONTH_MS {
            'm'
        } else if ms >= WEEK_MS {
            'w'
        } else {
            'd'
        };
        assert(duration_unit_ms(letter) == u);
        assert(q >= 1 && q * u <= ms) by (nonlinear_arith)
            requires
                u > 0,
                ms >= u,
                q == (ms as int) / u,
        ;
        assert(int_to_decimal(q) == nat_to_decimal(q as nat));
        lemma_count_then_unit(q as nat, letter);
    } else {
        let t = format_duration_spec(ms as int);
        let m = if ms >= 0 {
            nat_to_decimal(ms as nat)
        } else {
            seq!['-'] + nat_to_decimal((-ms) as nat)
        };
        crate::text::lemma_decimal_roundtrip(if ms >= 0 {
            ms as nat
        } else {
            (-ms) as nat
        });
        assert(t == m + seq!['m', 's']);
        assert(t[0] == m[0]);
        assert(!is_whitespace_char(t[0]));
        assert(t.last() == 's');
        crate::text::lemma_trim_unchanged(t);
        assert(!all_digits(t)) by {
            assert(!is_ascii_digit(t[t.len() - 1]));
        }
        let p = t.drop_last();
        assert(p.last() == 'm');
        assert(!all_digits(p)) by {
            assert(!is_ascii_digit(p[p.len() - 1]));
        }
        assert(unsigned_digits(t) == t);
        assert(unsigned_digits(p) == p);
    }
}

/// A count of days (1 to 6), weeks (1 to 4), months (1 to 12) or years (at
/// least 1, within `i64`) written with its unit letter, such as `6d`, is
/// read back by `parse_duration` as that duration, which `format_duration`
/// writes as the same text.
pub proof fn law_formatted_text_roundtrip(n: nat, u: char)
    requires
        (u == 'd' && 1 <= n <= 6) || (u == 'w' && 1 <= n <= 4) || (u == 'm' && 1 <= n <= 12) || (
        u == 'y' && n >= 1 && n * YEAR_MS <= i64::MAX),
    ensures
        ({
            let s = nat_to_decimal(n).push(u);
            let v = n * duration_unit_ms(u);
            &&& !parse_duration_panics(s)
            &&& parse_duration_spec(s) == Some(v)
            &&& format_duration_spec(v) == s
        }),
{
    let k = duration_unit_ms(u);
    let v = n * k;
    assert(v <= u64::MAX && v / k == n && v >= k) by (nonlinear_arith)
        requires
            k > 0,
            n >= 1,
            v == n * k,
            k == DAY_MS ==> n <= 6,
            k == WEEK_MS ==> n <= 4,
            k == MONTH_MS ==> n <= 12,
            k == YEAR_MS ==> v <= i64::MAX,
            k == DAY_MS || k == WEEK_MS || k == MONTH_MS || k == YEAR_MS,
    ;
    assert(u == 'd' ==> v < WEEK_MS) by (nonlinear_arith)
        requires
            u == 'd' ==> (k == DAY_MS && n <= 6),
            v == n * k,
    ;
    assert(u == 'w' ==> v < MONTH_MS) by (nonlinear_arith)
        requires
            u == 'w' ==> (k == WEEK_MS && n <= 4),
            v == n * k,
    ;
    assert(u == 'm' ==> v < YEAR_MS) by (nonlinear_arith)
        requires
            u == 'm' ==> (k == MONTH_MS && n <= 12),
            v == n * k,
    ;
    lemma_count_then_unit(n, u);
    assert(int_to_decimal(n as int) == nat_to_decimal(n));
}

} // verus!
