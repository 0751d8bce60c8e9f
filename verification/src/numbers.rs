//! Decimal integers read from settings and message metadata, as
//! `str::parse` reads them, and the clock.

use crate::text::chars_of;
use vstd::prelude::*;

verus! {

/// Whether `c` is an ASCII digit.
pub open spec fn is_digit(c: char) -> bool {
    '0' <= c && c <= '9'
}

/// The value of a digit.
pub open spec fn digit_value(c: char) -> int {
    (c as int) - ('0' as int)
}

/// The value of a string of digits, most significant first.
pub open spec fn digits_value(d: Seq<char>) -> int
    decreases d.len(),
{
    if d.len() == 0 {
        0
    } else {
        digits_value(d.drop_last()) * 10 + digit_value(d.last())
    }
}

/// Whether `d` is a non-empty string of ASCII digits.
pub open spec fn all_digits(d: Seq<char>) -> bool {
    d.len() > 0 && forall|i: int| 0 <= i < d.len() ==> is_digit(#[trigger] d[i])
}

/// The integer a decimal text denotes: an optional `+` (or, when `signed`,
/// `-`) followed by at least one ASCII digit and nothing else.
pub open spec fn decimal_value(s: Seq<char>, signed: bool) -> Option<int> {
    if s.len() > 0 && s[0] == '+' {
        if all_digits(s.skip(1)) {
            Some(digits_value(s.skip(1)))
        } else {
            None
        }
    } else if signed && s.len() > 0 && s[0] == '-' {
        if all_digits(s.skip(1)) {
            Some(-digits_value(s.skip(1)))
        } else {
            None
        }
    } else if all_digits(s) {
        Some(digits_value(s))
    } else {
        None
    }
}

proof fn lemma_digits_value_nonneg(d: Seq<char>)
    requires
        forall|i: int| 0 <= i < d.len() ==> is_digit(#[trigger] d[i]),
    ensures
        digits_value(d) >= 0,
    decreases d.len(),
{
    if d.len() > 0 {
        lemma_digits_value_nonneg(d.drop_last());
    }
}

/// The value of the digits `d[from..]`, or `None` when it exceeds
/// `u64::MAX` or a character is not a digit.
fn magnitude(d: &Vec<char>, from: usize) -> (r: Option<u64>)
    requires
        from <= d@.len(),
    ensures
        match r {
            Some(v) => all_digits(d@.skip(from as int)) && v == digits_value(d@.skip(from as int)),
            None => !all_digits(d@.skip(from as int)) || digits_value(d@.skip(from as int))
                > u64::MAX,
        },
{
    let ghost s = d@.skip(from as int);
    if from == d.len() {
        return None;
    }
    let mut acc: u64 = 0;
    let mut overflow = false;
    let mut i: usize = from;
    while i < d.len()
        invariant
            from <= i <= d@.len(),
            s == d@.skip(from as int),
            forall|k: int| 0 <= k < i - from ==> is_digit(#[trigger] s[k]),
            !overflow ==> acc == digits_value(s.take(i - from)),
            overflow ==> digits_value(s.take(i - from)) > u64::MAX,
        decreases d.len() - i,
    {
        let c = d[i];
        assert(s[i - from] == c);
        if !('0' <= c && c <= '9') {
            assert(!is_digit(s[i - from]));
            return None;
        }
        assert(s.take(i - from + 1).drop_last() =~= s.take(i - from));
        assert(s.take(i - from + 1).last() == c);
        proof {
            assert forall|k: int| 0 <= k < s.take(i - from).len() implies is_digit(
                #[trigger] s.take(i - from)[k],
            ) by {}
            lemma_digits_value_nonneg(s.take(i - from));
        }
        let dv: u64 = (c as u32 - '0' as u32) as u64;
        if !overflow {
            match acc.checked_mul(10) {
                Some(m) => match m.checked_add(dv) {
                    Some(v) => {
                        acc = v;
                    },
                    None => {
                        overflow = true;
                    },
                },
                None => {
                    overflow = true;
                },
            }
        }
        i = i + 1;
    }
    assert(s.take(s.len() as int) =~= s);
    if overflow {
        None
    } else {
        Some(acc)
    }
}

/// Reads a signed 64-bit integer as `str::parse::<i64>` does.
pub fn parse_i64(s: &str) -> (r: Option<i64>)
    ensures
        match decimal_value(s@, true) {
            Some(v) => if i64::MIN <= v <= i64::MAX {
                r == Some(v as i64)
            } else {
                r is None
            },
            None => r is None,
        },
{
    let cs = chars_of(s);
    if cs.len() > 0 && cs[0] == '+' {
        match magnitude(&cs, 1) {
            Some(m) => if m <= 9223372036854775807u64 {
                Some(m as i64)
            } else {
                None
            },
            None => None,
        }
    } else if cs.len() > 0 && cs[0] == '-' {
        match magnitude(&cs, 1) {
            Some(m) => if m <= 9223372036854775807u64 {
                Some(-(m as i64))
            } else if m == 9223372036854775808u64 {
                Some(i64::MIN)
            } else {
                None
            },
            None => None,
        }
    } else {
        assert(cs@.skip(0) =~= cs@);
        match magnitude(&cs, 0) {
            Some(m) => if m <= 9223372036854775807u64 {
                Some(m as i64)
            } else {
                None
            },
            None => None,
        }
    }
}

/// Reads a signed 32-bit integer as `str::parse::<i32>` does.
pub fn parse_i32(s: &str) -> (r: Option<i32>)
    ensures
        match decimal_value(s@, true) {
            Some(v) => if i32::MIN <= v <= i32::MAX {
                r == Some(v as i32)
            } else {
                r is None
            },
            None => r is None,
        },
{
    match parse_i64(s) {
        Some(v) => if -2147483648i64 <= v && v <= 2147483647i64 {
            Some(v as i32)
        } else {
            None
        },
        None => {
            assert(decimal_value(s@, true) matches Some(v) ==> !(i64::MIN <= v <= i64::MAX));
            None
        },
    }
}

/// Reads an unsigned 64-bit integer as `str::parse::<u64>` does.
pub fn parse_u64(s: &str) -> (r: Option<u64>)
    ensures
        match decimal_value(s@, false) {
            Some(v) => if v <= u64::MAX {
                r == Some(v as u64)
            } else {
                r is None
            },
            None => r is None,
        },
{
    let cs = chars_of(s);
    if cs.len() > 0 && cs[0] == '+' {
        magnitude(&cs, 1)
    } else {
        assert(cs@.skip(0) =~= cs@);
        magnitude(&cs, 0)
    }
}

/// Seconds since the Unix epoch from the system clock, or the error
/// `SystemTime::duration_since` reports for a clock set before it. Nothing
/// is claimed of the value.
#[verifier::external_body]
fn clock_seconds() -> (r: Result<u64, String>) {
    std::time::SystemTime::now().duration_since(std::time::UNIX_EPOCH).map(|d| d.as_secs()).map_err(
        |e| e.to_string(),
    )
}

/// A clock reading in seconds, as an `i64`: readings beyond `i64::MAX`
/// are held at `i64::MAX`.
pub open spec fn capped_secs(s: u64) -> i64 {
    if s <= i64::MAX {
        s as i64
    } else {
        i64::MAX
    }
}

/// The seconds of a clock reading as an `i64`, or the clock's error.
pub fn secs_from_clock(reading: Result<u64, String>) -> (r: Result<i64, String>)
    ensures
        match reading {
            Ok(s) => r == Ok::<i64, String>(capped_secs(s)),
            Err(e) => r matches Err(x) && x@ == e@,
        },
{
    match reading {
        Ok(s) => if s <= 9223372036854775807u64 {
            Ok(s as i64)
        } else {
            Ok(i64::MAX)
        },
        Err(e) => Err(e),
    }
}

/// The seconds of a clock reading as an `i64`; 0 for a clock set before the
/// epoch.
pub fn epoch_from_clock(reading: Result<u64, String>) -> (r: i64)
    ensures
        r == match reading {
            Ok(s) => capped_secs(s),
            Err(_) => 0i64,
        },
{
    match reading {
        Ok(s) => if s <= 9223372036854775807u64 {
            s as i64
        } else {
            i64::MAX
        },
        Err(_) => 0,
    }
}

/// The current time in seconds since the Unix epoch, or the clock's error.
/// The clock's reading is not known here; what is made of it is
/// `secs_from_clock`'s.
pub fn now_secs() -> (r: Result<i64, String>)
    ensures
        r matches Ok(v) ==> v >= 0,
{
    secs_from_clock(clock_seconds())
}

/// The current time in seconds since the Unix epoch; 0 for a clock set
/// before the epoch. The clock's reading is not known here; what is made
/// of it is `epoch_from_clock`'s.
pub fn now_epoch() -> (r: i64)
    ensures
        r >= 0,
{
    epoch_from_clock(clock_seconds())
}

} // verus!
