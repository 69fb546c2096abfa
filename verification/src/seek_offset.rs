//! Playback offsets: the decimal number of seconds that the log writes, kept
//! as a whole number of microseconds.

use vstd::prelude::*;

verus! {

/// Whether `c` is one of the decimal digits `0` to `9`.
pub open spec fn is_digit(c: char) -> bool {
    48 <= c as u32 && c as u32 <= 57
}

/// The number that the decimal digit `c` stands for.
pub open spec fn digit_value(c: char) -> nat
    recommends
        is_digit(c),
{
    (c as u32 - 48) as nat
}

/// Where the first `.` at or after `from` stands in `text`, or the length of
/// `text` if there is none.
pub open spec fn dot_position(text: Seq<char>, from: int) -> int
    decreases text.len() - from,
{
    if from >= text.len() {
        text.len() as int
    } else if text[from] == '.' {
        from
    } else {
        dot_position(text, from + 1)
    }
}

/// The number written by the first `len` characters of `text`, read as
/// decimal digits.
pub open spec fn whole_value(text: Seq<char>, len: int) -> nat
    decreases len,
{
    if len <= 0 {
        0
    } else {
        whole_value(text, len - 1) * 10 + digit_value(text[len - 1])
    }
}

/// The digit at place `k` behind a fraction that starts at `start`; places
/// that `text` does not write hold zero.
pub open spec fn fraction_digit(text: Seq<char>, start: int, k: int) -> nat {
    if start + k < text.len() {
        digit_value(text[start + k])
    } else {
        0
    }
}

/// The first `places` places of the fraction that starts at `start`, read as
/// one number.
pub open spec fn fraction_value(text: Seq<char>, start: int, places: int) -> nat
    decreases places,
{
    if places <= 0 {
        0
    } else {
        fraction_value(text, start, places - 1) * 10 + fraction_digit(text, start, places - 1)
    }
}

/// Whether `text` writes a number the way the log does: digits with at most
/// one `.` among them, and at least one digit.
pub open spec fn is_decimal(text: Seq<char>) -> bool {
    let dot = dot_position(text, 0);
    &&& forall|i: int| 0 <= i < text.len() && i != dot ==> is_digit(#[trigger] text[i])
    &&& (dot < text.len() ==> text.len() > 1)
    &&& text.len() > 0
}

/// The number of microseconds that the seconds written in `text` come to.
/// Digits behind the sixth place of the fraction are dropped. `None` where
/// `text` writes no number.
pub open spec fn seek_offset_micros(text: Seq<char>) -> Option<nat> {
    let dot = dot_position(text, 0);
    if is_decimal(text) {
        Some(whole_value(text, dot) * 1_000_000 + fraction_value(text, dot + 1, 6))
    } else {
        None
    }
}

/// The offset that `text` writes, as far as a `u64` can hold it.
pub open spec fn seek_offset_of(text: Seq<char>) -> Option<u64> {
    match seek_offset_micros(text) {
        Some(micros) => if micros <= u64::MAX {
            Some(micros as u64)
        } else {
            None
        },
        None => None,
    }
}

/// The number that the character `c` stands for, if it is a decimal digit.
pub fn decimal_digit(c: char) -> (digit: Option<u8>)
    ensures
        digit is Some <==> is_digit(c),
        digit matches Some(d) ==> d == digit_value(c),
{
    let code: u32 = c as u32;
    if 48 <= code && code <= 57 {
        Some((code - 48) as u8)
    } else {
        None
    }
}

/// Reads the seconds written in `text` as microseconds. There is no result
/// where `text` writes no number, or one too large for a `u64`.
pub fn parse_seek_offset(text: &str) -> (offset: Option<u64>)
    ensures
        offset == seek_offset_of(text@),
{
    let n: usize = text.unicode_len();
    let ghost s = text@;
    let mut i: usize = 0;
    let mut whole: u128 = 0;
    let mut too_large: bool = false;
    let mut at_dot: bool = false;
    while i < n && !at_dot
        invariant
            s == text@,
            n == s.len(),
            i <= n,
            dot_position(s, 0) == dot_position(s, i as int),
            forall|j: int| 0 <= j < i ==> is_digit(#[trigger] s[j]),
            at_dot ==> i < n && s[i as int] == '.',
            !too_large ==> whole == whole_value(s, i as int) && whole <= u64::MAX,
            too_large ==> whole_value(s, i as int) > u64::MAX,
        decreases n - i + (if at_dot { 0int } else { 1int }),
    {
        let c = text.get_char(i);
        if c == '.' {
            at_dot = true;
        } else {
            match decimal_digit(c) {
                None => {
                    assert(!is_digit(s[i as int]));
                    proof {
                        lemma_dot_position_bounds(s, i as int + 1);
                    }
                    return None;
                },
                Some(d) => {
                    if !too_large {
                        whole = whole * 10 + d as u128;
                        if whole > u64::MAX as u128 {
                            too_large = true;
                        }
                    }
                    i = i + 1;
                },
            }
        }
    }
    let dot: usize = i;
    assert(dot_position(s, 0) == dot);
    let mut fraction: u64 = 0;
    let mut places: usize = 0;
    if at_dot {
        i = i + 1;
        while i < n
            invariant
                s == text@,
                n == s.len(),
                dot < i <= n,
                dot_position(s, 0) == dot,
                forall|j: int| dot < j < i ==> is_digit(#[trigger] s[j]),
                places <= 6,
                places == (if i - dot - 1 < 6 { i - dot - 1 } else { 6 }),
                fraction == fraction_value(s, dot + 1, places as int),
                fraction < 1_000_000,
                places < 6 ==> fraction < 100_000,
            decreases n - i,
        {
            let c = text.get_char(i);
            match decimal_digit(c) {
                None => {
                    assert(!is_digit(s[i as int]));
                    return None;
                },
                Some(d) => {
                    if places < 6 {
                        assert(fraction_digit(s, dot + 1, places as int) == d);
                        proof {
                            lemma_fraction_below(s, dot + 1, places as int);
                        }
                        fraction = fraction * 10 + d as u64;
                        places = places + 1;
                        proof {
                            lemma_fraction_below(s, dot + 1, places as int);
                        }
                    }
                    i = i + 1;
                },
            }
        }
    }
    assert(forall|j: int| 0 <= j < s.len() && j != dot ==> is_digit(#[trigger] s[j]));
    if n == 0 || (at_dot && n == 1) {
        return None;
    }
    assert(is_decimal(s));
    while places < 6
        invariant
            places <= 6,
            fraction == fraction_value(s, dot + 1, places as int),
            places < 6 ==> dot + 1 + places >= s.len(),
            forall|j: int| 0 <= j < s.len() && j != dot ==> is_digit(#[trigger] s[j]),
            fraction < 1_000_000,
            places < 6 ==> fraction < 100_000,
        decreases 6 - places,
    {
        assert(fraction_digit(s, dot + 1, places as int) == 0);
        proof {
            lemma_fraction_below(s, dot + 1, places as int);
        }
        fraction = fraction * 10;
        places = places + 1;
        proof {
            lemma_fraction_below(s, dot + 1, places as int);
        }
    }
    if too_large {
        return None;
    }
    let micros: u128 = whole * 1_000_000 + fraction as u128;
    if micros > u64::MAX as u128 {
        None
    } else {
        Some(micros as u64)
    }
}

/// The first dot at or after `from` stands at or after `from`, and within
/// `text` or at its end.
pub proof fn lemma_dot_position_bounds(text: Seq<char>, from: int)
    requires
        0 <= from <= text.len(),
    ensures
        from <= dot_position(text, from) <= text.len(),
        dot_position(text, from) < text.len() ==> text[dot_position(text, from)] == '.',
    decreases text.len() - from,
{
    if from < text.len() && text[from] != '.' {
        lemma_dot_position_bounds(text, from + 1);
    }
}

/// A fraction read to `places` places stays below ten to the power of
/// `places`, as far as six places.
pub proof fn lemma_fraction_below(text: Seq<char>, start: int, places: int)
    requires
        0 <= places <= 6,
        forall|j: int| start <= j < text.len() && j < start + places ==> is_digit(#[trigger] text[j]),
    ensures
        places == 0 ==> fraction_value(text, start, places) == 0,
        places == 1 ==> fraction_value(text, start, places) < 10,
        places == 2 ==> fraction_value(text, start, places) < 100,
        places == 3 ==> fraction_value(text, start, places) < 1_000,
        places == 4 ==> fraction_value(text, start, places) < 10_000,
        places == 5 ==> fraction_value(text, start, places) < 100_000,
        places == 6 ==> fraction_value(text, start, places) < 1_000_000,
    decreases places,
{
    if places > 0 {
        lemma_fraction_below(text, start, places - 1);
        if start + places - 1 < text.len() {
            assert(is_digit(text[start + places - 1]));
        }
    }
}

} // verus!
