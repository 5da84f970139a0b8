use vstd::prelude::*;
use crate::scalar::Decimal;
use crate::text::{digit_value, is_digit};

verus! {

/// The place after the run of digits that begins at `from`.
pub open spec fn digits_end(s: Seq<char>, from: int) -> int
    decreases s.len() - from,
{
    if 0 <= from < s.len() && is_digit(s[from]) {
        digits_end(s, from + 1)
    } else {
        from
    }
}

/// The number that a run of digits stands for.
pub open spec fn value(d: Seq<char>) -> nat
    decreases d.len(),
{
    if d.len() == 0 {
        0
    } else {
        value(d.drop_last()) * 10 + digit_value(d.last()) as nat
    }
}

pub open spec fn is_sign(c: char) -> bool {
    c == '+' || c == '-'
}

pub open spec fn is_exponent_mark(c: char) -> bool {
    c == 'e' || c == 'E'
}

/// How a text is cut into the parts of a decimal number:
/// a sign, digits, a point with digits after it, and an exponent, each of
/// which may be missing.
pub struct Parts {
    pub start: int,
    pub int_end: int,
    pub frac_start: int,
    pub frac_end: int,
    pub has_exponent: bool,
    pub exp_start: int,
    pub exp_end: int,
}

pub open spec fn parts_of(s: Seq<char>) -> Parts {
    let start: int = if s.len() > 0 && is_sign(s[0]) {
        1
    } else {
        0
    };
    let int_end = digits_end(s, start);
    let frac_start = if int_end < s.len() && s[int_end] == '.' {
        int_end + 1
    } else {
        int_end
    };
    let frac_end = digits_end(s, frac_start);
    let has_exponent = frac_end < s.len() && is_exponent_mark(s[frac_end]);
    let exp_start = if has_exponent && frac_end + 1 < s.len() && is_sign(s[frac_end + 1]) {
        frac_end + 2
    } else if has_exponent {
        frac_end + 1
    } else {
        frac_end
    };
    let exp_end = digits_end(s, exp_start);
    Parts { start, int_end, frac_start, frac_end, has_exponent, exp_start, exp_end }
}

/// The digits of a number as far as 64 bits hold them: the number that the
/// first digits stand for, and how many digits after them are cut off.
pub struct Cut {
    pub mantissa: nat,
    pub dropped: nat,
}

/// The first digits of `d` that together fit in 64 bits, and the number of the
/// digits after them.
pub open spec fn cut(d: Seq<char>) -> Cut
    decreases d.len(),
{
    if d.len() == 0 {
        Cut { mantissa: 0, dropped: 0 }
    } else {
        let before = cut(d.drop_last());
        let longer = before.mantissa * 10 + digit_value(d.last()) as nat;
        if before.dropped == 0 && longer <= u64::MAX {
            Cut { mantissa: longer, dropped: 0 }
        } else {
            Cut { mantissa: before.mantissa, dropped: before.dropped + 1 }
        }
    }
}

/// The decimal number that a text stands for: `12`, `-0.5`, `.25`, `3.`, `1e-3`,
/// `+2.5E4`. There must be a digit before the exponent and, where there is an
/// exponent mark, one after it; nothing may follow.
///
/// Digits that 64 bits do not hold are cut off: those before the point count
/// as zeros, those after it are left out. The exponent that is written and
/// the exponent of the result must fit in 32 bits.
pub open spec fn decimal_of(s: Seq<char>) -> Option<Decimal> {
    let p = parts_of(s);
    let shown = s.subrange(p.start, p.int_end) + s.subrange(p.frac_start, p.frac_end);
    let written = value(s.subrange(p.exp_start, p.exp_end));
    let kept = shown.len() - cut(shown).dropped;
    let before_point = p.int_end - p.start;
    let exponent = (if p.has_exponent && s[p.exp_start - 1] == '-' {
        -written
    } else {
        written as int
    }) + (before_point - kept);
    if shown.len() > 0 && (p.has_exponent ==> p.exp_end > p.exp_start) && p.exp_end == s.len() && written
        <= i32::MAX && i32::MIN <= exponent <= i32::MAX {
        Some(Decimal { negative: s[0] == '-', mantissa: cut(shown).mantissa as u64, exponent: exponent as i32 })
    } else {
        None
    }
}

fn digit_of(c: char) -> (r: Option<u64>)
    ensures
        r is Some <==> is_digit(c),
        r matches Some(d) ==> d == digit_value(c) && d < 10,
{
    if '0' <= c && c <= '9' {
        Some(((c as u32) - 48) as u64)
    } else {
        None
    }
}

/// Reads the digits from `from` on and adds them to the number `acc`, which
/// stands for the digits `seen`. Hands back the place after them and the new
/// number, or none for it where it would pass `limit`.
fn read_digits(s: &Vec<char>, from: usize, acc: Option<u64>, limit: u64, Ghost(seen): Ghost<Seq<char>>) -> (r: (
    usize,
    Option<u64>,
))
    requires
        from <= s@.len(),
        limit >= 9,
        match acc {
            Some(v) => v == value(seen) && v <= limit,
            None => value(seen) > limit,
        },
    ensures
        r.0 == digits_end(s@, from as int),
        from <= r.0 <= s@.len(),
        match r.1 {
            Some(v) => v == value(seen + s@.subrange(from as int, r.0 as int)) && v <= limit,
            None => value(seen + s@.subrange(from as int, r.0 as int)) > limit,
        },
{
    let mut i: usize = from;
    let mut acc = acc;
    assert(seen + s@.subrange(from as int, from as int) =~= seen);
    loop
        invariant
            from <= i <= s@.len(),
            limit >= 9,
            digits_end(s@, from as int) == digits_end(s@, i as int),
            match acc {
                Some(v) => v == value(seen + s@.subrange(from as int, i as int)) && v <= limit,
                None => value(seen + s@.subrange(from as int, i as int)) > limit,
            },
        ensures
            from <= i <= s@.len(),
            i == digits_end(s@, from as int),
            match acc {
                Some(v) => v == value(seen + s@.subrange(from as int, i as int)) && v <= limit,
                None => value(seen + s@.subrange(from as int, i as int)) > limit,
            },
        decreases s@.len() - i,
    {
        if i >= s.len() {
            break;
        }
        let d = match digit_of(s[i]) {
            Some(d) => d,
            None => {
                break;
            },
        };
        let ghost before = seen + s@.subrange(from as int, i as int);
        let ghost after = seen + s@.subrange(from as int, i + 1);
        assert(after.drop_last() =~= before);
        assert(after.last() == s@[i as int]);
        acc = match acc {
            Some(v) => {
                if v > (limit - d) / 10 {
                    None
                } else {
                    Some(v * 10 + d)
                }
            },
            None => None,
        };
        i += 1;
    }
    (i, acc)
}

/// Reads the digits from `from` on after the digits `seen`, of which `acc`
/// and `dropped` are the cut. Hands back the place after them and the cut of
/// all the digits.
fn read_mantissa(s: &Vec<char>, from: usize, acc: u64, dropped: usize, Ghost(seen): Ghost<Seq<char>>) -> (r: (
    usize,
    u64,
    usize,
))
    requires
        from <= s@.len(),
        seen.len() <= from,
        cut(seen) == (Cut { mantissa: acc as nat, dropped: dropped as nat }),
        dropped <= seen.len(),
    ensures
        r.0 == digits_end(s@, from as int),
        from <= r.0 <= s@.len(),
        cut(seen + s@.subrange(from as int, r.0 as int)) == (Cut { mantissa: r.1 as nat, dropped: r.2 as nat }),
        r.2 <= seen.len() + (r.0 - from),
{
    let n = s.len();
    let mut i: usize = from;
    let mut acc = acc;
    let mut dropped = dropped;
    assert(seen + s@.subrange(from as int, from as int) =~= seen);
    loop
        invariant
            from <= i <= s@.len(),
            n == s@.len(),
            seen.len() <= from,
            digits_end(s@, from as int) == digits_end(s@, i as int),
            cut(seen + s@.subrange(from as int, i as int)) == (Cut { mantissa: acc as nat, dropped: dropped as nat }),
            dropped <= seen.len() + (i - from),
        ensures
            from <= i <= s@.len(),
            i == digits_end(s@, from as int),
            cut(seen + s@.subrange(from as int, i as int)) == (Cut { mantissa: acc as nat, dropped: dropped as nat }),
            dropped <= seen.len() + (i - from),
        decreases s@.len() - i,
    {
        if i >= n {
            break;
        }
        let d = match digit_of(s[i]) {
            Some(d) => d,
            None => {
                break;
            },
        };
        let ghost before = seen + s@.subrange(from as int, i as int);
        let ghost after = seen + s@.subrange(from as int, i + 1);
        assert(after.drop_last() =~= before);
        assert(after.last() == s@[i as int]);
        if dropped == 0 && acc <= (0xffff_ffff_ffff_ffff - d) / 10 {
            acc = acc * 10 + d;
        } else {
            dropped = dropped + 1;
        }
        i += 1;
    }
    (i, acc, dropped)
}

/// The parts of a text that was read for a number.
struct Scan {
    negative: bool,
    /// The digits before the point.
    before_point: usize,
    /// The digits before and after the point.
    digit_count: usize,
    mantissa: u64,
    dropped: usize,
    has_exponent: bool,
    exponent_negative: bool,
    exponent_digits: usize,
    /// The exponent that is written, where it fits in 32 bits.
    written: Option<u64>,
    /// Nothing follows the number.
    complete: bool,
}

impl Scan {
    spec fn of(self, s: Seq<char>) -> bool {
        let p = parts_of(s);
        let shown = s.subrange(p.start, p.int_end) + s.subrange(p.frac_start, p.frac_end);
        let written = value(s.subrange(p.exp_start, p.exp_end));
        &&& self.negative == (s.len() > 0 && s[0] == '-')
        &&& self.before_point == p.int_end - p.start
        &&& self.digit_count == shown.len()
        &&& cut(shown) == (Cut { mantissa: self.mantissa as nat, dropped: self.dropped as nat })
        &&& self.dropped <= self.digit_count
        &&& self.has_exponent == p.has_exponent
        &&& self.exponent_negative == (p.has_exponent && s[p.exp_start - 1] == '-')
        &&& self.exponent_digits == p.exp_end - p.exp_start
        &&& match self.written {
            Some(w) => w == written && w <= i32::MAX,
            None => written > i32::MAX,
        }
        &&& self.complete == (p.exp_end == s.len())
    }
}

fn scan(s: &Vec<char>) -> (r: Scan)
    ensures
        r.of(s@),
{
    let n = s.len();
    let ghost p = parts_of(s@);
    let start: usize = if n > 0 && (s[0] == '+' || s[0] == '-') {
        1
    } else {
        0
    };
    let negative = n > 0 && s[0] == '-';
    let (int_end, whole, dropped_whole) = read_mantissa(s, start, 0, 0, Ghost(Seq::empty()));
    let frac_start: usize = if int_end < n && s[int_end] == '.' {
        int_end + 1
    } else {
        int_end
    };
    let ghost int_digits = s@.subrange(start as int, int_end as int);
    assert(Seq::<char>::empty() + int_digits =~= int_digits);
    let (frac_end, mantissa, dropped) = read_mantissa(s, frac_start, whole, dropped_whole, Ghost(int_digits));
    let has_exponent = frac_end < n && (s[frac_end] == 'e' || s[frac_end] == 'E');
    let exp_start: usize = if has_exponent && frac_end + 1 < n && (s[frac_end + 1] == '+' || s[frac_end + 1]
        == '-') {
        frac_end + 2
    } else if has_exponent {
        frac_end + 1
    } else {
        frac_end
    };
    let (exp_end, written) = read_digits(s, exp_start, Some(0), 0x7fff_ffff, Ghost(Seq::empty()));
    assert(Seq::<char>::empty() + s@.subrange(exp_start as int, exp_end as int) =~= s@.subrange(
        exp_start as int,
        exp_end as int,
    ));
    assert(p.start == start && p.int_end == int_end && p.frac_start == frac_start && p.frac_end == frac_end
        && p.has_exponent == has_exponent && p.exp_start == exp_start && p.exp_end == exp_end);
    Scan {
        negative,
        before_point: int_end - start,
        digit_count: (int_end - start) + (frac_end - frac_start),
        mantissa,
        dropped,
        has_exponent,
        exponent_negative: has_exponent && s[exp_start - 1] == '-',
        exponent_digits: exp_end - exp_start,
        written,
        complete: exp_end == n,
    }
}

/// Reads a decimal number.
pub fn parse_decimal(s: &Vec<char>) -> (r: Option<Decimal>)
    ensures
        r == decimal_of(s@),
{
    let parts = scan(s);
    if parts.digit_count == 0 || (parts.has_exponent && parts.exponent_digits == 0) || !parts.complete {
        return None;
    }
    let written = match parts.written {
        Some(written) => written,
        None => {
            return None;
        },
    };
    let kept = parts.digit_count - parts.dropped;
    let step: i128 = (parts.before_point as i128) - (kept as i128);
    let exponent: i128 = if parts.exponent_negative {
        -(written as i128) + step
    } else {
        (written as i128) + step
    };
    if exponent < -0x8000_0000 || exponent > 0x7fff_ffff {
        return None;
    }
    Some(Decimal { negative: parts.negative, mantissa: parts.mantissa, exponent: exponent as i32 })
}

} // verus!
