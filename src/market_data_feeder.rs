use vstd::prelude::*;
use vstd::string::StrSliceExecFns;
use crate::events::{PRICE_LIMIT, PRICE_SCALE};

verus! {

/// Largest number of decimals a price may carry: one stored unit.
pub const MAX_DECIMALS: usize = 6;

pub open spec fn is_digit(c: char) -> bool {
    '0' <= c <= '9'
}

pub open spec fn all_digits(s: Seq<char>) -> bool {
    forall|i: int| 0 <= i < s.len() ==> is_digit(#[trigger] s[i])
}

/// The number a run of decimal digits spells.
pub open spec fn digits_value(s: Seq<char>) -> nat
    decreases s.len(),
{
    if s.len() == 0 {
        0
    } else {
        digits_value(s.drop_last()) * 10 + (s.last() as nat - '0' as nat) as nat
    }
}

pub open spec fn pow10(n: nat) -> nat
    decreases n,
{
    if n == 0 {
        1
    } else {
        10 * pow10((n - 1) as nat)
    }
}

/// Index of the first '.' at or after `i`, or the length when none.
pub open spec fn dot_from(s: Seq<char>, i: int) -> int
    decreases s.len() - i,
{
    if i >= s.len() {
        s.len() as int
    } else if s[i] == '.' {
        i
    } else {
        dot_from(s, i + 1)
    }
}

/// Where the digits of a price begin: after an optional leading '$'.
pub open spec fn price_start(s: Seq<char>) -> int {
    if s.len() > 0 && s[0] == '$' {
        1
    } else {
        0
    }
}

/// The price a text spells, in stored units: an optional '$', one or more
/// digits, and optionally a '.' followed by one to [`MAX_DECIMALS`] digits,
/// at most [`PRICE_LIMIT`]. `None` for any other text.
pub open spec fn price_text_value(s: Seq<char>) -> Option<nat> {
    let start = price_start(s);
    let dot = dot_from(s, start);
    let whole = s.subrange(start, dot);
    let frac = if dot < s.len() { s.subrange(dot + 1, s.len() as int) } else { Seq::<char>::empty() };
    let v = digits_value(whole) * (PRICE_SCALE as nat) + digits_value(frac) * pow10(
        (MAX_DECIMALS - frac.len()) as nat,
    );
    if whole.len() == 0 || !all_digits(whole) || !all_digits(frac) || (dot < s.len() && frac.len() == 0)
        || frac.len() > MAX_DECIMALS || v > PRICE_LIMIT {
        None
    } else {
        Some(v)
    }
}

/// The count a text spells: one or more digits, at most `u64::MAX`.
pub open spec fn volume_text_value(s: Seq<char>) -> Option<nat> {
    if s.len() == 0 || !all_digits(s) || digits_value(s) > u64::MAX {
        None
    } else {
        Some(digits_value(s))
    }
}

proof fn lemma_saturate(x: nat, d: nat, cap: nat)
    requires
        d <= 9,
    ensures
        (if (if x < cap { x } else { cap }) * 10 + d < cap {
            (if x < cap { x } else { cap }) * 10 + d
        } else {
            cap
        }) == (if x * 10 + d < cap { x * 10 + d } else { cap }),
{
}

proof fn lemma_digits_below_pow(s: Seq<char>)
    requires
        all_digits(s),
    ensures
        digits_value(s) < pow10(s.len()),
    decreases s.len(),
{
    if s.len() > 0 {
        assert(all_digits(s.drop_last())) by {
            assert forall|i: int| 0 <= i < s.drop_last().len() implies is_digit(#[trigger] s.drop_last()[i]) by {
                assert(s.drop_last()[i] == s[i]);
            }
        }
        lemma_digits_below_pow(s.drop_last());
        assert(is_digit(s[s.len() - 1]));
    }
}

/// Reads the digits `s[from..to]`, saturating at `cap`: the value, or `cap`
/// when it is at least `cap`; `None` when a character is not a digit.
fn read_digits(s: &str, from: usize, to: usize, cap: u128) -> (r: Option<u128>)
    requires
        from <= to <= s@.len(),
        1 <= cap <= u64::MAX as u128 + 1,
    ensures
        r is None <==> !all_digits(s@.subrange(from as int, to as int)),
        r matches Some(v) ==> v == if digits_value(s@.subrange(from as int, to as int)) < cap {
            digits_value(s@.subrange(from as int, to as int))
        } else {
            cap as nat
        },
{
    let mut acc: u128 = 0;
    let mut i: usize = from;
    while i < to
        invariant
            from <= i <= to <= s@.len(),
            1 <= cap <= u64::MAX as u128 + 1,
            all_digits(s@.subrange(from as int, i as int)),
            acc == if digits_value(s@.subrange(from as int, i as int)) < cap {
                digits_value(s@.subrange(from as int, i as int))
            } else {
                cap as nat
            },
        decreases to - i,
    {
        let c = s.get_char(i);
        let ghost prefix = s@.subrange(from as int, i as int);
        let ghost next = s@.subrange(from as int, i + 1);
        assert(next.drop_last() =~= prefix);
        assert(next.last() == c);
        if !('0' <= c && c <= '9') {
            assert(!all_digits(s@.subrange(from as int, to as int))) by {
                assert(s@.subrange(from as int, to as int)[i - from] == c);
            }
            return None;
        }
        let d = (c as u32 - '0' as u32) as u128;
        proof {
            lemma_saturate(digits_value(prefix), d as nat, cap as nat);
        }
        let v = acc * 10 + d;
        acc = if v < cap { v } else { cap };
        i = i + 1;
        assert(all_digits(s@.subrange(from as int, i as int))) by {
            assert forall|j: int| 0 <= j < next.len() implies is_digit(#[trigger] next[j]) by {
                if j < prefix.len() {
                    assert(next[j] == prefix[j]);
                }
            }
        }
    }
    Some(acc)
}

/// Parses a price such as `$245.67` into stored units, exactly.
pub fn parse_price(text: &str) -> (r: Option<u64>)
    ensures
        r matches Some(v) ==> price_text_value(text@) == Some(v as nat),
        r is None ==> price_text_value(text@) is None,
{
    let ghost s = text@;
    let n = text.unicode_len();
    let start: usize = if n > 0 && text.get_char(0) == '$' { 1 } else { 0 };
    assert(start == price_start(s));
    let mut dot: usize = start;
    while dot < n && text.get_char(dot) != '.'
        invariant
            start <= dot <= n,
            n == s.len(),
            s == text@,
            dot_from(s, start as int) == dot_from(s, dot as int),
        decreases n - dot,
    {
        dot = dot + 1;
    }
    assert(dot_from(s, dot as int) == dot);
    let ghost whole = s.subrange(start as int, dot as int);
    let ghost frac = if dot < n { s.subrange(dot + 1, n as int) } else { Seq::<char>::empty() };
    if dot == start {
        return None;
    }
    let cap: u128 = PRICE_LIMIT as u128 + 1;
    let w = match read_digits(text, start, dot, cap) {
        Some(w) => w,
        None => return None,
    };
    let frac_start: usize = if dot < n { dot + 1 } else { n };
    assert(frac =~= s.subrange(frac_start as int, n as int));
    if dot < n && frac_start == n {
        return None;
    }
    if n - frac_start > MAX_DECIMALS {
        return None;
    }
    let f = match read_digits(text, frac_start, n, cap) {
        Some(f) => f,
        None => return None,
    };
    proof {
        lemma_digits_below_pow(frac);
        assert(pow10(0) == 1);
        assert(pow10(1) == 10);
        assert(pow10(2) == 100);
        assert(pow10(3) == 1000);
        assert(pow10(4) == 10000);
        assert(pow10(5) == 100000);
        assert(pow10(6) == 1000000);
    }
    let k = n - frac_start;
    let mut scale: u128 = 1;
    let mut j: usize = k;
    while j < MAX_DECIMALS
        invariant
            k <= j <= MAX_DECIMALS,
            scale == pow10((j - k) as nat),
            scale <= 1000000,
            pow10(0) == 1 && pow10(1) == 10 && pow10(2) == 100 && pow10(3) == 1000,
            pow10(4) == 10000 && pow10(5) == 100000 && pow10(6) == 1000000,
        decreases MAX_DECIMALS - j,
    {
        assert(pow10((j + 1 - k) as nat) == 10 * pow10((j - k) as nat));
        scale = scale * 10;
        j = j + 1;
    }
    assert(f < 1000000);
    assert(w <= cap);
    assert(w * 1000000 <= 281474976710657 * 1000000) by (nonlinear_arith)
        requires
            w <= 281474976710657,
    ;
    assert(f * scale <= 1000000 * 1000000) by (nonlinear_arith)
        requires
            f < 1000000,
            scale <= 1000000,
    ;
    let v: u128 = w * (PRICE_SCALE as u128) + f * scale;
    if w >= cap || v > PRICE_LIMIT as u128 {
        proof {
            if w >= cap {
                assert(digits_value(whole) >= cap);
                assert(digits_value(whole) * 1000000 > PRICE_LIMIT) by (nonlinear_arith)
                    requires
                        digits_value(whole) >= 281474976710657,
                ;
            }
        }
        return None;
    }
    Some(v as u64)
}

/// Parses a count such as `1200`.
pub fn parse_volume(text: &str) -> (r: Option<u64>)
    ensures
        r matches Some(v) ==> volume_text_value(text@) == Some(v as nat),
        r is None ==> volume_text_value(text@) is None,
{
    let n = text.unicode_len();
    if n == 0 {
        return None;
    }
    let cap: u128 = u64::MAX as u128 + 1;
    assert(text@.subrange(0, n as int) =~= text@);
    match read_digits(text, 0, n, cap) {
        Some(v) => if v >= cap {
            None
        } else {
            Some(v as u64)
        },
        None => None,
    }
}

} // verus!
