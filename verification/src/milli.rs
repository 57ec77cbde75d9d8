//! Fixed-point measured quantities.
//!
//! Every measured quantity (latency, jitter, packet loss, throughput, score)
//! is carried as an integer count of thousandths of its unit.  This module
//! parses decimal text into such values and renders them back.

use vstd::prelude::*;

verus! {

/// ASCII codes used by the decimal grammar.
pub const DIGIT_ZERO: u8 = 0x30;

pub const DOT: u8 = 0x2e;

pub const MINUS: u8 = 0x2d;

/// Upper bound (exclusive) on every parsed fixed-point value, in
/// thousandths.  Values at or above it are rejected by the parser, so all
/// later arithmetic stays far from the integer limits.
pub const MAX_MILLI: u64 = 1_000_000_000_000_000;

pub open spec fn is_digit(b: u8) -> bool {
    DIGIT_ZERO <= b <= 0x39
}

pub open spec fn all_digits(s: Seq<u8>) -> bool {
    forall|i: int| 0 <= i < s.len() ==> is_digit(#[trigger] s[i])
}

/// Numeric value of a run of decimal digits, most significant first.
pub open spec fn digits_val(s: Seq<u8>) -> nat
    decreases s.len(),
{
    if s.len() == 0 {
        0
    } else {
        digits_val(s.drop_last()) * 10 + (if is_digit(s.last()) {
            (s.last() - DIGIT_ZERO) as nat
        } else {
            0
        })
    }
}

/// A digit prefix never exceeds the value of the whole digit run.
pub proof fn lemma_digits_val_prefix_le(s: Seq<u8>, k: int)
    requires
        0 <= k <= s.len(),
    ensures
        digits_val(s.take(k)) <= digits_val(s),
    decreases s.len() - k,
{
    if k < s.len() {
        lemma_digits_val_prefix_le(s, k + 1);
        let t = s.take(k + 1);
        assert(t.drop_last() =~= s.take(k));
        assert(digits_val(s.take(k)) <= digits_val(t));
    } else {
        assert(s.take(k) =~= s);
    }
}

/// Reads the digits of `s[from..to]` as a number.  Fails on a non-digit and
/// on any value at or above `MAX_MILLI`.
fn parse_digits(s: &[u8], from: usize, to: usize) -> (r: Option<u64>)
    requires
        from <= to <= s@.len(),
    ensures
        match r {
            Some(v) => {
                &&& all_digits(s@.subrange(from as int, to as int))
                &&& v == digits_val(s@.subrange(from as int, to as int))
                &&& v < MAX_MILLI
            },
            None => {
                ||| !all_digits(s@.subrange(from as int, to as int))
                ||| digits_val(s@.subrange(from as int, to as int)) >= MAX_MILLI
            },
        },
{
    let ghost whole = s@.subrange(from as int, to as int);
    let mut v: u64 = 0;
    let mut i = from;
    while i < to
        invariant
            from <= i <= to <= s@.len(),
            whole == s@.subrange(from as int, to as int),
            all_digits(whole.take(i - from)),
            v == digits_val(whole.take(i - from)),
            v < MAX_MILLI,
        decreases to - i,
    {
        let b = s[i];
        proof {
            assert(whole[i - from] == b);
        }
        if b < DIGIT_ZERO || b > 0x39 {
            proof {
                assert(!is_digit(whole[i - from]));
            }
            return None;
        }
        let d = b - DIGIT_ZERO;
        proof {
            assert(whole.take(i - from + 1).drop_last() =~= whole.take(i - from));
            assert(digits_val(whole.take(i - from + 1)) == v * 10 + d);
        }
        if v >= MAX_MILLI / 10 {
            proof {
                if all_digits(whole) {
                    lemma_digits_val_prefix_le(whole, i - from + 1);
                    assert(digits_val(whole) >= v * 10 + d);
                }
            }
            return None;
        }
        v = v * 10 + (d as u64);
        i = i + 1;
    }
    proof {
        assert(whole.take(to - from) =~= whole);
    }
    Some(v)
}

/// Checks that `s[from..to]` holds digits only.
fn check_digits(s: &[u8], from: usize, to: usize) -> (r: bool)
    requires
        from <= to <= s@.len(),
    ensures
        r == all_digits(s@.subrange(from as int, to as int)),
{
    let ghost whole = s@.subrange(from as int, to as int);
    let mut i = from;
    while i < to
        invariant
            from <= i <= to <= s@.len(),
            whole == s@.subrange(from as int, to as int),
            all_digits(whole.take(i - from)),
        decreases to - i,
    {
        let b = s[i];
        proof {
            assert(whole[i - from] == b);
        }
        if b < DIGIT_ZERO || b > 0x39 {
            return false;
        }
        proof {
            assert(whole.take(i - from + 1) =~= whole.take(i - from).push(b));
        }
        i = i + 1;
    }
    proof {
        assert(whole.take(to - from) =~= whole);
    }
    true
}

/// `s` splits at `j` into a nonempty digit run, a dot, and a nonempty digit
/// run.
pub open spec fn is_dot_split(s: Seq<u8>, j: int) -> bool {
    &&& 1 <= j < s.len() - 1
    &&& s[j] == DOT
    &&& all_digits(s.take(j))
    &&& all_digits(s.skip(j + 1))
}

/// The decimal grammar accepted for a measured quantity: a nonempty run of
/// digits, optionally followed by a dot and a nonempty run of digits.
pub open spec fn is_decimal(s: Seq<u8>) -> bool {
    ||| (s.len() > 0 && all_digits(s))
    ||| (exists|j: int| is_dot_split(s, j))
}

/// Thousandths contributed by the fractional digits: the fourth and later
/// fractional digits are below one thousandth and are dropped.
pub open spec fn frac_milli(f: Seq<u8>) -> nat {
    if f.len() >= 3 {
        digits_val(f.take(3))
    } else if f.len() == 2 {
        digits_val(f) * 10
    } else {
        digits_val(f) * 100
    }
}

/// Value of a decimal in thousandths.
pub open spec fn decimal_milli(s: Seq<u8>) -> nat
    recommends
        is_decimal(s),
{
    if all_digits(s) {
        digits_val(s) * 1000
    } else {
        let j = choose|j: int| is_dot_split(s, j);
        digits_val(s.take(j)) * 1000 + frac_milli(s.skip(j + 1))
    }
}

/// What the parser accepts and returns: the value in thousandths of any
/// well-formed decimal below the fixed-point bound, and nothing else.
pub open spec fn spec_parse_milli(s: Seq<u8>) -> Option<u64> {
    if is_decimal(s) && decimal_milli(s) < MAX_MILLI {
        Some(decimal_milli(s) as u64)
    } else {
        None
    }
}

/// Parses one measured quantity, written as a plain decimal, into
/// thousandths of its unit.
pub fn parse_milli(s: &[u8]) -> (r: Option<u64>)
    ensures
        r == spec_parse_milli(s@),
{
    let n = s.len();
    // Find the first dot, if any; the grammar admits at most one.
    let mut i: usize = 0;
    while i < n && s[i] != DOT
        invariant
            n == s@.len(),
            i <= n,
            forall|k: int| 0 <= k < i ==> s@[k] != DOT,
        decreases n - i,
    {
        i = i + 1;
    }
    let dot: Option<usize> = if i < n {
        Some(i)
    } else {
        None
    };
    match dot {
        None => {
            // No dot anywhere: the input must be one nonempty digit run.
            proof {
                assert forall|j: int| !is_dot_split(s@, j) by {
                    if 1 <= j < s@.len() - 1 {
                        assert(s@[j] != DOT);
                    }
                }
            }
            if n == 0 {
                return None;
            }
            match parse_digits(s, 0, n) {
                Some(v) => {
                    proof {
                        assert(s@.subrange(0, n as int) =~= s@);
                    }
                    if v < MAX_MILLI / 1000 {
                        Some(v * 1000)
                    } else {
                        None
                    }
                },
                None => {
                    proof {
                        assert(s@.subrange(0, n as int) =~= s@);
                    }
                    None
                },
            }
        },
        Some(j) => {
            proof {
                assert(forall|j2: int| is_dot_split(s@, j2) ==> j2 == j) by {
                    assert forall|j2: int| is_dot_split(s@, j2) implies j2 == j by {
                        if j2 < j {
                            assert(s@[j2] == DOT);
                        } else if j2 > j {
                            assert(is_digit(s@.take(j2)[j as int]));
                        }
                    }
                }
            }
            if j == 0 || j + 1 >= n {
                proof {
                    assert(!all_digits(s@)) by {
                        assert(!is_digit(s@[j as int]));
                    }
                }
                return None;
            }
            // The fractional part must be digits throughout, though only the
            // first three contribute to the value.
            if !check_digits(s, j + 1, n) {
                proof {
                    assert(s@.subrange(j + 1, n as int) =~= s@.skip(j + 1));
                    assert(!is_dot_split(s@, j as int));
                    assert(!all_digits(s@)) by {
                        assert(!is_digit(s@[j as int]));
                    }
                    assert(!is_decimal(s@)) by {
                        if exists|j2: int| is_dot_split(s@, j2) {
                            let j2 = choose|j2: int| is_dot_split(s@, j2);
                            assert(j2 == j);
                        }
                    }
                }
                return None;
            }
            let whole = match parse_digits(s, 0, j) {
                Some(v) => v,
                None => {
                    proof {
                        assert(s@.subrange(0, j as int) =~= s@.take(j as int));
                        assert(!is_decimal(s@) || decimal_milli(s@) >= MAX_MILLI) by {
                            assert(!all_digits(s@)) by {
                                assert(!is_digit(s@[j as int]));
                            }
                            if all_digits(s@.take(j as int)) {
                                // The digit run itself is already too large.
                                assert(is_dot_split(s@, j as int));
                                assert(digits_val(s@.take(j as int)) >= MAX_MILLI);
                                assert(decimal_milli(s@) >= MAX_MILLI * 1000);
                            } else {
                                assert(!is_dot_split(s@, j as int));
                                assert(!is_decimal(s@)) by {
                                    if exists|j2: int| is_dot_split(s@, j2) {
                                        let j2 = choose|j2: int| is_dot_split(s@, j2);
                                        assert(j2 == j);
                                    }
                                }
                            }
                        }
                    }
                    return None;
                },
            };
            proof {
                assert(s@.subrange(0, j as int) =~= s@.take(j as int));
                assert(s@.subrange(j + 1, n as int) =~= s@.skip(j + 1));
                assert(is_dot_split(s@, j as int));
                assert(!all_digits(s@)) by {
                    assert(!is_digit(s@[j as int]));
                }
                assert(decimal_milli(s@) == digits_val(s@.take(j as int)) * 1000 + frac_milli(
                    s@.skip(j + 1),
                )) by {
                    let j2 = choose|j2: int| is_dot_split(s@, j2);
                    assert(j2 == j);
                }
            }
            // Thousandths contributed by the first three fractional digits.
            let flen = n - (j + 1);
            let fend = if flen >= 3 {
                j + 4
            } else {
                n
            };
            let ghost fdigits = s@.subrange(j + 1, fend as int);
            proof {
                assert(all_digits(fdigits)) by {
                    assert(forall|k: int|
                        0 <= k < fdigits.len() ==> fdigits[k] == #[trigger] s@.skip(j + 1)[k]);
                }
                lemma_digits_val_len_bound(fdigits);
            }
            let fm: u64 = match parse_digits(s, j + 1, fend) {
                Some(v) => v,
                None => {
                    proof {
                        assert(false);
                    }
                    0
                },
            };
            let fm: u64 = if flen >= 3 {
                proof {
                    assert(fdigits =~= s@.skip(j + 1).take(3));
                }
                fm
            } else if flen == 2 {
                proof {
                    assert(fdigits =~= s@.skip(j + 1));
                }
                fm * 10
            } else {
                proof {
                    assert(fdigits =~= s@.skip(j + 1));
                }
                fm * 100
            };
            proof {
                lemma_frac_digits_bound(s@.skip(j + 1));
                assert(fm == frac_milli(s@.skip(j + 1)));
            }
            if whole < MAX_MILLI / 1000 {
                Some(whole * 1000 + fm)
            } else {
                None
            }
        },
    }
}

/// A run of at most three digits stays below one thousand.
pub proof fn lemma_digits_val_len_bound(s: Seq<u8>)
    requires
        s.len() <= 3,
    ensures
        s.len() == 0 ==> digits_val(s) == 0,
        s.len() == 1 ==> digits_val(s) <= 9,
        s.len() == 2 ==> digits_val(s) <= 99,
        s.len() == 3 ==> digits_val(s) <= 999,
    decreases s.len(),
{
    if s.len() > 0 {
        lemma_digits_val_len_bound(s.drop_last());
    }
}

/// The thousandths of any fractional run stay below one thousand.
pub proof fn lemma_frac_digits_bound(f: Seq<u8>)
    ensures
        frac_milli(f) < 1000,
{
    if f.len() >= 3 {
        lemma_digits_val_len_bound(f.take(3));
    } else {
        lemma_digits_val_len_bound(f);
    }
}

/// Decimal digits of `n`, most significant first, without leading zeros
/// (a single zero for zero).
pub open spec fn dec_digits(n: nat) -> Seq<u8>
    decreases n,
{
    if n < 10 {
        seq![(DIGIT_ZERO + n) as u8]
    } else {
        dec_digits(n / 10).push((DIGIT_ZERO + n % 10) as u8)
    }
}

spec fn rev(s: Seq<u8>) -> Seq<u8> {
    Seq::new(s.len(), |i: int| s[s.len() - 1 - i])
}

/// Writes `n` in decimal.
pub fn render_u64(n: u64) -> (r: Vec<u8>)
    ensures
        r@ == dec_digits(n as nat),
{
    if n == 0 {
        let mut r: Vec<u8> = Vec::new();
        r.push(DIGIT_ZERO);
        proof {
            assert(r@ =~= dec_digits(0));
        }
        return r;
    }
    // Least significant digit first, then reversed.
    let mut backwards: Vec<u8> = Vec::new();
    let mut m = n;
    while m != 0
        invariant
            m > 0 ==> dec_digits(n as nat) =~= dec_digits(m as nat) + rev(backwards@),
            m == 0 ==> dec_digits(n as nat) =~= rev(backwards@),
            m <= n,
        decreases m,
    {
        let d = (m % 10) as u8;
        let m2 = m / 10;
        proof {
            let g = if m2 > 0 {
                dec_digits(m2 as nat) + rev(backwards@.push((DIGIT_ZERO + d) as u8))
            } else {
                rev(backwards@.push((DIGIT_ZERO + d) as u8))
            };
            assert(rev(backwards@.push((DIGIT_ZERO + d) as u8)) =~= seq![(DIGIT_ZERO + d) as u8] + rev(
                backwards@,
            ));
            if m2 > 0 {
                assert(dec_digits(m as nat) =~= dec_digits(m2 as nat).push((DIGIT_ZERO + d) as u8));
                assert(dec_digits(m2 as nat).push((DIGIT_ZERO + d) as u8) =~= dec_digits(m2 as nat) + seq![
                    (DIGIT_ZERO + d) as u8,
                ]);
                assert(dec_digits(m as nat) + rev(backwards@) =~= g);
            } else {
                assert(dec_digits(m as nat) =~= seq![(DIGIT_ZERO + d) as u8]);
                assert(dec_digits(m as nat) + rev(backwards@) =~= g);
            }
            assert(dec_digits(n as nat) =~= g);
        }
        backwards.push(DIGIT_ZERO + d);
        m = m2;
    }
    let k = backwards.len();
    let mut r: Vec<u8> = Vec::new();
    let mut i: usize = 0;
    while i < k
        invariant
            k == backwards@.len(),
            i <= k,
            dec_digits(n as nat) =~= rev(backwards@),
            r@ =~= rev(backwards@).take(i as int),
        decreases k - i,
    {
        r.push(backwards[k - 1 - i]);
        proof {
            assert(r@ =~= rev(backwards@).take(i + 1));
        }
        i = i + 1;
    }
    proof {
        assert(rev(backwards@).take(k as int) =~= rev(backwards@));
    }
    r
}

/// Decimal text of a non-negative fixed-point value: the whole part, then
/// the fractional digits only when they carry information, without trailing
/// zeros.
pub open spec fn spec_render_milli(m: nat) -> Seq<u8> {
    if m % 1000 == 0 {
        dec_digits(m / 1000)
    } else {
        dec_digits(m / 1000) + seq![DOT] + spec_frac_text((m % 1000) as nat)
    }
}

/// The fractional digits of a value's thousandths (nonzero, below one
/// thousand): three zero-padded digits with trailing zeros dropped.
pub open spec fn spec_frac_text(f: nat) -> Seq<u8>
    recommends
        0 < f < 1000,
{
    let d1 = (DIGIT_ZERO + f / 100) as u8;
    let d2 = (DIGIT_ZERO + (f / 10) % 10) as u8;
    let d3 = (DIGIT_ZERO + f % 10) as u8;
    if f % 10 != 0 {
        seq![d1, d2, d3]
    } else if f % 100 != 0 {
        seq![d1, d2]
    } else {
        seq![d1]
    }
}

/// Writes a non-negative fixed-point value as decimal text.
pub fn render_milli(m: u64) -> (r: Vec<u8>)
    ensures
        r@ == spec_render_milli(m as nat),
{
    let mut r = render_u64(m / 1000);
    let f = m % 1000;
    if f != 0 {
        r.push(DOT);
        r.push(DIGIT_ZERO + (f / 100) as u8);
        if f % 100 != 0 {
            r.push(DIGIT_ZERO + ((f / 10) % 10) as u8);
            if f % 10 != 0 {
                r.push(DIGIT_ZERO + (f % 10) as u8);
            }
        }
        proof {
            assert(r@ =~= spec_render_milli(m as nat));
        }
    }
    r
}

/// Decimal text of a signed fixed-point value.
pub open spec fn spec_render_milli_signed(m: int) -> Seq<u8> {
    if m >= 0 {
        spec_render_milli(m as nat)
    } else {
        seq![MINUS] + spec_render_milli((-m) as nat)
    }
}

/// Writes a signed fixed-point value as decimal text.
pub fn render_milli_signed(m: i64) -> (r: Vec<u8>)
    ensures
        r@ == spec_render_milli_signed(m as int),
{
    if m >= 0 {
        render_milli(m as u64)
    } else {
        let mag = (-(m as i128)) as u64;
        let mut r: Vec<u8> = Vec::new();
        r.push(MINUS);
        let mut tail = render_milli(mag);
        r.append(&mut tail);
        proof {
            assert(r@ =~= spec_render_milli_signed(m as int));
        }
        r
    }
}

} // verus!
