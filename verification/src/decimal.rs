//! Exact decimal numbers with six fractional digits, and the grammar of
//! the numeric prefix of a reading.
//!
//! A [`Decimal`] holds an integer count of millionths, so `5.7` is
//! `Decimal { micros: 5_700_000 }`. Number texts carry at most one decimal
//! point and an optional leading minus sign; fractional digits past the
//! sixth round the value to the nearest millionth (the seventh digit
//! decides), and integer parts past five digits saturate, far outside the
//! range any caller accepts.

use vstd::prelude::*;

use crate::text::{digit_of, digit_val, is_digit_char};

verus! {

/// A signed decimal number with six fractional digits: the value is
/// `micros` millionths.
#[derive(Clone, Copy, Debug, PartialEq, Eq, Structural)]
pub struct Decimal {
    pub micros: i64,
}

/// How many leading characters of a number text form its sign: one for a
/// leading minus, none otherwise.
pub open spec fn sign_len(s: Seq<char>) -> int {
    if s.len() > 0 && s[0] == '-' {
        1
    } else {
        0
    }
}

/// The number text after its sign.
pub open spec fn number_body(s: Seq<char>) -> Seq<char> {
    s.skip(sign_len(s))
}

/// Whether the text is a well-formed number: an optional minus sign, then
/// digits and at most one decimal point, with at least one digit.
pub open spec fn is_number(s: Seq<char>) -> bool {
    let b = number_body(s);
    &&& b.len() > 0
    &&& (forall|i: int| 0 <= i < b.len() ==> is_digit_char(#[trigger] b[i]) || b[i] == '.')
    &&& (forall|i: int, j: int|
        0 <= i < b.len() && 0 <= j < b.len() && #[trigger] b[i] == '.' && #[trigger] b[j] == '.'
            ==> i == j)
    &&& (exists|i: int| 0 <= i < b.len() && is_digit_char(#[trigger] b[i]))
}

/// The value of a string of digits, most significant first.
pub open spec fn digits_val(s: Seq<char>) -> int
    decreases s.len(),
{
    if s.len() == 0 {
        0
    } else {
        10 * digits_val(s.drop_last()) + digit_val(s[s.len() - 1])
    }
}

/// The position of the decimal point, or the length if there is none.
pub open spec fn dot_pos(s: Seq<char>) -> int
    decreases s.len(),
{
    if s.len() == 0 {
        0
    } else if s[0] == '.' {
        0
    } else {
        1 + dot_pos(s.drop_first())
    }
}

/// Ten to the given power.
pub open spec fn pow10(n: nat) -> int
    decreases n,
{
    if n == 0 {
        1
    } else {
        10 * pow10((n - 1) as nat)
    }
}

/// The fractional digits that survive rounding: the first six.
pub open spec fn frac_digits6(f: Seq<char>) -> Seq<char> {
    if f.len() >= 6 {
        f.take(6)
    } else {
        f
    }
}

/// The factor that scales the kept fractional digits to millionths.
pub open spec fn frac_scale(l: int) -> int {
    if l >= 6 {
        1
    } else if l == 5 {
        10
    } else if l == 4 {
        100
    } else if l == 3 {
        1000
    } else if l == 2 {
        10000
    } else if l == 1 {
        100000
    } else {
        1000000
    }
}

/// An integer part past five digits saturates: every such value is far
/// outside the range any caller accepts.
pub open spec fn sat100k(v: int) -> int {
    if v > 100000 {
        100000
    } else {
        v
    }
}

/// One extra millionth when the seventh fractional digit rounds up.
pub open spec fn round_bit(fp: Seq<char>) -> int {
    if fp.len() > 6 && digit_val(fp[6]) >= 5 {
        1
    } else {
        0
    }
}

/// The magnitude of a number body in millionths: the saturated integer
/// part scaled up, plus the first six fractional digits, plus the round
/// bit of the seventh.
pub open spec fn body_magnitude_micros(b: Seq<char>) -> int {
    let dp = dot_pos(b);
    let ip = b.take(dp);
    let fp = if dp == b.len() {
        Seq::<char>::empty()
    } else {
        b.skip(dp + 1)
    };
    sat100k(digits_val(ip)) * 1000000 + digits_val(frac_digits6(fp)) * frac_scale(fp.len() as int)
        + round_bit(fp)
}

/// The signed value of a number text in millionths.
pub open spec fn number_micros(s: Seq<char>) -> int {
    if sign_len(s) == 1 {
        -body_magnitude_micros(number_body(s))
    } else {
        body_magnitude_micros(number_body(s))
    }
}

proof fn lemma_digits_val_bounds(s: Seq<char>)
    requires
        forall|i: int| 0 <= i < s.len() ==> is_digit_char(#[trigger] s[i]),
    ensures
        0 <= digits_val(s) < pow10(s.len()),
    decreases s.len(),
{
    if s.len() == 0 {
    } else {
        let t = s.drop_last();
        assert(forall|i: int| 0 <= i < t.len() ==> is_digit_char(#[trigger] t[i]));
        lemma_digits_val_bounds(t);
        assert(is_digit_char(s[s.len() - 1]));
        assert(0 <= digit_val(s[s.len() - 1]) <= 9);
    }
}

proof fn lemma_pow10_scale(n: nat)
    requires
        n <= 6,
    ensures
        pow10(n) * frac_scale(n as int) == 1000000,
    decreases n,
{
    reveal_with_fuel(pow10, 8);
}

proof fn lemma_dot_pos_at(s: Seq<char>, k: int)
    requires
        0 <= k <= s.len(),
        forall|i: int| 0 <= i < k ==> #[trigger] s[i] != '.',
        k < s.len() ==> s[k] == '.',
    ensures
        dot_pos(s) == k,
    decreases k + 1,
{
    if s.len() == 0 {
    } else if k == 0 {
    } else {
        let t = s.drop_first();
        assert(forall|i: int| 0 <= i < k - 1 ==> #[trigger] t[i] != '.');
        lemma_dot_pos_at(t, k - 1);
    }
}

/// Reads the numeric prefix of a reading as an exact decimal, `None`
/// where the text is not a well-formed number.
pub fn parse_number(v: &Vec<char>) -> (r: Option<Decimal>)
    ensures
        match r {
            Some(d) => is_number(v@) && d.micros == number_micros(v@) && -100001000000
                <= d.micros <= 100001000000,
            None => !is_number(v@),
        },
{
    let n = v.len();
    let neg = n > 0 && v[0] == '-';
    let start: usize = if neg {
        1
    } else {
        0
    };
    let ghost b = v@.skip(start as int);
    proof {
        assert(start as int == sign_len(v@));
        assert(b == number_body(v@));
    }
    if start >= n {
        assert(!is_number(v@));
        return None;
    }
    let mut j: usize = 0;
    let mut dot_idx: usize = 0;
    let mut seen_dot = false;
    let mut saw_digit = false;
    let mut int_acc: u64 = 0;
    let mut frac_cnt: usize = 0;
    let mut frac_acc: u64 = 0;
    let mut round_up = false;
    while j < n - start
        invariant
            start <= 1,
            start < n == v@.len(),
            start as int == sign_len(v@),
            b == v@.skip(start as int),
            b == number_body(v@),
            b.len() == n - start,
            j <= b.len(),
            forall|t: int| 0 <= t < j ==> is_digit_char(#[trigger] b[t]) || b[t] == '.',
            saw_digit == exists|t: int| 0 <= t < j && is_digit_char(#[trigger] b[t]),
            seen_dot ==> dot_idx < j && b[dot_idx as int] == '.',
            forall|t: int| 0 <= t < j && #[trigger] b[t] == '.' ==> seen_dot && t == dot_idx,
            !seen_dot ==> int_acc == sat100k(digits_val(b.take(j as int))) && 0 <= digits_val(
                b.take(j as int),
            ),
            seen_dot ==> int_acc == sat100k(digits_val(b.take(dot_idx as int))) && 0 <= digits_val(
                b.take(dot_idx as int),
            ),
            int_acc <= 100000,
            seen_dot ==> frac_cnt == j - dot_idx - 1,
            !seen_dot ==> frac_cnt == 0,
            seen_dot ==> frac_acc == digits_val(frac_digits6(b.subrange(dot_idx + 1, j as int))),
            !seen_dot ==> frac_acc == 0,
            frac_acc <= 999999,
            seen_dot ==> round_up == (round_bit(b.subrange(dot_idx + 1, j as int)) == 1),
            !seen_dot ==> !round_up,
        decreases n - start - j,
    {
        let c = v[start + j];
        assert(c == b[j as int]);
        match digit_of(c) {
            Some(dv64) => {
                let dv: u64 = dv64;
                if !seen_dot {
                    let ghost prefix = b.take(j as int);
                    proof {
                        assert(b.take(j + 1).drop_last() =~= prefix);
                        assert(b.take(j + 1)[j as int] == c);
                        assert(digits_val(b.take(j + 1)) == 10 * digits_val(prefix) + digit_val(
                            c,
                        ));
                    }
                    let t: u64 = 10 * int_acc + dv;
                    int_acc = if t > 100000 {
                        100000
                    } else {
                        t
                    };
                } else {
                    let ghost f = b.subrange(dot_idx + 1, j as int);
                    let ghost f2 = b.subrange(dot_idx + 1, j + 1);
                    proof {
                        assert(f2.drop_last() =~= f);
                        assert(f2[f2.len() - 1] == c);
                    }
                    if frac_cnt < 6 {
                        proof {
                            assert(frac_digits6(f2) =~= f2);
                            assert(frac_digits6(f) =~= f);
                            assert(digits_val(f2) == 10 * digits_val(f) + digit_val(c));
                            assert(forall|t: int| 0 <= t < f.len() ==> is_digit_char(
                                #[trigger] f[t],
                            ));
                            lemma_digits_val_bounds(f);
                            lemma_pow10_scale(f.len());
                            reveal_with_fuel(pow10, 8);
                        }
                        frac_acc = 10 * frac_acc + dv;
                    } else {
                        proof {
                            assert(frac_digits6(f2) =~= frac_digits6(f));
                            if frac_cnt == 6 {
                                assert(f2.len() == 7);
                                assert(f2[6] == c);
                            } else {
                                assert(f2.len() > 7);
                                assert(f2[6] == f[6]);
                            }
                        }
                        if frac_cnt == 6 {
                            round_up = dv >= 5;
                        }
                    }
                    frac_cnt = frac_cnt + 1;
                }
                saw_digit = true;
            },
            None => {
                if c == '.' {
                    if seen_dot {
                        proof {
                            assert(b[dot_idx as int] == '.' && b[j as int] == '.' && dot_idx
                                != j);
                            assert(!is_number(v@));
                        }
                        return None;
                    }
                    seen_dot = true;
                    dot_idx = j;
                    proof {
                        assert(b.take(j as int) =~= b.take(dot_idx as int));
                        assert(b.subrange(dot_idx + 1, j + 1) =~= Seq::<char>::empty());
                    }
                } else {
                    proof {
                        assert(!(is_digit_char(b[j as int]) || b[j as int] == '.'));
                        assert(!is_number(v@));
                    }
                    return None;
                }
            },
        }
        j = j + 1;
    }
    if !saw_digit {
        proof {
            assert(forall|t: int| 0 <= t < b.len() ==> !is_digit_char(#[trigger] b[t]));
            assert(!is_number(v@));
        }
        return None;
    }
    let ghost fp = if seen_dot {
        b.skip(dot_idx + 1)
    } else {
        Seq::<char>::empty()
    };
    proof {
        assert(is_number(v@));
        if seen_dot {
            assert(forall|i: int| 0 <= i < dot_idx ==> #[trigger] b[i] != '.');
            lemma_dot_pos_at(b, dot_idx as int);
            assert(fp =~= b.subrange(dot_idx + 1, b.len() as int));
        } else {
            assert(forall|i: int| 0 <= i < b.len() ==> #[trigger] b[i] != '.');
            lemma_dot_pos_at(b, b.len() as int);
            assert(b.take(b.len() as int) =~= b);
        }
    }
    let scale: u64 = if frac_cnt >= 6 {
        1
    } else if frac_cnt == 5 {
        10
    } else if frac_cnt == 4 {
        100
    } else if frac_cnt == 3 {
        1000
    } else if frac_cnt == 2 {
        10000
    } else if frac_cnt == 1 {
        100000
    } else {
        1000000
    };
    proof {
        assert(seen_dot ==> frac_cnt == fp.len());
        assert(!seen_dot ==> fp.len() == 0);
        assert(scale == frac_scale(fp.len() as int));
        assert(forall|t: int| 0 <= t < fp.len() ==> is_digit_char(#[trigger] fp[t]));
        assert(frac_acc == digits_val(frac_digits6(fp)));
        assert(round_up == (round_bit(fp) == 1));
        assert(digits_val(frac_digits6(fp)) * frac_scale(fp.len() as int) < 1000000) by {
            if fp.len() >= 6 {
                assert(frac_scale(fp.len() as int) == 1);
                assert(frac_acc <= 999999);
            } else {
                assert(frac_digits6(fp) =~= fp);
                lemma_digits_val_bounds(fp);
                lemma_pow10_scale(fp.len());
                assert(digits_val(fp) * frac_scale(fp.len() as int) < 1000000)
                    by (nonlinear_arith)
                    requires
                        0 <= digits_val(fp) < pow10(fp.len()),
                        pow10(fp.len()) * frac_scale(fp.len() as int) == 1000000,
                        frac_scale(fp.len() as int) >= 1,
                ;
            }
        }
    }
    let magnitude: u64 = int_acc * 1000000 + frac_acc * scale + if round_up {
        1u64
    } else {
        0u64
    };
    proof {
        assert(magnitude == body_magnitude_micros(b));
        assert(magnitude <= 100001000000);
    }
    if neg {
        Some(Decimal { micros: -(magnitude as i64) })
    } else {
        Some(Decimal { micros: magnitude as i64 })
    }
}

} // verus!
