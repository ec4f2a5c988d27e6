//! Which decimal texts the parser accepts as weights: digits with an
//! optional fraction, whose value read as an `f64` lies within a million.
use vstd::prelude::*;
use crate::text::{all_digits, chars_of, digits_value, is_ascii_digit, lemma_digits_value_prefix, vec_range};

verus! {

/// Index of the first `.` in `s` at or after `i`, `s.len()` when none.
pub open spec fn next_point(s: Seq<char>, i: int) -> int
    decreases s.len() - i,
{
    if i < 0 || i >= s.len() {
        s.len() as int
    } else if s[i] == '.' {
        i
    } else {
        next_point(s, i + 1)
    }
}

/// The integer digits of a number text without its sign.
pub open spec fn integer_part(b: Seq<char>) -> Seq<char> {
    b.take(next_point(b, 0))
}

/// The fraction digits of a number text without its sign.
pub open spec fn fraction_part(b: Seq<char>) -> Seq<char> {
    let k = next_point(b, 0);
    if k < b.len() {
        b.skip(k + 1)
    } else {
        Seq::empty()
    }
}

/// Digits, optionally followed by a point and more digits.
pub open spec fn is_decimal_body(b: Seq<char>) -> bool {
    let k = next_point(b, 0);
    &&& k > 0
    &&& all_digits(b.take(k))
    &&& k < b.len() ==> b.len() > k + 1 && all_digits(b.skip(k + 1))
}

/// The fraction digits of `1e6 + 2^-34`, the largest decimal that an `f64`
/// parse still rounds to 1,000,000 (round half to even).
pub const LIMIT_FRACTION: &'static str = "0000000000582076609134674072265625";

/// Whether the decimal fraction with digits `a` is at most the one with digits `b`.
pub open spec fn fraction_at_most(a: Seq<char>, b: Seq<char>) -> bool
    decreases a.len(),
{
    if a.len() == 0 {
        true
    } else if b.len() == 0 {
        a[0] == '0' && fraction_at_most(a.drop_first(), b)
    } else if a[0] < b[0] {
        true
    } else if a[0] > b[0] {
        false
    } else {
        fraction_at_most(a.drop_first(), b.drop_first())
    }
}

/// The number text without its sign parses to an `f64` whose magnitude is at
/// most 1,000,000.
pub open spec fn within_limit(b: Seq<char>) -> bool {
    let v = digits_value(integer_part(b));
    v < 1000000 || (v == 1000000 && fraction_at_most(fraction_part(b), LIMIT_FRACTION@))
}

/// A number text without its leading `+` or `-`.
pub open spec fn unsigned_part(t: Seq<char>) -> Seq<char> {
    if t.len() > 0 && (t[0] == '+' || t[0] == '-') {
        t.drop_first()
    } else {
        t
    }
}

/// A weight text that the parser accepts: a decimal number whose value
/// lies in [-1,000,000, 1,000,000] once read as an `f64`.
pub open spec fn is_accepted_weight(t: Seq<char>) -> bool {
    is_decimal_body(unsigned_part(t)) && within_limit(unsigned_part(t))
}

/// Whether the decimal fraction `a` is at most the one with the digits of `LIMIT_FRACTION`.
fn fraction_within(a: &Vec<char>) -> (r: bool)
    ensures
        r == fraction_at_most(a@, LIMIT_FRACTION@),
{
    let b = chars_of(LIMIT_FRACTION);
    let mut i: usize = 0;
    assert(a@.skip(0) =~= a@);
    assert(rest_from(b@, 0) =~= b@);
    while i < a.len()
        invariant
            i <= a@.len(),
            b@ == LIMIT_FRACTION@,
            fraction_at_most(a@, b@) == fraction_at_most(a@.skip(i as int), rest_from(b@, i as int)),
        decreases a.len() - i,
    {
        assert(a@.skip(i as int).drop_first() =~= a@.skip(i + 1));
        assert(a@.skip(i as int)[0] == a@[i as int]);
        if i >= b.len() {
            if a[i] != '0' {
                return false;
            }
        } else {
            assert(b@.skip(i as int).drop_first() =~= rest_from(b@, i + 1));
            assert(b@.skip(i as int)[0] == b@[i as int]);
            if a[i] < b[i] {
                return true;
            }
            if a[i] > b[i] {
                return false;
            }
        }
        i += 1;
    }
    assert(a@.skip(i as int) =~= Seq::<char>::empty());
    true
}

/// The part of `s` from index `i` on, empty past its end.
pub open spec fn rest_from(s: Seq<char>, i: int) -> Seq<char> {
    if 0 <= i < s.len() {
        s.skip(i)
    } else {
        Seq::empty()
    }
}

/// Whether `t` is an accepted weight text.
pub(crate) fn accepted_weight(t: &Vec<char>) -> (r: bool)
    ensures
        r == is_accepted_weight(t@),
{
    let start: usize = if t.len() > 0 && (t[0] == '+' || t[0] == '-') {
        1
    } else {
        0
    };
    let b = vec_range(t, start, t.len());
    assert(b@ == unsigned_part(t@)) by {
        if start == 1 {
            assert(t@.subrange(1, t@.len() as int) =~= t@.drop_first());
        } else {
            assert(t@.subrange(0, t@.len() as int) =~= t@);
        }
    }
    let mut k: usize = 0;
    while k < b.len() && b[k] != '.'
        invariant
            k <= b@.len(),
            next_point(b@, 0) == next_point(b@, k as int),
            forall|j: int| 0 <= j < k ==> b@[j] != '.',
        decreases b.len() - k,
    {
        k += 1;
    }
    assert(next_point(b@, 0) == k);
    if k == 0 {
        return false;
    }
    let mut i: usize = 0;
    let mut value: u64 = 0;
    let mut over = false;
    while i < k
        invariant
            i <= k <= b@.len(),
            k == next_point(b@, 0),
            b@ == unsigned_part(t@),
            all_digits(b@.take(i as int)),
            !over ==> value == digits_value(b@.take(i as int)) && value <= 1000000,
            over ==> digits_value(b@.take(i as int)) > 1000000,
        decreases k - i,
    {
        let c = b[i];
        if !('0' <= c && c <= '9') {
            assert(!all_digits(b@.take(k as int))) by {
                assert(b@.take(k as int)[i as int] == c);
            }
            assert(!is_decimal_body(b@));
            return false;
        }
        assert(b@.take(i + 1).drop_last() =~= b@.take(i as int));
        assert(all_digits(b@.take(i + 1))) by {
            assert forall|j: int| 0 <= j < i + 1 implies is_ascii_digit(#[trigger] b@.take(i + 1)[j]) by {
                if j < i {
                    assert(b@.take(i + 1)[j] == b@.take(i as int)[j]);
                }
            }
        }
        if !over {
            value = value * 10 + (c as u64 - 48);
            if value > 1000000 {
                over = true;
            }
        } else {
            assert(digits_value(b@.take(i + 1)) >= digits_value(b@.take(i as int)));
        }
        i += 1;
    }
    let ip = vec_range(&b, 0, k);
    assert(ip@ =~= b@.take(k as int));
    let fp = if k < b.len() {
        vec_range(&b, k + 1, b.len())
    } else {
        Vec::new()
    };
    assert(fp@ == fraction_part(b@)) by {
        if k < b.len() {
            assert(b@.subrange(k + 1, b@.len() as int) =~= b@.skip(k + 1));
        }
    }
    if k < b.len() {
        if fp.len() == 0 {
            return false;
        }
        let mut j: usize = 0;
        while j < fp.len()
            invariant
                j <= fp@.len(),
                k < b@.len(),
                k == next_point(b@, 0),
                b@ == unsigned_part(t@),
                fp@ == b@.skip(k + 1),
                forall|q: int| 0 <= q < j ==> is_ascii_digit(#[trigger] fp@[q]),
            decreases fp.len() - j,
        {
            if !('0' <= fp[j] && fp[j] <= '9') {
                assert(!all_digits(b@.skip(k + 1))) by {
                    assert(b@.skip(k + 1)[j as int] == fp@[j as int]);
                }
                assert(!is_decimal_body(b@));
                return false;
            }
            j += 1;
        }
        assert(fp@ =~= b@.skip(k + 1));
    }
    proof {
        lemma_digits_value_prefix(b@.take(k as int), i as int);
        assert(b@.take(k as int).take(i as int) =~= b@.take(i as int));
    }
    if over {
        return false;
    }
    if value < 1000000 {
        return true;
    }
    fraction_within(&fp)
}

proof fn lemma_next_point_at(s: Seq<char>, i: int, k: int)
    requires
        0 <= i <= k <= s.len(),
        forall|j: int| i <= j < k ==> #[trigger] s[j] != '.',
        k == s.len() || s[k] == '.',
    ensures
        next_point(s, i) == k,
    decreases k - i,
{
    if i < k {
        lemma_next_point_at(s, i + 1, k);
    }
}

proof fn lemma_number_text(sign: Seq<char>, int_digits: Seq<char>, tail: Seq<char>)
    requires
        sign == Seq::<char>::empty() || sign == seq!['+'] || sign == seq!['-'],
        int_digits.len() > 0,
        all_digits(int_digits),
        tail.len() == 0 || tail[0] == '.',
    ensures
        unsigned_part(sign + int_digits + tail) == int_digits + tail,
        next_point(int_digits + tail, 0) == int_digits.len(),
        integer_part(int_digits + tail) == int_digits,
        (int_digits + tail).skip(int_digits.len() + 1int) == tail.drop_first() || tail.len() == 0,
{
    let b = int_digits + tail;
    assert(is_ascii_digit(int_digits[0]));
    assert(b[0] == int_digits[0]);
    if sign.len() == 0 {
        assert(sign + int_digits + tail =~= b);
    } else {
        assert((sign + int_digits + tail)[0] == sign[0]);
        assert((sign + int_digits + tail).drop_first() =~= b);
    }
    assert forall|j: int| 0 <= j < int_digits.len() implies #[trigger] b[j] != '.' by {
        assert(b[j] == int_digits[j]);
        assert(is_ascii_digit(int_digits[j]));
    }
    if tail.len() > 0 {
        assert(b[int_digits.len() as int] == tail[0]);
        assert(b.skip(int_digits.len() + 1int) =~= tail.drop_first());
    }
    lemma_next_point_at(b, 0, int_digits.len() as int);
    assert(b.take(int_digits.len() as int) =~= int_digits);
}

/// Weights read as `str::parse::<f64>` reads decimal text: a number with an
/// optional `+` or `-`, at least one integer digit (leading zeros allowed, so
/// `+0001.250` counts like `+1.250`) and an optional point with fraction
/// digits is accepted when its integer part is below a million, and refused
/// when its integer part is above a million.
pub proof fn decimal_numbers_are_accepted_within_limit(
    sign: Seq<char>,
    int_digits: Seq<char>,
    frac: Seq<char>,
)
    requires
        sign == Seq::<char>::empty() || sign == seq!['+'] || sign == seq!['-'],
        int_digits.len() > 0,
        all_digits(int_digits),
        frac.len() > 0,
        all_digits(frac),
    ensures
        digits_value(int_digits) < 1000000 ==> is_accepted_weight(sign + int_digits)
            && is_accepted_weight(sign + int_digits + seq!['.'] + frac),
        digits_value(int_digits) > 1000000 ==> !is_accepted_weight(sign + int_digits)
            && !is_accepted_weight(sign + int_digits + seq!['.'] + frac),
{
    let empty = Seq::<char>::empty();
    let tail = seq!['.'] + frac;
    lemma_number_text(sign, int_digits, empty);
    lemma_number_text(sign, int_digits, tail);
    assert(int_digits + empty =~= int_digits);
    assert(sign + int_digits + seq!['.'] + frac =~= sign + int_digits + tail);
    assert(tail.drop_first() =~= frac);
    let b = int_digits + tail;
    assert(b.skip(int_digits.len() + 1int) =~= frac);
}

} // verus!
