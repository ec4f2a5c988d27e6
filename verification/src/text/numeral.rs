//! Decimal numerals: writing unsigned numbers and reading them back as
//! `str::parse` does.
use vstd::prelude::*;
use super::push_char;

verus! {


/// The decimal digit character for `d < 10`.
pub open spec fn digit_char(d: nat) -> char {
    ((0x30 + d) as u8) as char
}


/// The decimal numeral of `n`, without sign or leading zeros.
pub open spec fn decimal(n: nat) -> Seq<char>
    decreases n,
{
    if n < 10 {
        seq![digit_char(n)]
    } else {
        decimal(n / 10).push(digit_char(n % 10))
    }
}


fn digit_of(d: u64) -> (c: char)
    requires
        d < 10,
    ensures
        c == digit_char(d as nat),
{
    ((0x30u8 + d as u8)) as char
}


/// Appends the decimal numeral of `n` to `out` (what `format!("{}", n)` writes).
pub fn push_decimal(out: &mut String, n: u64)
    ensures
        final(out)@ == old(out)@ + decimal(n as nat),
{
    let ghost start = out@;
    let mut m = n;
    let mut rev: Vec<char> = Vec::new();
    let ghost mut tail: Seq<char> = Seq::empty();
    while m >= 10
        invariant
            decimal(n as nat) == decimal(m as nat) + tail,
            rev@ == tail.reverse(),
            out@ == start,
        decreases m,
    {
        let d = m % 10;
        let c = digit_of(d);
        rev.push(c);
        proof {
            tail = seq![c] + tail;
            assert(rev@ =~= tail.reverse());
            assert(decimal(m as nat) == decimal((m / 10) as nat).push(c));
            assert(decimal((m / 10) as nat) + tail =~= decimal((m / 10) as nat).push(c) + tail.drop_first());
        }
        m = m / 10;
    }
    push_char(out, digit_of(m));
    let mut i = rev.len();
    while i > 0
        invariant
            i <= rev@.len(),
            rev@ == tail.reverse(),
            out@ == start + seq![digit_char(m as nat)] + tail.take(tail.len() - i),
        decreases i,
    {
        i -= 1;
        push_char(out, rev[i]);
        assert(out@ =~= start + seq![digit_char(m as nat)] + tail.take(tail.len() - i));
    }
    assert(tail.take(tail.len() as int) =~= tail);
    assert(decimal(m as nat) == seq![digit_char(m as nat)]);
    assert(out@ =~= start + decimal(n as nat));
}


pub open spec fn is_ascii_digit(c: char) -> bool {
    '0' <= c <= '9'
}


pub open spec fn all_digits(s: Seq<char>) -> bool {
    forall|i: int| 0 <= i < s.len() ==> is_ascii_digit(#[trigger] s[i])
}


/// The value of a string of ASCII digits.
pub open spec fn digits_value(s: Seq<char>) -> nat
    decreases s.len(),
{
    if s.len() == 0 {
        0
    } else {
        digits_value(s.drop_last()) * 10 + ((s.last() as nat) - 48) as nat
    }
}


pub proof fn lemma_digits_value_prefix(s: Seq<char>, i: int)
    requires
        0 <= i <= s.len(),
    ensures
        digits_value(s.take(i)) <= digits_value(s),
    decreases s.len() - i,
{
    if i < s.len() {
        lemma_digits_value_prefix(s, i + 1);
        assert(s.take(i + 1).drop_last() =~= s.take(i));
    } else {
        assert(s.take(i) =~= s);
    }
}


/// What `str::parse::<u16>` gives: an optional `+`, then at least one ASCII
/// digit, with a value that fits in 16 bits.
pub open spec fn parse_u16(t: Seq<char>) -> Option<u16> {
    let d = if t.len() > 0 && t[0] == '+' {
        t.drop_first()
    } else {
        t
    };
    if d.len() == 0 || !all_digits(d) || digits_value(d) > 65535 {
        None
    } else {
        Some(digits_value(d) as u16)
    }
}


/// `str::parse::<u16>` on the characters `v[start..end]`.
pub fn parse_u16_chars(v: &Vec<char>, start: usize, end: usize) -> (r: Option<u16>)
    requires
        start <= end <= v@.len(),
    ensures
        r == parse_u16(v@.subrange(start as int, end as int)),
{
    let ghost t = v@.subrange(start as int, end as int);
    let first = if start < end && v[start] == '+' {
        start + 1
    } else {
        start
    };
    let ghost d = v@.subrange(first as int, end as int);
    assert(d =~= if t.len() > 0 && t[0] == '+' { t.drop_first() } else { t });
    if first == end {
        return None;
    }
    let mut i = first;
    let mut value: u32 = 0;
    while i < end
        invariant
            first <= i <= end <= v@.len(),
            first < end,
            d == v@.subrange(first as int, end as int),
            t == v@.subrange(start as int, end as int),
            d == (if t.len() > 0 && t[0] == '+' { t.drop_first() } else { t }),
            all_digits(d.take(i - first)),
            value == digits_value(d.take(i - first)),
            value <= 65535,
        decreases end - i,
    {
        let c = v[i];
        assert(d[i - first] == c);
        if !('0' <= c && c <= '9') {
            assert(!all_digits(d));
            return None;
        }
        assert(d.take(i - first + 1).drop_last() =~= d.take(i - first));
        assert(all_digits(d.take(i - first + 1))) by {
            assert forall|j: int| 0 <= j < i - first + 1 implies is_ascii_digit(#[trigger] d.take(i - first + 1)[j]) by {
                if j < i - first {
                    assert(d.take(i - first + 1)[j] == d.take(i - first)[j]);
                }
            }
        }
        value = value * 10 + (c as u32 - 48);
        i += 1;
        if value > 65535 {
            proof {
                lemma_digits_value_prefix(d, i - first);
            }
            return None;
        }
    }
    assert(d.take(i - first) =~= d);
    Some(value as u16)
}


/// The decimal numeral of a number is all digits and reads back as that number.
pub proof fn lemma_decimal_digits(n: nat)
    ensures
        all_digits(decimal(n)),
        digits_value(decimal(n)) == n,
        decimal(n).len() > 0,
    decreases n,
{
    if n >= 10 {
        lemma_decimal_digits(n / 10);
        let p = decimal(n / 10);
        assert(decimal(n).drop_last() =~= p);
        let d = n % 10;
        assert(decimal(n).last() == digit_char(d));
        assert((digit_char(d) as nat) == 48 + d);
        assert(n == (n / 10) * 10 + d);
        assert(digits_value(decimal(n)) == digits_value(p) * 10 + ((decimal(n).last() as nat) - 48) as nat);
        assert forall|i: int| 0 <= i < decimal(n).len() implies is_ascii_digit(#[trigger] decimal(n)[i]) by {
            if i < p.len() {
                assert(decimal(n)[i] == p[i]);
            }
        }
    } else {
        let t = decimal(n);
        assert((digit_char(n) as nat) == 48 + n);
        assert(t.drop_last() =~= Seq::<char>::empty());
        assert(digits_value(t) == digits_value(t.drop_last()) * 10 + ((t.last() as nat) - 48) as nat);
    }
}


/// Formatting a 16-bit number in decimal and parsing it back gives the number.
pub proof fn decimal_parses_back(n: u16)
    ensures
        parse_u16(decimal(n as nat)) == Some(n),
{
    lemma_decimal_digits(n as nat);
    let t = decimal(n as nat);
    assert(is_ascii_digit(t[0]));
}

} // verus!
