//! Byte lengths of text under the UTF-8 encoding.
use vstd::prelude::*;
use vstd::utf8::encode_scalar;
use vstd::utf8::encode_utf8;
use vstd::utf8::char_is_scalar;

verus! {

/// Number of bytes that the UTF-8 encoding of `s` takes (what `str::len` reports).
pub open spec fn utf8_len(s: Seq<char>) -> nat {
    encode_utf8(s).len()
}

/// Number of bytes that the UTF-8 encoding of `c` takes.
pub open spec fn char_len(c: char) -> nat {
    encode_scalar(c as u32).len()
}

/// `char::len_utf8`.
pub fn char_utf8_len(c: char) -> (r: usize)
    ensures
        r == char_len(c),
        1 <= r <= 4,
{
    proof {
        char_is_scalar(c);
    }
    let u = c as u32;
    if u <= 0x7f {
        1
    } else if u <= 0x7ff {
        2
    } else if u <= 0xffff {
        3
    } else {
        4
    }
}

pub proof fn lemma_char_len_bounds(c: char)
    ensures
        1 <= char_len(c) <= 4,
{
    char_is_scalar(c);
}

/// Dropping the first character removes exactly its encoded bytes.
pub proof fn lemma_utf8_len_skip_step(s: Seq<char>, k: int)
    requires
        0 <= k < s.len(),
    ensures
        utf8_len(s.skip(k)) == char_len(s[k]) + utf8_len(s.skip(k + 1)),
{
    assert(s.skip(k).drop_first() =~= s.skip(k + 1));
    assert(s.skip(k)[0] == s[k]);
}

/// The byte length of a suffix strictly shrinks as the suffix starts later.
pub proof fn lemma_utf8_len_skip_strict(s: Seq<char>, k1: int, k2: int)
    requires
        0 <= k1 < k2 <= s.len(),
    ensures
        utf8_len(s.skip(k1)) > utf8_len(s.skip(k2)),
    decreases k2 - k1,
{
    lemma_utf8_len_skip_step(s, k1);
    lemma_char_len_bounds(s[k1]);
    if k1 + 1 < k2 {
        lemma_utf8_len_skip_strict(s, k1 + 1, k2);
    }
}

/// Encoding distributes over concatenation.
pub proof fn lemma_utf8_len_concat(a: Seq<char>, b: Seq<char>)
    ensures
        utf8_len(a + b) == utf8_len(a) + utf8_len(b),
    decreases a.len(),
{
    if a.len() > 0 {
        assert((a + b).drop_first() =~= a.drop_first() + b);
        assert((a + b)[0] == a[0]);
        lemma_utf8_len_concat(a.drop_first(), b);
    } else {
        assert(a + b =~= b);
    }
}

/// The encoding of a text where every character is ASCII takes one byte per character.
pub proof fn lemma_utf8_len_ascii(s: Seq<char>)
    requires
        forall|i: int| 0 <= i < s.len() ==> (#[trigger] s[i] as u32) < 0x80,
    ensures
        utf8_len(s) == s.len(),
    decreases s.len(),
{
    if s.len() > 0 {
        assert(s.skip(0) =~= s);
        lemma_utf8_len_skip_step(s, 0);
        assert(s.skip(1) =~= s.drop_first());
        lemma_utf8_len_ascii(s.drop_first());
    }
}

/// `s` keeps a byte suffix of at most `max` bytes that starts on a character
/// boundary: either all of `s` fits, or some suffix takes exactly `max` bytes.
pub open spec fn has_byte_suffix(s: Seq<char>, max: nat) -> bool {
    utf8_len(s) <= max || exists|k: int| 0 <= k <= s.len() && utf8_len(#[trigger] s.skip(k)) == max
}

/// The start of the byte suffix of `s` of at most `max` bytes: all of `s`
/// when it fits, else the suffix of exactly `max` bytes (what the byte slice
/// `&text[text.len() - max..]` cuts).
pub open spec fn is_byte_suffix_start(s: Seq<char>, max: nat, k: int) -> bool {
    &&& 0 <= k <= s.len()
    &&& utf8_len(s) <= max ==> k == 0
    &&& utf8_len(s) > max ==> utf8_len(s.skip(k)) == max
}

/// The longest suffix of `v` that takes at most `max` bytes: it starts at
/// `k` and takes `acc` bytes; the character before it would not fit.
fn longest_suffix_within(v: &Vec<char>, max: usize) -> (r: (usize, usize))
    ensures
        r.0 <= v@.len(),
        r.1 <= max,
        r.1 == utf8_len(v@.skip(r.0 as int)),
        r.0 > 0 ==> char_len(v@[r.0 - 1]) + r.1 > max,
{
    let mut k: usize = v.len();
    let mut acc: usize = 0;
    assert(v@.skip(k as int) =~= Seq::<char>::empty());
    while k > 0 && char_utf8_len(v[k - 1]) <= max - acc
        invariant
            k <= v@.len(),
            acc <= max,
            acc == utf8_len(v@.skip(k as int)),
        decreases k,
    {
        let c = char_utf8_len(v[k - 1]);
        proof {
            lemma_utf8_len_skip_step(v@, k - 1);
        }
        acc = acc + c;
        k = k - 1;
    }
    (k, acc)
}

proof fn lemma_longest_suffix(s: Seq<char>, max: nat, k: int, acc: nat)
    requires
        0 <= k <= s.len(),
        acc <= max,
        acc == utf8_len(s.skip(k)),
        k > 0 ==> char_len(s[k - 1]) + acc > max,
    ensures
        has_byte_suffix(s, max) <==> (k == 0 || acc == max),
        has_byte_suffix(s, max) ==> is_byte_suffix_start(s, max, k),
{
    assert(s.skip(0) =~= s);
    if k > 0 {
        lemma_utf8_len_skip_step(s, k - 1);
        if k - 1 > 0 {
            lemma_utf8_len_skip_strict(s, 0, k - 1);
        }
        assert(utf8_len(s) > max);
        if acc < max && has_byte_suffix(s, max) {
            let kk = choose|kk: int| 0 <= kk <= s.len() && utf8_len(#[trigger] s.skip(kk)) == max;
            if kk < k - 1 {
                lemma_utf8_len_skip_strict(s, kk, k - 1);
            } else if kk > k {
                lemma_utf8_len_skip_strict(s, k, kk);
            }
            assert(false);
        }
        if acc == max {
            assert(utf8_len(s.skip(k)) == max);
        }
    }
}

/// Index `k` where the longest suffix of `v` of at most `max` UTF-8 bytes starts.
pub fn byte_suffix_start(v: &Vec<char>, max: usize) -> (k: usize)
    requires
        has_byte_suffix(v@, max as nat),
    ensures
        is_byte_suffix_start(v@, max as nat, k as int),
{
    let (k, acc) = longest_suffix_within(v, max);
    proof {
        lemma_longest_suffix(v@, max as nat, k as int, acc as nat);
    }
    k
}

/// Whether keeping the last `max` bytes of `v` cuts on a character boundary.
pub fn fits_byte_suffix(v: &Vec<char>, max: usize) -> (r: bool)
    ensures
        r == has_byte_suffix(v@, max as nat),
{
    let (k, acc) = longest_suffix_within(v, max);
    proof {
        lemma_longest_suffix(v@, max as nat, k as int, acc as nat);
    }
    k == 0 || acc == max
}

} // verus!
