//! Splitting the serial byte stream into frames and keeping bounded raw text.
use vstd::prelude::*;
use crate::text::{chars_of, string_from_range, trim, trim_bounds, vec_range, lemma_trim_is_subrange};
use crate::utf8len::{byte_suffix_start, has_byte_suffix, is_byte_suffix_start};

verus! {

/// Characters that end a serial frame.
pub open spec fn is_line_break(c: char) -> bool {
    c == '\r' || c == '\n'
}

/// Index of the first line break in `s` at or after `i` (`s.len()` when none).
pub open spec fn next_break(s: Seq<char>, i: int) -> int
    decreases s.len() - i,
{
    if i < 0 || i >= s.len() {
        s.len() as int
    } else if is_line_break(s[i]) {
        i
    } else {
        next_break(s, i + 1)
    }
}

/// Index just after the run of line breaks that starts at `i`.
pub open spec fn break_run_end(s: Seq<char>, i: int) -> int
    decreases s.len() - i,
{
    if 0 <= i < s.len() && is_line_break(s[i]) {
        break_run_end(s, i + 1)
    } else {
        i
    }
}

/// Takes the first complete frame from `buffer`: the text before the first
/// `\r` or `\n`, and what follows the run of line breaks that ends it.
/// `None` when the buffer holds no line break yet.
pub fn pop_serial_frame(buffer: &str) -> (r: Option<(String, String)>)
    ensures
        r is None <==> next_break(buffer@, 0) == buffer@.len(),
        r matches Some((frame, rest)) ==> {
            let k = next_break(buffer@, 0);
            &&& frame@ == buffer@.take(k)
            &&& rest@ == buffer@.skip(break_run_end(buffer@, k))
        },
{
    let v = chars_of(buffer);
    let mut n: usize = 0;
    while n < v.len() && !(v[n] == '\r' || v[n] == '\n')
        invariant
            n <= v@.len(),
            v@ == buffer@,
            next_break(v@, 0) == next_break(v@, n as int),
        decreases v.len() - n,
    {
        n += 1;
    }
    if n == v.len() {
        return None;
    }
    let mut m: usize = n;
    while m < v.len() && (v[m] == '\r' || v[m] == '\n')
        invariant
            n <= m <= v@.len(),
            v@ == buffer@,
            break_run_end(v@, n as int) == break_run_end(v@, m as int),
        decreases v.len() - m,
    {
        m += 1;
    }
    let frame = string_from_range(&v, 0, n);
    let rest = string_from_range(&v, m, v.len());
    assert(v@.subrange(0, n as int) =~= v@.take(n as int));
    assert(v@.subrange(m as int, v@.len() as int) =~= v@.skip(m as int));
    Some((frame, rest))
}

/// What `pop_serial_frame` returns puts the buffer back together: the frame,
/// the line breaks that end it, and the rest. The frame holds no line break
/// and the rest does not start with one.
pub proof fn pop_serial_frame_partitions(buffer: Seq<char>)
    requires
        next_break(buffer, 0) < buffer.len(),
    ensures
        ({
            let k = next_break(buffer, 0);
            let e = break_run_end(buffer, k);
            &&& k < e <= buffer.len()
            &&& buffer == buffer.take(k) + buffer.subrange(k, e) + buffer.skip(e)
            &&& forall|i: int| 0 <= i < k ==> !is_line_break(#[trigger] buffer[i])
            &&& forall|i: int| k <= i < e ==> is_line_break(#[trigger] buffer[i])
            &&& e == buffer.len() || !is_line_break(buffer[e])
        }),
{
    lemma_next_break(buffer, 0);
    let k = next_break(buffer, 0);
    lemma_break_run_end(buffer, k);
    let e = break_run_end(buffer, k);
    assert(buffer =~= buffer.take(k) + buffer.subrange(k, e) + buffer.skip(e));
}

proof fn lemma_next_break(s: Seq<char>, i: int)
    requires
        0 <= i <= s.len(),
    ensures
        i <= next_break(s, i) <= s.len(),
        next_break(s, i) < s.len() ==> is_line_break(s[next_break(s, i)]),
        forall|j: int| i <= j < next_break(s, i) ==> !is_line_break(#[trigger] s[j]),
    decreases s.len() - i,
{
    if i < s.len() && !is_line_break(s[i]) {
        lemma_next_break(s, i + 1);
    }
}

proof fn lemma_break_run_end(s: Seq<char>, i: int)
    requires
        0 <= i <= s.len(),
    ensures
        i <= break_run_end(s, i) <= s.len(),
        forall|j: int| i <= j < break_run_end(s, i) ==> is_line_break(#[trigger] s[j]),
        break_run_end(s, i) == s.len() || !is_line_break(s[break_run_end(s, i)]),
    decreases s.len() - i,
{
    if i < s.len() && is_line_break(s[i]) {
        lemma_break_run_end(s, i + 1);
    }
}

/// Joins `existing` and `chunk` and keeps at most the last `max` bytes of the
/// result. The cut must fall on a character boundary (a byte slice through
/// a character panics), which `has_byte_suffix` states.
pub fn append_raw(existing: &str, chunk: &str, max: usize) -> (r: String)
    requires
        has_byte_suffix(existing@ + chunk@, max as nat),
    ensures
        exists|k: int|
            is_byte_suffix_start(existing@ + chunk@, max as nat, k) && r@ == (existing@
                + chunk@).skip(k),
{
    let mut v = chars_of(existing);
    let w = chars_of(chunk);
    let mut i: usize = 0;
    let ghost start = v@;
    while i < w.len()
        invariant
            i <= w@.len(),
            start == existing@,
            w@ == chunk@,
            v@ == start + w@.take(i as int),
        decreases w.len() - i,
    {
        v.push(w[i]);
        i += 1;
        assert(v@ =~= start + w@.take(i as int));
    }
    assert(w@.take(w@.len() as int) =~= w@);
    let k = byte_suffix_start(&v, max);
    let r = string_from_range(&v, k, v.len());
    assert(v@.subrange(k as int, v@.len() as int) =~= v@.skip(k as int));
    r
}

/// The escaped form of one character: `\r` and `\n` become the two-character
/// texts `\\r` and `\\n`, every other character stays.
pub open spec fn escape_break(c: char) -> Seq<char> {
    if c == '\r' {
        seq!['\\', 'r']
    } else if c == '\n' {
        seq!['\\', 'n']
    } else {
        seq![c]
    }
}

/// `s` with every line break written as its escape.
pub open spec fn escape_breaks(s: Seq<char>) -> Seq<char>
    decreases s.len(),
{
    if s.len() == 0 {
        Seq::empty()
    } else {
        escape_breaks(s.drop_last()) + escape_break(s.last())
    }
}

proof fn lemma_escape_breaks_free(s: Seq<char>)
    ensures
        forall|i: int| 0 <= i < escape_breaks(s).len() ==> !is_line_break(#[trigger] escape_breaks(s)[i]),
    decreases s.len(),
{
    if s.len() > 0 {
        lemma_escape_breaks_free(s.drop_last());
        let p = escape_breaks(s.drop_last());
        let q = escape_break(s.last());
        assert forall|i: int| 0 <= i < (p + q).len() implies !is_line_break(#[trigger] (p + q)[i]) by {
            if i >= p.len() {
                assert((p + q)[i] == q[i - p.len()]);
            }
        }
    }
}

/// Text with line breaks escaped and white space trimmed, of which at most
/// the last `max` bytes are kept. The cut must fall on a character boundary.
pub open spec fn sanitized(raw: Seq<char>) -> Seq<char> {
    trim(escape_breaks(raw))
}

/// A one-line form of `raw` for logs and status: line breaks escaped, outer
/// white space trimmed, at most the last `max` bytes kept.
pub fn sanitize_inline(raw: &str, max: usize) -> (r: String)
    requires
        has_byte_suffix(sanitized(raw@), max as nat),
    ensures
        exists|k: int| is_byte_suffix_start(sanitized(raw@), max as nat, k) && r@ == sanitized(raw@).skip(k),
{
    let v = chars_of(raw);
    let mut e: Vec<char> = Vec::new();
    let mut i: usize = 0;
    while i < v.len()
        invariant
            i <= v@.len(),
            v@ == raw@,
            e@ == escape_breaks(v@.take(i as int)),
        decreases v.len() - i,
    {
        let c = v[i];
        assert(v@.take(i + 1).drop_last() =~= v@.take(i as int));
        if c == '\r' {
            e.push('\\');
            e.push('r');
        } else if c == '\n' {
            e.push('\\');
            e.push('n');
        } else {
            e.push(c);
        }
        i += 1;
        assert(e@ =~= escape_breaks(v@.take(i as int)));
    }
    assert(v@.take(v@.len() as int) =~= v@);
    let (a, b) = trim_bounds(&e);
    let t = vec_range(&e, a, b);
    let k = byte_suffix_start(&t, max);
    let r = string_from_range(&t, k, t.len());
    assert(t@.subrange(k as int, t@.len() as int) =~= t@.skip(k as int));
    r
}

/// `sanitize_inline` never leaves a raw line break in its result.
pub proof fn sanitized_has_no_line_breaks(raw: Seq<char>, k: int)
    requires
        0 <= k <= sanitized(raw).len(),
    ensures
        forall|i: int| 0 <= i < sanitized(raw).skip(k).len()
            ==> !is_line_break(#[trigger] sanitized(raw).skip(k)[i]),
{
    let e = escape_breaks(raw);
    lemma_escape_breaks_free(raw);
    lemma_trim_is_subrange(e);
    let t = sanitized(raw);
    assert forall|i: int| 0 <= i < t.skip(k).len() implies !is_line_break(#[trigger] t.skip(k)[i]) by {
        let (a, b) = choose|a: int, b: int| 0 <= a <= b <= e.len() && trim(e) == e.subrange(a, b);
        assert(t.skip(k)[i] == e[a + k + i]);
    }
}

} // verus!
