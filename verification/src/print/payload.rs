//! The scan link that a label's QR code carries.
use vstd::prelude::*;
use crate::text::{push_char, push_str};

verus! {

/// Where the scan links point.
pub const DEFAULT_QR_BASE_URL: &'static str = "https://scan.wspace.sbs/L";

/// Bytes that a query component keeps as they are: ASCII letters and
/// digits, `-`, `_`, `.` and `~`.
pub open spec fn is_unreserved(b: u8) -> bool {
    (0x41 <= b <= 0x5a) || (0x61 <= b <= 0x7a) || (0x30 <= b <= 0x39) || b == 0x2d || b == 0x5f
        || b == 0x2e || b == 0x7e
}

/// Upper-case hexadecimal digit of `n < 16`.
pub open spec fn hex_digit(n: u8) -> char {
    if n < 10 {
        ((0x30 + n) as u8) as char
    } else {
        ((0x41 + n - 10) as u8) as char
    }
}

/// A byte as it appears in a query component: unreserved bytes stay, a
/// space becomes `+`, every other byte becomes `%` and two upper-case hex digits.
pub open spec fn escape_byte(b: u8) -> Seq<char> {
    if is_unreserved(b) {
        seq![b as char]
    } else if b == 0x20 {
        seq!['+']
    } else {
        seq!['%', hex_digit(b / 16), hex_digit(b % 16)]
    }
}

/// Query-component escaping of a byte string (Go's `url.QueryEscape`).
pub open spec fn query_escape(bytes: Seq<u8>) -> Seq<char>
    decreases bytes.len(),
{
    if bytes.len() == 0 {
        Seq::empty()
    } else {
        query_escape(bytes.drop_last()) + escape_byte(bytes.last())
    }
}

/// The UTF-8 bytes of a text, escaped for a query component.
pub open spec fn escape_text(s: Seq<char>) -> Seq<char> {
    query_escape(vstd::utf8::encode_utf8(s))
}

fn hex_char(n: u8) -> (c: char)
    requires
        n < 16,
    ensures
        c == hex_digit(n),
{
    if n < 10 {
        (0x30u8 + n) as char
    } else {
        (0x41u8 + n - 10) as char
    }
}

/// Appends the query-escaped UTF-8 bytes of `s` to `out`.
pub fn push_query_escaped(out: &mut String, s: &str)
    ensures
        final(out)@ == old(out)@ + escape_text(s@),
{
    let bytes = s.as_bytes();
    let ghost start = out@;
    let mut i: usize = 0;
    while i < bytes.len()
        invariant
            i <= bytes@.len(),
            bytes@ == vstd::utf8::encode_utf8(s@),
            out@ == start + query_escape(bytes@.take(i as int)),
        decreases bytes.len() - i,
    {
        let b = bytes[i];
        assert(bytes@.take(i + 1).drop_last() =~= bytes@.take(i as int));
        if (0x41 <= b && b <= 0x5a) || (0x61 <= b && b <= 0x7a) || (0x30 <= b && b <= 0x39) || b
            == 0x2d || b == 0x5f || b == 0x2e || b == 0x7e {
            push_char(out, b as char);
        } else if b == 0x20 {
            push_char(out, '+');
        } else {
            push_char(out, '%');
            push_char(out, hex_char(b / 16));
            push_char(out, hex_char(b % 16));
        }
        i += 1;
        assert(out@ =~= start + query_escape(bytes@.take(i as int)));
    }
    assert(bytes@.take(bytes@.len() as int) =~= bytes@);
}

/// The scan link of a label: the base URL followed by the company, item,
/// net weight, gross weight and EPC, each query-escaped and separated by `/`.
pub open spec fn scan_payload(
    company: Seq<char>,
    item: Seq<char>,
    netto: Seq<char>,
    brutto: Seq<char>,
    epc: Seq<char>,
) -> Seq<char> {
    DEFAULT_QR_BASE_URL@ + "/"@ + escape_text(company) + "/"@ + escape_text(item) + "/"@
        + escape_text(netto) + "/"@ + escape_text(brutto) + "/"@ + escape_text(epc)
}

/// Builds the scan link that the label's QR code carries.
pub fn encode_scan_payload(company: &str, item: &str, netto: &str, brutto: &str, epc: &str) -> (r:
    String)
    ensures
        r@ == scan_payload(company@, item@, netto@, brutto@, epc@),
{
    let mut out = String::new();
    push_str(&mut out, DEFAULT_QR_BASE_URL);
    push_str(&mut out, "/");
    push_query_escaped(&mut out, company);
    push_str(&mut out, "/");
    push_query_escaped(&mut out, item);
    push_str(&mut out, "/");
    push_query_escaped(&mut out, netto);
    push_str(&mut out, "/");
    push_query_escaped(&mut out, brutto);
    push_str(&mut out, "/");
    push_query_escaped(&mut out, epc);
    assert(out@ =~= scan_payload(company@, item@, netto@, brutto@, epc@));
    out
}

/// An escaped component never holds `/`, so the five fields of a scan link
/// are exactly the `/`-separated parts after the base URL.
pub proof fn escaped_text_has_no_slash(bytes: Seq<u8>)
    ensures
        !query_escape(bytes).contains('/'),
    decreases bytes.len(),
{
    if bytes.len() > 0 {
        escaped_text_has_no_slash(bytes.drop_last());
        let p = query_escape(bytes.drop_last());
        let q = escape_byte(bytes.last());
        let b = bytes.last();
        assert forall|i: int| 0 <= i < q.len() implies q[i] != '/' by {
            if is_unreserved(b) {
                assert(b != 0x2f);
            } else if b != 0x20 && i > 0 {
                let n: u8 = if i == 1 { b / 16 } else { b % 16 };
                assert(q[i] == hex_digit(n));
            }
        }
        assert forall|i: int| 0 <= i < (p + q).len() implies (p + q)[i] != '/' by {
            if i < p.len() {
                assert((p + q)[i] == p[i]);
            } else {
                assert((p + q)[i] == q[i - p.len()]);
            }
        }
    }
}

} // verus!
