//! Where the mobile API listens: the address chosen among the candidate
//! ports, and the port read back from an address.
use vstd::prelude::*;
use crate::text::{
    decimal, decimal_parses_back, is_ascii_digit, lemma_decimal_digits, lemma_trim_append, lemma_trim_unchanged,
    parse_u16, parse_u16_chars, push_decimal, push_str, string_from_chars, trim, trim_start, trimmed_chars,
};
use super::config::{normalize_listen_host, normalized_host};
use super::ports::{
    lemma_normalized_ports_nonempty, normalize_candidate_ports, normalized_ports, normalized_ports_are_usable,
};

verus! {


/// The address `host:port`.
pub open spec fn host_port(host: Seq<char>, port: u16) -> Seq<char> {
    host + ":"@ + decimal(port as nat)
}


/// The addresses the service tries, in order: the normalized host with each
/// candidate port.
pub open spec fn listen_candidates(bind_host: Seq<char>, ports: Seq<u16>) -> Seq<Seq<char>> {
    normalized_ports(ports).map_values(|p: u16| host_port(normalized_host(bind_host), p))
}


/// Whether the availability check `f` may have answered `answer` for `addr`.
pub open spec fn answered<F: Fn(&str) -> bool>(f: F, addr: Seq<char>, answer: bool) -> bool {
    exists|s: &str| s@ == addr && #[trigger] f.ensures((s,), answer)
}


/// `addr` is the address that trying the candidates in order settles on: the
/// first one reported free, or the first candidate when none is.
pub open spec fn chosen_listen_addr<F: Fn(&str) -> bool>(
    f: F,
    candidates: Seq<Seq<char>>,
    addr: Seq<char>,
) -> bool {
    ||| exists|i: int|
        0 <= i < candidates.len() && addr == candidates[i] && answered(f, candidates[i], true)
            && forall|j: int| 0 <= j < i ==> answered(f, #[trigger] candidates[j], false)
    ||| (forall|j: int| 0 <= j < candidates.len() ==> answered(f, #[trigger] candidates[j], false))
        && addr == candidates[0]
}


fn host_port_string(host: &String, port: u16) -> (r: String)
    ensures
        r@ == host_port(host@, port),
{
    let mut s = crate::text::to_owned_string(host.as_str());
    push_str(&mut s, ":");
    push_decimal(&mut s, port as u64);
    s
}


/// The address the mobile API listens on. An explicit address (trimmed) is
/// used as given. Otherwise each candidate port on the bind host is tried in
/// order with `is_available`, and the first free one is taken; when none is
/// free, the first candidate.
pub fn select_listen_addr<F: Fn(&str) -> bool>(
    explicit_addr: &str,
    bind_host: &str,
    candidate_ports: &[u16],
    is_available: &F,
) -> (r: String)
    requires
        forall|s: &str| is_available.requires((s,)),
    ensures
        trim(explicit_addr@).len() != 0 ==> r@ == trim(explicit_addr@),
        trim(explicit_addr@).len() == 0 ==> chosen_listen_addr(
            *is_available,
            listen_candidates(bind_host@, candidate_ports@),
            r@,
        ),
{
    let explicit = trimmed_chars(explicit_addr);
    if explicit.len() > 0 {
        return string_from_chars(&explicit);
    }
    let host = normalize_listen_host(bind_host);
    let candidates = normalize_candidate_ports(vstd::slice::slice_to_vec(candidate_ports));
    let ghost cands = listen_candidates(bind_host@, candidate_ports@);
    assert(cands.len() == candidates@.len());
    assert(candidates@.len() > 0) by {
        lemma_normalized_ports_nonempty(candidate_ports@);
    }
    let mut i: usize = 0;
    while i < candidates.len()
        invariant
            i <= candidates@.len(),
            candidates@ == normalized_ports(candidate_ports@),
            host@ == normalized_host(bind_host@),
            cands == listen_candidates(bind_host@, candidate_ports@),
            cands.len() == candidates@.len(),
            forall|s: &str| is_available.requires((s,)),
            trim(explicit_addr@).len() == 0,
            forall|j: int| 0 <= j < i ==> answered(*is_available, #[trigger] cands[j], false),
        decreases candidates.len() - i,
    {
        let addr = host_port_string(&host, candidates[i]);
        assert(addr@ == cands[i as int]);
        let free = is_available(addr.as_str());
        assert(answered(*is_available, cands[i as int], free));
        if free {
            return addr;
        }
        i += 1;
    }
    let addr = host_port_string(&host, candidates[0]);
    assert(addr@ == cands[0]);
    addr
}


/// The port of a listen address: after a leading `:`, or after the last `:`
/// otherwise; `None` when there is none, it is not a 16-bit number, or it is zero.
pub open spec fn listen_port(addr: Seq<char>) -> Option<u16> {
    let t = trim(addr);
    let p = if t.len() == 0 {
        None
    } else if t[0] == ':' {
        parse_u16(t.drop_first())
    } else if last_colon(t) < 0 {
        None
    } else {
        parse_u16(t.skip(last_colon(t) + 1))
    };
    match p {
        Some(n) => if n > 0 {
            Some(n)
        } else {
            None
        },
        None => None,
    }
}


/// Index of the last `:` in `s`, `-1` when none.
pub open spec fn last_colon(s: Seq<char>) -> int
    decreases s.len(),
{
    if s.len() == 0 {
        -1
    } else if s.last() == ':' {
        s.len() - 1
    } else {
        last_colon(s.drop_last())
    }
}


proof fn lemma_last_colon(s: Seq<char>)
    ensures
        -1 <= last_colon(s) < s.len(),
        last_colon(s) >= 0 ==> s[last_colon(s)] == ':',
        forall|j: int| last_colon(s) < j < s.len() ==> #[trigger] s[j] != ':',
    decreases s.len(),
{
    if s.len() > 0 && s.last() != ':' {
        lemma_last_colon(s.drop_last());
        assert forall|j: int| last_colon(s) < j < s.len() implies #[trigger] s[j] != ':' by {
            if j < s.len() - 1 {
                assert(s[j] == s.drop_last()[j]);
            }
        }
    }
}


fn last_colon_index(t: &Vec<char>) -> (r: Option<usize>)
    ensures
        r is None <==> last_colon(t@) < 0,
        r matches Some(k) ==> k == last_colon(t@) && k < t@.len(),
{
    let mut k = t.len();
    assert(t@.take(t@.len() as int) =~= t@);
    while k > 0 && t[k - 1] != ':'
        invariant
            k <= t@.len(),
            last_colon(t@) == last_colon(t@.take(k as int)),
        decreases k,
    {
        assert(t@.take(k as int).drop_last() =~= t@.take(k - 1));
        k -= 1;
    }
    if k == 0 {
        assert(t@.take(0) =~= Seq::<char>::empty());
        None
    } else {
        assert(t@.take(k as int).last() == ':');
        Some(k - 1)
    }
}


/// Reads the port out of a listen address such as `0.0.0.0:39117` or `:39117`.
pub fn port_from_listen_addr(addr: &str) -> (r: Option<u16>)
    ensures
        r == listen_port(addr@),
{
    let t = trimmed_chars(addr);
    if t.len() == 0 {
        return None;
    }
    let p = if t[0] == ':' {
        let p = parse_u16_chars(&t, 1, t.len());
        assert(t@.subrange(1, t@.len() as int) =~= t@.drop_first());
        p
    } else {
        match last_colon_index(&t) {
            None => {
                return None;
            },
            Some(k) => {
                let p = parse_u16_chars(&t, k + 1, t.len());
                assert(t@.subrange(k + 1, t@.len() as int) =~= t@.skip(k + 1));
                p
            },
        }
    };
    match p {
        Some(n) => if n > 0 {
            Some(n)
        } else {
            None
        },
        None => None,
    }
}


/// A listen address built from a host and a port reads back as that port
/// when it is nonzero, and as no port when it is zero, for any host whose
/// trimmed form does not start with `:` (such a host makes all of the rest
/// the port text). A blank host reads back as the bare `:port` form.
pub proof fn listen_addr_port_round_trip(host: Seq<char>, port: u16)
    requires
        trim(host).len() == 0 || trim(host)[0] != ':',
    ensures
        listen_port(host_port(host, port)) == (if port > 0 {
            Some(port)
        } else {
            None::<u16>
        }),
        listen_port(Seq::empty()) is None,
{
    reveal_strlit(":");
    let d = decimal(port as nat);
    lemma_decimal_digits(port as nat);
    decimal_parses_back(port);
    let t = ":"@ + d;
    let a = host_port(host, port);
    assert(a =~= host + t);
    assert(t[0] == ':');
    assert(t.last() == d.last());
    assert(is_ascii_digit(d[d.len() - 1]));
    lemma_trim_append(host, t);
    let u = trim_start(host);
    let ta = trim(a);
    assert(ta == u + t);
    assert(ta.skip(u.len() + 1int) =~= d);
    if u.len() == 0 {
        assert(ta =~= t);
        assert(ta.drop_first() =~= d);
    } else {
        assert(ta[0] == u[0]);
        assert(ta[u.len() as int] == ':');
        lemma_last_colon(ta);
        assert forall|j: int| u.len() < j < ta.len() implies ta[j] != ':' by {
            assert(ta[j] == d[j - u.len() - 1]);
            assert(is_ascii_digit(d[j - u.len() - 1]));
        }
    }
    assert(trim(Seq::<char>::empty()) =~= Seq::<char>::empty());
}

/// Every address the service may choose reads back as its candidate port,
/// so `http_port` reports the port it listens on, whenever the bind host does
/// not start with `:`.
pub proof fn listen_candidates_report_their_ports(bind_host: Seq<char>, ports: Seq<u16>)
    requires
        normalized_host(bind_host)[0] != ':',
    ensures
        forall|i: int|
            0 <= i < listen_candidates(bind_host, ports).len() ==> listen_port(
                #[trigger] listen_candidates(bind_host, ports)[i],
            ) == Some(normalized_ports(ports)[i]),
{
    reveal_strlit("0.0.0.0");
    let h = normalized_host(bind_host);
    normalized_ports_are_usable(ports);
    crate::text::lemma_trim_idempotent(bind_host);
    if trim(bind_host).len() == 0 {
        lemma_trim_unchanged(h);
    }
    assert forall|i: int| 0 <= i < listen_candidates(bind_host, ports).len() implies listen_port(
        #[trigger] listen_candidates(bind_host, ports)[i],
    ) == Some(normalized_ports(ports)[i]) by {
        listen_addr_port_round_trip(h, normalized_ports(ports)[i]);
    }
}

} // verus!
