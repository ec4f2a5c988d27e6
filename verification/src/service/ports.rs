//! The candidate ports that the mobile app tries: read from configuration,
//! with zeros and repeats dropped and the defaults when none remain.
use vstd::prelude::*;
use crate::text::{chars_of, parse_u16, parse_u16_chars, trim, trim_bounds};
use super::config::{default_mobile_api_ports, default_ports};

verus! {


/// The ports without zeros.
pub open spec fn nonzero_ports(s: Seq<u16>) -> Seq<u16>
    decreases s.len(),
{
    if s.len() == 0 {
        Seq::empty()
    } else if s.last() == 0 {
        nonzero_ports(s.drop_last())
    } else {
        nonzero_ports(s.drop_last()).push(s.last())
    }
}


/// The ports with each run of equal neighbours kept once (`Vec::dedup`).
pub open spec fn dedup_runs(s: Seq<u16>) -> Seq<u16>
    decreases s.len(),
{
    if s.len() < 2 {
        s
    } else if s.last() == s[s.len() - 2] {
        dedup_runs(s.drop_last())
    } else {
        dedup_runs(s.drop_last()).push(s.last())
    }
}


/// The candidate ports the service uses: the defaults when none are given;
/// else the given ones without zeros and without repeated neighbours, or the
/// defaults when nothing is left.
pub open spec fn normalized_ports(s: Seq<u16>) -> Seq<u16> {
    if s.len() == 0 {
        default_ports()
    } else if dedup_runs(nonzero_ports(s)).len() == 0 {
        default_ports()
    } else {
        dedup_runs(nonzero_ports(s))
    }
}


pub(crate) fn normalize_candidate_ports(candidate_ports: Vec<u16>) -> (r: Vec<u16>)
    ensures
        r@ == normalized_ports(candidate_ports@),
{
    if candidate_ports.len() == 0 {
        return default_mobile_api_ports();
    }
    let mut kept: Vec<u16> = Vec::new();
    let mut i: usize = 0;
    while i < candidate_ports.len()
        invariant
            i <= candidate_ports@.len(),
            kept@ == nonzero_ports(candidate_ports@.take(i as int)),
        decreases candidate_ports.len() - i,
    {
        assert(candidate_ports@.take(i + 1).drop_last() =~= candidate_ports@.take(i as int));
        if candidate_ports[i] > 0 {
            kept.push(candidate_ports[i]);
        }
        i += 1;
    }
    assert(candidate_ports@.take(i as int) =~= candidate_ports@);
    let mut out: Vec<u16> = Vec::new();
    let mut j: usize = 0;
    while j < kept.len()
        invariant
            j <= kept@.len(),
            out@ == dedup_runs(kept@.take(j as int)),
            j > 0 ==> out@.len() > 0 && out@.last() == kept@[j - 1],
        decreases kept.len() - j,
    {
        assert(kept@.take(j + 1).drop_last() =~= kept@.take(j as int));
        if j == 0 || kept[j] != kept[j - 1] {
            out.push(kept[j]);
        }
        proof {
            if j > 0 {
                assert(kept@.take(j + 1)[j - 1] == kept@[j - 1]);
                lemma_dedup_runs_last(kept@.take(j + 1));
            }
        }
        j += 1;
    }
    assert(kept@.take(j as int) =~= kept@);
    if out.len() == 0 {
        default_mobile_api_ports()
    } else {
        out
    }
}


proof fn lemma_dedup_runs_last(s: Seq<u16>)
    requires
        s.len() > 0,
    ensures
        dedup_runs(s).len() > 0,
        dedup_runs(s).last() == s.last(),
    decreases s.len(),
{
    if s.len() >= 2 && s.last() == s[s.len() - 2] {
        lemma_dedup_runs_last(s.drop_last());
    }
}


/// The pieces of `s` between commas, as `str::split(',')` yields them.
pub open spec fn split_commas(s: Seq<char>) -> Seq<Seq<char>>
    decreases s.len(),
{
    if s.len() == 0 {
        seq![Seq::empty()]
    } else {
        let p = split_commas(s.drop_last());
        if s.last() == ',' {
            p.push(Seq::empty())
        } else {
            p.update(p.len() - 1, p.last().push(s.last()))
        }
    }
}


proof fn lemma_split_commas_nonempty(s: Seq<char>)
    ensures
        split_commas(s).len() > 0,
    decreases s.len(),
{
    if s.len() > 0 {
        lemma_split_commas_nonempty(s.drop_last());
    }
}


/// The ports read from comma-separated pieces: each piece trimmed and read
/// as a 16-bit number; pieces that do not read, zeros and repeats are skipped.
pub open spec fn collected_ports(parts: Seq<Seq<char>>) -> Seq<u16>
    decreases parts.len(),
{
    if parts.len() == 0 {
        Seq::empty()
    } else {
        let out = collected_ports(parts.drop_last());
        match parse_u16(trim(parts.last())) {
            Some(p) => if p == 0 || out.contains(p) {
                out
            } else {
                out.push(p)
            },
            None => out,
        }
    }
}


fn contains_port(v: &Vec<u16>, x: u16) -> (r: bool)
    ensures
        r == v@.contains(x),
{
    let mut i: usize = 0;
    while i < v.len()
        invariant
            i <= v@.len(),
            forall|j: int| 0 <= j < i ==> v@[j] != x,
        decreases v.len() - i,
    {
        if v[i] == x {
            return true;
        }
        i += 1;
    }
    false
}


fn collect_piece(out: &mut Vec<u16>, piece: &Vec<char>)
    ensures
        final(out)@ == (match parse_u16(trim(piece@)) {
            Some(p) => if p == 0 || old(out)@.contains(p) {
                old(out)@
            } else {
                old(out)@.push(p)
            },
            None => old(out)@,
        }),
{
    let (a, b) = trim_bounds(piece);
    match parse_u16_chars(piece, a, b) {
        Some(p) => {
            if p != 0 && !contains_port(out, p) {
                out.push(p);
            }
        },
        None => {},
    }
}


/// Reads the candidate ports from a comma-separated list: pieces that are
/// not 16-bit numbers, zeros and repeats are skipped; when nothing is left the
/// default ports are used.
pub fn parse_candidate_ports(raw: &str) -> (r: Vec<u16>)
    ensures
        r@ == normalized_ports(collected_ports(split_commas(raw@))),
{
    let v = chars_of(raw);
    let mut out: Vec<u16> = Vec::new();
    let mut piece: Vec<char> = Vec::new();
    let ghost mut done: Seq<Seq<char>> = Seq::empty();
    let mut i: usize = 0;
    assert(v@.take(0) =~= Seq::<char>::empty());
    while i < v.len()
        invariant
            i <= v@.len(),
            v@ == raw@,
            split_commas(v@.take(i as int)) == done.push(piece@),
            out@ == collected_ports(done),
        decreases v.len() - i,
    {
        let c = v[i];
        assert(v@.take(i + 1).drop_last() =~= v@.take(i as int));
        if c == ',' {
            collect_piece(&mut out, &piece);
            proof {
                assert(done.push(piece@).drop_last() =~= done);
                done = done.push(piece@);
            }
            piece = Vec::new();
        } else {
            piece.push(c);
            proof {
                assert(done.push(piece@.drop_last()).update(done.len() as int, piece@) =~= done.push(piece@));
            }
        }
        i += 1;
    }
    collect_piece(&mut out, &piece);
    proof {
        assert(v@.take(v@.len() as int) =~= v@);
        assert(done.push(piece@).drop_last() =~= done);
    }
    normalize_candidate_ports(out)
}


pub(crate) proof fn lemma_normalized_ports_nonempty(s: Seq<u16>)
    ensures
        normalized_ports(s).len() > 0,
{
}


/// Every candidate port list the service uses is non-empty and holds no zero.
pub proof fn normalized_ports_are_usable(s: Seq<u16>)
    ensures
        normalized_ports(s).len() > 0,
        forall|i: int| 0 <= i < normalized_ports(s).len() ==> #[trigger] normalized_ports(s)[i] != 0,
{
    lemma_nonzero_ports(s);
    lemma_dedup_runs_subset(nonzero_ports(s));
    let d = dedup_runs(nonzero_ports(s));
    if s.len() > 0 && d.len() > 0 {
        assert forall|i: int| 0 <= i < d.len() implies #[trigger] d[i] != 0 by {
            assert(nonzero_ports(s).contains(d[i]));
        }
    }
}


proof fn lemma_nonzero_ports(s: Seq<u16>)
    ensures
        forall|i: int| 0 <= i < nonzero_ports(s).len() ==> #[trigger] nonzero_ports(s)[i] != 0,
    decreases s.len(),
{
    if s.len() > 0 {
        lemma_nonzero_ports(s.drop_last());
        let p = nonzero_ports(s.drop_last());
        if s.last() != 0 {
            assert forall|i: int| 0 <= i < p.push(s.last()).len() implies #[trigger] p.push(s.last())[i] != 0 by {
                if i < p.len() {
                    assert(p.push(s.last())[i] == p[i]);
                }
            }
        }
    }
}


proof fn lemma_dedup_runs_subset(s: Seq<u16>)
    ensures
        forall|i: int| 0 <= i < dedup_runs(s).len() ==> s.contains(#[trigger] dedup_runs(s)[i]),
    decreases s.len(),
{
    if s.len() >= 2 {
        lemma_dedup_runs_subset(s.drop_last());
        let p = dedup_runs(s.drop_last());
        assert forall|i: int| 0 <= i < dedup_runs(s).len() implies s.contains(#[trigger] dedup_runs(s)[i]) by {
            if i < p.len() {
                assert(dedup_runs(s)[i] == p[i]);
                let j = choose|j: int| 0 <= j < s.drop_last().len() && s.drop_last()[j] == p[i];
                assert(s[j] == p[i]);
            } else {
                assert(s[s.len() - 1] == s.last());
            }
        }
    } else {
        assert forall|i: int| 0 <= i < dedup_runs(s).len() implies s.contains(#[trigger] dedup_runs(s)[i]) by {
            assert(s[i] == dedup_runs(s)[i]);
        }
    }
}


/// Ports read from a list never repeat and are never zero.
pub proof fn collected_ports_are_distinct(parts: Seq<Seq<char>>)
    ensures
        forall|i: int, j: int|
            0 <= i < j < collected_ports(parts).len() ==> #[trigger] collected_ports(parts)[i]
                != #[trigger] collected_ports(parts)[j],
        forall|i: int| 0 <= i < collected_ports(parts).len() ==> #[trigger] collected_ports(parts)[i] != 0,
    decreases parts.len(),
{
    if parts.len() > 0 {
        collected_ports_are_distinct(parts.drop_last());
        let out = collected_ports(parts.drop_last());
        match parse_u16(trim(parts.last())) {
            Some(p) => if !(p == 0 || out.contains(p)) {
                let o = out.push(p);
                assert forall|i: int, j: int| 0 <= i < j < o.len() implies #[trigger] o[i] != #[trigger] o[j] by {
                    if j == o.len() - 1 {
                        assert(o[i] == out[i]);
                    } else {
                        assert(o[i] == out[i] && o[j] == out[j]);
                    }
                }
                assert forall|i: int| 0 <= i < o.len() implies #[trigger] o[i] != 0 by {
                    if i < out.len() {
                        assert(o[i] == out[i]);
                    }
                }
            },
            None => {},
        }
    }
}

proof fn lemma_collected_keeps(parts: Seq<Seq<char>>, i: int, p: u16)
    requires
        0 <= i < parts.len(),
        parse_u16(trim(parts[i])) == Some(p),
        p != 0,
    ensures
        collected_ports(parts).contains(p),
    decreases parts.len(),
{
    let rest = parts.drop_last();
    let out = collected_ports(rest);
    let all = collected_ports(parts);
    if i < parts.len() - 1 {
        assert(rest[i] == parts[i]);
        lemma_collected_keeps(rest, i, p);
        let j = choose|j: int| 0 <= j < out.len() && out[j] == p;
        assert(all[j] == out[j]);
    } else {
        assert(parts.last() == parts[i]);
        if out.contains(p) {
            let j = choose|j: int| 0 <= j < out.len() && out[j] == p;
            assert(all[j] == out[j]);
        } else {
            assert(all[out.len() as int] == p);
        }
    }
}

proof fn lemma_collected_come_from_pieces(parts: Seq<Seq<char>>)
    ensures
        forall|k: int|
            0 <= k < collected_ports(parts).len() ==> exists|j: int|
                0 <= j < parts.len() && parse_u16(trim(#[trigger] parts[j])) == Some(
                    #[trigger] collected_ports(parts)[k],
                ),
    decreases parts.len(),
{
    if parts.len() > 0 {
        let rest = parts.drop_last();
        lemma_collected_come_from_pieces(rest);
        let out = collected_ports(rest);
        let all = collected_ports(parts);
        assert forall|k: int| 0 <= k < all.len() implies exists|j: int|
            0 <= j < parts.len() && parse_u16(trim(#[trigger] parts[j])) == Some(#[trigger] all[k]) by {
            if k < out.len() {
                assert(all[k] == out[k]);
                let j = choose|j: int| 0 <= j < rest.len() && parse_u16(trim(#[trigger] rest[j])) == Some(out[k]);
                assert(parts[j] == rest[j]);
            } else {
                assert(parts[parts.len() - 1] == parts.last());
            }
        }
    }
}

proof fn lemma_nonzero_keeps(s: Seq<u16>, x: u16)
    requires
        s.contains(x),
        x != 0,
    ensures
        nonzero_ports(s).contains(x),
    decreases s.len(),
{
    let rest = s.drop_last();
    let n = nonzero_ports(s);
    let m = nonzero_ports(rest);
    if s.last() == x {
        assert(n[m.len() as int] == x);
    } else {
        let i = choose|i: int| 0 <= i < s.len() && s[i] == x;
        assert(rest[i] == x);
        lemma_nonzero_keeps(rest, x);
        let j = choose|j: int| 0 <= j < m.len() && m[j] == x;
        assert(n[j] == m[j]);
    }
}

proof fn lemma_nonzero_subset(s: Seq<u16>)
    ensures
        forall|k: int| 0 <= k < nonzero_ports(s).len() ==> s.contains(#[trigger] nonzero_ports(s)[k]),
    decreases s.len(),
{
    if s.len() > 0 {
        let rest = s.drop_last();
        lemma_nonzero_subset(rest);
        let m = nonzero_ports(rest);
        assert forall|k: int| 0 <= k < nonzero_ports(s).len() implies s.contains(#[trigger] nonzero_ports(s)[k]) by {
            if k < m.len() {
                assert(nonzero_ports(s)[k] == m[k]);
                let j = choose|j: int| 0 <= j < rest.len() && rest[j] == m[k];
                assert(s[j] == rest[j]);
            } else {
                assert(s[s.len() - 1] == s.last());
            }
        }
    }
}

proof fn lemma_dedup_keeps(s: Seq<u16>, x: u16)
    requires
        s.contains(x),
    ensures
        dedup_runs(s).contains(x),
    decreases s.len(),
{
    if s.len() >= 2 {
        let rest = s.drop_last();
        let d = dedup_runs(s);
        let e = dedup_runs(rest);
        let i = choose|i: int| 0 <= i < s.len() && s[i] == x;
        if i == s.len() - 1 && s.last() != s[s.len() - 2] {
            assert(d[e.len() as int] == x);
        } else {
            if i == s.len() - 1 {
                assert(rest[s.len() - 2] == x);
            } else {
                assert(rest[i] == x);
            }
            lemma_dedup_keeps(rest, x);
            let j = choose|j: int| 0 <= j < e.len() && e[j] == x;
            assert(d[j] == e[j]);
        }
    }
}

/// Reading a port list keeps every port it can read: each comma-separated
/// piece that, trimmed, reads as a nonzero port is among the candidate ports,
/// whatever the pieces before or after it hold; and then every candidate
/// port is one that some piece reads as (the defaults come back only when no
/// piece reads as a nonzero port).
pub proof fn readable_ports_are_kept(raw: Seq<char>, i: int)
    requires
        0 <= i < split_commas(raw).len(),
        parse_u16(trim(split_commas(raw)[i])) is Some,
        parse_u16(trim(split_commas(raw)[i]))->0 != 0,
    ensures
        normalized_ports(collected_ports(split_commas(raw))).contains(
            parse_u16(trim(split_commas(raw)[i]))->0,
        ),
        forall|k: int|
            0 <= k < normalized_ports(collected_ports(split_commas(raw))).len() ==> exists|j: int|
                0 <= j < split_commas(raw).len() && parse_u16(trim(#[trigger] split_commas(raw)[j]))
                    == Some(#[trigger] normalized_ports(collected_ports(split_commas(raw)))[k]),
{
    let parts = split_commas(raw);
    let p = parse_u16(trim(parts[i]))->0;
    let c = collected_ports(parts);
    lemma_collected_keeps(parts, i, p);
    lemma_nonzero_keeps(c, p);
    lemma_dedup_keeps(nonzero_ports(c), p);
    let d = dedup_runs(nonzero_ports(c));
    let j = choose|j: int| 0 <= j < d.len() && d[j] == p;
    assert(d.len() > 0);
    assert(normalized_ports(c) == d);
    lemma_collected_come_from_pieces(parts);
    lemma_nonzero_subset(c);
    lemma_dedup_runs_subset(nonzero_ports(c));
    assert forall|k: int| 0 <= k < d.len() implies exists|j: int|
        0 <= j < parts.len() && parse_u16(trim(#[trigger] parts[j])) == Some(#[trigger] d[k]) by {
        let n = nonzero_ports(c);
        let a = choose|a: int| 0 <= a < n.len() && n[a] == d[k];
        let b = choose|b: int| 0 <= b < c.len() && c[b] == n[a];
        assert(c[b] == d[k]);
    }
}

/// Pieces put back together with a comma between each two.
pub open spec fn joined_with_commas(parts: Seq<Seq<char>>) -> Seq<char>
    decreases parts.len(),
{
    if parts.len() == 0 {
        Seq::empty()
    } else if parts.len() == 1 {
        parts[0]
    } else {
        joined_with_commas(parts.drop_last()) + seq![','] + parts.last()
    }
}

/// Splitting at commas loses nothing and keeps no comma: the pieces hold no
/// comma, there is one more piece than there are commas, and joining them
/// with commas gives back the text.
pub proof fn split_commas_partitions(s: Seq<char>)
    ensures
        split_commas(s).len() > 0,
        joined_with_commas(split_commas(s)) == s,
        forall|i: int, j: int|
            0 <= i < split_commas(s).len() && 0 <= j < split_commas(s)[i].len() ==> #[trigger] split_commas(
                s,
            )[i][j] != ',',
    decreases s.len(),
{
    if s.len() == 0 {
        assert(joined_with_commas(split_commas(s)) =~= s);
    } else {
        let rest = s.drop_last();
        split_commas_partitions(rest);
        let p = split_commas(rest);
        let c = s.last();
        if c == ',' {
            let q = p.push(Seq::<char>::empty());
            assert(q.drop_last() =~= p);
            assert(joined_with_commas(q) =~= s);
            assert forall|i: int, j: int| 0 <= i < q.len() && 0 <= j < q[i].len() implies #[trigger] q[i][j] != ',' by {
                assert(q[i] == p[i]);
            }
        } else {
            let x = p.last().push(c);
            let q = p.update(p.len() - 1, x);
            if p.len() == 1 {
                assert(joined_with_commas(p) == p[0]);
                assert(joined_with_commas(q) == q[0]);
                assert(joined_with_commas(q) =~= s);
            } else {
                assert(q.drop_last() =~= p.drop_last());
                let a = joined_with_commas(p.drop_last()) + seq![','];
                assert(joined_with_commas(q) == a + p.last().push(c));
                assert(joined_with_commas(p) == a + p.last());
                assert(s =~= rest.push(c));
                assert(a + p.last().push(c) =~= (a + p.last()).push(c));
            }
            assert forall|i: int, j: int| 0 <= i < q.len() && 0 <= j < q[i].len() implies #[trigger] q[i][j] != ',' by {
                if i < p.len() - 1 {
                    assert(q[i] == p[i]);
                } else if j < p.last().len() {
                    assert(q[i][j] == p[p.len() - 1][j]);
                }
            }
        }
    }
}

} // verus!
