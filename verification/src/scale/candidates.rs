//! The candidate weights of a frame and the choice of the best one.
use vstd::prelude::*;
use crate::text::{
    ascii_lower, ascii_upper, chars_of, eq_chars, lower_chars, string_from_chars, trim, trim_bounds,
    upper_chars, vec_range,
};
use super::weight_text::{accepted_weight, decimal_numbers_are_accepted_within_limit, is_accepted_weight};
use crate::text::{all_digits, digits_value, is_ascii_digit};

verus! {

/// The sign that a match carries.
#[derive(Clone, Copy, Debug)]
pub struct ResolvedSign {
    pub sign: Option<char>,
    pub has_sign: bool,
    pub negative: bool,
    pub positive: bool,
}

pub open spec fn negative_sign_model() -> ResolvedSign {
    ResolvedSign { sign: Some('-'), has_sign: true, negative: true, positive: false }
}

pub open spec fn positive_sign_model() -> ResolvedSign {
    ResolvedSign { sign: Some('+'), has_sign: true, negative: false, positive: true }
}

pub open spec fn no_sign_model() -> ResolvedSign {
    ResolvedSign { sign: None, has_sign: false, negative: false, positive: false }
}

/// The sign of a match from the text before and after its number: `-` on
/// either side or a leading `N` makes it negative, else `+` on either side
/// positive, else unsigned.
pub open spec fn resolved_sign(prefix: Seq<char>, suffix: Seq<char>) -> ResolvedSign {
    let p = ascii_upper(trim(prefix));
    let s = trim(suffix);
    if p == "-"@ || s == "-"@ || p == "N"@ {
        negative_sign_model()
    } else if p == "+"@ || s == "+"@ {
        positive_sign_model()
    } else {
        no_sign_model()
    }
}

fn negative_sign() -> (r: ResolvedSign)
    ensures
        r == negative_sign_model(),
{
    ResolvedSign { sign: Some('-'), has_sign: true, negative: true, positive: false }
}

fn positive_sign() -> (r: ResolvedSign)
    ensures
        r == positive_sign_model(),
{
    ResolvedSign { sign: Some('+'), has_sign: true, negative: false, positive: true }
}

fn resolve_sign(prefix: &Vec<char>, suffix: &Vec<char>) -> (r: ResolvedSign)
    ensures
        r == resolved_sign(prefix@, suffix@),
{
    let (a, b) = trim_bounds(prefix);
    let p = upper_chars(&vec_range(prefix, a, b));
    let (c, d) = trim_bounds(suffix);
    let s = vec_range(suffix, c, d);
    if eq_chars(&p, "-") || eq_chars(&s, "-") || eq_chars(&p, "N") {
        negative_sign()
    } else if eq_chars(&p, "+") || eq_chars(&s, "+") {
        positive_sign()
    } else {
        ResolvedSign { sign: None, has_sign: false, negative: false, positive: false }
    }
}

/// `s` with each decimal comma read as a point.
pub open spec fn commas_as_points(s: Seq<char>) -> Seq<char> {
    s.map_values(|c: char| if c == ',' { '.' } else { c })
}

/// The text of group `i` of a match, empty when the group took no part.
pub open spec fn group_text(m: Seq<Option<(usize, Seq<char>)>>, i: int) -> Seq<char> {
    if 0 <= i < m.len() {
        match m[i] {
            Some(g) => g.1,
            None => Seq::empty(),
        }
    } else {
        Seq::empty()
    }
}

/// A candidate weight as plain values.
pub struct CandidateModel {
    pub weight: Seq<char>,
    pub unit: Seq<char>,
    pub index: usize,
    pub has_unit: bool,
    pub sign: ResolvedSign,
}

/// The weight text of a match: its sign, then the trimmed number with commas
/// read as points.
pub open spec fn weight_text(number: Seq<char>, sign: ResolvedSign) -> Seq<char> {
    let n = commas_as_points(trim(number));
    match sign.sign {
        Some(c) => seq![c] + n,
        None => n,
    }
}

/// The candidate that a match gives, if its weight is accepted. Its unit is
/// the matched unit, else the default unit (both trimmed, ASCII lower case).
pub open spec fn candidate_of(m: Seq<Option<(usize, Seq<char>)>>, default_unit: Seq<char>) -> Option<
    CandidateModel,
> {
    if m.len() == 0 || m[0] is None {
        None
    } else {
        let sign = resolved_sign(group_text(m, 1), group_text(m, 4));
        let weight = weight_text(group_text(m, 2), sign);
        let unit_part = ascii_lower(trim(group_text(m, 3)));
        if !is_accepted_weight(weight) {
            None
        } else {
            Some(
                CandidateModel {
                    weight,
                    unit: if unit_part.len() == 0 {
                        ascii_lower(trim(default_unit))
                    } else {
                        unit_part
                    },
                    index: match m[0] {
                        Some(g) => g.0,
                        None => 0,
                    },
                    has_unit: unit_part.len() != 0,
                    sign,
                },
            )
        }
    }
}

/// The candidates of all matches, in order.
pub open spec fn candidates(ms: Seq<Seq<Option<(usize, Seq<char>)>>>, default_unit: Seq<char>) -> Seq<
    CandidateModel,
>
    decreases ms.len(),
{
    if ms.len() == 0 {
        Seq::empty()
    } else {
        let rest = candidates(ms.drop_last(), default_unit);
        match candidate_of(ms.last(), default_unit) {
            Some(c) => rest.push(c),
            None => rest,
        }
    }
}

/// How strongly a candidate is preferred: a unit counts 80, any sign 40, a
/// negative sign 120 more, a positive sign 10 more.
pub open spec fn score(c: CandidateModel) -> int {
    (if c.has_unit { 80int } else { 0int }) + (if c.sign.has_sign { 40int } else { 0int }) + (
    if c.sign.negative { 120int } else { 0int }) + (if c.sign.positive { 10int } else { 0int })
}

/// Whether `c` takes the place of the best candidate so far, `b`: a higher
/// score, or the same score and a match that starts no earlier.
pub open spec fn replaces(c: CandidateModel, b: CandidateModel) -> bool {
    score(c) > score(b) || (score(c) == score(b) && c.index >= b.index)
}

/// The best candidate: the highest score, and on equal scores the last one.
pub open spec fn best(cs: Seq<CandidateModel>) -> Option<CandidateModel>
    decreases cs.len(),
{
    if cs.len() == 0 {
        None
    } else {
        match best(cs.drop_last()) {
            None => Some(cs.last()),
            Some(b) => if replaces(cs.last(), b) {
                Some(cs.last())
            } else {
                Some(b)
            },
        }
    }
}

struct WeightCandidate {
    weight: Vec<char>,
    unit: Vec<char>,
    index: usize,
    has_unit: bool,
    sign: ResolvedSign,
}

impl WeightCandidate {
    spec fn model(self) -> CandidateModel {
        CandidateModel {
            weight: self.weight@,
            unit: self.unit@,
            index: self.index,
            has_unit: self.has_unit,
            sign: self.sign,
        }
    }
}

fn group_chars(m: &Vec<Option<(usize, String)>>, i: usize) -> (r: Vec<char>)
    ensures
        r@ == group_text(m.deep_view(), i as int),
{
    if i < m.len() {
        match &m[i] {
            Some(g) => chars_of(g.1.as_str()),
            None => Vec::new(),
        }
    } else {
        Vec::new()
    }
}

fn candidate_from_match(m: &Vec<Option<(usize, String)>>, default_unit: &str) -> (r: Option<
    WeightCandidate,
>)
    ensures
        r is None <==> candidate_of(m.deep_view(), default_unit@) is None,
        r matches Some(c) ==> candidate_of(m.deep_view(), default_unit@) == Some(c.model()),
{
    if m.len() == 0 {
        return None;
    }
    let index = match &m[0] {
        Some(g) => g.0,
        None => {
            return None;
        },
    };
    let prefix = group_chars(m, 1);
    let number = group_chars(m, 2);
    let unit_raw = group_chars(m, 3);
    let suffix = group_chars(m, 4);
    let sign = resolve_sign(&prefix, &suffix);
    let (a, b) = trim_bounds(&number);
    let mut weight: Vec<char> = Vec::new();
    match sign.sign {
        Some(c) => weight.push(c),
        None => {},
    }
    let ghost head = weight@;
    let mut i = a;
    while i < b
        invariant
            a <= i <= b <= number@.len(),
            weight@ == head + commas_as_points(number@.subrange(a as int, i as int)),
        decreases b - i,
    {
        let c = number[i];
        if c == ',' {
            weight.push('.');
        } else {
            weight.push(c);
        }
        i += 1;
        assert(weight@ =~= head + commas_as_points(number@.subrange(a as int, i as int)));
    }
    assert(weight@ =~= weight_text(number@, sign));
    if !accepted_weight(&weight) {
        return None;
    }
    let (c, d) = trim_bounds(&unit_raw);
    let unit_part = lower_chars(&vec_range(&unit_raw, c, d));
    let has_unit = unit_part.len() != 0;
    let unit = if has_unit {
        unit_part
    } else {
        let du = chars_of(default_unit);
        let (e, f) = trim_bounds(&du);
        lower_chars(&vec_range(&du, e, f))
    };
    Some(WeightCandidate { weight, unit, index, has_unit, sign })
}

fn score_candidate(c: &WeightCandidate) -> (r: u32)
    ensures
        r == score(c.model()),
{
    let mut s: u32 = 0;
    if c.has_unit {
        s += 80;
    }
    if c.sign.has_sign {
        s += 40;
    }
    if c.sign.negative {
        s += 120;
    }
    if c.sign.positive {
        s += 10;
    }
    s
}

/// The weight text and unit of the best candidate among the matches that the
/// weight pattern gave, `None` when no match gives an accepted weight.
pub fn select_weight(matches: &Vec<Vec<Option<(usize, String)>>>, default_unit: &str) -> (r: Option<
    (String, String),
>)
    ensures
        r is None <==> best(candidates(matches.deep_view(), default_unit@)) is None,
        r matches Some(p) ==> ({
            let c = best(candidates(matches.deep_view(), default_unit@))->0;
            p.0@ == c.weight && p.1@ == c.unit
        }),
{
    let mut chosen: Option<WeightCandidate> = None;
    let mut i: usize = 0;
    while i < matches.len()
        invariant
            i <= matches@.len(),
            chosen is None <==> best(candidates(matches.deep_view().take(i as int), default_unit@)) is None,
            chosen matches Some(c) ==> best(candidates(matches.deep_view().take(i as int), default_unit@)) == Some(c.model()),
        decreases matches.len() - i,
    {
        let ghost prev = matches.deep_view().take(i as int);
        assert(matches.deep_view().take(i + 1).drop_last() =~= prev);
        assert(matches.deep_view().take(i + 1).last() == matches[i as int].deep_view());
        let ghost cs = candidates(prev, default_unit@);
        match candidate_from_match(&matches[i], default_unit) {
            Some(c) => {
                assert(cs.push(c.model()).drop_last() =~= cs);
                let take = match &chosen {
                    None => true,
                    Some(b) => {
                        let sc = score_candidate(&c);
                        let sb = score_candidate(b);
                        sc > sb || (sc == sb && c.index >= b.index)
                    },
                };
                if take {
                    chosen = Some(c);
                }
            },
            None => {},
        }
        i += 1;
    }
    assert(matches.deep_view().take(matches@.len() as int) =~= matches.deep_view());
    match chosen {
        Some(c) => Some((string_from_chars(&c.weight), string_from_chars(&c.unit))),
        None => None,
    }
}

/// A candidate's sign is one of the three that `resolved_sign` gives, and a
/// negative candidate's weight text starts with `-`.
pub open spec fn well_formed_candidate(c: CandidateModel) -> bool {
    &&& (c.sign == negative_sign_model() || c.sign == positive_sign_model() || c.sign
        == no_sign_model())
    &&& c.sign.negative ==> c.weight.len() > 0 && c.weight[0] == '-'
}

proof fn lemma_candidates_well_formed(ms: Seq<Seq<Option<(usize, Seq<char>)>>>, du: Seq<char>)
    ensures
        forall|i: int|
            0 <= i < candidates(ms, du).len() ==> well_formed_candidate(
                #[trigger] candidates(ms, du)[i],
            ),
    decreases ms.len(),
{
    if ms.len() > 0 {
        lemma_candidates_well_formed(ms.drop_last(), du);
        let rest = candidates(ms.drop_last(), du);
        match candidate_of(ms.last(), du) {
            Some(c) => {
                assert forall|i: int| 0 <= i < rest.push(c).len() implies well_formed_candidate(
                    #[trigger] rest.push(c)[i],
                ) by {
                    if i < rest.len() {
                        assert(rest.push(c)[i] == rest[i]);
                    }
                }
            },
            None => {},
        }
    }
}

/// The best candidate is one of the candidates, and no candidate has a
/// greater (score, start) pair: it has the highest score, and among those with
/// that score it starts last.
pub proof fn best_has_greatest_key(cs: Seq<CandidateModel>)
    ensures
        best(cs) is Some <==> cs.len() > 0,
        best(cs) matches Some(b) ==> cs.contains(b) && forall|i: int|
            0 <= i < cs.len() ==> score(#[trigger] cs[i]) < score(b) || (score(cs[i]) == score(b)
                && cs[i].index <= b.index),
    decreases cs.len(),
{
    if cs.len() > 0 {
        let rest = cs.drop_last();
        best_has_greatest_key(rest);
        match best(rest) {
            None => {
                assert(cs[cs.len() - 1] == cs.last());
            },
            Some(b) => {
                let w = best(cs)->0;
                assert forall|i: int| 0 <= i < cs.len() implies score(#[trigger] cs[i]) < score(w) || (
                score(cs[i]) == score(w) && cs[i].index <= w.index) by {
                    if i < cs.len() - 1 {
                        assert(cs[i] == rest[i]);
                    }
                }
                if !replaces(cs.last(), b) {
                    let j = choose|j: int| 0 <= j < rest.len() && rest[j] == b;
                    assert(cs[j] == b);
                } else {
                    assert(cs[cs.len() - 1] == cs.last());
                }
            },
        }
    }
}

/// A frame that holds a negatively signed weight is always read as negative:
/// a negative sign outweighs any unit and any other sign.
pub proof fn negative_weight_wins(ms: Seq<Seq<Option<(usize, Seq<char>)>>>, du: Seq<char>, i: int)
    requires
        0 <= i < candidates(ms, du).len(),
        candidates(ms, du)[i].sign.negative,
    ensures
        best(candidates(ms, du)) matches Some(b) && b.sign.negative && b.weight[0] == '-',
{
    let cs = candidates(ms, du);
    lemma_candidates_well_formed(ms, du);
    best_has_greatest_key(cs);
    let b = best(cs)->0;
    let j = choose|j: int| 0 <= j < cs.len() && cs[j] == b;
    assert(well_formed_candidate(cs[j]));
    assert(well_formed_candidate(cs[i]));
    assert(score(cs[i]) >= 160);
}

proof fn lemma_digits_keep_commas(d: Seq<char>)
    requires
        all_digits(d),
    ensures
        commas_as_points(d) == d,
{
    assert forall|j: int| 0 <= j < d.len() implies #[trigger] commas_as_points(d)[j] == d[j] by {
        assert(is_ascii_digit(d[j]));
    }
    assert(commas_as_points(d) =~= d);
}

/// Every match of the weight pattern whose number, trimmed, is integer
/// digits (leading zeros allowed) with an optional `.` or `,` and fraction
/// digits gives a candidate when its integer part is below a million,
/// whatever its sign and unit groups hold. The candidate's weight is the
/// sign, the integer digits and, when there is one, a point and the fraction.
pub proof fn small_numbers_give_candidates(
    m: Seq<Option<(usize, Seq<char>)>>,
    default_unit: Seq<char>,
    int_digits: Seq<char>,
    separator: char,
    frac: Seq<char>,
)
    requires
        m.len() > 0,
        m[0] is Some,
        int_digits.len() > 0,
        all_digits(int_digits),
        digits_value(int_digits) < 1000000,
        separator == '.' || separator == ',',
        all_digits(frac),
        trim(group_text(m, 2)) == (if frac.len() == 0 {
            int_digits
        } else {
            int_digits + seq![separator] + frac
        }),
    ensures
        candidate_of(m, default_unit) matches Some(c) && c.weight == (match c.sign.sign {
            Some(ch) => seq![ch],
            None => Seq::<char>::empty(),
        }) + (if frac.len() == 0 {
            int_digits
        } else {
            int_digits + seq!['.'] + frac
        }),
{
    let sign = resolved_sign(group_text(m, 1), group_text(m, 4));
    let sign_text = match sign.sign {
        Some(ch) => seq![ch],
        None => Seq::<char>::empty(),
    };
    assert(sign_text == Seq::<char>::empty() || sign_text == seq!['+'] || sign_text == seq!['-']);
    lemma_digits_keep_commas(int_digits);
    lemma_digits_keep_commas(frac);
    let body = if frac.len() == 0 {
        int_digits
    } else {
        int_digits + seq!['.'] + frac
    };
    if frac.len() > 0 {
        let t = int_digits + seq![separator] + frac;
        assert forall|j: int| 0 <= j < t.len() implies #[trigger] commas_as_points(t)[j] == body[j] by {
            if j < int_digits.len() {
                assert(t[j] == int_digits[j]);
                assert(is_ascii_digit(int_digits[j]));
            } else if j > int_digits.len() {
                assert(t[j] == frac[j - int_digits.len() - 1]);
                assert(is_ascii_digit(frac[j - int_digits.len() - 1]));
            }
        }
        assert(commas_as_points(t) =~= body);
        decimal_numbers_are_accepted_within_limit(sign_text, int_digits, frac);
        assert(sign_text + int_digits + seq!['.'] + frac =~= sign_text + body);
    } else {
        decimal_numbers_are_accepted_within_limit(sign_text, int_digits, seq!['0']);
    }
    assert(weight_text(group_text(m, 2), sign) =~= sign_text + body);
    assert(is_accepted_weight(sign_text + body));
}

} // verus!
