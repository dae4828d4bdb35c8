//! Port specifications: `"8080"` names one port, `"8000-8010"` an inclusive range.
use vstd::prelude::*;
use vstd::utf8::encode_utf8;

verus! {

/// The byte `'+'`, accepted before the digits of an unsigned number.
pub const PLUS: u8 = 43;

/// The byte `'-'` that separates the two ends of a range.
pub const DASH: u8 = 45;

/// An ASCII decimal digit.
pub open spec fn is_digit(b: u8) -> bool {
    48 <= b <= 57
}

/// The value of a string of decimal digits, most significant first.
pub open spec fn digits_value(d: Seq<u8>) -> nat
    decreases d.len(),
{
    if d.len() == 0 {
        0
    } else {
        digits_value(d.drop_last()) * 10 + (d.last() - 48) as nat
    }
}

/// The text of an unsigned number with its optional leading `'+'` removed.
pub open spec fn unsigned_digits(t: Seq<u8>) -> Seq<u8> {
    if t.len() > 0 && t[0] == PLUS {
        t.drop_first()
    } else {
        t
    }
}

/// An optional `'+'` followed by one or more decimal digits.
pub open spec fn is_unsigned_text(t: Seq<u8>) -> bool {
    let d = unsigned_digits(t);
    d.len() > 0 && forall|i: int| 0 <= i < d.len() ==> is_digit(#[trigger] d[i])
}

/// The number that `t` spells, if it spells one no larger than `max`.
pub open spec fn unsigned_of(t: Seq<u8>, max: nat) -> Option<nat> {
    if is_unsigned_text(t) && digits_value(unsigned_digits(t)) <= max {
        Some(digits_value(unsigned_digits(t)))
    } else {
        None
    }
}

/// The port that `t` names as a single port number.
pub open spec fn port_of(t: Seq<u8>) -> Option<u16> {
    match unsigned_of(t, 65535) {
        Some(v) => Some(v as u16),
        None => None,
    }
}

/// The index of the first `'-'` in `t` at or after `i`, or `t.len()` if there is none.
pub open spec fn dash_from(t: Seq<u8>, i: int) -> int
    decreases t.len() - i,
{
    if i >= t.len() {
        t.len() as int
    } else if t[i] == DASH {
        i
    } else {
        dash_from(t, i + 1)
    }
}

/// The ports `start, start + 1, ..., end`; empty when `start > end`.
pub open spec fn port_range(start: u16, end: u16) -> Seq<u16> {
    Seq::new(
        if start <= end { (end - start + 1) as nat } else { 0 },
        |i: int| (start + i) as u16,
    )
}

/// The two ends of a range specification, split at its first `'-'`.
pub open spec fn range_ends(t: Seq<u8>) -> Option<(u16, u16)> {
    let k = dash_from(t, 0);
    if k < t.len() {
        match (port_of(t.subrange(0, k)), port_of(t.subrange(k + 1, t.len() as int))) {
            (Some(a), Some(b)) => Some((a, b)),
            _ => None,
        }
    } else {
        None
    }
}

/// The ports that a specification stands for, or `None` if it is malformed.
pub open spec fn ports_of(t: Seq<u8>) -> Option<Seq<u16>> {
    match port_of(t) {
        Some(p) => Some(seq![p]),
        None => match range_ends(t) {
            Some((a, b)) => Some(port_range(a, b)),
            None => None,
        },
    }
}

/// A port specification that is neither a port number nor a range of them.
#[derive(Debug, Clone, PartialEq, Eq)]
pub struct MalformedSpecError {
    /// The offending text.
    pub spec: String,
}

/// Appending digits never makes a number smaller.
proof fn lemma_digits_value_prefix(d: Seq<u8>, i: int)
    requires
        0 <= i <= d.len(),
    ensures
        digits_value(d.subrange(0, i)) <= digits_value(d),
    decreases d.len() - i,
{
    if i < d.len() {
        lemma_digits_value_prefix(d, i + 1);
        assert(d.subrange(0, i + 1).drop_last() =~= d.subrange(0, i));
    } else {
        assert(d.subrange(0, i) =~= d);
    }
}

/// Parses `t[start..end]` as an unsigned number no larger than `max`.
pub fn parse_unsigned(t: &[u8], start: usize, end: usize, max: u64) -> (r: Option<u64>)
    requires
        start <= end <= t@.len(),
    ensures
        r == (match unsigned_of(t@.subrange(start as int, end as int), max as nat) {
            Some(v) => Some(v as u64),
            None => None::<u64>,
        }),
{
    let ghost s = t@.subrange(start as int, end as int);
    let mut i: usize = start;
    if i < end && t[i] == PLUS {
        i = i + 1;
    }
    let ghost d = unsigned_digits(s);
    assert(d =~= t@.subrange(i as int, end as int));
    if i == end {
        return None;
    }
    let first: usize = i;
    let mut acc: u64 = 0;
    while i < end
        invariant
            start <= first <= i <= end <= t@.len(),
            d =~= t@.subrange(first as int, end as int),
            s == t@.subrange(start as int, end as int),
            d == unsigned_digits(s),
            acc as nat == digits_value(d.subrange(0, i - first)),
            acc <= max,
            forall|j: int| 0 <= j < i - first ==> is_digit(#[trigger] d[j]),
        decreases end - i,
    {
        let b = t[i];
        if b < 48 || b > 57 {
            assert(!is_digit(d[i - first]));
            assert(!is_unsigned_text(s));
            return None;
        }
        let dv: u64 = (b - 48) as u64;
        assert(d.subrange(0, i - first + 1).drop_last() =~= d.subrange(0, i - first));
        if dv > max || acc > (max - dv) / 10 {
            proof {
                if dv <= max {
                    assert(acc * 10 + dv > max) by (nonlinear_arith)
                        requires acc > (max - dv) / 10, dv <= max;
                }
                lemma_digits_value_prefix(d, i - first + 1);
            }
            return None;
        }
        assert(acc * 10 + dv <= max) by (nonlinear_arith)
            requires acc <= (max - dv) / 10, dv <= 9, acc <= max;
        acc = acc * 10 + dv;
        i = i + 1;
    }
    assert(d.subrange(0, d.len() as int) =~= d);
    Some(acc)
}

/// The index of the first `'-'` in `t`, or `t.len()` if there is none.
fn find_dash(t: &[u8]) -> (k: usize)
    ensures
        k as int == dash_from(t@, 0),
{
    let mut i: usize = 0;
    while i < t.len()
        invariant
            i <= t@.len(),
            dash_from(t@, 0) == dash_from(t@, i as int),
        decreases t@.len() - i,
    {
        if t[i] == DASH {
            return i;
        }
        i = i + 1;
    }
    i
}

/// The port that `t[start..end]` names, if it is one.
fn parse_port(t: &[u8], start: usize, end: usize) -> (r: Option<u16>)
    requires
        start <= end <= t@.len(),
    ensures
        r == port_of(t@.subrange(start as int, end as int)),
{
    match parse_unsigned(t, start, end, 65535) {
        Some(v) => Some(v as u16),
        None => None,
    }
}

/// The ports from `start` to `end` inclusive, in ascending order.
pub fn port_range_vec(start: u16, end: u16) -> (r: Vec<u16>)
    ensures
        r@ == port_range(start, end),
{
    let mut v: Vec<u16> = Vec::new();
    if start > end {
        assert(v@ =~= port_range(start, end));
        return v;
    }
    let mut p: u32 = start as u32;
    while p <= end as u32
        invariant
            start <= p <= end as u32 + 1,
            start <= end,
            v@ =~= Seq::new((p - start) as nat, |i: int| (start + i) as u16),
        decreases end as u32 + 1 - p,
    {
        v.push(p as u16);
        p = p + 1;
    }
    assert(v@ =~= port_range(start, end));
    v
}

/// Resolves a port specification into the ports it names, in ascending order.
///
/// A single number from 0 to 65535 (an optional `'+'`, then decimal digits)
/// gives that one port. Otherwise two such numbers separated by `'-'` give
/// every port from the first to the second; when the first is larger the
/// result is empty, which is not an error. Any other text is malformed.
pub fn resolve(spec: &str) -> (r: Result<Vec<u16>, MalformedSpecError>)
    ensures
        match ports_of(encode_utf8(spec@)) {
            Some(ps) => r is Ok && r->Ok_0@ == ps,
            None => r is Err && r->Err_0.spec@ == spec@,
        },
{
    let t = spec.as_bytes();
    let n = t.len();
    if let Some(p) = parse_port(t, 0, n) {
        assert(t@.subrange(0, n as int) =~= t@);
        let mut v: Vec<u16> = Vec::new();
        v.push(p);
        assert(v@ =~= seq![p]);
        return Ok(v);
    }
    assert(t@.subrange(0, n as int) =~= t@);
    let k = find_dash(t);
    if k < n {
        let a = parse_port(t, 0, k);
        let b = parse_port(t, k + 1, n);
        if let (Some(a), Some(b)) = (a, b) {
            return Ok(port_range_vec(a, b));
        }
    }
    Err(MalformedSpecError { spec: spec.to_owned() })
}

} // verus!
