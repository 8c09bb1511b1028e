//! The telemetry payload grammar.
//!
//! Device payloads are flat JSON objects whose values are scalars: numbers,
//! booleans, strings, or `null`. The grammar accepted here is exactly that
//! shape: nested objects or arrays, escape sequences inside strings, and
//! exponent notation on numbers are rejected, which reports the payload as
//! undecodable rather than crashing. Numbers are read as exact fixed-point
//! values in hundredths (the protocol's resolution); fraction digits past
//! the second are truncated.
//!
//! `spec_payload_fields` is the grammar stated as a mathematical function of
//! the payload bytes; `parse_payload_fields` is the executable parser, proved
//! to return exactly what the grammar says.

use vstd::prelude::*;

verus! {

/// A parsed scalar field value.
///
/// A number is kept as its sign, whole part, and first two fraction digits
/// (`frac_centi`, in hundredths); `is_int` records whether the payload wrote
/// it without a decimal point, which integer-valued fields require.
#[derive(Clone, Debug)]
pub enum JsonValue {
    Num { neg: bool, whole: i64, frac_centi: u8, is_int: bool },
    Bool(bool),
    Str(Vec<u8>),
    Null,
}

/// The spec-level image of a parsed scalar.
pub enum SpecJson {
    Num { neg: bool, whole: int, frac_centi: int, is_int: bool },
    Bool(bool),
    Str(Seq<u8>),
    Null,
}

impl View for JsonValue {
    type V = SpecJson;

    open spec fn view(&self) -> SpecJson {
        match self {
            JsonValue::Num { neg, whole, frac_centi, is_int } => SpecJson::Num {
                neg: *neg,
                whole: *whole as int,
                frac_centi: *frac_centi as int,
                is_int: *is_int,
            },
            JsonValue::Bool(b) => SpecJson::Bool(*b),
            JsonValue::Str(s) => SpecJson::Str(s@),
            JsonValue::Null => SpecJson::Null,
        }
    }
}

/// The signed fixed-point value of a parsed number, in hundredths.
pub open spec fn spec_centi(v: SpecJson) -> int
    recommends v is Num,
{
    match v {
        SpecJson::Num { neg, whole, frac_centi, .. } => {
            if neg {
                -(whole * 100 + frac_centi)
            } else {
                whole * 100 + frac_centi
            }
        },
        _ => 0,
    }
}

/// JSON insignificant whitespace.
pub open spec fn is_ws(b: u8) -> bool {
    b == 0x20 || b == 0x09 || b == 0x0a || b == 0x0d
}

pub open spec fn is_digit(b: u8) -> bool {
    0x30 <= b && b <= 0x39
}

/// Position of the first non-whitespace byte at or after `i`.
pub open spec fn sp_ws(s: Seq<u8>, i: int) -> int
    decreases s.len() - i,
{
    if 0 <= i < s.len() && is_ws(s[i]) {
        sp_ws(s, i + 1)
    } else {
        i
    }
}

/// Body of a string literal starting at `i` (just after the opening quote):
/// the content bytes and the position after the closing quote. Bytes run
/// uninterpreted; an escape (`\`) or a missing closing quote rejects.
pub open spec fn sp_str_body(s: Seq<u8>, i: int) -> Option<(Seq<u8>, int)>
    decreases s.len() - i,
{
    if i < 0 || i >= s.len() {
        None
    } else if s[i] == 0x22 {
        Some((Seq::empty(), i + 1))
    } else if s[i] == 0x5c {
        None
    } else {
        match sp_str_body(s, i + 1) {
            Some((content, end)) => Some((seq![s[i]] + content, end)),
            None => None,
        }
    }
}

/// A string literal starting at `i` (at the opening quote).
pub open spec fn sp_string(s: Seq<u8>, i: int) -> Option<(Seq<u8>, int)> {
    if 0 <= i < s.len() && s[i] == 0x22 {
        sp_str_body(s, i + 1)
    } else {
        None
    }
}

/// Position just after the run of decimal digits starting at `i`.
pub open spec fn sp_digits_end(s: Seq<u8>, i: int) -> int
    decreases s.len() - i,
{
    if 0 <= i < s.len() && is_digit(s[i]) {
        sp_digits_end(s, i + 1)
    } else {
        i
    }
}

/// The integer a run of digit bytes denotes.
pub open spec fn digits_val(ds: Seq<u8>) -> int
    decreases ds.len(),
{
    if ds.len() == 0 {
        0
    } else {
        digits_val(ds.drop_last()) * 10 + (ds.last() - 0x30)
    }
}

/// The first two fraction digits read in hundredths; one digit counts in
/// tenths, further digits truncate.
pub open spec fn frac_centi_val(ds: Seq<u8>) -> int {
    if ds.len() == 0 {
        0
    } else if ds.len() == 1 {
        (ds[0] - 0x30) * 10
    } else {
        (ds[0] - 0x30) * 10 + (ds[1] - 0x30)
    }
}

/// Longest accepted digit run; keeps every accepted whole part below 10^15.
pub open spec fn max_whole_digits() -> int {
    15
}

/// A number starting at `i`: optional `-`, a whole digit run, optionally a
/// point and a fraction digit run. No exponents; a whole part longer than
/// `max_whole_digits` digits rejects.
pub open spec fn sp_number(s: Seq<u8>, i: int) -> Option<(SpecJson, int)> {
    if i < 0 || i >= s.len() {
        None
    } else {
        let neg = s[i] == 0x2d;
        let j = if neg { i + 1 } else { i };
        if !(j < s.len() && is_digit(s[j])) {
            None
        } else {
            let e1 = sp_digits_end(s, j);
            if e1 - j > max_whole_digits() {
                None
            } else {
                let whole = digits_val(s.subrange(j, e1));
                if e1 < s.len() && s[e1] == 0x2e {
                    let f0 = e1 + 1;
                    if !(f0 < s.len() && is_digit(s[f0])) {
                        None
                    } else {
                        let e2 = sp_digits_end(s, f0);
                        let fc = frac_centi_val(s.subrange(f0, e2));
                        Some((
                            SpecJson::Num { neg, whole, frac_centi: fc, is_int: false },
                            e2,
                        ))
                    }
                } else {
                    Some((SpecJson::Num { neg, whole, frac_centi: 0, is_int: true }, e1))
                }
            }
        }
    }
}

/// A scalar value starting at `i`. Anything else -- including `{` or `[`,
/// which would open a nested structure -- rejects.
pub open spec fn sp_value(s: Seq<u8>, i: int) -> Option<(SpecJson, int)> {
    if i < 0 || i >= s.len() {
        None
    } else if s[i] == 0x22 {
        match sp_string(s, i) {
            Some((content, end)) => Some((SpecJson::Str(content), end)),
            None => None,
        }
    } else if s[i] == 0x74 {
        // t r u e
        if i + 4 <= s.len() && s[i + 1] == 0x72 && s[i + 2] == 0x75 && s[i + 3] == 0x65 {
            Some((SpecJson::Bool(true), i + 4))
        } else {
            None
        }
    } else if s[i] == 0x66 {
        // f a l s e
        if i + 5 <= s.len() && s[i + 1] == 0x61 && s[i + 2] == 0x6c && s[i + 3] == 0x73
            && s[i + 4] == 0x65 {
            Some((SpecJson::Bool(false), i + 5))
        } else {
            None
        }
    } else if s[i] == 0x6e {
        // n u l l
        if i + 4 <= s.len() && s[i + 1] == 0x75 && s[i + 2] == 0x6c && s[i + 3] == 0x6c {
            Some((SpecJson::Null, i + 4))
        } else {
            None
        }
    } else if s[i] == 0x2d || is_digit(s[i]) {
        sp_number(s, i)
    } else {
        None
    }
}

/// One `"key": value` member starting at `i` (at the key's opening quote).
pub open spec fn sp_member(s: Seq<u8>, i: int) -> Option<((Seq<u8>, SpecJson), int)> {
    match sp_string(s, i) {
        None => None,
        Some((key, j)) => {
            let j2 = sp_ws(s, j);
            if !(j2 < s.len() && s[j2] == 0x3a) {
                None
            } else {
                let j3 = sp_ws(s, j2 + 1);
                match sp_value(s, j3) {
                    None => None,
                    Some((v, j4)) => Some(((key, v), j4)),
                }
            }
        },
    }
}

/// A non-empty comma-separated member list starting at `i`; the returned
/// position is after the trailing whitespace of the last member.
pub open spec fn sp_members(s: Seq<u8>, i: int) -> Option<(Seq<(Seq<u8>, SpecJson)>, int)>
    decreases s.len() - i,
{
    match sp_member(s, i) {
        None => None,
        Some(((k, v), j)) => {
            let j2 = sp_ws(s, j);
            if j2 < s.len() && s[j2] == 0x2c {
                let j3 = sp_ws(s, j2 + 1);
                if !(i < j3 <= s.len()) {
                    None
                } else {
                    match sp_members(s, j3) {
                        None => None,
                        Some((rest, j4)) => Some((seq![(k, v)] + rest, j4)),
                    }
                }
            } else {
                Some((seq![(k, v)], j2))
            }
        },
    }
}

/// A flat object starting at `i` and the position after its closing brace.
pub open spec fn sp_object(s: Seq<u8>, i: int) -> Option<(Seq<(Seq<u8>, SpecJson)>, int)> {
    let j = sp_ws(s, i);
    if !(j < s.len() && s[j] == 0x7b) {
        None
    } else {
        let j2 = sp_ws(s, j + 1);
        if j2 < s.len() && s[j2] == 0x7d {
            Some((Seq::empty(), j2 + 1))
        } else {
            match sp_members(s, j2) {
                None => None,
                Some((ps, j3)) => {
                    if j3 < s.len() && s[j3] == 0x7d {
                        Some((ps, j3 + 1))
                    } else {
                        None
                    }
                },
            }
        }
    }
}

/// The grammar of a whole payload: one flat object, padded by whitespace
/// only. `None` means the payload is undecodable.
pub open spec fn spec_payload_fields(s: Seq<u8>) -> Option<Seq<(Seq<u8>, SpecJson)>> {
    match sp_object(s, 0) {
        None => None,
        Some((ps, j)) => {
            if sp_ws(s, j) == s.len() {
                Some(ps)
            } else {
                None
            }
        },
    }
}

/// The spec image of an executable field list.
pub open spec fn fields_view(fs: Seq<(Vec<u8>, JsonValue)>) -> Seq<(Seq<u8>, SpecJson)> {
    fs.map(|i: int, p: (Vec<u8>, JsonValue)| (p.0@, p.1@))
}

/// 10^n; bounds the whole part a digit run can denote.
pub open spec fn pow10(n: nat) -> int
    decreases n,
{
    if n == 0 {
        1
    } else {
        10 * pow10((n - 1) as nat)
    }
}

fn ws_byte(b: u8) -> (r: bool)
    ensures
        r == is_ws(b),
{
    b == 0x20 || b == 0x09 || b == 0x0a || b == 0x0d
}

fn digit_byte(b: u8) -> (r: bool)
    ensures
        r == is_digit(b),
{
    0x30 <= b && b <= 0x39
}

fn skip_ws(s: &[u8], i: usize) -> (r: usize)
    requires
        i <= s@.len(),
    ensures
        r == sp_ws(s@, i as int),
        i <= r <= s@.len(),
{
    let mut k: usize = i;
    while k < s.len() && ws_byte(s[k])
        invariant
            i <= k <= s@.len(),
            sp_ws(s@, i as int) == sp_ws(s@, k as int),
        decreases s@.len() - k,
    {
        k = k + 1;
    }
    k
}

fn digits_end(s: &[u8], i: usize) -> (r: usize)
    requires
        i <= s@.len(),
    ensures
        r == sp_digits_end(s@, i as int),
        i <= r <= s@.len(),
{
    let mut k: usize = i;
    while k < s.len() && digit_byte(s[k])
        invariant
            i <= k <= s@.len(),
            sp_digits_end(s@, i as int) == sp_digits_end(s@, k as int),
        decreases s@.len() - k,
    {
        k = k + 1;
    }
    k
}

/// `r` prefixed by already-collected content.
spec fn str_body_with(acc: Seq<u8>, r: Option<(Seq<u8>, int)>) -> Option<(Seq<u8>, int)> {
    match r {
        Some((content, end)) => Some((acc + content, end)),
        None => None,
    }
}

fn parse_string(s: &[u8], i: usize) -> (r: Option<(Vec<u8>, usize)>)
    requires
        i <= s@.len(),
    ensures
        match r {
            Some((content, end)) => {
                &&& sp_string(s@, i as int) == Some((content@, end as int))
                &&& i < end <= s@.len()
            },
            None => sp_string(s@, i as int) is None,
        },
{
    if !(i < s.len() && s[i] == 0x22) {
        return None;
    }
    let mut acc: Vec<u8> = Vec::new();
    let mut k: usize = i + 1;
    proof {
        if sp_str_body(s@, i + 1) is Some {
            let (content, end) = sp_str_body(s@, i + 1)->Some_0;
            assert(acc@ + content =~= content);
        }
    }
    loop
        invariant
            i < s@.len(),
            s@[i as int] == 0x22,
            i + 1 <= k <= s@.len(),
            str_body_with(acc@, sp_str_body(s@, k as int)) == sp_str_body(s@, i + 1),
        decreases s@.len() - k,
    {
        if k >= s.len() {
            return None;
        }
        let b = s[k];
        if b == 0x22 {
            proof {
                assert(sp_str_body(s@, k as int) == Some((Seq::<u8>::empty(), k + 1)));
                assert(str_body_with(acc@, sp_str_body(s@, k as int)) == Some(
                    (acc@ + Seq::<u8>::empty(), k + 1),
                ));
                assert(acc@ + Seq::<u8>::empty() =~= acc@);
                assert(sp_str_body(s@, i + 1) == Some((acc@, k + 1)));
                assert(sp_string(s@, i as int) == Some((acc@, k + 1)));
            }
            return Some((acc, k + 1));
        }
        if b == 0x5c {
            return None;
        }
        proof {
            let inner = sp_str_body(s@, k + 1);
            match inner {
                Some((content, end)) => {
                    assert(sp_str_body(s@, k as int) == Some((seq![s@[k as int]] + content, end)));
                    assert(acc@ + (seq![s@[k as int]] + content) =~= acc@.push(s@[k as int])
                        + content);
                },
                None => {
                    assert(sp_str_body(s@, k as int) is None);
                },
            }
        }
        acc.push(b);
        k = k + 1;
    }
}

fn parse_number(s: &[u8], i: usize) -> (r: Option<(JsonValue, usize)>)
    requires
        i <= s@.len(),
    ensures
        match r {
            Some((v, end)) => {
                &&& sp_number(s@, i as int) == Some((v@, end as int))
                &&& i < end <= s@.len()
                &&& v is Num
            },
            None => sp_number(s@, i as int) is None,
        },
{
    if i >= s.len() {
        return None;
    }
    let neg = s[i] == 0x2d;
    let j: usize = if neg { i + 1 } else { i };
    if !(j < s.len() && digit_byte(s[j])) {
        return None;
    }
    let e1 = digits_end(s, j);
    proof {
        lemma_digits_end_bounds(s@, j + 1);
        assert(e1 >= j + 1);
        reveal_with_fuel(pow10, 16);
        assert(pow10(14) == 100000000000000);
        assert(pow10(15) == 1000000000000000);
    }
    if e1 - j > 15 {
        return None;
    }
    let mut whole: i64 = 0;
    let mut k: usize = j;
    while k < e1
        invariant
            j <= k <= e1 <= s@.len(),
            e1 - j <= 15,
            e1 == sp_digits_end(s@, j as int),
            whole == digits_val(s@.subrange(j as int, k as int)),
            0 <= whole < pow10((k - j) as nat),
            pow10(14) == 100000000000000,
        decreases e1 - k,
    {
        proof {
            lemma_digits_run(s@, j as int, k as int);
            assert(s@.subrange(j as int, k + 1).drop_last() =~= s@.subrange(
                j as int,
                k as int,
            ));
            assert(s@.subrange(j as int, k + 1).last() == s@[k as int]);
            lemma_pow10_mono((k - j) as nat, 14);
        }
        let d = s[k] - 0x30;
        whole = whole * 10 + (d as i64);
        k = k + 1;
    }
    proof {
        assert(s@.subrange(j as int, e1 as int) == s@.subrange(j as int, k as int));
    }
    if e1 < s.len() && s[e1] == 0x2e {
        let f0 = e1 + 1;
        if !(f0 < s.len() && digit_byte(s[f0])) {
            return None;
        }
        let e2 = digits_end(s, f0);
        proof {
            lemma_digits_end_bounds(s@, f0 + 1);
            assert(e2 >= f0 + 1);
            if e2 > f0 + 1 {
                lemma_digits_run(s@, f0 as int, f0 + 1);
            }
            assert(s@.subrange(f0 as int, e2 as int).len() == e2 - f0);
            assert(s@.subrange(f0 as int, e2 as int)[0] == s@[f0 as int]);
        }
        let d1 = s[f0] - 0x30;
        let fc: u8 = if e2 > f0 + 1 {
            proof {
                assert(s@.subrange(f0 as int, e2 as int)[1] == s@[f0 + 1]);
            }
            d1 * 10 + (s[f0 + 1] - 0x30)
        } else {
            d1 * 10
        };
        Some((JsonValue::Num { neg, whole, frac_centi: fc, is_int: false }, e2))
    } else {
        Some((JsonValue::Num { neg, whole, frac_centi: 0, is_int: true }, e1))
    }
}

/// Every index below the end of a maximal digit run holds a digit.
proof fn lemma_digits_run(s: Seq<u8>, start: int, k: int)
    requires
        0 <= start <= k,
        k < sp_digits_end(s, start),
    ensures
        k < s.len() && is_digit(s[k]),
    decreases k - start,
{
    if !(start < s.len() && is_digit(s[start])) {
        assert(sp_digits_end(s, start) == start);
    } else {
        if k > start {
            lemma_digits_run(s, start + 1, k);
        }
    }
}

/// The end of a digit run stays within the sequence.
proof fn lemma_digits_end_bounds(s: Seq<u8>, start: int)
    requires
        0 <= start <= s.len(),
    ensures
        start <= sp_digits_end(s, start) <= s.len(),
    decreases s.len() - start,
{
    if start < s.len() && is_digit(s[start]) {
        lemma_digits_end_bounds(s, start + 1);
    }
}

proof fn lemma_pow10_mono(a: nat, b: nat)
    requires
        a <= b,
    ensures
        pow10(a) <= pow10(b),
        pow10(a) >= 1,
    decreases b,
{
    if a == b {
        lemma_pow10_pos(a);
    } else {
        lemma_pow10_mono(a, (b - 1) as nat);
    }
}

proof fn lemma_pow10_pos(a: nat)
    ensures
        pow10(a) >= 1,
    decreases a,
{
    if a > 0 {
        lemma_pow10_pos((a - 1) as nat);
    }
}

fn parse_value(s: &[u8], i: usize) -> (r: Option<(JsonValue, usize)>)
    requires
        i <= s@.len(),
    ensures
        match r {
            Some((v, end)) => {
                &&& sp_value(s@, i as int) == Some((v@, end as int))
                &&& i < end <= s@.len()
            },
            None => sp_value(s@, i as int) is None,
        },
{
    if i >= s.len() {
        return None;
    }
    let b = s[i];
    if b == 0x22 {
        match parse_string(s, i) {
            Some((content, end)) => Some((JsonValue::Str(content), end)),
            None => None,
        }
    } else if b == 0x74 {
        if s.len() - i >= 4 && s[i + 1] == 0x72 && s[i + 2] == 0x75 && s[i + 3] == 0x65 {
            Some((JsonValue::Bool(true), i + 4))
        } else {
            None
        }
    } else if b == 0x66 {
        if s.len() - i >= 5 && s[i + 1] == 0x61 && s[i + 2] == 0x6c && s[i + 3] == 0x73
            && s[i + 4] == 0x65 {
            Some((JsonValue::Bool(false), i + 5))
        } else {
            None
        }
    } else if b == 0x6e {
        if s.len() - i >= 4 && s[i + 1] == 0x75 && s[i + 2] == 0x6c && s[i + 3] == 0x6c {
            Some((JsonValue::Null, i + 4))
        } else {
            None
        }
    } else if b == 0x2d || digit_byte(b) {
        match parse_number(s, i) {
            Some((v, end)) => Some((v, end)),
            None => None,
        }
    } else {
        None
    }
}

fn parse_member(s: &[u8], i: usize) -> (r: Option<((Vec<u8>, JsonValue), usize)>)
    requires
        i <= s@.len(),
    ensures
        match r {
            Some(((k, v), end)) => {
                &&& sp_member(s@, i as int) == Some(((k@, v@), end as int))
                &&& i < end <= s@.len()
            },
            None => sp_member(s@, i as int) is None,
        },
{
    let (key, j) = match parse_string(s, i) {
        Some(p) => p,
        None => {
            return None;
        },
    };
    let j2 = skip_ws(s, j);
    if !(j2 < s.len() && s[j2] == 0x3a) {
        return None;
    }
    let j3 = skip_ws(s, j2 + 1);
    match parse_value(s, j3) {
        Some((v, j4)) => Some(((key, v), j4)),
        None => None,
    }
}

/// `r` prefixed by already-collected members.
spec fn members_with(
    acc: Seq<(Seq<u8>, SpecJson)>,
    r: Option<(Seq<(Seq<u8>, SpecJson)>, int)>,
) -> Option<(Seq<(Seq<u8>, SpecJson)>, int)> {
    match r {
        Some((ps, end)) => Some((acc + ps, end)),
        None => None,
    }
}

fn parse_members(s: &[u8], i: usize) -> (r: Option<(Vec<(Vec<u8>, JsonValue)>, usize)>)
    requires
        i <= s@.len(),
    ensures
        match r {
            Some((fs, end)) => {
                &&& sp_members(s@, i as int) == Some((fields_view(fs@), end as int))
                &&& i <= end <= s@.len()
            },
            None => sp_members(s@, i as int) is None,
        },
{
    let mut acc: Vec<(Vec<u8>, JsonValue)> = Vec::new();
    let mut pos: usize = i;
    proof {
        assert(fields_view(acc@) =~= Seq::<(Seq<u8>, SpecJson)>::empty());
        if sp_members(s@, i as int) is Some {
            let (ps, end) = sp_members(s@, i as int)->Some_0;
            assert(fields_view(acc@) + ps =~= ps);
        }
    }
    loop
        invariant
            i <= pos <= s@.len(),
            members_with(fields_view(acc@), sp_members(s@, pos as int)) == sp_members(
                s@,
                i as int,
            ),
        decreases s@.len() - pos,
    {
        let ghost prior = fields_view(acc@);
        let ((key, v), j) = match parse_member(s, pos) {
            Some(p) => p,
            None => {
                return None;
            },
        };
        let j2 = skip_ws(s, j);
        let ghost pair = (key@, v@);
        acc.push((key, v));
        proof {
            assert(fields_view(acc@) =~= prior.push(pair));
        }
        if j2 < s.len() && s[j2] == 0x2c {
            let j3 = skip_ws(s, j2 + 1);
            proof {
                match sp_members(s@, j3 as int) {
                    Some((ps, end)) => {
                        assert(sp_members(s@, pos as int) == Some((seq![pair] + ps, end)));
                        assert(prior.push(pair) + ps =~= prior + (seq![pair] + ps));
                    },
                    None => {
                        assert(sp_members(s@, pos as int) is None);
                    },
                }
            }
            pos = j3;
        } else {
            proof {
                assert(sp_members(s@, pos as int) == Some((seq![pair], j2 as int)));
                assert(prior.push(pair) =~= prior + seq![pair]);
            }
            return Some((acc, j2));
        }
    }
}

fn parse_object(s: &[u8], i: usize) -> (r: Option<(Vec<(Vec<u8>, JsonValue)>, usize)>)
    requires
        i <= s@.len(),
    ensures
        match r {
            Some((fs, end)) => {
                &&& sp_object(s@, i as int) == Some((fields_view(fs@), end as int))
                &&& i <= end <= s@.len()
            },
            None => sp_object(s@, i as int) is None,
        },
{
    let j = skip_ws(s, i);
    if !(j < s.len() && s[j] == 0x7b) {
        return None;
    }
    let j2 = skip_ws(s, j + 1);
    if j2 < s.len() && s[j2] == 0x7d {
        let fs: Vec<(Vec<u8>, JsonValue)> = Vec::new();
        proof {
            assert(fields_view(fs@) =~= Seq::<(Seq<u8>, SpecJson)>::empty());
        }
        return Some((fs, j2 + 1));
    }
    match parse_members(s, j2) {
        None => None,
        Some((fs, j3)) => {
            if j3 < s.len() && s[j3] == 0x7d {
                Some((fs, j3 + 1))
            } else {
                None
            }
        },
    }
}

/// Byte-string equality, decided by one pass.
pub fn bytes_eq(a: &[u8], b: &[u8]) -> (r: bool)
    ensures
        r == (a@ == b@),
{
    if a.len() != b.len() {
        proof {
            assert(a@.len() != b@.len());
        }
        return false;
    }
    let mut i: usize = 0;
    while i < a.len()
        invariant
            i <= a@.len(),
            a@.len() == b@.len(),
            forall|k: int| 0 <= k < i ==> a@[k] == b@[k],
        decreases a@.len() - i,
    {
        if a[i] != b[i] {
            proof {
                assert(a@[i as int] != b@[i as int]);
            }
            return false;
        }
        i = i + 1;
    }
    proof {
        assert(a@ =~= b@);
    }
    true
}

/// An owned copy of a byte slice.
pub fn copy_bytes(src: &[u8]) -> (r: Vec<u8>)
    ensures
        r@ == src@,
{
    let mut out: Vec<u8> = Vec::new();
    let mut i: usize = 0;
    while i < src.len()
        invariant
            i <= src@.len(),
            out@ =~= src@.take(i as int),
        decreases src@.len() - i,
    {
        out.push(src[i]);
        proof {
            assert(out@ =~= src@.take(i + 1));
        }
        i = i + 1;
    }
    proof {
        assert(src@.take(src@.len() as int) =~= src@);
    }
    out
}

/// Parse a whole payload against the grammar `spec_payload_fields`.
pub fn parse_payload_fields(payload: &[u8]) -> (r: Option<Vec<(Vec<u8>, JsonValue)>>)
    ensures
        match r {
            Some(fs) => spec_payload_fields(payload@) == Some(fields_view(fs@)),
            None => spec_payload_fields(payload@) is None,
        },
{
    match parse_object(payload, 0) {
        None => None,
        Some((fs, j)) => {
            let k = skip_ws(payload, j);
            if k == payload.len() {
                Some(fs)
            } else {
                None
            }
        },
    }
}

} // verus!
