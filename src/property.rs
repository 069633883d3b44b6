use vstd::prelude::*;
use vstd::utf8::valid_utf8;

verus! {

/// An ASCII whitespace byte: tab, line feed, vertical tab, form feed, carriage
/// return or space.
pub open spec fn is_space_byte(b: u8) -> bool {
    b == 32 || (9 <= b && b <= 13)
}

/// The three-byte UTF-8 encodings of the whitespace characters U+1680,
/// U+2000 to U+200A, U+2028, U+2029, U+202F, U+205F and U+3000.
pub open spec fn is_wide_space(a: u8, b: u8, c: u8) -> bool {
    ||| (a == 0xE1 && b == 0x9A && c == 0x80)
    ||| (a == 0xE2 && b == 0x80 && ((0x80 <= c && c <= 0x8A) || c == 0xA8 || c == 0xA9
        || c == 0xAF))
    ||| (a == 0xE2 && b == 0x81 && c == 0x9F)
    ||| (a == 0xE3 && b == 0x80 && c == 0x80)
}

/// The length in bytes of the whitespace character that ends `s`, 0 where `s`
/// does not end in one. The whitespace characters are those of Unicode's
/// White_Space property: the ASCII ones, U+0085 and U+00A0 (two bytes each in
/// UTF-8), and the three-byte ones of `is_wide_space`.
pub open spec fn trailing_space_len(s: Seq<u8>) -> nat {
    let n = s.len() as int;
    if n >= 1 && is_space_byte(s[n - 1]) {
        1
    } else if n >= 2 && s[n - 2] == 0xC2 && (s[n - 1] == 0x85 || s[n - 1] == 0xA0) {
        2
    } else if n >= 3 && is_wide_space(s[n - 3], s[n - 2], s[n - 1]) {
        3
    } else {
        0
    }
}

/// An ASCII decimal digit.
pub open spec fn is_digit_byte(b: u8) -> bool {
    48 <= b && b <= 57
}

/// The length of `s` once trailing whitespace characters are dropped.
pub open spec fn trimmed_len(s: Seq<u8>) -> nat
    decreases s.len(),
{
    let k = trailing_space_len(s);
    if k > 0 {
        trimmed_len(s.subrange(0, s.len() - k))
    } else {
        s.len()
    }
}

/// `s` without its trailing whitespace and without one leading `+`.
pub open spec fn numeral_of(s: Seq<u8>) -> Seq<u8> {
    let t = s.subrange(0, trimmed_len(s) as int);
    if t.len() > 0 && t[0] == 43 {
        t.drop_first()
    } else {
        t
    }
}

pub open spec fn all_digits(s: Seq<u8>) -> bool {
    forall|i: int| 0 <= i < s.len() ==> is_digit_byte(#[trigger] s[i])
}

/// The number that a string of decimal digits denotes.
pub open spec fn digits_value(s: Seq<u8>) -> nat
    decreases s.len(),
{
    if s.len() == 0 {
        0
    } else {
        digits_value(s.drop_last()) * 10 + (s.last() - 48) as nat
    }
}

/// The unsigned number that a property's printed value denotes: decimal digits,
/// with an optional leading `+`, followed by any Unicode whitespace; `None` for
/// anything else.
pub open spec fn property_number(s: Seq<u8>) -> Option<nat> {
    let n = numeral_of(s);
    if n.len() > 0 && all_digits(n) {
        Some(digits_value(n))
    } else {
        None
    }
}

/// The property's number where it is at most `max`.
pub open spec fn property_within(s: Seq<u8>, max: nat) -> Option<nat> {
    match property_number(s) {
        Some(v) => if v <= max {
            Some(v)
        } else {
            None
        },
        None => None,
    }
}

proof fn lemma_trimmed_len_bound(s: Seq<u8>)
    ensures
        trimmed_len(s) <= s.len(),
    decreases s.len(),
{
    let k = trailing_space_len(s);
    if k > 0 {
        lemma_trimmed_len_bound(s.subrange(0, s.len() - k));
    }
}

proof fn lemma_digits_prefix_le(s: Seq<u8>, j: int)
    requires
        0 <= j <= s.len(),
        all_digits(s),
    ensures
        digits_value(s.subrange(0, j)) <= digits_value(s),
    decreases s.len(),
{
    if j < s.len() {
        let p = s.drop_last();
        assert(p =~= s.subrange(0, s.len() - 1));
        assert(p.subrange(0, j) =~= s.subrange(0, j));
        lemma_digits_prefix_le(p, j);
    } else {
        assert(s.subrange(0, j) =~= s);
    }
}

fn trailing_space_at(out: &[u8], end: usize) -> (k: usize)
    requires
        end <= out@.len(),
    ensures
        k == trailing_space_len(out@.subrange(0, end as int)),
{
    let ghost p = out@.subrange(0, end as int);
    assert(forall|j: int| 0 <= j < end ==> p[j] == out@[j]);
    if end >= 1 && (out[end - 1] == 32 || (9 <= out[end - 1] && out[end - 1] <= 13)) {
        return 1;
    }
    if end >= 2 && out[end - 2] == 0xC2 && (out[end - 1] == 0x85 || out[end - 1] == 0xA0) {
        return 2;
    }
    if end >= 3 {
        let a = out[end - 3];
        let b = out[end - 2];
        let c = out[end - 1];
        if (a == 0xE1 && b == 0x9A && c == 0x80) || (a == 0xE2 && b == 0x80 && ((0x80 <= c
            && c <= 0x8A) || c == 0xA8 || c == 0xA9 || c == 0xAF)) || (a == 0xE2 && b == 0x81
            && c == 0x9F) || (a == 0xE3 && b == 0x80 && c == 0x80) {
            return 3;
        }
    }
    0
}

fn trimmed_end(out: &[u8]) -> (end: usize)
    ensures
        end == trimmed_len(out@),
{
    let mut end: usize = out.len();
    assert(out@.subrange(0, end as int) =~= out@);
    let mut k = trailing_space_at(out, end);
    while k > 0
        invariant
            end <= out@.len(),
            k == trailing_space_len(out@.subrange(0, end as int)),
            k <= end,
            trimmed_len(out@) == trimmed_len(out@.subrange(0, end as int)),
        decreases end,
    {
        proof {
            let p = out@.subrange(0, end as int);
            assert(p.subrange(0, end - k) =~= out@.subrange(0, end - k));
        }
        end = end - k;
        k = trailing_space_at(out, end);
    }
    end
}

fn digits_only(out: &[u8], start: usize, end: usize) -> (r: bool)
    requires
        start <= end <= out@.len(),
    ensures
        r == all_digits(out@.subrange(start as int, end as int)),
{
    let ghost n = out@.subrange(start as int, end as int);
    let mut i: usize = start;
    while i < end
        invariant
            start <= i <= end,
            end <= out.len(),
            n == out@.subrange(start as int, end as int),
            forall|j: int| start <= j < i ==> is_digit_byte(#[trigger] out@[j]),
        decreases end - i,
    {
        if out[i] < 48 || out[i] > 57 {
            assert(n[i - start] == out@[i as int]);
            assert(!is_digit_byte(n[i - start]));
            return false;
        }
        i = i + 1;
    }
    assert forall|k: int| 0 <= k < n.len() implies is_digit_byte(#[trigger] n[k]) by {
        assert(n[k] == out@[start + k]);
    }
    true
}

fn digits_within(out: &[u8], start: usize, end: usize, max: u64) -> (r: Option<u64>)
    requires
        start <= end <= out@.len(),
        all_digits(out@.subrange(start as int, end as int)),
    ensures
        r matches Some(v) ==> v == digits_value(out@.subrange(start as int, end as int)),
        r matches Some(v) ==> v <= max,
        r is None ==> digits_value(out@.subrange(start as int, end as int)) > max,
{
    let ghost n = out@.subrange(start as int, end as int);
    let mut v: u64 = 0;
    let mut i: usize = start;
    assert(n.subrange(0, 0) =~= Seq::<u8>::empty());
    while i < end
        invariant
            start <= i <= end,
            end <= out.len(),
            n == out@.subrange(start as int, end as int),
            all_digits(n),
            v as nat == digits_value(n.subrange(0, i - start)),
            v <= max,
        decreases end - i,
    {
        proof {
            assert(n[i - start] == out@[i as int]);
            assert(is_digit_byte(n[i - start]));
        }
        let d: u64 = (out[i] - 48) as u64;
        proof {
            let p = n.subrange(0, i - start + 1);
            assert(p.drop_last() =~= n.subrange(0, i - start));
            assert(digits_value(p) == v * 10 + d);
        }
        if d > max || v > (max - d) / 10 {
            proof {
                if d <= max {
                    assert(v * 10 + d > max) by (nonlinear_arith)
                        requires
                            v > (max - d) / 10,
                            d <= max,
                    ;
                }
                lemma_digits_prefix_le(n, i - start + 1);
            }
            return None;
        }
        assert(v * 10 + d <= max) by (nonlinear_arith)
            requires
                v <= (max - d) / 10,
                d <= max,
        ;
        v = v * 10 + d;
        i = i + 1;
    }
    assert(n.subrange(0, end - start) =~= n);
    Some(v)
}

/// Reads the printed value of a numeric property, accepting it when it is at most
/// `max`.
pub fn parse_bounded(out: &[u8], max: u64) -> (r: Option<u64>)
    ensures
        r matches Some(v) ==> property_within(out@, max as nat) == Some(v as nat),
        r is None ==> property_within(out@, max as nat) is None,
{
    let end = trimmed_end(out);
    proof {
        lemma_trimmed_len_bound(out@);
    }
    let mut start: usize = 0;
    if end > 0 && out[0] == 43 {
        start = 1;
    }
    assert(numeral_of(out@) =~= out@.subrange(start as int, end as int));
    if start == end {
        return None;
    }
    if !digits_only(out, start, end) {
        return None;
    }
    digits_within(out, start, end, max)
}

/// Relies on `core::str::from_utf8`: it accepts exactly the valid UTF-8 byte
/// strings.
#[verifier::external_body]
fn is_utf8(out: &[u8]) -> (r: bool)
    ensures
        r == valid_utf8(out@),
{
    core::str::from_utf8(out).is_ok()
}

/// The manager's answer to a property query: the printed value, or how the
/// query failed.
pub enum QueryAnswer {
    /// The query ran and succeeded; this is what it printed.
    Printed(Vec<u8>),
    /// The manager could not be reached: the command did not run.
    Unreachable,
    /// The command ran and reported failure.
    ExitFailure,
}

/// Why a property could not be read.
#[derive(Clone, Copy, Debug, PartialEq, Eq, Structural)]
pub enum QueryFailure {
    /// The manager could not be reached.
    Unreachable,
    /// The manager reported failure.
    CommandFailed,
    /// The printed value is not UTF-8 text.
    NotUtf8,
    /// The printed value is empty (the property is absent), not a number, or out
    /// of range.
    Unparseable,
}

/// What an answer gives for a numeric property with values up to `max`.
pub open spec fn answer_value(answer: QueryAnswer, max: nat) -> Result<nat, QueryFailure> {
    match answer {
        QueryAnswer::Printed(out) => if !valid_utf8(out@) {
            Err(QueryFailure::NotUtf8)
        } else {
            match property_within(out@, max) {
                Some(v) => Ok(v),
                None => Err(QueryFailure::Unparseable),
            }
        },
        QueryAnswer::Unreachable => Err(QueryFailure::Unreachable),
        QueryAnswer::ExitFailure => Err(QueryFailure::CommandFailed),
    }
}

/// Reads a numeric property with values up to `max` from the manager's answer,
/// telling each kind of failure apart.
pub fn read_property(answer: &QueryAnswer, max: u64) -> (r: Result<u64, QueryFailure>)
    ensures
        r matches Ok(v) ==> answer_value(*answer, max as nat) == Ok::<nat, QueryFailure>(
            v as nat,
        ),
        r matches Err(e) ==> answer_value(*answer, max as nat) == Err::<nat, QueryFailure>(e),
{
    match answer {
        QueryAnswer::Printed(out) => {
            if !is_utf8(out.as_slice()) {
                return Err(QueryFailure::NotUtf8);
            }
            match parse_bounded(out.as_slice(), max) {
                Some(v) => Ok(v),
                None => Err(QueryFailure::Unparseable),
            }
        },
        QueryAnswer::Unreachable => Err(QueryFailure::Unreachable),
        QueryAnswer::ExitFailure => Err(QueryFailure::CommandFailed),
    }
}

/// Reads a property printed as an unsigned 64-bit number.
pub fn parse_u64_property(out: &[u8]) -> (r: Option<u64>)
    ensures
        r matches Some(v) ==> property_within(out@, u64::MAX as nat) == Some(v as nat),
        r is None ==> property_within(out@, u64::MAX as nat) is None,
{
    parse_bounded(out, u64::MAX)
}

/// Reads a property printed as an unsigned 8-bit number.
pub fn parse_u8_property(out: &[u8]) -> (r: Option<u8>)
    ensures
        r matches Some(v) ==> property_within(out@, u8::MAX as nat) == Some(v as nat),
        r is None ==> property_within(out@, u8::MAX as nat) is None,
{
    match parse_bounded(out, u8::MAX as u64) {
        Some(v) => Some(v as u8),
        None => None,
    }
}

} // verus!
