//! Normalization of the raw provider feed.
//!
//! The provider returns dated records whose values are string-encoded decimal
//! numbers, sorted newest-first. Normalization parses every value exactly and
//! reverses the feed into chronological (oldest-first) order; if any single
//! record fails to parse, the whole normalization fails together.

use vstd::prelude::*;
use vstd::string::*;
use crate::errors::DecodeError;

verus! {

/// Most significant digits a value string may carry; keeps the exact mantissa
/// inside a machine word.
pub const MAX_VALUE_DIGITS: usize = 18;

/// `c` is an ASCII decimal digit.
pub open spec fn is_digit(c: char) -> bool {
    48 <= c as u32 && c as u32 <= 57
}

/// Numeric value of the digit `c`.
pub open spec fn digit_val(c: char) -> int {
    c as u32 - 48
}

/// Every character of `s` is a decimal digit.
pub open spec fn all_digits(s: Seq<char>) -> bool {
    forall|i: int| 0 <= i < s.len() ==> is_digit(#[trigger] s[i])
}

/// The number written by the digit string `s`, most significant digit first.
pub open spec fn digits_val(s: Seq<char>) -> int
    decreases s.len(),
{
    if s.len() == 0 {
        0
    } else {
        10 * digits_val(s.drop_last()) + digit_val(s.last())
    }
}

/// Ten to the power `n`.
pub open spec fn pow10(n: nat) -> int
    decreases n,
{
    if n == 0 {
        1
    } else {
        10 * pow10((n - 1) as nat)
    }
}

/// Length of the maximal run of digits at the front of `s`.
pub open spec fn digit_run_len(s: Seq<char>) -> int
    decreases s.len(),
{
    if s.len() == 0 {
        0
    } else if !is_digit(s[0]) {
        0
    } else {
        1 + digit_run_len(s.drop_first())
    }
}

/// `s` with a single leading minus sign, if any, removed.
pub open spec fn unsigned_part(s: Seq<char>) -> Seq<char> {
    if s.len() > 0 && s[0] == '-' {
        s.drop_first()
    } else {
        s
    }
}

/// The digits before the optional decimal point.
pub open spec fn int_digits(s: Seq<char>) -> Seq<char> {
    let u = unsigned_part(s);
    u.take(digit_run_len(u))
}

/// The digits after the decimal point; empty when there is no point.
pub open spec fn frac_digits(s: Seq<char>) -> Seq<char> {
    let u = unsigned_part(s);
    let k = digit_run_len(u);
    if k == u.len() {
        Seq::empty()
    } else {
        u.skip(k + 1)
    }
}

/// All significant digits of the value: integer part, then fractional part.
pub open spec fn mantissa_digits(s: Seq<char>) -> Seq<char> {
    int_digits(s) + frac_digits(s)
}

/// `s` is a decimal number: an optional minus sign, one or more digits, and
/// optionally a point followed by one or more digits — nothing else.
pub open spec fn is_number_chars(s: Seq<char>) -> bool {
    let u = unsigned_part(s);
    let k = digit_run_len(u);
    &&& k >= 1
    &&& (k == u.len() || (u[k] == '.' && k + 1 < u.len() && digit_run_len(u.skip(k + 1)) == u.len()
        - k - 1))
}

/// The normalizer accepts `s`: it is a decimal number whose exact mantissa
/// fits in a machine word.
pub open spec fn value_accepted(s: Seq<char>) -> bool {
    is_number_chars(s) && mantissa_digits(s).len() <= MAX_VALUE_DIGITS
}

/// An exactly parsed decimal value: `(-1)^neg * mantissa / 10^scale`.
///
/// This is the library's own reading of a provider value string; conversion
/// to the machine's floating-point format is the unverified caller's concern.
#[derive(Clone, Copy, Debug, PartialEq, Eq, Structural)]
pub struct DecimalValue {
    pub neg: bool,
    pub mantissa: u64,
    pub scale: u32,
}

impl DecimalValue {
    /// `self` is the exact reading of the characters `s`: the optional sign,
    /// the digits around the optional point gathered into one mantissa, and
    /// one unit of scale for every fractional digit.
    pub open spec fn represents(self, s: Seq<char>) -> bool {
        &&& value_accepted(s)
        &&& self.neg == (s.len() > 0 && s[0] == '-')
        &&& self.mantissa == digits_val(mantissa_digits(s))
        &&& self.scale == frac_digits(s).len()
    }
}

/// A raw provider record: an opaque date and a string-encoded numeric value.
#[derive(Clone, Debug)]
pub struct InflationData {
    pub date: String,
    pub value: String,
}

/// The raw provider feed: records sorted by date descending (newest first).
#[derive(Clone, Debug)]
pub struct InflationRaw {
    pub inflation: Vec<InflationData>,
}

/// A normalized observation: the date carried through as an opaque string and
/// the exactly parsed value.
#[derive(Clone, Debug)]
pub struct DatedObservation {
    pub date: String,
    pub value: DecimalValue,
}

proof fn lemma_digit_run_len_at(s: Seq<char>, m: int)
    requires
        0 <= m <= s.len(),
        forall|t: int| 0 <= t < m ==> is_digit(#[trigger] s[t]),
        m == s.len() || !is_digit(s[m]),
    ensures
        digit_run_len(s) == m,
    decreases s.len(),
{
    if s.len() == 0 {
    } else if m == 0 {
    } else {
        let rest = s.drop_first();
        assert forall|t: int| 0 <= t < m - 1 implies is_digit(#[trigger] rest[t]) by {
            assert(rest[t] == s[t + 1]);
        }
        if m < s.len() {
            assert(rest[m - 1] == s[m]);
        }
        lemma_digit_run_len_at(rest, m - 1);
    }
}

proof fn lemma_digits_val_bound(s: Seq<char>)
    requires
        all_digits(s),
    ensures
        0 <= digits_val(s) < pow10(s.len()),
    decreases s.len(),
{
    if s.len() == 0 {
    } else {
        let head = s.drop_last();
        assert(all_digits(head));
        lemma_digits_val_bound(head);
        assert(is_digit(s.last()));
    }
}

proof fn lemma_pow10_mono(a: nat, b: nat)
    requires
        a <= b,
    ensures
        pow10(a) <= pow10(b),
        pow10(a) >= 1,
    decreases b,
{
    if b == 0 {
    } else if a == b {
        lemma_pow10_mono((a - 1) as nat, (b - 1) as nat);
    } else {
        lemma_pow10_mono(a, (b - 1) as nat);
    }
}

proof fn lemma_pow10_18()
    ensures
        pow10(18) == 1_000_000_000_000_000_000,
{
    assert(pow10(0) == 1);
    assert(pow10(1) == 10);
    assert(pow10(2) == 100);
    assert(pow10(3) == 1_000);
    assert(pow10(4) == 10_000);
    assert(pow10(5) == 100_000);
    assert(pow10(6) == 1_000_000);
    assert(pow10(7) == 10_000_000);
    assert(pow10(8) == 100_000_000);
    assert(pow10(9) == 1_000_000_000);
    assert(pow10(10) == 10_000_000_000);
    assert(pow10(11) == 100_000_000_000);
    assert(pow10(12) == 1_000_000_000_000);
    assert(pow10(13) == 10_000_000_000_000);
    assert(pow10(14) == 100_000_000_000_000);
    assert(pow10(15) == 1_000_000_000_000_000);
    assert(pow10(16) == 10_000_000_000_000_000);
    assert(pow10(17) == 100_000_000_000_000_000);
}

/// `s[j]` is a decimal digit.
fn digit_at(s: &str, j: usize) -> (b: bool)
    requires
        j < s@.len(),
    ensures
        b == is_digit(s@[j as int]),
{
    let c = s.get_char(j);
    let u = c as u32;
    48 <= u && u <= 57
}

/// Folds the digits `s[from..to]` onto the digits already gathered in `acc0`.
fn accum_digits(s: &str, from: usize, to: usize, acc0: u64, Ghost(pre): Ghost<Seq<char>>) -> (acc:
    u64)
    requires
        from <= to <= s@.len(),
        forall|t: int| from <= t < to ==> is_digit(#[trigger] s@[t]),
        all_digits(pre),
        acc0 == digits_val(pre),
        pre.len() + (to - from) <= MAX_VALUE_DIGITS,
    ensures
        acc == digits_val(pre + s@.subrange(from as int, to as int)),
{
    let mut acc = acc0;
    let mut t = from;
    proof {
        assert(pre + s@.subrange(from as int, from as int) =~= pre);
    }
    while t < to
        invariant
            from <= t <= to <= s@.len(),
            forall|x: int| from <= x < to ==> is_digit(#[trigger] s@[x]),
            all_digits(pre),
            pre.len() + (to - from) <= MAX_VALUE_DIGITS,
            acc == digits_val(pre + s@.subrange(from as int, t as int)),
        decreases to - t,
    {
        let ghost sofar = pre + s@.subrange(from as int, t as int);
        proof {
            assert(all_digits(sofar));
            lemma_digits_val_bound(sofar);
            lemma_pow10_mono(sofar.len(), (MAX_VALUE_DIGITS - 1) as nat);
            lemma_pow10_18();
            assert(pow10(18) == 10 * pow10(17));
        }
        let c = s.get_char(t);
        let d = c as u32 - 48;
        acc = acc * 10 + d as u64;
        proof {
            let next = pre + s@.subrange(from as int, t + 1);
            assert(next.drop_last() =~= sofar);
            assert(next.last() == s@[t as int]);
        }
        t += 1;
    }
    acc
}

/// Parses one provider value string into its exact decimal reading; `None`
/// exactly when the normalizer does not accept the string.
pub fn parse_value(s: &str) -> (r: Option<DecimalValue>)
    ensures
        r is Some <==> value_accepted(s@),
        r matches Some(v) ==> v.represents(s@),
{
    let n = s.unicode_len();
    let mut start: usize = 0;
    let mut neg = false;
    if n > 0 {
        let c0 = s.get_char(0);
        if c0 == '-' {
            neg = true;
            start = 1;
        }
    }
    let ghost u = unsigned_part(s@);
    proof {
        assert(u =~= s@.subrange(start as int, n as int));
    }

    // Scan the run of integer digits.
    let mut j = start;
    while j < n && digit_at(s, j)
        invariant
            start <= j <= n,
            n == s@.len(),
            start <= 1,
            forall|t: int| start <= t < j ==> is_digit(#[trigger] s@[t]),
        decreases n - j,
    {
        j += 1;
    }
    proof {
        assert forall|t: int| 0 <= t < j - start implies is_digit(#[trigger] u[t]) by {
            assert(u[t] == s@[t + start]);
        }
        if j < n {
            assert(u[j - start] == s@[j as int]);
        }
        lemma_digit_run_len_at(u, j - start);
    }

    if j == start {
        // No integer digits: not a number.
        return None;
    }

    if j == n {
        // Digits only: an integer value.
        if j - start > MAX_VALUE_DIGITS {
            return None;
        }
        let mantissa = accum_digits(s, start, j, 0, Ghost(Seq::empty()));
        proof {
            assert(Seq::<char>::empty() + s@.subrange(start as int, j as int) =~= s@.subrange(
                start as int,
                j as int,
            ));
            assert(int_digits(s@) =~= s@.subrange(start as int, j as int));
            assert(mantissa_digits(s@) =~= s@.subrange(start as int, j as int));
        }
        return Some(DecimalValue { neg, mantissa, scale: 0 });
    }

    let c = s.get_char(j);
    if c != '.' {
        // A character that is neither a digit nor the decimal point.
        return None;
    }

    // Scan the run of fractional digits.
    let mut m = j + 1;
    while m < n && digit_at(s, m)
        invariant
            j + 1 <= m <= n,
            n == s@.len(),
            forall|t: int| j + 1 <= t < m ==> is_digit(#[trigger] s@[t]),
        decreases n - m,
    {
        m += 1;
    }
    proof {
        let f = u.skip(j - start + 1);
        assert forall|t: int| 0 <= t < m - j - 1 implies is_digit(#[trigger] f[t]) by {
            assert(f[t] == s@[t + j + 1]);
        }
        if m < n {
            assert(f[m - j - 1] == s@[m as int]);
        }
        lemma_digit_run_len_at(f, m - j - 1);
    }

    if m < n {
        // A stray character after the fractional digits.
        return None;
    }
    if m == j + 1 {
        // A decimal point with no digits after it.
        return None;
    }
    let int_len = j - start;
    let frac_len = n - j - 1;
    if int_len > MAX_VALUE_DIGITS || frac_len > MAX_VALUE_DIGITS - int_len {
        return None;
    }
    let acc1 = accum_digits(s, start, j, 0, Ghost(Seq::empty()));
    proof {
        assert(Seq::<char>::empty() + s@.subrange(start as int, j as int) =~= s@.subrange(
            start as int,
            j as int,
        ));
        assert(int_digits(s@) =~= s@.subrange(start as int, j as int));
    }
    let mantissa = accum_digits(s, j + 1, n, acc1, Ghost(s@.subrange(start as int, j as int)));
    proof {
        assert(frac_digits(s@) =~= s@.subrange(j + 1, n as int));
        assert(mantissa_digits(s@) =~= s@.subrange(start as int, j as int) + s@.subrange(
            j + 1,
            n as int,
        ));
    }
    let scale = frac_len as u32;
    Some(DecimalValue { neg, mantissa, scale })
}

/// Normalizes the raw feed: parses every value exactly and reverses the
/// newest-first provider order into chronological, oldest-first order.
///
/// Fails on the first record whose value is not a number the normalizer
/// accepts; nothing is dropped or substituted — either every record parses,
/// or the whole normalization fails.
pub fn normalize(raw: &InflationRaw) -> (r: Result<Vec<DatedObservation>, DecodeError>)
    ensures
        ({
            let recs = raw.inflation@;
            match r {
                Ok(obs) => {
                    &&& forall|i: int|
                        0 <= i < recs.len() ==> value_accepted(#[trigger] recs[i].value@)
                    &&& obs@.len() == recs.len()
                    &&& forall|i: int|
                        0 <= i < obs@.len() ==> (#[trigger] obs@[i]).date@ == recs[recs.len() - 1
                            - i].date@
                    &&& forall|i: int|
                        0 <= i < obs@.len() ==> (#[trigger] obs@[i]).value.represents(
                            recs[recs.len() - 1 - i].value@,
                        )
                },
                Err(e) => {
                    &&& e.index < recs.len()
                    &&& !value_accepted(recs[e.index as int].value@)
                    &&& forall|t: int| 0 <= t < e.index ==> value_accepted(#[trigger] recs[t].value@)
                },
            }
        }),
{
    let n = raw.inflation.len();
    let mut parsed: Vec<DecimalValue> = Vec::new();
    let mut i: usize = 0;
    while i < n
        invariant
            i <= n == raw.inflation@.len(),
            parsed@.len() == i,
            forall|t: int| 0 <= t < i ==> value_accepted(#[trigger] raw.inflation@[t].value@),
            forall|t: int|
                0 <= t < i ==> (#[trigger] parsed@[t]).represents(raw.inflation@[t].value@),
        decreases n - i,
    {
        let rec = &raw.inflation[i];
        match parse_value(rec.value.as_str()) {
            Some(v) => parsed.push(v),
            None => {
                return Err(DecodeError { index: i });
            },
        }
        i += 1;
    }

    let mut obs: Vec<DatedObservation> = Vec::new();
    let mut i: usize = 0;
    while i < n
        invariant
            i <= n == raw.inflation@.len(),
            parsed@.len() == n,
            forall|t: int|
                0 <= t < n ==> (#[trigger] parsed@[t]).represents(raw.inflation@[t].value@),
            obs@.len() == i,
            forall|t: int|
                0 <= t < i ==> (#[trigger] obs@[t]).date@ == raw.inflation@[n - 1 - t].date@,
            forall|t: int| 0 <= t < i ==> (#[trigger] obs@[t]).value == parsed@[n - 1 - t],
        decreases n - i,
    {
        let src = n - 1 - i;
        let date = raw.inflation[src].date.clone();
        let value = parsed[src];
        obs.push(DatedObservation { date, value });
        i += 1;
    }
    Ok(obs)
}

/// Extracts the bare value sequence a fit runs against, oldest first; the
/// dates are carried no further than normalization.
pub fn extract_values(obs: &Vec<DatedObservation>) -> (vals: Vec<DecimalValue>)
    ensures
        vals@.len() == obs@.len(),
        forall|i: int| 0 <= i < obs@.len() ==> vals@[i] == (#[trigger] obs@[i]).value,
{
    let mut vals: Vec<DecimalValue> = Vec::new();
    let mut i: usize = 0;
    while i < obs.len()
        invariant
            i <= obs@.len(),
            vals@.len() == i,
            forall|t: int| 0 <= t < i ==> vals@[t] == (#[trigger] obs@[t]).value,
        decreases obs@.len() - i,
    {
        vals.push(obs[i].value);
        i += 1;
    }
    vals
}

} // verus!
