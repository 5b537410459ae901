//! Configuration values read from text.
use vstd::prelude::*;

verus! {

/// Why a configuration value could not be read.
#[derive(Debug, Clone, Copy, PartialEq, Eq, Structural)]
pub enum ConfigError {
    /// The text is not a decimal unsigned 64-bit number.
    NotANumber,
    /// The number of minutes, in seconds, does not fit in 64 bits.
    DurationTooLong,
}

pub open spec fn is_digit(c: char) -> bool {
    '0' <= c && c <= '9'
}

pub open spec fn digit_value(c: char) -> int {
    c as int - '0' as int
}

/// The value of a string of decimal digits.
pub open spec fn decimal_value(s: Seq<char>) -> int
    decreases s.len(),
{
    if s.len() == 0 {
        0
    } else {
        decimal_value(s.drop_last()) * 10 + digit_value(s.last())
    }
}

/// The digits of an unsigned number in text: an optional leading `+`, then the rest.
pub open spec fn unsigned_digits(s: Seq<char>) -> Seq<char> {
    if s.len() > 0 && s[0] == '+' {
        s.drop_first()
    } else {
        s
    }
}

/// `s` is the decimal text of an unsigned 64-bit number.
pub open spec fn is_u64_text(s: Seq<char>) -> bool {
    let d = unsigned_digits(s);
    &&& d.len() > 0
    &&& forall|i: int| 0 <= i < d.len() ==> is_digit(#[trigger] d[i])
    &&& decimal_value(d) <= u64::MAX
}

proof fn lemma_decimal_value_nonneg(s: Seq<char>)
    requires
        forall|k: int| 0 <= k < s.len() ==> is_digit(#[trigger] s[k]),
    ensures
        decimal_value(s) >= 0,
    decreases s.len(),
{
    if s.len() > 0 {
        lemma_decimal_value_nonneg(s.drop_last());
    }
}

proof fn lemma_decimal_value_grows(s: Seq<char>, i: int)
    requires
        0 <= i <= s.len(),
        forall|k: int| 0 <= k < s.len() ==> is_digit(#[trigger] s[k]),
    ensures
        decimal_value(s.subrange(0, i)) <= decimal_value(s),
    decreases s.len() - i,
{
    if i < s.len() {
        lemma_decimal_value_grows(s, i + 1);
        let p = s.subrange(0, i + 1);
        assert(p.drop_last() =~= s.subrange(0, i));
        lemma_decimal_value_nonneg(s.subrange(0, i));
        assert(is_digit(p.last()));
        assert(decimal_value(p) == decimal_value(s.subrange(0, i)) * 10 + digit_value(p.last()));
    } else {
        assert(s.subrange(0, i) =~= s);
    }
}

/// Reads a number of minutes and gives the duration in seconds.
pub fn parse_duration(s: &str) -> (r: Result<u64, ConfigError>)
    ensures
        !is_u64_text(s@) <==> r == Err::<u64, ConfigError>(ConfigError::NotANumber),
        is_u64_text(s@) && 60 * decimal_value(unsigned_digits(s@)) > u64::MAX
            <==> r == Err::<u64, ConfigError>(ConfigError::DurationTooLong),
        r is Ok <==> is_u64_text(s@) && 60 * decimal_value(unsigned_digits(s@)) <= u64::MAX,
        r is Ok ==> r->Ok_0 == 60 * decimal_value(unsigned_digits(s@)),
{
    let n = s.unicode_len();
    let mut i: usize = 0;
    if n > 0 && s.get_char(0) == '+' {
        i = 1;
    }
    let start = i;
    let ghost d = unsigned_digits(s@);
    assert(d =~= s@.subrange(start as int, n as int));
    if start == n {
        return Err(ConfigError::NotANumber);
    }
    let mut acc: u64 = 0;
    while i < n
        invariant
            start <= i <= n,
            n == s@.len(),
            d =~= s@.subrange(start as int, n as int),
            d == unsigned_digits(s@),
            forall|k: int| 0 <= k < i - start ==> is_digit(#[trigger] d[k]),
            acc == decimal_value(d.subrange(0, i - start)),
        decreases n - i,
    {
        let c = s.get_char(i);
        assert(c == d[i - start]);
        if !('0' <= c && c <= '9') {
            assert(!is_digit(d[i - start]));
            return Err(ConfigError::NotANumber);
        }
        let v = (c as u32 - '0' as u32) as u64;
        assert(d.subrange(0, i + 1 - start).drop_last() =~= d.subrange(0, i - start));
        if acc > (u64::MAX - v) / 10 {
            proof {
                if forall|k: int| 0 <= k < d.len() ==> is_digit(#[trigger] d[k]) {
                    lemma_decimal_value_grows(d, i + 1 - start);
                    assert(decimal_value(d.subrange(0, i + 1 - start)) == acc * 10 + v);
                }
            }
            return Err(ConfigError::NotANumber);
        }
        acc = acc * 10 + v;
        i = i + 1;
        assert(forall|k: int| 0 <= k < i - start ==> is_digit(#[trigger] d[k]));
    }
    assert(d.subrange(0, n - start) =~= d);
    if acc > u64::MAX / 60 {
        return Err(ConfigError::DurationTooLong);
    }
    Ok(acc * 60)
}

} // verus!
