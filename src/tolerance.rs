//! The tolerance: the largest channel difference that a comparison accepts.
//! It comes from an optional text setting, is resolved once, and is kept.

use vstd::prelude::*;
use vstd::string::*;

verus! {

/// The tolerance when no setting is given.
pub const DEFAULT_TOLERANCE: u8 = 2;

/// Why a tolerance setting was refused.
#[derive(Clone, Copy, PartialEq, Eq, Structural, Debug)]
pub enum ToleranceError {
    /// The setting is not an unsigned integer that fits in a `usize`.
    NotANumber,
    /// The setting is a number above 255.
    OutOfRange,
}

pub open spec fn is_digit(c: char) -> bool {
    '0' <= c && c <= '9'
}

pub open spec fn digit_value(c: char) -> nat {
    (c as u32 - '0' as u32) as nat
}

/// The number that a string of decimal digits denotes.
pub open spec fn digits_value(s: Seq<char>) -> nat
    decreases s.len(),
{
    if s.len() == 0 {
        0
    } else {
        digits_value(s.drop_last()) * 10 + digit_value(s.last())
    }
}

pub open spec fn all_digits(s: Seq<char>) -> bool {
    forall|i: int| 0 <= i < s.len() ==> #[trigger] is_digit(s[i])
}

/// The digits of a setting, without the one leading `+` that it may have.
pub open spec fn unsigned_digits(s: Seq<char>) -> Seq<char> {
    if s.len() > 0 && s[0] == '+' {
        s.subrange(1, s.len() as int)
    } else {
        s
    }
}

/// Whether a setting reads as an unsigned integer that fits in a `usize`.
pub open spec fn is_unsigned_number(s: Seq<char>) -> bool {
    let d = unsigned_digits(s);
    d.len() > 0 && all_digits(d) && digits_value(d) <= usize::MAX
}

/// The tolerance that a setting gives.
pub open spec fn tolerance_of(s: Seq<char>) -> Result<u8, ToleranceError> {
    if !is_unsigned_number(s) {
        Err(ToleranceError::NotANumber)
    } else if digits_value(unsigned_digits(s)) > 255 {
        Err(ToleranceError::OutOfRange)
    } else {
        Ok(digits_value(unsigned_digits(s)) as u8)
    }
}

/// The tolerance for an optional setting: the default when there is none.
pub open spec fn tolerance_of_setting(setting: Option<Seq<char>>) -> Result<u8, ToleranceError> {
    match setting {
        None => Ok(DEFAULT_TOLERANCE),
        Some(s) => tolerance_of(s),
    }
}

/// The digit character of a number below ten.
pub open spec fn digit_char(n: nat) -> char {
    ('0' as u32 + n) as char
}

/// The shortest decimal notation of `n`.
pub open spec fn decimal_of(n: nat) -> Seq<char>
    decreases n,
{
    if n < 10 {
        seq![digit_char(n)]
    } else {
        decimal_of(n / 10).push(digit_char(n % 10))
    }
}

proof fn lemma_digits_value_prefix(s: Seq<char>, i: int)
    requires
        0 <= i < s.len(),
    ensures
        digits_value(s.subrange(0, i + 1)) == digits_value(s.subrange(0, i)) * 10 + digit_value(
            s[i],
        ),
{
    assert(s.subrange(0, i + 1).drop_last() =~= s.subrange(0, i));
}

proof fn lemma_digits_value_monotonic(s: Seq<char>, i: int, j: int)
    requires
        0 <= i <= j <= s.len(),
        all_digits(s),
    ensures
        digits_value(s.subrange(0, i)) <= digits_value(s.subrange(0, j)),
    decreases j - i,
{
    if i < j {
        lemma_digits_value_monotonic(s, i, j - 1);
        lemma_digits_value_prefix(s, j - 1);
    }
}

proof fn lemma_decimal_of(n: nat)
    ensures
        decimal_of(n).len() > 0,
        all_digits(decimal_of(n)),
        digits_value(decimal_of(n)) == n,
        decimal_of(n)[0] != '+',
    decreases n,
{
    let s = decimal_of(n);
    assert(digit_value(digit_char(n % 10)) == n % 10);
    if n >= 10 {
        lemma_decimal_of(n / 10);
        assert(s.drop_last() =~= decimal_of(n / 10));
        assert(digits_value(s) == digits_value(s.drop_last()) * 10 + digit_value(s.last()));
        assert(n == (n / 10) * 10 + n % 10);
        assert(s[0] == decimal_of(n / 10)[0]);
    } else {
        assert(s.drop_last() =~= Seq::<char>::empty());
        assert(digits_value(s) == digits_value(s.drop_last()) * 10 + digit_value(s.last()));
    }
}

/// A setting that is the decimal notation of a byte value gives that value.
pub proof fn lemma_tolerance_of_decimal(v: u8)
    ensures
        tolerance_of(decimal_of(v as nat)) == Ok::<u8, ToleranceError>(v),
{
    lemma_decimal_of(v as nat);
    assert(unsigned_digits(decimal_of(v as nat)) == decimal_of(v as nat));
}

/// Reads a tolerance setting: an unsigned integer, optionally after one `+`,
/// that must not exceed 255.
pub fn parse_tolerance(s: &str) -> (r: Result<u8, ToleranceError>)
    ensures
        r == tolerance_of(s@),
{
    let len = s.unicode_len();
    let start: usize = if len > 0 && s.get_char(0) == '+' {
        1
    } else {
        0
    };
    let ghost d = unsigned_digits(s@);
    assert(d =~= s@.subrange(start as int, len as int));
    if start == len {
        return Err(ToleranceError::NotANumber);
    }
    let mut value: usize = 0;
    let mut overflow = false;
    let mut i: usize = start;
    while i < len
        invariant
            len == s@.len(),
            start <= i <= len,
            d == unsigned_digits(s@),
            d =~= s@.subrange(start as int, len as int),
            forall|j: int| 0 <= j < i - start ==> #[trigger] is_digit(d[j]),
            !overflow ==> value == digits_value(d.subrange(0, i - start)),
            overflow ==> exists|k: int|
                0 <= k <= i - start && #[trigger] digits_value(d.subrange(0, k)) > usize::MAX,
        decreases len - i,
    {
        let c = s.get_char(i);
        if c < '0' || c > '9' {
            assert(d[i - start] == c);
            assert(!is_digit(d[i - start]));
            assert(!all_digits(d));
            return Err(ToleranceError::NotANumber);
        }
        proof {
            lemma_digits_value_prefix(d, i - start);
        }
        let ghost k = i - start + 1;
        if !overflow {
            let digit = (c as u32 - '0' as u32) as usize;
            match value.checked_mul(10) {
                Some(m) => match m.checked_add(digit) {
                    Some(v) => {
                        value = v;
                    },
                    None => {
                        assert(digits_value(d.subrange(0, k)) > usize::MAX);
                        overflow = true;
                    },
                },
                None => {
                    assert(digits_value(d.subrange(0, k)) > usize::MAX) by (nonlinear_arith)
                        requires
                            digits_value(d.subrange(0, k)) == value * 10 + digit_value(d[k - 1]),
                            value * 10 > usize::MAX,
                    ;
                    overflow = true;
                },
            }
        }
        i = i + 1;
    }
    assert(d.subrange(0, d.len() as int) =~= d);
    if overflow {
        proof {
            if digits_value(d.subrange(0, d.len() as int)) <= usize::MAX {
                let k = choose|k: int|
                    0 <= k <= d.len() && #[trigger] digits_value(d.subrange(0, k)) > usize::MAX;
                lemma_digits_value_monotonic(d, k, d.len() as int);
            }
        }
        return Err(ToleranceError::NotANumber);
    }
    if value > 255 {
        Err(ToleranceError::OutOfRange)
    } else {
        Ok(value as u8)
    }
}

/// The tolerance for an optional setting: the default when there is none.
pub fn tolerance_from_setting(setting: Option<&str>) -> (r: Result<u8, ToleranceError>)
    ensures
        r == tolerance_of_setting(setting_view(setting)),
{
    match setting {
        None => Ok(DEFAULT_TOLERANCE),
        Some(s) => parse_tolerance(s),
    }
}

/// The setting as the contracts see it.
pub open spec fn setting_view(setting: Option<&str>) -> Option<Seq<char>> {
    match setting {
        None => None,
        Some(s) => Some(s@),
    }
}

/// What one resolution does to a cache holding `cached`: the new cache and the
/// result. A kept value wins over the setting; a refused setting keeps nothing.
pub open spec fn resolve_step(cached: Option<u8>, setting: Option<Seq<char>>) -> (
    Option<u8>,
    Result<u8, ToleranceError>,
) {
    match cached {
        Some(v) => (Some(v), Ok(v)),
        None => match tolerance_of_setting(setting) {
            Ok(v) => (Some(v), Ok(v)),
            Err(e) => (None, Err(e)),
        },
    }
}

/// A tolerance that is read from its setting once and then kept.
pub struct ToleranceCache {
    value: Option<u8>,
}

impl View for ToleranceCache {
    type V = Option<u8>;

    closed spec fn view(&self) -> Option<u8> {
        self.value
    }
}

impl ToleranceCache {
    /// A cache that holds no tolerance yet.
    pub fn new() -> (r: ToleranceCache)
        ensures
            r@ is None,
    {
        ToleranceCache { value: None }
    }

    /// The kept tolerance, if one was resolved.
    pub fn cached(&self) -> (r: Option<u8>)
        ensures
            r == self@,
    {
        self.value
    }

    /// The tolerance: the kept one if there is one, else the one that
    /// `setting` gives, which is then kept.
    pub fn resolve(&mut self, setting: Option<&str>) -> (r: Result<u8, ToleranceError>)
        ensures
            (final(self)@, r) == resolve_step(old(self)@, setting_view(setting)),
    {
        match self.value {
            Some(v) => Ok(v),
            None => {
                let r = tolerance_from_setting(setting);
                if let Ok(v) = r {
                    self.value = Some(v);
                }
                r
            },
        }
    }
}

/// Once a resolution has given a tolerance, every later resolution gives the
/// same one and keeps it, whatever the setting is then.
pub proof fn lemma_resolve_keeps_value(
    cached: Option<u8>,
    first: Option<Seq<char>>,
    later: Option<Seq<char>>,
)
    ensures
        resolve_step(cached, first).1 matches Ok(v) ==> resolve_step(
            resolve_step(cached, first).0,
            later,
        ) == (Some(v), Ok::<u8, ToleranceError>(v)),
{
}

/// A fresh cache whose setting is the decimal notation of a byte value
/// resolves to that value, and keeps giving it whatever the later settings.
pub proof fn lemma_override_resolves_once(v: u8, later: Option<Seq<char>>)
    ensures
        resolve_step(None, Some(decimal_of(v as nat))) == (Some(v), Ok::<u8, ToleranceError>(v)),
        resolve_step(Some(v), later) == (Some(v), Ok::<u8, ToleranceError>(v)),
{
    lemma_tolerance_of_decimal(v);
}

} // verus!
