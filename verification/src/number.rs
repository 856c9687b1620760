//! Unsigned decimal numbers: parsing with the rules of the standard
//! library's integer `FromStr`, and formatting.

use vstd::prelude::*;
use crate::text::{chars_of, owned, push_char};

verus! {

/// Why a string is not an unsigned decimal number of a given range.
#[derive(Debug, Clone, Copy, PartialEq, Eq, Structural)]
pub enum NumberError {
    /// The string is empty.
    Empty,
    /// The string holds a character that is not a digit where one is
    /// expected (a lone sign, a minus sign, whitespace, a letter, ...).
    InvalidDigit,
    /// The digits denote a number above the range of the target type.
    Overflow,
}

impl NumberError {
    /// The text that describes the error.
    pub fn message(&self) -> (m: String)
        ensures
            m@ == self.spec_message(),
    {
        match self {
            NumberError::Empty => owned("cannot parse integer from empty string"),
            NumberError::InvalidDigit => owned("invalid digit found in string"),
            NumberError::Overflow => owned("number too large to fit in target type"),
        }
    }

    pub open spec fn spec_message(&self) -> Seq<char> {
        match self {
            NumberError::Empty => "cannot parse integer from empty string"@,
            NumberError::InvalidDigit => "invalid digit found in string"@,
            NumberError::Overflow => "number too large to fit in target type"@,
        }
    }
}

/// An ASCII decimal digit.
pub open spec fn is_digit(c: char) -> bool {
    48 <= (c as u32) <= 57
}

pub open spec fn digit_value(c: char) -> nat {
    ((c as u32) - 48) as nat
}

/// The number that the digits `d` denote (most significant first).
pub open spec fn decimal_value(d: Seq<char>) -> nat
    decreases d.len(),
{
    if d.len() == 0 {
        0
    } else {
        decimal_value(d.drop_last()) * 10 + digit_value(d.last())
    }
}

/// The first index at or after `i` that does not hold a digit.
pub open spec fn digit_run(d: Seq<char>, i: int) -> int
    decreases d.len() - i,
{
    if 0 <= i < d.len() && is_digit(d[i]) {
        digit_run(d, i + 1)
    } else {
        i
    }
}

/// `s` read as an unsigned decimal number no larger than `max`: an
/// optional `+` followed by digits. A failure reports the first problem
/// met reading from the left, so digits that already exceed `max` win over
/// a later non-digit.
pub open spec fn parse_decimal(s: Seq<char>, max: nat) -> Result<nat, NumberError> {
    if s.len() == 0 {
        Err(NumberError::Empty)
    } else if s.len() == 1 && (s[0] == '+' || s[0] == '-') {
        Err(NumberError::InvalidDigit)
    } else {
        let d = if s[0] == '+' {
            s.drop_first()
        } else {
            s
        };
        let k = digit_run(d, 0);
        if decimal_value(d.take(k)) > max {
            Err(NumberError::Overflow)
        } else if k < d.len() {
            Err(NumberError::InvalidDigit)
        } else {
            Ok(decimal_value(d))
        }
    }
}

/// The unsigned integer types that configuration values are read into.
pub trait DecimalInt: Sized + Copy {
    /// The number the value denotes.
    spec fn value(self) -> nat;

    /// The largest value of the type.
    spec fn bound() -> nat;

    fn max_value() -> (m: u64)
        ensures
            m == Self::bound(),
    ;

    fn from_u64(v: u64) -> (r: Self)
        requires
            v <= Self::bound(),
        ensures
            r.value() == v,
    ;
}

impl DecimalInt for u16 {
    open spec fn value(self) -> nat {
        self as nat
    }

    open spec fn bound() -> nat {
        0xffff
    }

    fn max_value() -> (m: u64) {
        0xffff
    }

    fn from_u64(v: u64) -> (r: u16) {
        v as u16
    }
}

impl DecimalInt for u32 {
    open spec fn value(self) -> nat {
        self as nat
    }

    open spec fn bound() -> nat {
        0xffff_ffff
    }

    fn max_value() -> (m: u64) {
        0xffff_ffff
    }

    fn from_u64(v: u64) -> (r: u32) {
        v as u32
    }
}

impl DecimalInt for u64 {
    open spec fn value(self) -> nat {
        self as nat
    }

    open spec fn bound() -> nat {
        0xffff_ffff_ffff_ffff
    }

    fn max_value() -> (m: u64) {
        0xffff_ffff_ffff_ffff
    }

    fn from_u64(v: u64) -> (r: u64) {
        v
    }
}

proof fn lemma_digit_run_skip(d: Seq<char>, i: int, j: int)
    requires
        0 <= i <= j <= d.len(),
        forall|k: int| i <= k < j ==> is_digit(#[trigger] d[k]),
    ensures
        digit_run(d, i) == digit_run(d, j),
    decreases j - i,
{
    if i < j {
        lemma_digit_run_skip(d, i + 1, j);
    }
}

proof fn lemma_digit_run_bounds(d: Seq<char>, i: int)
    requires
        0 <= i <= d.len(),
    ensures
        i <= digit_run(d, i) <= d.len(),
        forall|k: int| i <= k < digit_run(d, i) ==> is_digit(#[trigger] d[k]),
    decreases d.len() - i,
{
    if i < d.len() && is_digit(d[i]) {
        lemma_digit_run_bounds(d, i + 1);
    }
}

/// Reading more digits never lowers the value.
proof fn lemma_value_monotone(d: Seq<char>, i: int, j: int)
    requires
        0 <= i <= j <= d.len(),
    ensures
        decimal_value(d.take(i)) <= decimal_value(d.take(j)),
    decreases j - i,
{
    if i < j {
        lemma_value_monotone(d, i, j - 1);
        assert(d.take(j).drop_last() == d.take(j - 1));
    }
}

/// The value of `max` if `s` denotes an unsigned number no larger than `max`.
fn parse_decimal_u64(s: &str, max: u64) -> (r: Result<u64, NumberError>)
    ensures
        match parse_decimal(s@, max as nat) {
            Ok(v) => r == Ok::<u64, NumberError>(v as u64) && v <= max,
            Err(e) => r == Err::<u64, NumberError>(e),
        },
{
    let cs = chars_of(s);
    if cs.len() == 0 {
        return Err(NumberError::Empty);
    }
    if cs.len() == 1 && (cs[0] == '+' || cs[0] == '-') {
        return Err(NumberError::InvalidDigit);
    }
    let start: usize = if cs[0] == '+' { 1 } else { 0 };
    let ghost d: Seq<char> = if s@[0] == '+' { s@.drop_first() } else { s@ };
    assert(d == cs@.skip(start as int));
    let mut acc: u64 = 0;
    let mut i: usize = start;
    while i < cs.len()
        invariant
            start <= i <= cs@.len(),
            cs@ == s@,
            d == cs@.skip(start as int),
            s@.len() > 0,
            !(s@.len() == 1 && (s@[0] == '+' || s@[0] == '-')),
            d == (if s@[0] == '+' { s@.drop_first() } else { s@ }),
            forall|k: int| 0 <= k < i - start ==> is_digit(#[trigger] d[k]),
            acc == decimal_value(d.take(i - start)),
            acc <= max,
        decreases cs@.len() - i,
    {
        let c = cs[i];
        let ghost j: int = i - start;
        assert(d[j] == c);
        let u = c as u32;
        if !(48 <= u && u <= 57) {
            proof {
                lemma_digit_run_skip(d, 0, j);
                assert(digit_run(d, j) == j);
            }
            return Err(NumberError::InvalidDigit);
        }
        let dv: u64 = (u - 48) as u64;
        assert(d.take(j + 1).drop_last() == d.take(j));
        assert(decimal_value(d.take(j + 1)) == acc * 10 + dv);
        if (acc as u128) * 10 + (dv as u128) > max as u128 {
            proof {
                lemma_digit_run_skip(d, 0, j + 1);
                lemma_digit_run_bounds(d, j + 1);
                lemma_value_monotone(d, j + 1, digit_run(d, 0));
            }
            return Err(NumberError::Overflow);
        }
        acc = acc * 10 + dv;
        i = i + 1;
    }
    proof {
        lemma_digit_run_skip(d, 0, d.len() as int);
        assert(d.take(d.len() as int) == d);
    }
    Ok(acc)
}

/// `raw` read as a number of type `T`, or `default` when there is no value.
/// A value that is present but not a number of `T`'s range is an error,
/// never the default.
pub fn parse_or<T: DecimalInt>(raw: Option<&str>, default: T) -> (res: Result<T, NumberError>)
    ensures
        match raw {
            None => res == Ok::<T, NumberError>(default),
            Some(s) => match parse_decimal(s@, T::bound()) {
                Ok(v) => res is Ok && res->Ok_0.value() == v,
                Err(e) => res == Err::<T, NumberError>(e),
            },
        },
{
    match raw {
        None => Ok(default),
        Some(s) => match parse_decimal_u64(s, T::max_value()) {
            Ok(v) => Ok(T::from_u64(v)),
            Err(e) => Err(e),
        },
    }
}

/// The character of the digit `n`.
pub open spec fn digit_char(n: nat) -> char {
    (n + 48) as char
}

/// The decimal digits of `n`, most significant first, without leading zeros.
pub open spec fn decimal_digits(n: nat) -> Seq<char>
    decreases n,
{
    if n < 10 {
        seq![digit_char(n)]
    } else {
        decimal_digits(n / 10).push(digit_char(n % 10))
    }
}

fn digit_to_char(n: u64) -> (c: char)
    requires
        n < 10,
    ensures
        c == digit_char(n as nat),
{
    ((n as u8) + 48) as char
}

/// The decimal digits of `n`.
pub fn format_u64(n: u64) -> (s: String)
    ensures
        s@ == decimal_digits(n as nat),
    decreases n,
{
    if n < 10 {
        let mut s = String::new();
        push_char(&mut s, digit_to_char(n));
        s
    } else {
        let mut s = format_u64(n / 10);
        push_char(&mut s, digit_to_char(n % 10));
        s
    }
}

proof fn lemma_digit_char(n: nat)
    requires
        n < 10,
    ensures
        is_digit(digit_char(n)),
        digit_value(digit_char(n)) == n,
{
}

proof fn lemma_decimal_digits(n: nat)
    ensures
        decimal_digits(n).len() >= 1,
        forall|k: int| 0 <= k < decimal_digits(n).len() ==> is_digit(#[trigger] decimal_digits(n)[k]),
        decimal_value(decimal_digits(n)) == n,
    decreases n,
{
    if n < 10 {
        lemma_digit_char(n);
        assert(decimal_digits(n).drop_last() =~= Seq::<char>::empty());
        assert(decimal_digits(n).last() == digit_char(n));
        assert(decimal_value(Seq::<char>::empty()) == 0);
        assert(decimal_value(decimal_digits(n)) == 0 * 10 + digit_value(digit_char(n)));
    } else {
        lemma_decimal_digits(n / 10);
        lemma_digit_char(n % 10);
        let ds = decimal_digits(n / 10);
        assert(decimal_digits(n).drop_last() == ds);
        assert(decimal_digits(n).last() == digit_char(n % 10));
        assert(decimal_value(decimal_digits(n)) == decimal_value(ds) * 10 + digit_value(digit_char(n % 10)));
        assert((n / 10) * 10 + n % 10 == n);
    }
}

/// Reading back the digits that `format_u64` writes gives the number again,
/// for every number in the target range.
pub proof fn lemma_parse_format_roundtrip(n: nat, max: nat)
    requires
        n <= max,
    ensures
        parse_decimal(decimal_digits(n), max) == Ok::<nat, NumberError>(n),
{
    lemma_decimal_digits(n);
    let s = decimal_digits(n);
    assert(is_digit(s[0]));
    lemma_digit_run_skip(s, 0, s.len() as int);
    assert(s.take(s.len() as int) == s);
}

} // verus!
