use vstd::prelude::*;
use crate::text::{push_char, string_from_chars};

verus! {

/// The ASCII digit for a value below ten.
pub open spec fn digit_char(d: nat) -> char {
    ((d + 48) as u32) as char
}

/// Whether a character is an ASCII decimal digit.
pub open spec fn is_digit(c: char) -> bool {
    '0' <= c && c <= '9'
}

/// The value of an ASCII decimal digit.
pub open spec fn digit_value(c: char) -> nat {
    ((c as u32) - 48) as nat
}

/// Decimal representation of a natural number, without leading zeros.
pub open spec fn decimal(n: nat) -> Seq<char>
    decreases n,
{
    if n < 10 {
        seq![digit_char(n)]
    } else {
        decimal(n / 10).push(digit_char(n % 10))
    }
}

/// `s` left-padded with `'0'` up to `width` characters.
pub open spec fn zero_pad(s: Seq<char>, width: nat) -> Seq<char> {
    if s.len() >= width {
        s
    } else {
        Seq::new((width - s.len()) as nat, |_i: int| '0') + s
    }
}

/// Every character of `s` is a decimal digit.
pub open spec fn all_digits(s: Seq<char>) -> bool {
    forall|i: int| 0 <= i < s.len() ==> is_digit(#[trigger] s[i])
}

/// The number a string of decimal digits denotes.
pub open spec fn digits_value(s: Seq<char>) -> nat
    decreases s.len(),
{
    if s.len() == 0 {
        0
    } else {
        digits_value(s.drop_last()) * 10 + digit_value(s.last())
    }
}

/// The digits that follow an optional leading `+`.
pub open spec fn unsigned_body(s: Seq<char>) -> Seq<char> {
    if s.len() > 0 && s[0] == '+' {
        s.drop_first()
    } else {
        s
    }
}

/// Why a string is not an unsigned integer.
#[derive(Debug, Clone, Copy, PartialEq, Eq, Structural)]
pub enum IntErrorKind {
    /// The string is empty.
    Empty,
    /// A character is not a digit (a lone sign counts as one).
    InvalidDigit,
    /// The value does not fit the target type.
    PosOverflow,
}

/// Reading the first `n` characters of a run of digits, left to right, as
/// `str::parse::<u64>` does: `Ok` of the value read so far, or the first
/// error met, a character that is not a digit (`InvalidDigit`) or a digit
/// that takes the value past `u64::MAX` (`PosOverflow`).
pub open spec fn scan_digits(s: Seq<char>, n: nat) -> Result<nat, IntErrorKind>
    decreases n,
{
    if n == 0 {
        Ok(0)
    } else {
        match scan_digits(s, (n - 1) as nat) {
            Err(k) => Err(k),
            Ok(v) => if !is_digit(s[n - 1]) {
                Err(IntErrorKind::InvalidDigit)
            } else if v * 10 + digit_value(s[n - 1]) > u64::MAX {
                Err(IntErrorKind::PosOverflow)
            } else {
                Ok(v * 10 + digit_value(s[n - 1]))
            },
        }
    }
}

/// Parsing a `u64` the way `str::parse::<u64>` does: an empty text is
/// `Empty`; an optional `+`, then the digits read left to right, the first
/// problem met deciding the error (a lone `+` is an invalid digit).
pub open spec fn spec_parse_u64(s: Seq<char>) -> Result<u64, IntErrorKind> {
    let body = unsigned_body(s);
    if s.len() == 0 {
        Err(IntErrorKind::Empty)
    } else if body.len() == 0 {
        Err(IntErrorKind::InvalidDigit)
    } else {
        match scan_digits(body, body.len()) {
            Ok(v) => Ok(v as u64),
            Err(k) => Err(k),
        }
    }
}

/// Once reading meets an error, reading further keeps that error.
proof fn lemma_scan_error_persists(s: Seq<char>, n: nat, m: nat)
    requires
        n <= m,
        scan_digits(s, n) is Err,
    ensures
        scan_digits(s, m) == scan_digits(s, n),
    decreases m - n,
{
    if n < m {
        lemma_scan_error_persists(s, n, (m - 1) as nat);
    }
}

/// Digits whose whole value fits a `u64` read without error, to that value.
proof fn lemma_scan_all_digits(s: Seq<char>, n: nat)
    requires
        n <= s.len(),
        all_digits(s.take(n as int)),
        digits_value(s.take(n as int)) <= u64::MAX,
    ensures
        scan_digits(s, n) == Ok::<nat, IntErrorKind>(digits_value(s.take(n as int))),
    decreases n,
{
    if n > 0 {
        let p = s.take(n - 1);
        assert(s.take(n as int).drop_last() =~= p);
        assert(s.take(n as int).last() == s[n - 1]);
        assert(is_digit(s.take(n as int)[n - 1]));
        assert forall|i: int| 0 <= i < n - 1 implies is_digit(#[trigger] p[i]) by {
            assert(p[i] == s.take(n as int)[i]);
        }
        assert(digits_value(p) <= digits_value(s.take(n as int))) by (nonlinear_arith)
            requires
                digits_value(s.take(n as int)) == digits_value(p) * 10 + digit_value(s[n - 1]),
        ;
        lemma_scan_all_digits(s, (n - 1) as nat);
    } else {
        assert(s.take(0) =~= Seq::<char>::empty());
    }
}

/// The text std gives for each kind of integer parse error.
pub open spec fn int_error_text(k: IntErrorKind) -> Seq<char> {
    match k {
        IntErrorKind::Empty => "cannot parse integer from empty string"@,
        IntErrorKind::InvalidDigit => "invalid digit found in string"@,
        IntErrorKind::PosOverflow => "number too large to fit in target type"@,
    }
}

impl IntErrorKind {
    /// The message of this error, as std words it.
    pub fn message(self) -> (r: String)
        ensures
            r@ == int_error_text(self),
    {
        proof {
            reveal_strlit("cannot parse integer from empty string");
            reveal_strlit("invalid digit found in string");
            reveal_strlit("number too large to fit in target type");
        }
        match self {
            IntErrorKind::Empty => String::from_str("cannot parse integer from empty string"),
            IntErrorKind::InvalidDigit => String::from_str("invalid digit found in string"),
            IntErrorKind::PosOverflow => String::from_str("number too large to fit in target type"),
        }
    }
}

proof fn lemma_digits_value_push(s: Seq<char>, c: char)
    ensures
        digits_value(s.push(c)) == digits_value(s) * 10 + digit_value(c),
{
    assert(s.push(c).drop_last() =~= s);
}

/// Parses an unsigned decimal integer.
pub fn parse_u64(s: &str) -> (r: Result<u64, IntErrorKind>)
    ensures
        r == spec_parse_u64(s@),
{
    let cs = crate::text::str_chars(s);
    if cs.len() == 0 {
        return Err(IntErrorKind::Empty);
    }
    let start: usize = if cs[0] == '+' { 1 } else { 0 };
    let ghost body = unsigned_body(s@);
    assert(body =~= cs@.subrange(start as int, cs@.len() as int));
    if start == cs.len() {
        return Err(IntErrorKind::InvalidDigit);
    }
    let mut value: u64 = 0;
    let mut j: usize = start;
    while j < cs.len()
        invariant
            start <= j <= cs@.len(),
            start == 0 || start == 1,
            cs@ == s@,
            s@.len() > 0,
            body == unsigned_body(s@),
            body.len() > 0,
            body =~= cs@.subrange(start as int, cs@.len() as int),
            scan_digits(body, (j - start) as nat) == Ok::<nat, IntErrorKind>(value as nat),
        decreases cs@.len() - j,
    {
        let c = cs[j];
        assert(body[j - start] == c);
        if !('0' <= c && c <= '9') {
            proof {
                assert(scan_digits(body, (j + 1 - start) as nat) == Err::<nat, IntErrorKind>(IntErrorKind::InvalidDigit));
                lemma_scan_error_persists(body, (j + 1 - start) as nat, body.len());
            }
            return Err(IntErrorKind::InvalidDigit);
        }
        let d: u64 = (c as u32 - 48) as u64;
        assert(d == digit_value(c));
        if value > (u64::MAX - d) / 10 {
            assert(value * 10 + d > u64::MAX) by (nonlinear_arith)
                requires
                    value > (u64::MAX - d) / 10,
                    d <= 9,
            ;
            proof {
                assert(scan_digits(body, (j + 1 - start) as nat) == Err::<nat, IntErrorKind>(IntErrorKind::PosOverflow));
                lemma_scan_error_persists(body, (j + 1 - start) as nat, body.len());
            }
            return Err(IntErrorKind::PosOverflow);
        }
        assert(value * 10 + d <= u64::MAX) by (nonlinear_arith)
            requires
                value <= (u64::MAX - d) / 10,
                d <= 9,
        ;
        value = value * 10 + d;
        j += 1;
    }
    Ok(value)
}

pub(crate) fn push_decimal(n: u64, out: &mut Vec<char>)
    ensures
        final(out)@ == old(out)@ + decimal(n as nat),
    decreases n,
{
    if n >= 10 {
        push_decimal(n / 10, out);
    }
    let d: u64 = n % 10;
    let c: char = ((d as u8) + 48) as char;
    assert(c == digit_char((n % 10) as nat));
    out.push(c);
}

proof fn lemma_digit_roundtrip(d: nat)
    requires
        d < 10,
    ensures
        digit_value(digit_char(d)) == d,
        is_digit(digit_char(d)),
        digit_char(d) != '+',
{
    let c = digit_char(d);
    assert(((d + 48) as u32) as char as u32 == (d + 48) as u32);
}

proof fn lemma_decimal_digits(n: nat)
    ensures
        all_digits(decimal(n)),
        digits_value(decimal(n)) == n,
        decimal(n).len() >= 1,
        decimal(n)[0] != '+',
    decreases n,
{
    if n < 10 {
        lemma_digit_roundtrip(n);
        assert(decimal(n) =~= seq![digit_char(n)]);
        assert(decimal(n).drop_last() =~= Seq::<char>::empty());
        assert(digits_value(Seq::<char>::empty()) == 0);
    } else {
        assert(n == (n / 10) * 10 + n % 10) by (nonlinear_arith);
        lemma_decimal_digits(n / 10);
        lemma_digit_roundtrip(n % 10);
        let d = decimal(n / 10);
        assert(decimal(n) == d.push(digit_char(n % 10)));
        lemma_digits_value_push(d, digit_char(n % 10));
        assert forall|i: int| 0 <= i < decimal(n).len() implies is_digit(#[trigger] decimal(n)[i]) by {
            if i < d.len() {
                assert(decimal(n)[i] == d[i]);
            }
        }
        assert(decimal(n)[0] == d[0]);
    }
}

/// Reading back the decimal text of a number gives the number: parsing
/// undoes formatting.
pub proof fn lemma_parse_decimal_roundtrip(n: u64)
    ensures
        spec_parse_u64(decimal(n as nat)) == Ok::<u64, IntErrorKind>(n),
{
    lemma_decimal_digits(n as nat);
    let d = decimal(n as nat);
    assert(unsigned_body(d) == d);
    assert(d.take(d.len() as int) =~= d);
    lemma_scan_all_digits(d, d.len());
}

/// Decimal digits of `n`.
pub fn u64_to_decimal(n: u64) -> (r: String)
    ensures
        r@ == decimal(n as nat),
{
    let mut out: Vec<char> = Vec::new();
    push_decimal(n, &mut out);
    assert(out@ =~= decimal(n as nat));
    string_from_chars(&out)
}

} // verus!
