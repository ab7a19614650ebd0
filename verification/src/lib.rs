//! Validation of ISBN-10 and ISBN-13 identifiers.
//!
//! An input string is scanned for ASCII decimal digits; every other
//! character (hyphens, spaces, letters) is ignored.  If exactly 10 digits
//! were found, the ISBN-10 checksum is applied; if exactly 13, the ISBN-13
//! checksum; any other count is rejected.  A successful parse yields an
//! [`Isbn`] holding the original string, byte for byte, together with the
//! extracted digit values; a failed parse yields an [`IsbnParseError`]
//! holding the original string and one of three failure kinds.
//!
//! Note that the check character `'X'`, which real-world ISBN-10 numbers
//! may use for the value 10, is deliberately not recognized: it is
//! discarded like any other non-digit.

use vstd::prelude::*;

verus! {

use vstd::string::StrSliceExecFns;

/// The numeric value of an ASCII decimal digit character, or `None` for
/// every other character.
pub open spec fn spec_digit_value(c: char) -> Option<u32> {
    if c == '0' {
        Some(0u32)
    } else if c == '1' {
        Some(1u32)
    } else if c == '2' {
        Some(2u32)
    } else if c == '3' {
        Some(3u32)
    } else if c == '4' {
        Some(4u32)
    } else if c == '5' {
        Some(5u32)
    } else if c == '6' {
        Some(6u32)
    } else if c == '7' {
        Some(7u32)
    } else if c == '8' {
        Some(8u32)
    } else if c == '9' {
        Some(9u32)
    } else {
        None
    }
}

/// Maps an ASCII decimal digit character to its numeric value; every other
/// character maps to `None`.
pub fn as_value(c: char) -> (r: Option<u32>)
    ensures
        r == spec_digit_value(c),
{
    match c {
        '0' => Some(0),
        '1' => Some(1),
        '2' => Some(2),
        '3' => Some(3),
        '4' => Some(4),
        '5' => Some(5),
        '6' => Some(6),
        '7' => Some(7),
        '8' => Some(8),
        '9' => Some(9),
        _ => None,
    }
}

/// The ISBN-10 weighted sum of the first `n` digits of `d`: each digit
/// `d[i]` is weighted by `10 - i`.
pub open spec fn checksum_10_prefix(d: Seq<u32>, n: int) -> int
    decreases n,
{
    if n <= 0 {
        0
    } else {
        checksum_10_prefix(d, n - 1) + d[n - 1] * (10 - (n - 1))
    }
}

/// The full ISBN-10 weighted sum of a digit sequence.
pub open spec fn checksum_10(d: Seq<u32>) -> int {
    checksum_10_prefix(d, d.len() as int)
}

/// The ISBN-13 multiplier for position `i`: the positions alternate
/// 1, 3, 1, 3, ... starting with 1.
pub open spec fn multiplier_13(i: int) -> int {
    if i % 2 == 0 {
        1
    } else {
        3
    }
}

/// The ISBN-13 weighted sum of the first `n` digits of `d`: each digit
/// `d[i]` is weighted by the alternating multiplier for position `i`.
pub open spec fn checksum_13_prefix(d: Seq<u32>, n: int) -> int
    decreases n,
{
    if n <= 0 {
        0
    } else {
        checksum_13_prefix(d, n - 1) + d[n - 1] * multiplier_13(n - 1)
    }
}

/// The full ISBN-13 weighted sum of a digit sequence.
pub open spec fn checksum_13(d: Seq<u32>) -> int {
    checksum_13_prefix(d, d.len() as int)
}

/// A digit sequence is a valid ISBN-10: exactly ten digits whose weighted
/// sum is divisible by 11.
pub open spec fn valid_10(d: Seq<u32>) -> bool {
    d.len() == 10 && checksum_10(d) % 11 == 0
}

/// A digit sequence is a valid ISBN-13: exactly thirteen digits whose
/// weighted sum is divisible by 10.
pub open spec fn valid_13(d: Seq<u32>) -> bool {
    d.len() == 13 && checksum_13(d) % 10 == 0
}

/// Decides the ISBN-10 checksum for a sequence of exactly ten digits.
pub fn check_10(s: &[u32]) -> (r: bool)
    requires
        s@.len() == 10,
        forall|i: int| 0 <= i < s@.len() ==> s@[i] < 10,
    ensures
        r == (checksum_10(s@) % 11 == 0),
{
    let mut sum: u32 = 0;
    let mut i: usize = 0;
    while i < 10
        invariant
            s@.len() == 10,
            forall|j: int| 0 <= j < s@.len() ==> s@[j] < 10,
            i <= 10,
            sum == checksum_10_prefix(s@, i as int),
            sum <= 90 * i,
        decreases 10 - i,
    {
        let w: u32 = 10 - i as u32;
        assert(s@[i as int] * w <= 90) by (nonlinear_arith)
            requires
                s@[i as int] < 10,
                w <= 10,
        ;
        sum = sum + s[i] * w;
        i = i + 1;
    }
    sum % 11 == 0
}

/// Decides the ISBN-13 checksum for a sequence of exactly thirteen digits.
pub fn check_13(s: &[u32]) -> (r: bool)
    requires
        s@.len() == 13,
        forall|i: int| 0 <= i < s@.len() ==> s@[i] < 10,
    ensures
        r == (checksum_13(s@) % 10 == 0),
{
    let mut sum: u32 = 0;
    let mut i: usize = 0;
    while i < 13
        invariant
            s@.len() == 13,
            forall|j: int| 0 <= j < s@.len() ==> s@[j] < 10,
            i <= 13,
            sum == checksum_13_prefix(s@, i as int),
            sum <= 27 * i,
        decreases 13 - i,
    {
        let m: u32 = if i % 2 == 0 {
            1
        } else {
            3
        };
        assert(s@[i as int] * m <= 27) by (nonlinear_arith)
            requires
                s@[i as int] < 10,
                m <= 3,
        ;
        sum = sum + s[i] * m;
        i = i + 1;
    }
    sum % 10 == 0
}

/// Whether a character is an ASCII decimal digit.
pub open spec fn is_digit_char(c: char) -> bool {
    spec_digit_value(c) is Some
}

/// The ordered sequence of digit values extracted from a character
/// sequence: each ASCII decimal digit contributes its value, every other
/// character is discarded.
pub open spec fn extracted_digits(s: Seq<char>) -> Seq<u32> {
    s.filter_map(|c: char| spec_digit_value(c))
}

/// Why parsing fails: the extracted digit count is neither 10 nor 13, or
/// it is 10 or 13 but the corresponding checksum does not hold.
#[derive(Clone, Copy, Debug, PartialEq, Eq, Structural)]
pub enum IsbnParseErrorType {
    FailedCheck10,
    FailedCheck13,
    WrongLength,
}

/// The failure kind that parsing reports for a given extracted digit
/// sequence, on inputs where parsing fails.
pub open spec fn spec_error_kind(d: Seq<u32>) -> IsbnParseErrorType {
    if d.len() == 10 {
        IsbnParseErrorType::FailedCheck10
    } else if d.len() == 13 {
        IsbnParseErrorType::FailedCheck13
    } else {
        IsbnParseErrorType::WrongLength
    }
}

/// A validated ISBN: the original input string exactly as given, together
/// with the 10 or 13 digit values extracted from it, which satisfy the
/// corresponding checksum.
#[derive(Debug)]
pub struct Isbn {
    raw: String,
    values: Vec<u32>,
}

/// A rejected input: the original string exactly as given, together with
/// the classification of the failure.
#[derive(Debug)]
pub struct IsbnParseError {
    raw: String,
    error_type: IsbnParseErrorType,
}

impl IsbnParseError {
    /// The original input string, as a character sequence.
    pub closed spec fn raw_chars(&self) -> Seq<char> {
        self.raw@
    }

    /// The failure classification.
    pub closed spec fn kind(&self) -> IsbnParseErrorType {
        self.error_type
    }

    /// Builds a parse error from a failure kind and the offending input.
    pub fn from_raw(error_type: IsbnParseErrorType, s: &str) -> (r: IsbnParseError)
        ensures
            r.raw_chars() == s@,
            r.kind() == error_type,
    {
        IsbnParseError { raw: s.to_owned(), error_type }
    }

    /// The original input string that failed to parse.
    pub fn raw(&self) -> (r: &String)
        ensures
            r@ == self.raw_chars(),
    {
        &self.raw
    }

    /// The failure classification.
    pub fn error_type(&self) -> (r: IsbnParseErrorType)
        ensures
            r == self.kind(),
    {
        self.error_type
    }
}

impl Isbn {
    /// The original input string, as a character sequence.
    pub closed spec fn raw_chars(&self) -> Seq<char> {
        self.raw@
    }

    /// The extracted digit values, in original order.
    pub closed spec fn digits(&self) -> Seq<u32> {
        self.values@
    }

    /// The invariant of a validated ISBN: its digits are exactly those
    /// extracted from its original string, and they pass the ISBN-10 or
    /// the ISBN-13 checksum.
    pub open spec fn wf(&self) -> bool {
        &&& self.digits() == extracted_digits(self.raw_chars())
        &&& (valid_10(self.digits()) || valid_13(self.digits()))
    }

    /// The original input string.
    pub fn raw(&self) -> (r: &String)
        ensures
            r@ == self.raw_chars(),
    {
        &self.raw
    }

    /// The extracted digit values, in original order.
    pub fn values(&self) -> (r: &Vec<u32>)
        ensures
            r@ == self.digits(),
    {
        &self.values
    }

    /// Parses a candidate ISBN.  Digits are extracted from `s` (all other
    /// characters are ignored); the parse succeeds if and only if exactly
    /// 10 digits were found and they pass the ISBN-10 checksum, or exactly
    /// 13 were found and they pass the ISBN-13 checksum.  Success returns
    /// the original string unchanged with the digits; failure returns the
    /// original string with the failure kind.
    pub fn from_str(s: &str) -> (r: Result<Isbn, IsbnParseError>)
        ensures
            r is Ok <==> (valid_10(extracted_digits(s@)) || valid_13(extracted_digits(s@))),
            r matches Ok(isbn) ==> {
                &&& isbn.raw_chars() == s@
                &&& isbn.digits() == extracted_digits(s@)
                &&& isbn.wf()
            },
            r matches Err(e) ==> {
                &&& e.raw_chars() == s@
                &&& e.kind() == spec_error_kind(extracted_digits(s@))
            },
    {
        let n = s.unicode_len();
        let mut values: Vec<u32> = Vec::new();
        let mut i: usize = 0;
        while i < n
            invariant
                n == s@.len(),
                i <= n,
                values@ == extracted_digits(s@.take(i as int)),
                forall|j: int| 0 <= j < values@.len() ==> values@[j] < 10,
            decreases n - i,
        {
            let c = s.get_char(i);
            proof {
                assert(s@.take(i + 1).drop_last() =~= s@.take(i as int));
                assert(s@.take(i + 1).last() == c);
            }
            match as_value(c) {
                Some(v) => {
                    values.push(v);
                    proof {
                        assert(values@ =~= extracted_digits(s@.take(i + 1)));
                    }
                },
                None => {},
            }
            i = i + 1;
        }
        proof {
            assert(s@.take(n as int) =~= s@);
        }
        if values.len() == 10 {
            if check_10(values.as_slice()) {
                Ok(Isbn { raw: s.to_owned(), values })
            } else {
                Err(IsbnParseError::from_raw(IsbnParseErrorType::FailedCheck10, s))
            }
        } else if values.len() == 13 {
            if check_13(values.as_slice()) {
                Ok(Isbn { raw: s.to_owned(), values })
            } else {
                Err(IsbnParseError::from_raw(IsbnParseErrorType::FailedCheck13, s))
            }
        } else {
            Err(IsbnParseError::from_raw(IsbnParseErrorType::WrongLength, s))
        }
    }
}

impl core::str::FromStr for Isbn {
    type Err = IsbnParseError;

    fn from_str(s: &str) -> Result<Isbn, IsbnParseError> {
        Isbn::from_str(s)
    }
}

/// The ASCII character for a single digit value.
pub open spec fn digit_char(v: u32) -> char {
    if v == 0 {
        '0'
    } else if v == 1 {
        '1'
    } else if v == 2 {
        '2'
    } else if v == 3 {
        '3'
    } else if v == 4 {
        '4'
    } else if v == 5 {
        '5'
    } else if v == 6 {
        '6'
    } else if v == 7 {
        '7'
    } else if v == 8 {
        '8'
    } else {
        '9'
    }
}

/// The character sequence that writes out a digit sequence, one ASCII
/// digit character per value.
pub open spec fn digit_string(d: Seq<u32>) -> Seq<char> {
    d.map_values(|v: u32| digit_char(v))
}

/// Writing out a digit sequence and extracting the digits again yields the
/// original sequence.
proof fn lemma_extract_digit_string(d: Seq<u32>)
    requires
        forall|i: int| 0 <= i < d.len() ==> d[i] < 10,
    ensures
        extracted_digits(digit_string(d)) == d,
    decreases d.len(),
{
    let s = digit_string(d);
    if d.len() == 0 {
        assert(extracted_digits(s) =~= d);
    } else {
        lemma_extract_digit_string(d.drop_last());
        assert(s.drop_last() =~= digit_string(d.drop_last()));
        assert(spec_digit_value(s.last()) == Some(d.last()));
        assert(extracted_digits(s) =~= d);
    }
}

/// Law: whenever the extracted digit count is neither 10 nor 13, parsing
/// fails, and its failure kind is `WrongLength`.
pub proof fn lemma_wrong_length(s: Seq<char>)
    requires
        extracted_digits(s).len() != 10,
        extracted_digits(s).len() != 13,
    ensures
        !(valid_10(extracted_digits(s)) || valid_13(extracted_digits(s))),
        spec_error_kind(extracted_digits(s)) == IsbnParseErrorType::WrongLength,
{
}

/// Law: a string that writes out exactly ten digits parses successfully if
/// and only if the ISBN-10 weighted sum of those digits is divisible
/// by 11; when it fails, the failure kind is `FailedCheck10`.
pub proof fn lemma_parse_ten_digits(d: Seq<u32>)
    requires
        d.len() == 10,
        forall|i: int| 0 <= i < d.len() ==> d[i] < 10,
    ensures
        extracted_digits(digit_string(d)) == d,
        (valid_10(d) || valid_13(d)) <==> checksum_10(d) % 11 == 0,
        spec_error_kind(d) == IsbnParseErrorType::FailedCheck10,
{
    lemma_extract_digit_string(d);
}

/// Law: a string that writes out exactly thirteen digits parses
/// successfully if and only if the ISBN-13 weighted sum of those digits,
/// under the alternating 1, 3 multipliers, is divisible by 10; when it
/// fails, the failure kind is `FailedCheck13`.
pub proof fn lemma_parse_thirteen_digits(d: Seq<u32>)
    requires
        d.len() == 13,
        forall|i: int| 0 <= i < d.len() ==> d[i] < 10,
    ensures
        extracted_digits(digit_string(d)) == d,
        (valid_10(d) || valid_13(d)) <==> checksum_13(d) % 10 == 0,
        spec_error_kind(d) == IsbnParseErrorType::FailedCheck13,
{
    lemma_extract_digit_string(d);
}

/// Law: discarding the non-digit characters of a string beforehand does
/// not change the extracted digit sequence, so it changes neither whether
/// parsing succeeds nor the failure kind (only the stored original string
/// differs).
pub proof fn lemma_nondigits_ignored(s: Seq<char>)
    ensures
        extracted_digits(s.filter(|c: char| is_digit_char(c))) == extracted_digits(s),
    decreases s.len(),
{
    reveal(Seq::filter);
    let p = |c: char| is_digit_char(c);
    if s.len() == 0 {
        assert(extracted_digits(s.filter(p)) =~= extracted_digits(s));
    } else {
        lemma_nondigits_ignored(s.drop_last());
        if p(s.last()) {
            let q = s.drop_last().filter(p).push(s.last());
            assert(s.filter(p) == q);
            assert(q.drop_last() =~= s.drop_last().filter(p));
            assert(extracted_digits(q) =~= extracted_digits(s));
        } else {
            assert(s.filter(p) == s.drop_last().filter(p));
            assert(extracted_digits(s) =~= extracted_digits(s.drop_last()));
        }
    }
}

/// Law: the letter 'X', which real-world ISBN-10 numbers may use as a
/// check character for the value ten, is treated like any other non-digit
/// and never contributes a digit value.
pub proof fn lemma_x_is_not_a_digit()
    ensures
        !is_digit_char('X'),
{
}

} // verus!
