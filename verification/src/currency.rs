//! Currencies and their ISO 4217 codes.
//!
//! A [`CurrencyISOCode`] is exactly three uppercase ASCII letters; invalid
//! input fails construction with a distinct error kind.  A [`Currency`] adds
//! an optional persistent id and a rounding-digit count; two currencies are
//! equal exactly when their ISO codes are equal, regardless of id or
//! rounding digits.

use vstd::prelude::*;
use vstd::std_specs::cmp::PartialEqSpec;
use crate::data::DataError;
use crate::data::DataItem;

verus! {

/// Errors related to currencies: construction, lookup and conversion.
#[derive(Debug, PartialEq)]
pub enum CurrencyError {
    /// The code does not consist of exactly three characters.
    InvalidLength,
    /// The code contains a character that is not alphabetic ASCII.
    InvalidCharacter,
    /// Reading a currency from its serialized form failed.
    DeserializationFailed,
    /// A currency conversion failed.
    ConversionFailed,
    /// The conversion currency is unknown.
    CurrencyNotFound(String),
    /// The currency is not stored persistently.
    CurrencyNotInDatabase(String),
    /// An internal error of the rate source.
    InternalError(String),
    /// No quote is available for the requested currency pair.
    MissingQuoteForCurrencyPair(String, String),
    /// The underlying data source of quotes failed.
    DataBaseError(String),
}

/// The character is an ASCII letter.
pub open spec fn is_ascii_alpha(c: char) -> bool {
    (65 <= c as u32 && c as u32 <= 90) || (97 <= c as u32 && c as u32 <= 122)
}

/// ASCII uppercasing of a single character; characters outside `a..=z`
/// are returned unchanged.
pub open spec fn spec_to_ascii_upper(c: char) -> char {
    match c {
        'a' => 'A',
        'b' => 'B',
        'c' => 'C',
        'd' => 'D',
        'e' => 'E',
        'f' => 'F',
        'g' => 'G',
        'h' => 'H',
        'i' => 'I',
        'j' => 'J',
        'k' => 'K',
        'l' => 'L',
        'm' => 'M',
        'n' => 'N',
        'o' => 'O',
        'p' => 'P',
        'q' => 'Q',
        'r' => 'R',
        's' => 'S',
        't' => 'T',
        'u' => 'U',
        'v' => 'V',
        'w' => 'W',
        'x' => 'X',
        'y' => 'Y',
        'z' => 'Z',
        _ => c,
    }
}

/// ASCII uppercasing, executable form.
pub fn to_ascii_upper(c: char) -> (r: char)
    ensures
        r == spec_to_ascii_upper(c),
{
    match c {
        'a' => 'A',
        'b' => 'B',
        'c' => 'C',
        'd' => 'D',
        'e' => 'E',
        'f' => 'F',
        'g' => 'G',
        'h' => 'H',
        'i' => 'I',
        'j' => 'J',
        'k' => 'K',
        'l' => 'L',
        'm' => 'M',
        'n' => 'N',
        'o' => 'O',
        'p' => 'P',
        'q' => 'Q',
        'r' => 'R',
        's' => 'S',
        't' => 'T',
        'u' => 'U',
        'v' => 'V',
        'w' => 'W',
        'x' => 'X',
        'y' => 'Y',
        'z' => 'Z',
        other => other,
    }
}

/// Relies on `String::push` of std: appends one character to the string.
#[verifier::external_body]
fn push_char(s: &mut String, c: char)
    ensures
        final(s)@ == old(s)@.push(c),
{
    s.push(c)
}

/// An ISO 4217 currency code: exactly three uppercase ASCII letters.
#[derive(Clone, Copy, Debug, PartialEq, Eq, Structural)]
pub struct CurrencyISOCode {
    c0: char,
    c1: char,
    c2: char,
}

impl View for CurrencyISOCode {
    type V = Seq<char>;

    closed spec fn view(&self) -> Seq<char> {
        seq![self.c0, self.c1, self.c2]
    }
}

impl CurrencyISOCode {
    /// The code consists of uppercase ASCII letters only.
    pub open spec fn wf(self) -> bool {
        forall|i: int| 0 <= i < 3 ==> is_ascii_alpha(#[trigger] self@[i]) && self@[i]
            == spec_to_ascii_upper(self@[i])
    }

    /// Parse a currency code: accepts exactly three alphabetic ASCII
    /// characters, case-insensitively, and stores them uppercased.  A
    /// non-alphabetic character among the first three is reported as
    /// `InvalidCharacter`; any other failure is a length error.
    pub fn new(code: &str) -> (r: Result<CurrencyISOCode, CurrencyError>)
        ensures
            ({
                let s = code@;
                let bad = exists|i: int| 0 <= i < s.len() && i < 3 && !is_ascii_alpha(s[i]);
                &&& (r is Ok <==> s.len() == 3 && !bad)
                &&& (r is Ok ==> r->Ok_0@ == seq![
                    spec_to_ascii_upper(s[0]),
                    spec_to_ascii_upper(s[1]),
                    spec_to_ascii_upper(s[2]),
                ] && r->Ok_0.wf())
                &&& (r == Result::<CurrencyISOCode, CurrencyError>::Err(
                    CurrencyError::InvalidCharacter,
                ) <==> bad)
                &&& (r == Result::<CurrencyISOCode, CurrencyError>::Err(
                    CurrencyError::InvalidLength,
                ) <==> !bad && s.len() != 3)
            }),
    {
        let n = code.unicode_len();
        if n == 0 {
            return Err(CurrencyError::InvalidLength);
        }
        let c0 = match Self::checked_upper(code, 0) {
            Ok(c) => c,
            Err(e) => {
                return Err(e);
            },
        };
        if n == 1 {
            return Err(CurrencyError::InvalidLength);
        }
        let c1 = match Self::checked_upper(code, 1) {
            Ok(c) => c,
            Err(e) => {
                return Err(e);
            },
        };
        if n == 2 {
            return Err(CurrencyError::InvalidLength);
        }
        let c2 = match Self::checked_upper(code, 2) {
            Ok(c) => c,
            Err(e) => {
                return Err(e);
            },
        };
        if n != 3 {
            return Err(CurrencyError::InvalidLength);
        }
        proof {
            upper_of_alpha_is_upper_alpha(code@[0]);
            upper_of_alpha_is_upper_alpha(code@[1]);
            upper_of_alpha_is_upper_alpha(code@[2]);
        }
        Ok(CurrencyISOCode { c0, c1, c2 })
    }

    /// Read character `i` of `code`: its ASCII uppercase form, or
    /// `InvalidCharacter` if it is not an ASCII letter.
    fn checked_upper(code: &str, i: usize) -> (r: Result<char, CurrencyError>)
        requires
            i < code@.len(),
        ensures
            r is Ok <==> is_ascii_alpha(code@[i as int]),
            r is Ok ==> r->Ok_0 == spec_to_ascii_upper(code@[i as int]),
            r is Err ==> r->Err_0 == CurrencyError::InvalidCharacter,
    {
        let c = code.get_char(i);
        let u = c as u32;
        if (65 <= u && u <= 90) || (97 <= u && u <= 122) {
            Ok(to_ascii_upper(c))
        } else {
            Err(CurrencyError::InvalidCharacter)
        }
    }

    /// The codes consist of the same three letters.
    pub fn matches_code(&self, other: &CurrencyISOCode) -> (r: bool)
        ensures
            r == (*self == *other),
    {
        self.c0 == other.c0 && self.c1 == other.c1 && self.c2 == other.c2
    }

    /// The three letters of the code as a fresh `String`.
    pub fn to_string(&self) -> (r: String)
        ensures
            r@ == self@,
    {
        let mut s = String::new();
        push_char(&mut s, self.c0);
        push_char(&mut s, self.c1);
        push_char(&mut s, self.c2);
        proof {
            assert(s@ =~= self@);
        }
        s
    }
}

impl core::str::FromStr for CurrencyISOCode {
    type Err = CurrencyError;

    fn from_str(c: &str) -> Result<CurrencyISOCode, CurrencyError> {
        CurrencyISOCode::new(c)
    }
}

impl core::str::FromStr for Currency {
    type Err = CurrencyError;

    fn from_str(c: &str) -> Result<Currency, CurrencyError> {
        match CurrencyISOCode::new(c) {
            Ok(code) => Ok(Currency::new(None, code, None)),
            Err(e) => Err(e),
        }
    }
}

/// An uppercase form of an ASCII letter is an uppercase ASCII letter.
proof fn upper_of_alpha_is_upper_alpha(c: char)
    requires
        is_ascii_alpha(c),
    ensures
        is_ascii_alpha(spec_to_ascii_upper(c)),
        spec_to_ascii_upper(spec_to_ascii_upper(c)) == spec_to_ascii_upper(c),
{
}

/// The number of digits to which amounts in the currency are rounded by
/// default: none for currencies without minor units, otherwise two.
pub fn default_rounding_digits(curr: &str) -> (r: i32)
    ensures
        r == spec_default_rounding_digits(curr@),
{
    let n = curr.unicode_len();
    if n == 3 {
        let a = curr.get_char(0);
        let b = curr.get_char(1);
        let c = curr.get_char(2);
        if (a == 'J' && b == 'P' && c == 'Y') || (a == 'T' && b == 'R' && c == 'L') {
            proof {
                assert(curr@ =~= seq!['J', 'P', 'Y'] || curr@ =~= seq!['T', 'R', 'L']);
            }
            0
        } else {
            2
        }
    } else {
        2
    }
}

/// Default rounding digits by code: zero for JPY and TRL, else two.
pub open spec fn spec_default_rounding_digits(s: Seq<char>) -> int {
    if s == seq!['J', 'P', 'Y'] || s == seq!['T', 'R', 'L'] {
        0int
    } else {
        2int
    }
}

/// A currency: an optional persistent id, an ISO code, and the number of
/// digits amounts are rounded to.  Equality is by ISO code alone.
#[derive(Debug, Clone, Copy)]
pub struct Currency {
    pub id: Option<i32>,
    pub iso_code: CurrencyISOCode,
    pub rounding_digits: i32,
}

impl PartialEq for Currency {
    /// Two currencies are equal exactly when their ISO codes match;
    /// id and rounding digits are ignored.
    fn eq(&self, other: &Self) -> (r: bool) {
        let r = self.iso_code.matches_code(&other.iso_code);
        proof {
            assert(r == (self.iso_code == other.iso_code));
        }
        r
    }
}

impl Eq for Currency {

}

impl vstd::std_specs::cmp::PartialEqSpecImpl for Currency {
    open spec fn obeys_eq_spec() -> bool {
        true
    }

    open spec fn eq_spec(&self, other: &Self) -> bool {
        self.iso_code == other.iso_code
    }
}

impl Currency {
    /// The two currencies have the same ISO code.
    pub open spec fn same_code(self, other: Currency) -> bool {
        self.iso_code == other.iso_code
    }

    /// Build a currency.  When no rounding-digit count is supplied, the
    /// default for the code is used.
    pub fn new(id: Option<i32>, iso_code: CurrencyISOCode, rounding_digits: Option<i32>) -> (r:
        Currency)
        ensures
            r.id == id,
            r.iso_code == iso_code,
            r.rounding_digits == match rounding_digits {
                Some(d) => d as int,
                None => spec_default_rounding_digits(iso_code@),
            },
    {
        let digits = match rounding_digits {
            Some(d) => d,
            None => default_rounding_digits(iso_code.to_string().as_str()),
        };
        Currency { id, iso_code, rounding_digits: digits }
    }

    /// The number of digits amounts in this currency are rounded to.
    pub fn rounding_digits(&self) -> (r: i32)
        ensures
            r == self.rounding_digits,
    {
        self.rounding_digits
    }

    /// The ISO code of the currency as a `String`.
    pub fn to_string(&self) -> (r: String)
        ensures
            r@ == self.iso_code@,
    {
        self.iso_code.to_string()
    }
}

impl DataItem for Currency {
    open spec fn id_of(&self) -> Option<int> {
        match self.id {
            Some(i) => Some(i as int),
            None => None,
        }
    }

    open spec fn with_id(&self, id: i32) -> Currency {
        Currency { id: Some(id), iso_code: self.iso_code, rounding_digits: self.rounding_digits }
    }

    fn get_id(&self) -> (r: Result<i32, DataError>) {
        match self.id {
            Some(id) => Ok(id),
            None => Err(
                DataError::DataAccessFailure(
                    String::from_str("Can't get id of temporary currency"),
                ),
            ),
        }
    }

    fn set_id(&mut self, id: i32) -> (r: Result<(), DataError>) {
        match self.id {
            Some(_) => Err(
                DataError::DataAccessFailure(
                    String::from_str("Can't change id of persistent currency"),
                ),
            ),
            None => {
                self.id = Some(id);
                Ok(())
            },
        }
    }
}

} // verus!
