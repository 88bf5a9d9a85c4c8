//! Regional linguistic locales.

use std::str::FromStr;

use vstd::prelude::*;

use crate::localizing::ascii::{lemma_parse_codes_text, spec_ascii_array, AsciiArray, ToAsciiArrayError};

verus! {

/// Why a decimal number could not be read.
#[derive(Clone, Copy, Debug, PartialEq, Eq, Structural)]
pub enum IntErrorKind {
    /// The text was empty.
    Empty,
    /// The number does not fit.
    PosOverflow,
    /// The number is zero where zero is not allowed.
    Zero,
}

/// A [`LocaleError`]'s type.
#[derive(Clone, Debug)]
pub enum LocaleErrorKind {
    /// An invalid locale was provided.
    Locale(String),
    /// An invalid language code was provided.
    LanguageCode(AsciiArray<2>),
    /// An invalid alpha-2 territory code was provided.
    TerritoryAlpha2Code(AsciiArray<2>),
    /// An invalid alpha-3 territory code was provided.
    TerritoryAlpha3Code(AsciiArray<3>),
    /// An invalid numeric territory code was provided.
    TerritoryNumericCode(u16),
    /// A numeric territory code could not be read.
    ParseInt(IntErrorKind),
    /// An array of ASCII characters could not be read.
    ToAsciiArray(ToAsciiArrayError),
}

/// The mathematical content of a [`LocaleErrorKind`].
pub ghost enum LocaleErrorView {
    Locale(Seq<char>),
    LanguageCode(Seq<u8>),
    TerritoryAlpha2Code(Seq<u8>),
    TerritoryAlpha3Code(Seq<u8>),
    TerritoryNumericCode(u16),
    ParseInt(IntErrorKind),
    ToAsciiArray(ToAsciiArrayError),
}

/// An error returned when failing to create a [`Locale`].
#[derive(Clone, Debug)]
pub struct LocaleError(pub LocaleErrorKind);

impl View for LocaleError {
    type V = LocaleErrorView;

    open spec fn view(&self) -> LocaleErrorView {
        match self.0 {
            LocaleErrorKind::Locale(s) => LocaleErrorView::Locale(s@),
            LocaleErrorKind::LanguageCode(a) => LocaleErrorView::LanguageCode(a@),
            LocaleErrorKind::TerritoryAlpha2Code(a) => LocaleErrorView::TerritoryAlpha2Code(a@),
            LocaleErrorKind::TerritoryAlpha3Code(a) => LocaleErrorView::TerritoryAlpha3Code(a@),
            LocaleErrorKind::TerritoryNumericCode(n) => LocaleErrorView::TerritoryNumericCode(n),
            LocaleErrorKind::ParseInt(k) => LocaleErrorView::ParseInt(k),
            LocaleErrorKind::ToAsciiArray(e) => LocaleErrorView::ToAsciiArray(e),
        }
    }
}

impl LocaleError {
    /// Returns this error's type.
    pub fn kind(&self) -> (r: &LocaleErrorKind)
        ensures
            *r == self.0,
    {
        &self.0
    }
}

/// Whether every code of an array is an ASCII lowercase letter.
pub open spec fn all_lower(codes: Seq<u8>) -> bool {
    forall|i: int| 0 <= i < codes.len() ==> 97 <= #[trigger] codes[i] <= 122
}

/// Whether every code of an array is an ASCII uppercase letter.
pub open spec fn all_upper(codes: Seq<u8>) -> bool {
    forall|i: int| 0 <= i < codes.len() ==> 65 <= #[trigger] codes[i] <= 90
}

/// Checks the codes of an array against a letter range.
fn codes_within<const N: usize>(array: &AsciiArray<N>, low: u8, high: u8) -> (r: bool)
    ensures
        r == forall|i: int| 0 <= i < array@.len() ==> low <= #[trigger] array@[i] <= high,
{
    proof {
        array.lemma_len();
    }
    let mut i: usize = 0;
    while i < N
        invariant
            i <= N,
            array@.len() == N,
            forall|j: int| 0 <= j < i ==> low <= #[trigger] array@[j] <= high,
        decreases N - i,
    {
        let c = array.get(i);
        if c < low || c > high {
            return false;
        }
        i = i + 1;
    }
    true
}

/// The language code for a locale: two ASCII lowercase letters.
#[derive(Clone, Copy, Debug, Hash, PartialEq, Eq, PartialOrd, Ord)]
pub struct LocaleLanguageCode(AsciiArray<2>);

impl View for LocaleLanguageCode {
    type V = Seq<u8>;

    closed spec fn view(&self) -> Seq<u8> {
        self.0@
    }
}

impl LocaleLanguageCode {
    /// A language code holds two lowercase letters.
    #[verifier::type_invariant]
    closed spec fn well_formed(self) -> bool {
        all_lower(self.0@)
    }

    /// Creates a new [`LocaleLanguageCode`].
    ///
    /// # Errors
    ///
    /// This function will return an error if the given code is not entirely ASCII lowercase.
    pub fn new(character_array: AsciiArray<2>) -> (r: Result<LocaleLanguageCode, LocaleError>)
        ensures
            all_lower(character_array@) <==> r is Ok,
            r matches Ok(c) ==> c@ == character_array@,
            r matches Err(e) ==> e@ == LocaleErrorView::LanguageCode(character_array@),
    {
        if codes_within(&character_array, 97, 122) {
            Ok(LocaleLanguageCode(character_array))
        } else {
            Err(LocaleError(LocaleErrorKind::LanguageCode(character_array)))
        }
    }

    /// Parses a language code from two ASCII lowercase letters.
    ///
    /// # Errors
    ///
    /// This function will return an error if the text is not two ASCII lowercase letters.
    pub fn parse(string: &str) -> (r: Result<LocaleLanguageCode, LocaleError>)
        ensures
            match spec_ascii_array(string@, 2) {
                Err(e) => r matches Err(x) && x@ == LocaleErrorView::ToAsciiArray(e),
                Ok(v) => if all_lower(v) {
                    r matches Ok(c) && c@ == v
                } else {
                    r matches Err(x) && x@ == LocaleErrorView::LanguageCode(v)
                },
            },
    {
        match AsciiArray::<2>::parse(string) {
            Ok(array) => LocaleLanguageCode::new(array),
            Err(error) => Err(LocaleError(LocaleErrorKind::ToAsciiArray(error))),
        }
    }

    /// Returns whether two codes are equal.
    pub fn equals(&self, other: &LocaleLanguageCode) -> (r: bool)
        ensures
            r == (*self == *other),
    {
        self.0.equals(&other.0)
    }

    /// Returns the code as a string.
    pub fn to_display_string(&self) -> (r: String)
        ensures
            r@ == self@.map_values(|b: u8| b as char),
    {
        self.0.to_display_string()
    }
}

impl FromStr for LocaleLanguageCode {
    type Err = LocaleError;

    fn from_str(string: &str) -> (r: Result<LocaleLanguageCode, LocaleError>)
        ensures
            match spec_ascii_array(string@, 2) {
                Err(e) => r matches Err(x) && x@ == LocaleErrorView::ToAsciiArray(e),
                Ok(v) => if all_lower(v) {
                    r matches Ok(c) && c@ == v
                } else {
                    r matches Err(x) && x@ == LocaleErrorView::LanguageCode(v)
                },
            },
    {
        LocaleLanguageCode::parse(string)
    }
}

/// The inner representation of a [`LocaleTerritoryCode`].
#[derive(Clone, Copy, Debug, Hash, PartialEq, Eq, PartialOrd, Ord)]
pub enum LocaleTerritoryCodeInner {
    /// A two-letter regional identifier.
    Alpha2(AsciiArray<2>),
    /// A three-letter regional identifier.
    Alpha3(AsciiArray<3>),
    /// A numeric regional identifier, ranging from 001-999.
    Numeric(u16),
}

/// The mathematical content of a territory code.
pub ghost enum TerritoryView {
    Alpha2(Seq<u8>),
    Alpha3(Seq<u8>),
    Numeric(u16),
}

/// The territory code for a locale.
#[derive(Clone, Copy, Debug, Hash, PartialEq, Eq, PartialOrd, Ord)]
pub struct LocaleTerritoryCode(LocaleTerritoryCodeInner);

impl View for LocaleTerritoryCode {
    type V = TerritoryView;

    closed spec fn view(&self) -> TerritoryView {
        match self.0 {
            LocaleTerritoryCodeInner::Alpha2(a) => TerritoryView::Alpha2(a@),
            LocaleTerritoryCodeInner::Alpha3(a) => TerritoryView::Alpha3(a@),
            LocaleTerritoryCodeInner::Numeric(n) => TerritoryView::Numeric(n),
        }
    }
}

/// The three decimal digits of a number below one thousand.
pub open spec fn spec_three_digits(n: u16) -> Seq<char> {
    seq![
        ((n / 100) as u32 + 48) as char,
        ((n / 10 % 10) as u32 + 48) as char,
        ((n % 10) as u32 + 48) as char,
    ]
}

/// The text a territory code is written as.
pub open spec fn spec_territory_text(t: TerritoryView) -> Seq<char> {
    match t {
        TerritoryView::Alpha2(a) => a.map_values(|b: u8| b as char),
        TerritoryView::Alpha3(a) => a.map_values(|b: u8| b as char),
        TerritoryView::Numeric(n) => spec_three_digits(n),
    }
}

/// Whether a character is an ASCII decimal digit.
pub open spec fn is_digit(c: char) -> bool {
    '0' <= c && c <= '9'
}

/// The value of a string of decimal digits.
pub open spec fn digits_value(s: Seq<char>) -> nat
    decreases s.len(),
{
    if s.len() == 0 {
        0
    } else {
        digits_value(s.drop_last()) * 10 + ((s.last() as u32) - 48) as nat
    }
}

/// What reading a string of decimal digits as a non-zero `u16` gives.
pub open spec fn spec_parse_nonzero_u16(s: Seq<char>) -> Result<u16, IntErrorKind> {
    if s.len() == 0 {
        Err(IntErrorKind::Empty)
    } else if digits_value(s) > 65535 {
        Err(IntErrorKind::PosOverflow)
    } else if digits_value(s) == 0 {
        Err(IntErrorKind::Zero)
    } else {
        Ok(digits_value(s) as u16)
    }
}

/// Reads a string of decimal digits as a non-zero `u16`.
fn parse_nonzero_u16(string: &str) -> (r: Result<u16, IntErrorKind>)
    requires
        forall|i: int| 0 <= i < string@.len() ==> is_digit(#[trigger] string@[i]),
    ensures
        r == spec_parse_nonzero_u16(string@),
{
    let n = string.unicode_len();
    if n == 0 {
        return Err(IntErrorKind::Empty);
    }
    let mut value: u32 = 0;
    let mut i: usize = 0;
    while i < n
        invariant
            n == string@.len(),
            i <= n,
            forall|j: int| 0 <= j < string@.len() ==> is_digit(#[trigger] string@[j]),
            value == if digits_value(string@.subrange(0, i as int)) <= 65535 {
                digits_value(string@.subrange(0, i as int))
            } else {
                65536
            },
        decreases n - i,
    {
        let c = string.get_char(i);
        let d: u32 = (c as u32) - 48;
        let ghost prefix = string@.subrange(0, i as int);
        let ghost next = string@.subrange(0, i + 1);
        assert(next.drop_last() =~= prefix);
        assert(next.last() == c);
        assert(digits_value(next) == digits_value(prefix) * 10 + d);
        if value > 65535 {
            assert(digits_value(prefix) * 10 + d > 65535) by (nonlinear_arith)
                requires
                    digits_value(prefix) > 65535,
            ;
        } else {
            let v = value * 10 + d;
            if v > 65535 {
                value = 65536;
            } else {
                value = v;
            }
        }
        i = i + 1;
    }
    assert(string@.subrange(0, n as int) =~= string@);
    if value > 65535 {
        Err(IntErrorKind::PosOverflow)
    } else if value == 0 {
        Err(IntErrorKind::Zero)
    } else {
        Ok(value as u16)
    }
}

/// Returns whether every character of `string` is an ASCII decimal digit.
fn all_digits(string: &str) -> (r: bool)
    ensures
        r == forall|i: int| 0 <= i < string@.len() ==> is_digit(#[trigger] string@[i]),
{
    let n = string.unicode_len();
    let mut i: usize = 0;
    while i < n
        invariant
            n == string@.len(),
            i <= n,
            forall|j: int| 0 <= j < i ==> is_digit(#[trigger] string@[j]),
        decreases n - i,
    {
        let c = string.get_char(i);
        if !('0' <= c && c <= '9') {
            return false;
        }
        i = i + 1;
    }
    true
}

/// What parsing a territory code gives.
pub open spec fn spec_parse_territory(s: Seq<char>) -> Result<TerritoryView, LocaleErrorView> {
    if forall|i: int| 0 <= i < s.len() ==> is_digit(#[trigger] s[i]) {
        match spec_parse_nonzero_u16(s) {
            Err(k) => Err(LocaleErrorView::ParseInt(k)),
            Ok(n) => if n <= 999 {
                Ok(TerritoryView::Numeric(n))
            } else {
                Err(LocaleErrorView::TerritoryNumericCode(n))
            },
        }
    } else if s.len() == 2 {
        match spec_ascii_array(s, 2) {
            Err(e) => Err(LocaleErrorView::ToAsciiArray(e)),
            Ok(v) => if all_upper(v) {
                Ok(TerritoryView::Alpha2(v))
            } else {
                Err(LocaleErrorView::TerritoryAlpha2Code(v))
            },
        }
    } else if s.len() == 3 {
        match spec_ascii_array(s, 3) {
            Err(e) => Err(LocaleErrorView::ToAsciiArray(e)),
            Ok(v) => if all_upper(v) {
                Ok(TerritoryView::Alpha3(v))
            } else {
                Err(LocaleErrorView::TerritoryAlpha3Code(v))
            },
        }
    } else {
        Err(LocaleErrorView::Locale(s))
    }
}

impl LocaleTerritoryCode {
    /// A territory code holds uppercase letters or a number from 1 to 999.
    #[verifier::type_invariant]
    closed spec fn well_formed(self) -> bool {
        match self.0 {
            LocaleTerritoryCodeInner::Alpha2(a) => all_upper(a@),
            LocaleTerritoryCodeInner::Alpha3(a) => all_upper(a@),
            LocaleTerritoryCodeInner::Numeric(n) => 1 <= n <= 999,
        }
    }

    /// Creates a new alpha-2 [`LocaleTerritoryCode`].
    ///
    /// # Errors
    ///
    /// This function will return an error if the given code is not entirely ASCII uppercase.
    pub fn alpha2(character_array: AsciiArray<2>) -> (r: Result<LocaleTerritoryCode, LocaleError>)
        ensures
            all_upper(character_array@) <==> r is Ok,
            r matches Ok(c) ==> c@ == TerritoryView::Alpha2(character_array@),
            r matches Err(e) ==> e@ == LocaleErrorView::TerritoryAlpha2Code(character_array@),
    {
        if codes_within(&character_array, 65, 90) {
            Ok(LocaleTerritoryCode(LocaleTerritoryCodeInner::Alpha2(character_array)))
        } else {
            Err(LocaleError(LocaleErrorKind::TerritoryAlpha2Code(character_array)))
        }
    }

    /// Creates a new alpha-3 [`LocaleTerritoryCode`].
    ///
    /// # Errors
    ///
    /// This function will return an error if the given code is not entirely ASCII uppercase.
    pub fn alpha3(character_array: AsciiArray<3>) -> (r: Result<LocaleTerritoryCode, LocaleError>)
        ensures
            all_upper(character_array@) <==> r is Ok,
            r matches Ok(c) ==> c@ == TerritoryView::Alpha3(character_array@),
            r matches Err(e) ==> e@ == LocaleErrorView::TerritoryAlpha3Code(character_array@),
    {
        if codes_within(&character_array, 65, 90) {
            Ok(LocaleTerritoryCode(LocaleTerritoryCodeInner::Alpha3(character_array)))
        } else {
            Err(LocaleError(LocaleErrorKind::TerritoryAlpha3Code(character_array)))
        }
    }

    /// Creates a new numeric [`LocaleTerritoryCode`] from a non-zero number.
    ///
    /// # Errors
    ///
    /// This function will return an error if the given code is not within `001..=999`.
    pub fn numeric(number: u16) -> (r: Result<LocaleTerritoryCode, LocaleError>)
        requires
            number != 0,
        ensures
            number <= 999 <==> r is Ok,
            r matches Ok(c) ==> c@ == TerritoryView::Numeric(number),
            r matches Err(e) ==> e@ == LocaleErrorView::TerritoryNumericCode(number),
    {
        if number <= 999 {
            Ok(LocaleTerritoryCode(LocaleTerritoryCodeInner::Numeric(number)))
        } else {
            Err(LocaleError(LocaleErrorKind::TerritoryNumericCode(number)))
        }
    }

    /// Parses a territory code: a number of digits, or two or three ASCII uppercase letters.
    ///
    /// # Errors
    ///
    /// This function will return an error if the text is not a valid territory code.
    pub fn parse(string: &str) -> (r: Result<LocaleTerritoryCode, LocaleError>)
        ensures
            match spec_parse_territory(string@) {
                Ok(t) => r matches Ok(c) && c@ == t,
                Err(e) => r matches Err(x) && x@ == e,
            },
    {
        if all_digits(string) {
            return match parse_nonzero_u16(string) {
                Ok(n) => LocaleTerritoryCode::numeric(n),
                Err(kind) => Err(LocaleError(LocaleErrorKind::ParseInt(kind))),
            };
        }
        let count = string.unicode_len();
        if count == 2 {
            match AsciiArray::<2>::parse(string) {
                Ok(array) => LocaleTerritoryCode::alpha2(array),
                Err(error) => Err(LocaleError(LocaleErrorKind::ToAsciiArray(error))),
            }
        } else if count == 3 {
            match AsciiArray::<3>::parse(string) {
                Ok(array) => LocaleTerritoryCode::alpha3(array),
                Err(error) => Err(LocaleError(LocaleErrorKind::ToAsciiArray(error))),
            }
        } else {
            Err(LocaleError(LocaleErrorKind::Locale(string.to_owned())))
        }
    }

    /// Returns whether two codes are equal.
    pub fn equals(&self, other: &LocaleTerritoryCode) -> (r: bool)
        ensures
            r == (*self == *other),
    {
        match (&self.0, &other.0) {
            (LocaleTerritoryCodeInner::Alpha2(a), LocaleTerritoryCodeInner::Alpha2(b)) => a.equals(b),
            (LocaleTerritoryCodeInner::Alpha3(a), LocaleTerritoryCodeInner::Alpha3(b)) => a.equals(b),
            (LocaleTerritoryCodeInner::Numeric(a), LocaleTerritoryCodeInner::Numeric(b)) => *a == *b,
            _ => false,
        }
    }

    /// Returns the code as it is written.
    pub fn to_display_string(&self) -> (r: String)
        ensures
            r@ == spec_territory_text(self@),
    {
        proof {
            use_type_invariant(self);
        }
        match &self.0 {
            LocaleTerritoryCodeInner::Alpha2(a) => a.to_display_string(),
            LocaleTerritoryCodeInner::Alpha3(a) => a.to_display_string(),
            LocaleTerritoryCodeInner::Numeric(n) => {
                let n = *n;
                let mut s = String::new();
                s.push((((n / 100) as u32 + 48) as u8) as char);
                s.push((((n / 10 % 10) as u32 + 48) as u8) as char);
                s.push((((n % 10) as u32 + 48) as u8) as char);
                s
            },
        }
    }
}

impl FromStr for LocaleTerritoryCode {
    type Err = LocaleError;

    fn from_str(string: &str) -> (r: Result<LocaleTerritoryCode, LocaleError>)
        ensures
            match spec_parse_territory(string@) {
                Ok(t) => r matches Ok(c) && c@ == t,
                Err(e) => r matches Err(x) && x@ == e,
            },
    {
        LocaleTerritoryCode::parse(string)
    }
}

} // verus!

verus! {

/// The mathematical content of a locale: its language code and optional territory code.
pub ghost struct LocaleView {
    pub language: Seq<u8>,
    pub territory: Option<TerritoryView>,
}

/// A regional linguistic locale.
#[derive(Clone, Copy, Debug, Hash, PartialEq, Eq, PartialOrd, Ord)]
pub struct Locale {
    /// The locale's language code.
    language: LocaleLanguageCode,
    /// The locale's territory identifier.
    territory: Option<LocaleTerritoryCode>,
}

impl View for Locale {
    type V = LocaleView;

    closed spec fn view(&self) -> LocaleView {
        LocaleView {
            language: self.language@,
            territory: match self.territory {
                Some(t) => Some(t@),
                None => None,
            },
        }
    }
}

/// The position of the first hyphen in `s`.
pub open spec fn first_hyphen_at(s: Seq<char>, i: int) -> bool {
    &&& 0 <= i < s.len()
    &&& s[i] == '-'
    &&& forall|j: int| 0 <= j < i ==> #[trigger] s[j] != '-'
}

/// What parsing a locale string gives: a language code, optionally followed by a hyphen and a
/// territory code; the text splits at its first hyphen.
pub open spec fn spec_parse_locale(s: Seq<char>) -> Result<LocaleView, LocaleErrorView> {
    let language_text = if exists|i: int| first_hyphen_at(s, i) {
        s.subrange(0, choose|i: int| first_hyphen_at(s, i))
    } else {
        s
    };
    match spec_ascii_array(language_text, 2) {
        Err(e) => Err(LocaleErrorView::ToAsciiArray(e)),
        Ok(v) => if !all_lower(v) {
            Err(LocaleErrorView::LanguageCode(v))
        } else if exists|i: int| first_hyphen_at(s, i) {
            match spec_parse_territory(
                s.subrange((choose|i: int| first_hyphen_at(s, i)) + 1, s.len() as int),
            ) {
                Ok(t) => Ok(LocaleView { language: v, territory: Some(t) }),
                Err(e) => Err(e),
            }
        } else {
            Ok(LocaleView { language: v, territory: None })
        },
    }
}

/// The text a locale is written as.
pub open spec fn spec_locale_text(l: LocaleView) -> Seq<char> {
    match l.territory {
        Some(t) => l.language.map_values(|b: u8| b as char) + seq!['-'] + spec_territory_text(t),
        None => l.language.map_values(|b: u8| b as char),
    }
}

/// Returns the position of the first hyphen in `string`.
fn find_hyphen(string: &str) -> (r: Option<usize>)
    ensures
        match r {
            Some(i) => first_hyphen_at(string@, i as int),
            None => forall|j: int| 0 <= j < string@.len() ==> #[trigger] string@[j] != '-',
        },
{
    let n = string.unicode_len();
    let mut i: usize = 0;
    while i < n
        invariant
            n == string@.len(),
            i <= n,
            forall|j: int| 0 <= j < i ==> #[trigger] string@[j] != '-',
        decreases n - i,
    {
        if string.get_char(i) == '-' {
            return Some(i);
        }
        i = i + 1;
    }
    None
}

impl Locale {
    /// The locale's language code.
    pub closed spec fn spec_language(&self) -> LocaleLanguageCode {
        self.language
    }

    /// The locale's territory code.
    pub closed spec fn spec_territory(&self) -> Option<LocaleTerritoryCode> {
        self.territory
    }

    /// Two locales are equal exactly when their codes are.
    pub proof fn lemma_view_injective(a: Locale, b: Locale)
        ensures
            (a@ == b@) == (a == b),
    {
        if a@ == b@ {
            AsciiArray::<2>::lemma_view_injective(a.language.0, b.language.0);
            match (a.territory, b.territory) {
                (Some(x), Some(y)) => match (x.0, y.0) {
                    (LocaleTerritoryCodeInner::Alpha2(p), LocaleTerritoryCodeInner::Alpha2(q)) => {
                        AsciiArray::<2>::lemma_view_injective(p, q);
                    },
                    (LocaleTerritoryCodeInner::Alpha3(p), LocaleTerritoryCodeInner::Alpha3(q)) => {
                        AsciiArray::<3>::lemma_view_injective(p, q);
                    },
                    _ => {},
                },
                _ => {},
            }
        }
    }

    /// Creates a new [`Locale`].
    pub fn new(language: LocaleLanguageCode, territory: Option<LocaleTerritoryCode>) -> (r: Locale)
        ensures
            r.spec_language() == language,
            r.spec_territory() == territory,
    {
        Locale { language, territory }
    }

    /// Returns the locale's language code.
    pub fn language(&self) -> (r: LocaleLanguageCode)
        ensures
            r == self.spec_language(),
    {
        self.language
    }

    /// Returns the locale's territory code.
    pub fn territory(&self) -> (r: Option<LocaleTerritoryCode>)
        ensures
            r == self.spec_territory(),
    {
        self.territory
    }

    /// Returns whether two locales are equal.
    pub fn equals(&self, other: &Locale) -> (r: bool)
        ensures
            r == (*self == *other),
    {
        if !self.language.equals(&other.language) {
            return false;
        }
        match (&self.territory, &other.territory) {
            (Some(a), Some(b)) => a.equals(b),
            (None, None) => true,
            _ => false,
        }
    }

    /// Returns the `en-US` locale.
    pub fn english_us() -> (r: Locale)
        ensures
            r@ == (LocaleView {
                language: seq![101u8, 110u8],
                territory: Some(TerritoryView::Alpha2(seq![85u8, 83u8])),
            }),
    {
        let language = AsciiArray::<2>::from_bytes([101u8, 110u8]).unwrap();
        let territory = AsciiArray::<2>::from_bytes([85u8, 83u8]).unwrap();
        assert(language@ =~= seq![101u8, 110u8]);
        assert(territory@ =~= seq![85u8, 83u8]);
        assert(all_lower(language@));
        Locale {
            language: LocaleLanguageCode(language),
            territory: Some(LocaleTerritoryCode(LocaleTerritoryCodeInner::Alpha2(territory))),
        }
    }

    /// Parses a locale: a language code, optionally followed by a hyphen and a territory code.
    ///
    /// # Errors
    ///
    /// This function will return an error if either code is invalid.
    pub fn parse(string: &str) -> (r: Result<Locale, LocaleError>)
        ensures
            match spec_parse_locale(string@) {
                Ok(l) => r matches Ok(x) && x@ == l,
                Err(e) => r matches Err(x) && x@ == e,
            },
    {
        match find_hyphen(string) {
            Some(i) => {
                proof {
                    let c = choose|c: int| first_hyphen_at(string@, c);
                    if c < i {
                        assert(string@[c] != '-');
                    } else if i < c {
                        assert(string@[i as int] != '-');
                    }
                }
                let n = string.unicode_len();
                let language_text = string.substring_char(0, i);
                let territory_text = string.substring_char(i + 1, n);
                let language = LocaleLanguageCode::parse(language_text)?;
                let territory = LocaleTerritoryCode::parse(territory_text)?;
                Ok(Locale { language, territory: Some(territory) })
            },
            None => {
                let language = LocaleLanguageCode::parse(string)?;
                Ok(Locale { language, territory: None })
            },
        }
    }

    /// Returns the locale as it is written: its language code, then a hyphen and its territory
    /// code when it has one.
    pub fn to_display_string(&self) -> (r: String)
        ensures
            r@ == spec_locale_text(self@),
            locale_view_valid(self@),
            spec_parse_locale(r@) == Ok::<LocaleView, LocaleErrorView>(self@),
    {
        proof {
            use_type_invariant(&self.language);
            self.language.0.lemma_len();
            if let Some(t) = self.territory {
                use_type_invariant(&t);
                match t.0 {
                    LocaleTerritoryCodeInner::Alpha2(a) => a.lemma_len(),
                    LocaleTerritoryCodeInner::Alpha3(a) => a.lemma_len(),
                    LocaleTerritoryCodeInner::Numeric(_) => {},
                }
            }
        }
        assert(locale_view_valid(self@));
        proof {
            lemma_parse_locale_text(self@);
        }
        let mut s = self.language.to_display_string();
        match &self.territory {
            Some(t) => {
                let rest = t.to_display_string();
                s.push('-');
                s.append(rest.as_str());
                s
            },
            None => s,
        }
    }
}

impl Default for Locale {
    fn default() -> (r: Locale)
        ensures
            r@ == (LocaleView {
                language: seq![101u8, 110u8],
                territory: Some(TerritoryView::Alpha2(seq![85u8, 83u8])),
            }),
    {
        Locale::english_us()
    }
}

impl FromStr for Locale {
    type Err = LocaleError;

    fn from_str(string: &str) -> (r: Result<Locale, LocaleError>)
        ensures
            match spec_parse_locale(string@) {
                Ok(l) => r matches Ok(x) && x@ == l,
                Err(e) => r matches Err(x) && x@ == e,
            },
    {
        Locale::parse(string)
    }
}

/// Whether a locale's content is one that [`Locale`]'s constructors produce: two lowercase
/// letters, and a territory of two or three uppercase letters or a number from 1 to 999.
pub open spec fn locale_view_valid(l: LocaleView) -> bool {
    &&& l.language.len() == 2
    &&& all_lower(l.language)
    &&& match l.territory {
        None => true,
        Some(t) => territory_view_valid(t),
    }
}

/// Whether a territory's content is one that [`LocaleTerritoryCode`]'s constructors produce.
pub open spec fn territory_view_valid(t: TerritoryView) -> bool {
    match t {
        TerritoryView::Alpha2(a) => a.len() == 2 && all_upper(a),
        TerritoryView::Alpha3(a) => a.len() == 3 && all_upper(a),
        TerritoryView::Numeric(n) => 1 <= n <= 999,
    }
}

/// Letter codes written out as characters read back as the same codes, and hold no hyphen and no
/// digit.
proof fn lemma_letters_text(codes: Seq<u8>, n: usize, lower: bool)
    requires
        codes.len() == n,
        lower ==> all_lower(codes),
        !lower ==> all_upper(codes),
    ensures
        spec_ascii_array(codes.map_values(|b: u8| b as char), n) == Ok::<Seq<u8>, ToAsciiArrayError>(
            codes,
        ),
        forall|i: int| 0 <= i < n ==> (#[trigger] codes[i]) as char != '-',
        n > 0 ==> !is_digit(codes[0] as char),
{
    lemma_parse_codes_text(codes, n);
}

/// The three digits of a territory number read back as that number.
proof fn lemma_three_digits(n: u16)
    requires
        1 <= n <= 999,
    ensures
        forall|i: int| 0 <= i < spec_three_digits(n).len() ==> is_digit(#[trigger] spec_three_digits(n)[i]),
        spec_parse_nonzero_u16(spec_three_digits(n)) == Ok::<u16, IntErrorKind>(n),
{
    let s = spec_three_digits(n);
    let a: u16 = n / 100;
    let b: u16 = n / 10 % 10;
    let c: u16 = n % 10;
    assert(a <= 9 && b <= 9 && c <= 9);
    assert(s[0] as u32 == a + 48 && s[1] as u32 == b + 48 && s[2] as u32 == c + 48);
    assert(s.drop_last() =~= seq![s[0], s[1]]);
    assert(seq![s[0], s[1]].drop_last() =~= seq![s[0]]);
    assert(seq![s[0]].drop_last() =~= Seq::<char>::empty());
    assert(digits_value(Seq::<char>::empty()) == 0);
    assert(digits_value(seq![s[0]]) == a);
    assert(digits_value(seq![s[0], s[1]]) == a * 10 + b);
    assert(digits_value(s) == (a * 10 + b) * 10 + c);
    assert((a * 10 + b) * 10 + c == n) by (nonlinear_arith)
        requires
            a == n / 100,
            b == n / 10 % 10,
            c == n % 10,
            n <= 999,
    ;
}

/// A territory code written out as text parses back to the same code.
pub proof fn lemma_parse_territory_text(t: TerritoryView)
    requires
        territory_view_valid(t),
    ensures
        spec_parse_territory(spec_territory_text(t)) == Ok::<TerritoryView, LocaleErrorView>(t),
{
    match t {
        TerritoryView::Alpha2(a) => {
            lemma_letters_text(a, 2, false);
        },
        TerritoryView::Alpha3(a) => {
            lemma_letters_text(a, 3, false);
        },
        TerritoryView::Numeric(n) => {
            lemma_three_digits(n);
        },
    }
}

/// A locale written out as text parses back to the same locale.
pub proof fn lemma_parse_locale_text(l: LocaleView)
    requires
        locale_view_valid(l),
    ensures
        spec_parse_locale(spec_locale_text(l)) == Ok::<LocaleView, LocaleErrorView>(l),
{
    let lang = l.language.map_values(|b: u8| b as char);
    lemma_letters_text(l.language, 2, true);
    match l.territory {
        None => {
            assert forall|i: int| #![auto] !first_hyphen_at(lang, i) by {
                if 0 <= i < 2 {
                    assert(lang[i] != '-');
                }
            }
        },
        Some(t) => {
            let text = lang + seq!['-'] + spec_territory_text(t);
            assert(text[2] == '-');
            assert forall|j: int| 0 <= j < 2 implies #[trigger] text[j] != '-' by {
                assert(text[j] == lang[j]);
            }
            assert(first_hyphen_at(text, 2));
            let c = choose|i: int| first_hyphen_at(text, i);
            if c < 2 {
                assert(text[c] != '-');
            } else if c > 2 {
                assert(text[2] != '-');
            }
            assert(text.subrange(0, 2) =~= lang);
            assert(text.subrange(3, text.len() as int) =~= spec_territory_text(t));
            lemma_parse_territory_text(t);
        },
    }
}

} // verus!
