use vstd::prelude::*;

use crate::localization::LocalizationError;
use crate::strings::{
    ascii_lower, ascii_upper, char_is_ascii_alpha, is_ascii_lower, is_ascii_upper, lemma_ascii_case, char_to_ascii_lower, char_to_ascii_upper, is_ascii_alpha,
    string_of_two,
};

verus! {

/// A locale used within the localizer: two language letters followed by two territory letters.
#[derive(Clone, Copy, Debug, Default, Hash, PartialEq, Eq, Structural)]
pub struct Locale(char, char, char, char);

impl View for Locale {
    type V = Seq<char>;

    closed spec fn view(&self) -> Seq<char> {
        seq![self.0, self.1, self.2, self.3]
    }
}

/// The locale that `language` and `territory` describe, when all four are ASCII letters.
pub open spec fn spec_locale_chars(language: [char; 2], territory: [char; 2]) -> Seq<char> {
    seq![
        ascii_lower(language[0]),
        ascii_lower(language[1]),
        ascii_upper(territory[0]),
        ascii_upper(territory[1]),
    ]
}

/// Whether all four characters of a locale are ASCII letters.
pub open spec fn spec_locale_valid(language: [char; 2], territory: [char; 2]) -> bool {
    &&& is_ascii_alpha(language[0])
    &&& is_ascii_alpha(language[1])
    &&& is_ascii_alpha(territory[0])
    &&& is_ascii_alpha(territory[1])
}

/// Whether `s` starts with a locale string: two letters, a hyphen, two letters.
pub open spec fn spec_locale_text_valid(s: Seq<char>) -> bool {
    &&& s.len() >= 5
    &&& is_ascii_alpha(s[0])
    &&& is_ascii_alpha(s[1])
    &&& s[2] == '-'
    &&& is_ascii_alpha(s[3])
    &&& is_ascii_alpha(s[4])
}

/// The characters of the locale written at the start of `s`.
pub open spec fn spec_locale_text_chars(s: Seq<char>) -> Seq<char> {
    seq![ascii_lower(s[0]), ascii_lower(s[1]), ascii_upper(s[3]), ascii_upper(s[4])]
}

impl Locale {
    /// Two locales are equal exactly when their characters are.
    pub proof fn lemma_view_injective(a: Locale, b: Locale)
        ensures
            (a@ == b@) == (a == b),
    {
        if a@ == b@ {
            assert(a@[0] == b@[0] && a@[1] == b@[1] && a@[2] == b@[2] && a@[3] == b@[3]);
        }
    }

    /// Creates a new [`Locale`].
    ///
    /// # Errors
    ///
    /// This function will return an error if the given locale contains a non-ascii-alphabetic character.
    pub fn new(language: [char; 2], territory: [char; 2]) -> (r: Result<Locale, LocalizationError>)
        ensures
            spec_locale_valid(language, territory) <==> r is Ok,
            r matches Ok(l) ==> l@ == spec_locale_chars(language, territory),
            r matches Err(e) ==> e == LocalizationError::InvalidLocale,
    {
        let l1 = language[0];
        let l2 = language[1];
        let t1 = territory[0];
        let t2 = territory[1];
        if !char_is_ascii_alpha(l1) || !char_is_ascii_alpha(l2) || !char_is_ascii_alpha(t1)
            || !char_is_ascii_alpha(t2) {
            return Err(LocalizationError::InvalidLocale);
        }
        let l = Locale(
            char_to_ascii_lower(l1),
            char_to_ascii_lower(l2),
            char_to_ascii_upper(t1),
            char_to_ascii_upper(t2),
        );
        assert(l@ =~= spec_locale_chars(language, territory));
        Ok(l)
    }

    /// Returns the language code of this [`Locale`].
    pub fn language(&self) -> (r: String)
        ensures
            r@ == self@.subrange(0, 2),
    {
        let r = string_of_two(self.0, self.1);
        assert(r@ =~= self@.subrange(0, 2));
        r
    }

    /// Returns the territory code of this [`Locale`].
    pub fn territory(&self) -> (r: String)
        ensures
            r@ == self@.subrange(2, 4),
    {
        let r = string_of_two(self.2, self.3);
        assert(r@ =~= self@.subrange(2, 4));
        r
    }

    /// Parses a locale from the start of `value`, written as two letters, a hyphen and two letters.
    ///
    /// Characters after the fifth are not read.
    ///
    /// # Errors
    ///
    /// This function will return an error if the text does not start with a locale.
    pub fn parse(value: &str) -> (r: Result<Locale, LocalizationError>)
        ensures
            spec_locale_text_valid(value@) <==> r is Ok,
            r matches Ok(l) ==> l@ == spec_locale_text_chars(value@),
            r matches Ok(l) ==> l@ == spec_locale_chars([value@[0], value@[1]], [value@[3], value@[4]]),
            r matches Err(e) ==> e == LocalizationError::InvalidLocale,
    {
        proof {
            if spec_locale_text_valid(value@) {
                lemma_parse_is_new(value@);
            }
        }
        let len = value.unicode_len();
        if len < 5 {
            return Err(LocalizationError::InvalidLocale);
        }
        let c0 = value.get_char(0);
        let c1 = value.get_char(1);
        let c2 = value.get_char(2);
        let c3 = value.get_char(3);
        let c4 = value.get_char(4);
        if !char_is_ascii_alpha(c0) || !char_is_ascii_alpha(c1) || c2 != '-' || !char_is_ascii_alpha(c3)
            || !char_is_ascii_alpha(c4) {
            return Err(LocalizationError::InvalidLocale);
        }
        Locale::new([c0, c1], [c3, c4])
    }

    /// Returns the locale written as its language code, a hyphen and its territory code.
    pub fn to_display_string(&self) -> (r: String)
        ensures
            r@ == seq![self@[0], self@[1], '-', self@[2], self@[3]],
    {
        let mut s = String::new();
        s.push(self.0);
        s.push(self.1);
        s.push('-');
        s.push(self.2);
        s.push(self.3);
        s
    }
}

/// A locale written out as text parses back to the same locale.
pub proof fn lemma_parse_display(locale: Locale, language: [char; 2], territory: [char; 2])
    requires
        spec_locale_valid(language, territory),
        locale@ == spec_locale_chars(language, territory),
    ensures
        ({
            let text = seq![locale@[0], locale@[1], '-', locale@[2], locale@[3]];
            spec_locale_text_valid(text) && spec_locale_text_chars(text) == locale@
        }),
{
    lemma_ascii_case(language[0]);
    lemma_ascii_case(language[1]);
    lemma_ascii_case(territory[0]);
    lemma_ascii_case(territory[1]);
    let text = seq![locale@[0], locale@[1], '-', locale@[2], locale@[3]];
    assert(spec_locale_text_chars(text) =~= locale@);
}

/// Parsing a locale gives the locale that [`Locale::new`] gives for the letters read: the language
/// letters lowercased and the territory letters uppercased.
pub proof fn lemma_parse_is_new(s: Seq<char>)
    requires
        spec_locale_text_valid(s),
    ensures
        spec_locale_valid([s[0], s[1]], [s[3], s[4]]),
        spec_locale_text_chars(s) == spec_locale_chars([s[0], s[1]], [s[3], s[4]]),
{
    assert(spec_locale_text_chars(s) =~= spec_locale_chars([s[0], s[1]], [s[3], s[4]]));
}

/// A parsed locale has a lowercase language and an uppercase territory, and texts that differ only
/// in the case of their letters parse to the same locale.
pub proof fn lemma_parse_ignores_case(s: Seq<char>, t: Seq<char>)
    requires
        spec_locale_text_valid(s),
        spec_locale_text_valid(t),
        ascii_lower(s[0]) == ascii_lower(t[0]),
        ascii_lower(s[1]) == ascii_lower(t[1]),
        ascii_lower(s[3]) == ascii_lower(t[3]),
        ascii_lower(s[4]) == ascii_lower(t[4]),
    ensures
        is_ascii_lower(spec_locale_text_chars(s)[0]),
        is_ascii_lower(spec_locale_text_chars(s)[1]),
        is_ascii_upper(spec_locale_text_chars(s)[2]),
        is_ascii_upper(spec_locale_text_chars(s)[3]),
        spec_locale_text_chars(s) == spec_locale_text_chars(t),
{
    lemma_ascii_case(s[0]);
    lemma_ascii_case(s[1]);
    lemma_ascii_case(s[3]);
    lemma_ascii_case(s[4]);
    lemma_upper_of_same_letter(s[3], t[3]);
    lemma_upper_of_same_letter(s[4], t[4]);
    assert(spec_locale_text_chars(s) =~= spec_locale_text_chars(t));
}

/// Two letters with the same lowercase form have the same uppercase form.
proof fn lemma_upper_of_same_letter(a: char, b: char)
    requires
        is_ascii_alpha(a),
        is_ascii_alpha(b),
        ascii_lower(a) == ascii_lower(b),
    ensures
        ascii_upper(a) == ascii_upper(b),
{
    assert((a as u32) < 0x80 && (b as u32) < 0x80);
}

} // verus!
