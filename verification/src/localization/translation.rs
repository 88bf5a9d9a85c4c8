use vstd::prelude::*;

use crate::localization::locale::Locale;

verus! {

/// The mathematical content of a translation: which way it was found and its text.
pub ghost enum TranslationView {
    /// The key is present in the initial map.
    Present(Seq<char>),
    /// The key is present in an inherited map.
    Inherit(Locale, Seq<char>),
    /// The key is missing; its category and key are kept.
    Missing(Seq<char>, Seq<char>),
}

/// The choice made by `or`: the translation with the most highly-defined presence.
pub open spec fn spec_or(this: TranslationView, other: TranslationView) -> TranslationView {
    match this {
        TranslationView::Missing(..) => other,
        TranslationView::Inherit(..) => if other is Present { other } else { this },
        TranslationView::Present(..) => this,
    }
}

/// How highly defined a translation's presence is: missing, then inherited, then present.
pub open spec fn presence_rank(t: TranslationView) -> int {
    match t {
        TranslationView::Missing(..) => 0,
        TranslationView::Inherit(..) => 1,
        TranslationView::Present(..) => 2,
    }
}

/// `or` returns one of its two translations, the one with the most highly-defined presence; of
/// two that are equally defined, it keeps the first unless both are missing.
pub proof fn lemma_or_most_defined(a: TranslationView, b: TranslationView)
    ensures
        spec_or(a, b) == a || spec_or(a, b) == b,
        presence_rank(spec_or(a, b)) == if presence_rank(a) >= presence_rank(b) {
            presence_rank(a)
        } else {
            presence_rank(b)
        },
        presence_rank(a) > presence_rank(b) ==> spec_or(a, b) == a,
        presence_rank(b) > presence_rank(a) ==> spec_or(a, b) == b,
        presence_rank(a) == presence_rank(b) && !(a is Missing) ==> spec_or(a, b) == a,
{
}

/// Choosing with `or` does not depend on how a chain of choices is grouped.
pub proof fn lemma_or_associative(a: TranslationView, b: TranslationView, c: TranslationView)
    ensures
        spec_or(spec_or(a, b), c) == spec_or(a, spec_or(b, c)),
{
}

/// The text a translation displays: its value, or `category::key` when missing.
pub open spec fn spec_display(t: TranslationView) -> Seq<char> {
    match t {
        TranslationView::Present(v) => v,
        TranslationView::Inherit(_, v) => v,
        TranslationView::Missing(c, k) => c + seq![':', ':'] + k,
    }
}

/// An owned translation.
#[derive(Clone, Debug, Hash, PartialEq, Eq)]
pub enum OwnedTranslation {
    /// The key is present in the initial map.
    Present(String),
    /// The key is present in an inherited map.
    Inherit(Locale, String),
    /// The key is missing and was returned.
    Missing(String, String),
}

impl View for OwnedTranslation {
    type V = TranslationView;

    open spec fn view(&self) -> TranslationView {
        match self {
            OwnedTranslation::Present(v) => TranslationView::Present(v@),
            OwnedTranslation::Inherit(l, v) => TranslationView::Inherit(*l, v@),
            OwnedTranslation::Missing(c, k) => TranslationView::Missing(c@, k@),
        }
    }
}

/// Appends the characters of `text` to `s`.
fn push_str(s: &mut String, text: &str)
    ensures
        final(s)@ == old(s)@ + text@,
{
    let n = text.unicode_len();
    let mut i: usize = 0;
    let ghost start = s@;
    while i < n
        invariant
            n == text@.len(),
            i <= n,
            s@ == start + text@.subrange(0, i as int),
        decreases n - i,
    {
        let c = text.get_char(i);
        s.push(c);
        assert(text@.subrange(0, i + 1) =~= text@.subrange(0, i as int).push(c));
        i = i + 1;
    }
    assert(text@.subrange(0, n as int) =~= text@);
}

/// Returns the text shown for a found value, or for a missing category and key.
fn display_text(present: Option<&str>, category: &str, key: &str) -> (r: String)
    ensures
        present matches Some(v) ==> r@ == v@,
        present is None ==> r@ == category@ + seq![':', ':'] + key@,
{
    match present {
        Some(v) => v.to_owned(),
        None => {
            let mut s = String::new();
            push_str(&mut s, category);
            s.push(':');
            s.push(':');
            push_str(&mut s, key);
            assert(s@ =~= category@ + seq![':', ':'] + key@);
            s
        },
    }
}

impl OwnedTranslation {
    /// Returns whether this [`OwnedTranslation`] is [`OwnedTranslation::Present`].
    pub fn is_present(&self) -> (r: bool)
        ensures
            r == (self is Present),
    {
        matches!(self, OwnedTranslation::Present(..))
    }

    /// Returns whether this [`OwnedTranslation`] is [`OwnedTranslation::Inherit`].
    pub fn is_inherit(&self) -> (r: bool)
        ensures
            r == (self is Inherit),
    {
        matches!(self, OwnedTranslation::Inherit(..))
    }

    /// Returns whether this [`OwnedTranslation`] is [`OwnedTranslation::Missing`].
    pub fn is_missing(&self) -> (r: bool)
        ensures
            r == (self is Missing),
    {
        matches!(self, OwnedTranslation::Missing(..))
    }

    /// Converts this translation into one holding new text of the same content.
    pub fn cast(self) -> (r: OwnedTranslation)
        ensures
            r@ == self@,
    {
        match self {
            OwnedTranslation::Present(v) => OwnedTranslation::Present(v.as_str().to_owned()),
            OwnedTranslation::Inherit(l, v) => OwnedTranslation::Inherit(l, v.as_str().to_owned()),
            OwnedTranslation::Missing(c, k) => OwnedTranslation::Missing(
                c.as_str().to_owned(),
                k.as_str().to_owned(),
            ),
        }
    }

    /// Returns the translation with the most highly-defined 'presence'.
    ///
    /// If this is [`OwnedTranslation::Present`], this is always returned.
    /// If this is [`OwnedTranslation::Missing`], `other` is always returned.
    /// If this is [`OwnedTranslation::Inherit`], `other` will be returned if it is [`OwnedTranslation::Present`].
    pub fn or(self, other: OwnedTranslation) -> (r: OwnedTranslation)
        ensures
            r == (if self is Missing || (self is Inherit && other is Present) { other } else { self }),
            r@ == spec_or(self@, other@),
    {
        match self {
            OwnedTranslation::Missing(..) => other,
            OwnedTranslation::Inherit(..) => if other.is_present() { other } else { self },
            OwnedTranslation::Present(..) => self,
        }
    }

    /// Returns the translation with the most highly-defined 'presence', evaluating `f` only when
    /// it is needed to decide.
    pub fn or_else<F: FnOnce() -> OwnedTranslation>(self, f: F) -> (r: OwnedTranslation)
        requires
            !(self is Present) ==> f.requires(()),
        ensures
            self is Present ==> r == self,
            self is Missing ==> f.ensures((), r),
            self is Inherit ==> exists|o: OwnedTranslation|
                f.ensures((), o) && r == (if o is Present { o } else { self }),
            !(self is Present) ==> exists|o: OwnedTranslation|
                f.ensures((), o) && r == (if self is Missing || (self is Inherit && o is Present) {
                    o
                } else {
                    self
                }) && r@ == spec_or(self@, o@),
    {
        match self {
            OwnedTranslation::Present(_) => self,
            OwnedTranslation::Missing(..) => {
                let other = f();
                assert(other@ == spec_or(self@, other@));
                other
            },
            OwnedTranslation::Inherit(..) => {
                let other = f();
                assert(spec_or(self@, other@) == (if other is Present { other@ } else { self@ }));
                if other.is_present() { other } else { self }
            },
        }
    }

    /// Returns a borrow of this [`OwnedTranslation`].
    pub fn as_borrowed(&self) -> (r: Translation<'_, '_>)
        ensures
            r@ == self@,
    {
        match self {
            OwnedTranslation::Present(v) => Translation::Present(v.as_str()),
            OwnedTranslation::Inherit(l, v) => Translation::Inherit(*l, v.as_str()),
            OwnedTranslation::Missing(c, k) => Translation::Missing(c.as_str(), k.as_str()),
        }
    }

    /// Returns the text this translation displays: its value, or `category::key` when missing.
    pub fn to_display_string(&self) -> (r: String)
        ensures
            r@ == spec_display(self@),
    {
        match self {
            OwnedTranslation::Present(v) => display_text(Some(v.as_str()), "", ""),
            OwnedTranslation::Inherit(_, v) => display_text(Some(v.as_str()), "", ""),
            OwnedTranslation::Missing(c, k) => display_text(None, c.as_str(), k.as_str()),
        }
    }
}

/// A borrowed translation.
#[derive(Clone, Copy, Debug, Hash, PartialEq, Eq)]
pub enum Translation<'lc: 'ag, 'ag> {
    /// The key is present in the initial map.
    Present(&'lc str),
    /// The key is present in an inherited map.
    Inherit(Locale, &'lc str),
    /// The key is missing and was returned.
    Missing(&'ag str, &'ag str),
}

impl<'lc: 'ag, 'ag> View for Translation<'lc, 'ag> {
    type V = TranslationView;

    open spec fn view(&self) -> TranslationView {
        match self {
            Translation::Present(v) => TranslationView::Present(v@),
            Translation::Inherit(l, v) => TranslationView::Inherit(*l, v@),
            Translation::Missing(c, k) => TranslationView::Missing(c@, k@),
        }
    }
}

impl<'lc: 'ag, 'ag> Translation<'lc, 'ag> {
    /// Returns whether this [`Translation`] is [`Translation::Present`].
    pub fn is_present(&self) -> (r: bool)
        ensures
            r == (self is Present),
    {
        matches!(self, Translation::Present(..))
    }

    /// Returns whether this [`Translation`] is [`Translation::Inherit`].
    pub fn is_inherit(&self) -> (r: bool)
        ensures
            r == (self is Inherit),
    {
        matches!(self, Translation::Inherit(..))
    }

    /// Returns whether this [`Translation`] is [`Translation::Missing`].
    pub fn is_missing(&self) -> (r: bool)
        ensures
            r == (self is Missing),
    {
        matches!(self, Translation::Missing(..))
    }

    /// Returns the translation with the most highly-defined 'presence'.
    ///
    /// If this is [`Translation::Present`], this is always returned.
    /// If this is [`Translation::Missing`], `other` is always returned.
    /// If this is [`Translation::Inherit`], `other` will be returned if it is [`Translation::Present`].
    pub fn or(self, other: Translation<'lc, 'ag>) -> (r: Translation<'lc, 'ag>)
        ensures
            r == (if self is Missing || (self is Inherit && other is Present) { other } else { self }),
            r@ == spec_or(self@, other@),
    {
        match self {
            Translation::Missing(..) => other,
            Translation::Inherit(..) => if other.is_present() { other } else { self },
            Translation::Present(..) => self,
        }
    }

    /// Returns the translation with the most highly-defined 'presence', evaluating `f` only when
    /// it is needed to decide.
    pub fn or_else<F: FnOnce() -> Translation<'lc, 'ag>>(self, f: F) -> (r: Translation<'lc, 'ag>)
        requires
            !(self is Present) ==> f.requires(()),
        ensures
            self is Present ==> r == self,
            self is Missing ==> f.ensures((), r),
            self is Inherit ==> exists|o: Translation<'lc, 'ag>|
                f.ensures((), o) && r == (if o is Present { o } else { self }),
            !(self is Present) ==> exists|o: Translation<'lc, 'ag>|
                f.ensures((), o) && r == (if self is Missing || (self is Inherit && o is Present) {
                    o
                } else {
                    self
                }) && r@ == spec_or(self@, o@),
    {
        match self {
            Translation::Present(_) => self,
            Translation::Missing(..) => {
                let other = f();
                assert(other@ == spec_or(self@, other@));
                other
            },
            Translation::Inherit(..) => {
                let other = f();
                assert(spec_or(self@, other@) == (if other is Present { other@ } else { self@ }));
                if other.is_present() { other } else { self }
            },
        }
    }

    /// Returns an owned version of this [`Translation`].
    pub fn as_owned(&self) -> (r: OwnedTranslation)
        ensures
            r@ == self@,
    {
        match self {
            Translation::Present(v) => OwnedTranslation::Present((*v).to_owned()),
            Translation::Inherit(l, v) => OwnedTranslation::Inherit(*l, (*v).to_owned()),
            Translation::Missing(c, k) => OwnedTranslation::Missing((*c).to_owned(), (*k).to_owned()),
        }
    }

    /// Returns the text this translation displays: its value, or `category::key` when missing.
    pub fn to_display_string(&self) -> (r: String)
        ensures
            r@ == spec_display(self@),
    {
        match self {
            Translation::Present(v) => display_text(Some(*v), "", ""),
            Translation::Inherit(_, v) => display_text(Some(*v), "", ""),
            Translation::Missing(c, k) => display_text(None, *c, *k),
        }
    }
}

} // verus!
