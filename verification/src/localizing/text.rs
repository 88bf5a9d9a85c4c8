//! Translated text, borrowed and owned.

use vstd::prelude::*;

use crate::localizing::locale::Locale;

verus! {

/// The mathematical content of a text: which way it was found and its characters.
pub ghost enum TextView {
    /// The text was present within the initial map.
    Present(Seq<char>),
    /// The text was present within a parent map.
    Inherit(Locale, Seq<char>),
    /// The text was not present; its category and key are kept.
    Missing(Seq<char>, Seq<char>),
}

/// The choice made by `or`: the text with the most highly-defined value.
pub open spec fn spec_text_or(this: TextView, other: TextView) -> TextView {
    match this {
        TextView::Inherit(..) => if other is Present { other } else { this },
        TextView::Missing(..) => if !(other is Missing) { other } else { this },
        TextView::Present(..) => this,
    }
}

/// The characters a text displays: its value, or `category::key` when missing.
pub open spec fn spec_text_display(t: TextView) -> Seq<char> {
    match t {
        TextView::Present(v) => v,
        TextView::Inherit(_, v) => v,
        TextView::Missing(c, k) => c + seq![':', ':'] + k,
    }
}

/// Returns `category::key`.
fn missing_text(category: &str, key: &str) -> (r: String)
    ensures
        r@ == category@ + seq![':', ':'] + key@,
{
    let mut s = category.to_owned();
    s.push(':');
    s.push(':');
    s.append(key);
    s
}

/// A borrowed translated text.
#[derive(Clone, Copy, Debug, Hash, PartialEq, Eq)]
pub enum TextRef<'tx: 'fc, 'fc> {
    /// The text was present within the initial map.
    Present(&'tx str),
    /// The text was present within a parent map.
    Inherit(Locale, &'tx str),
    /// The text was not present.
    Missing(&'fc str, &'fc str),
}

impl<'tx: 'fc, 'fc> View for TextRef<'tx, 'fc> {
    type V = TextView;

    open spec fn view(&self) -> TextView {
        match self {
            TextRef::Present(v) => TextView::Present(v@),
            TextRef::Inherit(l, v) => TextView::Inherit(*l, v@),
            TextRef::Missing(c, k) => TextView::Missing(c@, k@),
        }
    }
}

impl<'tx: 'fc, 'fc> TextRef<'tx, 'fc> {
    /// Returns `true` if the text ref is [`TextRef::Present`].
    pub fn is_present(&self) -> (r: bool)
        ensures
            r == (self is Present),
    {
        matches!(self, TextRef::Present(..))
    }

    /// Returns `true` if the text ref is [`TextRef::Inherit`].
    pub fn is_inherit(&self) -> (r: bool)
        ensures
            r == (self is Inherit),
    {
        matches!(self, TextRef::Inherit(..))
    }

    /// Returns `true` if the text ref is [`TextRef::Missing`].
    pub fn is_missing(&self) -> (r: bool)
        ensures
            r == (self is Missing),
    {
        matches!(self, TextRef::Missing(..))
    }

    /// Returns the translation with the most 'highly-defined' value.
    ///
    /// If this is [`TextRef::Inherit`], then this function returns `other` if `other` is [`TextRef::Present`].
    /// If this is [`TextRef::Missing`], then this function returns `other` if `other` is not [`TextRef::Missing`].
    /// In all other cases, this value is returned.
    pub fn or(self, other: TextRef<'tx, 'fc>) -> (r: TextRef<'tx, 'fc>)
        ensures
            r == (if (self is Inherit && other is Present) || (self is Missing && !(other is Missing)) {
                other
            } else {
                self
            }),
            r@ == spec_text_or(self@, other@),
    {
        match self {
            TextRef::Inherit(..) => if other.is_present() { other } else { self },
            TextRef::Missing(..) => if !other.is_missing() { other } else { self },
            TextRef::Present(..) => self,
        }
    }

    /// Returns the translation with the most 'highly-defined' value, only calling the given
    /// function if necessary.
    pub fn or_else<F: FnOnce() -> TextRef<'tx, 'fc>>(self, f: F) -> (r: TextRef<'tx, 'fc>)
        requires
            !(self is Present) ==> f.requires(()),
        ensures
            self is Present ==> r == self,
            !(self is Present) ==> exists|o: TextRef<'tx, 'fc>|
                f.ensures((), o) && r == (if (self is Inherit && o is Present) || (self is Missing && !(o is Missing)) {
                    o
                } else {
                    self
                }) && r@ == spec_text_or(self@, o@),
    {
        match self {
            TextRef::Inherit(..) | TextRef::Missing(..) => {
                let other = f();
                self.or(other)
            },
            TextRef::Present(_) => self,
        }
    }

    /// Returns an owned version of this [`TextRef`].
    pub fn into_owned(self) -> (r: Text)
        ensures
            r@ == self@,
    {
        match self {
            TextRef::Present(t) => Text::Present(t.to_owned()),
            TextRef::Inherit(l, t) => Text::Inherit(l, t.to_owned()),
            TextRef::Missing(c, k) => Text::Missing(c.to_owned(), k.to_owned()),
        }
    }

    /// Returns the characters this text displays: its value, or `category::key` when missing.
    pub fn to_display_string(&self) -> (r: String)
        ensures
            r@ == spec_text_display(self@),
    {
        match self {
            TextRef::Present(t) => (*t).to_owned(),
            TextRef::Inherit(_, t) => (*t).to_owned(),
            TextRef::Missing(c, k) => missing_text(*c, *k),
        }
    }
}

/// An owned translated text.
#[derive(Clone, Debug, Hash, PartialEq, Eq)]
pub enum Text {
    /// The text was present within the initial map.
    Present(String),
    /// The text was present within a parent map.
    Inherit(Locale, String),
    /// The text was not present.
    Missing(String, String),
}

impl View for Text {
    type V = TextView;

    open spec fn view(&self) -> TextView {
        match self {
            Text::Present(v) => TextView::Present(v@),
            Text::Inherit(l, v) => TextView::Inherit(*l, v@),
            Text::Missing(c, k) => TextView::Missing(c@, k@),
        }
    }
}

impl Text {
    /// Returns `true` if the text is [`Text::Present`].
    pub fn is_present(&self) -> (r: bool)
        ensures
            r == (self is Present),
    {
        matches!(self, Text::Present(..))
    }

    /// Returns `true` if the text is [`Text::Inherit`].
    pub fn is_inherit(&self) -> (r: bool)
        ensures
            r == (self is Inherit),
    {
        matches!(self, Text::Inherit(..))
    }

    /// Returns `true` if the text is [`Text::Missing`].
    pub fn is_missing(&self) -> (r: bool)
        ensures
            r == (self is Missing),
    {
        matches!(self, Text::Missing(..))
    }

    /// Converts this text into one holding new strings of the same content.
    pub fn cast_inner(self) -> (r: Text)
        ensures
            r@ == self@,
    {
        match self {
            Text::Present(t) => Text::Present(t.as_str().to_owned()),
            Text::Inherit(l, t) => Text::Inherit(l, t.as_str().to_owned()),
            Text::Missing(c, k) => Text::Missing(c.as_str().to_owned(), k.as_str().to_owned()),
        }
    }

    /// Returns the translation with the most 'highly-defined' value.
    ///
    /// If this is [`Text::Inherit`], then this function returns `other` if `other` is [`Text::Present`].
    /// If this is [`Text::Missing`], then this function returns `other` if `other` is not [`Text::Missing`].
    /// In all other cases, this value is returned.
    pub fn or(self, other: Text) -> (r: Text)
        ensures
            r == (if (self is Inherit && other is Present) || (self is Missing && !(other is Missing)) {
                other
            } else {
                self
            }),
            r@ == spec_text_or(self@, other@),
    {
        match self {
            Text::Inherit(..) => if other.is_present() { other } else { self },
            Text::Missing(..) => if !other.is_missing() { other } else { self },
            Text::Present(..) => self,
        }
    }

    /// Returns the translation with the most 'highly-defined' value, only calling the given
    /// function if necessary.
    pub fn or_else<F: FnOnce() -> Text>(self, f: F) -> (r: Text)
        requires
            !(self is Present) ==> f.requires(()),
        ensures
            self is Present ==> r == self,
            !(self is Present) ==> exists|o: Text|
                f.ensures((), o) && r == (if (self is Inherit && o is Present) || (self is Missing && !(o is Missing)) {
                    o
                } else {
                    self
                }) && r@ == spec_text_or(self@, o@),
    {
        match self {
            Text::Inherit(..) | Text::Missing(..) => {
                let other = f();
                self.or(other)
            },
            Text::Present(_) => self,
        }
    }

    /// Returns a borrowed version of this [`Text`].
    pub fn as_borrowed(&self) -> (r: TextRef<'_, '_>)
        ensures
            r@ == self@,
    {
        match self {
            Text::Present(t) => TextRef::Present(t.as_str()),
            Text::Inherit(l, t) => TextRef::Inherit(*l, t.as_str()),
            Text::Missing(c, k) => TextRef::Missing(c.as_str(), k.as_str()),
        }
    }

    /// Returns the characters this text displays: its value, or `category::key` when missing.
    pub fn to_display_string(&self) -> (r: String)
        ensures
            r@ == spec_text_display(self@),
    {
        self.as_borrowed().to_display_string()
    }
}

} // verus!
