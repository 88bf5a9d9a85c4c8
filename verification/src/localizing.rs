//! Localization with language codes, territory codes and bounded inheritance between languages.

use vstd::prelude::*;

use crate::localizing::locale::{Locale, LocaleError, LocaleErrorView};
use crate::localizing::settings::{spec_missing, MissingBehavior, Settings};
use crate::localizing::text::{Text, TextRef, TextView};
use crate::lookup::{
    find_key, first_at, first_lookup, keys_of, keys_unique, lemma_first_lookup_at, lemma_first_lookup_contains,
    lemma_keys_no_duplicates, lemma_first_lookup_none, lemma_first_lookup_push,
    lemma_first_lookup_set, lemma_lookup_at, lemma_lookup_none, lookup,
};

pub mod ascii;
pub mod locale;
pub mod settings;
pub mod text;

verus! {

/// An error that may be returned when using the localizer.
#[derive(Clone, Debug)]
pub enum LocalizingError {
    /// A locale-specific error.
    Locale(LocaleError),
    /// The configured directory is missing.
    MissingDir(String),
    /// A file is missing for the given locale.
    MissingFile(Locale),
    /// A missing or invalid text was requested: its category and key.
    MissingText(String, String),
    /// A locale was missing.
    MissingLocale,
    /// A [`Language::get_recursive`] call exceeded its specified limit.
    RecursionLimit,
}

/// The mathematical content of an [`LocalizingError`].
pub ghost enum ErrorView {
    Locale(LocaleErrorView),
    MissingDir(Seq<char>),
    MissingFile(Locale),
    MissingText(Seq<char>, Seq<char>),
    MissingLocale,
    RecursionLimit,
}

impl View for LocalizingError {
    type V = ErrorView;

    open spec fn view(&self) -> ErrorView {
        match self {
            LocalizingError::Locale(e) => ErrorView::Locale(e@),
            LocalizingError::MissingDir(d) => ErrorView::MissingDir(d@),
            LocalizingError::MissingFile(l) => ErrorView::MissingFile(*l),
            LocalizingError::MissingText(c, k) => ErrorView::MissingText(c@, k@),
            LocalizingError::MissingLocale => ErrorView::MissingLocale,
            LocalizingError::RecursionLimit => ErrorView::RecursionLimit,
        }
    }
}

/// The view of a text result.
pub open spec fn text_result_view(r: Result<TextRef<'_, '_>, LocalizingError>) -> Result<TextView, ErrorView> {
    match r {
        Ok(t) => Ok(t@),
        Err(e) => Err(e@),
    }
}

/// Returns the first position of `locale` among the keys of `entries`.
pub fn find_locale<V>(entries: &Vec<(Locale, V)>, locale: &Locale) -> (r: Option<usize>)
    ensures
        match r {
            Some(i) => first_at(entries@, *locale, i as int),
            None => forall|i: int| 0 <= i < entries@.len() ==> (#[trigger] entries@[i]).0 != *locale,
        },
{
    let mut i: usize = 0;
    while i < entries.len()
        invariant
            i <= entries.len(),
            forall|j: int| 0 <= j < i ==> (#[trigger] entries@[j]).0 != *locale,
        decreases entries.len() - i,
    {
        if entries[i].0.equals(locale) {
            return Some(i);
        }
        i = i + 1;
    }
    None
}

/// Returns whether `locale` is one of `locales`.
fn contains_locale(locales: &Vec<Locale>, locale: &Locale) -> (r: bool)
    ensures
        r == locales@.contains(*locale),
{
    let mut i: usize = 0;
    while i < locales.len()
        invariant
            i <= locales.len(),
            forall|j: int| 0 <= j < i ==> locales@[j] != *locale,
        decreases locales.len() - i,
    {
        if locales[i].equals(locale) {
            return true;
        }
        i = i + 1;
    }
    false
}

/// Defines and stores the contents of a language file.
#[derive(Clone, Debug, PartialEq, Eq)]
pub struct Language {
    /// The locale that this language inherits from.
    pub inherit: Option<Locale>,
    /// The language's defined text categories, each with its keys and their text.
    ///
    /// The tables are lists searched for the first entry of a name: Verus proves nothing of a std
    /// map keyed by `String`, and the field is public, as the file's shape is, so it carries no
    /// invariant. A language file never names a category or a key twice, since such a file does
    /// not parse; a list built by hand with a name twice answers with its first entry.
    pub categories: Vec<(String, Vec<(String, String)>)>,
}

/// The text written for `key` in `category` within the language file itself.
pub open spec fn spec_language_text(language: Language, category: Seq<char>, key: Seq<char>) -> Option<
    Seq<char>,
> {
    match lookup(language.categories@, category) {
        Some(map) => match lookup(map@, key) {
            Some(v) => Some(v@),
            None => None,
        },
        None => None,
    }
}

/// What `Language::get` answers.
pub open spec fn spec_language_get(
    language: Language,
    category: Seq<char>,
    key: Seq<char>,
    behavior: MissingBehavior,
) -> Result<TextView, ErrorView> {
    match spec_language_text(language, category, key) {
        Some(v) => Ok(TextView::Present(v)),
        None => spec_missing(behavior, category, key),
    }
}

/// What `Language::get_recursive` answers when it may follow `max_depth` language files.
pub open spec fn spec_get_recursive(
    language: Language,
    category: Seq<char>,
    key: Seq<char>,
    behavior: MissingBehavior,
    languages: Seq<(Locale, Language)>,
    max_depth: nat,
) -> Result<TextView, ErrorView>
    decreases max_depth,
{
    if max_depth == 0 {
        match behavior {
            MissingBehavior::Return => Ok(TextView::Missing(category, key)),
            MissingBehavior::Error => Err(ErrorView::RecursionLimit),
        }
    } else {
        match spec_language_text(language, category, key) {
            Some(v) => Ok(TextView::Present(v)),
            None => match language.inherit {
                None => spec_missing(behavior, category, key),
                Some(locale) => match first_lookup(languages, locale) {
                    None => spec_missing(behavior, category, key),
                    Some(parent) => match spec_get_recursive(
                        parent,
                        category,
                        key,
                        behavior,
                        languages,
                        (max_depth - 1) as nat,
                    ) {
                        Ok(TextView::Present(v)) => Ok(TextView::Inherit(locale, v)),
                        other => other,
                    },
                },
            },
        }
    }
}

impl Language {
    /// The default amount of depth at which to search for a key before giving up.
    pub const DEFAULT_MAX_DEPTH: usize = 4;

    /// Returns the text written for `key` in `category` within this language file.
    fn text<'tx>(&'tx self, category: &str, key: &str) -> (r: Option<&'tx str>)
        ensures
            match r {
                Some(v) => spec_language_text(*self, category@, key@) == Some(v@),
                None => spec_language_text(*self, category@, key@) is None,
            },
    {
        match find_key(&self.categories, category) {
            None => {
                proof {
                    lemma_lookup_none(self.categories@, category@);
                }
                None
            },
            Some(ci) => {
                proof {
                    lemma_lookup_at(self.categories@, category@, ci as int);
                }
                let map = &self.categories[ci].1;
                match find_key(map, key) {
                    None => {
                        proof {
                            lemma_lookup_none(map@, key@);
                        }
                        None
                    },
                    Some(ki) => {
                        proof {
                            lemma_lookup_at(map@, key@, ki as int);
                        }
                        Some(map[ki].1.as_str())
                    },
                }
            },
        }
    }

    /// Returns the text for a key within the given category as written within this language file.
    ///
    /// # Errors
    ///
    /// This function will return an error if the text is not present and the behavior specifies to return an error.
    pub fn get<'tx: 'fc, 'fc>(&'tx self, category: &'fc str, key: &'fc str, behavior: MissingBehavior) -> (r:
        Result<TextRef<'tx, 'fc>, LocalizingError>)
        ensures
            text_result_view(r) == spec_language_get(*self, category@, key@, behavior),
    {
        match self.text(category, key) {
            Some(s) => Ok(TextRef::Present(s)),
            None => behavior.call_ref(category, key),
        }
    }

    /// Returns the text for a key within the given category as written within this or a parent language file.
    ///
    /// # Errors
    ///
    /// This function will return an error if the text is not present and the behavior specifies to return an error.
    pub fn get_recursive<'tx: 'fc, 'fc>(
        &'tx self,
        category: &'fc str,
        key: &'fc str,
        behavior: MissingBehavior,
        languages: &'tx Vec<(Locale, Language)>,
        max_depth: usize,
    ) -> (r: Result<TextRef<'tx, 'fc>, LocalizingError>)
        ensures
            text_result_view(r) == spec_get_recursive(
                *self,
                category@,
                key@,
                behavior,
                languages@,
                max_depth as nat,
            ),
        decreases max_depth,
    {
        if max_depth == 0 {
            return match behavior {
                MissingBehavior::Return => Ok(TextRef::Missing(category, key)),
                MissingBehavior::Error => Err(LocalizingError::RecursionLimit),
            };
        }
        let text = self.get(category, key, behavior);
        if let Ok(TextRef::Present(_)) = text {
            return text;
        }
        let locale = match self.inherit {
            None => {
                return text;
            },
            Some(locale) => locale,
        };
        let parent = match find_locale(languages, &locale) {
            None => {
                proof {
                    lemma_first_lookup_none(languages@, locale);
                }
                return text;
            },
            Some(i) => {
                proof {
                    lemma_first_lookup_at(languages@, locale, i as int);
                }
                &languages[i].1
            },
        };
        match parent.get_recursive(category, key, behavior, languages, max_depth - 1) {
            Ok(TextRef::Present(value)) => Ok(TextRef::Inherit(locale, value)),
            other => other,
        }
    }
}

/// A value that stores and retrieves translated text.
#[derive(Debug)]
pub struct Localizer {
    /// The localizer's settings.
    settings: Settings,
    /// The localizer's stored locales and their assigned language data.
    languages: Vec<(Locale, Language)>,
}

impl Clone for Localizer {
    /// Copies the localizer, with its locales loaded in the same order.
    fn clone(&self) -> (r: Localizer)
        ensures
            keys_of(r.spec_languages()) == keys_of(self.spec_languages()),
    {
        proof {
            use_type_invariant(self);
        }
        let mut languages: Vec<(Locale, Language)> = Vec::new();
        let mut i: usize = 0;
        while i < self.languages.len()
            invariant
                i <= self.languages@.len(),
                keys_unique(self.languages@),
                keys_of(languages@) == keys_of(self.languages@.subrange(0, i as int)),
            decreases self.languages@.len() - i,
        {
            let entry = (self.languages[i].0, self.languages[i].1.clone());
            let ghost before = languages@;
            languages.push(entry);
            assert(keys_of(languages@) =~= keys_of(before).push(self.languages@[i as int].0));
            assert(keys_of(self.languages@.subrange(0, i + 1)) =~= keys_of(
                self.languages@.subrange(0, i as int),
            ).push(self.languages@[i as int].0));
            i = i + 1;
        }
        assert(self.languages@.subrange(0, self.languages@.len() as int) =~= self.languages@);
        assert forall|a: int, b: int|
            0 <= a < languages@.len() && 0 <= b < languages@.len() && a != b implies (#[trigger] languages@[a]).0
            != (#[trigger] languages@[b]).0 by {
            assert(keys_of(languages@)[a] == languages@[a].0);
            assert(keys_of(languages@)[b] == languages@[b].0);
        }
        Localizer { settings: self.settings.clone(), languages }
    }
}

/// What the localizer answers for `key` in `category` under `locale`: a locale that is not loaded
/// falls back to the default locale once.
pub open spec fn spec_localizer_get(
    settings: Settings,
    languages: Seq<(Locale, Language)>,
    locale: Locale,
    category: Seq<char>,
    key: Seq<char>,
) -> Result<TextView, ErrorView> {
    let depth = settings.search_depth as nat;
    match first_lookup(languages, locale) {
        Some(language) => spec_get_recursive(language, category, key, settings.miss_behavior, languages, depth),
        None => if settings.default_locale == locale {
            spec_missing(settings.miss_behavior, category, key)
        } else {
            match first_lookup(languages, settings.default_locale) {
                Some(language) => spec_get_recursive(
                    language,
                    category,
                    key,
                    settings.miss_behavior,
                    languages,
                    depth,
                ),
                None => spec_missing(settings.miss_behavior, category, key),
            }
        },
    }
}

impl Localizer {
    /// No locale is loaded twice.
    #[verifier::type_invariant]
    closed spec fn well_formed(self) -> bool {
        keys_unique(self.languages@)
    }

    /// The localizer's settings.
    pub closed spec fn spec_settings(&self) -> Settings {
        self.settings
    }

    /// The localizer's loaded locales and their language data.
    pub closed spec fn spec_languages(&self) -> Seq<(Locale, Language)> {
        self.languages@
    }

    /// Creates a new [`Localizer`].
    pub fn new(settings: Settings) -> (r: Localizer)
        ensures
            r.spec_settings() == settings,
            r.spec_languages() == Seq::<(Locale, Language)>::empty(),
    {
        Localizer { settings, languages: Vec::new() }
    }

    /// Returns the localizer's settings.
    pub fn settings(&self) -> (r: &Settings)
        ensures
            *r == self.spec_settings(),
    {
        &self.settings
    }

    /// Returns the loaded locales of this [`Localizer`].
    pub fn locales(&self) -> (r: Vec<Locale>)
        ensures
            r@ == keys_of(self.spec_languages()),
            r@.no_duplicates(),
    {
        proof {
            use_type_invariant(self);
            lemma_keys_no_duplicates(self.languages@);
        }
        let mut out: Vec<Locale> = Vec::new();
        let mut i: usize = 0;
        while i < self.languages.len()
            invariant
                i <= self.languages@.len(),
                out@ == keys_of(self.languages@.subrange(0, i as int)),
            decreases self.languages@.len() - i,
        {
            out.push(self.languages[i].0);
            assert(self.languages@.subrange(0, i + 1) =~= self.languages@.subrange(0, i as int).push(
                self.languages@[i as int],
            ));
            i = i + 1;
        }
        assert(self.languages@.subrange(0, self.languages@.len() as int) =~= self.languages@);
        out
    }

    /// Returns whether this [`Localizer`] has loaded the given locale.
    pub fn has_locale(&self, locale: &Locale) -> (r: bool)
        ensures
            r == (first_lookup(self.spec_languages(), *locale) is Some),
            r == keys_of(self.spec_languages()).contains(*locale),
    {
        proof {
            lemma_first_lookup_contains(self.languages@, *locale);
        }
        match find_locale(&self.languages, locale) {
            Some(i) => {
                proof {
                    lemma_first_lookup_at(self.languages@, *locale, i as int);
                }
                true
            },
            None => {
                proof {
                    lemma_first_lookup_none(self.languages@, *locale);
                }
                false
            },
        }
    }

    /// Clears the specified locales if they have been loaded, clearing all locales if given [`None`].
    pub fn clear_locales(&mut self, locales: Option<Vec<Locale>>)
        ensures
            final(self).spec_settings() == old(self).spec_settings(),
            locales is None ==> final(self).spec_languages() == Seq::<(Locale, Language)>::empty(),
            locales matches Some(ls) ==> forall|l: Locale| #[trigger]
                first_lookup(final(self).spec_languages(), l) == if ls@.contains(l) {
                    None
                } else {
                    first_lookup(old(self).spec_languages(), l)
                },
    {
        match locales {
            None => {
                self.languages = Vec::new();
            },
            Some(ls) => {
                proof {
                    use_type_invariant(&*self);
                }
                let ghost start = self.languages@;
                let count = self.languages.len();
                assert(start.len() == count);
                let mut remaining: Vec<(Locale, Language)> = Vec::new();
                std::mem::swap(&mut remaining, &mut self.languages);
                let mut kept: Vec<(Locale, Language)> = Vec::new();
                let mut i: usize = 0;
                while remaining.len() > 0
                    invariant
                        i <= start.len(),
                        start.len() <= usize::MAX,
                        remaining@ == start.subrange(i as int, start.len() as int),
                        keys_unique(start),
                        keys_unique(kept@),
                        forall|a: int| 0 <= a < kept@.len() ==> exists|m: int| 0 <= m < i && #[trigger] kept@[a] == start[m],
                        forall|l: Locale| #[trigger]
                            first_lookup(kept@, l) == if ls@.contains(l) {
                                None
                            } else {
                                first_lookup(start.subrange(0, i as int), l)
                            },
                    decreases remaining@.len(),
                {
                    let ghost prefix = start.subrange(0, i as int);
                    let entry = remaining.remove(0);
                    assert(entry == start[i as int]);
                    assert(start.subrange(0, i + 1) =~= prefix.push(entry));
                    assert(remaining@ =~= start.subrange(i + 1, start.len() as int));
                    if !contains_locale(&ls, &entry.0) {
                        let ghost before = kept@;
                        kept.push(entry);
                        proof {
                            assert forall|a: int| 0 <= a < before.len() implies (#[trigger] kept@[a]).0 != entry.0 by {
                                assert(kept@[a] == before[a]);
                                let m = choose|m: int| 0 <= m < i && before[a] == start[m];
                                assert(start[m].0 != start[i as int].0);
                            }
                            assert forall|a: int| 0 <= a < kept@.len() implies exists|m: int|
                                0 <= m < i + 1 && #[trigger] kept@[a] == start[m] by {
                                if a < before.len() {
                                    assert(kept@[a] == before[a]);
                                    let m = choose|m: int| 0 <= m < i && before[a] == start[m];
                                    assert(0 <= m < i + 1 && kept@[a] == start[m]);
                                } else {
                                    assert(kept@[a] == start[i as int]);
                                }
                            }
                            assert forall|a: int, b: int|
                                0 <= a < kept@.len() && 0 <= b < kept@.len() && a != b implies (#[trigger] kept@[a]).0
                                != (#[trigger] kept@[b]).0 by {
                                if a < before.len() && b < before.len() {
                                    assert(kept@[a] == before[a] && kept@[b] == before[b]);
                                }
                            }
                            assert forall|l: Locale| #[trigger]
                                first_lookup(kept@, l) == if ls@.contains(l) {
                                    None
                                } else {
                                    first_lookup(start.subrange(0, i + 1), l)
                                } by {
                                lemma_first_lookup_push(before, entry, l);
                                lemma_first_lookup_push(prefix, entry, l);
                            }
                        }
                    } else {
                        proof {
                            assert forall|l: Locale| #[trigger]
                                first_lookup(kept@, l) == if ls@.contains(l) {
                                    None
                                } else {
                                    first_lookup(start.subrange(0, i + 1), l)
                                } by {
                                lemma_first_lookup_push(prefix, entry, l);
                            }
                        }
                    }
                    i = i + 1;
                }
                assert(start.subrange(0, start.len() as int) =~= start);
                self.languages = kept;
            },
        }
    }

    /// Stores the language data read for `locale`, replacing any loaded before.
    pub fn insert_language(&mut self, locale: Locale, language: Language)
        ensures
            final(self).spec_settings() == old(self).spec_settings(),
            forall|l: Locale| #[trigger]
                first_lookup(final(self).spec_languages(), l) == if l == locale {
                    Some(language)
                } else {
                    first_lookup(old(self).spec_languages(), l)
                },
    {
        proof {
            use_type_invariant(&*self);
        }
        let mut languages: Vec<(Locale, Language)> = Vec::new();
        std::mem::swap(&mut languages, &mut self.languages);
        let ghost before = languages@;
        match find_locale(&languages, &locale) {
            Some(i) => {
                languages.set(i, (locale, language));
                proof {
                    assert forall|a: int| 0 <= a < languages@.len() implies (#[trigger] languages@[a]).0
                        == before[a].0 by {
                    }
                    assert forall|l: Locale| #[trigger]
                        first_lookup(languages@, l) == if l == locale {
                            Some(language)
                        } else {
                            first_lookup(before, l)
                        } by {
                        assert(languages@ == before.update(i as int, (before[i as int].0, language)));
                        lemma_first_lookup_set(before, i as int, language, l);
                    }
                }
            },
            None => {
                languages.push((locale, language));
                proof {
                    assert forall|a: int| 0 <= a < before.len() implies (#[trigger] languages@[a]) == before[a] by {
                    }
                    lemma_first_lookup_none(before, locale);
                    assert forall|l: Locale| #[trigger]
                        first_lookup(languages@, l) == if l == locale {
                            Some(language)
                        } else {
                            first_lookup(before, l)
                        } by {
                        lemma_first_lookup_push(before, (locale, language), l);
                    }
                }
            },
        }
        self.languages = languages;
    }

    /// Returns the translated text for the given key.
    ///
    /// # Errors
    ///
    /// This function will return an error if the text is not found and the configured behavior specifies to return an
    /// error.
    pub fn get<'tx: 'fc, 'fc>(&'tx self, locale: Locale, category: &'fc str, key: &'fc str) -> (r: Result<
        TextRef<'tx, 'fc>,
        LocalizingError,
    >)
        ensures
            text_result_view(r) == spec_localizer_get(
                self.spec_settings(),
                self.spec_languages(),
                locale,
                category@,
                key@,
            ),
    {
        let index = match find_locale(&self.languages, &locale) {
            Some(i) => {
                proof {
                    lemma_first_lookup_at(self.languages@, locale, i as int);
                }
                i
            },
            None => {
                proof {
                    lemma_first_lookup_none(self.languages@, locale);
                }
                if self.settings.default_locale.equals(&locale) {
                    return self.settings.miss_behavior.call_ref(category, key);
                }
                match find_locale(&self.languages, &self.settings.default_locale) {
                    Some(i) => {
                        proof {
                            lemma_first_lookup_at(self.languages@, self.settings.default_locale, i as int);
                        }
                        i
                    },
                    None => {
                        proof {
                            lemma_first_lookup_none(self.languages@, self.settings.default_locale);
                        }
                        return self.settings.miss_behavior.call_ref(category, key);
                    },
                }
            },
        };
        self.languages[index].1.get_recursive(
            category,
            key,
            self.settings.miss_behavior,
            &self.languages,
            self.settings.search_depth,
        )
    }
}


impl Localizer {
    /// Returns the translated text for the given key in the given locale, or in the default locale
    /// when none is given, as an owned value.
    ///
    /// # Errors
    ///
    /// This function will return an error if the text is not found and the configured behavior
    /// specifies to return an error.
    pub fn get_text(&self, locale: Option<Locale>, category: &str, key: &str) -> (r: Result<Text, LocalizingError>)
        ensures
            ({
                let l = match locale {
                    Some(l) => l,
                    None => self.spec_settings().default_locale,
                };
                match spec_localizer_get(self.spec_settings(), self.spec_languages(), l, category@, key@) {
                    Ok(t) => r matches Ok(x) && x@ == t,
                    Err(e) => r matches Err(x) && x@ == e,
                }
            }),
    {
        let l = match locale {
            Some(l) => l,
            None => self.settings.default_locale,
        };
        match self.get(l, category, key) {
            Ok(t) => Ok(t.into_owned()),
            Err(e) => Err(e),
        }
    }

    /// Returns whether every one of the given locales has been loaded.
    pub fn has_locales(&self, locales: &Vec<Locale>) -> (r: bool)
        ensures
            r == forall|i: int| 0 <= i < locales@.len() ==> (#[trigger] first_lookup(
                self.spec_languages(),
                locales@[i],
            )) is Some,
    {
        let mut i: usize = 0;
        while i < locales.len()
            invariant
                i <= locales@.len(),
                forall|j: int| 0 <= j < i ==> (#[trigger] first_lookup(self.spec_languages(), locales@[j])) is Some,
            decreases locales@.len() - i,
        {
            if !self.has_locale(&locales[i]) {
                return false;
            }
            i = i + 1;
        }
        true
    }
}

impl Localizer {
    /// Returns the keys of a category in the language file loaded for `locale`, in the order they
    /// were read, or `None` when the locale or the category is missing.
    pub fn keys(&self, locale: &Locale, category: &str) -> (r: Option<Vec<String>>)
        ensures
            match first_lookup(self.spec_languages(), *locale) {
                None => r is None,
                Some(language) => match lookup(language.categories@, category@) {
                    None => r is None,
                    Some(map) => r matches Some(ks) && ks@.map_values(|k: String| k@) == map@.map_values(
                        |p: (String, String)| p.0@,
                    ),
                },
            },
    {
        let index = match find_locale(&self.languages, locale) {
            None => {
                proof {
                    lemma_first_lookup_none(self.languages@, *locale);
                }
                return None;
            },
            Some(i) => {
                proof {
                    lemma_first_lookup_at(self.languages@, *locale, i as int);
                }
                i
            },
        };
        let language = &self.languages[index].1;
        let map = match find_key(&language.categories, category) {
            None => {
                proof {
                    lemma_lookup_none(language.categories@, category@);
                }
                return None;
            },
            Some(ci) => {
                proof {
                    lemma_lookup_at(language.categories@, category@, ci as int);
                }
                &language.categories[ci].1
            },
        };
        let mut out: Vec<String> = Vec::new();
        let mut i: usize = 0;
        while i < map.len()
            invariant
                i <= map@.len(),
                out@.map_values(|k: String| k@) == map@.subrange(0, i as int).map_values(
                    |p: (String, String)| p.0@,
                ),
            decreases map@.len() - i,
        {
            let key = map[i].0.as_str().to_owned();
            let ghost before = out@;
            out.push(key);
            assert(out@ =~= before.push(key));
            assert(out@.map_values(|k: String| k@) =~= before.map_values(|k: String| k@).push(key@));
            assert(map@.subrange(0, i + 1) =~= map@.subrange(0, i as int).push(map@[i as int]));
            i = i + 1;
        }
        assert(map@.subrange(0, map@.len() as int) =~= map@);
        Some(out)
    }
}

/// What a locale looks up to after each of `entries` was stored in turn, over `before`.
pub open spec fn lookup_after_inserts(
    before: Seq<(Locale, Language)>,
    entries: Seq<(Locale, Language)>,
    locale: Locale,
) -> Option<Language>
    decreases entries.len(),
{
    if entries.len() == 0 {
        first_lookup(before, locale)
    } else if entries.last().0 == locale {
        Some(entries.last().1)
    } else {
        lookup_after_inserts(before, entries.drop_last(), locale)
    }
}

/// A request handled by the localization thread.
#[derive(Clone, Debug)]
pub enum Request {
    /// Lists all loaded locales.
    List,
    /// Returns whether the localizer has the loaded locales.
    Has(Vec<Locale>),
    /// Clears the loaded locales, or the given locales if [`Some`] is contained within this variant.
    Clear(Option<Vec<Locale>>),
    /// Stores the language files read for each locale, in order.
    Load(Vec<(Locale, Language)>),
    /// Translates the given categorized key, in the given locale or the default one.
    Get(Option<Locale>, String, String),
    /// Returns a list of valid keys in the specified category.
    Keys(Option<Locale>, String),
}

/// A response sent back by the localization thread.
#[derive(Debug)]
pub enum Response {
    /// Acknowledges a request.
    Acknowledge,
    /// Fails a request.
    Error(LocalizingError),
    /// Lists locales.
    List(Vec<Locale>),
    /// Returns whether the locales were loaded.
    Has(bool),
    /// Returns the number of loaded locales.
    Load(usize),
    /// Returns translated text.
    Text(Text),
    /// Returns a list of keys.
    Keys(Vec<String>),
}

/// Answers one request of the localization thread.
pub fn run(localizer: &mut Localizer, request: Request) -> (r: Response)
    ensures
        final(localizer).spec_settings() == old(localizer).spec_settings(),
        !(request is Clear || request is Load) ==> final(localizer).spec_languages() == old(
            localizer,
        ).spec_languages(),
        match request {
            Request::List => r matches Response::List(ls) && ls@.no_duplicates() && ls@ == old(localizer).spec_languages().map_values(
                |p: (Locale, Language)| p.0,
            ),
            Request::Has(ls) => r == Response::Has(
                forall|i: int| 0 <= i < ls@.len() ==> (#[trigger] first_lookup(
                    old(localizer).spec_languages(),
                    ls@[i],
                )) is Some,
            ),
            Request::Clear(ls) => r is Acknowledge && (ls is None ==> final(localizer).spec_languages()
                == Seq::<(Locale, Language)>::empty()) && (ls matches Some(v) ==> forall|l: Locale| #[trigger]
                first_lookup(final(localizer).spec_languages(), l) == if v@.contains(l) {
                None
            } else {
                first_lookup(old(localizer).spec_languages(), l)
            }),
            Request::Load(entries) => {
                &&& r == Response::Load(entries@.len() as usize)
                &&& forall|l: Locale|
                    #[trigger] first_lookup(final(localizer).spec_languages(), l) == lookup_after_inserts(
                        old(localizer).spec_languages(),
                        entries@,
                        l,
                    )
                &&& forall|i: int|
                    0 <= i < entries@.len() && (forall|j: int| i < j < entries@.len() ==> entries@[j].0 != entries@[i].0)
                        ==> first_lookup(final(localizer).spec_languages(), (#[trigger] entries@[i]).0) == Some(
                        entries@[i].1,
                    )
                &&& forall|l: Locale|
                    (forall|j: int| 0 <= j < entries@.len() ==> (#[trigger] entries@[j]).0 != l) ==> first_lookup(
                        final(localizer).spec_languages(),
                        l,
                    ) == first_lookup(old(localizer).spec_languages(), l)
            },
            Request::Get(locale, category, key) => {
                let l = match locale {
                    Some(l) => l,
                    None => old(localizer).spec_settings().default_locale,
                };
                match spec_localizer_get(
                    old(localizer).spec_settings(),
                    old(localizer).spec_languages(),
                    l,
                    category@,
                    key@,
                ) {
                    Ok(t) => r matches Response::Text(x) && x@ == t,
                    Err(e) => r matches Response::Error(x) && x@ == e,
                }
            },
            Request::Keys(locale, category) => {
                let l = match locale {
                    Some(l) => l,
                    None => old(localizer).spec_settings().default_locale,
                };
                r matches Response::Keys(ks) && match first_lookup(old(localizer).spec_languages(), l) {
                    None => ks@.len() == 0,
                    Some(language) => match lookup(language.categories@, category@) {
                        None => ks@.len() == 0,
                        Some(map) => ks@.map_values(|k: String| k@) == map@.map_values(
                            |p: (String, String)| p.0@,
                        ),
                    },
                }
            },
        },
{
    match request {
        Request::List => Response::List(localizer.locales()),
        Request::Has(ls) => Response::Has(localizer.has_locales(&ls)),
        Request::Clear(ls) => {
            localizer.clear_locales(ls);
            Response::Acknowledge
        },
        Request::Load(entries) => {
            let ghost before = localizer.spec_languages();
            let ghost all = entries@;
            let count = entries.len();
            let mut rest = entries;
            let mut i: usize = 0;
            while rest.len() > 0
                invariant
                    i <= all.len(),
                    count == all.len(),
                    rest@ == all.subrange(i as int, all.len() as int),
                    localizer.spec_settings() == old(localizer).spec_settings(),
                    forall|l: Locale| #[trigger]
                        first_lookup(localizer.spec_languages(), l) == lookup_after_inserts(
                            before,
                            all.subrange(0, i as int),
                            l,
                        ),
                decreases rest@.len(),
            {
                let (locale, language) = rest.remove(0);
                proof {
                    assert(all[i as int] == (locale, language));
                    assert(all.subrange(0, i + 1).drop_last() =~= all.subrange(0, i as int));
                    assert(all.subrange(0, i + 1).last() == (locale, language));
                }
                localizer.insert_language(locale, language);
                assert(rest@ =~= all.subrange(i + 1, all.len() as int));
                i = i + 1;
            }
            assert(all.subrange(0, i as int) =~= all);
            proof {
                assert forall|k: int|
                    0 <= k < all.len() && (forall|j: int| k < j < all.len() ==> all[j].0 != all[k].0) implies first_lookup(
                    localizer.spec_languages(),
                    (#[trigger] all[k]).0,
                ) == Some(all[k].1) by {
                    lemma_load_last_entry_wins(before, all, k);
                }
                assert forall|l: Locale| (forall|j: int| 0 <= j < all.len() ==> (#[trigger] all[j]).0 != l) implies first_lookup(
                    localizer.spec_languages(),
                    l,
                ) == first_lookup(before, l) by {
                    lemma_load_keeps_others(before, all, l);
                }
            }
            Response::Load(count)
        },
        Request::Get(locale, category, key) => match localizer.get_text(locale, category.as_str(), key.as_str()) {
            Ok(text) => Response::Text(text),
            Err(error) => Response::Error(error),
        },
        Request::Keys(locale, category) => {
            let l = match locale {
                Some(l) => l,
                None => localizer.settings().default_locale,
            };
            match localizer.keys(&l, category.as_str()) {
                Some(ks) => Response::Keys(ks),
                None => Response::Keys(Vec::new()),
            }
        },
    }
}

/// A loaded locale whose language file defines a key answers that key's text as present, when the
/// configured search depth lets the search look at a file at all.
pub proof fn lemma_get_defined_text(
    settings: Settings,
    languages: Seq<(Locale, Language)>,
    locale: Locale,
    language: Language,
    category: Seq<char>,
    key: Seq<char>,
    text: Seq<char>,
)
    requires
        settings.search_depth >= 1,
        first_lookup(languages, locale) == Some(language),
        spec_language_text(language, category, key) == Some(text),
    ensures
        spec_localizer_get(settings, languages, locale, category, key) == Ok::<TextView, ErrorView>(
            TextView::Present(text),
        ),
{
}

/// A key that a loaded language file lacks is read from its loaded parent, marked with the
/// parent's locale, when the configured search depth reaches the parent.
pub proof fn lemma_get_parent_text(
    settings: Settings,
    languages: Seq<(Locale, Language)>,
    locale: Locale,
    language: Language,
    parent: Locale,
    parent_language: Language,
    category: Seq<char>,
    key: Seq<char>,
    text: Seq<char>,
)
    requires
        settings.search_depth >= 2,
        first_lookup(languages, locale) == Some(language),
        spec_language_text(language, category, key) is None,
        language.inherit == Some(parent),
        first_lookup(languages, parent) == Some(parent_language),
        spec_language_text(parent_language, category, key) == Some(text),
    ensures
        spec_localizer_get(settings, languages, locale, category, key) == Ok::<TextView, ErrorView>(
            TextView::Inherit(parent, text),
        ),
{
    let depth = settings.search_depth as nat;
    assert(spec_get_recursive(parent_language, category, key, settings.miss_behavior, languages, (depth - 1) as nat)
        == Ok::<TextView, ErrorView>(TextView::Present(text)));
}

/// A locale that is not loaded answers every key as the default locale does.
pub proof fn lemma_get_unloaded_falls_back(
    settings: Settings,
    languages: Seq<(Locale, Language)>,
    locale: Locale,
    category: Seq<char>,
    key: Seq<char>,
)
    requires
        first_lookup(languages, locale) is None,
    ensures
        spec_localizer_get(settings, languages, locale, category, key) == spec_localizer_get(
            settings,
            languages,
            settings.default_locale,
            category,
            key,
        ),
{
}

/// Searching parents only fails by the missing behavior: a missing result keeps the category and
/// key asked for and comes only under [`MissingBehavior::Return`], and an error is a missing text
/// for that category and key, or the search limit, and comes only under [`MissingBehavior::Error`].
pub proof fn lemma_recursive_misses(
    language: Language,
    category: Seq<char>,
    key: Seq<char>,
    behavior: MissingBehavior,
    languages: Seq<(Locale, Language)>,
    max_depth: nat,
)
    ensures
        spec_get_recursive(language, category, key, behavior, languages, max_depth) matches Ok(
            TextView::Missing(c, k),
        ) ==> (c == category && k == key && behavior == MissingBehavior::Return),
        spec_get_recursive(language, category, key, behavior, languages, max_depth) matches Err(e) ==> (
        behavior == MissingBehavior::Error && (e == ErrorView::MissingText(category, key) || e
            == ErrorView::RecursionLimit)),
    decreases max_depth,
{
    if max_depth > 0 {
        if let Some(parent) = language.inherit {
            if let Some(pl) = first_lookup(languages, parent) {
                lemma_recursive_misses(pl, category, key, behavior, languages, (max_depth - 1) as nat);
            }
        }
    }
}

/// Whether every loaded language file lacks `key` in `category` and names a loaded parent, so that
/// following parents never ends.
pub open spec fn parents_loop_without_key(
    languages: Seq<(Locale, Language)>,
    category: Seq<char>,
    key: Seq<char>,
) -> bool {
    forall|i: int|
        0 <= i < languages.len() ==> {
            &&& spec_language_text(#[trigger] languages[i].1, category, key) is None
            &&& languages[i].1.inherit matches Some(p) && first_lookup(languages, p) is Some
        }
}

/// A search along parents that come back round without the key ends at the depth limit: under
/// [`MissingBehavior::Return`] it answers the key as missing, under [`MissingBehavior::Error`] it
/// fails with the recursion limit.
pub proof fn lemma_recursive_cycle(
    language: Language,
    category: Seq<char>,
    key: Seq<char>,
    behavior: MissingBehavior,
    languages: Seq<(Locale, Language)>,
    max_depth: nat,
)
    requires
        parents_loop_without_key(languages, category, key),
        spec_language_text(language, category, key) is None,
        language.inherit matches Some(p) && first_lookup(languages, p) is Some,
    ensures
        spec_get_recursive(language, category, key, behavior, languages, max_depth) == match behavior {
            MissingBehavior::Return => Ok::<TextView, ErrorView>(TextView::Missing(category, key)),
            MissingBehavior::Error => Err::<TextView, ErrorView>(ErrorView::RecursionLimit),
        },
    decreases max_depth,
{
    if max_depth > 0 {
        let p = language.inherit.unwrap();
        let i = choose|i: int| first_at(languages, p, i);
        lemma_first_lookup_at(languages, p, i);
        let parent = languages[i].1;
        assert(spec_language_text(languages[i].1, category, key) is None);
        lemma_recursive_cycle(parent, category, key, behavior, languages, (max_depth - 1) as nat);
    }
}

/// The language file that `language` names as its parent, if it names a loaded one.
pub open spec fn spec_parent(language: Language, languages: Seq<(Locale, Language)>) -> Option<Language> {
    match language.inherit {
        Some(p) => first_lookup(languages, p),
        None => None,
    }
}

/// The language file reached from `language` by following `steps` parents, if the parents go that
/// far.
pub open spec fn spec_parent_chain(language: Language, languages: Seq<(Locale, Language)>, steps: nat) -> Option<
    Language,
>
    decreases steps,
{
    if steps == 0 {
        Some(language)
    } else {
        match spec_parent(language, languages) {
            Some(parent) => spec_parent_chain(parent, languages, (steps - 1) as nat),
            None => None,
        }
    }
}

/// Whatever the loaded language files, cycles among their parents included, a search makes at
/// most `max_depth + 1` nested calls (its depth decreases on each), and when the parents reach
/// past the depth limit without the key, it ends at that limit: under
/// [`MissingBehavior::Return`] it answers the key as missing, under [`MissingBehavior::Error`] it
/// fails with the recursion limit. Any cycle of parents without the key reaches past every limit.
pub proof fn lemma_recursive_runs_out(
    language: Language,
    category: Seq<char>,
    key: Seq<char>,
    behavior: MissingBehavior,
    languages: Seq<(Locale, Language)>,
    max_depth: nat,
)
    requires
        forall|j: nat| j <= max_depth ==> #[trigger] spec_parent_chain(language, languages, j) is Some,
        forall|j: nat|
            j < max_depth ==> (#[trigger] spec_parent_chain(language, languages, j) matches Some(l)
                && spec_language_text(l, category, key) is None),
    ensures
        spec_get_recursive(language, category, key, behavior, languages, max_depth) == match behavior {
            MissingBehavior::Return => Ok::<TextView, ErrorView>(TextView::Missing(category, key)),
            MissingBehavior::Error => Err::<TextView, ErrorView>(ErrorView::RecursionLimit),
        },
    decreases max_depth,
{
    if max_depth > 0 {
        assert(spec_parent_chain(language, languages, 0) is Some);
        assert(spec_parent_chain(language, languages, 1) is Some);
        let parent = spec_parent(language, languages)->Some_0;
        let d = (max_depth - 1) as nat;
        assert forall|j: nat| j <= d implies #[trigger] spec_parent_chain(parent, languages, j) is Some by {
            assert(spec_parent_chain(language, languages, j + 1) is Some);
            assert(spec_parent_chain(language, languages, j + 1) == spec_parent_chain(parent, languages, j));
        }
        assert forall|j: nat| j < d implies (#[trigger] spec_parent_chain(parent, languages, j) matches Some(l)
            && spec_language_text(l, category, key) is None) by {
            assert(spec_parent_chain(language, languages, j + 1) == spec_parent_chain(parent, languages, j));
            assert(spec_parent_chain(language, languages, j + 1) matches Some(l) && spec_language_text(
                l,
                category,
                key,
            ) is None);
        }
        lemma_recursive_runs_out(parent, category, key, behavior, languages, d);
    }
}

/// A language file that names itself as its parent and lacks the key runs out at every depth: the
/// search never ends on its own, and stops only at the limit.
pub proof fn lemma_self_parent_runs_out(
    language: Language,
    category: Seq<char>,
    key: Seq<char>,
    behavior: MissingBehavior,
    languages: Seq<(Locale, Language)>,
    max_depth: nat,
)
    requires
        spec_parent(language, languages) == Some(language),
        spec_language_text(language, category, key) is None,
    ensures
        spec_get_recursive(language, category, key, behavior, languages, max_depth) == match behavior {
            MissingBehavior::Return => Ok::<TextView, ErrorView>(TextView::Missing(category, key)),
            MissingBehavior::Error => Err::<TextView, ErrorView>(ErrorView::RecursionLimit),
        },
{
    assert forall|j: nat| #[trigger] spec_parent_chain(language, languages, j) == Some(language) by {
        lemma_self_chain(language, languages, j);
    }
    lemma_recursive_runs_out(language, category, key, behavior, languages, max_depth);
}

/// Following a parent that is the language file itself stays there.
proof fn lemma_self_chain(language: Language, languages: Seq<(Locale, Language)>, steps: nat)
    requires
        spec_parent(language, languages) == Some(language),
    ensures
        spec_parent_chain(language, languages, steps) == Some(language),
    decreases steps,
{
    if steps > 0 {
        lemma_self_chain(language, languages, (steps - 1) as nat);
    }
}

/// Whether `parents` is a chain of loaded language files that lack `key` in `category`, each
/// naming the next as its parent, ending at a loaded file that defines the key as `text`.
pub open spec fn chain_reaches_text(
    languages: Seq<(Locale, Language)>,
    parents: Seq<Locale>,
    category: Seq<char>,
    key: Seq<char>,
    text: Seq<char>,
) -> bool {
    &&& parents.len() >= 1
    &&& forall|i: int|
        0 <= i < parents.len() - 1 ==> (#[trigger] first_lookup(languages, parents[i]) matches Some(l)
            && spec_language_text(l, category, key) is None && l.inherit == Some(parents[i + 1]))
    &&& first_lookup(languages, parents.last()) matches Some(l) && spec_language_text(l, category, key) == Some(
        text,
    )
}

/// A language file that lacks a key and whose parents lead, through loaded files that lack it too,
/// to a loaded file that defines it, answers the text as inherited from that last file's locale,
/// however far up it is, when the depth allows a call for each file on the way.
pub proof fn lemma_recursive_from_chain_end(
    language: Language,
    category: Seq<char>,
    key: Seq<char>,
    behavior: MissingBehavior,
    languages: Seq<(Locale, Language)>,
    parents: Seq<Locale>,
    text: Seq<char>,
    max_depth: nat,
)
    requires
        spec_language_text(language, category, key) is None,
        language.inherit == Some(parents[0]),
        chain_reaches_text(languages, parents, category, key, text),
        max_depth > parents.len(),
    ensures
        spec_get_recursive(language, category, key, behavior, languages, max_depth) == Ok::<TextView, ErrorView>(
            TextView::Inherit(parents.last(), text),
        ),
    decreases parents.len(),
{
    assert(first_lookup(languages, parents[0]) is Some);
    let pl = first_lookup(languages, parents[0])->Some_0;
    if parents.len() == 1 {
        assert(spec_get_recursive(pl, category, key, behavior, languages, (max_depth - 1) as nat) == Ok::<
            TextView,
            ErrorView,
        >(TextView::Present(text)));
    } else {
        let rest = parents.drop_first();
        assert forall|i: int| 0 <= i < rest.len() - 1 implies (#[trigger] first_lookup(languages, rest[i]) matches Some(
            l,
        ) && spec_language_text(l, category, key) is None && l.inherit == Some(rest[i + 1])) by {
            assert(rest[i] == parents[i + 1] && rest[i + 1] == parents[i + 2]);
            assert(first_lookup(languages, parents[i + 1]) matches Some(l) && spec_language_text(l, category, key)
                is None && l.inherit == Some(parents[i + 2]));
        }
        assert(rest.last() == parents.last());
        lemma_recursive_from_chain_end(pl, category, key, behavior, languages, rest, text, (max_depth - 1) as nat);
    }
}

/// A key that a language file and its loaded parent lack but the parent's loaded parent defines is
/// answered as inherited from that grandparent, with its text, at any depth of at least three.
pub proof fn lemma_recursive_grandparent_key(
    language: Language,
    category: Seq<char>,
    key: Seq<char>,
    behavior: MissingBehavior,
    languages: Seq<(Locale, Language)>,
    parent: Locale,
    grandparent: Locale,
    text: Seq<char>,
    max_depth: nat,
)
    requires
        spec_language_text(language, category, key) is None,
        language.inherit == Some(parent),
        first_lookup(languages, parent) matches Some(l) && spec_language_text(l, category, key) is None
            && l.inherit == Some(grandparent),
        first_lookup(languages, grandparent) matches Some(l) && spec_language_text(l, category, key) == Some(text),
        max_depth >= 3,
    ensures
        spec_get_recursive(language, category, key, behavior, languages, max_depth) == Ok::<TextView, ErrorView>(
            TextView::Inherit(grandparent, text),
        ),
{
    let parents = seq![parent, grandparent];
    assert(chain_reaches_text(languages, parents, category, key, text));
    lemma_recursive_from_chain_end(language, category, key, behavior, languages, parents, text, max_depth);
}

/// One step of a search: with a loaded parent, a key the file lacks is answered as the parent
/// answers it one level deeper, its present text marked as inherited from the parent and any other
/// answer, an inherited one among them, passed on unchanged.
pub proof fn lemma_recursive_step(
    language: Language,
    category: Seq<char>,
    key: Seq<char>,
    behavior: MissingBehavior,
    languages: Seq<(Locale, Language)>,
    parent: Locale,
    parent_language: Language,
    max_depth: nat,
)
    requires
        max_depth > 0,
        spec_language_text(language, category, key) is None,
        language.inherit == Some(parent),
        first_lookup(languages, parent) == Some(parent_language),
    ensures
        spec_get_recursive(language, category, key, behavior, languages, max_depth) == match spec_get_recursive(
            parent_language,
            category,
            key,
            behavior,
            languages,
            (max_depth - 1) as nat,
        ) {
            Ok(TextView::Present(v)) => Ok::<TextView, ErrorView>(TextView::Inherit(parent, v)),
            Ok(TextView::Inherit(l, v)) => Ok::<TextView, ErrorView>(TextView::Inherit(l, v)),
            Ok(TextView::Missing(c, k)) => Ok::<TextView, ErrorView>(TextView::Missing(c, k)),
            Err(e) => Err::<TextView, ErrorView>(e),
        },
{
}

/// After storing entries in turn, a locale holds the language file of its last entry, whether or
/// not one was loaded before: a later load replaces an earlier one.
pub proof fn lemma_load_last_entry_wins(before: Seq<(Locale, Language)>, entries: Seq<(Locale, Language)>, i: int)
    requires
        0 <= i < entries.len(),
        forall|j: int| i < j < entries.len() ==> (#[trigger] entries[j]).0 != entries[i].0,
    ensures
        lookup_after_inserts(before, entries, entries[i].0) == Some(entries[i].1),
    decreases entries.len(),
{
    if i < entries.len() - 1 {
        assert(entries.last() == entries[entries.len() - 1]);
        assert forall|j: int| i < j < entries.drop_last().len() implies (#[trigger] entries.drop_last()[j]).0
            != entries.drop_last()[i].0 by {
            assert(entries.drop_last()[j] == entries[j]);
        }
        lemma_load_last_entry_wins(before, entries.drop_last(), i);
        assert(entries.drop_last()[i] == entries[i]);
    }
}

/// After storing entries in turn, a locale that none of them names holds what it held before.
pub proof fn lemma_load_keeps_others(before: Seq<(Locale, Language)>, entries: Seq<(Locale, Language)>, locale: Locale)
    requires
        forall|j: int| 0 <= j < entries.len() ==> (#[trigger] entries[j]).0 != locale,
    ensures
        lookup_after_inserts(before, entries, locale) == first_lookup(before, locale),
    decreases entries.len(),
{
    if entries.len() > 0 {
        assert(entries.last() == entries[entries.len() - 1]);
        assert forall|j: int| 0 <= j < entries.drop_last().len() implies (#[trigger] entries.drop_last()[j]).0
            != locale by {
            assert(entries.drop_last()[j] == entries[j]);
        }
        lemma_load_keeps_others(before, entries.drop_last(), locale);
    }
}

/// A key that a loaded language file lacks is read from the first file up its chain of loaded
/// parents that defines it, marked with that file's locale, when the configured search depth
/// reaches it.
pub proof fn lemma_get_chain_text(
    settings: Settings,
    languages: Seq<(Locale, Language)>,
    locale: Locale,
    language: Language,
    parents: Seq<Locale>,
    category: Seq<char>,
    key: Seq<char>,
    text: Seq<char>,
)
    requires
        settings.search_depth > parents.len(),
        first_lookup(languages, locale) == Some(language),
        spec_language_text(language, category, key) is None,
        language.inherit == Some(parents[0]),
        chain_reaches_text(languages, parents, category, key, text),
    ensures
        spec_localizer_get(settings, languages, locale, category, key) == Ok::<TextView, ErrorView>(
            TextView::Inherit(parents.last(), text),
        ),
{
    lemma_recursive_from_chain_end(
        language,
        category,
        key,
        settings.miss_behavior,
        languages,
        parents,
        text,
        settings.search_depth as nat,
    );
}

/// A key that a loaded language file and its loaded parent lack is read from the parent's loaded
/// parent, marked with that grandparent's locale, when the search depth is at least three.
pub proof fn lemma_get_grandparent_text(
    settings: Settings,
    languages: Seq<(Locale, Language)>,
    locale: Locale,
    parent: Locale,
    grandparent: Locale,
    category: Seq<char>,
    key: Seq<char>,
    text: Seq<char>,
)
    requires
        settings.search_depth >= 3,
        first_lookup(languages, locale) matches Some(l) && spec_language_text(l, category, key) is None
            && l.inherit == Some(parent),
        first_lookup(languages, parent) matches Some(l) && spec_language_text(l, category, key) is None
            && l.inherit == Some(grandparent),
        first_lookup(languages, grandparent) matches Some(l) && spec_language_text(l, category, key) == Some(text),
    ensures
        spec_localizer_get(settings, languages, locale, category, key) == Ok::<TextView, ErrorView>(
            TextView::Inherit(grandparent, text),
        ),
{
    let language = first_lookup(languages, locale)->Some_0;
    let parents = seq![parent, grandparent];
    assert(chain_reaches_text(languages, parents, category, key, text));
    lemma_get_chain_text(settings, languages, locale, language, parents, category, key, text);
}

} // verus!
