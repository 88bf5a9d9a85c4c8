//! Locale-keyed translation tables with inheritance between locales.

use vstd::prelude::*;

use crate::localization::locale::Locale;
use crate::localization::translation::{OwnedTranslation, Translation, TranslationView};
use crate::lookup::{
    find_key, first_at, first_lookup, keys_of, keys_unique, lemma_first_lookup_at, lemma_first_lookup_contains, lemma_keys_no_duplicates, lemma_first_lookup_none, lemma_first_lookup_push,
    lemma_first_lookup_set, lemma_lookup_at, lemma_lookup_none, lookup,
};

pub mod locale;
pub mod translation;

verus! {

/// An error that may occur when using the localizer.
#[derive(Clone, Copy, Debug, PartialEq, Eq, Structural)]
pub enum LocalizationError {
    /// An invalid locale was given.
    InvalidLocale,
    /// A locale was missing.
    MissingLocale,
    /// A translation was missing.
    MissingTranslation,
}

/// The behavior to follow when the localizer is unable to translate a key.
#[derive(Clone, Copy, Debug, Hash, PartialEq, Eq, Structural)]
pub enum MissBehavior {
    /// Returns the raw translation key.
    Key,
    /// Returns an error.
    Error,
}

/// The localizer's settings.
#[derive(Clone, Debug, PartialEq, Eq)]
pub struct Settings {
    /// The localizer's default locale.
    pub default_locale: Locale,
    /// The directory within which to read language files.
    pub file_directory: String,
    /// The behavior that the localizer will exhibit when it fails to translate a key.
    pub miss_behavior: MissBehavior,
    /// The localizing thread's output queue capacity.
    pub queue_capacity: usize,
}

/// The view of a translation result.
pub open spec fn result_view(r: Result<Translation<'_, '_>, LocalizationError>) -> Result<TranslationView, LocalizationError> {
    match r {
        Ok(t) => Ok(t@),
        Err(e) => Err(e),
    }
}

/// The view of a translation result that may be absent.
pub open spec fn option_result_view(r: Option<Result<Translation<'_, '_>, LocalizationError>>) -> Option<
    Result<TranslationView, LocalizationError>,
> {
    match r {
        Some(x) => Some(result_view(x)),
        None => None,
    }
}

/// What a miss behavior answers for a missing key.
pub open spec fn spec_miss(mode: MissBehavior, category: Seq<char>, key: Seq<char>) -> Result<
    TranslationView,
    LocalizationError,
> {
    match mode {
        MissBehavior::Key => Ok(TranslationView::Missing(category, key)),
        MissBehavior::Error => Err(LocalizationError::MissingTranslation),
    }
}

impl MissBehavior {
    /// Calls the miss behavior.
    ///
    /// # Errors
    ///
    /// This function will return an error if the miss behavior specifies that outcome.
    pub fn call<'lc: 'ag, 'ag>(&self, category: &'ag str, key: &'ag str) -> (r: Result<
        Translation<'lc, 'ag>,
        LocalizationError,
    >)
        ensures
            result_view(r) == spec_miss(*self, category@, key@),
    {
        match self {
            MissBehavior::Key => Ok(Translation::Missing(category, key)),
            MissBehavior::Error => Err(LocalizationError::MissingTranslation),
        }
    }
}

/// Returns the first position of `locale` among the keys of `entries`.
pub fn find_locale<V>(entries: &Vec<(Locale, V)>, locale: Locale) -> (r: Option<usize>)
    ensures
        match r {
            Some(i) => first_at(entries@, locale, i as int),
            None => forall|i: int| 0 <= i < entries@.len() ==> (#[trigger] entries@[i]).0 != locale,
        },
{
    let mut i: usize = 0;
    while i < entries.len()
        invariant
            i <= entries.len(),
            forall|j: int| 0 <= j < i ==> (#[trigger] entries@[j]).0 != locale,
        decreases entries.len() - i,
    {
        if entries[i].0 == locale {
            return Some(i);
        }
        i = i + 1;
    }
    None
}

/// The contents of a translation file.
#[derive(Clone, Debug, Default, PartialEq, Eq)]
pub struct Translations {
    /// The locale that this translation map inherits from.
    pub inherit: Option<Locale>,
    /// Translations, sorted into categories: each category holds its keys and their text.
    ///
    /// The tables are lists searched for the first entry of a name: Verus proves nothing of a std
    /// map keyed by `String`, and the field is public, as the file's shape is, so it carries no
    /// invariant. A translation file never names a category or a key twice, since such a file
    /// does not parse; a list built by hand with a name twice answers with its first entry.
    pub translations: Vec<(String, Vec<(String, String)>)>,
}

/// The text written for `key` in `category` within the map itself.
pub open spec fn spec_defined_text(t: Translations, category: Seq<char>, key: Seq<char>) -> Option<
    Seq<char>,
> {
    match lookup(t.translations@, category) {
        Some(map) => match lookup(map@, key) {
            Some(v) => Some(v@),
            None => None,
        },
        None => None,
    }
}

/// What `get_defined` answers.
pub open spec fn spec_get_defined(
    t: Translations,
    mode: MissBehavior,
    category: Seq<char>,
    key: Seq<char>,
) -> Result<TranslationView, LocalizationError> {
    match spec_defined_text(t, category, key) {
        Some(v) => Ok(TranslationView::Present(v)),
        None => spec_miss(mode, category, key),
    }
}

/// What `get_inherited` answers when it follows at most `fuel` parents; `None` when the chain of
/// parents is longer.
pub open spec fn spec_get_inherited(
    t: Translations,
    locales: Seq<(Locale, Translations)>,
    mode: MissBehavior,
    category: Seq<char>,
    key: Seq<char>,
    fuel: nat,
) -> Option<Result<TranslationView, LocalizationError>>
    decreases fuel,
{
    match spec_defined_text(t, category, key) {
        Some(v) => Some(Ok(TranslationView::Present(v))),
        None => match t.inherit {
            None => Some(spec_miss(mode, category, key)),
            Some(parent) => match first_lookup(locales, parent) {
                None => Some(spec_miss(mode, category, key)),
                Some(pt) => if fuel == 0 {
                    None
                } else {
                    match spec_get_inherited(pt, locales, mode, category, key, (fuel - 1) as nat) {
                        Some(Ok(TranslationView::Present(v))) => Some(
                            Ok(TranslationView::Inherit(parent, v)),
                        ),
                        other => other,
                    }
                },
            },
        },
    }
}

impl Translations {
    /// Returns the parent of this [`Translations`] map.
    pub fn parent(&self) -> (r: Option<Locale>)
        ensures
            r == self.inherit,
    {
        self.inherit
    }

    /// Returns the text written for `key` in `category` within this map.
    fn defined_text<'lc>(&'lc self, category: &str, key: &str) -> (r: Option<&'lc str>)
        ensures
            match r {
                Some(v) => spec_defined_text(*self, category@, key@) == Some(v@),
                None => spec_defined_text(*self, category@, key@) is None,
            },
    {
        match find_key(&self.translations, category) {
            None => {
                proof {
                    lemma_lookup_none(self.translations@, category@);
                }
                None
            },
            Some(ci) => {
                proof {
                    lemma_lookup_at(self.translations@, category@, ci as int);
                }
                let map = &self.translations[ci].1;
                match find_key(map, key) {
                    None => {
                        proof {
                            lemma_lookup_none(map@, key@);
                        }
                        None
                    },
                    Some(ki) => {
                        proof {
                            lemma_lookup_at(map@, key@, ki as int);
                        }
                        Some(map[ki].1.as_str())
                    },
                }
            },
        }
    }

    /// Returns a translation for a key as written within this specific map.
    ///
    /// This method does not check parent maps.
    ///
    /// # Errors
    ///
    /// This function will return an error if the key is not found and the provided mode specifies to return an error.
    pub fn get_defined<'lc: 'ag, 'ag>(&'lc self, mode: MissBehavior, category: &'ag str, key: &'ag str) -> (r:
        Result<Translation<'lc, 'ag>, LocalizationError>)
        ensures
            result_view(r) == spec_get_defined(*self, mode, category@, key@),
    {
        match self.defined_text(category, key) {
            Some(value) => Ok(Translation::Present(value)),
            None => mode.call(category, key),
        }
    }

    /// Follows the chain of parent maps for at most `fuel` steps.
    fn get_inherited_bounded<'lc: 'ag, 'ag>(
        &'lc self,
        mode: MissBehavior,
        locales: &'lc Vec<(Locale, Translations)>,
        category: &'ag str,
        key: &'ag str,
        fuel: usize,
    ) -> (r: Option<Result<Translation<'lc, 'ag>, LocalizationError>>)
        ensures
            option_result_view(r) == spec_get_inherited(
                *self,
                locales@,
                mode,
                category@,
                key@,
                fuel as nat,
            ),
        decreases fuel,
    {
        let defined = self.get_defined(mode, category, key);
        if let Ok(Translation::Present(_)) = defined {
            return Some(defined);
        }
        let parent = match self.inherit {
            None => {
                return Some(defined);
            },
            Some(parent) => parent,
        };
        match find_locale(locales, parent) {
            None => {
                proof {
                    lemma_first_lookup_none(locales@, parent);
                }
                Some(mode.call(category, key))
            },
            Some(pi) => {
                proof {
                    lemma_first_lookup_at(locales@, parent, pi as int);
                }
                if fuel == 0 {
                    return None;
                }
                let inherited = &locales[pi].1;
                match inherited.get_inherited_bounded(mode, locales, category, key, fuel - 1) {
                    Some(Ok(Translation::Present(value))) => Some(Ok(Translation::Inherit(parent, value))),
                    other => other,
                }
            },
        }
    }

    /// Returns a translation for a key as written within this or a parent map, or `None` when the
    /// chain of parent maps loops without resolving the key.
    pub fn try_get_inherited<'lc: 'ag, 'ag>(
        &'lc self,
        mode: MissBehavior,
        locales: &'lc Vec<(Locale, Translations)>,
        category: &'ag str,
        key: &'ag str,
    ) -> (r: Option<Result<Translation<'lc, 'ag>, LocalizationError>>)
        ensures
            option_result_view(r) == spec_get_inherited(
                *self,
                locales@,
                mode,
                category@,
                key@,
                locales@.len(),
            ),
    {
        self.get_inherited_bounded(mode, locales, category, key, locales.len())
    }

    /// Returns a translation for a key as written within this or a parent map.
    ///
    /// The chain of parents must resolve the key, as it does whenever the parents met on the way
    /// are distinct ([`lemma_distinct_parents_resolve`]); [`Translations::try_get_inherited`]
    /// answers `None` where it loops instead.
    ///
    /// # Errors
    ///
    /// This function will return an error if the key is not found and the provided mode specifies to return an error.
    pub fn get_inherited<'lc: 'ag, 'ag>(
        &'lc self,
        mode: MissBehavior,
        locales: &'lc Vec<(Locale, Translations)>,
        category: &'ag str,
        key: &'ag str,
    ) -> (r: Result<Translation<'lc, 'ag>, LocalizationError>)
        requires
            spec_get_inherited(*self, locales@, mode, category@, key@, locales@.len()) is Some,
        ensures
            Some(result_view(r)) == spec_get_inherited(
                *self,
                locales@,
                mode,
                category@,
                key@,
                locales@.len(),
            ),
    {
        match self.try_get_inherited(mode, locales, category, key) {
            Some(r) => r,
            None => {
                proof {
                    assert(false);
                }
                mode.call(category, key)
            },
        }
    }
}

/// A translation key.
#[derive(Clone, Debug, Hash, PartialEq, Eq, PartialOrd, Ord)]
pub struct TranslationKey {
    /// The key's category.
    category: String,
    /// The key within its category.
    key: String,
}

impl TranslationKey {
    /// The key's category.
    pub closed spec fn spec_category(&self) -> Seq<char> {
        self.category@
    }

    /// The key within its category.
    pub closed spec fn spec_key(&self) -> Seq<char> {
        self.key@
    }

    /// Creates a new [`TranslationKey`].
    pub fn new(category: String, key: String) -> (r: TranslationKey)
        ensures
            r.spec_category() == category@,
            r.spec_key() == key@,
    {
        TranslationKey { category, key }
    }

    /// Returns a reference to the category of this [`TranslationKey`].
    pub fn category(&self) -> (r: &str)
        ensures
            r@ == self.spec_category(),
    {
        self.category.as_str()
    }

    /// Returns a reference to the key of this [`TranslationKey`].
    pub fn key(&self) -> (r: &str)
        ensures
            r@ == self.spec_key(),
    {
        self.key.as_str()
    }
}

/// A localizer.
#[derive(Debug, PartialEq, Eq)]
pub struct Localizer {
    /// The localizer's settings.
    settings: Settings,
    /// The localizer's stored translations, by locale.
    locales: Vec<(Locale, Translations)>,
}

impl Clone for Localizer {
    /// Copies the localizer, with its locales loaded in the same order.
    fn clone(&self) -> (r: Localizer)
        ensures
            keys_of(r.spec_locales()) == keys_of(self.spec_locales()),
    {
        proof {
            use_type_invariant(self);
        }
        let mut locales: Vec<(Locale, Translations)> = Vec::new();
        let mut i: usize = 0;
        while i < self.locales.len()
            invariant
                i <= self.locales@.len(),
                keys_unique(self.locales@),
                keys_of(locales@) == keys_of(self.locales@.subrange(0, i as int)),
            decreases self.locales@.len() - i,
        {
            let entry = (self.locales[i].0, self.locales[i].1.clone());
            let ghost before = locales@;
            locales.push(entry);
            assert(keys_of(locales@) =~= keys_of(before).push(self.locales@[i as int].0));
            assert(keys_of(self.locales@.subrange(0, i + 1)) =~= keys_of(self.locales@.subrange(0, i as int)).push(
                self.locales@[i as int].0,
            ));
            i = i + 1;
        }
        assert(self.locales@.subrange(0, self.locales@.len() as int) =~= self.locales@);
        assert forall|a: int, b: int|
            0 <= a < locales@.len() && 0 <= b < locales@.len() && a != b implies (#[trigger] locales@[a]).0
            != (#[trigger] locales@[b]).0 by {
            assert(keys_of(locales@)[a] == locales@[a].0);
            assert(keys_of(locales@)[b] == locales@[b].0);
        }
        Localizer { settings: self.settings.clone(), locales }
    }
}

/// What the localizer answers for `key` in `category` under `locale`, following at most as many
/// parents as there are loaded locales.
pub open spec fn spec_localizer_get(
    settings: Settings,
    locales: Seq<(Locale, Translations)>,
    locale: Locale,
    category: Seq<char>,
    key: Seq<char>,
) -> Option<Result<TranslationView, LocalizationError>> {
    match first_lookup(locales, locale) {
        None => Some(spec_miss(settings.miss_behavior, category, key)),
        Some(t) => spec_get_inherited(t, locales, settings.miss_behavior, category, key, locales.len()),
    }
}

impl Localizer {
    /// No locale is loaded twice.
    #[verifier::type_invariant]
    closed spec fn well_formed(self) -> bool {
        keys_unique(self.locales@)
    }

    /// The localizer's settings.
    pub closed spec fn spec_settings(&self) -> Settings {
        self.settings
    }

    /// The localizer's loaded locales and their translations.
    pub closed spec fn spec_locales(&self) -> Seq<(Locale, Translations)> {
        self.locales@
    }

    /// Creates a new [`Localizer`].
    pub fn new(settings: Settings) -> (r: Localizer)
        ensures
            r.spec_settings() == settings,
            r.spec_locales() == Seq::<(Locale, Translations)>::empty(),
    {
        Localizer { settings, locales: Vec::new() }
    }

    /// Returns the localizer's settings.
    pub fn settings(&self) -> (r: &Settings)
        ensures
            *r == self.spec_settings(),
    {
        &self.settings
    }

    /// Returns the loaded locales of this [`Localizer`], each once.
    pub fn locales(&self) -> (r: Vec<Locale>)
        ensures
            r@ == keys_of(self.spec_locales()),
            r@.no_duplicates(),
    {
        proof {
            use_type_invariant(self);
            lemma_keys_no_duplicates(self.locales@);
        }
        let mut out: Vec<Locale> = Vec::new();
        let mut i: usize = 0;
        while i < self.locales.len()
            invariant
                i <= self.locales@.len(),
                out@ == keys_of(self.locales@.subrange(0, i as int)),
            decreases self.locales@.len() - i,
        {
            out.push(self.locales[i].0);
            assert(self.locales@.subrange(0, i + 1) =~= self.locales@.subrange(0, i as int).push(
                self.locales@[i as int],
            ));
            i = i + 1;
        }
        assert(self.locales@.subrange(0, self.locales@.len() as int) =~= self.locales@);
        out
    }

    /// Returns whether this [`Localizer`] has loaded the given locale.
    pub fn has_locale(&self, locale: Locale) -> (r: bool)
        ensures
            r == (first_lookup(self.spec_locales(), locale) is Some),
            r == keys_of(self.spec_locales()).contains(locale),
    {
        proof {
            lemma_first_lookup_contains(self.locales@, locale);
        }
        match find_locale(&self.locales, locale) {
            Some(i) => {
                proof {
                    lemma_first_lookup_at(self.locales@, locale, i as int);
                }
                true
            },
            None => {
                proof {
                    lemma_first_lookup_none(self.locales@, locale);
                }
                false
            },
        }
    }

    /// Clears all loaded locales.
    pub fn clear_locales(&mut self)
        ensures
            final(self).spec_settings() == old(self).spec_settings(),
            final(self).spec_locales() == Seq::<(Locale, Translations)>::empty(),
    {
        self.locales = Vec::new();
    }

    /// Stores the translations read for `locale`, replacing any loaded before.
    pub fn insert_locale(&mut self, locale: Locale, translations: Translations)
        ensures
            final(self).spec_settings() == old(self).spec_settings(),
            forall|l: Locale|
                #[trigger] first_lookup(final(self).spec_locales(), l) == if l == locale {
                    Some(translations)
                } else {
                    first_lookup(old(self).spec_locales(), l)
                },
    {
        proof {
            use_type_invariant(&*self);
        }
        let mut locales: Vec<(Locale, Translations)> = Vec::new();
        std::mem::swap(&mut locales, &mut self.locales);
        let ghost before = locales@;
        match find_locale(&locales, locale) {
            Some(i) => {
                locales.set(i, (locale, translations));
                proof {
                    assert forall|a: int| 0 <= a < locales@.len() implies (#[trigger] locales@[a]).0
                        == before[a].0 by {
                    }
                    assert forall|l: Locale| #[trigger]
                        first_lookup(locales@, l) == if l == locale {
                            Some(translations)
                        } else {
                            first_lookup(before, l)
                        } by {
                        assert(locales@ == before.update(i as int, (before[i as int].0, translations)));
                        lemma_first_lookup_set(before, i as int, translations, l);
                    }
                }
            },
            None => {
                locales.push((locale, translations));
                proof {
                    assert forall|a: int| 0 <= a < before.len() implies (#[trigger] locales@[a]) == before[a] by {
                    }
                    lemma_first_lookup_none(before, locale);
                    assert forall|l: Locale| #[trigger]
                        first_lookup(locales@, l) == if l == locale {
                            Some(translations)
                        } else {
                            first_lookup(before, l)
                        } by {
                        lemma_first_lookup_push(before, (locale, translations), l);
                    }
                }
            },
        }
        self.locales = locales;
    }

    /// Returns a translation for the given key, or `None` when the chain of parent locales loops
    /// without resolving it.
    pub fn try_get<'lc: 'ag, 'ag>(&'lc self, locale: Locale, category: &'ag str, key: &'ag str) -> (r:
        Option<Result<Translation<'lc, 'ag>, LocalizationError>>)
        ensures
            option_result_view(r) == spec_localizer_get(
                self.spec_settings(),
                self.spec_locales(),
                locale,
                category@,
                key@,
            ),
    {
        match find_locale(&self.locales, locale) {
            None => {
                proof {
                    lemma_first_lookup_none(self.locales@, locale);
                }
                Some(self.settings.miss_behavior.call(category, key))
            },
            Some(i) => {
                proof {
                    lemma_first_lookup_at(self.locales@, locale, i as int);
                }
                self.locales[i].1.try_get_inherited(self.settings.miss_behavior, &self.locales, category, key)
            },
        }
    }

    /// Returns a translation for the given key.
    ///
    /// The chain of parent locales must resolve the key, as it does whenever the parents met on the
    /// way are distinct ([`lemma_distinct_parents_resolve`]); [`Localizer::try_get`] answers `None`
    /// where it loops instead.
    ///
    /// # Errors
    ///
    /// This function will return an error if the key is not found and the provided mode specifies to return an error.
    pub fn get<'lc: 'ag, 'ag>(&'lc self, locale: Locale, category: &'ag str, key: &'ag str) -> (r: Result<
        Translation<'lc, 'ag>,
        LocalizationError,
    >)
        requires
            spec_localizer_get(self.spec_settings(), self.spec_locales(), locale, category@, key@) is Some,
        ensures
            Some(result_view(r)) == spec_localizer_get(
                self.spec_settings(),
                self.spec_locales(),
                locale,
                category@,
                key@,
            ),
    {
        match self.try_get(locale, category, key) {
            Some(r) => r,
            None => {
                proof {
                    assert(false);
                }
                self.settings.miss_behavior.call(category, key)
            },
        }
    }

    /// Localizes a key in the given locale, or in the default locale when none is given, returning
    /// an owned translation; `None` when the chain of parent locales loops without resolving it.
    pub fn localize(&self, locale: Option<Locale>, key: &TranslationKey) -> (r: Option<
        Result<OwnedTranslation, LocalizationError>,
    >)
        ensures
            ({
                let l = match locale {
                    Some(l) => l,
                    None => self.spec_settings().default_locale,
                };
                match spec_localizer_get(
                    self.spec_settings(),
                    self.spec_locales(),
                    l,
                    key.spec_category(),
                    key.spec_key(),
                ) {
                    None => r is None,
                    Some(Ok(t)) => r matches Some(Ok(o)) && o@ == t,
                    Some(Err(e)) => r == Some(Err::<OwnedTranslation, LocalizationError>(e)),
                }
            }),
    {
        let l = match locale {
            Some(l) => l,
            None => self.settings.default_locale,
        };
        match self.try_get(l, key.category(), key.key()) {
            None => None,
            Some(Ok(t)) => Some(Ok(t.as_owned())),
            Some(Err(e)) => Some(Err(e)),
        }
    }
}

/// What a locale looks up to after each of `entries` was stored in turn, over `before`.
pub open spec fn lookup_after_inserts(
    before: Seq<(Locale, Translations)>,
    entries: Seq<(Locale, Translations)>,
    locale: Locale,
) -> Option<Translations>
    decreases entries.len(),
{
    if entries.len() == 0 {
        first_lookup(before, locale)
    } else if entries.last().0 == locale {
        Some(entries.last().1)
    } else {
        lookup_after_inserts(before, entries.drop_last(), locale)
    }
}

/// A request handled by the localization thread.
#[derive(Clone, Debug)]
pub enum Request {
    /// Clears the loaded locales.
    Clear,
    /// Lists all loaded locales.
    List,
    /// Localizes the given key, in the given locale or the default one.
    Localize(Option<Locale>, TranslationKey),
    /// Stores the translations read for each locale, in order.
    Load(Vec<(Locale, Translations)>),
}

/// A response sent back by the localization thread.
#[derive(Clone, Debug)]
pub enum Response {
    /// The locales were cleared.
    Clear,
    /// A list of locales.
    List(Vec<Locale>),
    /// The localized text; `None` when the chain of parent locales loops without resolving it.
    Localize(Option<Result<OwnedTranslation, LocalizationError>>),
    /// The number of loaded locales.
    Load(usize),
}

/// Answers one request of the localization thread.
pub fn run(localizer: &mut Localizer, request: Request) -> (r: Response)
    ensures
        final(localizer).spec_settings() == old(localizer).spec_settings(),
        match request {
            Request::Clear => r is Clear && final(localizer).spec_locales() == Seq::<
                (Locale, Translations),
            >::empty(),
            Request::List => (r matches Response::List(ls) && ls@.no_duplicates() && ls@ == old(localizer).spec_locales().map_values(
                |p: (Locale, Translations)| p.0,
            )) && final(localizer).spec_locales() == old(localizer).spec_locales(),
            Request::Localize(locale, key) => final(localizer).spec_locales() == old(localizer).spec_locales()
                && (r matches Response::Localize(answer) && ({
                let l = match locale {
                    Some(l) => l,
                    None => old(localizer).spec_settings().default_locale,
                };
                match spec_localizer_get(
                    old(localizer).spec_settings(),
                    old(localizer).spec_locales(),
                    l,
                    key.spec_category(),
                    key.spec_key(),
                ) {
                    None => answer is None,
                    Some(Ok(t)) => answer matches Some(Ok(o)) && o@ == t,
                    Some(Err(e)) => answer == Some(Err::<OwnedTranslation, LocalizationError>(e)),
                }
            })),
            Request::Load(entries) => {
                &&& r == Response::Load(entries@.len() as usize)
                &&& forall|l: Locale|
                    #[trigger] first_lookup(final(localizer).spec_locales(), l) == lookup_after_inserts(
                        old(localizer).spec_locales(),
                        entries@,
                        l,
                    )
                &&& forall|i: int|
                    0 <= i < entries@.len() && (forall|j: int| i < j < entries@.len() ==> entries@[j].0 != entries@[i].0)
                        ==> first_lookup(final(localizer).spec_locales(), (#[trigger] entries@[i]).0) == Some(
                        entries@[i].1,
                    )
                &&& forall|l: Locale|
                    (forall|j: int| 0 <= j < entries@.len() ==> (#[trigger] entries@[j]).0 != l) ==> first_lookup(
                        final(localizer).spec_locales(),
                        l,
                    ) == first_lookup(old(localizer).spec_locales(), l)
            },
        },
{
    match request {
        Request::Clear => {
            localizer.clear_locales();
            Response::Clear
        },
        Request::List => Response::List(localizer.locales()),
        Request::Localize(locale, key) => Response::Localize(localizer.localize(locale, &key)),
        Request::Load(entries) => {
            let ghost before = localizer.spec_locales();
            let ghost all = entries@;
            let count = entries.len();
            let mut rest = entries;
            let mut i: usize = 0;
            while rest.len() > 0
                invariant
                    i <= all.len(),
                    count == all.len(),
                    rest@ == all.subrange(i as int, all.len() as int),
                    localizer.spec_settings() == old(localizer).spec_settings(),
                    forall|l: Locale| #[trigger]
                        first_lookup(localizer.spec_locales(), l) == lookup_after_inserts(
                            before,
                            all.subrange(0, i as int),
                            l,
                        ),
                decreases rest@.len(),
            {
                let (locale, translations) = rest.remove(0);
                proof {
                    assert(all[i as int] == (locale, translations));
                    assert(all.subrange(0, i + 1).drop_last() =~= all.subrange(0, i as int));
                    assert(all.subrange(0, i + 1).last() == (locale, translations));
                }
                localizer.insert_locale(locale, translations);
                assert(rest@ =~= all.subrange(i + 1, all.len() as int));
                i = i + 1;
            }
            assert(all.subrange(0, i as int) =~= all);
            proof {
                assert forall|k: int|
                    0 <= k < all.len() && (forall|j: int| k < j < all.len() ==> all[j].0 != all[k].0) implies first_lookup(
                    localizer.spec_locales(),
                    (#[trigger] all[k]).0,
                ) == Some(all[k].1) by {
                    lemma_load_last_entry_wins(before, all, k);
                }
                assert forall|l: Locale| (forall|j: int| 0 <= j < all.len() ==> (#[trigger] all[j]).0 != l) implies first_lookup(
                    localizer.spec_locales(),
                    l,
                ) == first_lookup(before, l) by {
                    lemma_load_keeps_others(before, all, l);
                }
            }
            Response::Load(count)
        },
    }
}

/// A locale whose translations define a key answers that key's text as present.
pub proof fn lemma_get_defined_key(
    settings: Settings,
    locales: Seq<(Locale, Translations)>,
    locale: Locale,
    translations: Translations,
    category: Seq<char>,
    key: Seq<char>,
    text: Seq<char>,
)
    requires
        first_lookup(locales, locale) == Some(translations),
        spec_defined_text(translations, category, key) == Some(text),
    ensures
        spec_localizer_get(settings, locales, locale, category, key) == Some(
            Ok::<TranslationView, LocalizationError>(TranslationView::Present(text)),
        ),
{
}

/// A key that a locale lacks is read from its loaded parent, marked with the parent's locale.
pub proof fn lemma_get_parent_key(
    settings: Settings,
    locales: Seq<(Locale, Translations)>,
    locale: Locale,
    translations: Translations,
    parent: Locale,
    parent_translations: Translations,
    category: Seq<char>,
    key: Seq<char>,
    text: Seq<char>,
)
    requires
        first_lookup(locales, locale) == Some(translations),
        spec_defined_text(translations, category, key) is None,
        translations.inherit == Some(parent),
        first_lookup(locales, parent) == Some(parent_translations),
        spec_defined_text(parent_translations, category, key) == Some(text),
    ensures
        spec_localizer_get(settings, locales, locale, category, key) == Some(
            Ok::<TranslationView, LocalizationError>(TranslationView::Inherit(parent, text)),
        ),
{
    let i = choose|i: int| first_at(locales, locale, i);
    assert(locales.len() > 0);
    let fuel = locales.len();
    assert(spec_get_inherited(parent_translations, locales, settings.miss_behavior, category, key, (fuel - 1) as nat)
        == Some(Ok::<TranslationView, LocalizationError>(TranslationView::Present(text))));
}

/// A locale that is not loaded answers every key as the miss behavior says.
pub proof fn lemma_get_unloaded_locale(
    settings: Settings,
    locales: Seq<(Locale, Translations)>,
    locale: Locale,
    category: Seq<char>,
    key: Seq<char>,
)
    requires
        first_lookup(locales, locale) is None,
    ensures
        spec_localizer_get(settings, locales, locale, category, key) == Some(
            spec_miss(settings.miss_behavior, category, key),
        ),
{
}

/// Following parents only fails by the miss behavior: an error is always a missing translation
/// under [`MissBehavior::Error`], and a missing result keeps the category and key asked for and
/// comes only under [`MissBehavior::Key`].
pub proof fn lemma_inherited_misses(
    translations: Translations,
    locales: Seq<(Locale, Translations)>,
    mode: MissBehavior,
    category: Seq<char>,
    key: Seq<char>,
    fuel: nat,
)
    ensures
        spec_get_inherited(translations, locales, mode, category, key, fuel) matches Some(Err(e)) ==> (
        e == LocalizationError::MissingTranslation && mode == MissBehavior::Error),
        spec_get_inherited(translations, locales, mode, category, key, fuel) matches Some(
            Ok(TranslationView::Missing(c, k)),
        ) ==> (c == category && k == key && mode == MissBehavior::Key),
    decreases fuel,
{
    if fuel > 0 {
        if let Some(parent) = translations.inherit {
            if let Some(pt) = first_lookup(locales, parent) {
                lemma_inherited_misses(pt, locales, mode, category, key, (fuel - 1) as nat);
            }
        }
    }
}

/// The parents met when following a translation map up its chain, at most `hops` of them, each a
/// loaded locale.
pub open spec fn parent_chain(translations: Translations, locales: Seq<(Locale, Translations)>, hops: nat) -> Seq<
    Locale,
>
    decreases hops,
{
    if hops == 0 {
        Seq::empty()
    } else {
        match translations.inherit {
            None => Seq::empty(),
            Some(parent) => match first_lookup(locales, parent) {
                None => Seq::empty(),
                Some(pt) => seq![parent] + parent_chain(pt, locales, (hops - 1) as nat),
            },
        }
    }
}

/// A search that runs out of steps has met a loaded parent at every step and one more.
proof fn lemma_exhausted_chain(
    translations: Translations,
    locales: Seq<(Locale, Translations)>,
    mode: MissBehavior,
    category: Seq<char>,
    key: Seq<char>,
    fuel: nat,
)
    requires
        spec_get_inherited(translations, locales, mode, category, key, fuel) is None,
    ensures
        parent_chain(translations, locales, fuel + 1).len() == fuel + 1,
    decreases fuel,
{
    let parent = translations.inherit.unwrap();
    let pt = first_lookup(locales, parent).unwrap();
    assert(parent_chain(translations, locales, fuel + 1) == seq![parent] + parent_chain(pt, locales, fuel));
    if fuel > 0 {
        lemma_exhausted_chain(pt, locales, mode, category, key, (fuel - 1) as nat);
    } else {
        assert(parent_chain(pt, locales, 0).len() == 0);
    }
}

/// Every parent met on a chain is one of the loaded locales.
proof fn lemma_chain_loaded(translations: Translations, locales: Seq<(Locale, Translations)>, hops: nat)
    ensures
        forall|i: int|
            0 <= i < parent_chain(translations, locales, hops).len() ==> locales.map_values(
                |p: (Locale, Translations)| p.0,
            ).to_set().contains(#[trigger] parent_chain(translations, locales, hops)[i]),
    decreases hops,
{
    if hops > 0 {
        if let Some(parent) = translations.inherit {
            if let Some(pt) = first_lookup(locales, parent) {
                lemma_chain_loaded(pt, locales, (hops - 1) as nat);
                let j = choose|j: int| first_at(locales, parent, j);
                let keys = locales.map_values(|p: (Locale, Translations)| p.0);
                assert(keys[j] == parent);
                let chain = parent_chain(translations, locales, hops);
                let rest = parent_chain(pt, locales, (hops - 1) as nat);
                assert forall|i: int| 0 <= i < chain.len() implies keys.to_set().contains(#[trigger] chain[i]) by {
                    if i > 0 {
                        assert(chain[i] == rest[i - 1]);
                    }
                }
            }
        }
    }
}

/// Following parents resolves every key when the parents met on the way are distinct: a search
/// only runs out of steps on a chain that comes back to a locale it met.
pub proof fn lemma_distinct_parents_resolve(
    translations: Translations,
    locales: Seq<(Locale, Translations)>,
    mode: MissBehavior,
    category: Seq<char>,
    key: Seq<char>,
)
    requires
        parent_chain(translations, locales, locales.len() + 1).no_duplicates(),
    ensures
        spec_get_inherited(translations, locales, mode, category, key, locales.len()) is Some,
{
    let n = locales.len();
    if spec_get_inherited(translations, locales, mode, category, key, n) is None {
        lemma_exhausted_chain(translations, locales, mode, category, key, n);
        let chain = parent_chain(translations, locales, n + 1);
        let keys = locales.map_values(|p: (Locale, Translations)| p.0);
        chain.unique_seq_to_set();
        keys.lemma_cardinality_of_set();
        lemma_chain_loaded(translations, locales, n + 1);
        assert(chain.to_set().subset_of(keys.to_set()));
        vstd::seq_lib::seq_to_set_is_finite(keys);
        vstd::set_lib::lemma_len_subset(chain.to_set(), keys.to_set());
    }
}

/// A search that resolves within some number of steps answers the same with more steps.
pub proof fn lemma_inherited_more_fuel(
    translations: Translations,
    locales: Seq<(Locale, Translations)>,
    mode: MissBehavior,
    category: Seq<char>,
    key: Seq<char>,
    fuel: nat,
    more: nat,
)
    requires
        spec_get_inherited(translations, locales, mode, category, key, fuel) is Some,
        fuel <= more,
    ensures
        spec_get_inherited(translations, locales, mode, category, key, more) == spec_get_inherited(
            translations,
            locales,
            mode,
            category,
            key,
            fuel,
        ),
    decreases fuel,
{
    if spec_defined_text(translations, category, key) is None {
        if let Some(parent) = translations.inherit {
            if let Some(pt) = first_lookup(locales, parent) {
                if fuel > 0 {
                    lemma_inherited_more_fuel(pt, locales, mode, category, key, (fuel - 1) as nat, (more - 1) as nat);
                }
            }
        }
    }
}

/// One step of [`Translations::get_inherited`]: a key defined here is present; a key missing here
/// with no loaded parent follows the miss behavior; otherwise the parent's answer is given, its
/// present text marked as inherited from the parent and any other answer passed on unchanged.
pub proof fn lemma_get_inherited_step(
    translations: Translations,
    locales: Seq<(Locale, Translations)>,
    mode: MissBehavior,
    category: Seq<char>,
    key: Seq<char>,
)
    requires
        spec_get_inherited(translations, locales, mode, category, key, locales.len()) is Some,
    ensures
        spec_get_inherited(translations, locales, mode, category, key, locales.len()) == match spec_defined_text(
            translations,
            category,
            key,
        ) {
            Some(v) => Some(Ok::<TranslationView, LocalizationError>(TranslationView::Present(v))),
            None => match translations.inherit {
                None => Some(spec_miss(mode, category, key)),
                Some(parent) => match first_lookup(locales, parent) {
                    None => Some(spec_miss(mode, category, key)),
                    Some(pt) => match spec_get_inherited(pt, locales, mode, category, key, locales.len()) {
                        Some(Ok(TranslationView::Present(v))) => Some(Ok(TranslationView::Inherit(parent, v))),
                        other => other,
                    },
                },
            },
        },
{
    let n = locales.len();
    if spec_defined_text(translations, category, key) is None {
        if let Some(parent) = translations.inherit {
            if let Some(pt) = first_lookup(locales, parent) {
                assert(n > 0);
                assert(spec_get_inherited(pt, locales, mode, category, key, (n - 1) as nat) is Some);
                lemma_inherited_more_fuel(pt, locales, mode, category, key, (n - 1) as nat, n);
            }
        }
    }
}

/// Whether `parents` is a chain of loaded locales that lack `key` in `category`, each naming the
/// next as its parent, ending at a loaded locale whose translations define the key as `text`.
pub open spec fn chain_reaches_text(
    locales: Seq<(Locale, Translations)>,
    parents: Seq<Locale>,
    category: Seq<char>,
    key: Seq<char>,
    text: Seq<char>,
) -> bool {
    &&& parents.len() >= 1
    &&& forall|i: int|
        0 <= i < parents.len() - 1 ==> (#[trigger] first_lookup(locales, parents[i]) matches Some(t)
            && spec_defined_text(t, category, key) is None && t.inherit == Some(parents[i + 1]))
    &&& first_lookup(locales, parents.last()) matches Some(t) && spec_defined_text(t, category, key) == Some(text)
}

/// A map that lacks a key and whose parents lead, through loaded locales that lack it too, to a
/// loaded locale that defines it, answers the text as inherited from that last locale, however
/// far up it is, given enough steps to follow the parents.
pub proof fn lemma_inherited_from_chain_end(
    translations: Translations,
    locales: Seq<(Locale, Translations)>,
    mode: MissBehavior,
    parents: Seq<Locale>,
    category: Seq<char>,
    key: Seq<char>,
    text: Seq<char>,
    fuel: nat,
)
    requires
        spec_defined_text(translations, category, key) is None,
        translations.inherit == Some(parents[0]),
        chain_reaches_text(locales, parents, category, key, text),
        fuel >= parents.len(),
    ensures
        spec_get_inherited(translations, locales, mode, category, key, fuel) == Some(
            Ok::<TranslationView, LocalizationError>(TranslationView::Inherit(parents.last(), text)),
        ),
    decreases parents.len(),
{
    if parents.len() == 1 {
        let pt = first_lookup(locales, parents[0])->Some_0;
        assert(spec_get_inherited(pt, locales, mode, category, key, (fuel - 1) as nat) == Some(
            Ok::<TranslationView, LocalizationError>(TranslationView::Present(text)),
        ));
    } else {
        assert(first_lookup(locales, parents[0]) is Some);
        let pt = first_lookup(locales, parents[0])->Some_0;
        let rest = parents.drop_first();
        assert forall|i: int| 0 <= i < rest.len() - 1 implies (#[trigger] first_lookup(locales, rest[i]) matches Some(
            t,
        ) && spec_defined_text(t, category, key) is None && t.inherit == Some(rest[i + 1])) by {
            assert(rest[i] == parents[i + 1] && rest[i + 1] == parents[i + 2]);
            assert(first_lookup(locales, parents[i + 1]) matches Some(t) && spec_defined_text(t, category, key)
                is None && t.inherit == Some(parents[i + 2]));
        }
        assert(rest.last() == parents.last());
        lemma_inherited_from_chain_end(pt, locales, mode, rest, category, key, text, (fuel - 1) as nat);
    }
}

/// Two loaded locales that are not the same one stand at two positions, so at least two locales
/// are loaded.
proof fn lemma_two_loaded(locales: Seq<(Locale, Translations)>, a: Locale, b: Locale)
    requires
        first_lookup(locales, a) is Some,
        first_lookup(locales, b) is Some,
        a != b,
    ensures
        locales.len() >= 2,
{
    let i = choose|i: int| first_at(locales, a, i);
    let j = choose|j: int| first_at(locales, b, j);
    assert(locales[i].0 == a && locales[j].0 == b);
}

/// A key that a locale and its parent lack but their grandparent defines is answered as inherited
/// from the grandparent, with the grandparent's text, whatever the miss behavior.
pub proof fn lemma_get_grandparent_key(
    settings: Settings,
    locales: Seq<(Locale, Translations)>,
    locale: Locale,
    parent: Locale,
    grandparent: Locale,
    category: Seq<char>,
    key: Seq<char>,
    text: Seq<char>,
)
    requires
        first_lookup(locales, locale) matches Some(t) && spec_defined_text(t, category, key) is None
            && t.inherit == Some(parent),
        first_lookup(locales, parent) matches Some(t) && spec_defined_text(t, category, key) is None
            && t.inherit == Some(grandparent),
        first_lookup(locales, grandparent) matches Some(t) && spec_defined_text(t, category, key) == Some(text),
    ensures
        spec_localizer_get(settings, locales, locale, category, key) == Some(
            Ok::<TranslationView, LocalizationError>(TranslationView::Inherit(grandparent, text)),
        ),
{
    let t = first_lookup(locales, locale)->Some_0;
    let parents = seq![parent, grandparent];
    assert(parent != grandparent);
    lemma_two_loaded(locales, parent, grandparent);
    assert(chain_reaches_text(locales, parents, category, key, text));
    lemma_inherited_from_chain_end(t, locales, settings.miss_behavior, parents, category, key, text, locales.len());
}

/// A loaded locale that lacks a key, reached through a chain of as many loaded parents as there
/// are loaded locales at most, answers the text of the first locale up the chain that defines it,
/// as inherited from that locale.
pub proof fn lemma_get_chain_key(
    settings: Settings,
    locales: Seq<(Locale, Translations)>,
    locale: Locale,
    parents: Seq<Locale>,
    category: Seq<char>,
    key: Seq<char>,
    text: Seq<char>,
)
    requires
        first_lookup(locales, locale) matches Some(t) && spec_defined_text(t, category, key) is None
            && t.inherit == Some(parents[0]),
        chain_reaches_text(locales, parents, category, key, text),
        parents.len() <= locales.len(),
    ensures
        spec_localizer_get(settings, locales, locale, category, key) == Some(
            Ok::<TranslationView, LocalizationError>(TranslationView::Inherit(parents.last(), text)),
        ),
{
    let t = first_lookup(locales, locale)->Some_0;
    lemma_inherited_from_chain_end(t, locales, settings.miss_behavior, parents, category, key, text, locales.len());
}

/// After storing entries in turn, a locale holds the translations of its last entry, whether or not
/// it was loaded before: a later load replaces an earlier one.
pub proof fn lemma_load_last_entry_wins(
    before: Seq<(Locale, Translations)>,
    entries: Seq<(Locale, Translations)>,
    i: int,
)
    requires
        0 <= i < entries.len(),
        forall|j: int| i < j < entries.len() ==> (#[trigger] entries[j]).0 != entries[i].0,
    ensures
        lookup_after_inserts(before, entries, entries[i].0) == Some(entries[i].1),
    decreases entries.len(),
{
    if i < entries.len() - 1 {
        assert(entries.last() == entries[entries.len() - 1]);
        assert forall|j: int| i < j < entries.drop_last().len() implies (#[trigger] entries.drop_last()[j]).0
            != entries.drop_last()[i].0 by {
            assert(entries.drop_last()[j] == entries[j]);
        }
        lemma_load_last_entry_wins(before, entries.drop_last(), i);
        assert(entries.drop_last()[i] == entries[i]);
    }
}

/// After storing entries in turn, a locale that none of them names holds what it held before.
pub proof fn lemma_load_keeps_others(
    before: Seq<(Locale, Translations)>,
    entries: Seq<(Locale, Translations)>,
    locale: Locale,
)
    requires
        forall|j: int| 0 <= j < entries.len() ==> (#[trigger] entries[j]).0 != locale,
    ensures
        lookup_after_inserts(before, entries, locale) == first_lookup(before, locale),
    decreases entries.len(),
{
    if entries.len() > 0 {
        assert(entries.last() == entries[entries.len() - 1]);
        assert forall|j: int| 0 <= j < entries.drop_last().len() implies (#[trigger] entries.drop_last()[j]).0
            != locale by {
            assert(entries.drop_last()[j] == entries[j]);
        }
        lemma_load_keeps_others(before, entries.drop_last(), locale);
    }
}

} // verus!
