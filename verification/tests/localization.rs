use ina::localization::locale::Locale;
use ina::localization::translation::{OwnedTranslation, Translation};
use ina::localization::{
    run, LocalizationError, Localizer, MissBehavior, Request, Response, Settings, TranslationKey, Translations,
};

fn locale(text: &str) -> Locale {
    Locale::parse(text).unwrap()
}

fn category(name: &str, entries: &[(&str, &str)]) -> (String, Vec<(String, String)>) {
    (name.to_owned(), entries.iter().map(|(k, v)| ((*k).to_owned(), (*v).to_owned())).collect())
}

fn settings(miss_behavior: MissBehavior) -> Settings {
    Settings {
        default_locale: locale("en-US"),
        file_directory: "lang".to_owned(),
        miss_behavior,
        queue_capacity: 8,
    }
}

fn english() -> Translations {
    Translations {
        inherit: None,
        translations: vec![category("greeting", &[("hello", "Hello"), ("bye", "Goodbye")])],
    }
}

fn british() -> Translations {
    Translations {
        inherit: Some(locale("en-US")),
        translations: vec![category("greeting", &[("hello", "Hello, mate")])],
    }
}

#[test]
fn locale_new_normalises_case() {
    let l = Locale::new(['E', 'n'], ['u', 's']).unwrap();
    assert_eq!(l.to_display_string(), "en-US");
    assert_eq!(l.language(), "en");
    assert_eq!(l.territory(), "US");
}

#[test]
fn locale_new_rejects_non_letters() {
    assert_eq!(Locale::new(['e', '1'], ['U', 'S']), Err(LocalizationError::InvalidLocale));
    assert_eq!(Locale::new(['e', 'n'], ['U', 'é']), Err(LocalizationError::InvalidLocale));
}

#[test]
fn locale_parse_reads_prefix() {
    assert_eq!(Locale::parse("fr-ca.toml").unwrap().to_display_string(), "fr-CA");
    assert_eq!(Locale::parse("en_US"), Err(LocalizationError::InvalidLocale));
    assert_eq!(Locale::parse("en-U"), Err(LocalizationError::InvalidLocale));
    assert_eq!(Locale::parse(""), Err(LocalizationError::InvalidLocale));
}

#[test]
fn locale_display_parses_back() {
    let l = locale("de-AT");
    assert_eq!(Locale::parse(&l.to_display_string()), Ok(l));
}

#[test]
fn miss_behavior_key_returns_missing() {
    let t = MissBehavior::Key.call("greeting", "unknown").unwrap();
    assert_eq!(t, Translation::Missing("greeting", "unknown"));
    assert_eq!(t.to_display_string(), "greeting::unknown");
}

#[test]
fn miss_behavior_error_fails() {
    assert_eq!(MissBehavior::Error.call("greeting", "unknown"), Err(LocalizationError::MissingTranslation));
}

#[test]
fn translations_get_defined() {
    let t = english();
    assert_eq!(t.get_defined(MissBehavior::Error, "greeting", "hello"), Ok(Translation::Present("Hello")));
    assert_eq!(t.get_defined(MissBehavior::Key, "greeting", "none"), Ok(Translation::Missing("greeting", "none")));
    assert_eq!(t.get_defined(MissBehavior::Error, "other", "hello"), Err(LocalizationError::MissingTranslation));
    assert_eq!(t.parent(), None);
}

#[test]
fn localizer_reads_inserted_locale() {
    let mut localizer = Localizer::new(settings(MissBehavior::Error));
    assert!(!localizer.has_locale(locale("en-US")));
    localizer.insert_locale(locale("en-US"), english());
    assert!(localizer.has_locale(locale("en-US")));
    assert_eq!(localizer.get(locale("en-US"), "greeting", "hello"), Ok(Translation::Present("Hello")));
}

#[test]
fn localizer_inherits_from_parent() {
    let mut localizer = Localizer::new(settings(MissBehavior::Error));
    localizer.insert_locale(locale("en-US"), english());
    localizer.insert_locale(locale("en-GB"), british());
    assert_eq!(localizer.get(locale("en-GB"), "greeting", "hello"), Ok(Translation::Present("Hello, mate")));
    assert_eq!(
        localizer.get(locale("en-GB"), "greeting", "bye"),
        Ok(Translation::Inherit(locale("en-US"), "Goodbye"))
    );
    assert_eq!(localizer.get(locale("en-GB"), "greeting", "none"), Err(LocalizationError::MissingTranslation));
}

#[test]
fn localizer_unloaded_locale_follows_miss_behavior() {
    let mut localizer = Localizer::new(settings(MissBehavior::Key));
    localizer.insert_locale(locale("en-US"), english());
    assert_eq!(localizer.get(locale("ja-JP"), "greeting", "hello"), Ok(Translation::Missing("greeting", "hello")));
}

#[test]
fn localizer_insert_replaces() {
    let mut localizer = Localizer::new(settings(MissBehavior::Error));
    localizer.insert_locale(locale("en-US"), english());
    localizer.insert_locale(
        locale("en-US"),
        Translations { inherit: None, translations: vec![category("greeting", &[("hello", "Hi")])] },
    );
    assert_eq!(localizer.locales(), vec![locale("en-US")]);
    assert_eq!(localizer.get(locale("en-US"), "greeting", "hello"), Ok(Translation::Present("Hi")));
    localizer.clear_locales();
    assert!(localizer.locales().is_empty());
}

#[test]
fn localizer_loop_of_parents_is_detected() {
    let mut localizer = Localizer::new(settings(MissBehavior::Error));
    let a = Translations { inherit: Some(locale("en-GB")), translations: vec![] };
    let b = Translations { inherit: Some(locale("en-US")), translations: vec![] };
    localizer.insert_locale(locale("en-US"), a);
    localizer.insert_locale(locale("en-GB"), b);
    assert!(localizer.try_get(locale("en-US"), "greeting", "hello").is_none());
}

#[test]
fn localizer_localize_uses_default_locale() {
    let mut localizer = Localizer::new(settings(MissBehavior::Error));
    localizer.insert_locale(locale("en-US"), english());
    let key = TranslationKey::new("greeting".to_owned(), "bye".to_owned());
    assert_eq!(key.category(), "greeting");
    assert_eq!(key.key(), "bye");
    assert_eq!(localizer.localize(None, &key), Some(Ok(OwnedTranslation::Present("Goodbye".to_owned()))));
}

#[test]
fn translation_or_prefers_presence() {
    let present = Translation::Present("a");
    let inherit = Translation::Inherit(locale("en-US"), "b");
    let missing = Translation::Missing("c", "k");
    assert_eq!(missing.or(inherit), inherit);
    assert_eq!(inherit.or(present), present);
    assert_eq!(inherit.or(missing), inherit);
    assert_eq!(present.or(inherit), present);
    assert_eq!(missing.or(Translation::Missing("d", "j")), Translation::Missing("d", "j"));
    assert_eq!(missing.or(inherit).or(present), missing.or(inherit.or(present)));
}

#[test]
fn translation_or_else_is_lazy() {
    let present = OwnedTranslation::Present("a".to_owned());
    let r = present.clone().or_else(|| panic!("not needed"));
    assert_eq!(r, present);
    let missing = OwnedTranslation::Missing("c".to_owned(), "k".to_owned());
    assert_eq!(missing.or_else(|| OwnedTranslation::Present("x".to_owned())), OwnedTranslation::Present("x".to_owned()));
}

#[test]
fn owned_translation_round_trips() {
    let owned = OwnedTranslation::Inherit(locale("en-US"), "text".to_owned());
    assert!(owned.is_inherit() && !owned.is_present() && !owned.is_missing());
    assert_eq!(owned.as_borrowed().as_owned(), owned);
    assert_eq!(owned.to_display_string(), "text");
    assert_eq!(owned.clone().cast(), owned);
}

#[test]
fn localization_run_answers_requests() {
    let mut localizer = Localizer::new(settings(MissBehavior::Error));
    let loaded = run(&mut localizer, Request::Load(vec![(locale("en-US"), english()), (locale("en-GB"), british())]));
    assert!(matches!(loaded, Response::Load(2)));
    match run(&mut localizer, Request::List) {
        Response::List(locales) => assert_eq!(locales, vec![locale("en-US"), locale("en-GB")]),
        other => panic!("unexpected response: {other:?}"),
    }
    let key = TranslationKey::new("greeting".to_owned(), "bye".to_owned());
    match run(&mut localizer, Request::Localize(Some(locale("en-GB")), key)) {
        Response::Localize(answer) => {
            assert_eq!(answer, Some(Ok(OwnedTranslation::Inherit(locale("en-US"), "Goodbye".to_owned()))))
        }
        other => panic!("unexpected response: {other:?}"),
    }
    assert!(matches!(run(&mut localizer, Request::Clear), Response::Clear));
    assert!(localizer.locales().is_empty());
}
