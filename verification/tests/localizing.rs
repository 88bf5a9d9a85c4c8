use ina::localizing::ascii::{AsciiArray, ToAsciiArrayError, ToAsciiArrayErrorKind, ToAsciiCharError};
use ina::localizing::locale::{IntErrorKind, Locale, LocaleErrorKind, LocaleLanguageCode, LocaleTerritoryCode};
use ina::localizing::settings::{default_queue_capacity, default_search_depth, MissingBehavior, Settings};
use ina::localizing::text::{Text, TextRef};
use ina::localizing::{run, Language, Localizer, LocalizingError, Request, Response};

fn locale(text: &str) -> Locale {
    Locale::parse(text).unwrap()
}

fn category(name: &str, entries: &[(&str, &str)]) -> (String, Vec<(String, String)>) {
    (name.to_owned(), entries.iter().map(|(k, v)| ((*k).to_owned(), (*v).to_owned())).collect())
}

fn settings(miss_behavior: MissingBehavior) -> Settings {
    Settings {
        default_locale: Locale::english_us(),
        directory: "lang".to_owned(),
        miss_behavior,
        queue_capacity: default_queue_capacity(),
        search_depth: default_search_depth(),
    }
}

fn english() -> Language {
    Language { inherit: None, categories: vec![category("ui", &[("ok", "OK"), ("cancel", "Cancel")])] }
}

fn british() -> Language {
    Language { inherit: Some(Locale::english_us()), categories: vec![category("ui", &[("ok", "Right")])] }
}

#[test]
fn ascii_array_parses_exact_length() {
    let a = AsciiArray::<2>::parse("en").unwrap();
    assert_eq!(a.get(0), b'e');
    assert_eq!(a.to_display_string(), "en");
    assert_eq!(
        AsciiArray::<2>::parse("eng"),
        Err(ToAsciiArrayError(ToAsciiArrayErrorKind::InvalidLength(3, 2)))
    );
    assert_eq!(
        AsciiArray::<2>::parse("é!"),
        Err(ToAsciiArrayError(ToAsciiArrayErrorKind::ToAsciiChar(ToAsciiCharError)))
    );
    assert_eq!(AsciiArray::<2>::parse("eng").unwrap_err().kind(), ToAsciiArrayErrorKind::InvalidLength(3, 2));
}

#[test]
fn ascii_array_from_chars_and_bytes() {
    assert!(AsciiArray::<3>::from_chars(['a', 'b', 'c']).unwrap().equals(&AsciiArray::<3>::from_bytes(*b"abc").unwrap()));
    assert_eq!(AsciiArray::<1>::from_chars(['ü']), Err(ToAsciiCharError));
    assert_eq!(AsciiArray::<1>::from_bytes([200]), Err(ToAsciiCharError));
}

#[test]
fn language_code_must_be_lowercase() {
    assert_eq!(LocaleLanguageCode::parse("fr").unwrap().to_display_string(), "fr");
    let err = LocaleLanguageCode::parse("FR").unwrap_err();
    assert!(matches!(err.kind(), LocaleErrorKind::LanguageCode(_)));
    let err = LocaleLanguageCode::parse("fra").unwrap_err();
    assert!(matches!(err.kind(), LocaleErrorKind::ToAsciiArray(_)));
}

#[test]
fn territory_codes() {
    assert_eq!(LocaleTerritoryCode::parse("US").unwrap().to_display_string(), "US");
    assert_eq!(LocaleTerritoryCode::parse("USA").unwrap().to_display_string(), "USA");
    assert_eq!(LocaleTerritoryCode::parse("419").unwrap().to_display_string(), "419");
    assert_eq!(LocaleTerritoryCode::parse("7").unwrap().to_display_string(), "007");
    assert!(matches!(LocaleTerritoryCode::parse("us").unwrap_err().kind(), LocaleErrorKind::TerritoryAlpha2Code(_)));
    assert!(matches!(LocaleTerritoryCode::parse("usa").unwrap_err().kind(), LocaleErrorKind::TerritoryAlpha3Code(_)));
    assert!(matches!(LocaleTerritoryCode::parse("1000").unwrap_err().kind(), LocaleErrorKind::TerritoryNumericCode(1000)));
    assert!(matches!(LocaleTerritoryCode::parse("0").unwrap_err().kind(), LocaleErrorKind::ParseInt(IntErrorKind::Zero)));
    assert!(matches!(LocaleTerritoryCode::parse("").unwrap_err().kind(), LocaleErrorKind::ParseInt(IntErrorKind::Empty)));
    assert!(matches!(
        LocaleTerritoryCode::parse("99999").unwrap_err().kind(),
        LocaleErrorKind::ParseInt(IntErrorKind::PosOverflow)
    ));
    assert!(matches!(LocaleTerritoryCode::parse("USAA").unwrap_err().kind(), LocaleErrorKind::Locale(_)));
    assert!(LocaleTerritoryCode::numeric(5).is_ok());
    assert!(LocaleTerritoryCode::numeric(1000).is_err());
}

#[test]
fn locale_parse_and_display() {
    assert_eq!(locale("en-US"), Locale::english_us());
    assert_eq!(Locale::default(), Locale::english_us());
    assert_eq!(locale("es-419").to_display_string(), "es-419");
    assert_eq!(locale("ja").to_display_string(), "ja");
    assert!(locale("ja").territory().is_none());
    assert!(matches!(Locale::parse("EN-us").unwrap_err().kind(), LocaleErrorKind::LanguageCode(_)));
    assert!(matches!(Locale::parse("en-us").unwrap_err().kind(), LocaleErrorKind::TerritoryAlpha2Code(_)));
    let l = locale("pt-BRA");
    assert_eq!(Locale::parse(&l.to_display_string()).unwrap(), l);
    let n = locale("es-007");
    assert_eq!(Locale::parse(&n.to_display_string()).unwrap(), n);
    assert!(l.equals(&l) && !l.equals(&n));
}

#[test]
fn missing_behavior_call() {
    assert_eq!(MissingBehavior::default(), MissingBehavior::Return);
    assert_eq!(MissingBehavior::Return.call("ui", "x").unwrap(), Text::Missing("ui".to_owned(), "x".to_owned()));
    assert!(matches!(MissingBehavior::Error.call("ui", "x"), Err(LocalizingError::MissingText(c, k)) if c == "ui" && k == "x"));
    assert_eq!(MissingBehavior::Error.name(), "error");
    assert_eq!(MissingBehavior::Return.name(), "return");
}

#[test]
fn language_get_recursive_inherits() {
    let languages = vec![(Locale::english_us(), english()), (locale("en-GB"), british())];
    let gb = &languages[1].1;
    assert_eq!(gb.get("ui", "ok", MissingBehavior::Error).unwrap(), TextRef::Present("Right"));
    assert_eq!(
        gb.get_recursive("ui", "cancel", MissingBehavior::Error, &languages, Language::DEFAULT_MAX_DEPTH).unwrap(),
        TextRef::Inherit(Locale::english_us(), "Cancel")
    );
    assert_eq!(
        gb.get_recursive("ui", "cancel", MissingBehavior::Return, &languages, 1).unwrap(),
        TextRef::Missing("ui", "cancel")
    );
    assert!(matches!(
        gb.get_recursive("ui", "cancel", MissingBehavior::Error, &languages, 0),
        Err(LocalizingError::RecursionLimit)
    ));
}

#[test]
fn localizer_falls_back_to_default_locale() {
    let mut localizer = Localizer::new(settings(MissingBehavior::Error));
    localizer.insert_language(Locale::english_us(), english());
    assert_eq!(localizer.get(locale("de-DE"), "ui", "ok").unwrap(), TextRef::Present("OK"));
    assert_eq!(localizer.get_text(None, "ui", "cancel").unwrap(), Text::Present("Cancel".to_owned()));
    assert!(matches!(localizer.get(locale("de-DE"), "ui", "none"), Err(LocalizingError::MissingText(..))));
}

#[test]
fn localizer_inherit_and_clear() {
    let mut localizer = Localizer::new(settings(MissingBehavior::Return));
    localizer.insert_language(Locale::english_us(), english());
    localizer.insert_language(locale("en-GB"), british());
    assert_eq!(localizer.get(locale("en-GB"), "ui", "cancel").unwrap(), TextRef::Inherit(Locale::english_us(), "Cancel"));
    assert!(localizer.has_locales(&vec![Locale::english_us(), locale("en-GB")]));
    localizer.clear_locales(Some(vec![locale("en-GB")]));
    assert_eq!(localizer.locales(), vec![Locale::english_us()]);
    assert!(!localizer.has_locale(&locale("en-GB")));
    localizer.clear_locales(None);
    assert!(localizer.locales().is_empty());
    assert_eq!(localizer.get(locale("en-GB"), "ui", "ok").unwrap(), TextRef::Missing("ui", "ok"));
}

#[test]
fn text_or_and_display() {
    let present = TextRef::Present("a");
    let missing = TextRef::Missing("ui", "k");
    let inherit = TextRef::Inherit(Locale::english_us(), "b");
    assert_eq!(missing.or(inherit), inherit);
    assert_eq!(inherit.or(present), present);
    assert_eq!(present.or(missing), present);
    assert_eq!(missing.to_display_string(), "ui::k");
    let owned = inherit.into_owned();
    assert!(owned.is_inherit());
    assert_eq!(owned.as_borrowed(), inherit);
    assert_eq!(owned.to_display_string(), "b");
}

#[test]
fn localizer_keys_of_category() {
    let mut localizer = Localizer::new(settings(MissingBehavior::Error));
    localizer.insert_language(Locale::english_us(), english());
    assert_eq!(localizer.keys(&Locale::english_us(), "ui"), Some(vec!["ok".to_owned(), "cancel".to_owned()]));
    assert_eq!(localizer.keys(&Locale::english_us(), "none"), None);
    assert_eq!(localizer.keys(&locale("en-GB"), "ui"), None);
}

#[test]
fn localizing_run_answers_requests() {
    let mut localizer = Localizer::new(settings(MissingBehavior::Error));
    assert!(matches!(run(&mut localizer, Request::Load(vec![(Locale::english_us(), english())])), Response::Load(1)));
    assert!(matches!(run(&mut localizer, Request::Has(vec![Locale::english_us()])), Response::Has(true)));
    assert!(matches!(run(&mut localizer, Request::Has(vec![locale("en-GB")])), Response::Has(false)));
    match run(&mut localizer, Request::Get(None, "ui".to_owned(), "ok".to_owned())) {
        Response::Text(text) => assert_eq!(text, Text::Present("OK".to_owned())),
        other => panic!("unexpected response: {other:?}"),
    }
    assert!(matches!(
        run(&mut localizer, Request::Get(None, "ui".to_owned(), "none".to_owned())),
        Response::Error(LocalizingError::MissingText(..))
    ));
    match run(&mut localizer, Request::Keys(None, "ui".to_owned())) {
        Response::Keys(keys) => assert_eq!(keys, vec!["ok".to_owned(), "cancel".to_owned()]),
        other => panic!("unexpected response: {other:?}"),
    }
    assert!(matches!(run(&mut localizer, Request::Keys(None, "none".to_owned())), Response::Keys(k) if k.is_empty()));
    assert!(matches!(run(&mut localizer, Request::Clear(None)), Response::Acknowledge));
    match run(&mut localizer, Request::List) {
        Response::List(locales) => assert!(locales.is_empty()),
        other => panic!("unexpected response: {other:?}"),
    }
}

#[test]
fn from_str_matches_parse() {
    assert_eq!("en".parse::<AsciiArray<2>>().unwrap(), AsciiArray::<2>::parse("en").unwrap());
    assert_eq!("fr".parse::<LocaleLanguageCode>().unwrap(), LocaleLanguageCode::parse("fr").unwrap());
    assert_eq!("419".parse::<LocaleTerritoryCode>().unwrap(), LocaleTerritoryCode::parse("419").unwrap());
    assert_eq!("es-MX".parse::<Locale>().unwrap(), locale("es-MX"));
    assert!("EN".parse::<Locale>().is_err());
}

#[test]
fn self_parent_runs_out_at_the_limit() {
    let looping = Language { inherit: Some(locale("en-GB")), categories: vec![category("ui", &[("ok", "Right")])] };
    let languages = vec![(locale("en-GB"), looping)];
    let gb = &languages[0].1;
    for depth in [0, 1, 4, 9] {
        assert_eq!(
            gb.get_recursive("ui", "cancel", MissingBehavior::Return, &languages, depth).unwrap(),
            TextRef::Missing("ui", "cancel")
        );
        assert!(matches!(
            gb.get_recursive("ui", "cancel", MissingBehavior::Error, &languages, depth),
            Err(LocalizingError::RecursionLimit)
        ));
    }
    assert_eq!(
        gb.get_recursive("ui", "ok", MissingBehavior::Error, &languages, 4).unwrap(),
        TextRef::Present("Right")
    );
}
