use rustconn::i18n::{
    available_languages, bundle_locale_dir, fill_placeholders, i18n, i18n_f, lang_to_locale,
    language_step, locale_candidates, locale_dir, messages_locale, messages_locale_retry, ni18n,
    ni18n_f, LanguageStep, LocaleCheck, LocaleEnv, Message,
};

#[test]
fn placeholders_are_filled_from_the_left() {
    assert_eq!(fill_placeholders("{} of {}", &["1", "2"]), "1 of 2");
    assert_eq!(fill_placeholders("{} of {}", &["1"]), "1 of {}");
    assert_eq!(fill_placeholders("none", &["1"]), "none");
    // What an argument holds is not looked at again.
    assert_eq!(fill_placeholders("{} and {}", &["{}", "b"]), "{} and b");
    assert_eq!(fill_placeholders("{}{}", &["a{}", "b"]), "a{}b");
}

#[test]
fn messages_without_a_catalogue_are_shown_as_they_are() {
    assert_eq!(i18n("Connection failed"), "Connection failed");
    assert_eq!(i18n_f("Deleted '{}'", &["x"]), "Deleted 'x'");
    assert_eq!(ni18n("1 connection", "{} connections", 1), "1 connection");
    assert_eq!(ni18n("1 connection", "{} connections", 2), "{} connections");
    assert_eq!(ni18n_f("1 connection", "{} connections", 5, &["5"]), "5 connections");
    assert_eq!(Message::with2("{}-{}", "a", "b").render(), "a-b");
    assert_eq!(Message::with("{}", "a").copy().render(), "a");
    assert_eq!(Message::plain("Ready").render(), "Ready");
}

#[test]
fn languages_are_offered_under_their_own_names() {
    let languages = available_languages();
    assert_eq!(languages.len(), 17);
    assert_eq!(languages[0].0, "system");
    assert!(languages.contains(&("uk", "Українська")));
}

#[test]
fn a_language_has_its_territory() {
    assert_eq!(lang_to_locale("de"), "de_DE.UTF-8");
    assert_eq!(lang_to_locale("uk"), "uk_UA.UTF-8");
    assert_eq!(messages_locale("de"), "de_DE.UTF-8");
    assert_eq!(messages_locale_retry("de_DE.UTF-8", true), None);
}

fn env() -> LocaleEnv {
    LocaleEnv {
        localedir: None,
        build_dir: None,
        bundle_dir: None,
        snap: None,
        home: None,
        xdg_data: None,
    }
}

#[test]
fn the_locale_directory_is_looked_for_in_order() {
    let full = LocaleEnv {
        localedir: Some("/l".to_string()),
        build_dir: Some("/b".to_string()),
        bundle_dir: Some("/m".to_string()),
        snap: Some("/snap/x".to_string()),
        home: Some("/home/me".to_string()),
        xdg_data: Some("/xdg".to_string()),
    };
    let candidates = locale_candidates(&full);
    let paths: Vec<&str> = candidates.iter().map(|c| c.path.as_str()).collect();
    assert_eq!(
        paths,
        vec![
            "/l",
            "/b",
            "/m",
            "/app/share/locale",
            "/snap/x/share/locale",
            "/home/me/.local/share/locale",
            "/xdg/locale",
            "/usr/share/locale"
        ]
    );
    assert!(candidates[0].check == LocaleCheck::Nothing);
    assert!(candidates[1].check == LocaleCheck::HasCatalogue);
    assert!(candidates[3].check == LocaleCheck::Exists);
    assert_eq!(locale_dir(&candidates, &vec![false; 8]).as_deref(), Some("/l"));

    let bare = locale_candidates(&env());
    assert_eq!(bare.len(), 2);
    assert_eq!(locale_dir(&bare, &vec![false, false]).as_deref(), Some("/usr/share/locale"));
    assert_eq!(locale_dir(&bare, &vec![true, false]).as_deref(), Some("/app/share/locale"));
}

#[test]
fn a_bundle_is_known_by_its_extension() {
    assert_eq!(
        bundle_locale_dir(Some("App"), "/x.App/Contents").as_deref(),
        Some("/x.App/Contents/Resources/locale")
    );
    assert_eq!(bundle_locale_dir(Some("apps"), "/x"), None);
    assert_eq!(bundle_locale_dir(Some("axp"), "/x"), None);
    assert_eq!(bundle_locale_dir(None, "/x"), None);
}

#[test]
fn a_language_is_applied_by_starting_again() {
    assert_eq!(language_step(None, None, None), LanguageStep::KeepSystem);
    assert_eq!(language_step(Some("system"), None, None), LanguageStep::KeepSystem);
    assert_eq!(language_step(Some(""), None, None), LanguageStep::KeepSystem);
    assert_eq!(language_step(Some("de"), Some("de"), None), LanguageStep::SetLocale);
    assert_eq!(language_step(Some("de"), Some("fr"), None), LanguageStep::ReExec);
    assert_eq!(messages_locale_retry("de_DE.UTF-8", false).as_deref(), Some(""));
    assert_eq!(messages_locale_retry("", false), None);
}

#[test]
fn a_translation_can_be_translated_again() {
    let once = ni18n("1 connection", "{} connections", 3);
    assert!(!once.contains('\0'));
    assert_eq!(i18n(&once), "{} connections");
}
