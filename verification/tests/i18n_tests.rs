use khushu::i18n::{
    apply_locale, bind_domain, catalog_paths, custom_library_locale_dir, detect_system_locale,
    first_with_catalog, language_hint, language_of_reported_locale, language_of_snapshot,
    language_of_system_locale, language_to_apply, library_dir_candidates, locale_attempt_list, locale_candidates,
    locale_fallback_order, locale_step, LocaleStep, Utf8Domain,
    pick_translation, resolve_locale_dir, tr, LocaleDirProbes, LocaleSnapshot,
};

fn s(v: &[&str]) -> Vec<String> {
    v.iter().map(|x| x.to_string()).collect()
}

#[test]
fn fallback_orders() {
    assert_eq!(
        locale_fallback_order("ar"),
        s(&["ar_DZ.UTF-8", "ar_SA.UTF-8", "ar.UTF-8", "en_US.UTF-8", "C.UTF-8"])
    );
    assert_eq!(locale_fallback_order("fr"), s(&["fr_FR.UTF-8", "fr.UTF-8", "en_US.UTF-8", "C.UTF-8"]));
    assert_eq!(locale_fallback_order("id"), s(&["id_ID.UTF-8", "id.UTF-8", "en_US.UTF-8", "C.UTF-8"]));
    assert_eq!(locale_fallback_order("de"), s(&["de.UTF-8", "en_US.UTF-8", "C.UTF-8"]));
}

#[test]
fn candidates_for_languages() {
    assert_eq!(locale_candidates("fr_FR.UTF-8"), s(&["fr_FR", "fr-FR", "fr"]));
    assert_eq!(locale_candidates("pt-BR"), s(&["pt-BR", "pt_BR", "pt"]));
    assert_eq!(locale_candidates("ar"), s(&["ar"]));
    assert_eq!(locale_candidates("de_DE@euro:en"), s(&["de_DE", "de-DE", "de"]));
    assert_eq!(locale_candidates("  tr  "), s(&["tr"]));
    assert_eq!(locale_candidates(""), s(&["en"]));
    assert_eq!(locale_candidates(".UTF-8"), s(&["en"]));
}

#[test]
fn catalog_file_paths() {
    assert_eq!(
        catalog_paths("/usr/share/locale", "fr_FR", "gtk40"),
        s(&[
            "/usr/share/locale/fr_FR/LC_MESSAGES/gtk40.mo",
            "/usr/share/locale/fr-FR/LC_MESSAGES/gtk40.mo",
            "/usr/share/locale/fr/LC_MESSAGES/gtk40.mo",
        ])
    );
}

#[test]
fn snapshot_language_precedence() {
    let snap = LocaleSnapshot::from_env(Some("fr:en".into()), Some("ar_DZ.UTF-8".into()), None);
    assert_eq!(language_of_snapshot(&snap).as_deref(), Some("fr"));
    let snap = LocaleSnapshot::from_env(Some("C".into()), Some("ar_DZ.UTF-8".into()), None);
    assert_eq!(language_of_snapshot(&snap).as_deref(), Some("ar_DZ"));
    let snap = LocaleSnapshot::from_env(Some("".into()), None, Some("es_ES.UTF-8".into()));
    assert_eq!(snap.language, None);
    assert_eq!(language_of_snapshot(&snap).as_deref(), Some("es_ES"));
    let snap = LocaleSnapshot::from_env(None, Some("POSIX".into()), Some("C".into()));
    assert_eq!(language_of_snapshot(&snap), None);
    let snap = LocaleSnapshot::from_env(Some("tr".into()), None, None);
    assert_eq!(detect_system_locale(Some(&snap)), "tr");
    assert_eq!(language_to_apply("ar", Some(&snap)), "ar");
    assert_eq!(language_to_apply("auto", Some(&snap)), "tr");
    assert_eq!(language_to_apply("", Some(&snap)), "tr");
}

#[test]
fn reported_locale_language() {
    assert_eq!(language_of_reported_locale("fr_FR.UTF-8").as_deref(), Some("fr"));
    assert_eq!(language_of_reported_locale("C"), None);
    assert_eq!(language_of_reported_locale("POSIX"), None);
    assert_eq!(language_of_reported_locale(""), None);
}

#[test]
fn language_hint_precedence() {
    assert_eq!(language_hint(Some("ar".into()), Some("fr".into()), None, None), "ar");
    assert_eq!(language_hint(Some("auto".into()), Some("fr".into()), None, None), "fr");
    assert_eq!(language_hint(None, Some("".into()), None, Some("es_ES.UTF-8".into())), "es_ES.UTF-8");
    assert_eq!(language_hint(None, None, None, None), "en");
}

#[test]
fn locale_dir_resolution() {
    let base = LocaleDirProbes {
        build_dir: None,
        app_share_exists: false,
        snap: None,
        snap_app_locale_exists: false,
        target_locale: None,
        po_exists: false,
    };
    assert_eq!(resolve_locale_dir(&base), "./po");
    let p = LocaleDirProbes { po_exists: true, ..base.clone() };
    assert_eq!(resolve_locale_dir(&p), "po");
    let p = LocaleDirProbes { snap: Some("/snap/khushu/1".into()), ..base.clone() };
    assert_eq!(resolve_locale_dir(&p), "/snap/khushu/1/usr/share/locale");
    let p = LocaleDirProbes {
        snap: Some("/snap/khushu/1".into()),
        snap_app_locale_exists: true,
        ..base.clone()
    };
    assert_eq!(resolve_locale_dir(&p), "/snap/khushu/1/usr/share/khushu/locale");
    let p = LocaleDirProbes { app_share_exists: true, ..p };
    assert_eq!(resolve_locale_dir(&p), "/app/share/locale");
    let p = LocaleDirProbes { build_dir: Some("/opt/locale".into()), ..p };
    assert_eq!(resolve_locale_dir(&p), "/opt/locale");
}

#[test]
fn library_catalog_directories() {
    assert_eq!(
        custom_library_locale_dir("/usr/share/locale", true, false, None, false),
        "/usr/share/khushu/locale"
    );
    assert_eq!(custom_library_locale_dir("/usr/share/locale", false, false, None, false), "/usr/share/locale");
    assert_eq!(
        custom_library_locale_dir("po", false, false, Some("/snap/k"), true),
        "/snap/k/usr/share/khushu/locale"
    );
    let dirs = library_dir_candidates("gtk40", "po", "custom", Some("/snap/k"));
    assert_eq!(
        dirs,
        s(&["custom", "/usr/share/locale", "/usr/share/locale-langpack", "/snap/k/usr/share/locale", "custom", "po"])
    );
    let dirs = library_dir_candidates("other", "po", "custom", None);
    assert_eq!(dirs, s(&["/usr/share/locale", "/usr/share/locale-langpack", "custom", "po"]));
    assert_eq!(first_with_catalog(&dirs, &vec![false, true, true, false], "po"), "/usr/share/locale-langpack");
    assert_eq!(first_with_catalog(&dirs, &vec![false, false, false, false], "po"), "po");
}

#[test]
fn translation_choice() {
    assert_eq!(pick_translation("Quit", &s(&["Quit", "", "Quitter"])), "Quitter");
    assert_eq!(pick_translation("Quit", &s(&["Quit", ""])), "Quit");
    assert_eq!(pick_translation("translator-credits", &s(&["translator-credits"])), "Djalel Oukid");
    assert_eq!(pick_translation("translator-credits", &s(&["Someone"])), "Someone");
}

#[test]
fn untranslated_key_comes_back() {
    assert_eq!(tr("Khushu test message without catalog", "en"), "Khushu test message without catalog");
    assert_eq!(tr("translator-credits", "en"), "Djalel Oukid");
}

#[test]
fn applying_c_locale_fallbacks() {
    let applied = apply_locale("xx-nonexistent");
    if let Some(a) = applied {
        assert!(a == "xx-nonexistent.UTF-8" || a == "en_US.UTF-8" || a == "C.UTF-8");
    }
}

#[test]
fn binding_a_domain_without_catalogs() {
    bind_domain("khushu", "/nonexistent/khushu/locale");
    assert_eq!(tr("Welcome to Khushu", "en"), "Welcome to Khushu");
}

#[test]
fn locale_attempts_in_order() {
    assert_eq!(locale_attempt_list("auto"), s(&[""]));
    assert_eq!(locale_attempt_list(""), s(&[""]));
    assert_eq!(locale_attempt_list("es"), s(&["es_ES.UTF-8", "es.UTF-8", "en_US.UTF-8", "C.UTF-8", "C.UTF-8"]));
    assert_eq!(locale_step("es", 0, false), LocaleStep::Try("es_ES.UTF-8".into()));
    assert_eq!(locale_step("es", 1, false), LocaleStep::Try("es.UTF-8".into()));
    assert_eq!(locale_step("es", 2, true), LocaleStep::Applied("es.UTF-8".into()));
    assert_eq!(locale_step("es", 4, false), LocaleStep::Try("C.UTF-8".into()));
    assert_eq!(locale_step("es", 5, false), LocaleStep::Failed);
    assert_eq!(locale_step("auto", 0, false), LocaleStep::Try(String::new()));
    assert_eq!(locale_step("auto", 1, false), LocaleStep::Failed);
    assert_eq!(locale_step("auto", 1, true), LocaleStep::Applied(String::new()));
}

#[test]
fn language_for_auto_setting() {
    let snap = LocaleSnapshot::from_env(None, None, Some("fr_FR.UTF-8".into()));
    assert_eq!(language_to_apply("auto", Some(&snap)), "fr_FR");
    assert_eq!(language_to_apply("de", Some(&snap)), "de");
}

#[test]
fn binding_a_domain_to_utf8() {
    assert!(Utf8Domain::bind("khushu-test-domain").is_some());
}

#[test]
fn language_of_the_system_locale() {
    assert_eq!(language_of_system_locale(Some("fr_FR.UTF-8")), "fr");
    assert_eq!(language_of_system_locale(Some("ar_DZ.UTF-8")), "ar");
    assert_eq!(language_of_system_locale(Some("C")), "en");
    assert_eq!(language_of_system_locale(Some("POSIX")), "en");
    assert_eq!(language_of_system_locale(Some("")), "en");
    assert_eq!(language_of_system_locale(None), "en");
}
