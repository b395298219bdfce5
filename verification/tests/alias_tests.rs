use lsend::alias::{
    has_locale,
    adjective_list, combine, fruit_list, generate_random_alias_for_locale, load_or_create, locale_template,
    parse_locale_tag, read_persisted, regenerate, resolve_locale_tag, resolve_system_locale_id, set_persisted,
    show_or_create, validate_alias, LocaleEnv,
};

fn env(system: Option<&str>) -> LocaleEnv {
    LocaleEnv { system: system.map(|s| s.to_string()), lc_all: None, lc_messages: None, lang: None }
}

#[test]
fn english_combination_matches_official_pattern() {
    let alias = generate_random_alias_for_locale("en");
    assert!(!alias.is_empty());
    let adj = adjective_list()[0];
    let fruit = fruit_list()[0];
    assert_eq!(combine(locale_template("en"), adj, fruit), format!("{adj} {fruit}"));
}

#[test]
fn chinese_combination_uses_particle() {
    let alias = combine(locale_template("zh-CN"), "可爱", "苹果");
    assert_eq!(alias, "可爱的苹果");
}

#[test]
fn romanian_combination_puts_fruit_first() {
    let alias = combine(locale_template("ro"), "Drăguță", "Banana");
    assert_eq!(alias, "Banana Drăguță");
}

#[test]
fn malay_combination_uses_yang() {
    let alias = combine(locale_template("ms"), "Comel", "Epal");
    assert_eq!(alias, "Epal yang Comel");
}

#[test]
fn resolves_zh_cn_locale_tag() {
    assert_eq!(resolve_locale_tag("zh-CN"), "zh-CN");
    assert_eq!(resolve_locale_tag("zh_CN.UTF-8"), "zh-CN");
}

#[test]
fn resolves_pt_br_locale_tag() {
    assert_eq!(resolve_locale_tag("pt-BR"), "pt-BR");
}

#[test]
fn resolves_sr_cyrl_locale_tag() {
    assert_eq!(resolve_locale_tag("sr-Cyrl"), "sr-Cyrl");
}

#[test]
fn resolves_other_locale_tags() {
    assert_eq!(resolve_locale_tag(""), "en");
    assert_eq!(resolve_locale_tag("pt-PT"), "pt-PT");
    assert_eq!(resolve_locale_tag("pt"), "pt-BR");
    assert_eq!(resolve_locale_tag("tl"), "fil-PH");
    assert_eq!(resolve_locale_tag("es-MX"), "es-ES");
    assert_eq!(resolve_locale_tag("de_DE"), "de");
    assert_eq!(resolve_locale_tag("en-IN"), "en-IN");
    assert_eq!(resolve_locale_tag("xx-YY"), "en");
    assert_eq!(resolve_locale_tag("sr-cyrl-RS"), "sr-Cyrl");
}

#[test]
fn parse_locale_tag_splits_language_script_region() {
    let p = parse_locale_tag("  ZH_hant_tw ");
    assert_eq!(p.language, "zh");
    assert_eq!(p.script.as_deref(), Some("hant"));
    assert_eq!(p.region.as_deref(), Some("TW"));
    let q = parse_locale_tag("--");
    assert_eq!(q.language, "en");
    assert!(q.script.is_none() && q.region.is_none());
}

#[test]
fn system_locale_falls_back_to_environment_then_english() {
    assert_eq!(resolve_system_locale_id(&env(Some("ro-RO"))), "ro");
    let e = LocaleEnv {
        system: None,
        lc_all: Some("C".to_string()),
        lc_messages: Some(" ".to_string()),
        lang: Some("ms_MY.UTF-8".to_string()),
    };
    assert_eq!(resolve_system_locale_id(&e), "ms");
    assert_eq!(resolve_system_locale_id(&env(None)), "en");
}

#[test]
fn load_or_create_persists_alias() {
    let (first, written) = load_or_create(None, &env(Some("en"))).unwrap();
    let written = written.expect("new alias is written");
    assert_eq!(written, format!("{first}\n"));
    let (second, again) = load_or_create(Some(written), &env(Some("en"))).unwrap();
    assert_eq!(first, second);
    assert!(again.is_none());
}

#[test]
fn regenerate_overwrites_persisted_alias() {
    let (result, written) = regenerate("/cfg", Some("Old Alias\n".to_string()), Some("en"), &env(None)).unwrap();
    assert_eq!(result.previous.as_deref(), Some("Old Alias"));
    assert_ne!(result.alias, "Old Alias");
    assert_eq!(result.path, "/cfg/alias.txt");
    assert_eq!(read_persisted(Some(written)), Some(result.alias));
}

#[test]
fn set_persisted_rejects_empty_alias() {
    assert!(set_persisted("/cfg", None, "   ").is_err());
}

#[test]
fn show_or_create_generates_when_missing() {
    let (result, written) = show_or_create("/cfg", None, &env(Some("en"))).unwrap();
    assert!(result.created);
    assert!(!result.alias.is_empty());
    assert_eq!(result.path, "/cfg/alias.txt");
    assert!(written.is_some());
    let (shown, none) = show_or_create("/cfg/", Some("Existing Name\n".to_string()), &env(None)).unwrap();
    assert!(!shown.created);
    assert_eq!(shown.alias, "Existing Name");
    assert_eq!(shown.path, "/cfg/alias.txt");
    assert!(none.is_none());
}

#[test]
fn run_set_rejects_too_long() {
    let too_long = "a".repeat(256);
    assert_eq!(validate_alias(&too_long).unwrap_err(), "Alias must be at most 255 characters");
    assert_eq!(validate_alias(&"a".repeat(255)).unwrap(), "a".repeat(255));
    let multibyte = "é".repeat(255);
    assert_eq!(validate_alias(&multibyte).unwrap(), multibyte);
    assert!(validate_alias(&"é".repeat(256)).is_err());
}

#[test]
fn run_set_persists_alias() {
    let (result, written) = set_persisted("/cfg", Some("Old\n".to_string()), "  My Laptop ").unwrap();
    assert_eq!(result.previous.as_deref(), Some("Old"));
    assert_eq!(result.alias, "My Laptop");
    assert_eq!(written, "My Laptop\n");
    assert_eq!(read_persisted(Some(written)).as_deref(), Some("My Laptop"));
}

#[test]
fn read_persisted_ignores_blank_file() {
    assert_eq!(read_persisted(Some("  \n".to_string())), None);
    assert_eq!(read_persisted(None), None);
}

#[test]
fn locale_tag_spelling_does_not_change_the_locale() {
    assert_eq!(resolve_locale_tag("PT_br"), resolve_locale_tag("pt-BR"));
    assert_eq!(resolve_locale_tag("  zh_cn "), "zh-CN");
    assert_eq!(resolve_locale_tag("SR-CYRL"), resolve_locale_tag("sr-Cyrl"));
    assert_eq!(resolve_locale_tag("de_DE"), resolve_locale_tag("DE-de"));
}

#[test]
fn generated_alias_reloads_as_itself() {
    let (alias, written) = load_or_create(None, &env(Some("en-US"))).unwrap();
    let written = written.expect("a new alias is written");
    assert_eq!(written, format!("{alias}\n"));
    let (again, none) = load_or_create(Some(written), &env(Some("en-US"))).unwrap();
    assert_eq!(again, alias);
    assert!(none.is_none());
    for locale in ["zh-CN", "ro", "ms", "de"] {
        let a = generate_random_alias_for_locale(locale);
        assert_eq!(a.trim(), a);
        assert_eq!(validate_alias(&a).unwrap(), a);
    }
}

#[test]
fn regenerate_then_load_gives_the_new_alias() {
    let (res, written) = regenerate("/cfg", Some("Old Alias\n".to_string()), Some("en"), &env(None)).unwrap();
    assert_eq!(res.previous.as_deref(), Some("Old Alias"));
    assert_ne!(res.alias, "Old Alias");
    let (loaded, _) = load_or_create(Some(written), &env(None)).unwrap();
    assert_eq!(loaded, res.alias);
}

#[test]
fn inherits_english_words_for_german_locale() {
    assert!(has_locale("de"));
    assert_eq!(locale_template("de"), locale_template("en"));
    for _ in 0..50 {
        let alias = generate_random_alias_for_locale("de");
        let (adjective, fruit) = alias.split_once(' ').expect("adjective and fruit");
        assert!(adjective_list().contains(&adjective));
        assert!(fruit_list().contains(&fruit));
    }
}

#[test]
fn show_or_create_always_returns_an_alias() {
    let (shown, written) = show_or_create("/cfg", None, &env(Some("en-US"))).unwrap();
    assert!(shown.created);
    assert!(!shown.alias.is_empty());
    assert_eq!(shown.path, "/cfg/alias.txt");
    let written = written.expect("a new alias is written");
    assert_eq!(read_persisted(Some(written)), Some(shown.alias.clone()));
    let (again, none) = show_or_create("/cfg", Some("  \n".to_string()), &env(Some("fr"))).unwrap();
    assert!(again.created);
    assert!(none.is_some());
}
