use maomi_lib::i18n::{trans_code, trans_text_of, LocaleGroup, TransCode, TransRes};
use maomi_lib::i18n_format::{do_format, toml_str_escape, FormatMetadataItemOwned, FormatMetadataOwned, LocaleNamespace};

fn ns(name: &str, entries: &[(&str, &str)]) -> LocaleNamespace {
    LocaleNamespace {
        name: name.to_string(),
        entries: entries.iter().map(|(a, b)| (a.to_string(), b.to_string())).collect(),
    }
}

fn item(namespace: &str, src: &str, translated: Option<&str>) -> FormatMetadataItemOwned {
    FormatMetadataItemOwned {
        namespace: namespace.to_string(),
        src: src.to_string(),
        translated: translated.map(|x| x.to_string()),
    }
}

#[test]
fn simple_translation() {
    let locale = vec![ns("translation", &[("abc", "def")])];
    let group = LocaleGroup::get_default(Some(&locale), false);
    assert!(group.need_trans());
    let (res, record) = group.trans("abc");
    assert!(matches!(res, TransRes::Done("def")));
    assert!(record.is_none());
    assert_eq!(trans_text_of(&res, "abc"), Ok("def".to_string()));
}

#[test]
fn scoped_translation() {
    let locale = vec![ns("translation", &[("abc", "def")]), ns("tt", &[("abc", "ghi")])];
    let group = LocaleGroup::get(Some(&locale), false, "tt");
    let (res, _) = group.trans("abc");
    assert!(matches!(res, TransRes::Done("ghi")));
}

#[test]
fn missing_translation_and_group() {
    let locale = vec![ns("translation", &[("abc", "def")])];
    let group = LocaleGroup::get_default(Some(&locale), true);
    let (res, record) = group.trans("xyz");
    assert!(matches!(res, TransRes::LackTrans));
    let record = record.unwrap();
    assert_eq!((record.namespace, record.src, record.translated), ("translation", "xyz", None));
    assert_eq!(trans_text_of(&res, "xyz"), Err("lacks translation".to_string()));

    let group = LocaleGroup::get(Some(&locale), true, "nope");
    let (res, record) = group.trans("abc");
    assert!(matches!(res, TransRes::LackTransGroup("nope")));
    assert_eq!(record.unwrap().translated, None);
    assert_eq!(trans_text_of(&res, "abc"), Err("translation group \"nope\" not found".to_string()));
}

#[test]
fn recorded_lookup() {
    let locale = vec![ns("translation", &[("abc", "def"), ("abc", "second")])];
    let group = LocaleGroup::get_default(Some(&locale), true);
    let (res, record) = group.trans("abc");
    assert!(matches!(res, TransRes::Done("def")));
    let record = record.unwrap();
    assert_eq!((record.namespace, record.src, record.translated), ("translation", "abc", Some("def")));
}

#[test]
fn no_locale_keeps_texts() {
    let group = LocaleGroup::get(None, true, "translation");
    assert!(!group.need_trans());
    let (res, record) = group.trans("abc");
    assert!(matches!(res, TransRes::NotNeeded));
    assert!(record.is_none());
    assert_eq!(trans_text_of(&res, "abc"), Ok("abc".to_string()));
}

#[test]
fn toml_escape() {
    assert_eq!(toml_str_escape("a\"b\\c\nd\te\r\u{8}\u{c}"), "a\\\"b\\\\c\\nd\\te\\r\\b\\f");
    assert_eq!(toml_str_escape("plain"), "plain");
}

#[test]
fn format_translation_file() {
    let meta = FormatMetadataOwned {
        version: 1,
        item: vec![
            item("translation", "abc", Some("def")),
            item("translation", "xyz", None),
            item("tt", "abc", Some("ghi")),
            item("translation", "abc", Some("def")),
        ],
    };
    let locale = vec![ns("translation", &[("abc", "def"), ("old", "unused")]), ns("tt", &[("abc", "ghi")])];
    let r = do_format(meta, locale, None);
    assert_eq!(
        r,
        "# formatted by maomi-i18n-format\n\n[translation]\n\"abc\" = \"def\"\n# \"xyz\" = \"\"\n# (unused)\n\"old\" = \"unused\"\n\n[tt]\n\"abc\" = \"ghi\"\n"
    );
}

#[test]
fn format_with_missing_sign_and_unused_namespace() {
    let meta = FormatMetadataOwned { version: 1, item: vec![item("translation", "a\"q", None)] };
    let locale = vec![ns("extra", &[("k", "v")]), ns("empty", &[])];
    let r = do_format(meta, locale, Some("TODO"));
    assert_eq!(
        r,
        "# formatted by maomi-i18n-format\n\n[translation]\n# TODO # \"a\\\"q\" = \"\"\n\n[extra]\n# (unused)\n\"k\" = \"v\"\n"
    );
}

#[test]
fn format_empty() {
    let meta = FormatMetadataOwned { version: 1, item: vec![] };
    let r = do_format(meta, vec![], None);
    assert_eq!(r, "# formatted by maomi-i18n-format\n\n[translation]\n");
}

#[test]
fn toml_escape_round_trips_through_toml() {
    for s in ["plain", "a\"q\\b", "tab\there\nnew\u{8}\u{c}\r", "中文 ☃", ""] {
        let doc = format!("k = \"{}\"", toml_str_escape(s));
        let table: toml::Table = toml::from_str(&doc).unwrap();
        assert_eq!(table["k"].as_str(), Some(s));
    }
}

#[test]
fn translation_code_forms() {
    match trans_code(&TransRes::NotNeeded, "abc", 0) {
        TransCode::Translated { text, formatted, at_source } => {
            assert_eq!((text.as_str(), formatted, at_source), ("abc", false, true))
        }
        _ => panic!(),
    }
    match trans_code(&TransRes::Done("def"), "abc", 2) {
        TransCode::Translated { text, formatted, at_source } => {
            assert_eq!((text.as_str(), formatted, at_source), ("def", true, false))
        }
        _ => panic!(),
    }
    match trans_code(&TransRes::LackTrans, "abc", 0) {
        TransCode::CompileError(m) => assert_eq!(m, "lacks translation"),
        _ => panic!(),
    }
    match trans_code(&TransRes::LackTransGroup("g"), "abc", 0) {
        TransCode::CompileError(m) => assert_eq!(m, "translation group \"g\" not found"),
        _ => panic!(),
    }
}
