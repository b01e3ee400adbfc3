use leptos_i18n_parser::args::{check_count_arg, parse_var_ref, ArgValue, CountArg};
use leptos_i18n_parser::config::{check_config, check_file_formats, find_duplicates, Config, FileFormat};
use leptos_i18n_parser::error::Error;
use leptos_i18n_parser::formatter::{check_formatter, Formatter};
use leptos_i18n_parser::foreign::{classify_text, resolve_all, resolve_entry, Entry, EntryKind};
use leptos_i18n_parser::values::{flatten, parse_range_block, RawValue};
use leptos_i18n_parser::initial::{base_locale, fetch_locale, signal_maybe_once_then, signal_once_then, RenderMode};
use leptos_i18n_parser::key::{is_valid_key, make_key, parse_key_path, Key, KeyPath};
use leptos_i18n_parser::locale::parse_locale;
use leptos_i18n_parser::plurals::{
    admit_plural_block, check_plural_categories, missing_categories, parse_plural_suffix, plural_rule_type, PluralCategory,
    PluralForm, PluralRuleType,
};
use leptos_i18n_parser::ranges::{
    merge_range_type, parse_arm, parse_literal, parse_range, parse_range_type, ArmBounds, RangeType,
};
use leptos_i18n_parser::schema::{check_default_locale, check_locale_shape, validate_locales, LocaleEntries};

fn key(s: &str) -> Key {
    make_key(s).unwrap()
}

fn path(parts: &[&str]) -> KeyPath {
    let mut p = KeyPath::new();
    for s in parts {
        p.push_key(key(s));
    }
    p
}

fn entry(parts: &[&str], kind: EntryKind) -> Entry {
    Entry { path: path(parts), kind }
}

fn strings(xs: &[&str]) -> Vec<String> {
    xs.iter().map(|s| s.to_string()).collect()
}

#[test]
fn make_key_accepts_identifiers_and_keeps_them() {
    for s in ["a", "_x", "hello_world", "A1_b2", "café", "ключ"] {
        let k = make_key(s).unwrap();
        assert_eq!(k.as_str(), s);
        assert!(is_valid_key(s));
    }
}

#[test]
fn make_key_rejects_non_identifiers() {
    for s in ["", "1a", "a b", "a-b", "a.b", "é!"] {
        match make_key(s) {
            Err(Error::InvalidKey(raw)) => assert_eq!(raw, s),
            other => panic!("unexpected {:?}", other),
        }
    }
}

#[test]
fn key_path_renders_dotted_and_pops() {
    let mut p = path(&["a", "b", "c"]);
    assert_eq!(p.render(), "a.b.c");
    assert_eq!(p.len(), 3);
    let last = p.pop_key().unwrap();
    assert_eq!(last.as_str(), "c");
    assert_eq!(p.render(), "a.b");
    assert!(p.same_as(&path(&["a", "b"])));
    assert!(!p.same_as(&path(&["a", "c"])));
    assert_eq!(KeyPath::new().render(), "");
}

#[test]
fn parse_locale_accepts_tags_and_is_idempotent() {
    let l = parse_locale("en").unwrap();
    assert_eq!(l.name().as_str(), "en");
    let again = parse_locale(l.name().as_str()).unwrap();
    assert_eq!(again.name().as_str(), "en");
    assert!(parse_locale("fr").is_ok());
}

#[test]
fn parse_locale_rejects_malformed_tags() {
    match parse_locale("x") {
        Err(Error::InvalidLocale { locale, .. }) => assert_eq!(locale, "x"),
        other => panic!("unexpected {:?}", other),
    }
    assert!(matches!(parse_locale("en US"), Err(Error::InvalidKey(_))));
}

#[test]
fn literals_parse_per_range_type() {
    let s = "-12";
    assert_eq!(parse_literal(s, 0, 3, RangeType::I32), Some(-12));
    assert_eq!(parse_literal(s, 0, 3, RangeType::U8), None);
    assert_eq!(parse_literal("255", 0, 3, RangeType::U8), Some(255));
    assert_eq!(parse_literal("256", 0, 3, RangeType::U8), None);
    assert_eq!(parse_literal("1.5", 0, 3, RangeType::F64), Some(1_500_000_000_000_000_000));
    assert_eq!(parse_literal("1.5", 0, 3, RangeType::I32), None);
    assert_eq!(parse_literal("2", 0, 1, RangeType::F32), Some(2_000_000_000_000_000_000));
    assert_eq!(parse_literal("1.", 0, 2, RangeType::F64), None);
}

#[test]
fn arms_parse_into_inclusive_bounds() {
    assert_eq!(
        parse_arm("..5", RangeType::I32).unwrap(),
        ArmBounds { fallback: false, start: None, end: Some(4) }
    );
    assert_eq!(
        parse_arm("3..=10", RangeType::U8).unwrap(),
        ArmBounds { fallback: false, start: Some(3), end: Some(10) }
    );
    assert_eq!(
        parse_arm("7", RangeType::I64).unwrap(),
        ArmBounds { fallback: false, start: Some(7), end: Some(7) }
    );
    assert_eq!(
        parse_arm("..", RangeType::F64).unwrap(),
        ArmBounds { fallback: false, start: None, end: None }
    );
    assert_eq!(
        parse_arm("_", RangeType::I8).unwrap(),
        ArmBounds { fallback: true, start: None, end: None }
    );
    assert_eq!(
        parse_arm("0.5..=1.25", RangeType::F32).unwrap(),
        ArmBounds {
            fallback: false,
            start: Some(500_000_000_000_000_000),
            end: Some(1_250_000_000_000_000_000)
        }
    );
}

#[test]
fn float_range_with_exclusive_end_is_refused() {
    for p in ["3..10", "..5", "0.5..1.5"] {
        for t in [RangeType::F32, RangeType::F64] {
            match parse_arm(p, t) {
                Err(Error::InvalidBoundEnd { range, range_type }) => {
                    assert_eq!(range, p);
                    assert_eq!(range_type, t);
                }
                other => panic!("unexpected {:?}", other),
            }
        }
    }
}

#[test]
fn integer_exclusive_end_at_type_minimum_is_refused() {
    assert!(matches!(parse_arm("..-128", RangeType::I8), Err(Error::InvalidBoundEnd { .. })));
    assert!(matches!(parse_arm("..0", RangeType::U32), Err(Error::InvalidBoundEnd { .. })));
    assert!(parse_arm("..-127", RangeType::I8).is_ok());
}

#[test]
fn arm_errors_by_kind() {
    assert!(matches!(parse_arm("", RangeType::I32), Err(Error::EmptyRange)));
    match parse_arm("5..=3", RangeType::I32) {
        Err(Error::ImpossibleRange(r)) => assert_eq!(r, "5..=3"),
        other => panic!("unexpected {:?}", other),
    }
    assert!(matches!(parse_arm("3..3", RangeType::I32), Err(Error::ImpossibleRange(_))));
    assert!(matches!(parse_arm("2.5..=1.5", RangeType::F64), Err(Error::ImpossibleRange(_))));
    match parse_arm("abc", RangeType::U16) {
        Err(Error::RangeParse { range, range_type }) => {
            assert_eq!(range, "abc");
            assert_eq!(range_type, RangeType::U16);
        }
        other => panic!("unexpected {:?}", other),
    }
    assert!(matches!(parse_arm("300", RangeType::U8), Err(Error::RangeParse { .. })));
    assert!(matches!(parse_arm("1..=", RangeType::U8), Err(Error::RangeParse { .. })));
}

#[test]
fn range_with_fallback_last_parses() {
    let arms = parse_range(RangeType::I32, &strings(&["0", "1..=5", "_"])).unwrap();
    assert_eq!(arms.len(), 3);
    assert!(arms[2].fallback);
    assert!(parse_range(RangeType::U8, &strings(&["0", ".."])).is_ok());
}

#[test]
fn range_fallback_rules() {
    let errs = parse_range(RangeType::I32, &strings(&["_", "0", "_"])).unwrap_err();
    assert!(errs.iter().any(|e| matches!(e, Error::MultipleFallbacks)));
    assert!(errs.iter().any(|e| matches!(e, Error::InvalidFallback)));
    let errs = parse_range(RangeType::I32, &strings(&["_", "0"])).unwrap_err();
    assert!(errs.iter().any(|e| matches!(e, Error::InvalidFallback)));
    assert!(!errs.iter().any(|e| matches!(e, Error::MultipleFallbacks)));
}

#[test]
fn range_without_fallback_is_not_exhaustive() {
    let errs = parse_range(RangeType::U8, &strings(&["0", "1..=5"])).unwrap_err();
    assert_eq!(errs.len(), 1);
    assert!(matches!(errs[0], Error::MissingFallback(RangeType::U8)));
}

#[test]
fn range_collects_every_arm_error() {
    let errs = parse_range(RangeType::F64, &strings(&["1..2", "5..=3", "_"])).unwrap_err();
    assert!(errs.iter().any(|e| matches!(e, Error::InvalidBoundEnd { .. })));
    assert!(errs.iter().any(|e| matches!(e, Error::ImpossibleRange(_))));
}

#[test]
fn range_type_names() {
    assert_eq!(parse_range_type("u16").unwrap(), RangeType::U16);
    assert_eq!(parse_range_type("f32").unwrap(), RangeType::F32);
    match parse_range_type("i128") {
        Err(Error::InvalidRangeType(t)) => assert_eq!(t, "i128"),
        other => panic!("unexpected {:?}", other),
    }
}

#[test]
fn range_type_mismatch_at_one_key_path() {
    let kp = path(&["count_key"]);
    match merge_range_type(&kp, RangeType::I32, RangeType::F64) {
        Err(Error::RangeTypeMissmatch { key_path, type1, type2 }) => {
            assert_eq!(key_path.render(), "count_key");
            assert_eq!(type1, RangeType::I32);
            assert_eq!(type2, RangeType::F64);
        }
        other => panic!("unexpected {:?}", other),
    }
    assert_eq!(merge_range_type(&kp, RangeType::U8, RangeType::U8).unwrap(), RangeType::U8);
}

#[test]
fn foreign_key_cycle_is_reported() {
    let es = vec![
        entry(&["a"], EntryKind::Foreign(path(&["b"]))),
        entry(&["b"], EntryKind::Foreign(path(&["a"]))),
    ];
    match resolve_entry(&key("en"), &es, 0) {
        Err(Error::RecursiveForeignKey { locale, key_path }) => {
            assert_eq!(locale.as_str(), "en");
            assert_eq!(key_path.render(), "a");
        }
        other => panic!("unexpected {:?}", other),
    }
    assert_eq!(resolve_all(&key("en"), &es).unwrap_err().len(), 2);
}

#[test]
fn foreign_key_missing_and_invalid_targets() {
    let es = vec![
        entry(&["a"], EntryKind::Foreign(path(&["nope"]))),
        entry(&["b"], EntryKind::Foreign(path(&["group"]))),
        entry(&["group"], EntryKind::Subkeys),
        entry(&["group", "x"], EntryKind::Text),
    ];
    match resolve_entry(&key("en"), &es, 0) {
        Err(Error::MissingForeignKey { foreign_key, key_path, .. }) => {
            assert_eq!(foreign_key.render(), "nope");
            assert_eq!(key_path.render(), "a");
        }
        other => panic!("unexpected {:?}", other),
    }
    match resolve_entry(&key("en"), &es, 1) {
        Err(Error::InvalidForeignKey { foreign_key, key_path, .. }) => {
            assert_eq!(foreign_key.render(), "group");
            assert_eq!(key_path.render(), "b");
        }
        other => panic!("unexpected {:?}", other),
    }
}

#[test]
fn foreign_key_chain_resolves_to_leaf() {
    let es = vec![
        entry(&["a"], EntryKind::Foreign(path(&["b"]))),
        entry(&["b"], EntryKind::Foreign(path(&["c", "d"]))),
        entry(&["c", "d"], EntryKind::Text),
    ];
    assert_eq!(resolve_entry(&key("en"), &es, 0).unwrap(), 2);
    assert_eq!(resolve_all(&key("en"), &es).unwrap(), vec![2, 2, 2]);
}

#[test]
fn plural_suffixes_and_families() {
    assert_eq!(
        parse_plural_suffix("one"),
        Some(PluralForm { rule_type: PluralRuleType::Cardinal, category: PluralCategory::One })
    );
    assert_eq!(
        parse_plural_suffix("ordinal_few"),
        Some(PluralForm { rule_type: PluralRuleType::Ordinal, category: PluralCategory::Few })
    );
    assert_eq!(parse_plural_suffix("ordinal_"), None);
    assert_eq!(parse_plural_suffix("lots"), None);
}

#[test]
fn mixed_plural_families_conflict() {
    let forms = vec![
        PluralForm { rule_type: PluralRuleType::Cardinal, category: PluralCategory::One },
        PluralForm { rule_type: PluralRuleType::Ordinal, category: PluralCategory::Other },
    ];
    match plural_rule_type(&key("en"), &path(&["items"]), &forms) {
        Err(Error::ConflictingPluralRuleType { locale, key_path }) => {
            assert_eq!(locale.as_str(), "en");
            assert_eq!(key_path.render(), "items");
        }
        other => panic!("unexpected {:?}", other),
    }
    let ord = vec![PluralForm { rule_type: PluralRuleType::Ordinal, category: PluralCategory::Two }];
    assert_eq!(plural_rule_type(&key("en"), &path(&["items"]), &ord).unwrap(), PluralRuleType::Ordinal);
    assert_eq!(plural_rule_type(&key("en"), &path(&["items"]), &vec![]).unwrap(), PluralRuleType::Cardinal);
}

#[test]
fn plural_categories_required_by_locale() {
    let en = parse_locale("en").unwrap();
    let forms = vec![PluralForm { rule_type: PluralRuleType::Cardinal, category: PluralCategory::Other }];
    let missing = check_plural_categories(&en, PluralRuleType::Cardinal, &forms).unwrap();
    assert_eq!(missing, vec![PluralCategory::One]);
    let missing = missing_categories(
        PluralRuleType::Ordinal,
        &forms,
        &vec![PluralCategory::One, PluralCategory::Other],
    );
    assert_eq!(missing, vec![PluralCategory::One, PluralCategory::Other]);
}

#[test]
fn duplicate_locales_in_config() {
    let cfg = Config {
        locales: strings(&["en", "en"]),
        namespaces: vec![],
        json: true,
        json5: false,
        yaml: false,
        translations_uri: None,
        dynamic_load_csr: false,
    };
    match check_config(&cfg) {
        Err(Error::DuplicateLocalesInConfig(d)) => assert_eq!(d, strings(&["en"])),
        other => panic!("unexpected {:?}", other),
    }
    assert_eq!(find_duplicates(&strings(&["a", "b", "a", "c", "b", "a"])), strings(&["a", "b"]));
    assert!(find_duplicates(&strings(&["a", "b"])).is_empty());
}

#[test]
fn duplicate_namespaces_and_missing_uri() {
    let mut cfg = Config {
        locales: strings(&["en", "fr"]),
        namespaces: strings(&["common", "home", "common"]),
        json: false,
        json5: false,
        yaml: true,
        translations_uri: None,
        dynamic_load_csr: true,
    };
    match check_config(&cfg) {
        Err(Error::DuplicateNamespacesInConfig(d)) => assert_eq!(d, strings(&["common"])),
        other => panic!("unexpected {:?}", other),
    }
    cfg.namespaces = strings(&["common", "home"]);
    assert!(matches!(check_config(&cfg), Err(Error::MissingTranslationsURI)));
    cfg.translations_uri = Some("i18n/{locale}.json".to_string());
    assert_eq!(check_config(&cfg).unwrap(), FileFormat::Yaml);
}

#[test]
fn file_format_count() {
    assert!(matches!(check_file_formats(false, false, false), Err(Error::NoFileFormats)));
    assert!(matches!(check_file_formats(true, false, true), Err(Error::MultipleFilesFormats)));
    assert!(matches!(check_file_formats(true, true, true), Err(Error::MultipleFilesFormats)));
    assert_eq!(check_file_formats(false, true, false).unwrap(), FileFormat::Json5);
}

#[test]
fn subkey_mismatch_between_locales() {
    let schema = vec![entry(&["a"], EntryKind::Subkeys), entry(&["a", "b"], EntryKind::Text)];
    let fr = vec![
        entry(&["a"], EntryKind::Subkeys),
        entry(&["a", "b"], EntryKind::Subkeys),
        entry(&["a", "b", "c"], EntryKind::Text),
    ];
    let errs = check_locale_shape(&key("fr"), &schema, &fr);
    assert_eq!(errs.len(), 1);
    match &errs[0] {
        Error::SubKeyMissmatch { locale, key_path } => {
            assert_eq!(locale.as_str(), "fr");
            assert_eq!(key_path.render(), "a.b");
        }
        other => panic!("unexpected {:?}", other),
    }
    let inherit = vec![entry(&["a"], EntryKind::Subkeys), entry(&["a", "b"], EntryKind::Inherit)];
    assert!(check_locale_shape(&key("fr"), &schema, &inherit).is_empty());
}

#[test]
fn explicit_default_in_default_locale() {
    let es = vec![entry(&["a"], EntryKind::Text), entry(&["b"], EntryKind::Inherit)];
    let errs = check_default_locale(&es);
    assert_eq!(errs.len(), 1);
    match &errs[0] {
        Error::ExplicitDefaultInDefault(p) => assert_eq!(p.render(), "b"),
        other => panic!("unexpected {:?}", other),
    }
}

#[test]
fn count_arg_as_quoted_string_is_invalid() {
    let r = check_count_arg(
        &key("en"),
        &path(&["a"]),
        &path(&["b"]),
        &ArgValue::Text("5".to_string()),
        RangeType::I32,
    );
    match r {
        Err(Error::InvalidCountArg { foreign_key, .. }) => assert_eq!(foreign_key.render(), "b"),
        other => panic!("unexpected {:?}", other),
    }
    let other = check_count_arg(&key("en"), &path(&["a"]), &path(&["b"]), &ArgValue::Other, RangeType::I32);
    assert!(matches!(other, Err(Error::InvalidCountArg { .. })));
}

#[test]
fn count_arg_variants() {
    let (l, a, b) = (key("en"), path(&["a"]), path(&["b"]));
    match check_count_arg(&l, &a, &b, &ArgValue::Text("{{ n }}".to_string()), RangeType::U8) {
        Ok(CountArg::Variable(v)) => assert_eq!(v, "n"),
        other => panic!("unexpected {:?}", other),
    }
    match check_count_arg(&l, &a, &b, &ArgValue::Integer(300), RangeType::U8) {
        Err(Error::CountArgOutsideRange { value, .. }) => assert_eq!(value, 300),
        other => panic!("unexpected {:?}", other),
    }
    match check_count_arg(&l, &a, &b, &ArgValue::Decimal("1.5".to_string()), RangeType::I32) {
        Err(Error::InvalidCountArgType { input_type, range_type, .. }) => {
            assert_eq!(input_type, RangeType::F64);
            assert_eq!(range_type, RangeType::I32);
        }
        other => panic!("unexpected {:?}", other),
    }
    assert!(matches!(
        check_count_arg(&l, &a, &b, &ArgValue::Integer(7), RangeType::F32),
        Ok(CountArg::Literal(7))
    ));
    assert_eq!(parse_var_ref("{{count}}"), Some("count".to_string()));
    assert_eq!(parse_var_ref("{{ 1x }}"), None);
    assert_eq!(parse_var_ref("{ n }"), None);
}

#[test]
fn formatter_checks() {
    let fs = vec![
        Formatter { name: "number".to_string(), err_message: "enable number".to_string(), enabled: true },
        Formatter { name: "date".to_string(), err_message: "enable date".to_string(), enabled: false },
    ];
    assert_eq!(check_formatter("number", &key("en"), &path(&["a"]), &fs).unwrap(), 0);
    match check_formatter("date", &key("en"), &path(&["a"]), &fs) {
        Err(Error::DisabledFormatter { formatter, .. }) => assert_eq!(formatter.err_message(), "enable date"),
        other => panic!("unexpected {:?}", other),
    }
    match check_formatter("time", &key("en"), &path(&["a"]), &fs) {
        Err(Error::UnknownFormatter { name, .. }) => assert_eq!(name, "time"),
        other => panic!("unexpected {:?}", other),
    }
}

#[test]
fn initial_locale_choice() {
    assert_eq!(signal_once_then(1, 2, true), 1);
    assert_eq!(signal_once_then(1, 2, false), 2);
    assert_eq!(signal_maybe_once_then(None, 2, true), 2);
    assert_eq!(base_locale(RenderMode::Hydrate, Some("fr"), Some("de")), Some("de"));
    assert_eq!(base_locale(RenderMode::Hydrate, Some("fr"), None), Some("fr"));
    assert_eq!(base_locale(RenderMode::Ssr, Some("fr"), Some("de")), Some("fr"));
    assert_eq!(fetch_locale(RenderMode::Csr, Some("fr"), None, "en", true), "fr");
    assert_eq!(fetch_locale(RenderMode::Csr, Some("fr"), None, "en", false), "en");
    assert_eq!(fetch_locale(RenderMode::Ssr, None, None, "en", true), "en");
}

#[test]
fn validation_collects_errors_across_locales() {
    let default = LocaleEntries {
        locale: key("en"),
        entries: vec![entry(&["a"], EntryKind::Subkeys), entry(&["a", "b"], EntryKind::Text)],
    };
    let fr = LocaleEntries {
        locale: key("fr"),
        entries: vec![
            entry(&["a"], EntryKind::Subkeys),
            entry(&["a", "b"], EntryKind::Subkeys),
            entry(&["c"], EntryKind::Foreign(path(&["missing"]))),
        ],
    };
    let de = LocaleEntries {
        locale: key("de"),
        entries: vec![entry(&["a"], EntryKind::Subkeys), entry(&["a", "b"], EntryKind::Inherit)],
    };
    let errs = validate_locales(&default, &vec![fr, de]);
    assert_eq!(errs.len(), 2);
    assert!(matches!(&errs[0], Error::SubKeyMissmatch { key_path, .. } if key_path.render() == "a.b"));
    assert!(matches!(&errs[1], Error::MissingForeignKey { .. }));
    let clean = LocaleEntries { locale: key("it"), entries: vec![entry(&["a"], EntryKind::Subkeys)] };
    assert!(validate_locales(&default, &vec![clean]).is_empty());
}

#[test]
fn key_paths_parse_and_render_back() {
    for s in ["a", "a.b", "greeting.formal.morning"] {
        let p = parse_key_path(s).unwrap();
        assert_eq!(p.render(), s);
    }
    assert_eq!(parse_key_path("a.b.c").unwrap().len(), 3);
    for (s, bad) in [("a..b", ""), ("a.1b", "1b"), ("", ""), ("a.", ""), ("x y.z", "x y")] {
        match parse_key_path(s) {
            Err(Error::InvalidKey(k)) => assert_eq!(k, bad),
            other => panic!("unexpected {:?}", other),
        }
    }
}

fn arm(p: &str, v: RawValue) -> RawValue {
    RawValue::Array(vec![RawValue::Str(p.to_string()), v])
}

fn text(s: &str) -> RawValue {
    RawValue::Str(s.to_string())
}

#[test]
fn range_block_reads_type_and_arms() {
    let items = vec![text("u8"), arm("0", text("none")), arm("1..=5", text("few")), arm("_", text("many"))];
    let b = parse_range_block(&key("en"), &path(&["n"]), &items).unwrap();
    assert_eq!(b.range_type, RangeType::U8);
    assert_eq!(b.arms.len(), 3);
    assert_eq!(b.values, strings(&["none", "few", "many"]));
    assert_eq!(b.arms[1], ArmBounds { fallback: false, start: Some(1), end: Some(5) });
    let untyped = vec![arm("..", text("all"))];
    assert_eq!(parse_range_block(&key("en"), &path(&["n"]), &untyped).unwrap().range_type, RangeType::I32);
}

#[test]
fn range_block_shape_errors() {
    let items = vec![
        arm("0", RawValue::Array(vec![])),
        arm("1", RawValue::Table(vec![])),
        RawValue::Int(3),
        arm("_", text("x")),
    ];
    let errs = parse_range_block(&key("en"), &path(&["n"]), &items).unwrap_err();
    assert!(errs.iter().any(|e| matches!(e, Error::NestedRanges)));
    assert!(errs.iter().any(|e| matches!(e, Error::RangeSubkeys)));
    assert!(errs.iter().any(|e| matches!(e, Error::UnexpectedToken { .. })));
    let bad_type = vec![text("i128"), arm("_", text("x"))];
    let errs = parse_range_block(&key("en"), &path(&["n"]), &bad_type).unwrap_err();
    assert!(matches!(&errs[..], [Error::InvalidRangeType(t)] if t == "i128"));
}

#[test]
fn text_values_and_references() {
    assert!(matches!(classify_text("hello"), Ok(EntryKind::Text)));
    assert!(matches!(classify_text("$t(a"), Ok(EntryKind::Text)));
    match classify_text("$t(greeting.formal)") {
        Ok(EntryKind::Foreign(p)) => assert_eq!(p.render(), "greeting.formal"),
        other => panic!("unexpected {:?}", other),
    }
    match classify_text("$t(a.2b)") {
        Err(Error::InvalidKey(k)) => assert_eq!(k, "2b"),
        other => panic!("unexpected {:?}", other),
    }
}

#[test]
fn plural_block_admission() {
    let (l, p) = (key("en"), path(&["items"]));
    assert!(matches!(admit_plural_block(&l, &p, false, false, false), Err(Error::DisabledPlurals { .. })));
    assert!(matches!(admit_plural_block(&l, &p, true, true, true), Err(Error::RangeAndPluralsMix { .. })));
    assert!(matches!(admit_plural_block(&l, &p, true, false, true), Err(Error::PluralsAtNormalKey { .. })));
    assert!(admit_plural_block(&l, &p, true, false, false).is_ok());
}

fn table(fields: Vec<(&str, RawValue)>) -> RawValue {
    RawValue::Table(fields.into_iter().map(|(k, v)| (k.to_string(), v)).collect())
}

#[test]
fn flatten_lists_entries_in_document_order() {
    let tree = table(vec![
        ("greeting", text("hello")),
        ("nested", table(vec![("a", text("$t(greeting)")), ("b", RawValue::Null)])),
        ("count", RawValue::Array(vec![arm("_", text("many"))])),
    ]);
    let es = flatten(&key("en"), &tree).unwrap();
    let rendered: Vec<String> = es.iter().map(|e| e.path.render()).collect();
    assert_eq!(rendered, strings(&["", "greeting", "nested", "nested.a", "nested.b", "count"]));
    assert!(matches!(es[0].kind, EntryKind::Subkeys));
    assert!(matches!(es[1].kind, EntryKind::Text));
    assert!(matches!(&es[3].kind, EntryKind::Foreign(p) if p.render() == "greeting"));
    assert!(matches!(es[4].kind, EntryKind::Inherit));
    assert!(matches!(es[5].kind, EntryKind::Text));
}

#[test]
fn flatten_collects_problems() {
    let tree = table(vec![
        ("bad key", text("x")),
        ("n", RawValue::Int(3)),
        ("ok", text("fine")),
        ("flag", RawValue::Bool(true)),
    ]);
    let errs = flatten(&key("en"), &tree).unwrap_err();
    assert_eq!(errs.len(), 3);
    assert!(matches!(&errs[0], Error::InvalidKey(k) if k == "bad key"));
    assert!(matches!(&errs[1], Error::UnexpectedToken { key_path, .. } if key_path.render() == "n"));
}

#[test]
fn subkey_mismatch_from_raw_trees() {
    let en = table(vec![("a", table(vec![("b", text("plain"))]))]);
    let fr = table(vec![("a", table(vec![("b", table(vec![("c", text("deeper"))]))]))]);
    let default = LocaleEntries { locale: key("en"), entries: flatten(&key("en"), &en).unwrap() };
    let other = LocaleEntries { locale: key("fr"), entries: flatten(&key("fr"), &fr).unwrap() };
    let errs = validate_locales(&default, &vec![other]);
    assert_eq!(errs.len(), 1);
    match &errs[0] {
        Error::SubKeyMissmatch { locale, key_path } => {
            assert_eq!(locale.as_str(), "fr");
            assert_eq!(key_path.render(), "a.b");
        }
        other => panic!("unexpected {:?}", other),
    }
}

#[test]
fn error_messages() {
    assert_eq!(
        Error::ImpossibleRange("5..=3".to_string()).message(),
        "the range \"5..=3\" is impossible, it end before it starts"
    );
    assert_eq!(
        Error::DuplicateLocalesInConfig(strings(&["en", "fr"])).message(),
        "Found duplicates locales in configuration (Cargo.toml): {\"en\", \"fr\"}"
    );
    assert_eq!(
        Error::SubKeyMissmatch { locale: key("fr"), key_path: path(&["a", "b"]) }.message(),
        "Missmatch value type beetween locale \"fr\" and default at key \"a.b\": one has subkeys and the other has direct value."
    );
    assert_eq!(
        Error::InvalidBoundEnd { range: "1..2".to_string(), range_type: RangeType::F64 }.message(),
        "the range \"1..2\" end bound is invalid, you can't use exclusif range with f64"
    );
    assert_eq!(
        Error::InvalidBoundEnd { range: "..0".to_string(), range_type: RangeType::U8 }.message(),
        "the range \"..0\" end bound is invalid, you can't end before u8::MIN"
    );
    assert_eq!(
        Error::RangeTypeMissmatch { key_path: path(&["k"]), type1: RangeType::I32, type2: RangeType::F64 }.message(),
        "Conflicting range value type at key \"k\", found type i32 but also type f64."
    );
    assert_eq!(
        Error::LocaleFileNotFound(vec![("a.json".to_string(), "gone".to_string())]).message(),
        "Could not found file \"a.json\" : gone\n"
    );
    assert_eq!(
        Error::MissingTranslationsURI.message(),
        "\"translations-uri\" config option is missing. You are using dynamic loading in CSR, that value is required."
    );
    match parse_locale("x") {
        Err(e) => assert!(e.message().starts_with("Found invalid locale \"x\": ")),
        Ok(_) => panic!("accepted"),
    }
}
