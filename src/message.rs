use vstd::prelude::*;

use crate::error::Error;
use crate::key::join_dots;
use crate::ranges::{is_float, RangeType};

verus! {

/// The `Debug` text of a string: quoted, with escapes.
pub uninterp spec fn debug_text(s: Seq<char>) -> Seq<char>;

/// Relies on `<str as Debug>::fmt`: the quoted, escaped text of a string,
/// which depends on the string alone.
#[verifier::external_body]
pub fn debug_str(s: &str) -> (r: String)
    ensures
        r@ == debug_text(s@),
{
    format!("{:?}", s)
}

/// Relies on `Display` of `icu_locid::ParserError`: its description.
#[verifier::external_body]
fn parser_error_text(e: &icu_locid::ParserError) -> String {
    e.to_string()
}

/// Relies on `Display` of `icu_plurals::PluralsError`: its description.
#[verifier::external_body]
fn plurals_error_text(e: &icu_plurals::PluralsError) -> String {
    e.to_string()
}

/// The name of a range type, as authors write it.
pub open spec fn range_type_text(t: RangeType) -> Seq<char> {
    match t {
        RangeType::I8 => "i8"@,
        RangeType::I16 => "i16"@,
        RangeType::I32 => "i32"@,
        RangeType::I64 => "i64"@,
        RangeType::U8 => "u8"@,
        RangeType::U16 => "u16"@,
        RangeType::U32 => "u32"@,
        RangeType::U64 => "u64"@,
        RangeType::F32 => "f32"@,
        RangeType::F64 => "f64"@,
    }
}

/// The name of a range type.
pub fn range_type_name(t: RangeType) -> (r: &'static str)
    ensures
        r@ == range_type_text(t),
{
    match t {
        RangeType::I8 => "i8",
        RangeType::I16 => "i16",
        RangeType::I32 => "i32",
        RangeType::I64 => "i64",
        RangeType::U8 => "u8",
        RangeType::U16 => "u16",
        RangeType::U32 => "u32",
        RangeType::U64 => "u64",
        RangeType::F32 => "f32",
        RangeType::F64 => "f64",
    }
}

/// The quoted names, separated by `, `.
pub open spec fn joined_debug(d: Seq<String>) -> Seq<char>
    decreases d.len(),
{
    if d.len() == 0 {
        Seq::empty()
    } else if d.len() == 1 {
        debug_text(d[0]@)
    } else {
        joined_debug(d.drop_last()) + ", "@ + debug_text(d.last()@)
    }
}

/// A set of names as it is shown: `{"a", "b"}`.
pub open spec fn set_text(d: Seq<String>) -> Seq<char> {
    "{"@ + joined_debug(d) + "}"@
}

/// One line per file that could not be read.
pub open spec fn not_found_text(errs: Seq<(String, String)>) -> Seq<char>
    decreases errs.len(),
{
    if errs.len() == 0 {
        Seq::empty()
    } else {
        not_found_text(errs.drop_last()) + "Could not found file "@ + debug_text(errs.last().0@)
            + " : "@ + errs.last().1@ + "\n"@
    }
}

fn set_debug(d: &Vec<String>) -> (r: String)
    ensures
        r@ == set_text(d@),
{
    let mut s = String::from_str("{");
    let mut i: usize = 0;
    while i < d.len()
        invariant
            i <= d@.len(),
            s@ == "{"@ + joined_debug(d@.subrange(0, i as int)),
        decreases d@.len() - i,
    {
        let ghost prev = d@.subrange(0, i as int);
        let ghost next = d@.subrange(0, i + 1);
        assert(next.drop_last() =~= prev);
        if i > 0 {
            s.append(", ");
        }
        let t = debug_str(d[i].as_str());
        s.append(t.as_str());
        i = i + 1;
        assert(s@ =~= "{"@ + joined_debug(next));
    }
    assert(d@.subrange(0, d@.len() as int) =~= d@);
    s.append("}");
    s
}

fn not_found_lines(errs: &Vec<(String, String)>) -> (r: String)
    ensures
        r@ == not_found_text(errs@),
{
    let mut s = String::new();
    let mut i: usize = 0;
    while i < errs.len()
        invariant
            i <= errs@.len(),
            s@ == not_found_text(errs@.subrange(0, i as int)),
        decreases errs@.len() - i,
    {
        let ghost next = errs@.subrange(0, i + 1);
        assert(next.drop_last() =~= errs@.subrange(0, i as int));
        let (path, err) = &errs[i];
        s.append("Could not found file ");
        let t = debug_str(path.as_str());
        s.append(t.as_str());
        s.append(" : ");
        s.append(err.as_str());
        s.append("\n");
        i = i + 1;
        assert(s@ =~= not_found_text(next));
    }
    assert(errs@.subrange(0, errs@.len() as int) =~= errs@);
    s
}

/// The diagnostic text of an error. For the two errors that carry an error
/// of the locale data crates, this is the text before that error's own
/// description.
pub open spec fn message_of(e: Error) -> Seq<char> {
    match e {
        Error::CargoDirEnvNotPresent(err) => "Error, can't access env variable \"CARGO_MANIFEST_DIR\": "@ + err@,
        Error::ManifestNotFound(err) => "Error accessing cargo manifest (Cargo.toml) : "@ + err@,
        Error::ConfigNotPresent => "Could not found \"[package.metadata.leptos-i18n]\" in cargo manifest (Cargo.toml)"@,
        Error::ConfigFileDeser(err) => "Parsing of cargo manifest (Cargo.toml) failed: "@ + err@,
        Error::LocaleFileNotFound(errs) => not_found_text(errs@),
        Error::LocaleFileDeser { path, err } => "Parsing of file "@ + debug_text(path@) + " failed: "@ + err@,
        Error::RangeParse { range, range_type } => "error parsing "@ + debug_text(range@) + " as "@ + range_type_text(range_type),
        Error::DuplicateLocalesInConfig(d) => "Found duplicates locales in configuration (Cargo.toml): "@ + set_text(d@),
        Error::InvalidBoundEnd { range, range_type } => if is_float(range_type) {
            "the range "@ + debug_text(range@) + " end bound is invalid, you can't use exclusif range with "@
                + range_type_text(range_type)
        } else {
            "the range "@ + debug_text(range@) + " end bound is invalid, you can't end before "@
                + range_type_text(range_type) + "::MIN"@
        },
        Error::ImpossibleRange(range) => "the range "@ + debug_text(range@) + " is impossible, it end before it starts"@,
        Error::DuplicateNamespacesInConfig(d) => "Found duplicates namespaces in configuration (Cargo.toml): "@ + set_text(d@),
        Error::RangeTypeMissmatch { key_path, type1, type2 } => "Conflicting range value type at key \""@ + join_dots(key_path@) + "\", found type "@ + range_type_text(type1) + " but also type "@ + range_type_text(type2) + "."@,
        Error::InvalidKey(key) => "invalid key "@ + debug_text(key@) + ", it can't be used as a rust identifier, try removing whitespaces and special characters."@,
        Error::EmptyRange => "empty ranges are not allowed"@,
        Error::InvalidRangeType(t) => "invalid range type "@ + debug_text(t@),
        Error::NestedRanges => "nested ranges are not allowed"@,
        Error::InvalidFallback => "fallbacks are only allowed in last position"@,
        Error::MultipleFallbacks => "only one fallback is allowed"@,
        Error::MissingFallback(t) => "range type "@ + range_type_text(t) + " require a fallback (or a fullrange \"..\")"@,
        Error::RangeSubkeys => "subkeys for ranges are not allowed"@,
        Error::SubKeyMissmatch { locale, key_path } => "Missmatch value type beetween locale "@ + debug_text(locale@) + " and default at key \""@ + join_dots(key_path@) + "\": one has subkeys and the other has direct value."@,
        Error::RangeNumberType { found, expected } => "number type "@ + range_type_text(found) + " can't be used for range type "@ + range_type_text(expected),
        Error::ExplicitDefaultInDefault(key_path) => "Explicit defaults (null) are not allowed in default locale, at key \""@ + join_dots(key_path@) + "\""@,
        Error::RecursiveForeignKey { locale, key_path } => "Borrow Error while linking foreign key at key \""@ + join_dots(key_path@) + "\" in locale "@ + debug_text(locale@) + ", check for recursive foreign key."@,
        Error::MissingForeignKey { foreign_key, locale, key_path } => "Invalid foreign key \""@ + join_dots(foreign_key@) + "\" at key \""@ + join_dots(key_path@) + "\" in locale "@ + debug_text(locale@) + ", key don't exist."@,
        Error::InvalidForeignKey { foreign_key, locale, key_path } => "Invalid foreign key \""@ + join_dots(foreign_key@) + "\" at key \""@ + join_dots(key_path@) + "\" in locale "@ + debug_text(locale@) + ", foreign key to subkeys are not allowed."@,
        Error::UnknownFormatter { name, locale, key_path } => "Unknown formatter "@ + debug_text(name@) + " at key \""@ + join_dots(key_path@) + "\" in locale "@ + debug_text(locale@) + "."@,
        Error::ConflictingPluralRuleType { locale, key_path } => "Found both ordinal and cardinal plurals for key \""@ + join_dots(key_path@) + "\" in locale "@ + debug_text(locale@) + "."@,
        Error::InvalidForeignKeyArgs { locale, key_path, err } => "Malformed foreign key args in locale "@ + debug_text(locale@) + " at key \""@ + join_dots(key_path@) + "\": "@ + err@ + "."@,
        Error::InvalidCountArg { locale, key_path, foreign_key } => "Invalid arg \"count\" in locale "@ + debug_text(locale@) + " at key \""@ + join_dots(key_path@) + "\" to foreign key \""@ + join_dots(foreign_key@) + "\": argument \"count\" for plurals or ranges can only be a literal number or a single variable."@,
        Error::InvalidCountArgType { locale, key_path, foreign_key, input_type, range_type } => "Invalid arg \"count\" in locale "@ + debug_text(locale@) + " at key \""@ + join_dots(key_path@) + "\" to foreign key \""@ + join_dots(foreign_key@) + "\": argument \"count\" of type "@ + range_type_text(input_type) + " for range of type "@ + range_type_text(range_type) + " is not allowed."@,
        Error::CountArgOutsideRange { locale, key_path, foreign_key, value } => "Invalid arg \"count\" in locale "@ + debug_text(locale@) + " at key \""@ + join_dots(key_path@) + "\" to foreign key \""@ + join_dots(foreign_key@) + "\": argument \"count\" is outside range: out of range integral type conversion attempted"@,
        Error::UnexpectedToken { locale, key_path, message } => "Unexpected error occured while parsing key \""@ + join_dots(key_path@) + "\" in locale "@ + debug_text(locale@) + ": "@ + message@,
        Error::RangeAndPluralsMix { key_path } => "mixing plurals and ranges are not supported yet, for key \""@ + join_dots(key_path@) + "\""@,
        Error::PluralsAtNormalKey { locale, key_path } => "In locale "@ + debug_text(locale@) + " at key \""@ + join_dots(key_path@) + "\", Found plurals but a key of that name is already present."@,
        Error::DisabledFormatter { locale, key_path, formatter } => formatter.err_message@ + ", at key \""@ + join_dots(key_path@) + "\" in locale "@ + debug_text(locale@),
        Error::DisabledPlurals { locale, key_path } => "Plurals are not enabled, enable the \"plurals\" feature to use them, at key \""@ + join_dots(key_path@) + "\" in locale "@ + debug_text(locale@),
        Error::NoFileFormats => "No file formats has been provided for leptos_i18n. Supported formats are: json, json5 and yaml."@,
        Error::MultipleFilesFormats => "Multiple file formats have been provided for leptos_i18n, choose only one. Supported formats are: json, json5 and yaml."@,
        Error::InvalidLocale { locale, err } => "Found invalid locale "@ + debug_text(locale@) + ": "@,
        Error::PluralRulesError(err) => "Error while computing plurals categories: "@,
        Error::MissingTranslationsURI => debug_text("translations-uri"@) + " config option is missing. You are using dynamic loading in CSR, that value is required."@,
    }
}

impl Error {
    /// The human-readable diagnostic text of the error.
    #[verifier::rlimit(60)]
    pub fn message(&self) -> (r: String)
        ensures
            !(self is InvalidLocale || self is PluralRulesError) ==> r@ == message_of(*self),
            self is InvalidLocale || self is PluralRulesError ==> message_of(*self).len() <= r@.len()
                && r@.subrange(0, message_of(*self).len() as int) == message_of(*self),
    {
        let mut s = String::new();
        let ghost start = s@;
        match self {
        Error::CargoDirEnvNotPresent(err) => {
                s.append("Error, can't access env variable \"CARGO_MANIFEST_DIR\": ");
                s.append(err.as_str());
            },
            Error::ManifestNotFound(err) => {
                s.append("Error accessing cargo manifest (Cargo.toml) : ");
                s.append(err.as_str());
            },
            Error::ConfigNotPresent => {
                s.append("Could not found \"[package.metadata.leptos-i18n]\" in cargo manifest (Cargo.toml)");
            },
            Error::ConfigFileDeser(err) => {
                s.append("Parsing of cargo manifest (Cargo.toml) failed: ");
                s.append(err.as_str());
            },
            Error::LocaleFileNotFound(errs) => {
                let t = not_found_lines(errs);
                s.append(t.as_str());
            },
            Error::LocaleFileDeser { path, err } => {
                s.append("Parsing of file ");
                let d = debug_str(path.as_str());
                s.append(d.as_str());
                s.append(" failed: ");
                s.append(err.as_str());
            },
            Error::RangeParse { range, range_type } => {
                s.append("error parsing ");
                let d = debug_str(range.as_str());
                s.append(d.as_str());
                s.append(" as ");
                s.append(range_type_name(*range_type));
            },
            Error::DuplicateLocalesInConfig(d) => {
                s.append("Found duplicates locales in configuration (Cargo.toml): ");
                let t = set_debug(d);
                s.append(t.as_str());
            },
            Error::InvalidBoundEnd { range, range_type } => {
                s.append("the range ");
                let d = debug_str(range.as_str());
                s.append(d.as_str());
                if range_type.is_float() {
                    s.append(" end bound is invalid, you can't use exclusif range with ");
                    s.append(range_type_name(*range_type));
                } else {
                    s.append(" end bound is invalid, you can't end before ");
                    s.append(range_type_name(*range_type));
                    s.append("::MIN");
                }
            },
            Error::ImpossibleRange(range) => {
                s.append("the range ");
                let d = debug_str(range.as_str());
                s.append(d.as_str());
                s.append(" is impossible, it end before it starts");
            },
            Error::DuplicateNamespacesInConfig(d) => {
                s.append("Found duplicates namespaces in configuration (Cargo.toml): ");
                let t = set_debug(d);
                s.append(t.as_str());
            },
            Error::RangeTypeMissmatch { key_path, type1, type2 } => {
                s.append("Conflicting range value type at key \"");
                let t = key_path.render();
                s.append(t.as_str());
                s.append("\", found type ");
                s.append(range_type_name(*type1));
                s.append(" but also type ");
                s.append(range_type_name(*type2));
                s.append(".");
            },
            Error::InvalidKey(key) => {
                s.append("invalid key ");
                let d = debug_str(key.as_str());
                s.append(d.as_str());
                s.append(", it can't be used as a rust identifier, try removing whitespaces and special characters.");
            },
            Error::EmptyRange => {
                s.append("empty ranges are not allowed");
            },
            Error::InvalidRangeType(t) => {
                s.append("invalid range type ");
                let d = debug_str(t.as_str());
                s.append(d.as_str());
            },
            Error::NestedRanges => {
                s.append("nested ranges are not allowed");
            },
            Error::InvalidFallback => {
                s.append("fallbacks are only allowed in last position");
            },
            Error::MultipleFallbacks => {
                s.append("only one fallback is allowed");
            },
            Error::MissingFallback(t) => {
                s.append("range type ");
                s.append(range_type_name(*t));
                s.append(" require a fallback (or a fullrange \"..\")");
            },
            Error::RangeSubkeys => {
                s.append("subkeys for ranges are not allowed");
            },
            Error::SubKeyMissmatch { locale, key_path } => {
                s.append("Missmatch value type beetween locale ");
                let d = debug_str(locale.as_str());
                s.append(d.as_str());
                s.append(" and default at key \"");
                let t = key_path.render();
                s.append(t.as_str());
                s.append("\": one has subkeys and the other has direct value.");
            },
            Error::RangeNumberType { found, expected } => {
                s.append("number type ");
                s.append(range_type_name(*found));
                s.append(" can't be used for range type ");
                s.append(range_type_name(*expected));
            },
            Error::ExplicitDefaultInDefault(key_path) => {
                s.append("Explicit defaults (null) are not allowed in default locale, at key \"");
                let t = key_path.render();
                s.append(t.as_str());
                s.append("\"");
            },
            Error::RecursiveForeignKey { locale, key_path } => {
                s.append("Borrow Error while linking foreign key at key \"");
                let t = key_path.render();
                s.append(t.as_str());
                s.append("\" in locale ");
                let d = debug_str(locale.as_str());
                s.append(d.as_str());
                s.append(", check for recursive foreign key.");
            },
            Error::MissingForeignKey { foreign_key, locale, key_path } => {
                s.append("Invalid foreign key \"");
                let t = foreign_key.render();
                s.append(t.as_str());
                s.append("\" at key \"");
                let t = key_path.render();
                s.append(t.as_str());
                s.append("\" in locale ");
                let d = debug_str(locale.as_str());
                s.append(d.as_str());
                s.append(", key don't exist.");
            },
            Error::InvalidForeignKey { foreign_key, locale, key_path } => {
                s.append("Invalid foreign key \"");
                let t = foreign_key.render();
                s.append(t.as_str());
                s.append("\" at key \"");
                let t = key_path.render();
                s.append(t.as_str());
                s.append("\" in locale ");
                let d = debug_str(locale.as_str());
                s.append(d.as_str());
                s.append(", foreign key to subkeys are not allowed.");
            },
            Error::UnknownFormatter { name, locale, key_path } => {
                s.append("Unknown formatter ");
                let d = debug_str(name.as_str());
                s.append(d.as_str());
                s.append(" at key \"");
                let t = key_path.render();
                s.append(t.as_str());
                s.append("\" in locale ");
                let d = debug_str(locale.as_str());
                s.append(d.as_str());
                s.append(".");
            },
            Error::ConflictingPluralRuleType { locale, key_path } => {
                s.append("Found both ordinal and cardinal plurals for key \"");
                let t = key_path.render();
                s.append(t.as_str());
                s.append("\" in locale ");
                let d = debug_str(locale.as_str());
                s.append(d.as_str());
                s.append(".");
            },
            Error::InvalidForeignKeyArgs { locale, key_path, err } => {
                s.append("Malformed foreign key args in locale ");
                let d = debug_str(locale.as_str());
                s.append(d.as_str());
                s.append(" at key \"");
                let t = key_path.render();
                s.append(t.as_str());
                s.append("\": ");
                s.append(err.as_str());
                s.append(".");
            },
            Error::InvalidCountArg { locale, key_path, foreign_key } => {
                s.append("Invalid arg \"count\" in locale ");
                let d = debug_str(locale.as_str());
                s.append(d.as_str());
                s.append(" at key \"");
                let t = key_path.render();
                s.append(t.as_str());
                s.append("\" to foreign key \"");
                let t = foreign_key.render();
                s.append(t.as_str());
                s.append("\": argument \"count\" for plurals or ranges can only be a literal number or a single variable.");
            },
            Error::InvalidCountArgType { locale, key_path, foreign_key, input_type, range_type } => {
                s.append("Invalid arg \"count\" in locale ");
                let d = debug_str(locale.as_str());
                s.append(d.as_str());
                s.append(" at key \"");
                let t = key_path.render();
                s.append(t.as_str());
                s.append("\" to foreign key \"");
                let t = foreign_key.render();
                s.append(t.as_str());
                s.append("\": argument \"count\" of type ");
                s.append(range_type_name(*input_type));
                s.append(" for range of type ");
                s.append(range_type_name(*range_type));
                s.append(" is not allowed.");
            },
            Error::CountArgOutsideRange { locale, key_path, foreign_key, value } => {
                s.append("Invalid arg \"count\" in locale ");
                let d = debug_str(locale.as_str());
                s.append(d.as_str());
                s.append(" at key \"");
                let t = key_path.render();
                s.append(t.as_str());
                s.append("\" to foreign key \"");
                let t = foreign_key.render();
                s.append(t.as_str());
                s.append("\": argument \"count\" is outside range: out of range integral type conversion attempted");
            },
            Error::UnexpectedToken { locale, key_path, message } => {
                s.append("Unexpected error occured while parsing key \"");
                let t = key_path.render();
                s.append(t.as_str());
                s.append("\" in locale ");
                let d = debug_str(locale.as_str());
                s.append(d.as_str());
                s.append(": ");
                s.append(message.as_str());
            },
            Error::RangeAndPluralsMix { key_path } => {
                s.append("mixing plurals and ranges are not supported yet, for key \"");
                let t = key_path.render();
                s.append(t.as_str());
                s.append("\"");
            },
            Error::PluralsAtNormalKey { locale, key_path } => {
                s.append("In locale ");
                let d = debug_str(locale.as_str());
                s.append(d.as_str());
                s.append(" at key \"");
                let t = key_path.render();
                s.append(t.as_str());
                s.append("\", Found plurals but a key of that name is already present.");
            },
            Error::DisabledFormatter { locale, key_path, formatter } => {
                s.append(formatter.err_message());
                s.append(", at key \"");
                let t = key_path.render();
                s.append(t.as_str());
                s.append("\" in locale ");
                let d = debug_str(locale.as_str());
                s.append(d.as_str());
            },
            Error::DisabledPlurals { locale, key_path } => {
                s.append("Plurals are not enabled, enable the \"plurals\" feature to use them, at key \"");
                let t = key_path.render();
                s.append(t.as_str());
                s.append("\" in locale ");
                let d = debug_str(locale.as_str());
                s.append(d.as_str());
            },
            Error::NoFileFormats => {
                s.append("No file formats has been provided for leptos_i18n. Supported formats are: json, json5 and yaml.");
            },
            Error::MultipleFilesFormats => {
                s.append("Multiple file formats have been provided for leptos_i18n, choose only one. Supported formats are: json, json5 and yaml.");
            },
            Error::InvalidLocale { locale, err } => {
                s.append("Found invalid locale ");
                let d = debug_str(locale.as_str());
                s.append(d.as_str());
                s.append(": ");
                assert(s@ =~= message_of(*self));
                let ghost before = s@;
                let t = parser_error_text(err);
                s.append(t.as_str());
                assert(s@.subrange(0, before.len() as int) =~= before);
            },
            Error::PluralRulesError(err) => {
                s.append("Error while computing plurals categories: ");
                assert(s@ =~= message_of(*self));
                let ghost before = s@;
                let t = plurals_error_text(err);
                s.append(t.as_str());
                assert(s@.subrange(0, before.len() as int) =~= before);
            },
            Error::MissingTranslationsURI => {
                let d = debug_str("translations-uri");
                s.append(d.as_str());
                s.append(" config option is missing. You are using dynamic loading in CSR, that value is required.");
            },
        }
        proof {
            if self is InvalidLocale || self is PluralRulesError {
                assert(s@.subrange(0, message_of(*self).len() as int) =~= message_of(*self));
            } else {
                assert(s@ =~= message_of(*self));
            }
        }
        s
    }
}

} // verus!
