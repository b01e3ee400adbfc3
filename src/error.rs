use vstd::prelude::*;

use crate::key::{Key, KeyPath};
use crate::ranges::RangeType;

verus! {

/// Declares the locale tag parser's error so that it can travel in `Error`.
#[verifier::external_type_specification]
#[verifier::external_body]
pub struct ExParserError(icu_locid::ParserError);

/// Declares the plural rule table's error so that it can travel in `Error`.
#[verifier::external_type_specification]
#[verifier::external_body]
pub struct ExPluralsError(icu_plurals::PluralsError);

#[allow(inconsistent_fields)]
/// Every diagnostic that parsing and validating translations can produce.
/// Values read from the outside world (paths, I/O messages) are carried as
/// text.
#[derive(Debug)]
pub enum Error {
    InvalidLocale { locale: String, err: icu_locid::ParserError },
    PluralRulesError(icu_plurals::PluralsError),
    CargoDirEnvNotPresent(String),
    ManifestNotFound(String),
    ConfigNotPresent,
    ConfigFileDeser(String),
    LocaleFileNotFound(Vec<(String, String)>),
    LocaleFileDeser { path: String, err: String },
    DuplicateLocalesInConfig(Vec<String>),
    DuplicateNamespacesInConfig(Vec<String>),
    SubKeyMissmatch { locale: Key, key_path: KeyPath },
    RangeParse { range: String, range_type: RangeType },
    InvalidBoundEnd { range: String, range_type: RangeType },
    ImpossibleRange(String),
    RangeTypeMissmatch { key_path: KeyPath, type1: RangeType, type2: RangeType },
    InvalidKey(String),
    EmptyRange,
    InvalidRangeType(String),
    NestedRanges,
    InvalidFallback,
    MultipleFallbacks,
    MissingFallback(RangeType),
    RangeSubkeys,
    RangeNumberType { found: RangeType, expected: RangeType },
    ExplicitDefaultInDefault(KeyPath),
    RecursiveForeignKey { locale: Key, key_path: KeyPath },
    MissingForeignKey { foreign_key: KeyPath, locale: Key, key_path: KeyPath },
    InvalidForeignKey { foreign_key: KeyPath, locale: Key, key_path: KeyPath },
    UnknownFormatter { name: String, locale: Key, key_path: KeyPath },
    ConflictingPluralRuleType { locale: Key, key_path: KeyPath },
    InvalidForeignKeyArgs { locale: Key, key_path: KeyPath, err: String },
    InvalidCountArg { locale: Key, key_path: KeyPath, foreign_key: KeyPath },
    InvalidCountArgType {
        locale: Key,
        key_path: KeyPath,
        foreign_key: KeyPath,
        input_type: RangeType,
        range_type: RangeType,
    },
    CountArgOutsideRange { locale: Key, key_path: KeyPath, foreign_key: KeyPath, value: i128 },
    UnexpectedToken { locale: Key, key_path: KeyPath, message: String },
    RangeAndPluralsMix { key_path: KeyPath },
    PluralsAtNormalKey { locale: Key, key_path: KeyPath },
    DisabledFormatter { locale: Key, key_path: KeyPath, formatter: crate::formatter::Formatter },
    DisabledPlurals { locale: Key, key_path: KeyPath },
    NoFileFormats,
    MultipleFilesFormats,
    MissingTranslationsURI,
}

} // verus!
