use vstd::prelude::*;

use crate::error::Error;
use crate::key::{is_key, make_key, Key};

verus! {

/// Declares the parsed locale identifier, carried opaque inside `Locale`.
#[verifier::external_type_specification]
#[verifier::external_body]
pub struct ExLanguageIdentifier(icu_locid::LanguageIdentifier);

/// Whether the locale identifier grammar accepts a tag.
pub uninterp spec fn langid_accepts(s: Seq<char>) -> bool;

/// Relies on `icu_locid::LanguageIdentifier::try_from_bytes`: whether it
/// accepts a tag depends on the tag's text alone.
#[verifier::external_body]
fn parse_langid(s: &str) -> (r: Result<icu_locid::LanguageIdentifier, icu_locid::ParserError>)
    ensures
        r is Ok <==> langid_accepts(s@),
{
    icu_locid::LanguageIdentifier::try_from_bytes(s.as_bytes())
}

/// A validated locale: its name, which is a key, and its parsed identifier.
#[derive(Debug)]
pub struct Locale {
    name: Key,
    langid: icu_locid::LanguageIdentifier,
}

impl View for Locale {
    type V = Seq<char>;

    closed spec fn view(&self) -> Seq<char> {
        self.name@
    }
}

impl Locale {
    /// The locale's name, as written.
    pub fn name(&self) -> (r: &Key)
        ensures
            r@ == self@,
    {
        &self.name
    }

    /// The parsed identifier, for plural rule lookups.
    pub fn langid(&self) -> &icu_locid::LanguageIdentifier {
        &self.langid
    }
}

/// What `parse_locale` gives for a tag: the locale's rendered name, or nothing.
pub open spec fn locale_of(s: Seq<char>) -> Option<Seq<char>> {
    if is_key(s) && langid_accepts(s) {
        Some(s)
    } else {
        None
    }
}

/// Validates a locale tag: it must be a key and a well-formed locale
/// identifier. A tag that is no key fails with `InvalidKey`, one that the
/// identifier grammar refuses with `InvalidLocale`; nothing is coerced.
pub fn parse_locale(raw: &str) -> (r: Result<Locale, Error>)
    ensures
        match r {
            Ok(l) => locale_of(raw@) == Some(l@),
            Err(e) => locale_of(raw@) is None && (if is_key(raw@) {
                e is InvalidLocale && e->InvalidLocale_locale@ == raw@
            } else {
                e is InvalidKey && e->InvalidKey_0@ == raw@
            }),
        },
{
    let name = match make_key(raw) {
        Ok(k) => k,
        Err(e) => {
            return Err(e);
        },
    };
    match parse_langid(raw) {
        Ok(langid) => Ok(Locale { name, langid }),
        Err(err) => Err(Error::InvalidLocale { locale: String::from_str(raw), err }),
    }
}

/// Parsing a locale's rendered name gives the same locale again.
pub proof fn lemma_locale_idempotent(s: Seq<char>)
    requires
        locale_of(s) is Some,
    ensures
        locale_of(locale_of(s)->0) == locale_of(s),
{
}

} // verus!
