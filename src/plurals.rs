use vstd::prelude::*;

use crate::error::Error;
use crate::key::{Key, KeyPath};
use crate::locale::Locale;
use crate::ranges::text_is;

verus! {

/// Whether plural categories count quantities or rank items.
#[derive(Debug, Clone, Copy, PartialEq, Eq, Structural)]
pub enum PluralRuleType {
    Cardinal,
    Ordinal,
}

/// A plural category of the locale plural rules.
#[derive(Debug, Clone, Copy, PartialEq, Eq, Structural)]
pub enum PluralCategory {
    Zero,
    One,
    Two,
    Few,
    Many,
    Other,
}

/// A declared plural key: its rule family and category.
#[derive(Debug, Clone, Copy, PartialEq, Eq, Structural)]
pub struct PluralForm {
    pub rule_type: PluralRuleType,
    pub category: PluralCategory,
}

/// The category a suffix names.
pub open spec fn category_named(s: Seq<char>) -> Option<PluralCategory> {
    if s == "zero"@ {
        Some(PluralCategory::Zero)
    } else if s == "one"@ {
        Some(PluralCategory::One)
    } else if s == "two"@ {
        Some(PluralCategory::Two)
    } else if s == "few"@ {
        Some(PluralCategory::Few)
    } else if s == "many"@ {
        Some(PluralCategory::Many)
    } else if s == "other"@ {
        Some(PluralCategory::Other)
    } else {
        None
    }
}

/// Reads a category name (`zero`, `one`, `two`, `few`, `many`, `other`).
pub fn parse_category(s: &str) -> (r: Option<PluralCategory>)
    ensures
        r == category_named(s@),
{
    if text_is(s, "zero") {
        Some(PluralCategory::Zero)
    } else if text_is(s, "one") {
        Some(PluralCategory::One)
    } else if text_is(s, "two") {
        Some(PluralCategory::Two)
    } else if text_is(s, "few") {
        Some(PluralCategory::Few)
    } else if text_is(s, "many") {
        Some(PluralCategory::Many)
    } else if text_is(s, "other") {
        Some(PluralCategory::Other)
    } else {
        None
    }
}

/// The plural key a suffix declares: a category name is cardinal, and
/// `ordinal_` followed by one is ordinal.
pub open spec fn form_named(s: Seq<char>) -> Option<PluralForm> {
    if s.len() >= 8 && s.subrange(0, 8) == "ordinal_"@ {
        match category_named(s.subrange(8, s.len() as int)) {
            Some(c) => Some(PluralForm { rule_type: PluralRuleType::Ordinal, category: c }),
            None => None,
        }
    } else {
        match category_named(s) {
            Some(c) => Some(PluralForm { rule_type: PluralRuleType::Cardinal, category: c }),
            None => None,
        }
    }
}

/// Reads a plural key suffix.
pub fn parse_plural_suffix(s: &str) -> (r: Option<PluralForm>)
    ensures
        r == form_named(s@),
{
    let n = s.unicode_len();
    if n >= 8 && text_is(s.substring_char(0, 8), "ordinal_") {
        let rest = s.substring_char(8, n);
        match parse_category(rest) {
            Some(c) => Some(PluralForm { rule_type: PluralRuleType::Ordinal, category: c }),
            None => None,
        }
    } else {
        match parse_category(s) {
            Some(c) => Some(PluralForm { rule_type: PluralRuleType::Cardinal, category: c }),
            None => None,
        }
    }
}

/// Some declared key is of each family.
pub open spec fn mixes_families(forms: Seq<PluralForm>) -> bool {
    exists|i: int, j: int|
        0 <= i < forms.len() && 0 <= j < forms.len() && forms[i].rule_type
            == PluralRuleType::Cardinal && forms[j].rule_type == PluralRuleType::Ordinal
}

/// The rule type of a plural block from its declared keys: the family they
/// all share (cardinal for a block with none). Keys of both families at one
/// key path fail with `ConflictingPluralRuleType`.
pub fn plural_rule_type(locale: &Key, key_path: &KeyPath, forms: &Vec<PluralForm>) -> (r: Result<
    PluralRuleType,
    Error,
>)
    ensures
        mixes_families(forms@) <==> r is Err,
        r matches Err(e) ==> (e is ConflictingPluralRuleType && e->ConflictingPluralRuleType_locale@
            == locale@ && e->ConflictingPluralRuleType_key_path@ == key_path@),
        r matches Ok(t) ==> forall|i: int| 0 <= i < forms@.len() ==> (#[trigger] forms@[i]).rule_type == t,
        forms@.len() == 0 ==> r == Ok::<PluralRuleType, Error>(PluralRuleType::Cardinal),
{
    if forms.len() == 0 {
        return Ok(PluralRuleType::Cardinal);
    }
    let first = forms[0].rule_type;
    let mut i: usize = 1;
    while i < forms.len()
        invariant
            1 <= i <= forms@.len(),
            first == forms@[0].rule_type,
            forall|k: int| 0 <= k < i ==> (#[trigger] forms@[k]).rule_type == first,
        decreases forms@.len() - i,
    {
        if forms[i].rule_type != first {
            proof {
                if first == PluralRuleType::Cardinal {
                    assert(forms@[0].rule_type == PluralRuleType::Cardinal);
                    assert(forms@[i as int].rule_type == PluralRuleType::Ordinal);
                } else {
                    assert(forms@[i as int].rule_type == PluralRuleType::Cardinal);
                    assert(forms@[0].rule_type == PluralRuleType::Ordinal);
                }
            }
            return Err(
                Error::ConflictingPluralRuleType {
                    locale: locale.duplicate(),
                    key_path: key_path.duplicate(),
                },
            );
        }
        i = i + 1;
    }
    Ok(first)
}

/// Any block that declares keys of both families at one key path fails with
/// `ConflictingPluralRuleType`.
pub proof fn lemma_mixed_families(forms: Seq<PluralForm>, i: int, j: int)
    requires
        0 <= i < forms.len(),
        0 <= j < forms.len(),
        forms[i].rule_type == PluralRuleType::Cardinal,
        forms[j].rule_type == PluralRuleType::Ordinal,
    ensures
        mixes_families(forms),
{
}

/// The categories of `required` that no declared key of the family covers,
/// in the order of `required`.
pub fn missing_categories(rule_type: PluralRuleType, forms: &Vec<PluralForm>, required: &Vec<PluralCategory>) -> (r: Vec<PluralCategory>)
    ensures
        forall|c: PluralCategory|
            r@.contains(c) <==> (required@.contains(c) && !forms@.contains(
                PluralForm { rule_type, category: c },
            )),
{
    let mut out: Vec<PluralCategory> = Vec::new();
    let mut i: usize = 0;
    while i < required.len()
        invariant
            i <= required@.len(),
            forall|c: PluralCategory|
                out@.contains(c) <==> (required@.subrange(0, i as int).contains(c) && !forms@.contains(
                    PluralForm { rule_type, category: c },
                )),
        decreases required@.len() - i,
    {
        let c = required[i];
        let want = PluralForm { rule_type, category: c };
        let mut found = false;
        let mut j: usize = 0;
        while j < forms.len()
            invariant
                j <= forms@.len(),
                found <==> forms@.subrange(0, j as int).contains(want),
            decreases forms@.len() - j,
        {
            if forms[j] == want {
                found = true;
            }
            proof {
                let pre = forms@.subrange(0, j as int);
                let post = forms@.subrange(0, j + 1);
                assert(post =~= pre.push(forms@[j as int]));
                if forms@[j as int] == want {
                    assert(post[j as int] == want);
                }
                if pre.contains(want) {
                    let k = choose|k: int| 0 <= k < pre.len() && #[trigger] pre[k] == want;
                    assert(post[k] == want);
                }
                if post.contains(want) && forms@[j as int] != want {
                    let k = choose|k: int| 0 <= k < post.len() && #[trigger] post[k] == want;
                    assert(pre[k] == want);
                }
            }
            j = j + 1;
        }
        assert(forms@.subrange(0, j as int) =~= forms@);
        let ghost before = out@;
        if !found {
            out.push(c);
        }
        proof {
            let pre = required@.subrange(0, i as int);
            let post = required@.subrange(0, i + 1);
            assert(post =~= pre.push(c));
            assert forall|d: PluralCategory|
                out@.contains(d) <==> (post.contains(d) && !forms@.contains(
                    PluralForm { rule_type, category: d },
                )) by {
                if out@.contains(d) && !before.contains(d) {
                    assert(out@ =~= before.push(c));
                    let k = choose|k: int| 0 <= k < out@.len() && #[trigger] out@[k] == d;
                    assert(k == before.len());
                }
                if !found && d == c {
                    assert(out@[out@.len() - 1] == c);
                }
                if before.contains(d) {
                    let k = choose|k: int| 0 <= k < before.len() && #[trigger] before[k] == d;
                    assert(out@[k] == d);
                }
                if pre.contains(d) {
                    let k = choose|k: int| 0 <= k < pre.len() && #[trigger] pre[k] == d;
                    assert(post[k] == d);
                }
                if post.contains(d) && d != c {
                    let k = choose|k: int| 0 <= k < post.len() && #[trigger] post[k] == d;
                    assert(pre[k] == d);
                }
                if d == c {
                    assert(post[post.len() - 1] == c);
                }
            }
        }
        i = i + 1;
    }
    assert(required@.subrange(0, required@.len() as int) =~= required@);
    out
}

/// The categories that the plural rules of a locale, named as written, use
/// for cardinal or ordinal numbers.
pub uninterp spec fn plural_categories_of(locale: Seq<char>, ordinal: bool) -> Seq<PluralCategory>;

/// Relies on `icu_plurals::PluralRules::try_new` with compiled data, and on
/// `categories` of the rules it builds: the categories that the locale's
/// rules of that type use, which depend on the locale and type alone.
#[verifier::external_body]
fn locale_categories(locale: &Locale, rule_type: PluralRuleType) -> (r: Result<Vec<PluralCategory>, icu_plurals::PluralsError>)
    ensures
        r matches Ok(v) ==> v@ == plural_categories_of(locale@, rule_type == PluralRuleType::Ordinal),
{
    let t = match rule_type {
        PluralRuleType::Cardinal => icu_plurals::PluralRuleType::Cardinal,
        PluralRuleType::Ordinal => icu_plurals::PluralRuleType::Ordinal,
    };
    let rules = icu_plurals::PluralRules::try_new(&locale.langid().into(), t)?;
    Ok(rules.categories().map(|c| match c {
        icu_plurals::PluralCategory::Zero => PluralCategory::Zero,
        icu_plurals::PluralCategory::One => PluralCategory::One,
        icu_plurals::PluralCategory::Two => PluralCategory::Two,
        icu_plurals::PluralCategory::Few => PluralCategory::Few,
        icu_plurals::PluralCategory::Many => PluralCategory::Many,
        icu_plurals::PluralCategory::Other => PluralCategory::Other,
    }).collect())
}

/// `m` holds exactly the categories of `required` that no declared key of
/// the family covers.
pub open spec fn lists_missing(
    m: Seq<PluralCategory>,
    required: Seq<PluralCategory>,
    rule_type: PluralRuleType,
    forms: Seq<PluralForm>,
) -> bool {
    forall|c: PluralCategory|
        #[trigger] m.contains(c) <==> (required.contains(c) && !forms.contains(
            PluralForm { rule_type, category: c },
        ))
}

/// The categories that a locale's plural rules use and that a plural block
/// does not declare. A failure to build the rules is `PluralRulesError`.
pub fn check_plural_categories(locale: &Locale, rule_type: PluralRuleType, forms: &Vec<PluralForm>) -> (r: Result<Vec<PluralCategory>, Error>)
    ensures
        r matches Ok(m) ==> lists_missing(
            m@,
            plural_categories_of(locale@, rule_type == PluralRuleType::Ordinal),
            rule_type,
            forms@,
        ),
        r matches Err(e) ==> e is PluralRulesError,
{
    match locale_categories(locale, rule_type) {
        Ok(required) => {
            let m = missing_categories(rule_type, forms, &required);
            Ok(m)
        },
        Err(e) => Err(Error::PluralRulesError(e)),
    }
}

/// Admits a plural block at a key path. With the plurals capability off it
/// fails with `DisabledPlurals`; beside range arms at the same key path with
/// `RangeAndPluralsMix`; where the schema holds a plain value at that key
/// path with `PluralsAtNormalKey`. The first rule that applies decides.
pub fn admit_plural_block(
    locale: &Key,
    key_path: &KeyPath,
    plurals_enabled: bool,
    has_range_arms: bool,
    schema_has_plain_value: bool,
) -> (r: Result<(), Error>)
    ensures
        !plurals_enabled ==> (r matches Err(e) && e is DisabledPlurals && e->DisabledPlurals_locale@
            == locale@ && e->DisabledPlurals_key_path@ == key_path@),
        plurals_enabled && has_range_arms ==> (r matches Err(e) && e is RangeAndPluralsMix
            && e->RangeAndPluralsMix_key_path@ == key_path@),
        plurals_enabled && !has_range_arms && schema_has_plain_value ==> (r matches Err(e)
            && e is PluralsAtNormalKey && e->PluralsAtNormalKey_locale@ == locale@
            && e->PluralsAtNormalKey_key_path@ == key_path@),
        plurals_enabled && !has_range_arms && !schema_has_plain_value ==> r is Ok,
{
    if !plurals_enabled {
        Err(Error::DisabledPlurals { locale: locale.duplicate(), key_path: key_path.duplicate() })
    } else if has_range_arms {
        Err(Error::RangeAndPluralsMix { key_path: key_path.duplicate() })
    } else if schema_has_plain_value {
        Err(Error::PluralsAtNormalKey { locale: locale.duplicate(), key_path: key_path.duplicate() })
    } else {
        Ok(())
    }
}

} // verus!
