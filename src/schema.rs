use vstd::prelude::*;

use crate::error::Error;
use crate::foreign::{find_entry, lookup, resolution, resolve_all, Entry, EntryKind};
use crate::key::Key;

verus! {

/// Entry `i` of a locale has subkeys where the schema has a value at the
/// same key path, or the other way round.
pub open spec fn shape_mismatch(schema: Seq<Entry>, es: Seq<Entry>, i: int) -> bool {
    &&& !(es[i].kind is Inherit)
    &&& find_entry(schema, es[i].path@) matches Some(j) && (schema[j].kind is Subkeys) != (
        es[i].kind is Subkeys)
}

/// The key paths of the inheriting entries among the first `n`, in order.
pub open spec fn inherit_paths(es: Seq<Entry>, n: int) -> Seq<Seq<Seq<char>>>
    decreases n,
{
    if n <= 0 {
        Seq::empty()
    } else if es[n - 1].kind is Inherit {
        inherit_paths(es, n - 1).push(es[n - 1].path@)
    } else {
        inherit_paths(es, n - 1)
    }
}

/// The key paths of the entries among the first `n` whose shape differs from
/// the schema's, in order.
pub open spec fn mismatch_paths(schema: Seq<Entry>, es: Seq<Entry>, n: int) -> Seq<Seq<Seq<char>>>
    decreases n,
{
    if n <= 0 {
        Seq::empty()
    } else if shape_mismatch(schema, es, n - 1) {
        mismatch_paths(schema, es, n - 1).push(es[n - 1].path@)
    } else {
        mismatch_paths(schema, es, n - 1)
    }
}

/// Checks the default locale, which builds the schema: it must be fully
/// concrete, so each entry that inherits fails with
/// `ExplicitDefaultInDefault` at its key path, in order.
pub fn check_default_locale(es: &Vec<Entry>) -> (r: Vec<Error>)
    ensures
        r@.len() == inherit_paths(es@, es@.len() as int).len(),
        forall|k: int|
            0 <= k < r@.len() ==> (#[trigger] r@[k]) is ExplicitDefaultInDefault
                && r@[k]->ExplicitDefaultInDefault_0@ == inherit_paths(es@, es@.len() as int)[k],
{
    let mut errs: Vec<Error> = Vec::new();
    let mut i: usize = 0;
    while i < es.len()
        invariant
            i <= es@.len(),
            errs@.len() == inherit_paths(es@, i as int).len(),
            forall|k: int|
                0 <= k < errs@.len() ==> (#[trigger] errs@[k]) is ExplicitDefaultInDefault
                    && errs@[k]->ExplicitDefaultInDefault_0@ == inherit_paths(es@, i as int)[k],
        decreases es@.len() - i,
    {
        if matches!(es[i].kind, EntryKind::Inherit) {
            errs.push(Error::ExplicitDefaultInDefault(es[i].path.duplicate()));
        }
        i = i + 1;
    }
    errs
}

/// Checks a locale against the schema: each entry whose shape (subkeys or a
/// value) differs from the schema's at the same key path fails with
/// `SubKeyMissmatch`, in order; entries that inherit are exempt.
pub fn check_locale_shape(locale: &Key, schema: &Vec<Entry>, es: &Vec<Entry>) -> (r: Vec<Error>)
    ensures
        r@.len() == mismatch_paths(schema@, es@, es@.len() as int).len(),
        forall|k: int|
            0 <= k < r@.len() ==> (#[trigger] r@[k]) is SubKeyMissmatch
                && r@[k]->SubKeyMissmatch_locale@ == locale@
                && r@[k]->SubKeyMissmatch_key_path@ == mismatch_paths(schema@, es@, es@.len() as int)[k],
{
    let mut errs: Vec<Error> = Vec::new();
    let mut i: usize = 0;
    while i < es.len()
        invariant
            i <= es@.len(),
            errs@.len() == mismatch_paths(schema@, es@, i as int).len(),
            forall|k: int|
                0 <= k < errs@.len() ==> (#[trigger] errs@[k]) is SubKeyMissmatch
                    && errs@[k]->SubKeyMissmatch_locale@ == locale@
                    && errs@[k]->SubKeyMissmatch_key_path@ == mismatch_paths(schema@, es@, i as int)[k],
        decreases es@.len() - i,
    {
        let inherit = matches!(es[i].kind, EntryKind::Inherit);
        let mine = matches!(es[i].kind, EntryKind::Subkeys);
        let mismatch = if inherit {
            false
        } else {
            match lookup(schema, &es[i].path) {
                Some(j) => matches!(schema[j].kind, EntryKind::Subkeys) != mine,
                None => false,
            }
        };
        assert(mismatch == shape_mismatch(schema@, es@, i as int));
        if mismatch {
            errs.push(
                Error::SubKeyMissmatch { locale: locale.duplicate(), key_path: es[i].path.duplicate() },
            );
        }
        i = i + 1;
    }
    errs
}

/// A locale entry that holds subkeys where the schema holds a value (or the
/// reverse), and does not inherit, is among those reported.
pub proof fn lemma_mismatch_reported(schema: Seq<Entry>, es: Seq<Entry>, i: int, n: int)
    requires
        0 <= i < n <= es.len(),
        shape_mismatch(schema, es, i),
    ensures
        mismatch_paths(schema, es, n).contains(es[i].path@),
    decreases n,
{
    if n - 1 == i {
        let p = mismatch_paths(schema, es, n);
        assert(p[p.len() - 1] == es[i].path@);
    } else {
        lemma_mismatch_reported(schema, es, i, n - 1);
        let q = mismatch_paths(schema, es, n - 1);
        let k = choose|k: int| 0 <= k < q.len() && q[k] == es[i].path@;
        assert(mismatch_paths(schema, es, n)[k] == es[i].path@);
    }
}

/// One locale's entries, flattened from its tree.
#[derive(Debug, Clone)]
pub struct LocaleEntries {
    pub locale: Key,
    pub entries: Vec<Entry>,
}

/// A locale's entries pass every check against the schema: no shape
/// mismatch, and every foreign key resolves to a leaf.
pub open spec fn locale_clean(schema: Seq<Entry>, es: Seq<Entry>) -> bool {
    &&& mismatch_paths(schema, es, es.len() as int).len() == 0
    &&& forall|i: int| 0 <= i < es.len() ==> (#[trigger] resolution(es, i)) is Leaf
}

/// The default locale passes its checks: no inheriting entry, and every
/// foreign key resolves to a leaf.
pub open spec fn default_clean(es: Seq<Entry>) -> bool {
    &&& inherit_paths(es, es.len() as int).len() == 0
    &&& forall|i: int| 0 <= i < es.len() ==> (#[trigger] resolution(es, i)) is Leaf
}

/// `errs` begins with one `ExplicitDefaultInDefault` for each inheriting
/// entry of the default locale, in order.
pub open spec fn starts_with_inherits(errs: Seq<Error>, es: Seq<Entry>) -> bool {
    &&& inherit_paths(es, es.len() as int).len() <= errs.len()
    &&& forall|k: int|
        0 <= k < inherit_paths(es, es.len() as int).len() ==> (#[trigger] errs[k]) is ExplicitDefaultInDefault
            && errs[k]->ExplicitDefaultInDefault_0@ == inherit_paths(es, es.len() as int)[k]
}

/// Validates every locale in one pass: first the default locale, whose
/// entries form the schema, then each other locale against it. Problems do
/// not stop the pass: all of them are collected and returned together.
pub fn validate_locales(default: &LocaleEntries, others: &Vec<LocaleEntries>) -> (r: Vec<Error>)
    ensures
        r@.len() == 0 <==> (default_clean(default.entries@) && forall|k: int|
            0 <= k < others@.len() ==> locale_clean(
                default.entries@,
                (#[trigger] others@[k]).entries@,
            )),
        starts_with_inherits(r@, default.entries@),
{
    let schema = &default.entries;
    let mut errs = check_default_locale(schema);
    match resolve_all(&default.locale, schema) {
        Ok(_) => {},
        Err(mut more) => {
            assert(more@.len() > 0);
            let ghost e0 = errs@;
            errs.append(&mut more);
            assert(forall|q: int| 0 <= q < e0.len() ==> errs@[q] == e0[q]);
        },
    }
    let mut k: usize = 0;
    while k < others.len()
        invariant
            k <= others@.len(),
            errs@.len() == 0 <==> (default_clean(schema@) && forall|a: int|
                0 <= a < k ==> locale_clean(schema@, (#[trigger] others@[a]).entries@)),
            starts_with_inherits(errs@, default.entries@),
            schema == &default.entries,
        decreases others@.len() - k,
    {
        let other = &others[k];
        let mut shape = check_locale_shape(&other.locale, schema, &other.entries);
        let ghost e0 = errs@;
        errs.append(&mut shape);
        assert(forall|q: int| 0 <= q < e0.len() ==> errs@[q] == e0[q]);
        match resolve_all(&other.locale, &other.entries) {
            Ok(_) => {},
            Err(mut more) => {
                assert(more@.len() > 0);
                let ghost e1 = errs@;
                errs.append(&mut more);
                assert(forall|q: int| 0 <= q < e1.len() ==> errs@[q] == e1[q]);
            },
        }
        proof {
            if errs@.len() == 0 {
                assert forall|a: int| 0 <= a < k + 1 implies locale_clean(
                    schema@,
                    (#[trigger] others@[a]).entries@,
                ) by {
                    if a == k {
                        assert(others@[a] == *other);
                    }
                }
            }
        }
        k = k + 1;
    }
    errs
}

} // verus!
