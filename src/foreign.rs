use vstd::prelude::*;

use crate::error::Error;
use crate::key::{is_key, parse_key_path, split_dots, Key, KeyPath};

verus! {

/// What an entry of a locale's flattened tree holds, as far as linking
/// foreign keys is concerned.
#[derive(Debug, Clone)]
pub enum EntryKind {
    /// A leaf value.
    Text,
    /// An inner node: keys below it.
    Subkeys,
    /// A reference to the entry at another key path.
    Foreign(KeyPath),
    /// The explicit marker that inherits the default locale's value.
    Inherit,
}

/// One entry of a locale's tree, with its key path.
#[derive(Debug, Clone)]
pub struct Entry {
    pub path: KeyPath,
    pub kind: EntryKind,
}

/// The first entry at or after `i` whose key path is `p`.
pub open spec fn find_from(es: Seq<Entry>, p: Seq<Seq<char>>, i: int) -> Option<int>
    decreases es.len() - i,
{
    if i < 0 || i >= es.len() {
        None
    } else if es[i].path@ == p {
        Some(i)
    } else {
        find_from(es, p, i + 1)
    }
}

/// The entry a key path names: the first one with that path.
pub open spec fn find_entry(es: Seq<Entry>, p: Seq<Seq<char>>) -> Option<int> {
    find_from(es, p, 0)
}

/// Where following references from an entry ends.
pub enum Outcome {
    /// At a leaf, this entry.
    Leaf(int),
    /// A reference names no entry; at the entry given, which holds it.
    Missing(int),
    /// A reference names an inner node; at the entry given, which holds it.
    Invalid(int),
    /// The chain does not end: it runs in a cycle.
    Cycle,
}

/// Follows references from entry `i`, taking at most `fuel` more steps.
pub open spec fn follow(es: Seq<Entry>, i: int, fuel: nat) -> Outcome
    decreases fuel,
{
    match es[i].kind {
        EntryKind::Foreign(t) => match find_entry(es, t@) {
            None => Outcome::Missing(i),
            Some(j) => if es[j].kind is Subkeys {
                Outcome::Invalid(i)
            } else if fuel == 0 {
                Outcome::Cycle
            } else {
                follow(es, j, (fuel - 1) as nat)
            },
        },
        _ => Outcome::Leaf(i),
    }
}

/// The outcome of linking entry `i`: a chain with more steps than there are
/// entries must revisit one.
pub open spec fn resolution(es: Seq<Entry>, i: int) -> Outcome {
    follow(es, i, es.len())
}

/// The error that reports how linking entry `i` in `locale` failed.
pub open spec fn reports_link(e: Error, es: Seq<Entry>, i: int, locale: Seq<char>) -> bool {
    match resolution(es, i) {
        Outcome::Leaf(_) => false,
        Outcome::Cycle => e is RecursiveForeignKey && e->RecursiveForeignKey_locale@ == locale
            && e->RecursiveForeignKey_key_path@ == es[i].path@,
        Outcome::Missing(j) => e is MissingForeignKey && e->MissingForeignKey_locale@ == locale
            && e->MissingForeignKey_key_path@ == es[j].path@
            && e->MissingForeignKey_foreign_key@ == es[j].kind->Foreign_0@,
        Outcome::Invalid(j) => e is InvalidForeignKey && e->InvalidForeignKey_locale@ == locale
            && e->InvalidForeignKey_key_path@ == es[j].path@
            && e->InvalidForeignKey_foreign_key@ == es[j].kind->Foreign_0@,
    }
}

/// Each of the first `n` entries that does not resolve to a leaf has an
/// error in `errs` that reports it.
pub open spec fn all_reported(errs: Seq<Error>, es: Seq<Entry>, locale: Seq<char>, n: int) -> bool {
    forall|x: int|
        #![trigger resolution(es, x)]
        0 <= x < n && !(resolution(es, x) is Leaf) ==> exists|k: int|
            0 <= k < errs.len() && reports_link(#[trigger] errs[k], es, x, locale)
}

/// Finds the entry at key path `p`.
pub fn lookup(es: &Vec<Entry>, p: &KeyPath) -> (r: Option<usize>)
    ensures
        r is Some <==> find_entry(es@, p@) is Some,
        r matches Some(x) ==> x < es@.len() && find_entry(es@, p@) == Some(x as int),
{
    let mut i: usize = 0;
    while i < es.len()
        invariant
            i <= es@.len(),
            find_entry(es@, p@) == find_from(es@, p@, i as int),
        decreases es@.len() - i,
    {
        if es[i].path.same_as(p) {
            return Some(i);
        }
        i = i + 1;
    }
    None
}

/// Links entry `i`: follows its references to a leaf, which it returns, or
/// to the first missing or invalid target, or finds that they run in a cycle.
pub fn resolve_entry(locale: &Key, es: &Vec<Entry>, i: usize) -> (r: Result<usize, Error>)
    requires
        i < es@.len(),
    ensures
        match resolution(es@, i as int) {
            Outcome::Leaf(j) => r matches Ok(x) && x as int == j,
            _ => r matches Err(e) && reports_link(e, es@, i as int, locale@),
        },
{
    let n = es.len();
    let mut cur: usize = i;
    let mut fuel: usize = n;
    loop
        invariant
            i < es@.len(),
            cur < es@.len(),
            n == es@.len(),
            fuel <= n,
            resolution(es@, i as int) == follow(es@, cur as int, fuel as nat),
        decreases fuel,
    {
        match &es[cur].kind {
            EntryKind::Foreign(t) => {
                match lookup(es, t) {
                    None => {
                        return Err(
                            Error::MissingForeignKey {
                                foreign_key: t.duplicate(),
                                locale: locale.duplicate(),
                                key_path: es[cur].path.duplicate(),
                            },
                        );
                    },
                    Some(j) => {
                        if matches!(es[j].kind, EntryKind::Subkeys) {
                            return Err(
                                Error::InvalidForeignKey {
                                    foreign_key: t.duplicate(),
                                    locale: locale.duplicate(),
                                    key_path: es[cur].path.duplicate(),
                                },
                            );
                        }
                        if fuel == 0 {
                            return Err(
                                Error::RecursiveForeignKey {
                                    locale: locale.duplicate(),
                                    key_path: es[i].path.duplicate(),
                                },
                            );
                        }
                        cur = j;
                        fuel = fuel - 1;
                    },
                }
            },
            _ => {
                return Ok(cur);
            },
        }
    }
}

/// Links every entry of a locale: gives, for each entry, the leaf that it
/// resolves to (a leaf or inner node resolves to itself), or collects one
/// error for each entry whose references do not end at a leaf.
pub fn resolve_all(locale: &Key, es: &Vec<Entry>) -> (r: Result<Vec<usize>, Vec<Error>>)
    ensures
        r is Ok <==> forall|i: int| 0 <= i < es@.len() ==> (#[trigger] resolution(es@, i)) is Leaf,
        r matches Ok(v) ==> v@.len() == es@.len() && forall|i: int|
            0 <= i < es@.len() ==> resolution(es@, i) == Outcome::Leaf(#[trigger] v@[i] as int),
        r matches Err(errs) ==> all_reported(errs@, es@, locale@, es@.len() as int),
{
    let mut leaves: Vec<usize> = Vec::new();
    let mut errs: Vec<Error> = Vec::new();
    let mut i: usize = 0;
    while i < es.len()
        invariant
            i <= es@.len(),
            errs@.len() == 0 <==> forall|a: int| 0 <= a < i ==> (#[trigger] resolution(es@, a)) is Leaf,
            errs@.len() == 0 ==> leaves@.len() == i && forall|a: int|
                0 <= a < i ==> resolution(es@, a) == Outcome::Leaf(#[trigger] leaves@[a] as int),
            all_reported(errs@, es@, locale@, i as int),
        decreases es@.len() - i,
    {
        let ghost before = errs@;
        match resolve_entry(locale, es, i) {
            Ok(j) => {
                leaves.push(j);
            },
            Err(e) => {
                errs.push(e);
                assert(reports_link(errs@[errs@.len() - 1], es@, i as int, locale@));
            },
        }
        proof {
            assert forall|a: int|
                #![trigger resolution(es@, a)]
                0 <= a < i + 1 && !(resolution(es@, a) is Leaf) implies exists|k: int|
                    0 <= k < errs@.len() && reports_link(#[trigger] errs@[k], es@, a, locale@) by {
                if a < i {
                    let k = choose|k: int|
                        0 <= k < before.len() && reports_link(#[trigger] before[k], es@, a, locale@);
                    assert(errs@[k] == before[k]);
                }
            }
        }
        i = i + 1;
    }
    if errs.len() == 0 {
        Ok(leaves)
    } else {
        Err(errs)
    }
}

/// Two entries that reference each other never resolve: linking either one
/// reports `RecursiveForeignKey`.
pub proof fn lemma_mutual_reference(es: Seq<Entry>, a: int, b: int)
    requires
        0 <= a < es.len(),
        0 <= b < es.len(),
        es[a].kind is Foreign,
        es[b].kind is Foreign,
        find_entry(es, es[a].kind->Foreign_0@) == Some(b),
        find_entry(es, es[b].kind->Foreign_0@) == Some(a),
    ensures
        resolution(es, a) == Outcome::Cycle,
        resolution(es, b) == Outcome::Cycle,
{
    lemma_mutual_follow(es, a, b, es.len());
}

proof fn lemma_mutual_follow(es: Seq<Entry>, a: int, b: int, fuel: nat)
    requires
        0 <= a < es.len(),
        0 <= b < es.len(),
        es[a].kind is Foreign,
        es[b].kind is Foreign,
        find_entry(es, es[a].kind->Foreign_0@) == Some(b),
        find_entry(es, es[b].kind->Foreign_0@) == Some(a),
    ensures
        follow(es, a, fuel) == Outcome::Cycle,
        follow(es, b, fuel) == Outcome::Cycle,
    decreases fuel,
{
    if fuel > 0 {
        lemma_mutual_follow(es, a, b, (fuel - 1) as nat);
    }
}

/// A reference to a key path that no entry has is reported missing, and one
/// to an inner node invalid, at the entry that holds it.
pub proof fn lemma_bad_target(es: Seq<Entry>, i: int)
    requires
        0 <= i < es.len(),
        es[i].kind is Foreign,
    ensures
        find_entry(es, es[i].kind->Foreign_0@) is None ==> resolution(es, i) == Outcome::Missing(i),
        (find_entry(es, es[i].kind->Foreign_0@) matches Some(j) && es[j].kind is Subkeys)
            ==> resolution(es, i) == Outcome::Invalid(i),
{
}

/// The key path text inside a reference `$t(a.b)`, if `s` is one.
pub open spec fn reference_body(s: Seq<char>) -> Option<Seq<char>> {
    if s.len() >= 4 && s[0] == '$' && s[1] == 't' && s[2] == '(' && s[s.len() - 1] == ')' {
        Some(s.subrange(3, s.len() - 1))
    } else {
        None
    }
}

/// `k` refers to the key path written `b`, whose pieces are all keys.
pub open spec fn refers_to(k: EntryKind, b: Seq<char>) -> bool {
    &&& k is Foreign
    &&& k->Foreign_0@ == split_dots(b)
    &&& forall|i: int| 0 <= i < split_dots(b).len() ==> is_key(#[trigger] split_dots(b)[i])
}

/// `e` reports the first piece of the key path written `b` that is no key.
pub open spec fn bad_reference(e: Error, b: Seq<char>) -> bool {
    &&& e is InvalidKey
    &&& exists|i: int|
        0 <= i < split_dots(b).len() && !is_key(split_dots(b)[i]) && e->InvalidKey_0@ == split_dots(
            b,
        )[i]
}

/// Classifies a text value: `$t(a.b)` refers to the entry at `a.b`, and
/// anything else is a leaf. A reference whose path holds a piece that is no
/// key fails with `InvalidKey`.
pub fn classify_text(s: &str) -> (r: Result<EntryKind, Error>)
    ensures
        reference_body(s@) is None ==> r is Ok && r->Ok_0 is Text,
        reference_body(s@) is Some && r is Ok ==> refers_to(r->Ok_0, reference_body(s@)->0),
        reference_body(s@) is Some && r is Err ==> bad_reference(r->Err_0, reference_body(s@)->0),
{
    let n = s.unicode_len();
    if n >= 4 && s.get_char(0) == '$' && s.get_char(1) == 't' && s.get_char(2) == '(' && s.get_char(
        n - 1,
    ) == ')' {
        let body = s.substring_char(3, n - 1);
        assert(reference_body(s@) == Some(body@));
        match parse_key_path(body) {
            Ok(p) => {
                proof {
                    assert forall|i: int|
                        0 <= i < split_dots(body@).len() implies is_key(
                        #[trigger] split_dots(body@)[i],
                    ) by {
                        p.lemma_wf_keys(i);
                    }
                }
                let k = EntryKind::Foreign(p);
                assert(refers_to(k, body@));
                Ok(k)
            },
            Err(e) => {
                let ghost b = body@;
                assert(bad_reference(e, b));
                Err(e)
            },
        }
    } else {
        Ok(EntryKind::Text)
    }
}

} // verus!
