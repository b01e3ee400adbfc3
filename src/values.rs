use vstd::prelude::*;

use crate::error::Error;
use crate::foreign::{classify_text, reference_body, Entry, EntryKind};
use crate::key::{is_key, make_key, split_dots, Key, KeyPath};
use crate::ranges::{
    arm_issues_reported, arm_spec, has_inner_fallback, has_many_fallbacks, is_exhaustive,
    lemma_range_ok_texts, parse_range, parse_range_type, range_ok, range_type_named, same_texts,
    ArmBounds, ArmIssue, RangeType,
};

verus! {

/// A node of a deserialized translation file.
#[derive(Debug)]
pub enum RawValue {
    Str(String),
    Int(i128),
    /// A number with a fractional part, kept as written.
    Decimal(String),
    Bool(bool),
    Null,
    Table(Vec<(String, RawValue)>),
    Array(Vec<RawValue>),
}

/// How a range arm item is shaped: `[pattern, text]`.
pub enum ArmShape {
    /// A pattern and the arm's text.
    Good,
    /// The arm's value is itself a range.
    Nested,
    /// The arm's value has subkeys.
    Subkeys,
    /// Anything else.
    Bad,
}

/// The shape of one arm item of a range.
pub open spec fn arm_shape(v: RawValue) -> ArmShape {
    match v {
        RawValue::Array(xs) => if xs@.len() == 2 && xs@[0] is Str {
            match xs@[1] {
                RawValue::Str(_) => ArmShape::Good,
                RawValue::Array(_) => ArmShape::Nested,
                RawValue::Table(_) => ArmShape::Subkeys,
                _ => ArmShape::Bad,
            }
        } else {
            ArmShape::Bad
        },
        _ => ArmShape::Bad,
    }
}

/// Where the arms of a range list start: after its type name, if it has one.
pub open spec fn arms_start(items: Seq<RawValue>) -> int {
    if items.len() > 0 && items[0] is Str {
        1
    } else {
        0
    }
}

/// The range type a range list declares: its leading type name, or `i32`.
pub open spec fn declared_type(items: Seq<RawValue>) -> Option<RangeType> {
    if arms_start(items) == 1 {
        range_type_named(items[0]->Str_0@)
    } else {
        Some(RangeType::I32)
    }
}

/// An error of the kind that reports a misshapen arm.
pub open spec fn reports_shape(e: Error, shape: ArmShape) -> bool {
    match shape {
        ArmShape::Good => false,
        ArmShape::Nested => e is NestedRanges,
        ArmShape::Subkeys => e is RangeSubkeys,
        ArmShape::Bad => e is UnexpectedToken,
    }
}

/// Each misshapen arm among the items before `n` is reported in `errs`.
pub open spec fn arm_shapes_reported(items: Seq<RawValue>, n: int, errs: Seq<Error>) -> bool {
    forall|a: int|
        arms_start(items) <= a < n && !(arm_shape(#[trigger] items[a]) is Good) ==> exists|k: int|
            0 <= k < errs.len() && reports_shape(#[trigger] errs[k], arm_shape(items[a]))
}

/// The patterns of the arms of a range list, in order.
pub open spec fn arm_patterns(items: Seq<RawValue>) -> Seq<String> {
    items.subrange(arms_start(items), items.len() as int).map_values(
        |v: RawValue| v->Array_0@[0]->Str_0,
    )
}

/// A range list is read: its type is known, every arm is well shaped, and
/// its patterns form a valid range of the type.
pub open spec fn range_block_ok(items: Seq<RawValue>) -> bool {
    &&& declared_type(items) is Some
    &&& forall|i: int| arms_start(items) <= i < items.len() ==> arm_shape(#[trigger] items[i]) is Good
    &&& range_ok(arm_patterns(items), declared_type(items)->0)
}

/// The type is known and every arm is well shaped.
pub open spec fn range_block_shaped(items: Seq<RawValue>) -> bool {
    &&& declared_type(items) is Some
    &&& forall|i: int| arms_start(items) <= i < items.len() ==> arm_shape(#[trigger] items[i]) is Good
}

/// The problems of the arm patterns are reported, as `parse_range` reports
/// them.
pub open spec fn range_errors_reported(es: Seq<Error>, items: Seq<RawValue>) -> bool {
    let ps = arm_patterns(items);
    let t = declared_type(items)->0;
    &&& arm_issues_reported(es, ps, t)
    &&& has_many_fallbacks(ps) ==> exists|k: int| 0 <= k < es.len() && (#[trigger] es[k]) is MultipleFallbacks
    &&& has_inner_fallback(ps) ==> exists|k: int| 0 <= k < es.len() && (#[trigger] es[k]) is InvalidFallback
    &&& !is_exhaustive(ps, t) ==> exists|k: int| 0 <= k < es.len() && (#[trigger] es[k]) == Error::MissingFallback(t)
}

/// A range read from a list value.
#[derive(Debug)]
pub struct RangeBlock {
    pub range_type: RangeType,
    pub arms: Vec<ArmBounds>,
    pub values: Vec<String>,
}

/// Reads a range written as a list: an optional type name, then arms
/// `[pattern, text]`. An unknown type name fails with `InvalidRangeType`; an
/// arm whose value is a list with `NestedRanges`, a map with `RangeSubkeys`,
/// any other misshapen arm with `UnexpectedToken`; the patterns must then
/// form a valid range of the type (see `parse_range`).
pub fn parse_range_block(locale: &Key, key_path: &KeyPath, items: &Vec<RawValue>) -> (r: Result<RangeBlock, Vec<Error>>)
    ensures
        r is Ok <==> range_block_ok(items@),
        r matches Err(es) ==> (range_block_shaped(items@) ==> range_errors_reported(es@, items@)),
        r matches Ok(b) ==> b.range_type == declared_type(items@)->0 && b.arms@.len() == b.values@.len()
            == items@.len() - arms_start(items@) && forall|i: int|
            0 <= i < b.arms@.len() ==> arm_spec(
                (#[trigger] items@[i + arms_start(items@)])->Array_0@[0]->Str_0@,
                b.range_type,
            ) == Ok::<ArmBounds, ArmIssue>(b.arms@[i]) && b.values@[i]@
                == items@[i + arms_start(items@)]->Array_0@[1]->Str_0@,
        declared_type(items@) is None ==> (r matches Err(es) && es@.len() == 1
            && es@[0] is InvalidRangeType),
        r matches Err(es) ==> (declared_type(items@) is Some ==> arm_shapes_reported(
            items@,
            items@.len() as int,
            es@,
        )),
{
    let start: usize = if items.len() > 0 && matches!(items[0], RawValue::Str(_)) { 1 } else { 0 };
    let t = if start == 1 {
        match &items[0] {
            RawValue::Str(name) => match parse_range_type(name.as_str()) {
                Ok(t) => t,
                Err(e) => {
                    let mut es: Vec<Error> = Vec::new();
                    es.push(e);
                    return Err(es);
                },
            },
            _ => RangeType::I32,
        }
    } else {
        RangeType::I32
    };
    let mut errs: Vec<Error> = Vec::new();
    let mut patterns: Vec<String> = Vec::new();
    let mut values: Vec<String> = Vec::new();
    let mut i: usize = start;
    while i < items.len()
        invariant
            start == arms_start(items@),
            declared_type(items@) == Some(t),
            start <= i <= items@.len(),
            errs@.len() == 0 ==> (forall|a: int| start <= a < i ==> arm_shape(#[trigger] items@[a]) is Good),
            errs@.len() > 0 ==> exists|a: int| start <= a < i && !(arm_shape(#[trigger] items@[a]) is Good),
            errs@.len() == 0 ==> patterns@.len() == values@.len() == i - start && forall|a: int|
                0 <= a < patterns@.len() ==> (#[trigger] patterns@[a])@
                    == items@[a + start]->Array_0@[0]->Str_0@ && values@[a]@
                    == items@[a + start]->Array_0@[1]->Str_0@,
            arm_shapes_reported(items@, i as int, errs@),
        decreases items@.len() - i,
    {
        let ghost before = errs@;
        let mut good = false;
        match &items[i] {
            RawValue::Array(xs) => {
                if xs.len() == 2 {
                    match (&xs[0], &xs[1]) {
                        (RawValue::Str(p), RawValue::Str(v)) => {
                            patterns.push(p.clone());
                            values.push(v.clone());
                            good = true;
                        },
                        (RawValue::Str(_), RawValue::Array(_)) => {
                            errs.push(Error::NestedRanges);
                        },
                        (RawValue::Str(_), RawValue::Table(_)) => {
                            errs.push(Error::RangeSubkeys);
                        },
                        _ => {
                            errs.push(unexpected_arm(locale, key_path));
                        },
                    }
                } else {
                    errs.push(unexpected_arm(locale, key_path));
                }
            },
            _ => {
                errs.push(unexpected_arm(locale, key_path));
            },
        }
        proof {
            if !good {
                assert(reports_shape(errs@[errs@.len() - 1], arm_shape(items@[i as int])));
                assert(start <= i && !(arm_shape(items@[i as int]) is Good));
            } else if before.len() > 0 {
                let a = choose|a: int| start <= a < i && !(arm_shape(#[trigger] items@[a]) is Good);
                assert(start <= a < i + 1);
            }
            assert forall|a: int|
                start <= a < i + 1 && !(arm_shape(#[trigger] items@[a]) is Good) implies exists|k: int|
                    0 <= k < errs@.len() && reports_shape(#[trigger] errs@[k], arm_shape(items@[a])) by {
                if a < i {
                    let k = choose|k: int|
                        0 <= k < before.len() && reports_shape(#[trigger] before[k], arm_shape(items@[a]));
                    assert(errs@[k] == before[k]);
                }
            }
        }
        i = i + 1;
    }
    if errs.len() > 0 {
        return Err(errs);
    }
    proof {
        let ps = arm_patterns(items@);
        assert(same_texts(patterns@, ps));
        lemma_range_ok_texts(patterns@, ps, t, Seq::empty());
    }
    match parse_range(t, &patterns) {
        Ok(arms) => Ok(RangeBlock { range_type: t, arms, values }),
        Err(more) => {
            proof {
                lemma_range_ok_texts(patterns@, arm_patterns(items@), t, more@);
            }
            Err(more)
        },
    }
}

fn unexpected_arm(locale: &Key, key_path: &KeyPath) -> (r: Error)
    ensures
        r is UnexpectedToken,
{
    proof {
        reveal_strlit("a range arm must be a list of a pattern and a text");
    }
    Error::UnexpectedToken {
        locale: locale.duplicate(),
        key_path: key_path.duplicate(),
        message: String::from_str("a range arm must be a list of a pattern and a text"),
    }
}

/// How an entry's kind reads in contracts.
pub enum KindView {
    Text,
    Subkeys,
    Foreign(Seq<Seq<char>>),
    Inherit,
}

/// The contract view of an entry kind.
pub open spec fn kind_view(k: EntryKind) -> KindView {
    match k {
        EntryKind::Text => KindView::Text,
        EntryKind::Subkeys => KindView::Subkeys,
        EntryKind::Foreign(p) => KindView::Foreign(p@),
        EntryKind::Inherit => KindView::Inherit,
    }
}

/// The kind of a node that is no map: text or a reference, an inherit
/// marker, or a range (a leaf); other nodes are refused.
pub open spec fn leaf_of(v: RawValue) -> Option<KindView> {
    match v {
        RawValue::Str(s) => match reference_body(s@) {
            None => Some(KindView::Text),
            Some(b) => if forall|i: int| 0 <= i < split_dots(b).len() ==> is_key(#[trigger] split_dots(b)[i]) {
                Some(KindView::Foreign(split_dots(b)))
            } else {
                None
            },
        },
        RawValue::Null => Some(KindView::Inherit),
        RawValue::Array(_) => Some(KindView::Text),
        _ => None,
    }
}

/// The entries a node at key path `p` contributes, in document order: a map
/// contributes itself and then each field's entries; `None` if any node
/// below is refused or any field name is no key.
pub open spec fn flat(v: RawValue, p: Seq<Seq<char>>) -> Option<Seq<(Seq<Seq<char>>, KindView)>>
    decreases v, 0int,
{
    match v {
        RawValue::Table(kvs) => match flat_fields(kvs@, p, kvs@.len() as int) {
            Some(rest) => Some(seq![(p, KindView::Subkeys)] + rest),
            None => None,
        },
        _ => match leaf_of(v) {
            Some(k) => Some(seq![(p, k)]),
            None => None,
        },
    }
}

/// The entries of the first `n` fields of a map at key path `p`.
pub open spec fn flat_fields(kvs: Seq<(String, RawValue)>, p: Seq<Seq<char>>, n: int) -> Option<
    Seq<(Seq<Seq<char>>, KindView)>,
>
    decreases kvs, n,
{
    if n <= 0 || n > kvs.len() {
        Some(Seq::empty())
    } else {
        match flat_fields(kvs, p, n - 1) {
            None => None,
            Some(pre) => if is_key(kvs[n - 1].0@) {
                match flat(kvs[n - 1].1, p.push(kvs[n - 1].0@)) {
                    Some(sub) => Some(pre + sub),
                    None => None,
                }
            } else {
                None
            },
        }
    }
}

/// The contract view of a list of entries.
pub open spec fn entries_view(es: Seq<Entry>) -> Seq<(Seq<Seq<char>>, KindView)> {
    es.map_values(|e: Entry| (e.path@, kind_view(e.kind)))
}

proof fn lemma_entries_view_push(es: Seq<Entry>, e: Entry)
    ensures
        entries_view(es.push(e)) == entries_view(es).push((e.path@, kind_view(e.kind))),
{
    assert(entries_view(es.push(e)) =~= entries_view(es).push((e.path@, kind_view(e.kind))));
}

fn unexpected_value(locale: &Key, key_path: &KeyPath) -> (r: Error)
    ensures
        r is UnexpectedToken,
{
    Error::UnexpectedToken {
        locale: locale.duplicate(),
        key_path: key_path.duplicate(),
        message: String::from_str("expected text, a reference, null, a range or a map"),
    }
}

/// Appends the entries of the node `v` at key path `p` to `out`, or records
/// why the node cannot be read in `errs`.
fn flatten_into(v: &RawValue, p: &mut KeyPath, locale: &Key, out: &mut Vec<Entry>, errs: &mut Vec<Error>)
    requires
        old(p).wf(),
    ensures
        final(p)@ == old(p)@,
        final(p).wf(),
        final(errs)@.len() >= old(errs)@.len(),
        final(errs)@.len() == old(errs)@.len() <==> flat(*v, old(p)@) is Some,
        flat(*v, old(p)@) is Some ==> entries_view(final(out)@) == entries_view(old(out)@) + flat(
            *v,
            old(p)@,
        )->0,
    decreases v,
{
    let ghost p0 = p@;
    let ghost out0 = out@;
    let ghost e0 = errs@.len();
    match v {
        RawValue::Table(kvs) => {
            let e = Entry { path: p.duplicate(), kind: EntryKind::Subkeys };
            out.push(e);
            proof {
                lemma_entries_view_push(out0, e);
            }
            let mut i: usize = 0;
            while i < kvs.len()
                invariant
                    *v is Table && v->Table_0 == *kvs,
                    p@ == p0,
                    p.wf(),
                    i <= kvs@.len(),
                    errs@.len() >= e0,
                    errs@.len() == e0 <==> flat_fields(kvs@, p0, i as int) is Some,
                    flat_fields(kvs@, p0, i as int) is Some ==> entries_view(out@) == entries_view(
                        out0,
                    ).push((p0, KindView::Subkeys)) + flat_fields(kvs@, p0, i as int)->0,
                decreases kvs@.len() - i,
            {
                let ghost out1 = out@;
                let ghost e1 = errs@.len();
                let (name, child) = &kvs[i];
                proof {
                    broadcast use vstd::std_specs::vec::axiom_vec_decreases_to_view;
                    broadcast use vstd::seq::axiom_seq_index_decreases;

                    assert(decreases_to!(kvs@ => kvs@[i as int]));
                    assert(decreases_to!(kvs@[i as int] => kvs@[i as int].1));
                    assert(decreases_to!(*kvs => kvs@));
                    assert(*v is Table);
                    assert(v->Table_0 == *kvs);
                    assert(decreases_to!(*v => v->Table_0));
                    assert(kvs@[i as int].1 == *child);
                }
                match make_key(name.as_str()) {
                    Ok(k) => {
                        p.push_key(k);
                        flatten_into(child, p, locale, out, errs);
                        let _ = p.pop_key();
                        assert(p@ =~= p0);
                        proof {
                            if flat_fields(kvs@, p0, i as int) is Some && flat(*child, p0.push(name@)) is Some {
                                assert(entries_view(out@) =~= entries_view(out0).push((p0, KindView::Subkeys))
                                    + flat_fields(kvs@, p0, i + 1)->0);
                            }
                        }
                    },
                    Err(e) => {
                        errs.push(e);
                    },
                }
                i = i + 1;
            }
            proof {
                if flat(*v, p0) is Some {
                    assert(entries_view(out@) =~= entries_view(out0) + flat(*v, p0)->0);
                }
            }
        },
        RawValue::Str(s) => match classify_text(s.as_str()) {
            Ok(k) => {
                let e = Entry { path: p.duplicate(), kind: k };
                out.push(e);
                proof {
                    lemma_entries_view_push(out0, e);
                    assert(entries_view(out@) =~= entries_view(out0) + flat(*v, p0)->0);
                }
            },
            Err(e) => {
                errs.push(e);
            },
        },
        RawValue::Null => {
            let e = Entry { path: p.duplicate(), kind: EntryKind::Inherit };
            out.push(e);
            proof {
                lemma_entries_view_push(out0, e);
                assert(entries_view(out@) =~= entries_view(out0) + flat(*v, p0)->0);
            }
        },
        RawValue::Array(_) => {
            let e = Entry { path: p.duplicate(), kind: EntryKind::Text };
            out.push(e);
            proof {
                lemma_entries_view_push(out0, e);
                assert(entries_view(out@) =~= entries_view(out0) + flat(*v, p0)->0);
            }
        },
        _ => {
            errs.push(unexpected_value(locale, p));
        },
    }
}

/// Flattens the tree of one locale file into its entries, in document order:
/// each map is an entry with subkeys followed by its fields' entries; text is
/// a leaf or, written `$t(a.b)`, a reference; null inherits; a list is a
/// range, a leaf. Field names must be keys; numbers and booleans are refused
/// with `UnexpectedToken`. Every problem found is returned.
pub fn flatten(locale: &Key, v: &RawValue) -> (r: Result<Vec<Entry>, Vec<Error>>)
    ensures
        r is Ok <==> flat(*v, Seq::empty()) is Some,
        r matches Ok(es) ==> entries_view(es@) == flat(*v, Seq::empty())->0,
        r matches Err(errs) ==> errs@.len() > 0,
{
    let mut p = KeyPath::new();
    let mut out: Vec<Entry> = Vec::new();
    let mut errs: Vec<Error> = Vec::new();
    flatten_into(v, &mut p, locale, &mut out, &mut errs);
    if errs.len() == 0 {
        assert(entries_view(out@) =~= flat(*v, Seq::empty())->0) by {
            assert(entries_view(Seq::<Entry>::empty()) =~= Seq::empty());
        }
        Ok(out)
    } else {
        Err(errs)
    }
}

} // verus!
