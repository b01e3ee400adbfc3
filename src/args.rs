use vstd::prelude::*;

use crate::error::Error;
use crate::key::{is_key, is_valid_key, Key, KeyPath};
use crate::ranges::{is_float, type_max, type_min, RangeType};

verus! {

/// A decoded argument value handed to a foreign key.
#[derive(Debug, Clone)]
pub enum ArgValue {
    /// An integer literal.
    Integer(i128),
    /// A number literal with a fractional part, kept as written.
    Decimal(String),
    /// A string.
    Text(String),
    /// Anything else: a boolean, null, a list or a map.
    Other,
}

/// What a valid `count` argument passes on.
#[derive(Debug, Clone)]
pub enum CountArg {
    /// An integer literal.
    Literal(i128),
    /// A fractional literal, for a floating-point range.
    DecimalLiteral(String),
    /// A reference to a variable of the calling entry.
    Variable(String),
}

/// `s` without its leading spaces.
pub open spec fn trim_start(s: Seq<char>) -> Seq<char>
    decreases s.len(),
{
    if s.len() > 0 && s[0] == ' ' {
        trim_start(s.drop_first())
    } else {
        s
    }
}

/// `s` without its trailing spaces.
pub open spec fn trim_end(s: Seq<char>) -> Seq<char>
    decreases s.len(),
{
    if s.len() > 0 && s.last() == ' ' {
        trim_end(s.drop_last())
    } else {
        s
    }
}

/// The variable that `{{ name }}` refers to: a key between double braces,
/// with spaces around it allowed.
pub open spec fn var_ref_name(s: Seq<char>) -> Option<Seq<char>> {
    if s.len() >= 4 && s[0] == '{' && s[1] == '{' && s[s.len() - 2] == '}' && s[s.len() - 1]
        == '}' {
        let inner = trim_end(trim_start(s.subrange(2, s.len() - 2)));
        if is_key(inner) {
            Some(inner)
        } else {
            None
        }
    } else {
        None
    }
}

/// The name of the variable that `s` refers to, if it is such a reference.
pub fn parse_var_ref(s: &str) -> (r: Option<String>)
    ensures
        match var_ref_name(s@) {
            Some(name) => r matches Some(t) && t@ == name,
            None => r is None,
        },
{
    let n = s.unicode_len();
    if n < 4 || s.get_char(0) != '{' || s.get_char(1) != '{' || s.get_char(n - 2) != '}'
        || s.get_char(n - 1) != '}' {
        return None;
    }
    let e = n - 2;
    let mut a: usize = 2;
    while a < e && s.get_char(a) == ' '
        invariant
            2 <= a <= e,
            e == s@.len() - 2,
            trim_start(s@.subrange(2, e as int)) == trim_start(s@.subrange(a as int, e as int)),
        decreases e - a,
    {
        assert(s@.subrange(a as int, e as int).drop_first() =~= s@.subrange(a + 1, e as int));
        a = a + 1;
    }
    assert(trim_start(s@.subrange(a as int, e as int)) == s@.subrange(a as int, e as int));
    let mut b: usize = e;
    while b > a && s.get_char(b - 1) == ' '
        invariant
            2 <= a <= b <= e,
            e == s@.len() - 2,
            trim_end(s@.subrange(a as int, e as int)) == trim_end(s@.subrange(a as int, b as int)),
        decreases b - a,
    {
        assert(s@.subrange(a as int, b as int).drop_last() =~= s@.subrange(a as int, b - 1));
        b = b - 1;
    }
    assert(trim_end(s@.subrange(a as int, b as int)) == s@.subrange(a as int, b as int));
    let inner = s.substring_char(a, b);
    if is_valid_key(inner) {
        Some(String::from_str(inner))
    } else {
        None
    }
}

/// What the `count` argument must be, for a target range of type `t`: an
/// integer literal (within the type, for an integer type), a fractional
/// literal (for a floating-point type) or a single variable reference.
pub open spec fn count_arg_ok(arg: ArgValue, t: RangeType) -> bool {
    match arg {
        ArgValue::Integer(v) => is_float(t) || (type_min(t) <= v <= type_max(t)),
        ArgValue::Decimal(_) => is_float(t),
        ArgValue::Text(s) => var_ref_name(s@) is Some,
        ArgValue::Other => false,
    }
}

/// Checks the `count` argument that an entry passes to a foreign key whose
/// target is a range of type `t`. A string that is no variable reference, or
/// a value that is no number, fails with `InvalidCountArg`; a fractional
/// literal for an integer range with `InvalidCountArgType`; an integer
/// literal outside an integer range's type with `CountArgOutsideRange`.
pub fn check_count_arg(
    locale: &Key,
    key_path: &KeyPath,
    foreign_key: &KeyPath,
    arg: &ArgValue,
    t: RangeType,
) -> (r: Result<CountArg, Error>)
    ensures
        r is Ok <==> count_arg_ok(*arg, t),
        match *arg {
            ArgValue::Integer(v) => match r {
                Ok(c) => c == CountArg::Literal(v),
                Err(e) => e is CountArgOutsideRange && e->CountArgOutsideRange_value == v
                    && e->CountArgOutsideRange_locale@ == locale@
                    && e->CountArgOutsideRange_key_path@ == key_path@
                    && e->CountArgOutsideRange_foreign_key@ == foreign_key@,
            },
            ArgValue::Decimal(d) => match r {
                Ok(c) => c matches CountArg::DecimalLiteral(x) && x@ == d@,
                Err(e) => e is InvalidCountArgType && e->InvalidCountArgType_input_type
                    == RangeType::F64 && e->InvalidCountArgType_range_type == t
                    && e->InvalidCountArgType_locale@ == locale@
                    && e->InvalidCountArgType_key_path@ == key_path@
                    && e->InvalidCountArgType_foreign_key@ == foreign_key@,
            },
            ArgValue::Text(s) => match r {
                Ok(c) => c matches CountArg::Variable(x) && x@ == var_ref_name(s@)->0,
                Err(e) => e is InvalidCountArg && e->InvalidCountArg_locale@ == locale@
                    && e->InvalidCountArg_key_path@ == key_path@
                    && e->InvalidCountArg_foreign_key@ == foreign_key@,
            },
            ArgValue::Other => r matches Err(e) && e is InvalidCountArg
                && e->InvalidCountArg_locale@ == locale@ && e->InvalidCountArg_key_path@
                == key_path@ && e->InvalidCountArg_foreign_key@ == foreign_key@,
        },
{
    match arg {
        ArgValue::Integer(v) => {
            if t.is_float() || (t.min_bound() <= *v && *v <= t.max_bound()) {
                Ok(CountArg::Literal(*v))
            } else {
                Err(
                    Error::CountArgOutsideRange {
                        locale: locale.duplicate(),
                        key_path: key_path.duplicate(),
                        foreign_key: foreign_key.duplicate(),
                        value: *v,
                    },
                )
            }
        },
        ArgValue::Decimal(d) => {
            if t.is_float() {
                Ok(CountArg::DecimalLiteral(d.clone()))
            } else {
                Err(
                    Error::InvalidCountArgType {
                        locale: locale.duplicate(),
                        key_path: key_path.duplicate(),
                        foreign_key: foreign_key.duplicate(),
                        input_type: RangeType::F64,
                        range_type: t,
                    },
                )
            }
        },
        ArgValue::Text(s) => match parse_var_ref(s.as_str()) {
            Some(name) => Ok(CountArg::Variable(name)),
            None => Err(
                Error::InvalidCountArg {
                    locale: locale.duplicate(),
                    key_path: key_path.duplicate(),
                    foreign_key: foreign_key.duplicate(),
                },
            ),
        },
        ArgValue::Other => Err(
            Error::InvalidCountArg {
                locale: locale.duplicate(),
                key_path: key_path.duplicate(),
                foreign_key: foreign_key.duplicate(),
            },
        ),
    }
}

} // verus!
