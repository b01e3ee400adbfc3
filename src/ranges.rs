use vstd::prelude::*;

use crate::error::Error;
use crate::key::KeyPath;

verus! {

/// The numeric type of a range's arms.
#[derive(Debug, Clone, Copy, PartialEq, Eq, Structural)]
pub enum RangeType {
    I8,
    I16,
    I32,
    I64,
    U8,
    U16,
    U32,
    U64,
    F32,
    F64,
}

/// Decimal places kept for the bounds of floating-point ranges: a bound is
/// stored as an integer count of `10^-18`.
pub open spec fn float_unit() -> int {
    1_000_000_000_000_000_000
}

/// Floating-point types.
pub open spec fn is_float(t: RangeType) -> bool {
    t is F32 || t is F64
}

/// The smallest bound a type admits (for floats, in units of `10^-18`).
pub open spec fn type_min(t: RangeType) -> int {
    match t {
        RangeType::I8 => -128,
        RangeType::I16 => -32768,
        RangeType::I32 => -2147483648,
        RangeType::I64 => -9223372036854775808,
        RangeType::U8 | RangeType::U16 | RangeType::U32 | RangeType::U64 => 0,
        RangeType::F32 | RangeType::F64 => -100_000_000_000_000_000_000_000_000_000_000_000_000,
    }
}

/// The largest bound a type admits (for floats, in units of `10^-18`).
pub open spec fn type_max(t: RangeType) -> int {
    match t {
        RangeType::I8 => 127,
        RangeType::I16 => 32767,
        RangeType::I32 => 2147483647,
        RangeType::I64 => 9223372036854775807,
        RangeType::U8 => 255,
        RangeType::U16 => 65535,
        RangeType::U32 => 4294967295,
        RangeType::U64 => 18446744073709551615,
        RangeType::F32 | RangeType::F64 => 100_000_000_000_000_000_000_000_000_000_000_000_000,
    }
}

impl RangeType {
    /// Whether the type is one of the two floating-point widths.
    pub fn is_float(&self) -> (r: bool)
        ensures
            r == is_float(*self),
    {
        match self {
            RangeType::F32 | RangeType::F64 => true,
            _ => false,
        }
    }

    /// The smallest bound of the type.
    pub fn min_bound(&self) -> (r: i128)
        ensures
            r == type_min(*self),
    {
        match self {
            RangeType::I8 => -128,
            RangeType::I16 => -32768,
            RangeType::I32 => -2147483648,
            RangeType::I64 => -9223372036854775808,
            RangeType::U8 | RangeType::U16 | RangeType::U32 | RangeType::U64 => 0,
            RangeType::F32 | RangeType::F64 => -100_000_000_000_000_000_000_000_000_000_000_000_000,
        }
    }

    /// The largest bound of the type.
    pub fn max_bound(&self) -> (r: i128)
        ensures
            r == type_max(*self),
    {
        match self {
            RangeType::I8 => 127,
            RangeType::I16 => 32767,
            RangeType::I32 => 2147483647,
            RangeType::I64 => 9223372036854775807,
            RangeType::U8 => 255,
            RangeType::U16 => 65535,
            RangeType::U32 => 4294967295,
            RangeType::U64 => 18446744073709551615,
            RangeType::F32 | RangeType::F64 => 100_000_000_000_000_000_000_000_000_000_000_000_000,
        }
    }
}

pub open spec fn is_digit(c: char) -> bool {
    '0' <= c && c <= '9'
}

pub open spec fn all_digits(s: Seq<char>) -> bool {
    forall|i: int| 0 <= i < s.len() ==> is_digit(#[trigger] s[i])
}

/// The value of a string of decimal digits.
pub open spec fn digits_value(s: Seq<char>) -> int
    decreases s.len(),
{
    if s.len() == 0 {
        0
    } else {
        digits_value(s.drop_last()) * 10 + (s.last() as int - '0' as int)
    }
}

pub open spec fn pow10(n: nat) -> int
    decreases n,
{
    if n == 0 {
        1
    } else {
        10 * pow10((n - 1) as nat)
    }
}

/// `s` is `digits.digits`, with its dot at `j`, at most twenty digits before
/// the dot and at most eighteen after it.
pub open spec fn is_frac_split(s: Seq<char>, j: int) -> bool {
    &&& 0 < j < s.len() - 1
    &&& j <= 20
    &&& s.len() - 1 - j <= 18
    &&& s[j] == '.'
    &&& all_digits(s.subrange(0, j))
    &&& all_digits(s.subrange(j + 1, s.len() as int))
}

/// The value of `digits.digits`, in units of `10^-18`.
pub open spec fn fraction_value(s: Seq<char>) -> int {
    let j = choose|j: int| is_frac_split(s, j);
    let frac = s.subrange(j + 1, s.len() as int);
    digits_value(s.subrange(0, j)) * float_unit() + digits_value(frac) * pow10(
        (18 - frac.len()) as nat,
    )
}

/// The magnitude of an unsigned literal: an integer of at most twenty digits,
/// or, for floating-point types, also a decimal fraction, in units of `10^-18`.
pub open spec fn magnitude(s: Seq<char>, float: bool) -> Option<int> {
    if 0 < s.len() <= 20 && all_digits(s) {
        Some(if float { digits_value(s) * float_unit() } else { digits_value(s) })
    } else if float && exists|j: int| is_frac_split(s, j) {
        Some(fraction_value(s))
    } else {
        None
    }
}

/// The bound that a literal denotes for a range type, if it is one.
pub open spec fn literal_value(s: Seq<char>, t: RangeType) -> Option<int> {
    let neg = s.len() > 0 && s[0] == '-';
    let body = if neg { s.drop_first() } else { s };
    match magnitude(body, is_float(t)) {
        Some(m) => {
            let v = if neg { -m } else { m };
            if type_min(t) <= v <= type_max(t) {
                Some(v)
            } else {
                None
            }
        },
        None => None,
    }
}

proof fn lemma_digits_bound(s: Seq<char>)
    requires
        all_digits(s),
    ensures
        0 <= digits_value(s) < pow10(s.len()),
    decreases s.len(),
{
    if s.len() > 0 {
        assert(all_digits(s.drop_last())) by {
            assert forall|i: int| 0 <= i < s.drop_last().len() implies is_digit(
                #[trigger] s.drop_last()[i],
            ) by {
                assert(s.drop_last()[i] == s[i]);
            }
        }
        lemma_digits_bound(s.drop_last());
        assert(is_digit(s[s.len() - 1]));
    }
}

proof fn lemma_pow10_facts()
    ensures
        pow10(18) == float_unit(),
        pow10(20) == 100_000_000_000_000_000_000,
{
    reveal_with_fuel(pow10, 21);
}

proof fn lemma_pow10_mono(a: nat, b: nat)
    requires
        a <= b,
    ensures
        1 <= pow10(a) <= pow10(b),
    decreases b,
{
    if a < b {
        lemma_pow10_mono(a, (b - 1) as nat);
    } else if a > 0 {
        lemma_pow10_mono((a - 1) as nat, (a - 1) as nat);
    }
}

/// Reads the digits of `s[from..to]`; `None` unless all are digits.
fn read_digits(s: &str, from: usize, to: usize) -> (r: Option<i128>)
    requires
        from <= to <= s@.len(),
        to - from <= 20,
    ensures
        r is Some <==> all_digits(s@.subrange(from as int, to as int)),
        r is Some ==> r->0 == digits_value(s@.subrange(from as int, to as int)),
        r is Some ==> 0 <= r->0 < pow10((to - from) as nat),
{
    let mut acc: i128 = 0;
    let mut i: usize = from;
    proof {
        lemma_pow10_facts();
    }
    while i < to
        invariant
            from <= i <= to <= s@.len(),
            to - from <= 20,
            all_digits(s@.subrange(from as int, i as int)),
            acc == digits_value(s@.subrange(from as int, i as int)),
            0 <= acc < pow10((i - from) as nat),
            pow10(20) == 100_000_000_000_000_000_000,
        decreases to - i,
    {
        let c = s.get_char(i);
        let ghost prev = s@.subrange(from as int, i as int);
        let ghost next = s@.subrange(from as int, i as int + 1);
        if !('0' <= c && c <= '9') {
            assert(next[i - from] == c);
            return None;
        }
        proof {
            lemma_pow10_mono((i + 1 - from) as nat, 20);
            assert(next.drop_last() =~= prev);
        }
        acc = acc * 10 + (c as i128 - '0' as i128);
        i = i + 1;
        assert(all_digits(next)) by {
            assert forall|k: int| 0 <= k < next.len() implies is_digit(#[trigger] next[k]) by {
                if k < prev.len() {
                    assert(next[k] == prev[k]);
                }
            }
        }
    }
    Some(acc)
}

/// Parses a literal `s[from..to]` as a bound of type `t`.
pub fn parse_literal(s: &str, from: usize, to: usize, t: RangeType) -> (r: Option<i128>)
    requires
        from <= to <= s@.len(),
    ensures
        r is Some <==> literal_value(s@.subrange(from as int, to as int), t) is Some,
        r is Some ==> r->0 == literal_value(s@.subrange(from as int, to as int), t)->0,
        r is Some ==> type_min(t) <= r->0 <= type_max(t),
{
    let ghost lit = s@.subrange(from as int, to as int);
    let neg = from < to && s.get_char(from) == '-';
    let start = if neg { from + 1 } else { from };
    let ghost body = s@.subrange(start as int, to as int);
    assert(body =~= (if neg { lit.drop_first() } else { lit }));
    let float = t.is_float();
    proof {
        lemma_pow10_facts();
    }
    let mag: Option<i128> = if start < to && to - start <= 20 {
        match read_digits(s, start, to) {
            Some(v) => {
                proof {
                    lemma_pow10_mono((to - start) as nat, 20);
                    assert(v * float_unit() < float_unit() * 100_000_000_000_000_000_000)
                        by (nonlinear_arith)
                        requires
                            0 <= v < 100_000_000_000_000_000_000,
                            float_unit() > 0,
                    ;
                    assert(0 <= v * float_unit()) by (nonlinear_arith)
                        requires
                            0 <= v,
                            float_unit() > 0,
                    ;
                }
                Some(if float { v * 1_000_000_000_000_000_000 } else { v })
            },
            None => {
                if float {
                    parse_fraction(s, start, to)
                } else {
                    None
                }
            },
        }
    } else if float && start < to {
        parse_fraction(s, start, to)
    } else {
        None
    };
    assert((mag is Some <==> magnitude(body, float) is Some) && (mag is Some ==> mag->0
        == magnitude(body, float)->0)) by {
        if 0 < body.len() <= 20 && all_digits(body) {
            lemma_digits_bound(body);
            lemma_pow10_mono(body.len(), 20);
        }
        if !(0 < body.len() <= 20 && all_digits(body)) && float {
            if exists|j: int| is_frac_split(body, j) {
            }
        }
    };
    assert(mag is Some ==> 0 <= mag->0 < float_unit() * 100_000_000_000_000_000_000);
    match mag {
        Some(m) => {
            let v = if neg { -m } else { m };
            if t.min_bound() <= v && v <= t.max_bound() {
                Some(v)
            } else {
                None
            }
        },
        None => None,
    }
}

/// Any two dot positions that split `s` as a fraction are the same.
proof fn lemma_frac_split_unique(s: Seq<char>, j1: int, j2: int)
    requires
        is_frac_split(s, j1),
        is_frac_split(s, j2),
    ensures
        j1 == j2,
{
    if j1 < j2 {
        assert(s.subrange(j1 + 1, s.len() as int)[j2 - j1 - 1] == s[j2]);
    } else if j2 < j1 {
        assert(s.subrange(j2 + 1, s.len() as int)[j1 - j2 - 1] == s[j1]);
    }
}

/// Parses `s[from..to]` as `digits.digits` in units of `10^-18`.
fn parse_fraction(s: &str, from: usize, to: usize) -> (r: Option<i128>)
    requires
        from < to <= s@.len(),
        !(to - from <= 20 && all_digits(s@.subrange(from as int, to as int))),
    ensures
        r is Some <==> exists|j: int| is_frac_split(s@.subrange(from as int, to as int), j),
        r is Some ==> r->0 == fraction_value(s@.subrange(from as int, to as int)),
        r is Some ==> 0 <= r->0 < float_unit() * 100_000_000_000_000_000_000,
{
    let ghost b = s@.subrange(from as int, to as int);
    let mut j: usize = from;
    while j < to && s.get_char(j) != '.'
        invariant
            from <= j <= to <= s@.len(),
            forall|k: int| from <= k < j ==> s@[k] != '.',
        decreases to - j,
    {
        j = j + 1;
    }
    let ghost jj = j - from;
    if j == to || j == from || j + 1 == to || j - from > 20 || to - j - 1 > 18 {
        assert(!exists|k: int| is_frac_split(b, k)) by {
            if exists|k: int| is_frac_split(b, k) {
                let k = choose|k: int| is_frac_split(b, k);
                assert(b[k] == '.');
                assert(s@[from + k] == '.');
                if k < jj {
                } else if k > jj {
                    assert(j < to);
                    assert(b.subrange(0, k)[jj] == b[jj]);
                }
            }
        }
        return None;
    }
    let ip = read_digits(s, from, j);
    let fp = read_digits(s, j + 1, to);
    assert(b.subrange(0, jj) =~= s@.subrange(from as int, j as int));
    assert(b.subrange(jj + 1, b.len() as int) =~= s@.subrange(j + 1, to as int));
    match (ip, fp) {
        (Some(a), Some(f)) => {
            assert(is_frac_split(b, jj));
            proof {
                let k = choose|k: int| is_frac_split(b, k);
                lemma_frac_split_unique(b, k, jj);
                lemma_pow10_facts();
                lemma_pow10_mono((to - j - 1) as nat, 18);
                lemma_pow10_mono((18 - (to - j - 1)) as nat, 18);
                lemma_pow10_mono((j - from) as nat, 20);
                assert(pow10((to - j - 1) as nat) * pow10((18 - (to - j - 1)) as nat) == pow10(18))
                    by {
                    lemma_pow10_add((to - j - 1) as nat, (18 - (to - j - 1)) as nat);
                }
                assert(f * pow10((18 - (to - j - 1)) as nat) < float_unit()) by (nonlinear_arith)
                    requires
                        0 <= f < pow10((to - j - 1) as nat),
                        pow10((to - j - 1) as nat) * pow10((18 - (to - j - 1)) as nat)
                            == float_unit(),
                        pow10((18 - (to - j - 1)) as nat) >= 1,
                ;
                assert(a * float_unit() < 100_000_000_000_000_000_000 * float_unit())
                    by (nonlinear_arith)
                    requires
                        0 <= a < 100_000_000_000_000_000_000,
                        float_unit() > 0,
                ;
            }
            let scale = pow10_exec(18 - (to - j - 1));
            proof {
                assert(0 <= f * scale) by (nonlinear_arith)
                    requires
                        0 <= f,
                        scale >= 1,
                ;
            }
            Some(a * 1_000_000_000_000_000_000 + f * scale)
        },
        _ => {
            assert(!exists|k: int| is_frac_split(b, k)) by {
                if exists|k: int| is_frac_split(b, k) {
                    let k = choose|k: int| is_frac_split(b, k);
                    if k < jj {
                        assert(b[k] == '.');
                        assert(s@[from + k] == '.');
                    } else if k > jj {
                        assert(b.subrange(0, k)[jj] == b[jj]);
                    }
                }
            }
            None
        },
    }
}

proof fn lemma_pow10_add(a: nat, b: nat)
    ensures
        pow10(a) * pow10(b) == pow10(a + b),
    decreases a,
{
    if a > 0 {
        lemma_pow10_add((a - 1) as nat, b);
        assert(pow10(a) * pow10(b) == 10 * (pow10((a - 1) as nat) * pow10(b))) by (nonlinear_arith)
            requires
                pow10(a) == 10 * pow10((a - 1) as nat),
        ;
    }
}

fn pow10_exec(n: usize) -> (r: i128)
    requires
        n <= 18,
    ensures
        r == pow10(n as nat),
{
    let mut r: i128 = 1;
    let mut i: usize = 0;
    while i < n
        invariant
            i <= n <= 18,
            r == pow10(i as nat),
        decreases n - i,
    {
        proof {
            lemma_pow10_mono((i + 1) as nat, 18);
            lemma_pow10_facts();
        }
        r = r * 10;
        i = i + 1;
    }
    r
}

/// Why a single range arm is refused.
#[derive(Debug, Clone, Copy, PartialEq, Eq, Structural)]
pub enum ArmIssue {
    Empty,
    Parse,
    BoundEnd,
    Impossible,
}

/// The bounds of one arm, both inclusive; `None` is unbounded. A fallback
/// arm matches whatever the others leave.
#[derive(Debug, Clone, Copy, PartialEq, Eq, Structural)]
pub struct ArmBounds {
    pub fallback: bool,
    pub start: Option<i128>,
    pub end: Option<i128>,
}

/// `j` is the first place where `..` occurs in `s`.
pub open spec fn is_first_dotdot(s: Seq<char>, j: int) -> bool {
    &&& 0 <= j < s.len() - 1
    &&& s[j] == '.' && s[j + 1] == '.'
    &&& forall|k: int| 0 <= k < j ==> !(#[trigger] s[k] == '.' && s[k + 1] == '.')
}

/// A bound written as `lit`, where an empty literal is no bound.
pub open spec fn bound_value(lit: Seq<char>, t: RangeType) -> Option<Option<int>> {
    if lit.len() == 0 {
        Some(None)
    } else {
        match literal_value(lit, t) {
            Some(v) => Some(Some(v)),
            None => None,
        }
    }
}

/// What an arm pattern means for a range type: `_` is the fallback; `a..b`,
/// `a..=b` and their one-sided or bare forms are spans; a single literal
/// matches that value alone.
pub open spec fn arm_spec(s: Seq<char>, t: RangeType) -> Result<ArmBounds, ArmIssue> {
    if s.len() == 0 {
        Err(ArmIssue::Empty)
    } else if s == seq!['_'] {
        Ok(ArmBounds { fallback: true, start: None, end: None })
    } else if exists|j: int| is_first_dotdot(s, j) {
        let j = choose|j: int| is_first_dotdot(s, j);
        let incl = j + 2 < s.len() && s[j + 2] == '=';
        let start = s.subrange(0, j);
        let end = s.subrange(if incl { j + 3 } else { j + 2 }, s.len() as int);
        if !incl && end.len() > 0 && is_float(t) {
            Err(ArmIssue::BoundEnd)
        } else if incl && end.len() == 0 {
            Err(ArmIssue::Parse)
        } else {
            match (bound_value(start, t), bound_value(end, t)) {
                (Some(a), Some(b)) => {
                    if !incl && b is Some && b->0 == type_min(t) {
                        Err(ArmIssue::BoundEnd)
                    } else {
                        let e = if !incl && b is Some { Some(b->0 - 1) } else { b };
                        if a is Some && e is Some && a->0 > e->0 {
                            Err(ArmIssue::Impossible)
                        } else {
                            Ok(ArmBounds {
                                fallback: false,
                                start: match a { Some(v) => Some(v as i128), None => None },
                                end: match e { Some(v) => Some(v as i128), None => None },
                            })
                        }
                    }
                },
                _ => Err(ArmIssue::Parse),
            }
        }
    } else {
        match literal_value(s, t) {
            Some(v) => Ok(ArmBounds { fallback: false, start: Some(v as i128), end: Some(v as i128) }),
            None => Err(ArmIssue::Parse),
        }
    }
}

/// The error that reports an arm issue for the pattern `s`.
pub open spec fn reports(e: Error, issue: ArmIssue, s: Seq<char>, t: RangeType) -> bool {
    match issue {
        ArmIssue::Empty => e is EmptyRange,
        ArmIssue::Parse => e is RangeParse && e->RangeParse_range@ == s
            && e->RangeParse_range_type == t,
        ArmIssue::BoundEnd => e is InvalidBoundEnd && e->InvalidBoundEnd_range@ == s
            && e->InvalidBoundEnd_range_type == t,
        ArmIssue::Impossible => e is ImpossibleRange && e->ImpossibleRange_0@ == s,
    }
}

/// Finds the first `..` in `s`.
fn find_dotdot(s: &str) -> (r: Option<usize>)
    ensures
        r is Some ==> is_first_dotdot(s@, r->0 as int),
        r is None ==> !exists|j: int| is_first_dotdot(s@, j),
{
    let n = s.unicode_len();
    let mut i: usize = 0;
    if n < 2 {
        return None;
    }
    while i < n - 1
        invariant
            n == s@.len(),
            n >= 2,
            forall|k: int| 0 <= k < i && k + 1 < n ==> !(#[trigger] s@[k] == '.' && s@[k + 1] == '.'),
        decreases n - i,
    {
        if s.get_char(i) == '.' && s.get_char(i + 1) == '.' {
            return Some(i);
        }
        i = i + 1;
    }
    None
}

/// Parses a bound literal `s[from..to]`, where an empty literal is no bound.
fn parse_bound(s: &str, from: usize, to: usize, t: RangeType) -> (r: Option<Option<i128>>)
    requires
        from <= to <= s@.len(),
    ensures
        r is Some <==> bound_value(s@.subrange(from as int, to as int), t) is Some,
        r is Some ==> (r->0 is Some <==> bound_value(s@.subrange(from as int, to as int), t)->0 is Some),
        r is Some && r->0 is Some ==> r->0->0 == bound_value(s@.subrange(from as int, to as int), t)->0->0,
        r is Some && r->0 is Some ==> type_min(t) <= r->0->0 <= type_max(t),
{
    if from == to {
        Some(None)
    } else {
        match parse_literal(s, from, to, t) {
            Some(v) => Some(Some(v)),
            None => None,
        }
    }
}

fn is_underscore(s: &str) -> (r: bool)
    ensures
        r == (s@ == seq!['_']),
{
    if s.unicode_len() == 1 && s.get_char(0) == '_' {
        assert(s@ =~= seq!['_']);
        true
    } else {
        false
    }
}

/// Parses one arm pattern for a range type.
pub fn parse_arm(s: &str, t: RangeType) -> (r: Result<ArmBounds, Error>)
    ensures
        match (r, arm_spec(s@, t)) {
            (Ok(a), Ok(b)) => a == b,
            (Err(e), Err(k)) => reports(e, k, s@, t),
            _ => false,
        },
{
    let n = s.unicode_len();
    if n == 0 {
        return Err(Error::EmptyRange);
    }
    if is_underscore(s) {
        return Ok(ArmBounds { fallback: true, start: None, end: None });
    }
    match find_dotdot(s) {
        None => {
            match parse_literal(s, 0, n, t) {
                Some(v) => {
                    assert(s@.subrange(0, n as int) =~= s@);
                    Ok(ArmBounds { fallback: false, start: Some(v), end: Some(v) })
                },
                None => {
                    assert(s@.subrange(0, n as int) =~= s@);
                    Err(Error::RangeParse { range: String::from_str(s), range_type: t })
                },
            }
        },
        Some(j) => {
            proof {
                let k = choose|k: int| is_first_dotdot(s@, k);
                if k < j {
                    assert(!(s@[k] == '.' && s@[k + 1] == '.'));
                } else if k > j {
                    assert(!(s@[j as int] == '.' && s@[j + 1] == '.'));
                }
            }
            let incl = j + 2 < n && s.get_char(j + 2) == '=';
            let end_from = if incl { j + 3 } else { j + 2 };
            if !incl && end_from < n && t.is_float() {
                return Err(Error::InvalidBoundEnd { range: String::from_str(s), range_type: t });
            }
            if incl && end_from == n {
                return Err(Error::RangeParse { range: String::from_str(s), range_type: t });
            }
            let a = parse_bound(s, 0, j, t);
            let b = parse_bound(s, end_from, n, t);
            match (a, b) {
                (Some(a), Some(b)) => {
                    let e: Option<i128> = match b {
                        Some(bv) => {
                            if !incl {
                                if bv == t.min_bound() {
                                    return Err(
                                        Error::InvalidBoundEnd {
                                            range: String::from_str(s),
                                            range_type: t,
                                        },
                                    );
                                }
                                Some(bv - 1)
                            } else {
                                Some(bv)
                            }
                        },
                        None => None,
                    };
                    match (a, e) {
                        (Some(av), Some(ev)) => {
                            if av > ev {
                                return Err(Error::ImpossibleRange(String::from_str(s)));
                            }
                        },
                        _ => {},
                    }
                    Ok(ArmBounds { fallback: false, start: a, end: e })
                },
                _ => Err(Error::RangeParse { range: String::from_str(s), range_type: t }),
            }
        },
    }
}

/// Arm `i` is the fallback pattern `_`.
pub open spec fn is_fallback_at(ps: Seq<String>, i: int) -> bool {
    ps[i]@ == seq!['_']
}

/// Two arms or more are fallbacks.
pub open spec fn has_many_fallbacks(ps: Seq<String>) -> bool {
    exists|i: int, j: int| 0 <= i < j < ps.len() && is_fallback_at(ps, i) && is_fallback_at(ps, j)
}

/// A fallback stands elsewhere than last.
pub open spec fn has_inner_fallback(ps: Seq<String>) -> bool {
    exists|i: int| 0 <= i < ps.len() - 1 && is_fallback_at(ps, i)
}

/// Some arm matches every value: the fallback, or a span with no bound.
pub open spec fn is_exhaustive(ps: Seq<String>, t: RangeType) -> bool {
    exists|i: int|
        0 <= i < ps.len() && (#[trigger] arm_spec(ps[i]@, t)) is Ok && (arm_spec(ps[i]@, t)->Ok_0.fallback
            || (arm_spec(ps[i]@, t)->Ok_0.start is None && arm_spec(ps[i]@, t)->Ok_0.end is None))
}

/// Every arm parses, at most one fallback stands and only last, and the arms
/// cover every value.
pub open spec fn range_ok(ps: Seq<String>, t: RangeType) -> bool {
    &&& forall|i: int| 0 <= i < ps.len() ==> (#[trigger] arm_spec(ps[i]@, t)) is Ok
    &&& !has_many_fallbacks(ps)
    &&& !has_inner_fallback(ps)
    &&& is_exhaustive(ps, t)
}

/// Each refused arm of `ps` has an error in `es` that reports its issue.
pub open spec fn arm_issues_reported(es: Seq<Error>, ps: Seq<String>, t: RangeType) -> bool {
    forall|i: int|
        0 <= i < ps.len() && (#[trigger] arm_spec(ps[i]@, t)) is Err ==> exists|k: int|
            0 <= k < es.len() && reports(#[trigger] es[k], arm_spec(ps[i]@, t)->Err_0, ps[i]@, t)
}

/// Two lists of patterns with the same texts.
pub open spec fn same_texts(a: Seq<String>, b: Seq<String>) -> bool {
    a.len() == b.len() && forall|i: int| 0 <= i < a.len() ==> (#[trigger] a[i])@ == b[i]@
}

/// Whether a range is valid, and which issues are reported, depend on the
/// texts of its patterns alone.
pub proof fn lemma_range_ok_texts(a: Seq<String>, b: Seq<String>, t: RangeType, es: Seq<Error>)
    requires
        same_texts(a, b),
    ensures
        range_ok(a, t) == range_ok(b, t),
        arm_issues_reported(es, a, t) == arm_issues_reported(es, b, t),
        has_many_fallbacks(a) == has_many_fallbacks(b),
        has_inner_fallback(a) == has_inner_fallback(b),
        is_exhaustive(a, t) == is_exhaustive(b, t),
{
    assert forall|i: int| 0 <= i < a.len() implies #[trigger] arm_spec(a[i]@, t) == arm_spec(b[i]@, t)
        && is_fallback_at(a, i) == is_fallback_at(b, i) by {
        assert(a[i]@ == b[i]@);
    }
    if is_exhaustive(a, t) {
        let i = choose|i: int|
            0 <= i < a.len() && (#[trigger] arm_spec(a[i]@, t)) is Ok && (arm_spec(a[i]@, t)->Ok_0.fallback
                || (arm_spec(a[i]@, t)->Ok_0.start is None && arm_spec(a[i]@, t)->Ok_0.end is None));
        assert(arm_spec(b[i]@, t) == arm_spec(a[i]@, t));
    }
    if is_exhaustive(b, t) {
        let i = choose|i: int|
            0 <= i < b.len() && (#[trigger] arm_spec(b[i]@, t)) is Ok && (arm_spec(b[i]@, t)->Ok_0.fallback
                || (arm_spec(b[i]@, t)->Ok_0.start is None && arm_spec(b[i]@, t)->Ok_0.end is None));
        assert(arm_spec(b[i]@, t) == arm_spec(a[i]@, t));
    }
    if has_many_fallbacks(a) {
        let (i, j) = choose|i: int, j: int| 0 <= i < j < a.len() && is_fallback_at(a, i) && is_fallback_at(a, j);
        assert(is_fallback_at(b, i) && is_fallback_at(b, j));
    }
    if has_many_fallbacks(b) {
        let (i, j) = choose|i: int, j: int| 0 <= i < j < b.len() && is_fallback_at(b, i) && is_fallback_at(b, j);
        assert(is_fallback_at(a, i) && is_fallback_at(a, j));
    }
    if has_inner_fallback(a) {
        let i = choose|i: int| 0 <= i < a.len() - 1 && is_fallback_at(a, i);
        assert(is_fallback_at(b, i));
    }
    if has_inner_fallback(b) {
        let i = choose|i: int| 0 <= i < b.len() - 1 && is_fallback_at(b, i);
        assert(is_fallback_at(a, i));
    }
    if forall|i: int| 0 <= i < a.len() ==> (#[trigger] arm_spec(a[i]@, t)) is Ok {
        assert forall|i: int| 0 <= i < b.len() implies (#[trigger] arm_spec(b[i]@, t)) is Ok by {
            assert(arm_spec(a[i]@, t) == arm_spec(b[i]@, t));
        }
    }
    if forall|i: int| 0 <= i < b.len() ==> (#[trigger] arm_spec(b[i]@, t)) is Ok {
        assert forall|i: int| 0 <= i < a.len() implies (#[trigger] arm_spec(a[i]@, t)) is Ok by {
            assert(arm_spec(a[i]@, t) == arm_spec(b[i]@, t));
        }
    }
    if arm_issues_reported(es, a, t) {
        assert forall|i: int| 0 <= i < b.len() && (#[trigger] arm_spec(b[i]@, t)) is Err implies exists|k: int|
            0 <= k < es.len() && reports(#[trigger] es[k], arm_spec(b[i]@, t)->Err_0, b[i]@, t) by {
            assert(arm_spec(a[i]@, t) == arm_spec(b[i]@, t));
            assert(a[i]@ == b[i]@);
        }
    }
    if arm_issues_reported(es, b, t) {
        assert forall|i: int| 0 <= i < a.len() && (#[trigger] arm_spec(a[i]@, t)) is Err implies exists|k: int|
            0 <= k < es.len() && reports(#[trigger] es[k], arm_spec(a[i]@, t)->Err_0, a[i]@, t) by {
            assert(arm_spec(a[i]@, t) == arm_spec(b[i]@, t));
            assert(a[i]@ == b[i]@);
        }
    }
}

/// Parses the arm patterns of one range. On success gives each arm's bounds
/// in order; otherwise gives every problem found: one error for each refused
/// arm, and one for each rule on fallbacks and coverage that is broken.
pub fn parse_range(t: RangeType, patterns: &Vec<String>) -> (r: Result<Vec<ArmBounds>, Vec<Error>>)
    ensures
        r is Ok <==> range_ok(patterns@, t),
        r matches Ok(v) ==> v@.len() == patterns@.len() && forall|i: int|
            0 <= i < v@.len() ==> arm_spec(patterns@[i]@, t) == Ok::<ArmBounds, ArmIssue>(
                #[trigger] v@[i],
            ),
        r matches Err(es) ==> arm_issues_reported(es@, patterns@, t),
        r matches Err(es) ==> (has_many_fallbacks(patterns@) <==> exists|k: int|
            0 <= k < es@.len() && (#[trigger] es@[k]) is MultipleFallbacks),
        r matches Err(es) ==> (has_inner_fallback(patterns@) <==> exists|k: int|
            0 <= k < es@.len() && (#[trigger] es@[k]) is InvalidFallback),
        r matches Err(es) ==> (!is_exhaustive(patterns@, t) <==> exists|k: int|
            0 <= k < es@.len() && (#[trigger] es@[k]) == Error::MissingFallback(t)),
{
    let ghost ps = patterns@;
    let n = patterns.len();
    let mut arms: Vec<ArmBounds> = Vec::new();
    let mut errs: Vec<Error> = Vec::new();
    let mut fallbacks: usize = 0;
    let mut inner_fallback = false;
    let mut exhaustive = false;
    let mut i: usize = 0;
    while i < n
        invariant
            n == ps.len(),
            ps == patterns@,
            i <= n,
            fallbacks <= i,
            fallbacks == 0 <==> !exists|a: int| 0 <= a < i && is_fallback_at(ps, a),
            fallbacks >= 2 <==> exists|a: int, b: int|
                0 <= a < b < i && is_fallback_at(ps, a) && is_fallback_at(ps, b),
            inner_fallback <==> exists|a: int| 0 <= a < i && a < n - 1 && is_fallback_at(ps, a),
            exhaustive <==> exists|a: int|
                0 <= a < i && (#[trigger] arm_spec(ps[a]@, t)) is Ok && (arm_spec(ps[a]@, t)->Ok_0.fallback
                    || (arm_spec(ps[a]@, t)->Ok_0.start is None && arm_spec(ps[a]@, t)->Ok_0.end is None)),
            errs@.len() == 0 <==> forall|a: int| 0 <= a < i ==> (#[trigger] arm_spec(ps[a]@, t)) is Ok,
            errs@.len() == 0 ==> arms@.len() == i && forall|a: int|
                0 <= a < i ==> arm_spec(ps[a]@, t) == Ok::<ArmBounds, ArmIssue>(#[trigger] arms@[a]),
            forall|a: int|
                0 <= a < i && (#[trigger] arm_spec(ps[a]@, t)) is Err ==> exists|k: int|
                    0 <= k < errs@.len() && reports(
                        #[trigger] errs@[k],
                        arm_spec(ps[a]@, t)->Err_0,
                        ps[a]@,
                        t,
                    ),
            forall|k: int|
                0 <= k < errs@.len() ==> !((#[trigger] errs@[k]) is MultipleFallbacks)
                    && !(errs@[k] is InvalidFallback) && !(errs@[k] is MissingFallback),
        decreases n - i,
    {
        let ghost before = errs@;
        let pat = patterns[i].as_str();
        let fb = is_underscore(pat);
        assert(fb == is_fallback_at(ps, i as int));
        proof {
            if !fb {
                assert(forall|a: int| 0 <= a < i + 1 && is_fallback_at(ps, a) ==> a < i);
            }
        }
        if fb {
            if fallbacks == 1 {
                assert(exists|a: int, b: int|
                    0 <= a < b < i + 1 && is_fallback_at(ps, a) && is_fallback_at(ps, b)) by {
                    let a = choose|a: int| 0 <= a < i && is_fallback_at(ps, a);
                    assert(is_fallback_at(ps, i as int));
                }
            }
            if fallbacks < 2 {
                fallbacks = fallbacks + 1;
            }
            if i + 1 < n {
                inner_fallback = true;
            }
            assert(0 <= i < i + 1 && is_fallback_at(ps, i as int));
        }
        match parse_arm(pat, t) {
            Ok(a) => {
                if a.fallback || (a.start.is_none() && a.end.is_none()) {
                    exhaustive = true;
                }
                arms.push(a);
            },
            Err(e) => {
                errs.push(e);
                assert(errs@[errs@.len() - 1] == e);
            },
        }
        proof {
            assert forall|a: int|
                0 <= a < i + 1 && (#[trigger] arm_spec(ps[a]@, t)) is Err implies exists|k: int|
                    0 <= k < errs@.len() && reports(
                        #[trigger] errs@[k],
                        arm_spec(ps[a]@, t)->Err_0,
                        ps[a]@,
                        t,
                    ) by {
                if a < i {
                    let k = choose|k: int|
                        0 <= k < before.len() && reports(
                            #[trigger] before[k],
                            arm_spec(ps[a]@, t)->Err_0,
                            ps[a]@,
                            t,
                        );
                    assert(errs@[k] == before[k]);
                } else {
                    assert(reports(errs@[errs@.len() - 1], arm_spec(ps[a]@, t)->Err_0, ps[a]@, t));
                }
            }
        }
        i = i + 1;
    }
    let ghost arm_errs = errs@;
    if fallbacks >= 2 {
        errs.push(Error::MultipleFallbacks);
        assert(errs@[errs@.len() - 1] is MultipleFallbacks);
    }
    let ghost e1 = errs@;
    if inner_fallback {
        errs.push(Error::InvalidFallback);
        assert(errs@[errs@.len() - 1] is InvalidFallback);
    }
    let ghost e2 = errs@;
    if !exhaustive {
        errs.push(Error::MissingFallback(t));
        assert(errs@[errs@.len() - 1] == Error::MissingFallback(t));
    }
    assert(forall|k: int| 0 <= k < arm_errs.len() ==> errs@[k] == arm_errs[k]);
    assert(forall|k: int| 0 <= k < e1.len() ==> errs@[k] == e1[k]);
    assert(forall|k: int| 0 <= k < e2.len() ==> errs@[k] == e2[k]);
    if errs.len() == 0 {
        Ok(arms)
    } else {
        proof {
            assert forall|a: int|
                0 <= a < ps.len() && (#[trigger] arm_spec(ps[a]@, t)) is Err implies exists|k: int|
                    0 <= k < errs@.len() && reports(
                        #[trigger] errs@[k],
                        arm_spec(ps[a]@, t)->Err_0,
                        ps[a]@,
                        t,
                    ) by {
                let k = choose|k: int|
                    0 <= k < arm_errs.len() && reports(
                        #[trigger] arm_errs[k],
                        arm_spec(ps[a]@, t)->Err_0,
                        ps[a]@,
                        t,
                    );
                assert(errs@[k] == arm_errs[k]);
            }
        }
        Err(errs)
    }
}

/// For a floating-point type, an arm that spans up to an exclusive end bound
/// (`a..b`) is refused with `InvalidBoundEnd`, and so is any range holding it.
pub proof fn lemma_float_exclusive_end(ps: Seq<String>, i: int, j: int, t: RangeType)
    requires
        is_float(t),
        0 <= i < ps.len(),
        is_first_dotdot(ps[i]@, j),
        j + 2 < ps[i]@.len(),
        ps[i]@[j + 2] != '=',
    ensures
        arm_spec(ps[i]@, t) == Err::<ArmBounds, ArmIssue>(ArmIssue::BoundEnd),
        !range_ok(ps, t),
{
    let s = ps[i]@;
    assert(s != seq!['_']) by {
        assert(s.len() >= 3);
    }
    let k = choose|k: int| is_first_dotdot(s, k);
    if k < j {
        assert(!(s[k] == '.' && s[k + 1] == '.'));
    } else if k > j {
        assert(!(s[j] == '.' && s[j + 1] == '.'));
    }
}

/// An arm `a..=b`, or `a..b` on an integer type, whose start lies past its
/// end is refused with `ImpossibleRange`, and so is any range holding it.
pub proof fn lemma_start_after_end(ps: Seq<String>, i: int, j: int, t: RangeType)
    requires
        0 <= i < ps.len(),
        is_first_dotdot(ps[i]@, j),
        ({
            let s = ps[i]@;
            let incl = j + 2 < s.len() && s[j + 2] == '=';
            let a = literal_value(s.subrange(0, j), t);
            let b = literal_value(s.subrange(if incl { j + 3 } else { j + 2 }, s.len() as int), t);
            &&& j > 0
            &&& a is Some && b is Some
            &&& incl || (!is_float(t) && b->0 != type_min(t))
            &&& a->0 > (if incl { b->0 } else { b->0 - 1 })
        }),
    ensures
        arm_spec(ps[i]@, t) == Err::<ArmBounds, ArmIssue>(ArmIssue::Impossible),
        !range_ok(ps, t),
{
    let s = ps[i]@;
    let incl = j + 2 < s.len() && s[j + 2] == '=';
    let end = s.subrange(if incl { j + 3 } else { j + 2 }, s.len() as int);
    assert(end.len() > 0) by {
        if end.len() == 0 {
            assert(end =~= Seq::<char>::empty());
        }
    }
    assert(s != seq!['_']) by {
        assert(s.len() >= 2);
    }
    let k = choose|k: int| is_first_dotdot(s, k);
    if k < j {
        assert(!(s[k] == '.' && s[k + 1] == '.'));
    } else if k > j {
        assert(!(s[j] == '.' && s[j + 1] == '.'));
    }
}

/// A range with two fallback arms, or with a fallback elsewhere than last, is
/// refused; `parse_range` then reports `MultipleFallbacks`, resp.
/// `InvalidFallback`.
pub proof fn lemma_fallback_rules(ps: Seq<String>, t: RangeType)
    requires
        has_many_fallbacks(ps) || has_inner_fallback(ps),
    ensures
        !range_ok(ps, t),
        has_many_fallbacks(ps) ==> has_inner_fallback(ps),
{
    if has_many_fallbacks(ps) {
        let (a, b) = choose|a: int, b: int|
            0 <= a < b < ps.len() && is_fallback_at(ps, a) && is_fallback_at(ps, b);
        assert(0 <= a < ps.len() - 1 && is_fallback_at(ps, a));
    }
}

/// Whether `s` holds exactly the text of `lit`.
pub fn text_is(s: &str, lit: &str) -> (r: bool)
    ensures
        r == (s@ == lit@),
{
    let n = s.unicode_len();
    if n != lit.unicode_len() {
        return false;
    }
    let mut i: usize = 0;
    while i < n
        invariant
            n == s@.len() == lit@.len(),
            i <= n,
            forall|k: int| 0 <= k < i ==> s@[k] == lit@[k],
        decreases n - i,
    {
        if s.get_char(i) != lit.get_char(i) {
            return false;
        }
        i = i + 1;
    }
    assert(s@ =~= lit@);
    true
}

/// The range type that a type name denotes.
pub open spec fn range_type_named(s: Seq<char>) -> Option<RangeType> {
    if s == "i8"@ {
        Some(RangeType::I8)
    } else if s == "i16"@ {
        Some(RangeType::I16)
    } else if s == "i32"@ {
        Some(RangeType::I32)
    } else if s == "i64"@ {
        Some(RangeType::I64)
    } else if s == "u8"@ {
        Some(RangeType::U8)
    } else if s == "u16"@ {
        Some(RangeType::U16)
    } else if s == "u32"@ {
        Some(RangeType::U32)
    } else if s == "u64"@ {
        Some(RangeType::U64)
    } else if s == "f32"@ {
        Some(RangeType::F32)
    } else if s == "f64"@ {
        Some(RangeType::F64)
    } else {
        None
    }
}

/// Reads a range type name (`i8` to `u64`, `f32`, `f64`); any other name
/// fails with `InvalidRangeType` carrying it.
pub fn parse_range_type(s: &str) -> (r: Result<RangeType, Error>)
    ensures
        match r {
            Ok(t) => range_type_named(s@) == Some(t),
            Err(e) => range_type_named(s@) is None && e is InvalidRangeType
                && e->InvalidRangeType_0@ == s@,
        },
{
    if text_is(s, "i8") {
        Ok(RangeType::I8)
    } else if text_is(s, "i16") {
        Ok(RangeType::I16)
    } else if text_is(s, "i32") {
        Ok(RangeType::I32)
    } else if text_is(s, "i64") {
        Ok(RangeType::I64)
    } else if text_is(s, "u8") {
        Ok(RangeType::U8)
    } else if text_is(s, "u16") {
        Ok(RangeType::U16)
    } else if text_is(s, "u32") {
        Ok(RangeType::U32)
    } else if text_is(s, "u64") {
        Ok(RangeType::U64)
    } else if text_is(s, "f32") {
        Ok(RangeType::F32)
    } else if text_is(s, "f64") {
        Ok(RangeType::F64)
    } else {
        Err(Error::InvalidRangeType(String::from_str(s)))
    }
}

/// The type of a range seen again at a key path: the first type seen stays;
/// a different one fails with `RangeTypeMissmatch` naming both.
pub fn merge_range_type(key_path: &KeyPath, first: RangeType, later: RangeType) -> (r: Result<
    RangeType,
    Error,
>)
    ensures
        first == later ==> r == Ok::<RangeType, Error>(first),
        first != later ==> (r matches Err(e) && e is RangeTypeMissmatch && e->RangeTypeMissmatch_type1
            == first && e->RangeTypeMissmatch_type2 == later && e->RangeTypeMissmatch_key_path@
            == key_path@),
{
    if first == later {
        Ok(first)
    } else {
        Err(Error::RangeTypeMissmatch { key_path: key_path.duplicate(), type1: first, type2: later })
    }
}

} // verus!
