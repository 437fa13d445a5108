//! Dynamic values and their total comparison function.
//!
//! Sensor readings, GPIO levels, user variables and the literals inside
//! conditions are all [`Value`]s. Numbers are fixed-point with three decimal
//! places (a count of thousandths), so that numeric comparison is exact and
//! stays inside the verified world.

use vstd::prelude::*;

use crate::text::{
    chars_eq, contains_chars, dec_chars, push_dec, spec_contains, spec_dec, str_chars,
};

verus! {

/// A dynamic value: the payload of sensors, variables and condition literals.
#[derive(Clone, Debug)]
pub enum Value {
    /// Absent / explicit null.
    Null,
    /// A boolean level.
    Bool(bool),
    /// A number in thousandths: `Num(25_500)` is 25.5.
    Num(i64),
    /// A text value.
    Str(String),
    /// An array of numbers in thousandths (used by `between` bounds).
    Arr(Vec<i64>),
}

/// The mathematical shape of a [`Value`].
pub enum ValueV {
    Null,
    Bool(bool),
    Num(int),
    Str(Seq<char>),
    Arr(Seq<int>),
}

impl View for Value {
    type V = ValueV;

    open spec fn view(&self) -> ValueV {
        match self {
            Value::Null => ValueV::Null,
            Value::Bool(b) => ValueV::Bool(*b),
            Value::Num(m) => ValueV::Num(*m as int),
            Value::Str(s) => ValueV::Str(s@),
            Value::Arr(a) => ValueV::Arr(a@.map_values(|x: i64| x as int)),
        }
    }
}

/// Comparison operators usable in conditions and triggers.
#[derive(Clone, Copy, PartialEq, Eq, Structural, Debug)]
pub enum ComparisonOperator {
    Eq,
    Ne,
    Gt,
    Gte,
    Lt,
    Lte,
    /// Left number within the closed interval given by the first two numbers
    /// of the right-hand array.
    Between,
    /// Right string occurs as a substring of the left string.
    Contains,
}

/// Total comparison of two values. Values of unlike kind compare `false`
/// (except `between`, which pairs a number with an array of bounds); an
/// operator that has no meaning for the kind at hand yields `false`.
pub open spec fn spec_compare(l: ValueV, op: ComparisonOperator, r: ValueV) -> bool {
    match (l, r) {
        (ValueV::Num(a), ValueV::Num(b)) => match op {
            ComparisonOperator::Eq => a == b,
            ComparisonOperator::Ne => a != b,
            ComparisonOperator::Gt => a > b,
            ComparisonOperator::Gte => a >= b,
            ComparisonOperator::Lt => a < b,
            ComparisonOperator::Lte => a <= b,
            _ => false,
        },
        (ValueV::Num(a), ValueV::Arr(bounds)) => match op {
            ComparisonOperator::Between => bounds.len() >= 2 && bounds[0] <= a && a <= bounds[1],
            _ => false,
        },
        (ValueV::Bool(a), ValueV::Bool(b)) => match op {
            ComparisonOperator::Eq => a == b,
            ComparisonOperator::Ne => a != b,
            _ => false,
        },
        (ValueV::Str(a), ValueV::Str(b)) => match op {
            ComparisonOperator::Eq => a == b,
            ComparisonOperator::Ne => a != b,
            ComparisonOperator::Contains => spec_contains(a, b),
            _ => false,
        },
        _ => false,
    }
}

/// Compare two values under `op`; the result is exactly [`spec_compare`] of
/// the views.
pub fn compare_values(left: &Value, op: &ComparisonOperator, right: &Value) -> (r: bool)
    ensures
        r == spec_compare(left@, *op, right@),
{
    match (left, right) {
        (Value::Num(a), Value::Num(b)) => match op {
            ComparisonOperator::Eq => *a == *b,
            ComparisonOperator::Ne => *a != *b,
            ComparisonOperator::Gt => *a > *b,
            ComparisonOperator::Gte => *a >= *b,
            ComparisonOperator::Lt => *a < *b,
            ComparisonOperator::Lte => *a <= *b,
            _ => false,
        },
        (Value::Num(a), Value::Arr(bounds)) => match op {
            ComparisonOperator::Between => {
                if bounds.len() >= 2 {
                    let lo = bounds[0];
                    let hi = bounds[1];
                    lo <= *a && *a <= hi
                } else {
                    false
                }
            },
            _ => false,
        },
        (Value::Bool(a), Value::Bool(b)) => match op {
            ComparisonOperator::Eq => *a == *b,
            ComparisonOperator::Ne => *a != *b,
            _ => false,
        },
        (Value::Str(a), Value::Str(b)) => match op {
            ComparisonOperator::Eq | ComparisonOperator::Ne => {
                let ca = str_chars(a.as_str());
                let cb = str_chars(b.as_str());
                let same = chars_eq(&ca, &cb);
                match op {
                    ComparisonOperator::Eq => same,
                    _ => !same,
                }
            },
            ComparisonOperator::Contains => {
                let ca = str_chars(a.as_str());
                let cb = str_chars(b.as_str());
                contains_chars(&ca, &cb)
            },
            _ => false,
        },
        _ => false,
    }
}

impl PartialEq for Value {
    /// Two values are equal when their mathematical shapes are.
    fn eq(&self, other: &Value) -> (r: bool) {
        match (self, other) {
            (Value::Null, Value::Null) => true,
            (Value::Bool(a), Value::Bool(b)) => *a == *b,
            (Value::Num(a), Value::Num(b)) => *a == *b,
            (Value::Str(a), Value::Str(b)) => str_chars_eq_strs(a, b),
            (Value::Arr(a), Value::Arr(b)) => arr_eq(a, b),
            _ => false,
        }
    }
}

impl vstd::std_specs::cmp::PartialEqSpecImpl for Value {
    open spec fn obeys_eq_spec() -> bool {
        true
    }

    open spec fn eq_spec(&self, other: &Value) -> bool {
        self@ == other@
    }
}

/// Whether two strings hold the same characters.
fn str_chars_eq_strs(a: &String, b: &String) -> (r: bool)
    ensures
        r == (a@ == b@),
{
    let ca = str_chars(a.as_str());
    let cb = str_chars(b.as_str());
    chars_eq(&ca, &cb)
}

/// Whether two number arrays hold the same numbers.
fn arr_eq(a: &Vec<i64>, b: &Vec<i64>) -> (r: bool)
    ensures
        r == (a@.map_values(|x: i64| x as int) == b@.map_values(|x: i64| x as int)),
{
    if a.len() != b.len() {
        proof {
            assert(a@.map_values(|x: i64| x as int).len() != b@.map_values(
                |x: i64| x as int,
            ).len());
        }
        return false;
    }
    let n = a.len();
    let mut i: usize = 0;
    while i < n
        invariant
            n == a@.len() == b@.len(),
            i <= n,
            forall|k: int| 0 <= k < i ==> a@[k] == b@[k],
        decreases n - i,
    {
        if a[i] != b[i] {
            proof {
                assert(a@.map_values(|x: i64| x as int)[i as int] != b@.map_values(
                    |x: i64| x as int,
                )[i as int]);
            }
            return false;
        }
        i = i + 1;
    }
    proof {
        assert(a@ =~= b@);
        assert(a@.map_values(|x: i64| x as int) =~= b@.map_values(|x: i64| x as int));
    }
    true
}

impl Value {
    /// An exact copy of this value.
    pub fn duplicate(&self) -> (r: Value)
        ensures
            r@ == self@,
    {
        match self {
            Value::Null => Value::Null,
            Value::Bool(b) => Value::Bool(*b),
            Value::Num(m) => Value::Num(*m),
            Value::Str(s) => Value::Str(s.clone()),
            Value::Arr(a) => {
                let mut c: Vec<i64> = Vec::new();
                let n = a.len();
                let mut i: usize = 0;
                while i < n
                    invariant
                        n == a@.len(),
                        i <= n,
                        c@ =~= a@.subrange(0, i as int),
                    decreases n - i,
                {
                    c.push(a[i]);
                    i = i + 1;
                }
                proof {
                    assert(c@ =~= a@);
                }
                Value::Arr(c)
            },
        }
    }

    /// A whole number: `int_value(25)` is the number 25.
    pub fn int_value(n: i64) -> (r: Value)
        requires
            -9_000_000_000_000_000 <= n <= 9_000_000_000_000_000,
        ensures
            r@ == ValueV::Num(n * 1000),
    {
        Value::Num(n * 1000)
    }

    /// A number given directly in thousandths: `milli_value(25_500)` is 25.5.
    pub fn milli_value(m: i64) -> (r: Value)
        ensures
            r@ == ValueV::Num(m as int),
    {
        Value::Num(m)
    }

    /// The boolean behind the value, if it is one.
    pub fn as_bool(&self) -> (r: Option<bool>)
        ensures
            r == (match self@ {
                ValueV::Bool(b) => Some(b),
                _ => None::<bool>,
            }),
    {
        match self {
            Value::Bool(b) => Some(*b),
            _ => None,
        }
    }

    /// The value as a non-negative whole number, if it is a number of whole
    /// magnitude within `u64` range.
    pub fn as_u64(&self) -> (r: Option<u64>)
        ensures
            r == (match self@ {
                ValueV::Num(m) => if m >= 0 && m % 1000 == 0 {
                    Some((m / 1000) as u64)
                } else {
                    None::<u64>
                },
                _ => None::<u64>,
            }),
    {
        match self {
            Value::Num(m) => {
                if *m >= 0 && *m % 1000 == 0 {
                    Some((*m / 1000) as u64)
                } else {
                    None
                }
            },
            _ => None,
        }
    }
}

/// Fractional part rendering: the thousandths `f` (`0 < f < 1000`) as one to
/// three digits with trailing zeros removed.
pub open spec fn spec_frac(f: nat) -> Seq<char>
    recommends
        0 < f < 1000,
{
    if f % 10 != 0 {
        seq![
            crate::text::dec_digit(f / 100),
            crate::text::dec_digit((f / 10) % 10),
            crate::text::dec_digit(f % 10),
        ]
    } else if f % 100 != 0 {
        seq![crate::text::dec_digit(f / 100), crate::text::dec_digit((f / 10) % 10)]
    } else {
        seq![crate::text::dec_digit(f / 100)]
    }
}

/// The rendering of a non-negative fixed-point magnitude `m` (thousandths):
/// the whole part in decimal, then `.` and the fraction when one is present.
pub open spec fn spec_mag(m: nat) -> Seq<char> {
    if m % 1000 == 0 {
        spec_dec(m / 1000)
    } else {
        spec_dec(m / 1000) + seq!['.'] + spec_frac(m % 1000)
    }
}

/// The rendering of a number in thousandths, sign included.
pub open spec fn spec_num_chars(m: int) -> Seq<char> {
    if m < 0 {
        seq!['-'] + spec_mag((-m) as nat)
    } else {
        spec_mag(m as nat)
    }
}

/// The rendering of a value when substituted into text.
pub open spec fn spec_value_chars(v: ValueV) -> Seq<char> {
    match v {
        ValueV::Null => "null"@,
        ValueV::Bool(b) => if b {
            "true"@
        } else {
            "false"@
        },
        ValueV::Num(m) => spec_num_chars(m),
        ValueV::Str(s) => s,
        ValueV::Arr(a) => seq!['['] + spec_arr_body(a) + seq![']'],
    }
}

/// The comma-separated numbers inside an array rendering.
pub open spec fn spec_arr_body(a: Seq<int>) -> Seq<char>
    decreases a.len(),
{
    if a.len() == 0 {
        Seq::<char>::empty()
    } else if a.len() == 1 {
        spec_num_chars(a[0])
    } else {
        spec_arr_body(a.drop_last()) + seq![','] + spec_num_chars(a.last())
    }
}

/// Append the rendering of the fraction `f` (thousandths) to `out`.
fn push_frac(out: &mut Vec<char>, f: u64)
    requires
        0 < f < 1000,
    ensures
        final(out)@ == old(out)@ + spec_frac(f as nat),
{
    let d2 = crate::text::dec_chars(f / 100);
    let c2 = d2[0];
    if f % 10 != 0 {
        out.push(c2);
        let d1 = crate::text::dec_chars((f / 10) % 10);
        out.push(d1[0]);
        let d0 = crate::text::dec_chars(f % 10);
        out.push(d0[0]);
        assert(out@ =~= old(out)@ + spec_frac(f as nat));
    } else if f % 100 != 0 {
        out.push(c2);
        let d1 = crate::text::dec_chars((f / 10) % 10);
        out.push(d1[0]);
        assert(out@ =~= old(out)@ + spec_frac(f as nat));
    } else {
        out.push(c2);
        assert(out@ =~= old(out)@ + spec_frac(f as nat));
    }
}

/// Append the rendering of the number `m` (thousandths, signed) to `out`.
pub fn push_num_chars(out: &mut Vec<char>, m: i64)
    ensures
        final(out)@ == old(out)@ + spec_num_chars(m as int),
{
    let mag: u64 = if m < 0 {
        out.push('-');
        ((-(m + 1)) as u64) + 1
    } else {
        m as u64
    };
    proof {
        assert(mag as int == if m < 0 { -(m as int) } else { m as int });
    }
    push_dec(out, mag / 1000);
    let f = mag % 1000;
    if f != 0 {
        out.push('.');
        push_frac(out, f);
    }
    assert(out@ =~= old(out)@ + spec_num_chars(m as int));
}

/// Append the rendering of `v` to `out`.
pub fn push_value_chars(out: &mut Vec<char>, v: &Value)
    ensures
        final(out)@ == old(out)@ + spec_value_chars(v@),
{
    match v {
        Value::Null => {
            crate::text::push_str_chars(out, "null");
        },
        Value::Bool(b) => {
            if *b {
                crate::text::push_str_chars(out, "true");
            } else {
                crate::text::push_str_chars(out, "false");
            }
        },
        Value::Num(m) => {
            push_num_chars(out, *m);
        },
        Value::Str(s) => {
            crate::text::push_str_chars(out, s.as_str());
        },
        Value::Arr(a) => {
            out.push('[');
            let n = a.len();
            let mut i: usize = 0;
            while i < n
                invariant
                    n == a@.len(),
                    i <= n,
                    out@ =~= old(out)@ + seq!['['] + spec_arr_body(
                        a@.subrange(0, i as int).map_values(|x: i64| x as int),
                    ),
                decreases n - i,
            {
                if i > 0 {
                    out.push(',');
                }
                push_num_chars(out, a[i]);
                proof {
                    let pre = a@.subrange(0, i as int).map_values(|x: i64| x as int);
                    let cur = a@.subrange(0, i + 1 as int).map_values(|x: i64| x as int);
                    assert(cur.drop_last() =~= pre);
                    assert(cur.last() == a@[i as int] as int);
                }
                i = i + 1;
            }
            out.push(']');
            proof {
                assert(a@.subrange(0, n as int) =~= a@);
                assert(out@ =~= old(out)@ + spec_value_chars(v@));
            }
        },
    }
}

/// The rendering of `v` as a fresh character vector.
pub fn value_chars(v: &Value) -> (out: Vec<char>)
    ensures
        out@ == spec_value_chars(v@),
{
    let mut out: Vec<char> = Vec::new();
    push_value_chars(&mut out, v);
    out
}

} // verus!
