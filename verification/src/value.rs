//! The runtime value model: a tagged variant copied by value, and the
//! arithmetic and comparison primitives with their `Int`/`Double` coercion.
//! `Double` holds an IEEE binary32 bit pattern (see `float`).
use vstd::prelude::*;

use crate::float::{
    dbl_add, dbl_add_of, dbl_eq, dbl_eq_of, dbl_lt, dbl_lt_of, dbl_lteq, dbl_lteq_of, dbl_of_i32,
    dbl_str_of, dbl_sub, dbl_sub_of, dbl_to_string, i32_to_dbl,
};
use crate::numfmt::{dec_int, dec_nat, i32_to_string, usize_to_string};

verus! {

/// A runtime value of the virtual machine.
#[derive(Debug, Clone)]
pub enum NativeType {
    Int(i32),
    Double(u32),
    Bool(bool),
    Str(String),
    ObjectRef(usize),
    NoneType,
}

/// The mathematical model of a runtime value.
pub enum ValV {
    Int(i32),
    Double(u32),
    Bool(bool),
    Str(Seq<char>),
    ObjectRef(nat),
    NoneType,
}

impl View for NativeType {
    type V = ValV;

    open spec fn view(&self) -> ValV {
        match self {
            NativeType::Int(x) => ValV::Int(*x),
            NativeType::Double(b) => ValV::Double(*b),
            NativeType::Bool(b) => ValV::Bool(*b),
            NativeType::Str(s) => ValV::Str(s@),
            NativeType::ObjectRef(i) => ValV::ObjectRef(*i as nat),
            NativeType::NoneType => ValV::NoneType,
        }
    }
}

/// The textual form of a value: decimal for numbers, `true`/`false` for
/// booleans, the text itself for strings, `&index` for object references,
/// and `None` for the absence of a value.
pub open spec fn pretty_of(v: ValV) -> Seq<char> {
    match v {
        ValV::Int(x) => dec_int(x as int),
        ValV::Double(b) => dbl_str_of(b),
        ValV::Bool(b) => if b {
            "true"@
        } else {
            "false"@
        },
        ValV::Str(s) => s,
        ValV::ObjectRef(i) => "&"@ + dec_nat(i),
        ValV::NoneType => "None"@,
    }
}

/// Signed 32-bit addition, wrapping on overflow.
pub open spec fn wrap_add_i32(x: i32, y: i32) -> i32 {
    if x + y > i32::MAX {
        (x + y - 0x1_0000_0000) as i32
    } else if x + y < i32::MIN {
        (x + y + 0x1_0000_0000) as i32
    } else {
        (x + y) as i32
    }
}

/// Signed 32-bit subtraction, wrapping on overflow.
pub open spec fn wrap_sub_i32(x: i32, y: i32) -> i32 {
    if x - y > i32::MAX {
        (x - y - 0x1_0000_0000) as i32
    } else if x - y < i32::MIN {
        (x - y + 0x1_0000_0000) as i32
    } else {
        (x - y) as i32
    }
}

/// The sum of two values under `Int`/`Double` coercion; `None` when the
/// operands are not both numeric.
pub open spec fn add_of(a: ValV, b: ValV) -> Option<ValV> {
    match (a, b) {
        (ValV::Int(x), ValV::Int(y)) => Some(ValV::Int(wrap_add_i32(x, y))),
        (ValV::Int(x), ValV::Double(v)) => Some(ValV::Double(dbl_add_of(dbl_of_i32(x), v))),
        (ValV::Double(u), ValV::Int(y)) => Some(ValV::Double(dbl_add_of(u, dbl_of_i32(y)))),
        (ValV::Double(u), ValV::Double(v)) => Some(ValV::Double(dbl_add_of(u, v))),
        _ => None,
    }
}

/// The difference of two values under `Int`/`Double` coercion.
pub open spec fn sub_of(a: ValV, b: ValV) -> Option<ValV> {
    match (a, b) {
        (ValV::Int(x), ValV::Int(y)) => Some(ValV::Int(wrap_sub_i32(x, y))),
        (ValV::Int(x), ValV::Double(v)) => Some(ValV::Double(dbl_sub_of(dbl_of_i32(x), v))),
        (ValV::Double(u), ValV::Int(y)) => Some(ValV::Double(dbl_sub_of(u, dbl_of_i32(y)))),
        (ValV::Double(u), ValV::Double(v)) => Some(ValV::Double(dbl_sub_of(u, v))),
        _ => None,
    }
}

/// The comparison opcodes.
pub enum CmpOp {
    Lt,
    Lteq,
    Gt,
    Gteq,
    Eqeq,
}

/// A comparison of two values under `Int`/`Double` coercion; `None` when
/// the operands are not both numeric. `>` and `>=` on doubles are the
/// swapped `<` and `<=`.
pub open spec fn cmp_of(op: CmpOp, a: ValV, b: ValV) -> Option<ValV> {
    match (a, b) {
        (ValV::Int(x), ValV::Int(y)) => Some(
            ValV::Bool(
                match op {
                    CmpOp::Lt => x < y,
                    CmpOp::Lteq => x <= y,
                    CmpOp::Gt => x > y,
                    CmpOp::Gteq => x >= y,
                    CmpOp::Eqeq => x == y,
                },
            ),
        ),
        (ValV::Int(x), ValV::Double(v)) => Some(ValV::Bool(dbl_cmp_of(op, dbl_of_i32(x), v))),
        (ValV::Double(u), ValV::Int(y)) => Some(ValV::Bool(dbl_cmp_of(op, u, dbl_of_i32(y)))),
        (ValV::Double(u), ValV::Double(v)) => Some(ValV::Bool(dbl_cmp_of(op, u, v))),
        _ => None,
    }
}

/// A comparison of two IEEE binary32 bit patterns.
pub open spec fn dbl_cmp_of(op: CmpOp, u: u32, v: u32) -> bool {
    match op {
        CmpOp::Lt => dbl_lt_of(u, v),
        CmpOp::Lteq => dbl_lteq_of(u, v),
        CmpOp::Gt => dbl_lt_of(v, u),
        CmpOp::Gteq => dbl_lteq_of(v, u),
        CmpOp::Eqeq => dbl_eq_of(u, v),
    }
}

impl NativeType {
    /// A copy of this value with the same model.
    pub fn duplicate(&self) -> (r: NativeType)
        ensures
            r@ == self@,
    {
        match self {
            NativeType::Int(x) => NativeType::Int(*x),
            NativeType::Double(b) => NativeType::Double(*b),
            NativeType::Bool(b) => NativeType::Bool(*b),
            NativeType::Str(s) => NativeType::Str(s.clone()),
            NativeType::ObjectRef(i) => NativeType::ObjectRef(*i),
            NativeType::NoneType => NativeType::NoneType,
        }
    }

    /// The textual form of this value.
    pub fn pretty(&self) -> (r: String)
        ensures
            r@ == pretty_of(self@),
    {
        match self {
            NativeType::Int(x) => i32_to_string(*x),
            NativeType::Double(b) => dbl_to_string(*b),
            NativeType::Bool(b) => if *b {
                "true".to_owned()
            } else {
                "false".to_owned()
            },
            NativeType::Str(s) => s.clone(),
            NativeType::ObjectRef(i) => {
                let mut s = "&".to_owned();
                s.append(usize_to_string(*i).as_str());
                s
            },
            NativeType::NoneType => "None".to_owned(),
        }
    }
}

/// Adds two values with `Int`/`Double` coercion; `None` is the type error.
pub fn add_values(a: &NativeType, b: &NativeType) -> (r: Option<NativeType>)
    ensures
        r is Some <==> add_of(a@, b@) is Some,
        r is Some ==> r->0@ == add_of(a@, b@)->0,
{
    match (a, b) {
        (NativeType::Int(x), NativeType::Int(y)) => Some(NativeType::Int(x.wrapping_add(*y))),
        (NativeType::Int(x), NativeType::Double(v)) => Some(
            NativeType::Double(dbl_add(i32_to_dbl(*x), *v)),
        ),
        (NativeType::Double(u), NativeType::Int(y)) => Some(
            NativeType::Double(dbl_add(*u, i32_to_dbl(*y))),
        ),
        (NativeType::Double(u), NativeType::Double(v)) => Some(NativeType::Double(dbl_add(*u, *v))),
        _ => None,
    }
}

/// Subtracts two values with `Int`/`Double` coercion.
pub fn sub_values(a: &NativeType, b: &NativeType) -> (r: Option<NativeType>)
    ensures
        r is Some <==> sub_of(a@, b@) is Some,
        r is Some ==> r->0@ == sub_of(a@, b@)->0,
{
    match (a, b) {
        (NativeType::Int(x), NativeType::Int(y)) => Some(NativeType::Int(x.wrapping_sub(*y))),
        (NativeType::Int(x), NativeType::Double(v)) => Some(
            NativeType::Double(dbl_sub(i32_to_dbl(*x), *v)),
        ),
        (NativeType::Double(u), NativeType::Int(y)) => Some(
            NativeType::Double(dbl_sub(*u, i32_to_dbl(*y))),
        ),
        (NativeType::Double(u), NativeType::Double(v)) => Some(NativeType::Double(dbl_sub(*u, *v))),
        _ => None,
    }
}

/// Compares two values with `Int`/`Double` coercion.
pub fn cmp_values(op: &CmpOp, a: &NativeType, b: &NativeType) -> (r: Option<NativeType>)
    ensures
        r is Some <==> cmp_of(*op, a@, b@) is Some,
        r is Some ==> r->0@ == cmp_of(*op, a@, b@)->0,
{
    match (a, b) {
        (NativeType::Int(x), NativeType::Int(y)) => Some(
            NativeType::Bool(
                match op {
                    CmpOp::Lt => *x < *y,
                    CmpOp::Lteq => *x <= *y,
                    CmpOp::Gt => *x > *y,
                    CmpOp::Gteq => *x >= *y,
                    CmpOp::Eqeq => *x == *y,
                },
            ),
        ),
        (NativeType::Int(x), NativeType::Double(v)) => Some(
            NativeType::Bool(dbl_cmp(op, i32_to_dbl(*x), *v)),
        ),
        (NativeType::Double(u), NativeType::Int(y)) => Some(
            NativeType::Bool(dbl_cmp(op, *u, i32_to_dbl(*y))),
        ),
        (NativeType::Double(u), NativeType::Double(v)) => Some(NativeType::Bool(dbl_cmp(op, *u, *v))),
        _ => None,
    }
}

/// Compares two IEEE binary32 bit patterns.
fn dbl_cmp(op: &CmpOp, u: u32, v: u32) -> (r: bool)
    ensures
        r == dbl_cmp_of(*op, u, v),
{
    match op {
        CmpOp::Lt => dbl_lt(u, v),
        CmpOp::Lteq => dbl_lteq(u, v),
        CmpOp::Gt => dbl_lt(v, u),
        CmpOp::Gteq => dbl_lteq(v, u),
        CmpOp::Eqeq => dbl_eq(u, v),
    }
}

} // verus!
