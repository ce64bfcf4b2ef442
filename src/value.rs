use vstd::prelude::*;
use crate::float::{
    float_add, float_div, float_mul, float_sub, ieee_difference, ieee_product, ieee_quotient, ieee_sum,
};

verus! {

/// A runtime value of the interpreted language.
///
/// A `Float` carries the IEEE-754 binary64 bit pattern of the number.
pub enum RelType {
    Int(i64),
    Float(u64),
    Bool(bool),
    Str(String),
    Void,
}

/// The language-level faults that abort an evaluation.
#[derive(Clone, Copy, Debug, PartialEq, Eq, Structural)]
pub enum Fault {
    UndefinedIdentifier,
    ArithmeticTypeMismatch,
    DivisionByZero,
    IntegerOverflow,
    EqualityOperandInvalid,
    OrderingTypeMismatch,
    IfConditionNotBoolean,
    WhileConditionNotBoolean,
    LoopLimitExceeded,
    UnknownNativeFunction,
    NativeArgumentMismatch,
}

/// The outcome of evaluating one node.
pub enum ExecResult {
    Value(RelType),
    ReturnBlockInfo(RelType),
    Fault(Fault),
}

/// The four binary arithmetic operators.
#[derive(Clone, Copy, Debug, PartialEq, Eq, Structural)]
pub enum ArithOp {
    Add,
    Sub,
    Mul,
    Div,
}

pub const SIGN_MASK: u64 = 0x8000_0000_0000_0000;
pub const EXP_MASK: u64 = 0x7ff0_0000_0000_0000;
pub const FRAC_MASK: u64 = 0x000f_ffff_ffff_ffff;

/// IEEE-754: the bit pattern is a NaN.
pub open spec fn is_nan_bits(a: u64) -> bool {
    a & EXP_MASK == EXP_MASK && a & FRAC_MASK != 0
}

/// IEEE-754: the bit pattern is +0 or -0.
pub open spec fn is_zero_bits(a: u64) -> bool {
    a & !SIGN_MASK == 0
}

/// IEEE-754 equality on binary64 bit patterns.
pub open spec fn float_eq_spec(a: u64, b: u64) -> bool {
    !is_nan_bits(a) && !is_nan_bits(b) && (a == b || (is_zero_bits(a) && is_zero_bits(b)))
}

/// A key that orders the non-NaN bit patterns as the numbers they encode
/// (with -0 just below +0).
pub open spec fn order_key(a: u64) -> int {
    if a & SIGN_MASK != 0 {
        -((a & !SIGN_MASK) as int) - 1
    } else {
        a as int
    }
}

/// IEEE-754 `<` on binary64 bit patterns.
pub open spec fn float_lt_spec(a: u64, b: u64) -> bool {
    !is_nan_bits(a) && !is_nan_bits(b) && !(is_zero_bits(a) && is_zero_bits(b)) && order_key(a)
        < order_key(b)
}

pub fn is_nan(a: u64) -> (r: bool)
    ensures
        r == is_nan_bits(a),
{
    a & EXP_MASK == EXP_MASK && a & FRAC_MASK != 0
}

pub fn is_zero(a: u64) -> (r: bool)
    ensures
        r == is_zero_bits(a),
{
    a & !SIGN_MASK == 0
}

/// IEEE-754 equality of two binary64 numbers given by their bits.
pub fn float_eq(a: u64, b: u64) -> (r: bool)
    ensures
        r == float_eq_spec(a, b),
{
    !is_nan(a) && !is_nan(b) && (a == b || (is_zero(a) && is_zero(b)))
}

/// IEEE-754 `<` of two binary64 numbers given by their bits.
pub fn float_lt(a: u64, b: u64) -> (r: bool)
    ensures
        r == float_lt_spec(a, b),
{
    if is_nan(a) || is_nan(b) || (is_zero(a) && is_zero(b)) {
        return false;
    }
    let sa = a & SIGN_MASK != 0;
    let sb = b & SIGN_MASK != 0;
    let ma = a & !SIGN_MASK;
    let mb = b & !SIGN_MASK;
    if sa && sb {
        mb < ma
    } else if sa {
        true
    } else if sb {
        false
    } else {
        a < b
    }
}


impl RelType {
    /// A copy of the value.
    pub fn copy(&self) -> (r: RelType)
        ensures
            r == *self,
    {
        match self {
            RelType::Int(i) => RelType::Int(*i),
            RelType::Float(f) => RelType::Float(*f),
            RelType::Bool(b) => RelType::Bool(*b),
            RelType::Str(s) => RelType::Str(s.clone()),
            RelType::Void => RelType::Void,
        }
    }
}

/// Structural equality: same variant and equal payload; floats compare as
/// IEEE-754 numbers. Values of different variants are never equal.
pub open spec fn values_equal(a: RelType, b: RelType) -> bool {
    match (a, b) {
        (RelType::Int(x), RelType::Int(y)) => x == y,
        (RelType::Float(x), RelType::Float(y)) => float_eq_spec(x, y),
        (RelType::Bool(x), RelType::Bool(y)) => x == y,
        (RelType::Str(x), RelType::Str(y)) => x@ == y@,
        (RelType::Void, RelType::Void) => true,
        _ => false,
    }
}

pub fn value_eq(a: &RelType, b: &RelType) -> (r: bool)
    ensures
        r == values_equal(*a, *b),
{
    match (a, b) {
        (RelType::Int(x), RelType::Int(y)) => *x == *y,
        (RelType::Float(x), RelType::Float(y)) => float_eq(*x, *y),
        (RelType::Bool(x), RelType::Bool(y)) => *x == *y,
        (RelType::Str(x), RelType::Str(y)) => *x == *y,
        (RelType::Void, RelType::Void) => true,
        _ => false,
    }
}

/// Integer arithmetic; overflow and division by zero fault.
pub open spec fn int_arith(op: ArithOp, a: i64, b: i64) -> ExecResult {
    let r = match op {
        ArithOp::Add => a.checked_add(b),
        ArithOp::Sub => a.checked_sub(b),
        ArithOp::Mul => a.checked_mul(b),
        ArithOp::Div => a.checked_div(b),
    };
    if op == ArithOp::Div && b == 0 {
        ExecResult::Fault(Fault::DivisionByZero)
    } else {
        match r {
            Some(v) => ExecResult::Value(RelType::Int(v)),
            None => ExecResult::Fault(Fault::IntegerOverflow),
        }
    }
}

/// The binary64 result of an operator.
pub open spec fn ieee_apply(op: ArithOp, a: u64, b: u64) -> u64 {
    match op {
        ArithOp::Add => ieee_sum(a, b),
        ArithOp::Sub => ieee_difference(a, b),
        ArithOp::Mul => ieee_product(a, b),
        ArithOp::Div => ieee_quotient(a, b),
    }
}

/// Float arithmetic; division by either zero faults.
pub open spec fn float_arith(op: ArithOp, a: u64, b: u64) -> ExecResult {
    if op == ArithOp::Div && is_zero_bits(b) {
        ExecResult::Fault(Fault::DivisionByZero)
    } else {
        ExecResult::Value(RelType::Float(ieee_apply(op, a, b)))
    }
}

pub fn float_math(op: ArithOp, a: u64, b: u64) -> (r: ExecResult)
    ensures
        r == float_arith(op, a, b),
{
    if op == ArithOp::Div && is_zero(b) {
        return ExecResult::Fault(Fault::DivisionByZero);
    }
    let v = match op {
        ArithOp::Add => float_add(a, b),
        ArithOp::Sub => float_sub(a, b),
        ArithOp::Mul => float_mul(a, b),
        ArithOp::Div => float_div(a, b),
    };
    ExecResult::Value(RelType::Float(v))
}

/// The result of a binary arithmetic node, given the outcomes of its operands.
pub open spec fn math_spec(
    op: ArithOp,
    l: ExecResult,
    r: ExecResult,
) -> ExecResult {
    match (l, r) {
        (ExecResult::Value(RelType::Int(a)), ExecResult::Value(RelType::Int(b))) => int_arith(
            op,
            a,
            b,
        ),
        (ExecResult::Value(RelType::Float(a)), ExecResult::Value(RelType::Float(b))) => float_arith(
            op,
            a,
            b,
        ),
        (ExecResult::Fault(e), _) => ExecResult::Fault(e),
        (_, ExecResult::Fault(e)) => ExecResult::Fault(e),
        _ => ExecResult::Fault(Fault::ArithmeticTypeMismatch),
    }
}

/// The result of an equality node, given the outcomes of its operands.
pub open spec fn eq_spec(l: ExecResult, r: ExecResult) -> ExecResult {
    match (l, r) {
        (ExecResult::Value(a), ExecResult::Value(b)) => ExecResult::Value(
            RelType::Bool(values_equal(a, b)),
        ),
        (ExecResult::Fault(e), _) => ExecResult::Fault(e),
        (_, ExecResult::Fault(e)) => ExecResult::Fault(e),
        _ => ExecResult::Fault(Fault::EqualityOperandInvalid),
    }
}

/// The result of a less-than node, given the outcomes of its operands.
pub open spec fn lt_spec(l: ExecResult, r: ExecResult) -> ExecResult {
    match (l, r) {
        (ExecResult::Value(RelType::Int(a)), ExecResult::Value(RelType::Int(b))) => ExecResult::Value(
            RelType::Bool(a < b),
        ),
        (ExecResult::Value(RelType::Float(a)), ExecResult::Value(RelType::Float(b))) => ExecResult::Value(
            RelType::Bool(float_lt_spec(a, b)),
        ),
        (ExecResult::Fault(e), _) => ExecResult::Fault(e),
        (_, ExecResult::Fault(e)) => ExecResult::Fault(e),
        _ => ExecResult::Fault(Fault::OrderingTypeMismatch),
    }
}

pub fn int_math(op: ArithOp, a: i64, b: i64) -> (r: ExecResult)
    ensures
        r == int_arith(op, a, b),
{
    if op == ArithOp::Div && b == 0 {
        return ExecResult::Fault(Fault::DivisionByZero);
    }
    let v = match op {
        ArithOp::Add => a.checked_add(b),
        ArithOp::Sub => a.checked_sub(b),
        ArithOp::Mul => a.checked_mul(b),
        ArithOp::Div => a.checked_div(b),
    };
    match v {
        Some(v) => ExecResult::Value(RelType::Int(v)),
        None => ExecResult::Fault(Fault::IntegerOverflow),
    }
}

/// Applies a binary arithmetic operator to the outcomes of its two operands.
pub fn do_math(op: ArithOp, l: ExecResult, r: ExecResult) -> (res: ExecResult)
    ensures
        res == math_spec(op, l, r),
{
    match (l, r) {
        (ExecResult::Value(RelType::Int(a)), ExecResult::Value(RelType::Int(b))) => int_math(
            op,
            a,
            b,
        ),
        (ExecResult::Value(RelType::Float(a)), ExecResult::Value(RelType::Float(b))) => float_math(
            op,
            a,
            b,
        ),
        (ExecResult::Fault(e), _) => ExecResult::Fault(e),
        (_, ExecResult::Fault(e)) => ExecResult::Fault(e),
        _ => ExecResult::Fault(Fault::ArithmeticTypeMismatch),
    }
}

/// Compares the outcomes of two operands for equality.
pub fn do_eq(l: ExecResult, r: ExecResult) -> (res: ExecResult)
    ensures
        res == eq_spec(l, r),
{
    match (l, r) {
        (ExecResult::Value(a), ExecResult::Value(b)) => ExecResult::Value(
            RelType::Bool(value_eq(&a, &b)),
        ),
        (ExecResult::Fault(e), _) => ExecResult::Fault(e),
        (_, ExecResult::Fault(e)) => ExecResult::Fault(e),
        _ => ExecResult::Fault(Fault::EqualityOperandInvalid),
    }
}

/// Orders the outcomes of two operands.
pub fn do_lt(l: ExecResult, r: ExecResult) -> (res: ExecResult)
    ensures
        res == lt_spec(l, r),
{
    match (l, r) {
        (ExecResult::Value(RelType::Int(a)), ExecResult::Value(RelType::Int(b))) => ExecResult::Value(
            RelType::Bool(a < b),
        ),
        (ExecResult::Value(RelType::Float(a)), ExecResult::Value(RelType::Float(b))) => ExecResult::Value(
            RelType::Bool(float_lt(a, b)),
        ),
        (ExecResult::Fault(e), _) => ExecResult::Fault(e),
        (_, ExecResult::Fault(e)) => ExecResult::Fault(e),
        _ => ExecResult::Fault(Fault::OrderingTypeMismatch),
    }
}


/// The variant of a value: 0 for `Int`, 1 for `Float`, 2 for `Bool`, 3 for
/// `Str`, 4 for `Void`.
pub open spec fn variant_of(v: RelType) -> nat {
    match v {
        RelType::Int(_) => 0,
        RelType::Float(_) => 1,
        RelType::Bool(_) => 2,
        RelType::Str(_) => 3,
        RelType::Void => 4,
    }
}

/// Arithmetic on two operands of one numeric variant gives a value of that
/// variant or a fault, and a zero divisor, integer or float, always faults
/// with `DivisionByZero`.
pub proof fn lemma_arith_keeps_variant(op: ArithOp, a: RelType, b: RelType)
    requires
        variant_of(a) == variant_of(b),
        variant_of(a) <= 1,
    ensures
        match math_spec(op, ExecResult::Value(a), ExecResult::Value(b)) {
            ExecResult::Value(v) => variant_of(v) == variant_of(a),
            ExecResult::Fault(_) => true,
            ExecResult::ReturnBlockInfo(_) => false,
        },
        op == ArithOp::Div && (b == RelType::Int(0) || (b is Float && is_zero_bits(b->Float_0)))
            ==> math_spec(op, ExecResult::Value(a), ExecResult::Value(b)) == ExecResult::Fault(
            Fault::DivisionByZero,
        ),
{
}

/// Equality holds of every value and itself within its variant (a float NaN,
/// which IEEE-754 makes unequal to itself, aside).
pub proof fn lemma_eq_reflexive(v: RelType)
    requires
        !(v is Float && is_nan_bits(v->Float_0)),
    ensures
        values_equal(v, v),
        eq_spec(ExecResult::Value(v), ExecResult::Value(v)) == ExecResult::Value(RelType::Bool(true)),
{
}

/// Values of different variants are never equal: the comparison gives
/// `false`, never a fault, for every pair of distinct variants.
pub proof fn lemma_eq_cross_variant(a: RelType, b: RelType)
    requires
        variant_of(a) != variant_of(b),
    ensures
        !values_equal(a, b),
        eq_spec(ExecResult::Value(a), ExecResult::Value(b)) == ExecResult::Value(RelType::Bool(false)),
{
}

} // verus!
