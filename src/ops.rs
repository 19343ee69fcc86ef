//! Operators and implicit conversions on runtime values.
use crate::ast::{COp, CType};
use crate::float::{
    self, single_add, single_div, single_eq, single_from_int, single_le, single_lt, single_mul,
    single_neg, single_nonzero, single_sub, single_to_int,
};
use crate::text::digit_char;
use crate::value::{SymVal, Val};
use vstd::prelude::*;
use vstd::string::StringExecFns;
use vstd::wrapping::i32_specs::{wrapping_add, wrapping_mul, wrapping_sub};

verus! {

/// The value of a hexadecimal digit, either case.
pub open spec fn hex_value(c: char) -> Option<u32> {
    if '0' <= c && c <= '9' {
        Some((c as u32 - '0' as u32) as u32)
    } else if 'a' <= c && c <= 'f' {
        Some((c as u32 - 'a' as u32 + 10) as u32)
    } else if 'A' <= c && c <= 'F' {
        Some((c as u32 - 'A' as u32 + 10) as u32)
    } else {
        None
    }
}

/// The lower-case hexadecimal digit of `n`, for `0 <= n < 16`.
pub open spec fn hex_char(n: i32) -> Option<char> {
    if 0 <= n && n < 10 {
        Some(digit_char(n as nat))
    } else if n == 10 {
        Some('a')
    } else if n == 11 {
        Some('b')
    } else if n == 12 {
        Some('c')
    } else if n == 13 {
        Some('d')
    } else if n == 14 {
        Some('e')
    } else if n == 15 {
        Some('f')
    } else {
        None
    }
}

/// The value stored into a slot of declared type `t`. Int and Float convert
/// into each other (truncating, widening), Bool becomes 1 or 0 in an Int
/// slot, Int and Char convert through a hexadecimal digit; arrays pass into
/// reference slots unchecked.
pub open spec fn cast_value(v: Val, t: CType) -> Result<Val, Seq<char>> {
    match t {
        CType::Int => match v {
            Val::Int(_) => Ok(v),
            Val::Float(f) => Ok(Val::Int(single_to_int(f))),
            Val::Char(c) => match hex_value(c) {
                Some(d) => Ok(Val::Int(d as i32)),
                None => Err("Failed to cast char type to int"@),
            },
            Val::Bool(b) => Ok(Val::Int(if b { 1i32 } else { 0i32 })),
            Val::Array(_) => Err("Cannot auto cast array type to int"@),
        },
        CType::Float => match v {
            Val::Int(i) => Ok(Val::Float(single_from_int(i))),
            Val::Float(_) => Ok(v),
            Val::Char(_) => Err("Cannot auto cast char type to float"@),
            Val::Bool(_) => Err("Cannot auto cast bool type to float"@),
            Val::Array(_) => Err("Cannot auto cast array type to float"@),
        },
        CType::Char => match v {
            Val::Int(i) => match hex_char(i) {
                Some(c) => Ok(Val::Char(c)),
                None => Err("Failed to cast int type to char"@),
            },
            Val::Float(_) => Err("Cannot auto cast float type to char"@),
            Val::Char(_) => Ok(v),
            Val::Bool(_) => Err("Cannot auto cast bool type to char"@),
            Val::Array(_) => Err("Cannot auto cast array type to char"@),
        },
        CType::Ref(_) => Ok(v),
    }
}

/// Quotient of integers rounded toward zero; `MIN / -1` wraps to `MIN`.
pub open spec fn trunc_div(a: i32, b: i32) -> i32 {
    if a == i32::MIN && b == -1 {
        i32::MIN
    } else {
        let q = (if a < 0 { -a } else { a as int }) / (if b < 0 { -b } else { b as int });
        if (a < 0) != (b < 0) {
            (-q) as i32
        } else {
            q as i32
        }
    }
}

pub open spec fn int_arith(op: COp, x: i32, y: i32) -> Result<Val, Seq<char>> {
    match op {
        COp::Add => Ok(Val::Int(wrapping_add(x, y))),
        COp::Sub => Ok(Val::Int(wrapping_sub(x, y))),
        COp::Mul => Ok(Val::Int(wrapping_mul(x, y))),
        _ => if y == 0 {
            Err("Division by zero"@)
        } else {
            Ok(Val::Int(trunc_div(x, y)))
        },
    }
}

pub open spec fn float_arith(op: COp, x: u32, y: u32) -> u32 {
    match op {
        COp::Add => single_add(x, y),
        COp::Sub => single_sub(x, y),
        COp::Mul => single_mul(x, y),
        _ => single_div(x, y),
    }
}

pub open spec fn int_rel(op: COp, x: i32, y: i32) -> bool {
    match op {
        COp::Eq => x == y,
        COp::Neq => x != y,
        COp::Lt => x < y,
        COp::Lte => x <= y,
        COp::Gt => x > y,
        _ => x >= y,
    }
}

pub open spec fn float_rel(op: COp, x: u32, y: u32) -> bool {
    match op {
        COp::Eq => single_eq(x, y),
        COp::Neq => !single_eq(x, y),
        COp::Lt => single_lt(x, y),
        COp::Lte => single_le(x, y),
        COp::Gt => single_lt(y, x),
        _ => single_le(y, x),
    }
}

/// Truth of an operand of `&&` or `||`: a Bool, or a number other than zero.
pub open spec fn truth(v: Val) -> Option<bool> {
    match v {
        Val::Bool(b) => Some(b),
        Val::Int(i) => Some(i != 0),
        Val::Float(f) => Some(single_nonzero(f)),
        _ => None,
    }
}

pub open spec fn is_arith(op: COp) -> bool {
    op is Add || op is Sub || op is Mul || op is Div
}

pub open spec fn is_rel(op: COp) -> bool {
    op is Eq || op is Neq || op is Lt || op is Lte || op is Gt || op is Gte
}

/// Whether a value may stand as an operand of a binary operator.
pub open spec fn operand_ok(v: Val) -> bool {
    v is Int || v is Float || v is Bool
}

/// A binary operator applied to two values. Arithmetic widens an Int
/// meeting a Float; comparisons take a pair of numbers; `&&` and `||` take
/// Bools or numbers.
pub open spec fn binop_value(op: COp, a: Val, b: Val) -> Result<Val, Seq<char>> {
    if is_arith(op) {
        match (a, b) {
            (Val::Int(x), Val::Int(y)) => int_arith(op, x, y),
            (Val::Int(x), Val::Float(y)) => Ok(Val::Float(float_arith(op, single_from_int(x), y))),
            (Val::Float(x), Val::Int(y)) => Ok(Val::Float(float_arith(op, x, single_from_int(y)))),
            (Val::Float(x), Val::Float(y)) => Ok(Val::Float(float_arith(op, x, y))),
            _ => Err("Arithmetic operator expected numbers"@),
        }
    } else if is_rel(op) {
        match (a, b) {
            (Val::Int(x), Val::Int(y)) => Ok(Val::Bool(int_rel(op, x, y))),
            (Val::Int(x), Val::Float(y)) => Ok(Val::Bool(float_rel(op, single_from_int(x), y))),
            (Val::Float(x), Val::Int(y)) => Ok(Val::Bool(float_rel(op, x, single_from_int(y)))),
            (Val::Float(x), Val::Float(y)) => Ok(Val::Bool(float_rel(op, x, y))),
            _ => Err("Relational operator expected a pair of numbers"@),
        }
    } else if op is And || op is Or {
        match (truth(a), truth(b)) {
            (Some(x), Some(y)) => Ok(Val::Bool(if op is And { x && y } else { x || y })),
            _ => Err("Logical operator expected bools or numbers"@),
        }
    } else {
        Err("Unsupported binary operator"@)
    }
}

/// A unary operator applied to a value. `!` negates a Bool; on an Int it
/// gives whether the Int is non-zero.
pub open spec fn unop_value(op: COp, v: Val) -> Result<Val, Seq<char>> {
    match op {
        COp::Not => match v {
            Val::Int(i) => Ok(Val::Bool(i != 0)),
            Val::Bool(b) => Ok(Val::Bool(!b)),
            _ => Err("Cannot negate value"@),
        },
        COp::Neg => match v {
            Val::Int(i) => Ok(Val::Int(wrapping_sub(0, i))),
            Val::Float(f) => Ok(Val::Float(single_neg(f))),
            _ => Err("Cannot negate value"@),
        },
        _ => Err("Unsupported unary operator"@),
    }
}

fn hex_value_of(c: char) -> (r: Option<u32>)
    ensures
        r == hex_value(c),
{
    let x = c as u32;
    if '0' <= c && c <= '9' {
        Some(x - '0' as u32)
    } else if 'a' <= c && c <= 'f' {
        Some(x - 'a' as u32 + 10)
    } else if 'A' <= c && c <= 'F' {
        Some(x - 'A' as u32 + 10)
    } else {
        None
    }
}

fn hex_char_of(n: i32) -> (r: Option<char>)
    ensures
        r == hex_char(n),
{
    if n == 0 { Some('0') }
    else if n == 1 { Some('1') }
    else if n == 2 { Some('2') }
    else if n == 3 { Some('3') }
    else if n == 4 { Some('4') }
    else if n == 5 { Some('5') }
    else if n == 6 { Some('6') }
    else if n == 7 { Some('7') }
    else if n == 8 { Some('8') }
    else if n == 9 { Some('9') }
    else if n == 10 { Some('a') }
    else if n == 11 { Some('b') }
    else if n == 12 { Some('c') }
    else if n == 13 { Some('d') }
    else if n == 14 { Some('e') }
    else if n == 15 { Some('f') }
    else { None }
}

fn text(s: &str) -> (r: String)
    ensures
        r@ == s@,
{
    String::from_str(s)
}

/// Converts a value for storage into a slot of declared type `t`.
pub fn auto_cast(val: SymVal, t: &CType) -> (r: Result<SymVal, String>)
    ensures
        match cast_value(val@, *t) {
            Ok(v) => r matches Ok(x) && x@ == v,
            Err(m) => r matches Err(x) && x@ == m,
        },
{
    match t {
        CType::Int => match val {
            SymVal::Int(i) => Ok(SymVal::Int(i)),
            SymVal::Float(f) => Ok(SymVal::Int(float::to_int(f))),
            SymVal::Char(c) => match hex_value_of(c) {
                Some(d) => Ok(SymVal::Int(d as i32)),
                None => Err(text("Failed to cast char type to int")),
            },
            SymVal::Bool(b) => Ok(SymVal::Int(if b { 1 } else { 0 })),
            SymVal::Array(_) => Err(text("Cannot auto cast array type to int")),
        },
        CType::Float => match val {
            SymVal::Int(i) => Ok(SymVal::Float(float::from_int(i))),
            SymVal::Float(f) => Ok(SymVal::Float(f)),
            SymVal::Char(_) => Err(text("Cannot auto cast char type to float")),
            SymVal::Bool(_) => Err(text("Cannot auto cast bool type to float")),
            SymVal::Array(_) => Err(text("Cannot auto cast array type to float")),
        },
        CType::Char => match val {
            SymVal::Int(i) => match hex_char_of(i) {
                Some(c) => Ok(SymVal::Char(c)),
                None => Err(text("Failed to cast int type to char")),
            },
            SymVal::Float(_) => Err(text("Cannot auto cast float type to char")),
            SymVal::Char(c) => Ok(SymVal::Char(c)),
            SymVal::Bool(_) => Err(text("Cannot auto cast bool type to char")),
            SymVal::Array(_) => Err(text("Cannot auto cast array type to char")),
        },
        CType::Ref(_) => Ok(val),
    }
}

fn div_int(a: i32, b: i32) -> (r: i32)
    requires
        b != 0,
    ensures
        r == trunc_div(a, b),
{
    if a == i32::MIN && b == -1 {
        return i32::MIN;
    }
    let ua: u64 = if a < 0 { (-(a as i64)) as u64 } else { a as u64 };
    let ub: u64 = if b < 0 { (-(b as i64)) as u64 } else { b as u64 };
    let q: u64 = ua / ub;
    assert(q <= ua) by (nonlinear_arith)
        requires
            q == ua / ub,
            ub >= 1,
    ;
    if (a < 0) != (b < 0) {
        (-(q as i64)) as i32
    } else {
        assert(q < 0x8000_0000) by (nonlinear_arith)
            requires
                q == ua / ub,
                ub >= 1,
                ua <= 0x8000_0000,
                ua == 0x8000_0000 ==> ub >= 2,
        ;
        q as i32
    }
}

fn float_arith_of(op: COp, x: u32, y: u32) -> (r: u32)
    ensures
        r == float_arith(op, x, y),
{
    match op {
        COp::Add => float::add(x, y),
        COp::Sub => float::sub(x, y),
        COp::Mul => float::mul(x, y),
        _ => float::div(x, y),
    }
}

fn float_rel_of(op: COp, x: u32, y: u32) -> (r: bool)
    ensures
        r == float_rel(op, x, y),
{
    match op {
        COp::Eq => float::eq(x, y),
        COp::Neq => !float::eq(x, y),
        COp::Lt => float::lt(x, y),
        COp::Lte => float::le(x, y),
        COp::Gt => float::lt(y, x),
        _ => float::le(y, x),
    }
}

fn truth_of(v: &SymVal) -> (r: Option<bool>)
    ensures
        r == truth(v@),
{
    match v {
        SymVal::Bool(b) => Some(*b),
        SymVal::Int(i) => Some(*i != 0),
        SymVal::Float(f) => Some(float::nonzero(*f)),
        _ => None,
    }
}

/// Applies a binary operator to two values.
pub fn binop(op: COp, a: &SymVal, b: &SymVal) -> (r: Result<SymVal, String>)
    ensures
        match binop_value(op, a@, b@) {
            Ok(v) => r matches Ok(x) && x@ == v,
            Err(m) => r matches Err(x) && x@ == m,
        },
{
    match op {
        COp::Add | COp::Sub | COp::Mul | COp::Div => match (a, b) {
            (SymVal::Int(x), SymVal::Int(y)) => match op {
                COp::Add => Ok(SymVal::Int(x.wrapping_add(*y))),
                COp::Sub => Ok(SymVal::Int(x.wrapping_sub(*y))),
                COp::Mul => Ok(SymVal::Int(x.wrapping_mul(*y))),
                _ => if *y == 0 {
                    Err(text("Division by zero"))
                } else {
                    Ok(SymVal::Int(div_int(*x, *y)))
                },
            },
            (SymVal::Int(x), SymVal::Float(y)) => Ok(SymVal::Float(float_arith_of(op, float::from_int(*x), *y))),
            (SymVal::Float(x), SymVal::Int(y)) => Ok(SymVal::Float(float_arith_of(op, *x, float::from_int(*y)))),
            (SymVal::Float(x), SymVal::Float(y)) => Ok(SymVal::Float(float_arith_of(op, *x, *y))),
            _ => Err(text("Arithmetic operator expected numbers")),
        },
        COp::Eq | COp::Neq | COp::Lt | COp::Lte | COp::Gt | COp::Gte => match (a, b) {
            (SymVal::Int(x), SymVal::Int(y)) => {
                let c = match op {
                    COp::Eq => *x == *y,
                    COp::Neq => *x != *y,
                    COp::Lt => *x < *y,
                    COp::Lte => *x <= *y,
                    COp::Gt => *x > *y,
                    _ => *x >= *y,
                };
                Ok(SymVal::Bool(c))
            },
            (SymVal::Int(x), SymVal::Float(y)) => Ok(SymVal::Bool(float_rel_of(op, float::from_int(*x), *y))),
            (SymVal::Float(x), SymVal::Int(y)) => Ok(SymVal::Bool(float_rel_of(op, *x, float::from_int(*y)))),
            (SymVal::Float(x), SymVal::Float(y)) => Ok(SymVal::Bool(float_rel_of(op, *x, *y))),
            _ => Err(text("Relational operator expected a pair of numbers")),
        },
        COp::And | COp::Or => match (truth_of(a), truth_of(b)) {
            (Some(x), Some(y)) => Ok(SymVal::Bool(
                match op {
                    COp::And => x && y,
                    _ => x || y,
                },
            )),
            _ => Err(text("Logical operator expected bools or numbers")),
        },
        _ => Err(text("Unsupported binary operator")),
    }
}

/// Applies a unary operator to a value.
pub fn unop(op: COp, v: &SymVal) -> (r: Result<SymVal, String>)
    ensures
        match unop_value(op, v@) {
            Ok(x) => r matches Ok(y) && y@ == x,
            Err(m) => r matches Err(y) && y@ == m,
        },
{
    match op {
        COp::Not => match v {
            SymVal::Int(i) => Ok(SymVal::Bool(*i != 0)),
            SymVal::Bool(b) => Ok(SymVal::Bool(!*b)),
            _ => Err(text("Cannot negate value")),
        },
        COp::Neg => match v {
            SymVal::Int(i) => Ok(SymVal::Int(0i32.wrapping_sub(*i))),
            SymVal::Float(f) => Ok(SymVal::Float(float::neg(*f))),
            _ => Err(text("Cannot negate value")),
        },
        _ => Err(text("Unsupported unary operator")),
    }
}

} // verus!
