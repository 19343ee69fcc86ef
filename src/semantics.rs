//! The meaning of programs: a big-step semantics of expressions and
//! statements over the models of values and tables. The evaluator in
//! `engine` is proved to compute exactly this.
//!
//! `fuel` bounds the number of function calls and loop iterations that an
//! evaluation may start; when it runs out, evaluation stops with an error.
use crate::ast::{CExpr, CStmt, CType};
use crate::env::{
    binding, bounds_text, frame_of, fresh_entry, frame_insert, lookup, set_err_text, tab_set, value_below, value_in,
    FrameV, FuncsV, SetErr, TabV,
};
use crate::error::ErrV;
use crate::ops::{binop_value, cast_value, operand_ok, unop_value};
use crate::value::Val;
use vstd::prelude::*;

verus! {

pub open spec fn not_init_text(name: Seq<char>) -> Seq<char> {
    "Variable '"@ + name + "' not initialized"@
}

pub open spec fn not_array_text(name: Seq<char>) -> Seq<char> {
    "Variable '"@ + name + "' is not an array"@
}

pub open spec fn no_func_text(name: Seq<char>) -> Seq<char> {
    "Function '"@ + name + "' not defined"@
}

pub open spec fn missing_arg_text(name: Seq<char>, param: Seq<char>) -> Seq<char> {
    "Function '"@ + name + "' missing argument '"@ + param + "'"@
}

pub open spec fn void_text() -> Seq<char> {
    "Expression returned void"@
}

pub open spec fn operand_text() -> Seq<char> {
    "Unexpected value in binary operation"@
}

pub open spec fn index_int_text() -> Seq<char> {
    "Array index must be int"@
}

pub open spec fn index_neg_text() -> Seq<char> {
    "Array index must not be negative"@
}

pub open spec fn size_text() -> Seq<char> {
    "Array size must be a non-negative int"@
}

pub open spec fn cond_text() -> Seq<char> {
    "Condition must be a bool"@
}

pub open spec fn fuel_text() -> Seq<char> {
    "Evaluation step limit reached"@
}

pub open spec fn placeholder_text() -> Seq<char> {
    "Unexpected error placeholder in the syntax tree"@
}

/// A string literal: its characters, then NUL.
pub open spec fn string_value(cs: Seq<char>) -> Val {
    Val::Array(Seq::new(cs.len() + 1, |i: int| if 0 <= i < cs.len() { Val::Char(cs[i]) } else { Val::Char('\0') }))
}

/// `k` bound to `e` in the innermost frame of `t`.
pub open spec fn tab_insert(t: TabV, k: Seq<char>, e: (CType, Option<usize>, Seq<(Option<Val>, Option<usize>)>)) -> TabV {
    t.update(t.len() - 1, frame_insert(t.last(), k, e))
}

/// A variable read: the local frames from the innermost outward, then the globals.
pub open spec fn read_var(g: TabV, l: TabV, name: Seq<char>) -> Option<Val> {
    match value_below(l, name, l.len() as int) {
        Some(v) => Some(v),
        None => value_below(g, name, g.len() as int),
    }
}

/// An operator's failure, located.
pub open spec fn located(r: Result<Val, Seq<char>>, loc: usize) -> Result<Val, ErrV> {
    match r {
        Ok(v) => Ok(v),
        Err(m) => Err(ErrV::Runtime(m, loc)),
    }
}

/// The first `n` parameters bound, in order, to the argument values.
pub open spec fn bind_params(t: TabV, params: Seq<(CType, String)>, vals: Seq<Val>, loc: usize, n: nat) -> TabV
    decreases n,
{
    if n == 0 {
        t
    } else {
        tab_insert(
            bind_params(t, params, vals, loc, (n - 1) as nat),
            params[n - 1].1@,
            fresh_entry(params[n - 1].0, None, Some(vals[n - 1]), Some(loc)),
        )
    }
}

/// The value a call hands back once its body has run.
pub open spec fn returned(c: Option<Option<Val>>) -> Option<Val> {
    match c {
        Some(Some(v)) => Some(v),
        _ => None,
    }
}

/// Assignment of `v` to `name` (at index `io`, if given): in the innermost
/// local frame that declares `name`, else among the globals; the value is
/// first converted to the declared type.
pub open spec fn store(name: Seq<char>, io: Option<usize>, v: Val, loc: usize, g: TabV, l: TabV) -> (
    Result<Option<Option<Val>>, ErrV>,
    TabV,
    TabV,
) {
    match binding(l, name) {
        Some(e) => match cast_value(v, e.0) {
            Err(m) => (Err(ErrV::Runtime(m, loc)), g, l),
            Ok(cv) => match tab_set(l, name, io, cv, Some(loc)) {
                Ok(t) => (Ok(None), g, t),
                Err(x) => (Err(ErrV::Runtime(set_err_text(name, x), loc)), g, l),
            },
        },
        None => match binding(g, name) {
            Some(e) => match cast_value(v, e.0) {
                Err(m) => (Err(ErrV::Runtime(m, loc)), g, l),
                Ok(cv) => match tab_set(g, name, io, cv, Some(loc)) {
                    Ok(t) => (Ok(None), t, l),
                    Err(x) => (Err(ErrV::Runtime(set_err_text(name, x), loc)), g, l),
                },
            },
            None => (Err(ErrV::Runtime(set_err_text(name, SetErr::Undeclared), loc)), g, l),
        },
    }
}

/// Value of an expression, with the global and local tables after it.
pub open spec fn eval_expr(e: CExpr, fs: FuncsV, g: TabV, l: TabV, fuel: nat) -> (Result<Val, ErrV>, TabV, TabV)
    decreases fuel, 0nat, e, 0nat, 0int,
{
    match e {
        CExpr::Int(_, i) => (Ok(Val::Int(i)), g, l),
        CExpr::Float(_, f) => (Ok(Val::Float(f)), g, l),
        CExpr::Str(_, cs) => (Ok(string_value(cs@)), g, l),
        CExpr::Char(_, c) => (Ok(Val::Char(c)), g, l),
        CExpr::Ident(loc, name) => match read_var(g, l, name@) {
            Some(v) => (Ok(v), g, l),
            None => (Err(ErrV::Runtime(not_init_text(name@), loc.0)), g, l),
        },
        CExpr::UnOp(loc, op, a) => {
            let (r, g1, l1) = eval_expr(*a, fs, g, l, fuel);
            match r {
                Err(x) => (Err(x), g1, l1),
                Ok(v) => (located(unop_value(op, v), loc.0), g1, l1),
            }
        },
        CExpr::BinOp(loc, op, a, b) => {
            let (r1, g1, l1) = eval_expr(*a, fs, g, l, fuel);
            match r1 {
                Err(x) => (Err(x), g1, l1),
                Ok(v1) => if !operand_ok(v1) {
                    (Err(ErrV::Runtime(operand_text(), loc.0)), g1, l1)
                } else {
                    let (r2, g2, l2) = eval_expr(*b, fs, g1, l1, fuel);
                    match r2 {
                        Err(x) => (Err(x), g2, l2),
                        Ok(v2) => if !operand_ok(v2) {
                            (Err(ErrV::Runtime(operand_text(), loc.0)), g2, l2)
                        } else {
                            (located(binop_value(op, v1, v2), loc.0), g2, l2)
                        },
                    }
                },
            }
        },
        CExpr::Call(loc, name, args) => {
            let (r, g1, l1) = call_func(name@, args@, loc.0, fs, g, l, fuel);
            match r {
                Err(x) => (Err(x), g1, l1),
                Ok(Some(v)) => (Ok(v), g1, l1),
                Ok(None) => (Err(ErrV::Runtime(void_text(), loc.0)), g1, l1),
            }
        },
        CExpr::Index(loc, name, ie) => match read_var(g, l, name@) {
            None => (Err(ErrV::Runtime(not_init_text(name@), loc.0)), g, l),
            Some(Val::Array(a)) => {
                let (r, g1, l1) = eval_expr(*ie, fs, g, l, fuel);
                match r {
                    Err(x) => (Err(x), g1, l1),
                    Ok(Val::Int(i)) => if 0 <= i && i < a.len() {
                        (Ok(a[i as int]), g1, l1)
                    } else {
                        (Err(ErrV::Runtime(bounds_text(i as int, a.len() as int), loc.0)), g1, l1)
                    },
                    Ok(_) => (Err(ErrV::Runtime(index_int_text(), loc.0)), g1, l1),
                }
            },
            Some(_) => (Err(ErrV::Runtime(not_array_text(name@), loc.0)), g, l),
        },
        CExpr::Error => (Err(ErrV::Unknown(placeholder_text())), g, l),
    }
}

/// Arguments evaluated left to right in the caller's tables, one per
/// parameter, after the values `acc` of the first `i`.
pub open spec fn eval_args(
    params: Seq<(CType, String)>,
    args: Seq<CExpr>,
    i: int,
    acc: Seq<Val>,
    name: Seq<char>,
    loc: usize,
    fs: FuncsV,
    g: TabV,
    l: TabV,
    fuel: nat,
) -> (Result<Seq<Val>, ErrV>, TabV, TabV)
    decreases fuel, 0nat, args, 0nat, params.len() - i,
{
    if i >= params.len() {
        (Ok(acc), g, l)
    } else if i >= args.len() || i < 0 {
        (Err(ErrV::Runtime(missing_arg_text(name, params[i].1@), loc)), g, l)
    } else {
        let (r, g1, l1) = eval_expr(args[i], fs, g, l, fuel);
        match r {
            Err(x) => (Err(x), g1, l1),
            Ok(v) => eval_args(params, args, i + 1, acc.push(v), name, loc, fs, g1, l1, fuel),
        }
    }
}

/// A call of `name`: arguments evaluated in the caller's tables, the body
/// run on the globals and a fresh local table holding only the parameters,
/// which is dropped afterwards. Gives the returned value, if any; the
/// caller's local table is left as the arguments left it.
pub open spec fn call_func(name: Seq<char>, args: Seq<CExpr>, loc: usize, fs: FuncsV, g: TabV, l: TabV, fuel: nat) -> (
    Result<Option<Val>, ErrV>,
    TabV,
    TabV,
)
    decreases fuel, 0nat, args, 1nat, 0int,
{
    match lookup(fs, name) {
        Some((_, Some(f))) => {
            let params = f.proto.params@;
            let (ra, g1, l1) = eval_args(params, args, 0, Seq::empty(), name, loc, fs, g, l, fuel);
            match ra {
                Err(x) => (Err(x), g1, l1),
                Ok(vals) => if fuel == 0 {
                    (Err(ErrV::Runtime(fuel_text(), loc)), g1, l1)
                } else {
                    let l2 = bind_params(seq![FrameV::empty()], params, vals, loc, params.len());
                    let (rb, g3, _) = exec_block(f.stmts@, 0, fs, g1, l2, (fuel - 1) as nat);
                    match rb {
                        Err(x) => (Err(x), g3, l1),
                        Ok(c) => (Ok(returned(c)), g3, l1),
                    }
                },
            }
        },
        _ => (Err(ErrV::Runtime(no_func_text(name), loc)), g, l),
    }
}

/// Outcome of a statement: `None` to fall through, `Some(r)` when a
/// `return` was hit (`r` its value, if any); with the tables after it. A
/// block runs in a local frame of its own, closed when the block completes.
pub open spec fn exec_stmt(s: CStmt, fs: FuncsV, g: TabV, l: TabV, fuel: nat) -> (
    Result<Option<Option<Val>>, ErrV>,
    TabV,
    TabV,
)
    decreases fuel, 1nat, s, 0nat, 0int,
{
    match s {
        CStmt::Decl(loc, t, name, size) => match size {
            None => (Ok(None), g, tab_insert(l, name@, fresh_entry(t, None, None, Some(loc.0)))),
            Some(e) => {
                let (r, g1, l1) = eval_expr(e, fs, g, l, fuel);
                match r {
                    Err(x) => (Err(x), g1, l1),
                    Ok(Val::Int(n)) => if n >= 0 {
                        (Ok(None), g1, tab_insert(l1, name@, fresh_entry(t, Some(n as usize), None, Some(loc.0))))
                    } else {
                        (Err(ErrV::Runtime(size_text(), loc.0)), g1, l1)
                    },
                    Ok(_) => (Err(ErrV::Runtime(size_text(), loc.0)), g1, l1),
                }
            },
        },
        CStmt::Assign(loc, name, idx, e) => match idx {
            None => {
                let (r, g1, l1) = eval_expr(e, fs, g, l, fuel);
                match r {
                    Err(x) => (Err(x), g1, l1),
                    Ok(v) => store(name@, None, v, loc.0, g1, l1),
                }
            },
            Some(ie) => {
                let (ri, g1, l1) = eval_expr(ie, fs, g, l, fuel);
                match ri {
                    Err(x) => (Err(x), g1, l1),
                    Ok(Val::Int(i)) => if i < 0 {
                        (Err(ErrV::Runtime(index_neg_text(), loc.0)), g1, l1)
                    } else {
                        let (r, g2, l2) = eval_expr(e, fs, g1, l1, fuel);
                        match r {
                            Err(x) => (Err(x), g2, l2),
                            Ok(v) => store(name@, Some(i as usize), v, loc.0, g2, l2),
                        }
                    },
                    Ok(_) => (Err(ErrV::Runtime(index_int_text(), loc.0)), g1, l1),
                }
            },
        },
        CStmt::Return(_, None) => (Ok(Some(None)), g, l),
        CStmt::Return(_, Some(e)) => {
            let (r, g1, l1) = eval_expr(e, fs, g, l, fuel);
            match r {
                Err(x) => (Err(x), g1, l1),
                Ok(v) => (Ok(Some(Some(v))), g1, l1),
            }
        },
        CStmt::Block(ss) => {
            let (r, g1, l1) = exec_block(ss@, 0, fs, g, l.push(FrameV::empty()), fuel);
            match r {
                Err(x) => (Err(x), g1, l1),
                Ok(c) => if l1.len() <= 1 {
                    (Err(ErrV::Unknown(crate::env::pop_text())), g1, l1)
                } else {
                    (Ok(c), g1, l1.drop_last())
                },
            }
        },
        CStmt::If(loc, c, s1, s2) => {
            let (r, g1, l1) = eval_expr(c, fs, g, l, fuel);
            match r {
                Err(x) => (Err(x), g1, l1),
                Ok(Val::Bool(true)) => exec_stmt(*s1, fs, g1, l1, fuel),
                Ok(Val::Bool(false)) => match s2 {
                    Some(s3) => exec_stmt(*s3, fs, g1, l1, fuel),
                    None => (Ok(None), g1, l1),
                },
                Ok(_) => (Err(ErrV::Runtime(cond_text(), loc.0)), g1, l1),
            }
        },
        CStmt::While(loc, c, body) => {
            let (r, g1, l1) = eval_expr(c, fs, g, l, fuel);
            match r {
                Err(x) => (Err(x), g1, l1),
                Ok(Val::Bool(true)) => {
                    let (rb, g2, l2) = exec_stmt(*body, fs, g1, l1, fuel);
                    match rb {
                        Err(x) => (Err(x), g2, l2),
                        Ok(Some(x)) => (Ok(Some(x)), g2, l2),
                        Ok(None) => if fuel == 0 {
                            (Err(ErrV::Runtime(fuel_text(), loc.0)), g2, l2)
                        } else {
                            exec_stmt(s, fs, g2, l2, (fuel - 1) as nat)
                        },
                    }
                },
                Ok(Val::Bool(false)) => (Ok(None), g1, l1),
                Ok(_) => (Err(ErrV::Runtime(cond_text(), loc.0)), g1, l1),
            }
        },
        CStmt::Call(loc, name, args) => {
            let (r, g1, l1) = call_func(name@, args@, loc.0, fs, g, l, fuel);
            match r {
                Err(x) => (Err(x), g1, l1),
                Ok(_) => (Ok(None), g1, l1),
            }
        },
        CStmt::Print(_, e) => {
            let (r, g1, l1) = eval_expr(e, fs, g, l, fuel);
            match r {
                Err(x) => (Err(x), g1, l1),
                Ok(_) => (Ok(None), g1, l1),
            }
        },
        CStmt::Error => (Err(ErrV::Unknown(placeholder_text())), g, l),
    }
}

/// The statements of `ss` from index `i` on, in order, up to the first return.
pub open spec fn exec_block(ss: Seq<CStmt>, i: int, fs: FuncsV, g: TabV, l: TabV, fuel: nat) -> (
    Result<Option<Option<Val>>, ErrV>,
    TabV,
    TabV,
)
    decreases fuel, 1nat, ss, 0nat, ss.len() - i,
{
    if i >= ss.len() || i < 0 {
        (Ok(None), g, l)
    } else {
        let (r, g1, l1) = exec_stmt(ss[i], fs, g, l, fuel);
        match r {
            Err(x) => (Err(x), g1, l1),
            Ok(Some(x)) => (Ok(Some(x)), g1, l1),
            Ok(None) => exec_block(ss, i + 1, fs, g1, l1, fuel),
        }
    }
}


/// An expression changes tables only through calls, so it leaves the local
/// table as it found it.
pub proof fn lemma_expr_frames(e: CExpr, fs: FuncsV, g: TabV, l: TabV, fuel: nat)
    ensures
        eval_expr(e, fs, g, l, fuel).2 == l,
    decreases fuel, 0nat, e, 0nat, 0int,
{
    match e {
        CExpr::UnOp(_, _, a) => {
            lemma_expr_frames(*a, fs, g, l, fuel);
        },
        CExpr::BinOp(_, _, a, b) => {
            lemma_expr_frames(*a, fs, g, l, fuel);
            let (r1, g1, l1) = eval_expr(*a, fs, g, l, fuel);
            lemma_expr_frames(*b, fs, g1, l1, fuel);
        },
        CExpr::Call(loc, name, args) => {
            lemma_call_restores_caller(name@, args@, loc.0, fs, g, l, fuel);
        },
        CExpr::Index(_, name, ie) => {
            lemma_expr_frames(*ie, fs, g, l, fuel);
        },
        _ => {},
    }
}

proof fn lemma_args_frames(
    params: Seq<(CType, String)>,
    args: Seq<CExpr>,
    i: int,
    acc: Seq<Val>,
    name: Seq<char>,
    loc: usize,
    fs: FuncsV,
    g: TabV,
    l: TabV,
    fuel: nat,
)
    ensures
        eval_args(params, args, i, acc, name, loc, fs, g, l, fuel).2 == l,
    decreases fuel, 0nat, args, 0nat, params.len() - i,
{
    if i < params.len() && 0 <= i < args.len() {
        lemma_expr_frames(args[i], fs, g, l, fuel);
        let (r, g1, l1) = eval_expr(args[i], fs, g, l, fuel);
        if let Ok(v) = r {
            lemma_args_frames(params, args, i + 1, acc.push(v), name, loc, fs, g1, l1, fuel);
        }
    }
}

/// A call runs the callee on a local table of its own and drops it on
/// return: whatever the outcome, the caller's local table is exactly what it
/// was before the call. Only the global table carries effects out of a call.
pub proof fn lemma_call_restores_caller(
    name: Seq<char>,
    args: Seq<CExpr>,
    loc: usize,
    fs: FuncsV,
    g: TabV,
    l: TabV,
    fuel: nat,
)
    ensures
        call_func(name, args, loc, fs, g, l, fuel).2 == l,
    decreases fuel, 0nat, args, 1nat, 0int,
{
    if let Some((_, Some(f))) = lookup(fs, name) {
        let params = f.proto.params@;
        lemma_args_frames(params, args, 0, Seq::empty(), name, loc, fs, g, l, fuel);
    }
}

/// A variable read inside a function finds the value of a local binding
/// before a global one of the same name.
pub proof fn lemma_local_shadows_global(g: TabV, l: TabV, name: Seq<char>)
    requires
        l.len() >= 1,
        value_in(l.last(), name) is Some,
    ensures
        read_var(g, l, name) == value_in(l.last(), name),
{
    assert(frame_of(l, name, l.len() as int) == Some(l.len() - 1));
}


/// An assignment to a name that the local table binds (a global of the same
/// name or not) changes that local entry only: the value, converted to the
/// declared type, is appended to its history; the globals stay as the
/// right-hand side left them; every other name keeps its binding.
pub proof fn lemma_assign_local(loc: (usize, usize), x: String, e: CExpr, fs: FuncsV, g: TabV, l: TabV, fuel: nat)
    requires
        l.len() >= 1,
    ensures
        ({
            let (r, g1, _) = eval_expr(e, fs, g, l, fuel);
            let (rs, g2, l2) = exec_stmt(CStmt::Assign(loc, x, None, e), fs, g, l, fuel);
            let en = binding(l, x@)->0;
            (r is Ok && binding(l, x@) is Some && cast_value(r->Ok_0, en.0) is Ok) ==> {
                &&& rs == Ok::<Option<Option<Val>>, ErrV>(None)
                &&& g2 == g1
                &&& binding(l2, x@) == Some((en.0, en.1, en.2.push((Some(cast_value(r->Ok_0, en.0)->Ok_0), Some(loc.0)))))
                &&& forall|k2: Seq<char>| k2 != x@ ==> binding(l2, k2) == binding(l, k2)
            }
        }),
{
    lemma_expr_frames(e, fs, g, l, fuel);
    let (r, g1, l1) = eval_expr(e, fs, g, l, fuel);
    if r is Ok && binding(l, x@) is Some && cast_value(r->Ok_0, (binding(l, x@)->0).0) is Ok {
        let c = cast_value(r->Ok_0, (binding(l, x@)->0).0)->Ok_0;
        crate::env::lemma_frame_of(l, x@, l.len() as int);
        let f = frame_of(l, x@, l.len() as int)->0;
        crate::env::lemma_find(l[f], x@);
        crate::env::lemma_tab_set_effect(l, x@, None, c, Some(loc.0));
    }
}

} // verus!
