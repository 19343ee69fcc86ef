//! The tree-walking evaluator. Each function is proved to compute what the
//! corresponding function of `semantics` says, tables included.
use crate::ast::{copy_type, loc_of_stmt, CExpr, CFunc, CProg, CProgElem, CStmt, CType};
use crate::checker::{analyze_prog, check_all, checker_errors, errors_view};
use crate::env::{bounds_text, fresh_entry, frame_insert, lookup, opt_view, FrameV, FuncTab, SymTab, TabV};
use crate::error::{err_view, CError, ErrV};
use crate::ops::{auto_cast, binop, unop};
use crate::semantics::{
    bind_params, call_func as call_spec, eval_args, eval_expr, exec_block, exec_stmt, read_var, returned, store,
    string_value,
};
use crate::text::{int_string, join3, nat_string};
use crate::value::{SymVal, Val};
use vstd::prelude::*;
use vstd::string::StringExecFns;

verus! {

broadcast use vstd::std_specs::vec::axiom_vec_index_decreases;

/// What the evaluator reports to its surroundings: each statement that
/// carries a location before it runs, each printed value, and the end of
/// the program. Nothing it does changes the evaluation.
pub trait Monitor {
    fn before_stmt(&mut self, loc: usize, global: &SymTab, local: &SymTab);

    fn print(&mut self, value: &SymVal);

    fn finished(&mut self, global: &SymTab, local: &SymTab);
}

pub open spec fn vals_view(s: Seq<SymVal>) -> Seq<Val> {
    Seq::new(s.len(), |i: int| s[i]@)
}

pub open spec fn ctl_view(c: Option<Option<SymVal>>) -> Option<Option<Val>> {
    match c {
        Some(o) => Some(opt_view(o)),
        None => None,
    }
}

fn lit(s: &str) -> (r: String)
    ensures
        r@ == s@,
{
    String::from_str(s)
}

fn index_bounds_message(i: i32, n: usize) -> (r: String)
    ensures
        r@ == bounds_text(i as int, n as int),
{
    let a = int_string(i as i64);
    let b = nat_string(n as u64);
    let mut s = join3("Index ", a.as_str(), " out of bounds (range: 0..");
    s.append(b.as_str());
    s.append(")");
    s
}

fn missing_arg_message(name: &str, param: &str) -> (r: String)
    ensures
        r@ == crate::semantics::missing_arg_text(name@, param@),
{
    let mut s = join3("Function '", name, "' missing argument '");
    s.append(param);
    s.append("'");
    s
}

/// The value of a string literal: its characters, then NUL.
pub fn string_val(cs: &Vec<char>) -> (r: SymVal)
    ensures
        r@ == string_value(cs@),
{
    let mut out: Vec<Box<SymVal>> = Vec::new();
    let mut i: usize = 0;
    while i < cs.len()
        invariant
            i <= cs.len(),
            out.len() == i,
            forall|j: int| 0 <= j < i ==> out[j]@ == Val::Char(cs[j]),
        decreases cs.len() - i,
    {
        out.push(Box::new(SymVal::Char(cs[i])));
        i += 1;
    }
    out.push(Box::new(SymVal::Char('\0')));
    let r = SymVal::Array(out);
    let ghost sv = string_value(cs@)->Array_0;
    assert(sv.len() == cs.len() + 1);
    assert(r@->Array_0.len() == cs.len() + 1);
    assert(forall|j: int| 0 <= j < cs.len() ==> sv[j] == Val::Char(cs[j]));
    assert(sv[cs.len() as int] == Val::Char('\0'));
    assert(forall|j: int| 0 <= j < cs.len() + 1 ==> r@->Array_0[j] == out[j]@);
    assert(r@->Array_0 =~= string_value(cs@)->Array_0);
    r
}

/// The value of a string: its characters, then NUL.
pub fn str_val(s: &str) -> (r: SymVal)
    ensures
        r@ == string_value(s@),
{
    let n = s.unicode_len();
    let mut out: Vec<Box<SymVal>> = Vec::new();
    let mut i: usize = 0;
    while i < n
        invariant
            n == s@.len(),
            i <= n,
            out.len() == i,
            forall|j: int| 0 <= j < i ==> out[j]@ == Val::Char(s@[j]),
        decreases n - i,
    {
        out.push(Box::new(SymVal::Char(s.get_char(i))));
        i += 1;
    }
    out.push(Box::new(SymVal::Char('\0')));
    let r = SymVal::Array(out);
    let ghost sv = string_value(s@)->Array_0;
    assert(sv.len() == n + 1);
    assert(r@->Array_0.len() == n + 1);
    assert(forall|j: int| 0 <= j < n ==> sv[j] == Val::Char(s@[j]));
    assert(sv[n as int] == Val::Char('\0'));
    assert(forall|j: int| 0 <= j < n + 1 ==> r@->Array_0[j] == out[j]@);
    assert(r@->Array_0 =~= string_value(s@)->Array_0);
    r
}

fn operand(v: &SymVal) -> (r: bool)
    ensures
        r == crate::ops::operand_ok(v@),
{
    match v {
        SymVal::Int(_) | SymVal::Float(_) | SymVal::Bool(_) => true,
        _ => false,
    }
}

/// A variable's value: the local frames from the innermost outward, then the globals.
pub fn lookup_var(global: &SymTab, local: &SymTab, name: &str) -> (r: Option<SymVal>)
    requires
        global.wf(),
        local.wf(),
    ensures
        opt_view(r) == read_var(global@, local@, name@),
{
    match local.get_val(name) {
        Some(v) => Some(v),
        None => global.get_val(name),
    }
}

/// Assigns to a variable of the innermost local frame binding it, or else to a global,
/// after converting the value to the declared type.
fn store_var(name: &String, io: Option<usize>, v: SymVal, loc: usize, global: &mut SymTab, local: &mut SymTab) -> (r: Result<
    Option<Option<SymVal>>,
    CError,
>)
    requires
        old(global).wf(),
        old(local).wf(),
    ensures
        final(global).wf(),
        final(local).wf(),
        ({
            let (sr, sg, sl) = store(name@, io, v@, loc, old(global)@, old(local)@);
            &&& final(global)@ == sg
            &&& final(local)@ == sl
            &&& match sr {
                Ok(c) => r matches Ok(x) && ctl_view(x) == c,
                Err(e) => r matches Err(x) && err_view(x) == e,
            }
        }),
{
    match local.get_type(name.as_str()) {
        Some((t, _)) => {
            let cv = match auto_cast(v, &t) {
                Ok(x) => x,
                Err(m) => {
                    return Err(CError::RuntimeError(m, loc));
                },
            };
            match local.set_val(name.as_str(), io, cv, Some(loc)) {
                Ok(()) => Ok(None),
                Err(m) => Err(CError::RuntimeError(m, loc)),
            }
        },
        None => match global.get_type(name.as_str()) {
            Some((t, _)) => {
                let cv = match auto_cast(v, &t) {
                    Ok(x) => x,
                    Err(m) => {
                        return Err(CError::RuntimeError(m, loc));
                    },
                };
                match global.set_val(name.as_str(), io, cv, Some(loc)) {
                    Ok(()) => Ok(None),
                    Err(m) => Err(CError::RuntimeError(m, loc)),
                }
            },
            None => Err(CError::RuntimeError(join3("Variable '", name.as_str(), "' not declared"), loc)),
        },
    }
}

/// Evaluates an expression.
pub fn run_expr<'a, M: Monitor>(
    expr: &CExpr,
    vtab: &FuncTab<'a>,
    global: &mut SymTab,
    local: &mut SymTab,
    mon: &mut M,
    fuel: u64,
) -> (r: Result<SymVal, CError>)
    requires
        old(global).wf(),
        old(local).wf(),
    ensures
        final(global).wf(),
        final(local).wf(),
        ({
            let (sr, sg, sl) = eval_expr(*expr, vtab@, old(global)@, old(local)@, fuel as nat);
            &&& final(global)@ == sg
            &&& final(local)@ == sl
            &&& match sr {
                Ok(v) => r matches Ok(x) && x@ == v,
                Err(e) => r matches Err(x) && err_view(x) == e,
            }
        }),
    decreases fuel, 0nat, *expr, 0nat, 0int,
{
    match expr {
        CExpr::Int(_, i) => Ok(SymVal::Int(*i)),
        CExpr::Float(_, f) => Ok(SymVal::Float(*f)),
        CExpr::Str(_, cs) => Ok(string_val(cs)),
        CExpr::Char(_, c) => Ok(SymVal::Char(*c)),
        CExpr::Ident(loc, name) => match lookup_var(global, local, name.as_str()) {
            Some(v) => Ok(v),
            None => Err(CError::RuntimeError(join3("Variable '", name.as_str(), "' not initialized"), loc.0)),
        },
        CExpr::UnOp(loc, op, a) => {
            let v = match run_expr(a, vtab, global, local, mon, fuel) {
                Ok(v) => v,
                Err(e) => {
                    return Err(e);
                },
            };
            match unop(*op, &v) {
                Ok(x) => Ok(x),
                Err(m) => Err(CError::RuntimeError(m, loc.0)),
            }
        },
        CExpr::BinOp(loc, op, a, b) => {
            let v1 = match run_expr(a, vtab, global, local, mon, fuel) {
                Ok(v) => v,
                Err(e) => {
                    return Err(e);
                },
            };
            if !operand(&v1) {
                return Err(CError::RuntimeError(lit("Unexpected value in binary operation"), loc.0));
            }
            let v2 = match run_expr(b, vtab, global, local, mon, fuel) {
                Ok(v) => v,
                Err(e) => {
                    return Err(e);
                },
            };
            if !operand(&v2) {
                return Err(CError::RuntimeError(lit("Unexpected value in binary operation"), loc.0));
            }
            match binop(*op, &v1, &v2) {
                Ok(x) => Ok(x),
                Err(m) => Err(CError::RuntimeError(m, loc.0)),
            }
        },
        CExpr::Call(loc, name, args) => match call_func(name, args, loc.0, vtab, global, local, mon, fuel) {
            Err(e) => Err(e),
            Ok(Some(v)) => Ok(v),
            Ok(None) => Err(CError::RuntimeError(lit("Expression returned void"), loc.0)),
        },
        CExpr::Index(loc, name, ie) => match lookup_var(global, local, name.as_str()) {
            None => Err(CError::RuntimeError(join3("Variable '", name.as_str(), "' not initialized"), loc.0)),
            Some(SymVal::Array(a)) => {
                let iv = match run_expr(ie, vtab, global, local, mon, fuel) {
                    Ok(v) => v,
                    Err(e) => {
                        return Err(e);
                    },
                };
                match iv {
                    SymVal::Int(i) => {
                        if 0 <= i && (i as usize) < a.len() {
                            Ok(a[i as usize].deep_copy())
                        } else {
                            Err(CError::RuntimeError(index_bounds_message(i, a.len()), loc.0))
                        }
                    },
                    _ => Err(CError::RuntimeError(lit("Array index must be int"), loc.0)),
                }
            },
            Some(_) => Err(CError::RuntimeError(join3("Variable '", name.as_str(), "' is not an array"), loc.0)),
        },
        CExpr::Error => Err(CError::UnknownError(lit("Unexpected error placeholder in the syntax tree"))),
    }
}

/// Evaluates the arguments of a call, one per parameter, left to right.
fn eval_arg_values<'a, M: Monitor>(
    name: &String,
    params: &Vec<(CType, String)>,
    args: &Vec<CExpr>,
    loc: usize,
    vtab: &FuncTab<'a>,
    global: &mut SymTab,
    local: &mut SymTab,
    mon: &mut M,
    fuel: u64,
) -> (r: Result<Vec<SymVal>, CError>)
    requires
        old(global).wf(),
        old(local).wf(),
    ensures
        final(global).wf(),
        final(local).wf(),
        ({
            let (sr, sg, sl) = eval_args(params@, args@, 0, Seq::empty(), name@, loc, vtab@, old(global)@, old(local)@, fuel as nat);
            &&& final(global)@ == sg
            &&& final(local)@ == sl
            &&& match sr {
                Ok(v) => r matches Ok(x) && vals_view(x@) == v && x.len() == params.len(),
                Err(e) => r matches Err(x) && err_view(x) == e,
            }
        }),
    decreases fuel, 0nat, args@, 0nat, params.len() + 1,
{
    let mut vals: Vec<SymVal> = Vec::new();
    let mut i: usize = 0;
    assert(vals_view(vals@) =~= Seq::<Val>::empty());
    while i < params.len()
        invariant
            global.wf(),
            local.wf(),
            i <= params.len(),
            vals.len() == i,
            eval_args(params@, args@, 0, Seq::empty(), name@, loc, vtab@, old(global)@, old(local)@, fuel as nat)
                == eval_args(params@, args@, i as int, vals_view(vals@), name@, loc, vtab@, global@, local@, fuel as nat),
        decreases params.len() - i,
    {
        if i >= args.len() {
            assert(eval_args(params@, args@, i as int, vals_view(vals@), name@, loc, vtab@, global@, local@, fuel as nat)
                == (Err::<Seq<Val>, ErrV>(ErrV::Runtime(crate::semantics::missing_arg_text(name@, params@[i as int].1@), loc)), global@, local@));
            return Err(CError::RuntimeError(missing_arg_message(name.as_str(), params[i].1.as_str()), loc));
        }
        proof {
            assert(decreases_to!(args@ => args@[i as int]));
        }
        let ghost gi = global@;
        let ghost li = local@;
        assert(eval_args(params@, args@, i as int, vals_view(vals@), name@, loc, vtab@, gi, li, fuel as nat) == {
            let (r, g1, l1) = eval_expr(args@[i as int], vtab@, gi, li, fuel as nat);
            match r {
                Err(x) => (Err(x), g1, l1),
                Ok(v) => eval_args(params@, args@, i + 1, vals_view(vals@).push(v), name@, loc, vtab@, g1, l1, fuel as nat),
            }
        });
        let v = match run_expr(&args[i], vtab, global, local, mon, fuel) {
            Ok(v) => v,
            Err(e) => {
                return Err(e);
            },
        };
        let ghost before = vals_view(vals@);
        vals.push(v);
        assert(vals_view(vals@) =~= before.push(vals[i as int]@));
        i += 1;
    }
    Ok(vals)
}

/// Binds the parameters, in order, in the innermost frame.
fn bind_args(params: &Vec<(CType, String)>, vals: &Vec<SymVal>, loc: usize, local: &mut SymTab)
    requires
        old(local).wf(),
        vals.len() == params.len(),
    ensures
        final(local).wf(),
        final(local)@ == bind_params(old(local)@, params@, vals_view(vals@), loc, params.len() as nat),
{
    let mut j: usize = 0;
    while j < params.len()
        invariant
            local.wf(),
            j <= params.len(),
            vals.len() == params.len(),
            local@ == bind_params(old(local)@, params@, vals_view(vals@), loc, j as nat),
        decreases params.len() - j,
    {
        local.insert(params[j].1.as_str(), copy_type(&params[j].0), None, Some(vals[j].deep_copy()), Some(loc));
        j += 1;
    }
}

/// Calls the function `name`: evaluates the arguments in the caller's
/// tables, runs the body on the globals and a fresh local table holding the
/// parameters, and hands back the returned value, if any.
pub fn call_func<'a, M: Monitor>(
    name: &String,
    args: &Vec<CExpr>,
    loc: usize,
    vtab: &FuncTab<'a>,
    global: &mut SymTab,
    local: &mut SymTab,
    mon: &mut M,
    fuel: u64,
) -> (r: Result<Option<SymVal>, CError>)
    requires
        old(global).wf(),
        old(local).wf(),
    ensures
        final(global).wf(),
        final(local).wf(),
        ({
            let (sr, sg, sl) = call_spec(name@, args@, loc, vtab@, old(global)@, old(local)@, fuel as nat);
            &&& final(global)@ == sg
            &&& final(local)@ == sl
            &&& match sr {
                Ok(v) => r matches Ok(x) && opt_view(x) == v,
                Err(e) => r matches Err(x) && err_view(x) == e,
            }
        }),
    decreases fuel, 0nat, args@, 1nat, 0int,
{
    let f: &CFunc = match vtab.get_func(name.as_str()) {
        Some(f) => f,
        None => {
            return Err(CError::RuntimeError(join3("Function '", name.as_str(), "' not defined"), loc));
        },
    };
    let params = &f.proto.params;
    assert(call_spec(name@, args@, loc, vtab@, old(global)@, old(local)@, fuel as nat) == {
        let (ra, g1, l1) = eval_args(params@, args@, 0, Seq::empty(), name@, loc, vtab@, old(global)@, old(local)@, fuel as nat);
        match ra {
            Err(x) => (Err(x), g1, l1),
            Ok(vals) => if fuel == 0 {
                (Err(ErrV::Runtime(crate::semantics::fuel_text(), loc)), g1, l1)
            } else {
                let l2 = bind_params(seq![FrameV::empty()], params@, vals, loc, params@.len());
                let (rb, g3, _) = exec_block(f.stmts@, 0, vtab@, g1, l2, (fuel - 1) as nat);
                match rb {
                    Err(x) => (Err(x), g3, l1),
                    Ok(c) => (Ok(returned(c)), g3, l1),
                }
            },
        }
    });
    let vals = match eval_arg_values(name, params, args, loc, vtab, global, local, mon, fuel) {
        Ok(v) => v,
        Err(e) => {
            return Err(e);
        },
    };
    if fuel == 0 {
        return Err(CError::RuntimeError(lit("Evaluation step limit reached"), loc));
    }
    let mut callee = SymTab::new();
    bind_args(params, &vals, loc, &mut callee);
    let c = match run_block(&f.stmts, vtab, global, &mut callee, mon, fuel - 1) {
        Ok(c) => c,
        Err(e) => {
            return Err(e);
        },
    };
    match c {
        Some(Some(v)) => Ok(Some(v)),
        _ => Ok(None),
    }
}

/// Runs statements in order up to the first `return`.
pub fn run_block<'a, M: Monitor>(
    stmts: &Vec<CStmt>,
    vtab: &FuncTab<'a>,
    global: &mut SymTab,
    local: &mut SymTab,
    mon: &mut M,
    fuel: u64,
) -> (r: Result<Option<Option<SymVal>>, CError>)
    requires
        old(global).wf(),
        old(local).wf(),
    ensures
        final(global).wf(),
        final(local).wf(),
        ({
            let (sr, sg, sl) = exec_block(stmts@, 0, vtab@, old(global)@, old(local)@, fuel as nat);
            &&& final(global)@ == sg
            &&& final(local)@ == sl
            &&& match sr {
                Ok(c) => r matches Ok(x) && ctl_view(x) == c,
                Err(e) => r matches Err(x) && err_view(x) == e,
            }
        }),
    decreases fuel, 1nat, stmts@, 1nat, 0int,
{
    let mut i: usize = 0;
    while i < stmts.len()
        invariant
            global.wf(),
            local.wf(),
            i <= stmts.len(),
            exec_block(stmts@, 0, vtab@, old(global)@, old(local)@, fuel as nat)
                == exec_block(stmts@, i as int, vtab@, global@, local@, fuel as nat),
        decreases stmts.len() - i,
    {
        proof {
            assert(decreases_to!(stmts@ => stmts@[i as int]));
        }
        let ghost gi = global@;
        let ghost li = local@;
        assert(exec_block(stmts@, i as int, vtab@, gi, li, fuel as nat) == {
            let (r, g1, l1) = exec_stmt(stmts@[i as int], vtab@, gi, li, fuel as nat);
            match r {
                Err(x) => (Err(x), g1, l1),
                Ok(Some(x)) => (Ok(Some(x)), g1, l1),
                Ok(None) => exec_block(stmts@, i + 1, vtab@, g1, l1, fuel as nat),
            }
        });
        match run_stmt(&stmts[i], vtab, global, local, mon, fuel) {
            Err(e) => {
                return Err(e);
            },
            Ok(Some(x)) => {
                return Ok(Some(x));
            },
            Ok(None) => {},
        }
        i += 1;
    }
    Ok(None)
}

/// Runs a statement.
pub fn run_stmt<'a, M: Monitor>(
    stmt: &CStmt,
    vtab: &FuncTab<'a>,
    global: &mut SymTab,
    local: &mut SymTab,
    mon: &mut M,
    fuel: u64,
) -> (r: Result<Option<Option<SymVal>>, CError>)
    requires
        old(global).wf(),
        old(local).wf(),
    ensures
        final(global).wf(),
        final(local).wf(),
        ({
            let (sr, sg, sl) = exec_stmt(*stmt, vtab@, old(global)@, old(local)@, fuel as nat);
            &&& final(global)@ == sg
            &&& final(local)@ == sl
            &&& match sr {
                Ok(c) => r matches Ok(x) && ctl_view(x) == c,
                Err(e) => r matches Err(x) && err_view(x) == e,
            }
        }),
    decreases fuel, 1nat, *stmt, 0nat, 0int,
{
    match loc_of_stmt(stmt) {
        Some(l) => mon.before_stmt(l, global, local),
        None => {},
    }
    match stmt {
        CStmt::Decl(loc, t, name, size) => match size {
            None => {
                local.insert(name.as_str(), copy_type(t), None, None, Some(loc.0));
                Ok(None)
            },
            Some(e) => {
                let v = match run_expr(e, vtab, global, local, mon, fuel) {
                    Ok(v) => v,
                    Err(x) => {
                        return Err(x);
                    },
                };
                match v {
                    SymVal::Int(n) => {
                        if n >= 0 {
                            local.insert(name.as_str(), copy_type(t), Some(n as usize), None, Some(loc.0));
                            Ok(None)
                        } else {
                            Err(CError::RuntimeError(lit("Array size must be a non-negative int"), loc.0))
                        }
                    },
                    _ => Err(CError::RuntimeError(lit("Array size must be a non-negative int"), loc.0)),
                }
            },
        },
        CStmt::Assign(loc, name, idx, e) => match idx {
            None => {
                let v = match run_expr(e, vtab, global, local, mon, fuel) {
                    Ok(v) => v,
                    Err(x) => {
                        return Err(x);
                    },
                };
                store_var(name, None, v, loc.0, global, local)
            },
            Some(ie) => {
                let iv = match run_expr(ie, vtab, global, local, mon, fuel) {
                    Ok(v) => v,
                    Err(x) => {
                        return Err(x);
                    },
                };
                match iv {
                    SymVal::Int(i) => {
                        if i < 0 {
                            return Err(CError::RuntimeError(lit("Array index must not be negative"), loc.0));
                        }
                        let v = match run_expr(e, vtab, global, local, mon, fuel) {
                            Ok(v) => v,
                            Err(x) => {
                                return Err(x);
                            },
                        };
                        store_var(name, Some(i as usize), v, loc.0, global, local)
                    },
                    _ => Err(CError::RuntimeError(lit("Array index must be int"), loc.0)),
                }
            },
        },
        CStmt::Return(_, None) => Ok(Some(None)),
        CStmt::Return(_, Some(e)) => match run_expr(e, vtab, global, local, mon, fuel) {
            Ok(v) => Ok(Some(Some(v))),
            Err(x) => Err(x),
        },
        CStmt::Block(ss) => {
            local.push_frame();
            let c = match run_block(ss, vtab, global, local, mon, fuel) {
                Ok(c) => c,
                Err(x) => {
                    return Err(x);
                },
            };
            match local.pop_frame() {
                Ok(()) => Ok(c),
                Err(x) => Err(x),
            }
        },
        CStmt::If(loc, c, s1, s2) => {
            let v = match run_expr(c, vtab, global, local, mon, fuel) {
                Ok(v) => v,
                Err(x) => {
                    return Err(x);
                },
            };
            match v {
                SymVal::Bool(true) => run_stmt(s1, vtab, global, local, mon, fuel),
                SymVal::Bool(false) => match s2 {
                    Some(s3) => run_stmt(s3, vtab, global, local, mon, fuel),
                    None => Ok(None),
                },
                _ => Err(CError::RuntimeError(lit("Condition must be a bool"), loc.0)),
            }
        },
        CStmt::While(loc, c, body) => {
            let v = match run_expr(c, vtab, global, local, mon, fuel) {
                Ok(v) => v,
                Err(x) => {
                    return Err(x);
                },
            };
            match v {
                SymVal::Bool(true) => {
                    match run_stmt(body, vtab, global, local, mon, fuel) {
                        Err(x) => Err(x),
                        Ok(Some(x)) => Ok(Some(x)),
                        Ok(None) => {
                            if fuel == 0 {
                                Err(CError::RuntimeError(lit("Evaluation step limit reached"), loc.0))
                            } else {
                                run_stmt(stmt, vtab, global, local, mon, fuel - 1)
                            }
                        },
                    }
                },
                SymVal::Bool(false) => Ok(None),
                _ => Err(CError::RuntimeError(lit("Condition must be a bool"), loc.0)),
            }
        },
        CStmt::Call(loc, name, args) => match call_func(name, args, loc.0, vtab, global, local, mon, fuel) {
            Err(x) => Err(x),
            Ok(_) => Ok(None),
        },
        CStmt::Print(_, e) => {
            let v = match run_expr(e, vtab, global, local, mon, fuel) {
                Ok(v) => v,
                Err(x) => {
                    return Err(x);
                },
            };
            mon.print(&v);
            Ok(None)
        },
        CStmt::Error => Err(CError::UnknownError(lit("Unexpected error placeholder in the syntax tree"))),
    }
}


/// Runs a function body on the given tables and hands back its returned value.
pub fn run_func<'a, M: Monitor>(
    func: &CFunc,
    vtab: &FuncTab<'a>,
    global: &mut SymTab,
    local: &mut SymTab,
    mon: &mut M,
    fuel: u64,
) -> (r: Result<Option<SymVal>, CError>)
    requires
        old(global).wf(),
        old(local).wf(),
    ensures
        final(global).wf(),
        final(local).wf(),
        ({
            let (sr, sg, sl) = exec_block(func.stmts@, 0, vtab@, old(global)@, old(local)@, fuel as nat);
            &&& final(global)@ == sg
            &&& final(local)@ == sl
            &&& match sr {
                Ok(c) => r matches Ok(x) && opt_view(x) == returned(c),
                Err(e) => r matches Err(x) && err_view(x) == e,
            }
        }),
{
    match run_block(&func.stmts, vtab, global, local, mon, fuel) {
        Ok(Some(Some(v))) => Ok(Some(v)),
        Ok(_) => Ok(None),
        Err(e) => Err(e),
    }
}

/// The command-line arguments as the program sees them: an array of strings.
pub open spec fn argv_value(args: Seq<String>) -> Val {
    Val::Array(Seq::new(args.len(), |i: int| if 0 <= i < args.len() { string_value(args[i]@) } else { Val::Int(0) }))
}

pub open spec fn argv_type() -> CType {
    CType::Ref(Box::new(CType::Ref(Box::new(CType::Char))))
}

/// The local table `main` starts with: `argc` and `argv`.
pub open spec fn main_locals(args: Seq<String>) -> TabV {
    seq![
        frame_insert(
            frame_insert(FrameV::empty(), "argc"@, fresh_entry(CType::Int, None, Some(Val::Int(args.len() as i32)), None)),
            "argv"@,
            fresh_entry(argv_type(), None, Some(argv_value(args)), None),
        ),
    ]
}

/// The definition of `main` in a checked program.
pub open spec fn main_of(p: Seq<CProgElem>) -> CFunc {
    (lookup(check_all(p).funcs, "main"@)->0).1->0
}

fn argv_val(args: &Vec<String>) -> (r: SymVal)
    ensures
        r@ == argv_value(args@),
{
    let mut out: Vec<Box<SymVal>> = Vec::new();
    let mut i: usize = 0;
    while i < args.len()
        invariant
            i <= args.len(),
            out.len() == i,
            forall|j: int| 0 <= j < i ==> out[j]@ == string_value(args[j]@),
        decreases args.len() - i,
    {
        out.push(Box::new(str_val(args[i].as_str())));
        i += 1;
    }
    let r = SymVal::Array(out);
    let ghost av = argv_value(args@)->Array_0;
    assert(av.len() == args.len());
    assert(forall|j: int| 0 <= j < args.len() ==> av[j] == string_value(args@[j]@));
    assert(forall|j: int| 0 <= j < args.len() ==> r@->Array_0[j] == out[j]@);
    assert(r@->Array_0 =~= av);
    r
}

/// Checks a program and runs its `main` with `argc` and `argv` as locals.
/// Checker errors are returned together; otherwise the outcome is that of
/// `main`'s body on the checked global tables.
pub fn run_prog<M: Monitor>(ast: &CProg, args: &Vec<String>, mon: &mut M, fuel: u64) -> (r: Result<Option<SymVal>, CError>)
    requires
        args.len() <= i32::MAX,
    ensures
        checker_errors(ast@).len() > 0 ==> (r matches Err(e) && err_view(e) == ErrV::Checker(checker_errors(ast@))),
        checker_errors(ast@).len() > 0 ==> *final(mon) == *old(mon),
        checker_errors(ast@).len() == 0 ==> ({
            let st = check_all(ast@);
            let (sr, _, _) = exec_block(main_of(ast@).stmts@, 0, st.funcs, seq![st.globals], main_locals(args@), fuel as nat);
            match sr {
                Ok(c) => r matches Ok(x) && opt_view(x) == returned(c),
                Err(e) => r matches Err(x) && err_view(x) == e,
            }
        }),
{
    let (vtab, mut global) = match analyze_prog(ast) {
        Ok(x) => x,
        Err(e) => {
            assert(err_view(e)->Checker_0 =~= errors_view(e->CheckerError_0@));
            return Err(e);
        },
    };
    proof {
        reveal_strlit("main");
        reveal_strlit("argc");
        reveal_strlit("argv");
    }
    let main = match vtab.get_func("main") {
        Some(f) => f,
        None => {
            return Err(CError::UnknownError(lit("Function 'main' missing")));
        },
    };
    let mut local = SymTab::new();
    local.insert("argc", CType::Int, None, Some(SymVal::Int(args.len() as i32)), None);
    let argv = argv_val(args);
    local.insert("argv", CType::Ref(Box::new(CType::Ref(Box::new(CType::Char)))), None, Some(argv), None);
    assert(local@ =~= main_locals(args@));
    let r = run_func(main, &vtab, &mut global, &mut local, mon, fuel);
    if r.is_ok() {
        mon.finished(&global, &local);
    }
    r
}

} // verus!
