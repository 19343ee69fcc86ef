//! The static checker: one pass over the program that builds the global
//! function and symbol tables and collects every problem it meets.
use crate::ast::{copy_type, CFunc, CProg, CProgElem, CProto};
use crate::env::{find, fresh_entry, frame_insert, lookup, FrameV, FuncTab, FuncsV, SymTab};
use crate::error::CError;
use crate::text::join3;
use vstd::prelude::*;
use vstd::string::StringExecFns;

verus! {

/// Messages with the byte offsets they point at.
pub type Errors = Seq<(Seq<char>, Option<usize>)>;

/// What the checker knows after a prefix of the program.
pub struct CheckState {
    pub funcs: FuncsV,
    pub globals: FrameV,
    pub errors: Errors,
}

pub open spec fn dup_var_text(name: Seq<char>) -> Seq<char> {
    "Variable '"@ + name + "' already declared"@
}

pub open spec fn dup_func_text(name: Seq<char>) -> Seq<char> {
    "Function '"@ + name + "' already declared"@
}

pub open spec fn proto_after_def_text(name: Seq<char>) -> Seq<char> {
    "Function '"@ + name + "' already defined"@
}

pub open spec fn main_missing_text() -> Seq<char> {
    "Function 'main' missing"@
}

/// Whether an entry looked up in the function table carries a body.
pub open spec fn has_body(e: Option<(CProto, Option<CFunc>)>) -> bool {
    e matches Some(x) && x.1 is Some
}

/// One top-level element checked against the state before it.
///
/// A global declared twice keeps its first entry and records an error. A
/// definition or a prototype replaces the entry of its name; an error is
/// recorded where that entry already had a body.
pub open spec fn check_elem(st: CheckState, e: CProgElem) -> CheckState {
    match e {
        CProgElem::Decl(l, t, name, s) => if lookup(st.globals, name@) is Some {
            CheckState { errors: st.errors.push((dup_var_text(name@), Some(l.0))), ..st }
        } else {
            CheckState { globals: frame_insert(st.globals, name@, fresh_entry(t, s, None, Some(l.0))), ..st }
        },
        CProgElem::Func(l, f) => CheckState {
            funcs: frame_insert(st.funcs, f.proto.name@, (f.proto, Some(f))),
            errors: if has_body(lookup(st.funcs, f.proto.name@)) {
                st.errors.push((dup_func_text(f.proto.name@), Some(l.0)))
            } else {
                st.errors
            },
            ..st
        },
        CProgElem::Proto(l, p) => CheckState {
            funcs: frame_insert(st.funcs, p.name@, (p, None)),
            errors: if has_body(lookup(st.funcs, p.name@)) {
                st.errors.push((proto_after_def_text(p.name@), Some(l.0)))
            } else {
                st.errors
            },
            ..st
        },
        CProgElem::Error => st,
    }
}

/// The state after checking the elements of `p` in order.
pub open spec fn check_all(p: Seq<CProgElem>) -> CheckState
    decreases p.len(),
{
    if p.len() == 0 {
        CheckState { funcs: FuncsV::empty(), globals: FrameV::empty(), errors: Errors::empty() }
    } else {
        check_elem(check_all(p.drop_last()), p.last())
    }
}

/// Whether the function table holds a definition of `main`.
pub open spec fn main_defined(funcs: FuncsV) -> bool {
    has_body(lookup(funcs, "main"@))
}

/// Every error the checker reports on `p`, in source order, the missing
/// `main` last.
pub open spec fn checker_errors(p: Seq<CProgElem>) -> Errors {
    let st = check_all(p);
    if main_defined(st.funcs) {
        st.errors
    } else {
        st.errors.push((main_missing_text(), None))
    }
}

pub open spec fn errors_view(v: Seq<(String, Option<usize>)>) -> Errors {
    Seq::new(v.len(), |i: int| (v[i].0@, v[i].1))
}

/// Checks a whole program. On success returns the function table and a
/// symbol table whose one frame holds the globals; otherwise every error found.
pub fn analyze_prog<'a>(ast: &'a CProg) -> (r: Result<(FuncTab<'a>, SymTab), CError>)
    ensures
        match r {
            Ok((ft, st)) => checker_errors(ast@).len() == 0 && st.wf() && ft.wf()
                && ft@ == check_all(ast@).funcs
                && st@ == seq![check_all(ast@).globals],
            Err(e) => checker_errors(ast@).len() > 0 && (e matches CError::CheckerError(v)
                && errors_view(v@) == checker_errors(ast@)),
        },
{
    let mut vtab = FuncTab::new();
    let mut symtab = SymTab::new();
    let mut errors: Vec<(String, Option<usize>)> = Vec::new();
    let mut i: usize = 0;
    while i < ast.len()
        invariant
            i <= ast.len(),
            symtab.wf(),
            vtab.wf(),
            symtab@.len() == 1,
            vtab@ == check_all(ast@.subrange(0, i as int)).funcs,
            symtab.top() == check_all(ast@.subrange(0, i as int)).globals,
            errors_view(errors@) == check_all(ast@.subrange(0, i as int)).errors,
        decreases ast.len() - i,
    {
        let elem: &'a CProgElem = &ast[i];
        proof {
            assert(ast@.subrange(0, i + 1).drop_last() =~= ast@.subrange(0, i as int));
        }
        let ghost ev = errors_view(errors@);
        match elem {
            CProgElem::Decl(l, t, name, s) => {
                proof {
                    crate::env::lemma_one_frame(symtab@, name@);
                }
                if symtab.get_type(name.as_str()).is_some() {
                    errors.push((join3("Variable '", name.as_str(), "' already declared"), Some(l.0)));
                    assert(errors_view(errors@) =~= ev.push((dup_var_text(name@), Some(l.0))));
                } else {
                    symtab.insert(name.as_str(), copy_type(t), *s, None, Some(l.0));
                }
            },
            CProgElem::Func(l, f) => {
                let prev = vtab.insert(f.proto.name.as_str(), &f.proto, Some(f));
                match prev {
                    Some((_, Some(_))) => {
                        errors.push((join3("Function '", f.proto.name.as_str(), "' already declared"), Some(l.0)));
                        assert(errors_view(errors@) =~= ev.push((dup_func_text(f.proto.name@), Some(l.0))));
                    },
                    _ => {},
                }
            },
            CProgElem::Proto(l, p) => {
                let prev = vtab.insert(p.name.as_str(), p, None);
                match prev {
                    Some((_, Some(_))) => {
                        errors.push((join3("Function '", p.name.as_str(), "' already defined"), Some(l.0)));
                        assert(errors_view(errors@) =~= ev.push((proto_after_def_text(p.name@), Some(l.0))));
                    },
                    _ => {},
                }
            },
            CProgElem::Error => {},
        }
        i += 1;
    }
    assert(ast@.subrange(0, ast.len() as int) =~= ast@);
    let ghost ev = errors_view(errors@);
    proof {
        reveal_strlit("main");
    }
    if vtab.get_func("main").is_none() {
        errors.push((String::from_str("Function 'main' missing"), None));
        assert(errors_view(errors@) =~= ev.push((main_missing_text(), None)));
    }
    if errors.len() == 0 {
        Ok((vtab, symtab))
    } else {
        Err(CError::CheckerError(errors))
    }
}


/// The name an element declares as a global variable, if it is such a declaration.
pub open spec fn decl_name(e: CProgElem) -> Option<Seq<char>> {
    match e {
        CProgElem::Decl(_, _, n, _) => Some(n@),
        _ => None,
    }
}

/// Whether some element of `p` declares the global `k`.
pub open spec fn declares(p: Seq<CProgElem>, k: Seq<char>) -> bool {
    exists|i: int| 0 <= i < p.len() && decl_name(p[i]) == Some(k)
}

/// How many global declarations of `p` repeat a name declared before them.
pub open spec fn redeclarations(p: Seq<CProgElem>) -> nat
    decreases p.len(),
{
    if p.len() == 0 {
        0
    } else {
        redeclarations(p.drop_last()) + match decl_name(p.last()) {
            Some(k) => if declares(p.drop_last(), k) { 1nat } else { 0nat },
            None => 0nat,
        }
    }
}

/// The function an element defines, if it is a definition.
pub open spec fn func_name(e: CProgElem) -> Option<Seq<char>> {
    match e {
        CProgElem::Func(_, f) => Some(f.proto.name@),
        _ => None,
    }
}

/// The function an element declares by a prototype, if it is one.
pub open spec fn proto_name(e: CProgElem) -> Option<Seq<char>> {
    match e {
        CProgElem::Proto(_, q) => Some(q.name@),
        _ => None,
    }
}

/// Whether some element of `p` defines the function `k`.
pub open spec fn defines(p: Seq<CProgElem>, k: Seq<char>) -> bool {
    exists|i: int| 0 <= i < p.len() && func_name(p[i]) == Some(k)
}

/// How many definitions of `p` repeat the name of an earlier definition.
pub open spec fn redefinitions(p: Seq<CProgElem>) -> nat
    decreases p.len(),
{
    if p.len() == 0 {
        0
    } else {
        redefinitions(p.drop_last()) + match func_name(p.last()) {
            Some(k) => if defines(p.drop_last(), k) { 1nat } else { 0nat },
            None => 0nat,
        }
    }
}

/// No parse-error placeholder, and no prototype after a definition of its name.
pub open spec fn plain_program(p: Seq<CProgElem>) -> bool {
    &&& forall|i: int| 0 <= i < p.len() ==> !(#[trigger] p[i] is Error)
    &&& forall|i: int, j: int| 0 <= i < j < p.len() && func_name(p[i]) is Some ==> proto_name(#[trigger] p[j]) != func_name(
        #[trigger] p[i],
    )
}

proof fn lemma_lookup_insert<E>(f: Seq<(Seq<char>, E)>, k: Seq<char>, e: E, k2: Seq<char>)
    ensures
        lookup(frame_insert(f, k, e), k2) == if k2 == k { Some(e) } else { lookup(f, k2) },
{
    crate::env::lemma_find(f, k);
    crate::env::lemma_find(f, k2);
    match find(f, k) {
        Some(i) => {
            crate::env::lemma_find_update(f, k, e, k2);
            crate::env::lemma_find_update(f, k, e, k);
        },
        None => {
            assert(f.push((k, e)).drop_last() =~= f);
        },
    }
}

proof fn lemma_counts(p: Seq<CProgElem>)
    requires
        plain_program(p),
    ensures
        check_all(p).errors.len() == redeclarations(p) + redefinitions(p),
        forall|k: Seq<char>| lookup(check_all(p).globals, k) is Some <==> declares(p, k),
        forall|k: Seq<char>| has_body(lookup(check_all(p).funcs, k)) <==> defines(p, k),
    decreases p.len(),
{
    if p.len() > 0 {
        let q = p.drop_last();
        assert forall|i: int| 0 <= i < q.len() implies q[i] == p[i] by {}
        assert(plain_program(q)) by {
            assert forall|i: int, j: int| 0 <= i < j < q.len() && func_name(q[i]) is Some implies proto_name(
                #[trigger] q[j],
            ) != func_name(#[trigger] q[i]) by {
                assert(q[i] == p[i] && q[j] == p[j]);
            }
        }
        lemma_counts(q);
        let st = check_all(q);
        let last = p.len() - 1;
        assert(p[last] == p.last());
        assert forall|k: Seq<char>| declares(p, k) <==> (declares(q, k) || decl_name(p.last()) == Some(k)) by {
            if declares(p, k) {
                let i = choose|i: int| 0 <= i < p.len() && decl_name(p[i]) == Some(k);
                if i < q.len() {
                    assert(q[i] == p[i]);
                }
            }
            if declares(q, k) {
                let i = choose|i: int| 0 <= i < q.len() && decl_name(q[i]) == Some(k);
                assert(p[i] == q[i]);
            }
        }
        assert forall|k: Seq<char>| defines(p, k) <==> (defines(q, k) || func_name(p.last()) == Some(k)) by {
            if defines(p, k) {
                let i = choose|i: int| 0 <= i < p.len() && func_name(p[i]) == Some(k);
                if i < q.len() {
                    assert(q[i] == p[i]);
                }
            }
            if defines(q, k) {
                let i = choose|i: int| 0 <= i < q.len() && func_name(q[i]) == Some(k);
                assert(p[i] == q[i]);
            }
        }
        match p.last() {
            CProgElem::Decl(l, t, name, sz) => {
                if lookup(st.globals, name@) is None {
                    assert forall|k: Seq<char>| lookup(check_all(p).globals, k) is Some <==> declares(p, k) by {
                        lemma_lookup_insert(st.globals, name@, fresh_entry(t, sz, None, Some(l.0)), k);
                    }
                }
            },
            CProgElem::Func(l, f) => {
                assert forall|k: Seq<char>| has_body(lookup(check_all(p).funcs, k)) <==> defines(p, k) by {
                    lemma_lookup_insert(st.funcs, f.proto.name@, (f.proto, Some(f)), k);
                }
            },
            CProgElem::Proto(l, pr) => {
                assert(!defines(q, pr.name@)) by {
                    if defines(q, pr.name@) {
                        let i = choose|i: int| 0 <= i < q.len() && func_name(q[i]) == Some(pr.name@);
                        assert(p[i] == q[i]);
                        assert(proto_name(p[last]) != func_name(p[i]));
                    }
                }
                assert forall|k: Seq<char>| has_body(lookup(check_all(p).funcs, k)) <==> defines(p, k) by {
                    lemma_lookup_insert(st.funcs, pr.name@, (pr, None), k);
                }
            },
            CProgElem::Error => {
                assert(!(p[last] is Error));
            },
        }
    }
}

/// The checker reports every problem, not the first: it reports one error
/// per global declaration that repeats an earlier name, one per definition
/// that repeats an earlier one, and one more, last, when `main` is not
/// defined. Stated of programs without parse-error placeholders and without
/// a prototype after a definition of the same name.
pub proof fn lemma_checker_accumulates(p: Seq<CProgElem>)
    requires
        plain_program(p),
    ensures
        checker_errors(p).len() == redeclarations(p) + redefinitions(p) + if defines(p, "main"@) { 0nat } else { 1nat },
        !defines(p, "main"@) ==> checker_errors(p).last() == (main_missing_text(), None::<usize>),
{
    lemma_counts(p);
}

} // verus!
