//! The environment: a flat function table and a stack of symbol-table frames
//! whose entries keep the full history of their values.
use crate::ast::{copy_type, CFunc, CProto, CType};
use crate::error::{err_view, CError, ErrV};
use crate::text::{join3, nat_string};
use crate::value::{SymVal, Val};
use vstd::prelude::*;
use vstd::string::StringExecFns;

verus! {

/// The history of a variable: each value it took (none for a declaration
/// without one) and the byte offset of the statement that set it.
pub type Hist = Vec<(Option<SymVal>, Option<usize>)>;

/// A symbol-table entry: declared type, array size, history.
pub type SymEntry = (CType, Option<usize>, Hist);

pub type HistV = Seq<(Option<Val>, Option<usize>)>;

pub type EntryV = (CType, Option<usize>, HistV);

pub type FrameV = Seq<(Seq<char>, EntryV)>;

/// Model of a symbol table: its frames, innermost last.
pub type TabV = Seq<FrameV>;

pub open spec fn opt_view(o: Option<SymVal>) -> Option<Val> {
    match o {
        Some(v) => Some(v@),
        None => None,
    }
}

pub open spec fn hist_view(h: Seq<(Option<SymVal>, Option<usize>)>) -> HistV {
    Seq::new(h.len(), |i: int| (opt_view(h[i].0), h[i].1))
}

pub open spec fn entry_view(e: SymEntry) -> EntryV {
    (e.0, e.1, hist_view(e.2@))
}

pub open spec fn frame_view(f: Seq<(String, SymEntry)>) -> FrameV {
    Seq::new(f.len(), |i: int| (f[i].0@, entry_view(f[i].1)))
}

/// Position of the binding of `k`: the last one, searching from the end.
pub open spec fn find<E>(f: Seq<(Seq<char>, E)>, k: Seq<char>) -> Option<int>
    decreases f.len(),
{
    if f.len() == 0 {
        None
    } else if f.last().0 == k {
        Some(f.len() - 1)
    } else {
        find(f.drop_last(), k)
    }
}

pub open spec fn lookup<E>(f: Seq<(Seq<char>, E)>, k: Seq<char>) -> Option<E> {
    match find(f, k) {
        Some(i) => Some(f[i].1),
        None => None,
    }
}

/// The current value of an entry: that of the last history record.
pub open spec fn current(e: EntryV) -> Option<Val> {
    if e.2.len() > 0 {
        e.2.last().0
    } else {
        None
    }
}

/// The current value of `k` in a frame; none where `k` is not bound.
pub open spec fn value_in(f: FrameV, k: Seq<char>) -> Option<Val> {
    match lookup(f, k) {
        Some(e) => current(e),
        None => None,
    }
}

/// Whether no name is bound twice in a frame.
pub open spec fn unique_keys<E>(f: Seq<(Seq<char>, E)>) -> bool {
    forall|i: int, j: int| 0 <= i < j < f.len() ==> f[i].0 != f[j].0
}

/// Index of the nearest of the first `n` frames that binds `k`, searching
/// from frame `n - 1` outward.
pub open spec fn frame_of(t: TabV, k: Seq<char>, n: int) -> Option<int>
    decreases n,
{
    if n <= 0 {
        None
    } else if find(t[n - 1], k) is Some {
        Some(n - 1)
    } else {
        frame_of(t, k, n - 1)
    }
}

/// The current value of `k` in the nearest of the first `n` frames that binds it.
pub open spec fn value_below(t: TabV, k: Seq<char>, n: int) -> Option<Val> {
    match frame_of(t, k, n) {
        Some(f) => value_in(t[f], k),
        None => None,
    }
}

/// The entry that `k` names in a table: the one in the innermost frame binding it.
pub open spec fn binding(t: TabV, k: Seq<char>) -> Option<EntryV> {
    match frame_of(t, k, t.len() as int) {
        Some(f) => lookup(t[f], k),
        None => None,
    }
}

/// `k` bound to `e` in a frame: in place of an earlier binding of `k`, or added last.
pub open spec fn frame_insert<E>(f: Seq<(Seq<char>, E)>, k: Seq<char>, e: E) -> Seq<(Seq<char>, E)> {
    match find(f, k) {
        Some(i) => f.update(i, (k, e)),
        None => f.push((k, e)),
    }
}

/// A fresh entry: one history record.
pub open spec fn fresh_entry(t: CType, s: Option<usize>, v: Option<Val>, loc: Option<usize>) -> EntryV {
    (t, s, seq![(v, loc)])
}

/// Why an assignment cannot be made.
pub enum SetErr {
    Undeclared,
    NotArray,
    OutOfBounds(int, int),
}

/// An array of `n` slots: `v` at `i`, `Int(0)` elsewhere.
pub open spec fn materialized(n: nat, i: int, v: Val) -> Seq<Val> {
    Seq::new(n, |j: int| if j == i { v } else { Val::Int(0) })
}

/// The value an entry holds after assigning `v`, at index `idx` if given.
pub open spec fn assigned_value(e: EntryV, idx: Option<usize>, v: Val) -> Result<Val, SetErr> {
    match idx {
        None => Ok(v),
        Some(i) => match current(e) {
            Some(Val::Array(a)) => if i < a.len() {
                Ok(Val::Array(a.update(i as int, v)))
            } else {
                Err(SetErr::OutOfBounds(i as int, a.len() as int))
            },
            Some(_) => Err(SetErr::NotArray),
            None => match e.1 {
                Some(n) => if i < n {
                    Ok(Val::Array(materialized(n as nat, i as int, v)))
                } else {
                    Err(SetErr::OutOfBounds(i as int, n as int))
                },
                None => Err(SetErr::NotArray),
            },
        },
    }
}

/// The innermost frame after assigning to `k` in it.
pub open spec fn frame_set(f: FrameV, k: Seq<char>, idx: Option<usize>, v: Val, loc: Option<usize>) -> Result<FrameV, SetErr> {
    match find(f, k) {
        None => Err(SetErr::Undeclared),
        Some(i) => {
            let e = f[i].1;
            match assigned_value(e, idx, v) {
                Err(x) => Err(x),
                Ok(nv) => Ok(f.update(i, (k, (e.0, e.1, e.2.push((Some(nv), loc)))))),
            }
        },
    }
}

pub open spec fn pop_text() -> Seq<char> {
    "Cannot pop the outermost frame of a symbol table"@
}

/// A table after assigning to `k`, in the innermost frame that binds it.
pub open spec fn tab_set(t: TabV, k: Seq<char>, idx: Option<usize>, v: Val, loc: Option<usize>) -> Result<TabV, SetErr> {
    match frame_of(t, k, t.len() as int) {
        None => Err(SetErr::Undeclared),
        Some(f) => match frame_set(t[f], k, idx, v, loc) {
            Ok(fr) => Ok(t.update(f, fr)),
            Err(e) => Err(e),
        },
    }
}

/// Message for a failed assignment to `k`.
pub open spec fn set_err_text(k: Seq<char>, e: SetErr) -> Seq<char> {
    match e {
        SetErr::Undeclared => "Variable '"@ + k + "' not declared"@,
        SetErr::NotArray => "Variable '"@ + k + "' is not an array"@,
        SetErr::OutOfBounds(i, n) => bounds_text(i, n),
    }
}

/// Message for index `i` outside `0..n`.
pub open spec fn bounds_text(i: int, n: int) -> Seq<char> {
    "Index "@ + crate::text::int_text(i) + " out of bounds (range: 0.."@ + crate::text::int_text(n) + ")"@
}

/// A binding that `find` reports stands in the frame under that name.
pub proof fn lemma_find<E>(f: Seq<(Seq<char>, E)>, k: Seq<char>)
    ensures
        find(f, k) matches Some(i) ==> 0 <= i < f.len() && f[i].0 == k,
    decreases f.len(),
{
    if f.len() > 0 && f.last().0 != k {
        lemma_find(f.drop_last(), k);
    }
}

/// Rebinding the name found by `find` to a new entry moves no binding.
pub proof fn lemma_find_update<E>(f: Seq<(Seq<char>, E)>, k: Seq<char>, e: E, k2: Seq<char>)
    requires
        find(f, k) is Some,
    ensures
        find(f.update(find(f, k)->0, (k, e)), k2) == find(f, k2),
    decreases f.len(),
{
    lemma_find(f, k);
    let i = find(f, k)->0;
    let g = f.update(i, (k, e));
    if i < f.len() - 1 {
        assert(g.drop_last() =~= f.drop_last().update(i, (k, e)));
        assert(g.last() == f.last());
        if f.last().0 != k2 {
            lemma_find_update(f.drop_last(), k, e, k2);
        }
    } else {
        assert(g.drop_last() =~= f.drop_last());
    }
}

/// After a successful assignment, the variable holds the assigned value
/// and its history has grown by exactly that record.
proof fn lemma_set_effect(f: FrameV, k: Seq<char>, idx: Option<usize>, v: Val, loc: Option<usize>)
    requires
        frame_set(f, k, idx, v, loc) is Ok,
    ensures
        ({
            let e = lookup(f, k)->0;
            let nv = assigned_value(e, idx, v)->Ok_0;
            let g = frame_set(f, k, idx, v, loc)->Ok_0;
            &&& lookup(g, k) == Some((e.0, e.1, e.2.push((Some(nv), loc))))
            &&& value_in(g, k) == Some(nv)
            &&& forall|k2: Seq<char>| k2 != k ==> lookup(g, k2) == lookup(f, k2)
        }),
{
    let i = find(f, k)->0;
    let e = f[i].1;
    lemma_find(f, k);
    let ne = (e.0, e.1, e.2.push((Some(assigned_value(e, idx, v)->Ok_0), loc)));
    lemma_find_update(f, k, ne, k);
    assert forall|k2: Seq<char>| k2 != k implies lookup(frame_set(f, k, idx, v, loc)->Ok_0, k2) == lookup(f, k2) by {
        lemma_find_update(f, k, ne, k2);
        lemma_find(f, k2);
    }
}

/// A name that `find` misses is bound nowhere in the frame.
pub proof fn lemma_find_none<E>(f: Seq<(Seq<char>, E)>, k: Seq<char>)
    ensures
        find(f, k) is None ==> forall|i: int| 0 <= i < f.len() ==> f[i].0 != k,
    decreases f.len(),
{
    if f.len() > 0 {
        lemma_find_none(f.drop_last(), k);
        assert forall|i: int| 0 <= i < f.len() - 1 implies f[i] == f.drop_last()[i] by {}
    }
}

/// The frame that `frame_of` reports binds the name, and no nearer one does.
pub proof fn lemma_frame_of(t: TabV, k: Seq<char>, n: int)
    requires
        n <= t.len(),
    ensures
        frame_of(t, k, n) matches Some(f) ==> 0 <= f < n && find(t[f], k) is Some
            && forall|g: int| f < g < n ==> find(#[trigger] t[g], k) is None,
        frame_of(t, k, n) is None ==> forall|g: int| 0 <= g < n ==> find(#[trigger] t[g], k) is None,
    decreases n,
{
    if n > 0 {
        lemma_frame_of(t, k, n - 1);
    }
}

/// In a table of one frame, a name is bound where that frame binds it.
pub proof fn lemma_one_frame(t: TabV, k: Seq<char>)
    requires
        t.len() == 1,
    ensures
        binding(t, k) == lookup(t[0], k),
        value_below(t, k, 1) == value_in(t[0], k),
{
    assert(frame_of(t, k, 0) is None);
}

/// Tables whose frames find `k` at the same places agree on where `k` is bound.
proof fn lemma_frame_of_same(t: TabV, u: TabV, k: Seq<char>, n: int)
    requires
        n <= t.len() == u.len(),
        forall|g: int| 0 <= g < t.len() ==> find(#[trigger] t[g], k) == find(u[g], k),
    ensures
        frame_of(t, k, n) == frame_of(u, k, n),
    decreases n,
{
    if n > 0 {
        lemma_frame_of_same(t, u, k, n - 1);
    }
}

/// After a successful assignment, the variable holds the assigned value, its
/// history has grown by exactly that record, and every other name is bound
/// as before.
pub proof fn lemma_tab_set_effect(t: TabV, k: Seq<char>, idx: Option<usize>, v: Val, loc: Option<usize>)
    requires
        tab_set(t, k, idx, v, loc) is Ok,
    ensures
        ({
            let e = binding(t, k)->0;
            let nv = assigned_value(e, idx, v)->Ok_0;
            let u = tab_set(t, k, idx, v, loc)->Ok_0;
            &&& binding(t, k) is Some
            &&& u.len() == t.len()
            &&& binding(u, k) == Some((e.0, e.1, e.2.push((Some(nv), loc))))
            &&& value_below(u, k, u.len() as int) == Some(nv)
            &&& forall|k2: Seq<char>| k2 != k ==> binding(u, k2) == binding(t, k2)
        }),
{
    lemma_frame_of(t, k, t.len() as int);
    let f = frame_of(t, k, t.len() as int)->0;
    let fr = t[f];
    let i = find(fr, k)->0;
    lemma_find(fr, k);
    let e = fr[i].1;
    let ne = (e.0, e.1, e.2.push((Some(assigned_value(e, idx, v)->Ok_0), loc)));
    let u = tab_set(t, k, idx, v, loc)->Ok_0;
    assert(u == t.update(f, fr.update(i, (k, ne))));
    assert forall|k2: Seq<char>| #[trigger] find(u[f], k2) == find(fr, k2) by {
        lemma_find_update(fr, k, ne, k2);
    }
    assert forall|k2: Seq<char>| frame_of(u, k2, t.len() as int) == frame_of(t, k2, t.len() as int) by {
        assert forall|g: int| 0 <= g < t.len() implies find(#[trigger] u[g], k2) == find(t[g], k2) by {
            if g == f {
                assert(find(u[f], k2) == find(fr, k2));
            }
        }
        lemma_frame_of_same(u, t, k2, t.len() as int);
    }
    lemma_set_effect(fr, k, idx, v, loc);
    assert forall|k2: Seq<char>| k2 != k implies binding(u, k2) == binding(t, k2) by {
        lemma_frame_of(t, k2, t.len() as int);
        if let Some(g) = frame_of(t, k2, t.len() as int) {
            if g == f {
                assert(lookup(u[f], k2) == lookup(fr, k2));
            }
        }
    }
}

/// An array variable declared without a value is filled on its first
/// indexed write, wherever the innermost frame binding it lies: the written
/// slot holds the value, every other slot `Int(0)`. A second indexed write
/// keeps the first.
pub proof fn lemma_lazy_array(
    t: TabV,
    k: Seq<char>,
    n: usize,
    i: usize,
    v: Val,
    l1: Option<usize>,
    j: usize,
    w: Val,
    l2: Option<usize>,
)
    requires
        binding(t, k) matches Some(e) && current(e) is None && e.1 == Some(n),
        i < n,
        j < n,
    ensures
        ({
            let r1 = tab_set(t, k, Some(i), v, l1);
            let r2 = tab_set(r1->Ok_0, k, Some(j), w, l2);
            &&& r1 is Ok
            &&& value_below(r1->Ok_0, k, t.len() as int) == Some(Val::Array(materialized(n as nat, i as int, v)))
            &&& r2 is Ok
            &&& value_below(r2->Ok_0, k, t.len() as int) == Some(
                Val::Array(materialized(n as nat, i as int, v).update(j as int, w)),
            )
        }),
{
    lemma_frame_of(t, k, t.len() as int);
    let f = frame_of(t, k, t.len() as int)->0;
    lemma_find(t[f], k);
    lemma_tab_set_effect(t, k, Some(i), v, l1);
    let t1 = tab_set(t, k, Some(i), v, l1)->Ok_0;
    lemma_frame_of(t1, k, t1.len() as int);
    let f1 = frame_of(t1, k, t1.len() as int)->0;
    lemma_find(t1[f1], k);
    lemma_tab_set_effect(t1, k, Some(j), w, l2);
}

/// Plain assignments append to the history in order: three of them add the
/// three records, oldest first, after what was there.
pub proof fn lemma_history_order(
    t: TabV,
    k: Seq<char>,
    v1: Val,
    l1: Option<usize>,
    v2: Val,
    l2: Option<usize>,
    v3: Val,
    l3: Option<usize>,
)
    requires
        binding(t, k) is Some,
    ensures
        ({
            let r1 = tab_set(t, k, None, v1, l1);
            let r2 = tab_set(r1->Ok_0, k, None, v2, l2);
            let r3 = tab_set(r2->Ok_0, k, None, v3, l3);
            &&& r1 is Ok
            &&& r2 is Ok
            &&& r3 is Ok
            &&& (binding(r3->Ok_0, k)->0).2 == (binding(t, k)->0).2 + seq![(Some(v1), l1), (Some(v2), l2), (Some(v3), l3)]
        }),
{
    lemma_frame_of(t, k, t.len() as int);
    lemma_find(t[frame_of(t, k, t.len() as int)->0], k);
    lemma_tab_set_effect(t, k, None, v1, l1);
    let t1 = tab_set(t, k, None, v1, l1)->Ok_0;
    lemma_frame_of(t1, k, t1.len() as int);
    lemma_find(t1[frame_of(t1, k, t1.len() as int)->0], k);
    lemma_tab_set_effect(t1, k, None, v2, l2);
    let t2 = tab_set(t1, k, None, v2, l2)->Ok_0;
    lemma_frame_of(t2, k, t2.len() as int);
    lemma_find(t2[frame_of(t2, k, t2.len() as int)->0], k);
    lemma_tab_set_effect(t2, k, None, v3, l3);
    let t3 = tab_set(t2, k, None, v3, l3)->Ok_0;
    assert((binding(t3, k)->0).2 =~= (binding(t, k)->0).2 + seq![(Some(v1), l1), (Some(v2), l2), (Some(v3), l3)]);
}

/// Position of `k` among the names of a frame.
fn find_in(frame: &Vec<(String, SymEntry)>, k: &String) -> (r: Option<usize>)
    ensures
        match r {
            Some(j) => j < frame.len() && find(frame_view(frame@), k@) == Some(j as int),
            None => find(frame_view(frame@), k@) is None,
        },
{
    let ghost fv = frame_view(frame@);
    let mut i: usize = frame.len();
    assert(fv.subrange(0, i as int) =~= fv);
    while i > 0
        invariant
            i <= frame.len(),
            fv == frame_view(frame@),
            find(fv, k@) == find(fv.subrange(0, i as int), k@),
        decreases i,
    {
        let ghost sub = fv.subrange(0, i as int);
        assert(sub.drop_last() =~= fv.subrange(0, i - 1));
        if frame[i - 1].0 == *k {
            return Some(i - 1);
        }
        i -= 1;
    }
    assert(fv.subrange(0, 0).len() == 0);
    None
}


/// Message for index `i` outside `0..n`.
pub fn bounds_message(i: u64, n: u64) -> (r: String)
    ensures
        r@ == bounds_text(i as int, n as int),
{
    let a = nat_string(i);
    let b = nat_string(n);
    let mut s = join3("Index ", a.as_str(), " out of bounds (range: 0..");
    s.append(b.as_str());
    s.append(")");
    s
}

/// A copy of an optional value.
pub fn copy_opt(o: &Option<SymVal>) -> (r: Option<SymVal>)
    ensures
        opt_view(r) == opt_view(*o),
{
    match o {
        Some(v) => Some(v.deep_copy()),
        None => None,
    }
}

/// The current value of an entry, copied.
fn current_of(e: &SymEntry) -> (r: Option<SymVal>)
    ensures
        opt_view(r) == current(entry_view(*e)),
{
    let h = &e.2;
    if h.len() == 0 {
        None
    } else {
        copy_opt(&h[h.len() - 1].0)
    }
}

/// A copy of `a` with `v` at index `i`.
fn replaced(a: &Vec<Box<SymVal>>, i: usize, v: SymVal) -> (r: Vec<Box<SymVal>>)
    requires
        i < a.len(),
    ensures
        SymVal::Array(r)@ == Val::Array(SymVal::Array(*a)@->Array_0.update(i as int, v@)),
{
    let mut out: Vec<Box<SymVal>> = Vec::new();
    let mut k: usize = 0;
    while k < a.len()
        invariant
            k <= a.len(),
            out.len() == k,
            forall|j: int| 0 <= j < k ==> out[j]@ == a[j]@,
        decreases a.len() - k,
    {
        out.push(Box::new(a[k].deep_copy()));
        k += 1;
    }
    out[i] = Box::new(v);
    assert(SymVal::Array(out)@->Array_0 =~= SymVal::Array(*a)@->Array_0.update(i as int, v@));
    out
}

/// An array of `n` slots holding `v` at `i` and `Int(0)` elsewhere.
fn materialize(n: usize, i: usize, v: SymVal) -> (r: Vec<Box<SymVal>>)
    requires
        i < n,
    ensures
        SymVal::Array(r)@ == Val::Array(materialized(n as nat, i as int, v@)),
{
    let mut out: Vec<Box<SymVal>> = Vec::new();
    let mut k: usize = 0;
    while k < n
        invariant
            k <= n,
            out.len() == k,
            forall|j: int| 0 <= j < k ==> out[j]@ == Val::Int(0),
        decreases n - k,
    {
        out.push(Box::new(SymVal::Int(0)));
        k += 1;
    }
    out[i] = Box::new(v);
    assert(SymVal::Array(out)@->Array_0 =~= materialized(n as nat, i as int, v@));
    out
}

/// The value an entry holds once `v` is assigned to it (at `idx`, if given).
fn assign_value(e: &SymEntry, key: &str, idx: Option<usize>, v: SymVal) -> (r: Result<SymVal, String>)
    ensures
        match assigned_value(entry_view(*e), idx, v@) {
            Ok(x) => r matches Ok(y) && y@ == x,
            Err(x) => r matches Err(m) && m@ == set_err_text(key@, x),
        },
{
    match idx {
        None => Ok(v),
        Some(i) => {
            let h = &e.2;
            let cur: Option<&SymVal> = if h.len() == 0 {
                None
            } else {
                match &h[h.len() - 1].0 {
                    Some(x) => Some(x),
                    None => None,
                }
            };
            assert(current(entry_view(*e)) == match cur { Some(x) => Some(x@), None => None::<Val> });
            match cur {
                Some(SymVal::Array(a)) => {
                    if i < a.len() {
                        Ok(SymVal::Array(replaced(a, i, v)))
                    } else {
                        Err(bounds_message(i as u64, a.len() as u64))
                    }
                },
                Some(_) => Err(join3("Variable '", key, "' is not an array")),
                None => match e.1 {
                    Some(n) => {
                        if i < n {
                            Ok(SymVal::Array(materialize(n, i, v)))
                        } else {
                            Err(bounds_message(i as u64, n as u64))
                        }
                    },
                    None => Err(join3("Variable '", key, "' is not an array")),
                },
            }
        },
    }
}


/// A stack of frames, innermost last. Names are declared in the innermost
/// frame, and looked up and assigned in the innermost frame that binds them.
pub struct SymTab {
    stack: Vec<Vec<(String, SymEntry)>>,
}

impl SymTab {
    pub closed spec fn view(&self) -> TabV {
        Seq::new(self.stack.len() as nat, |i: int| frame_view(self.stack[i]@))
    }

    /// A table always has an innermost frame, and no frame binds a name twice.
    pub open spec fn wf(&self) -> bool {
        &&& self@.len() >= 1
        &&& forall|i: int| 0 <= i < self@.len() ==> unique_keys(#[trigger] self@[i])
    }

    /// Model of the innermost frame.
    pub open spec fn top(&self) -> FrameV {
        self@.last()
    }

    /// A table with one empty frame.
    pub fn new() -> (r: SymTab)
        ensures
            r@ == seq![FrameV::empty()],
            r.wf(),
    {
        let mut stack: Vec<Vec<(String, SymEntry)>> = Vec::new();
        stack.push(Vec::new());
        let r = SymTab { stack };
        assert(r@ =~= seq![FrameV::empty()]) by {
            assert(frame_view(r.stack[0]@) =~= FrameV::empty());
        }
        r
    }

    /// The innermost of the first `n` frames that binds `k`, and the position there.
    fn locate(&self, k: &String, n: usize) -> (r: Option<(usize, usize)>)
        requires
            n <= self.stack.len(),
        ensures
            match frame_of(self@, k@, n as int) {
                Some(f) => r matches Some((fi, j)) && fi == f && fi < self.stack.len() && j < self.stack[fi as int].len()
                    && find(self@[f], k@) == Some(j as int) && self@[f] == frame_view(self.stack[fi as int]@),
                None => r is None,
            },
    {
        let mut m: usize = n;
        while m > 0
            invariant
                m <= n <= self.stack.len(),
                frame_of(self@, k@, n as int) == frame_of(self@, k@, m as int),
            decreases m,
        {
            let f = &self.stack[m - 1];
            assert(self@[m - 1] == frame_view(f@));
            match find_in(f, k) {
                Some(j) => {
                    return Some((m - 1, j));
                },
                None => {},
            }
            m -= 1;
        }
        None
    }

    /// Declared type and array size of `key`, from the innermost frame that binds it.
    pub fn get_type(&self, key: &str) -> (r: Option<(CType, Option<usize>)>)
        requires
            self.wf(),
        ensures
            r == match binding(self@, key@) {
                Some(e) => Some((e.0, e.1)),
                None => None,
            },
    {
        let k = String::from_str(key);
        match self.locate(&k, self.stack.len()) {
            Some((fi, j)) => {
                let e = &self.stack[fi][j].1;
                Some((copy_type(&e.0), e.1))
            },
            None => None,
        }
    }

    /// Current value of `key`, from the innermost frame that binds it.
    pub fn get_val(&self, key: &str) -> (r: Option<SymVal>)
        requires
            self.wf(),
        ensures
            opt_view(r) == value_below(self@, key@, self@.len() as int),
    {
        let k = String::from_str(key);
        match self.locate(&k, self.stack.len()) {
            Some((fi, j)) => current_of(&self.stack[fi][j].1),
            None => None,
        }
    }

    /// Current value of `key` in the nearest enclosing frame that binds it,
    /// the innermost frame left out.
    pub fn get_val_parent(&self, key: &str) -> (r: Option<SymVal>)
        requires
            self.wf(),
        ensures
            opt_view(r) == value_below(self@, key@, self@.len() - 1),
    {
        let k = String::from_str(key);
        match self.locate(&k, self.stack.len() - 1) {
            Some((fi, j)) => current_of(&self.stack[fi][j].1),
            None => None,
        }
    }

    /// Whether the innermost frame binds `key`, and if so its current value.
    pub fn get_local(&self, key: &str) -> (r: Option<Option<SymVal>>)
        requires
            self.wf(),
        ensures
            match lookup(self.top(), key@) {
                Some(e) => r matches Some(v) && opt_view(v) == current(e),
                None => r is None,
            },
    {
        let k = String::from_str(key);
        let f = &self.stack[self.stack.len() - 1];
        match find_in(f, &k) {
            Some(j) => Some(current_of(&f[j].1)),
            None => None,
        }
    }

    /// The whole history of `key`, oldest first, from the innermost frame that binds it.
    pub fn get_trace(&self, key: &str) -> (r: Option<Hist>)
        requires
            self.wf(),
        ensures
            match binding(self@, key@) {
                Some(e) => r matches Some(h) && hist_view(h@) == e.2,
                None => r is None,
            },
    {
        let k = String::from_str(key);
        match self.locate(&k, self.stack.len()) {
            Some((fi, j)) => {
                let h = &self.stack[fi][j].1.2;
                let mut out: Hist = Vec::new();
                let mut i: usize = 0;
                while i < h.len()
                    invariant
                        i <= h.len(),
                        out.len() == i,
                        forall|x: int| 0 <= x < i ==> opt_view(#[trigger] out[x].0) == opt_view(h[x].0) && out[x].1 == h[x].1,
                    decreases h.len() - i,
                {
                    out.push((copy_opt(&h[i].0), h[i].1));
                    i += 1;
                }
                assert(hist_view(out@) =~= hist_view(h@));
                Some(out)
            },
            None => None,
        }
    }

    /// Binds `key` in the innermost frame to a fresh entry whose history is
    /// the one record `(val, loc)`; returns the entry it replaced.
    pub fn insert(&mut self, key: &str, t: CType, s: Option<usize>, val: Option<SymVal>, loc: Option<usize>) -> (r: Option<SymEntry>)
        requires
            old(self).wf(),
        ensures
            final(self).wf(),
            final(self)@ == old(self)@.update(
                old(self)@.len() - 1,
                frame_insert(old(self).top(), key@, fresh_entry(t, s, opt_view(val), loc)),
            ),
            match r {
                Some(e) => lookup(old(self).top(), key@) == Some(entry_view(e)),
                None => lookup(old(self).top(), key@) is None,
            },
    {
        let k = String::from_str(key);
        let ghost t0 = t;
        let ghost v0 = opt_view(val);
        let mut h: Hist = Vec::new();
        h.push((val, loc));
        let entry: SymEntry = (t, s, h);
        assert(entry_view(entry) == fresh_entry(t0, s, v0, loc)) by {
            assert(hist_view(entry.2@) =~= seq![(v0, loc)]);
        }
        let n = self.stack.len();
        let mut frame = self.stack.pop().unwrap();
        let ghost fv = frame_view(frame@);
        let r = match find_in(&frame, &k) {
            Some(j) => {
                let old_entry = frame.remove(j);
                frame.insert(j, (k, entry));
                assert(frame_view(frame@) =~= fv.update(j as int, (key@, fresh_entry(t0, s, v0, loc))));
                Some(old_entry.1)
            },
            None => {
                frame.push((k, entry));
                assert(frame_view(frame@) =~= fv.push((key@, fresh_entry(t0, s, v0, loc))));
                None
            },
        };
        let ghost nf = frame_insert(fv, key@, fresh_entry(t0, s, v0, loc));
        proof {
            lemma_find(fv, key@);
            lemma_find_none(fv, key@);
            assert(unique_keys(old(self)@[n - 1]));
            assert forall|a: int, b: int| 0 <= a < b < nf.len() implies nf[a].0 != nf[b].0 by {
                if b < fv.len() {
                    assert(nf[a].0 == fv[a].0 && nf[b].0 == fv[b].0);
                }
            }
        }
        self.stack.push(frame);
        assert(self@ =~= old(self)@.update(n - 1, nf));
        proof {
            assert forall|x: int| 0 <= x < self@.len() implies unique_keys(#[trigger] self@[x]) by {
                if x != n - 1 {
                    assert(self@[x] == old(self)@[x]);
                }
            }
        }
        r
    }

    /// Assigns `val` to `key` in the innermost frame that binds it, at index
    /// `i` if given, and appends the new value with `loc` to its history.
    pub fn set_val(&mut self, key: &str, i: Option<usize>, val: SymVal, loc: Option<usize>) -> (r: Result<(), String>)
        requires
            old(self).wf(),
        ensures
            final(self).wf(),
            match tab_set(old(self)@, key@, i, val@, loc) {
                Ok(t) => r is Ok && final(self)@ == t,
                Err(e) => r matches Err(m) && m@ == set_err_text(key@, e) && final(self)@ == old(self)@,
            },
    {
        let k = String::from_str(key);
        let (fi, j) = match self.locate(&k, self.stack.len()) {
            Some(x) => x,
            None => {
                return Err(join3("Variable '", key, "' not declared"));
            },
        };
        let nv = match assign_value(&self.stack[fi][j].1, key, i, val) {
            Ok(x) => x,
            Err(m) => {
                return Err(m);
            },
        };
        let mut frame = self.stack.remove(fi);
        let ghost fv = frame_view(frame@);
        proof {
            lemma_find(fv, key@);
        }
        let (name, entry) = frame.remove(j);
        let (t, s, mut h) = entry;
        let ghost hv = hist_view(h@);
        let ghost nvv = nv@;
        h.push((Some(nv), loc));
        assert(hist_view(h@) =~= hv.push((Some(nvv), loc)));
        frame.insert(j, (name, (t, s, h)));
        let ghost nf = fv.update(j as int, (key@, (fv[j as int].1.0, fv[j as int].1.1, hv.push((Some(nvv), loc)))));
        assert(frame_view(frame@) =~= nf);
        self.stack.insert(fi, frame);
        assert(self@ =~= old(self)@.update(fi as int, nf));
        proof {
            assert forall|x: int| 0 <= x < self@.len() implies unique_keys(#[trigger] self@[x]) by {
                if x == fi {
                    assert(unique_keys(old(self)@[x]));
                    assert forall|a: int, b: int| 0 <= a < b < nf.len() implies nf[a].0 != nf[b].0 by {
                        assert(nf[a].0 == fv[a].0 && nf[b].0 == fv[b].0);
                    }
                } else {
                    assert(self@[x] == old(self)@[x]);
                }
            }
        }
        Ok(())
    }

    /// Opens a new innermost frame.
    pub fn push_frame(&mut self)
        requires
            old(self).wf(),
        ensures
            final(self).wf(),
            final(self)@ == old(self)@.push(FrameV::empty()),
    {
        self.stack.push(Vec::new());
        assert(frame_view(self.stack[self.stack.len() - 1]@) =~= FrameV::empty());
        assert(self@ =~= old(self)@.push(FrameV::empty()));
        assert forall|x: int| 0 <= x < self@.len() implies unique_keys(#[trigger] self@[x]) by {
            if x < old(self)@.len() {
                assert(self@[x] == old(self)@[x]);
            }
        }
    }

    /// Closes the innermost frame; the outermost one cannot be closed.
    pub fn pop_frame(&mut self) -> (r: Result<(), CError>)
        requires
            old(self).wf(),
        ensures
            final(self).wf(),
            old(self)@.len() > 1 ==> r is Ok && final(self)@ == old(self)@.drop_last(),
            old(self)@.len() <= 1 ==> (r matches Err(e) && err_view(e) == ErrV::Unknown(pop_text())),
            old(self)@.len() <= 1 ==> final(self)@ == old(self)@,
    {
        if self.stack.len() <= 1 {
            return Err(CError::UnknownError(String::from_str("Cannot pop the outermost frame of a symbol table")));
        }
        self.stack.pop();
        assert(self@ =~= old(self)@.drop_last());
        assert forall|x: int| 0 <= x < self@.len() implies unique_keys(#[trigger] self@[x]) by {
            assert(self@[x] == old(self)@[x]);
        }
        Ok(())
    }
}


/// A function-table entry: the prototype and, once defined, the definition.
pub type FuncEntry<'a> = (&'a CProto, Option<&'a CFunc>);

pub type FuncsV = Seq<(Seq<char>, (CProto, Option<CFunc>))>;

/// The function table: one flat scope, every function global.
pub struct FuncTab<'a> {
    tab: Vec<(String, FuncEntry<'a>)>,
}

pub open spec fn func_entry_view(e: FuncEntry) -> (CProto, Option<CFunc>) {
    (*e.0, match e.1 {
        Some(f) => Some(*f),
        None => None,
    })
}

impl<'a> FuncTab<'a> {
    pub closed spec fn view(&self) -> FuncsV {
        Seq::new(self.tab.len() as nat, |i: int| (self.tab[i].0@, func_entry_view(self.tab[i].1)))
    }

    /// No function is registered twice.
    pub open spec fn wf(&self) -> bool {
        unique_keys(self@)
    }

    /// An empty table.
    pub fn new() -> (r: FuncTab<'a>)
        ensures
            r@ == FuncsV::empty(),
            r.wf(),
    {
        let r = FuncTab { tab: Vec::new() };
        assert(r@ =~= FuncsV::empty());
        r
    }

    fn position(&self, k: &String) -> (r: Option<usize>)
        ensures
            match r {
                Some(j) => j < self.tab.len() && find(self@, k@) == Some(j as int),
                None => find(self@, k@) is None,
            },
    {
        let mut i: usize = self.tab.len();
        assert(self@.subrange(0, i as int) =~= self@);
        while i > 0
            invariant
                i <= self.tab.len(),
                find(self@, k@) == find(self@.subrange(0, i as int), k@),
            decreases i,
        {
            assert(self@.subrange(0, i as int).drop_last() =~= self@.subrange(0, i - 1));
            if self.tab[i - 1].0 == *k {
                return Some(i - 1);
            }
            i -= 1;
        }
        assert(self@.subrange(0, 0).len() == 0);
        None
    }

    /// The prototype registered under `key`.
    pub fn get_proto(&self, key: &str) -> (r: Option<&'a CProto>)
        ensures
            match lookup(self@, key@) {
                Some(e) => r matches Some(p) && *p == e.0,
                None => r is None,
            },
    {
        let k = String::from_str(key);
        match self.position(&k) {
            Some(j) => Some(self.tab[j].1.0),
            None => None,
        }
    }

    /// The definition registered under `key`, if it has one.
    pub fn get_func(&self, key: &str) -> (r: Option<&'a CFunc>)
        ensures
            match lookup(self@, key@) {
                Some(e) => match e.1 {
                    Some(f) => r matches Some(g) && *g == f,
                    None => r is None,
                },
                None => r is None,
            },
    {
        let k = String::from_str(key);
        match self.position(&k) {
            Some(j) => self.tab[j].1.1,
            None => None,
        }
    }

    /// Registers `key`, replacing and returning an earlier entry of that name.
    pub fn insert(&mut self, key: &str, proto: &'a CProto, func: Option<&'a CFunc>) -> (r: Option<FuncEntry<'a>>)
        requires
            old(self).wf(),
        ensures
            final(self).wf(),
            final(self)@ == frame_insert(old(self)@, key@, func_entry_view((proto, func))),
            match r {
                Some(e) => lookup(old(self)@, key@) == Some(func_entry_view(e)),
                None => lookup(old(self)@, key@) is None,
            },
    {
        let k = String::from_str(key);
        proof {
            lemma_find(old(self)@, key@);
            lemma_find_none(old(self)@, key@);
        }
        match self.position(&k) {
            Some(j) => {
                let old_entry = self.tab.remove(j);
                self.tab.insert(j, (k, (proto, func)));
                assert(self@ =~= old(self)@.update(j as int, (key@, func_entry_view((proto, func)))));
                assert forall|a: int, b: int| 0 <= a < b < self@.len() implies self@[a].0 != self@[b].0 by {
                    assert(self@[a].0 == old(self)@[a].0 && self@[b].0 == old(self)@[b].0);
                }
                Some(old_entry.1)
            },
            None => {
                self.tab.push((k, (proto, func)));
                assert(self@ =~= old(self)@.push((key@, func_entry_view((proto, func)))));
                None
            },
        }
    }
}

} // verus!
