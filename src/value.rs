//! Runtime values and their mathematical model.
use vstd::prelude::*;

verus! {

broadcast use vstd::std_specs::vec::axiom_vec_index_decreases;

/// A runtime value. `Float` holds an IEEE-754 single-precision bit pattern.
/// Strings are arrays of `Char` ending in a NUL character.
#[derive(Debug, PartialEq)]
pub enum SymVal {
    Int(i32),
    Float(u32),
    Char(char),
    Bool(bool),
    Array(Vec<Box<SymVal>>),
}

/// The mathematical model of a runtime value.
pub enum Val {
    Int(i32),
    Float(u32),
    Char(char),
    Bool(bool),
    Array(Seq<Val>),
}

impl SymVal {
    pub open spec fn view(&self) -> Val
        decreases self,
    {
        match self {
            SymVal::Int(i) => Val::Int(*i),
            SymVal::Float(f) => Val::Float(*f),
            SymVal::Char(c) => Val::Char(*c),
            SymVal::Bool(b) => Val::Bool(*b),
            SymVal::Array(a) => Val::Array(
                Seq::new(a.len() as nat, |i: int| if 0 <= i < a.len() { a[i].view() } else { Val::Int(0) }),
            ),
        }
    }

    /// A copy of this value, element by element.
    pub fn deep_copy(&self) -> (r: SymVal)
        ensures
            r@ == self@,
        decreases self@,
    {
        match self {
            SymVal::Int(i) => SymVal::Int(*i),
            SymVal::Float(f) => SymVal::Float(*f),
            SymVal::Char(c) => SymVal::Char(*c),
            SymVal::Bool(b) => SymVal::Bool(*b),
            SymVal::Array(a) => {
                let mut out: Vec<Box<SymVal>> = Vec::new();
                let mut i: usize = 0;
                while i < a.len()
                    invariant
                        *self == SymVal::Array(*a),
                        i <= a.len(),
                        out.len() == i,
                        forall|j: int| 0 <= j < i ==> out[j]@ == a[j]@,
                    decreases a.len() - i,
                {
                    let elem: &SymVal = &a[i];
                    proof {
                        let s = self@->Array_0;
                        assert(s[i as int] == elem@);
                        assert(decreases_to!(self@ => elem@));
                    }
                    out.push(Box::new(elem.deep_copy()));
                    i += 1;
                }
                let r = SymVal::Array(out);
                assert(r@->Array_0 =~= self@->Array_0);
                r
            },
        }
    }
}

} // verus!
