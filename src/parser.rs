//! A recursive-descent parser from tokens to the syntax tree.
//!
//! Grammar: a program is a sequence of global declarations (`int x, y[4];`),
//! prototypes (`int f(int a), g(char b);`) and definitions. Statements are
//! blocks, declarations with optional initialisers, assignments, calls,
//! `return`, `if`/`else`, `while`, `for` (rewritten into `while`) and
//! `printf(e);`. An array declared with a size has the reference type of
//! its element. Expressions use the usual precedence, binary operators
//! grouping to the left: `||`, `&&`, `== !=`, `< <= > >=`, `+ -`, `* /`,
//! then unary `-` and `!`.
use crate::ast::{CExpr, CFunc, COp, CProg, CProgElem, CProto, CStmt, CType};
use crate::error::CError;
use crate::lexer::{lex, Keyword, Punct, Token};
use vstd::prelude::*;
use vstd::string::StringExecFns;

verus! {

/// The tokens of a program, the offset of each, and the program's length.
pub struct Toks {
    toks: Vec<Token>,
    locs: Vec<usize>,
    end: usize,
}

/// A parse step: on success the position moved forward within the tokens;
/// every failure is a `ParseError`.
pub open spec fn advanced<X>(r: Result<(X, usize), CError>, pos: usize, n: nat) -> bool {
    match r {
        Ok((_, p)) => pos < p <= n,
        Err(e) => e is ParseError,
    }
}

impl Toks {
    pub closed spec fn len(&self) -> nat {
        self.toks.len() as nat
    }

    pub closed spec fn wf(&self) -> bool {
        self.toks.len() == self.locs.len()
    }

    fn count(&self) -> (r: usize)
        ensures
            r == self.len(),
    {
        self.toks.len()
    }

    fn punct(&self, pos: usize) -> (r: Option<Punct>)
        ensures
            r is Some ==> pos < self.len(),
    {
        if pos < self.toks.len() {
            match &self.toks[pos] {
                Token::P(p) => Some(*p),
                _ => None,
            }
        } else {
            None
        }
    }

    fn is(&self, pos: usize, p: Punct) -> (r: bool)
        ensures
            r ==> pos < self.len(),
    {
        match self.punct(pos) {
            Some(q) => q == p,
            None => false,
        }
    }

    fn keyword(&self, pos: usize) -> (r: Option<Keyword>)
        ensures
            r is Some ==> pos < self.len(),
    {
        if pos < self.toks.len() {
            match &self.toks[pos] {
                Token::Kw(k) => Some(*k),
                _ => None,
            }
        } else {
            None
        }
    }

    /// Byte offset of the token at `pos`, or the end of the program.
    fn loc(&self, pos: usize) -> usize
        requires
            self.wf(),
    {
        if pos < self.locs.len() {
            self.locs[pos]
        } else {
            self.end
        }
    }

    fn fail(&self, pos: usize) -> (r: CError)
        requires
            self.wf(),
        ensures
            r is ParseError,
    {
        if pos < self.toks.len() {
            CError::ParseError(String::from_str("Unexpected token"), self.locs[pos])
        } else {
            CError::ParseError(String::from_str("Unexpected end of input"), self.end)
        }
    }

    fn expect(&self, pos: usize, p: Punct) -> (r: Result<usize, CError>)
        requires
            self.wf(),
        ensures
            match r {
                Ok(q) => q == pos + 1 && q <= self.len(),
                Err(e) => e is ParseError,
            },
    {
        if self.is(pos, p) {
            Ok(pos + 1)
        } else {
            Err(self.fail(pos))
        }
    }

    fn ident(&self, pos: usize) -> (r: Result<(String, usize), CError>)
        requires
            self.wf(),
        ensures
            advanced(r, pos, self.len()),
    {
        if pos < self.toks.len() {
            match &self.toks[pos] {
                Token::Ident(s) => {
                    return Ok((s.clone(), pos + 1));
                },
                _ => {},
            }
        }
        Err(self.fail(pos))
    }

    /// `int`, `char` or `float` at `pos`.
    fn base_type(&self, pos: usize) -> (r: Option<CType>)
        ensures
            r is Some ==> pos < self.len(),
    {
        match self.keyword(pos) {
            Some(Keyword::Int) => Some(CType::Int),
            Some(Keyword::Char) => Some(CType::Char),
            Some(Keyword::Float) => Some(CType::Float),
            _ => None,
        }
    }
}

fn level_op(p: Punct, level: u64) -> Option<COp> {
    if level == 0 {
        match p {
            Punct::OrOr => Some(COp::Or),
            _ => None,
        }
    } else if level == 1 {
        match p {
            Punct::AndAnd => Some(COp::And),
            _ => None,
        }
    } else if level == 2 {
        match p {
            Punct::EqEq => Some(COp::Eq),
            Punct::NotEq => Some(COp::Neq),
            _ => None,
        }
    } else if level == 3 {
        match p {
            Punct::Lt => Some(COp::Lt),
            Punct::Le => Some(COp::Lte),
            Punct::Gt => Some(COp::Gt),
            Punct::Ge => Some(COp::Gte),
            _ => None,
        }
    } else if level == 4 {
        match p {
            Punct::Plus => Some(COp::Add),
            Punct::Minus => Some(COp::Sub),
            _ => None,
        }
    } else {
        match p {
            Punct::Star => Some(COp::Mul),
            Punct::Slash => Some(COp::Div),
            _ => None,
        }
    }
}

/// Binary operators of precedence `level` and tighter.
fn parse_level(t: &Toks, level: u64, pos: usize) -> (r: Result<(CExpr, usize), CError>)
    requires
        t.wf(),
        level <= 6,
    ensures
        advanced(r, pos, t.len()),
    decreases t.len() - pos, 10 - level,
{
    if level >= 6 {
        return parse_unary(t, pos);
    }
    let (mut lhs, mut p) = match parse_level(t, level + 1, pos) {
        Ok(x) => x,
        Err(e) => {
            return Err(e);
        },
    };
    while p < t.count()
        invariant
            t.wf(),
            level < 6,
            pos < p <= t.len(),
        decreases t.len() - p,
    {
        let op = match t.punct(p) {
            Some(q) => level_op(q, level),
            None => None,
        };
        match op {
            Some(op) => {
                let l = t.loc(p);
                let (rhs, rest) = match parse_level(t, level + 1, p + 1) {
                    Ok(x) => x,
                    Err(e) => {
                        return Err(e);
                    },
                };
                lhs = CExpr::BinOp((l, 0), op, Box::new(lhs), Box::new(rhs));
                p = rest;
            },
            None => {
                break;
            },
        }
    }
    Ok((lhs, p))
}

fn parse_unary(t: &Toks, pos: usize) -> (r: Result<(CExpr, usize), CError>)
    requires
        t.wf(),
    ensures
        advanced(r, pos, t.len()),
    decreases t.len() - pos, 3u64,
{
    let op = if t.is(pos, Punct::Minus) {
        Some(COp::Neg)
    } else if t.is(pos, Punct::Bang) {
        Some(COp::Not)
    } else {
        None
    };
    match op {
        Some(op) => match parse_unary(t, pos + 1) {
            Ok((e, p)) => Ok((CExpr::UnOp((t.loc(pos), 0), op, Box::new(e)), p)),
            Err(e) => Err(e),
        },
        None => parse_primary(t, pos),
    }
}

/// Comma-separated arguments after `(`, up to and including `)`.
fn parse_args(t: &Toks, pos: usize) -> (r: Result<(Vec<CExpr>, usize), CError>)
    requires
        t.wf(),
    ensures
        advanced(r, pos, t.len()),
    decreases t.len() - pos, 12u64,
{
    let mut args: Vec<CExpr> = Vec::new();
    if pos >= t.count() {
        return Err(t.fail(pos));
    }
    if t.is(pos, Punct::RParen) {
        return Ok((args, pos + 1));
    }
    let mut p = pos;
    loop
        invariant
            t.wf(),
            pos <= p <= t.len(),
        decreases t.len() - p,
    {
        let (e, rest) = match parse_level(t, 0, p) {
            Ok(x) => x,
            Err(e) => {
                return Err(e);
            },
        };
        args.push(e);
        if t.is(rest, Punct::Comma) {
            p = rest + 1;
        } else if t.is(rest, Punct::RParen) {
            return Ok((args, rest + 1));
        } else {
            return Err(t.fail(rest));
        }
    }
}

fn parse_primary(t: &Toks, pos: usize) -> (r: Result<(CExpr, usize), CError>)
    requires
        t.wf(),
    ensures
        advanced(r, pos, t.len()),
    decreases t.len() - pos, 2u64,
{
    if pos >= t.count() {
        return Err(t.fail(pos));
    }
    let l = (t.loc(pos), 0);
    match &t.toks[pos] {
        Token::Num(i) => Ok((CExpr::Int(l, *i), pos + 1)),
        Token::Real(f) => Ok((CExpr::Float(l, *f), pos + 1)),
        Token::Chr(c) => Ok((CExpr::Char(l, *c), pos + 1)),
        Token::Text(v) => Ok((CExpr::Str(l, v.clone()), pos + 1)),
        Token::Ident(name) => {
            if t.is(pos + 1, Punct::LParen) {
                match parse_args(t, pos + 2) {
                    Ok((args, p)) => Ok((CExpr::Call(l, name.clone(), args), p)),
                    Err(e) => Err(e),
                }
            } else if t.is(pos + 1, Punct::LBrack) {
                let (ie, p) = match parse_level(t, 0, pos + 2) {
                    Ok(x) => x,
                    Err(e) => {
                        return Err(e);
                    },
                };
                match t.expect(p, Punct::RBrack) {
                    Ok(q) => Ok((CExpr::Index(l, name.clone(), Box::new(ie)), q)),
                    Err(e) => Err(e),
                }
            } else {
                Ok((CExpr::Ident(l, name.clone()), pos + 1))
            }
        },
        Token::P(Punct::LParen) => {
            let (e, p) = match parse_level(t, 0, pos + 1) {
                Ok(x) => x,
                Err(e) => {
                    return Err(e);
                },
            };
            match t.expect(p, Punct::RParen) {
                Ok(q) => Ok((e, q)),
                Err(e) => Err(e),
            }
        },
        _ => Err(t.fail(pos)),
    }
}

/// An assignment or a call, without the closing `;`.
fn parse_simple(t: &Toks, pos: usize) -> (r: Result<(CStmt, usize), CError>)
    requires
        t.wf(),
    ensures
        advanced(r, pos, t.len()),
    decreases t.len() - pos, 5u64,
{
    let l = (t.loc(pos), 0);
    let (name, p) = match t.ident(pos) {
        Ok(x) => x,
        Err(e) => {
            return Err(e);
        },
    };
    if t.is(p, Punct::LParen) {
        return match parse_args(t, p + 1) {
            Ok((args, q)) => Ok((CStmt::Call(l, name, args), q)),
            Err(e) => Err(e),
        };
    }
    let (idx, p) = if t.is(p, Punct::LBrack) {
        let (ie, rest) = match parse_level(t, 0, p + 1) {
            Ok(x) => x,
            Err(e) => {
                return Err(e);
            },
        };
        match t.expect(rest, Punct::RBrack) {
            Ok(q) => (Some(ie), q),
            Err(e) => {
                return Err(e);
            },
        }
    } else {
        (None, p)
    };
    let p = match t.expect(p, Punct::Assign) {
        Ok(q) => q,
        Err(e) => {
            return Err(e);
        },
    };
    match parse_level(t, 0, p) {
        Ok((e, q)) => Ok((CStmt::Assign(l, name, idx, e), q)),
        Err(e) => Err(e),
    }
}

/// Local declarations: `T a, b[n] = e, ...;`, each initialiser an assignment after it.
fn parse_local_decl(t: &Toks, ty: CType, pos: usize) -> (r: Result<(Vec<CStmt>, usize), CError>)
    requires
        t.wf(),
    ensures
        advanced(r, pos, t.len()),
    decreases t.len() - pos, 5u64,
{
    if pos >= t.count() {
        return Err(t.fail(pos));
    }
    let mut out: Vec<CStmt> = Vec::new();
    let mut p = pos;
    loop
        invariant
            t.wf(),
            pos <= p <= t.len(),
        decreases t.len() - p,
    {
        let l = (t.loc(p), 0);
        let (name, after) = match t.ident(p) {
            Ok(x) => x,
            Err(e) => {
                return Err(e);
            },
        };
        let mut q = after;
        let mut dty = crate::ast::copy_type(&ty);
        let mut size: Option<CExpr> = None;
        if t.is(q, Punct::LBrack) {
            dty = CType::Ref(Box::new(dty));
            if t.is(q + 1, Punct::RBrack) {
                q = q + 2;
            } else {
                let (e, rest) = match parse_level(t, 0, q + 1) {
                    Ok(x) => x,
                    Err(e) => {
                        return Err(e);
                    },
                };
                q = match t.expect(rest, Punct::RBrack) {
                    Ok(x) => x,
                    Err(e) => {
                        return Err(e);
                    },
                };
                size = Some(e);
            }
        }
        out.push(CStmt::Decl(l, dty, name.clone(), size));
        if t.is(q, Punct::Assign) {
            let (e, q2) = match parse_level(t, 0, q + 1) {
                Ok(x) => x,
                Err(e) => {
                    return Err(e);
                },
            };
            out.push(CStmt::Assign(l, name, None, e));
            q = q2;
        }
        if t.is(q, Punct::Comma) {
            p = q + 1;
        } else if t.is(q, Punct::Semi) {
            return Ok((out, q + 1));
        } else {
            return Err(t.fail(q));
        }
    }
}

/// One statement where a single one is expected.
fn single(mut v: Vec<CStmt>) -> CStmt {
    if v.len() == 1 {
        match v.pop() {
            Some(s) => s,
            None => CStmt::Block(Vec::new()),
        }
    } else {
        CStmt::Block(v)
    }
}

/// `true` as a condition: `0 == 0`.
fn always(l: (usize, usize)) -> CExpr {
    CExpr::BinOp(l, COp::Eq, Box::new(CExpr::Int(l, 0)), Box::new(CExpr::Int(l, 0)))
}

/// `( cond )` followed by a statement.
fn parse_cond_body(t: &Toks, pos: usize) -> (r: Result<(CExpr, CStmt, usize), CError>)
    requires
        t.wf(),
    ensures
        match r {
            Ok((_, _, p)) => pos < p <= t.len(),
            Err(e) => e is ParseError,
        },
    decreases t.len() - pos, 19u64,
{
    let p = match t.expect(pos, Punct::LParen) {
        Ok(x) => x,
        Err(e) => {
            return Err(e);
        },
    };
    let (c, p) = match parse_level(t, 0, p) {
        Ok(x) => x,
        Err(e) => {
            return Err(e);
        },
    };
    let p = match t.expect(p, Punct::RParen) {
        Ok(x) => x,
        Err(e) => {
            return Err(e);
        },
    };
    match stmt_at(t, p) {
        Ok((s, q)) => Ok((c, single(s), q)),
        Err(e) => Err(e),
    }
}

fn parse_for(t: &Toks, pos: usize) -> (r: Result<(Vec<CStmt>, usize), CError>)
    requires
        t.wf(),
    ensures
        advanced(r, pos, t.len()),
    decreases t.len() - pos, 19u64,
{
    let l = (t.loc(pos), 0);
    let mut p = match t.expect(pos, Punct::LParen) {
        Ok(x) => x,
        Err(e) => {
            return Err(e);
        },
    };
    let mut init: Option<CStmt> = None;
    if !t.is(p, Punct::Semi) {
        let (s, q) = match parse_simple(t, p) {
            Ok(x) => x,
            Err(e) => {
                return Err(e);
            },
        };
        init = Some(s);
        p = q;
    }
    p = match t.expect(p, Punct::Semi) {
        Ok(x) => x,
        Err(e) => {
            return Err(e);
        },
    };
    let mut cond = always(l);
    if !t.is(p, Punct::Semi) {
        let (c, q) = match parse_level(t, 0, p) {
            Ok(x) => x,
            Err(e) => {
                return Err(e);
            },
        };
        cond = c;
        p = q;
    }
    p = match t.expect(p, Punct::Semi) {
        Ok(x) => x,
        Err(e) => {
            return Err(e);
        },
    };
    let mut step: Option<CStmt> = None;
    if !t.is(p, Punct::RParen) {
        let (s, q) = match parse_simple(t, p) {
            Ok(x) => x,
            Err(e) => {
                return Err(e);
            },
        };
        step = Some(s);
        p = q;
    }
    p = match t.expect(p, Punct::RParen) {
        Ok(x) => x,
        Err(e) => {
            return Err(e);
        },
    };
    let (body, q) = match stmt_at(t, p) {
        Ok(x) => x,
        Err(e) => {
            return Err(e);
        },
    };
    let looped = match step {
        Some(s) => {
            let mut inner: Vec<CStmt> = Vec::new();
            inner.push(single(body));
            inner.push(s);
            CStmt::Block(inner)
        },
        None => single(body),
    };
    let mut out: Vec<CStmt> = Vec::new();
    match init {
        Some(s) => out.push(s),
        None => {},
    }
    out.push(CStmt::While(l, cond, Box::new(looped)));
    Ok((vec![CStmt::Block(out)], q))
}

/// A statement; declarations may give several.
fn stmt_at(t: &Toks, pos: usize) -> (r: Result<(Vec<CStmt>, usize), CError>)
    requires
        t.wf(),
    ensures
        advanced(r, pos, t.len()),
    decreases t.len() - pos, 20u64,
{
    let l = (t.loc(pos), 0);
    if t.is(pos, Punct::LBrace) {
        return match parse_block(t, pos + 1) {
            Ok((ss, p)) => Ok((vec![CStmt::Block(ss)], p)),
            Err(e) => Err(e),
        };
    }
    if t.is(pos, Punct::Semi) {
        return Ok((Vec::new(), pos + 1));
    }
    match t.base_type(pos) {
        Some(ty) => {
            return parse_local_decl(t, ty, pos + 1);
        },
        None => {},
    }
    match t.keyword(pos) {
        Some(Keyword::Return) => {
            if t.is(pos + 1, Punct::Semi) {
                return Ok((vec![CStmt::Return(l, None)], pos + 2));
            }
            let (e, p) = match parse_level(t, 0, pos + 1) {
                Ok(x) => x,
                Err(e) => {
                    return Err(e);
                },
            };
            match t.expect(p, Punct::Semi) {
                Ok(q) => Ok((vec![CStmt::Return(l, Some(e))], q)),
                Err(e) => Err(e),
            }
        },
        Some(Keyword::If) => {
            let (c, s1, p) = match parse_cond_body(t, pos + 1) {
                Ok(x) => x,
                Err(e) => {
                    return Err(e);
                },
            };
            if t.keyword(p) == Some(Keyword::Else) {
                match stmt_at(t, p + 1) {
                    Ok((s2, q)) => Ok((vec![CStmt::If(l, c, Box::new(s1), Some(Box::new(single(s2))))], q)),
                    Err(e) => Err(e),
                }
            } else {
                Ok((vec![CStmt::If(l, c, Box::new(s1), None)], p))
            }
        },
        Some(Keyword::While) => match parse_cond_body(t, pos + 1) {
            Ok((c, s, p)) => Ok((vec![CStmt::While(l, c, Box::new(s))], p)),
            Err(e) => Err(e),
        },
        Some(Keyword::For) => parse_for(t, pos + 1),
        Some(Keyword::Printf) => {
            let p = match t.expect(pos + 1, Punct::LParen) {
                Ok(x) => x,
                Err(e) => {
                    return Err(e);
                },
            };
            let (e, p) = match parse_level(t, 0, p) {
                Ok(x) => x,
                Err(e) => {
                    return Err(e);
                },
            };
            let p = match t.expect(p, Punct::RParen) {
                Ok(x) => x,
                Err(e) => {
                    return Err(e);
                },
            };
            match t.expect(p, Punct::Semi) {
                Ok(q) => Ok((vec![CStmt::Print(l, e)], q)),
                Err(e) => Err(e),
            }
        },
        Some(_) => Err(t.fail(pos)),
        None => {
            let (s, p) = match parse_simple(t, pos) {
                Ok(x) => x,
                Err(e) => {
                    return Err(e);
                },
            };
            match t.expect(p, Punct::Semi) {
                Ok(q) => Ok((vec![s], q)),
                Err(e) => Err(e),
            }
        },
    }
}

/// Statements up to and including the closing `}`.
fn parse_block(t: &Toks, pos: usize) -> (r: Result<(Vec<CStmt>, usize), CError>)
    requires
        t.wf(),
    ensures
        advanced(r, pos, t.len()),
    decreases t.len() - pos, 21u64,
{
    if pos >= t.count() {
        return Err(t.fail(pos));
    }
    let mut out: Vec<CStmt> = Vec::new();
    let mut p = pos;
    while !t.is(p, Punct::RBrace)
        invariant
            t.wf(),
            pos <= p <= t.len(),
        decreases t.len() - p,
    {
        let (mut ss, q) = match stmt_at(t, p) {
            Ok(x) => x,
            Err(e) => {
                return Err(e);
            },
        };
        out.append(&mut ss);
        p = q;
    }
    Ok((out, p + 1))
}

/// Parameters after `(`, up to and including `)`; `(void)` and `()` have none.
fn parse_params(t: &Toks, pos: usize) -> (r: Result<(Vec<(CType, String)>, usize), CError>)
    requires
        t.wf(),
    ensures
        advanced(r, pos, t.len()),
{
    if pos >= t.count() {
        return Err(t.fail(pos));
    }
    let mut out: Vec<(CType, String)> = Vec::new();
    if t.is(pos, Punct::RParen) {
        return Ok((out, pos + 1));
    }
    if t.keyword(pos) == Some(Keyword::Void) && t.is(pos + 1, Punct::RParen) {
        return Ok((out, pos + 2));
    }
    let mut p = pos;
    loop
        invariant
            t.wf(),
            pos <= p <= t.len(),
        decreases t.len() - p,
    {
        let mut ty = match t.base_type(p) {
            Some(ty) => ty,
            None => {
                return Err(t.fail(p));
            },
        };
        let (name, after) = match t.ident(p + 1) {
            Ok(x) => x,
            Err(e) => {
                return Err(e);
            },
        };
        let mut q = after;
        while t.is(q, Punct::LBrack) && t.is(q + 1, Punct::RBrack)
            invariant
                t.wf(),
                p < q <= t.len(),
            decreases t.len() - q,
        {
            ty = CType::Ref(Box::new(ty));
            q = q + 2;
        }
        out.push((ty, name));
        if t.is(q, Punct::Comma) {
            p = q + 1;
        } else if t.is(q, Punct::RParen) {
            return Ok((out, q + 1));
        } else {
            return Err(t.fail(q));
        }
    }
}

/// A top-level element: global declarations, prototypes, or a definition.
fn parse_elem(t: &Toks, pos: usize) -> (r: Result<(Vec<CProgElem>, usize), CError>)
    requires
        t.wf(),
    ensures
        advanced(r, pos, t.len()),
{
    if pos >= t.count() {
        return Err(t.fail(pos));
    }
    let ret: Option<CType> = match t.keyword(pos) {
        Some(Keyword::Void) => None,
        _ => match t.base_type(pos) {
            Some(ty) => Some(ty),
            None => {
                return Err(t.fail(pos));
            },
        },
    };
    let mut out: Vec<CProgElem> = Vec::new();
    let mut p = pos + 1;
    loop
        invariant
            t.wf(),
            pos < p <= t.len(),
        decreases t.len() - p,
    {
        let l = (t.loc(p), 0);
        let (name, after) = match t.ident(p) {
            Ok(x) => x,
            Err(e) => {
                return Err(e);
            },
        };
        let mut q = after;
        if t.is(q, Punct::LParen) {
            let (params, q2) = match parse_params(t, q + 1) {
                Ok(x) => x,
                Err(e) => {
                    return Err(e);
                },
            };
            let ret_ty = match &ret {
                Some(ty) => Some(crate::ast::copy_type(ty)),
                None => None,
            };
            let proto = CProto { ret: ret_ty, name, params };
            if t.is(q2, Punct::LBrace) {
                return match parse_block(t, q2 + 1) {
                    Ok((stmts, q3)) => {
                        out.push(CProgElem::Func(l, CFunc { proto, stmts }));
                        Ok((out, q3))
                    },
                    Err(e) => Err(e),
                };
            }
            out.push(CProgElem::Proto(l, proto));
            q = q2;
        } else {
            let mut ty = match &ret {
                Some(ty) => crate::ast::copy_type(ty),
                None => {
                    return Err(t.fail(q));
                },
            };
            let mut size: Option<usize> = None;
            if t.is(q, Punct::LBrack) && q + 1 < t.count() {
                match &t.toks[q + 1] {
                    Token::Num(n) => {
                        if *n < 0 {
                            return Err(t.fail(q + 1));
                        }
                        size = Some(*n as usize);
                        ty = CType::Ref(Box::new(ty));
                    },
                    _ => {
                        return Err(t.fail(q + 1));
                    },
                }
                q = match t.expect(q + 2, Punct::RBrack) {
                    Ok(x) => x,
                    Err(e) => {
                        return Err(e);
                    },
                };
            }
            out.push(CProgElem::Decl(l, ty, name, size));
        }
        if t.is(q, Punct::Comma) {
            p = q + 1;
        } else if t.is(q, Punct::Semi) {
            return Ok((out, q + 1));
        } else {
            return Err(t.fail(q));
        }
    }
}

fn tokens(input: &str) -> (r: Result<Toks, CError>)
    ensures
        match r {
            Ok(t) => t.wf(),
            Err(e) => e is ParseError,
        },
{
    match lex(input) {
        Ok((toks, locs)) => Ok(Toks { toks, locs, end: input.len() }),
        Err(e) => Err(e),
    }
}

/// Parses one expression that makes up the whole input.
pub fn parse_expr(input: &str) -> (r: Result<CExpr, CError>)
    ensures
        r matches Err(e) ==> e is ParseError,
{
    let t = match tokens(input) {
        Ok(t) => t,
        Err(e) => {
            return Err(e);
        },
    };
    match parse_level(&t, 0, 0) {
        Ok((e, p)) => if p == t.count() {
            Ok(e)
        } else {
            Err(t.fail(p))
        },
        Err(e) => Err(e),
    }
}

/// Parses one statement that makes up the whole input.
pub fn parse_stmt(input: &str) -> (r: Result<CStmt, CError>)
    ensures
        r matches Err(e) ==> e is ParseError,
{
    let t = match tokens(input) {
        Ok(t) => t,
        Err(e) => {
            return Err(e);
        },
    };
    match stmt_at(&t, 0) {
        Ok((s, p)) => if p == t.count() {
            Ok(single(s))
        } else {
            Err(t.fail(p))
        },
        Err(e) => Err(e),
    }
}

/// Parses one function definition that makes up the whole input.
pub fn parse_func(input: &str) -> (r: Result<CFunc, CError>)
    ensures
        r matches Err(e) ==> e is ParseError,
{
    let t = match tokens(input) {
        Ok(t) => t,
        Err(e) => {
            return Err(e);
        },
    };
    match parse_elem(&t, 0) {
        Ok((mut es, p)) => {
            if p == t.count() && es.len() == 1 {
                match es.pop() {
                    Some(CProgElem::Func(_, f)) => {
                        return Ok(f);
                    },
                    _ => {},
                }
            }
            Err(CError::ParseError(String::from_str("Expected one function definition"), 0))
        },
        Err(e) => Err(e),
    }
}

/// Parses a whole program. Every failure is a `ParseError` with the byte
/// offset of the offending token (or the program's end).
pub fn parse_prog(input: &str) -> (r: Result<CProg, CError>)
    ensures
        r matches Err(e) ==> e is ParseError,
{
    let t = match tokens(input) {
        Ok(t) => t,
        Err(e) => {
            return Err(e);
        },
    };
    let mut out: CProg = Vec::new();
    let mut p: usize = 0;
    while p < t.count()
        invariant
            t.wf(),
            p <= t.len(),
        decreases t.len() - p,
    {
        let (mut es, q) = match parse_elem(&t, p) {
            Ok(x) => x,
            Err(e) => {
                return Err(e);
            },
        };
        out.append(&mut es);
        p = q;
    }
    Ok(out)
}

} // verus!
