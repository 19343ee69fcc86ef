//! Errors of the checker and the evaluator, and where they point in the source.
use crate::repl::line_map;
use crate::util::{line_from, on_line, prefix_sum};
use vstd::prelude::*;
use vstd::string::{StrSliceExecFns, StringSliceAdditionalSpecFns};

verus! {

/// An error, with the byte offset it points at where it has one.
#[derive(Debug)]
pub enum CError {
    /// Reported by the parser, passed through.
    ParseError(String, usize),
    /// Raised by the evaluator; aborts the run.
    RuntimeError(String, usize),
    /// Every problem the checker found, in source order.
    CheckerError(Vec<(String, Option<usize>)>),
    /// A state that a checked program cannot reach, or a failure of the console.
    UnknownError(String),
}


/// Model of an error.
pub enum ErrV {
    Parse(Seq<char>, usize),
    Runtime(Seq<char>, usize),
    Checker(Seq<(Seq<char>, Option<usize>)>),
    Unknown(Seq<char>),
}

pub open spec fn err_view(e: CError) -> ErrV {
    match e {
        CError::ParseError(m, l) => ErrV::Parse(m@, l),
        CError::RuntimeError(m, l) => ErrV::Runtime(m@, l),
        CError::CheckerError(v) => ErrV::Checker(Seq::new(v.len() as nat, |i: int| (v[i].0@, v[i].1))),
        CError::UnknownError(m) => ErrV::Unknown(m@),
    }
}


/// Lines of a text that are complete (each ended by a newline).
pub open spec fn text_lines_done(s: Seq<char>) -> Seq<Seq<char>>
    decreases s.len(),
{
    if s.len() == 0 {
        Seq::empty()
    } else if s.last() == '\n' {
        text_lines_done(s.drop_last()).push(text_line_open(s.drop_last()))
    } else {
        text_lines_done(s.drop_last())
    }
}

/// The text after the last newline.
pub open spec fn text_line_open(s: Seq<char>) -> Seq<char>
    decreases s.len(),
{
    if s.len() == 0 {
        Seq::empty()
    } else if s.last() == '\n' {
        Seq::empty()
    } else {
        text_line_open(s.drop_last()).push(s.last())
    }
}

/// The lines of a text, newlines removed; the last may be empty.
pub open spec fn text_lines(s: Seq<char>) -> Seq<Seq<char>> {
    text_lines_done(s).push(text_line_open(s))
}

/// What an error report needs of the source: its name, its lines, and the
/// byte length of each line with its newline.
pub struct ErrorPrinter {
    filename: String,
    lines: Vec<String>,
    map: Vec<usize>,
}

impl ErrorPrinter {
    pub closed spec fn name(&self) -> Seq<char> {
        self.filename@
    }

    pub closed spec fn lines(&self) -> Seq<Seq<char>> {
        Seq::new(self.lines.len() as nat, |i: int| self.lines[i]@)
    }

    pub closed spec fn map(&self) -> Seq<usize> {
        self.map@
    }

    pub fn new(filename: &str, prog: &str) -> (r: ErrorPrinter)
        ensures
            r.name() == filename@,
            r.lines() == text_lines(prog@),
            r.map() == line_map(prog.spec_bytes()),
    {
        let n = prog.unicode_len();
        let mut lines: Vec<String> = Vec::new();
        let mut start: usize = 0;
        let mut i: usize = 0;
        while i < n
            invariant
                n == prog@.len(),
                start <= i <= n,
                Seq::new(lines.len() as nat, |k: int| lines[k]@) == text_lines_done(prog@.subrange(0, i as int)),
                prog@.subrange(start as int, i as int) == text_line_open(prog@.subrange(0, i as int)),
            decreases n - i,
        {
            let ghost pre = prog@.subrange(0, i + 1);
            assert(pre.drop_last() =~= prog@.subrange(0, i as int));
            let ghost old_lines = Seq::new(lines.len() as nat, |k: int| lines[k]@);
            if prog.get_char(i) == '\n' {
                lines.push(String::from_str(prog.substring_char(start, i)));
                assert(Seq::new(lines.len() as nat, |k: int| lines[k]@) =~= old_lines.push(prog@.subrange(start as int, i as int)));
                start = i + 1;
                assert(prog@.subrange(start as int, i + 1) =~= Seq::<char>::empty());
            } else {
                assert(Seq::new(lines.len() as nat, |k: int| lines[k]@) =~= old_lines);
                assert(prog@.subrange(start as int, i + 1) =~= prog@.subrange(start as int, i as int).push(prog@[i as int]));
            }
            i += 1;
        }
        assert(prog@.subrange(0, n as int) =~= prog@);
        let ghost done = Seq::new(lines.len() as nat, |k: int| lines[k]@);
        lines.push(String::from_str(prog.substring_char(start, n)));
        assert(Seq::new(lines.len() as nat, |k: int| lines[k]@) =~= done.push(prog@.subrange(start as int, n as int)));
        let map = crate::repl::Repl::line_lengths(prog);
        ErrorPrinter { filename: String::from_str(filename), lines, map }
    }

    /// The 0-based line holding byte offset `loc`, and the offset within it.
    pub fn get_line_with_off(&self, loc: usize) -> (r: Option<(usize, usize)>)
        ensures
            match r {
                Some((i, off)) => on_line(loc, self.map(), i + 1) && off == loc - prefix_sum(self.map(), i as int),
                None => loc >= prefix_sum(self.map(), self.map().len() as int),
            },
    {
        match line_from(loc, &self.map) {
            Some(k) => Some((k - 1, loc - line_start(&self.map, k - 1))),
            None => None,
        }
    }

    /// Name of the source file.
    pub fn filename(&self) -> (r: &str)
        ensures
            r@ == self.name(),
    {
        self.filename.as_str()
    }

    /// The text of the 0-based line `i`, if there is one.
    pub fn line(&self, i: usize) -> (r: Option<&str>)
        ensures
            match r {
                Some(t) => i < self.lines().len() && t@ == self.lines()[i as int],
                None => i >= self.lines().len(),
            },
    {
        if i < self.lines.len() {
            Some(self.lines[i].as_str())
        } else {
            None
        }
    }
}

/// Byte offset at which the 0-based line `k` starts.
fn line_start(map: &Vec<usize>, k: usize) -> (r: usize)
    requires
        k < map.len(),
        prefix_sum(map@, k as int) <= usize::MAX,
    ensures
        r == prefix_sum(map@, k as int),
{
    let mut i: usize = 0;
    let mut s: usize = 0;
    while i < k
        invariant
            i <= k < map.len(),
            s == prefix_sum(map@, i as int),
            prefix_sum(map@, k as int) <= usize::MAX,
        decreases k - i,
    {
        proof {
            crate::util::lemma_prefix_mono(map@, i + 1, k as int);
        }
        s = s + map[i];
        i += 1;
    }
    s
}

} // verus!
