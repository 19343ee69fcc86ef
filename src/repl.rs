//! The debugger's decisions: when to pause before a statement, and what
//! each console command does. Reading commands and writing replies is left
//! to the caller; a reply is returned as a `Report`.
use crate::env::{binding, hist_view, lookup, opt_view, value_below, value_in, Hist, HistV, SymTab, TabV};
use crate::util::{line_from, line_of};
use crate::value::{SymVal, Val};
use vstd::prelude::*;
use vstd::string::StringExecFns;
use vstd::string::StrSliceExecFns;
use vstd::string::StringSliceAdditionalSpecFns;

verus! {

/// Lengths of the lines completed by the bytes `b` (each with its newline).
pub open spec fn lines_done(b: Seq<u8>) -> Seq<usize>
    decreases b.len(),
{
    if b.len() == 0 {
        Seq::empty()
    } else if b.last() == 10 {
        lines_done(b.drop_last()).push((line_open(b.drop_last()) + 1) as usize)
    } else {
        lines_done(b.drop_last())
    }
}

/// Length of the line that the bytes `b` leave open.
pub open spec fn line_open(b: Seq<u8>) -> nat
    decreases b.len(),
{
    if b.len() == 0 {
        0
    } else if b.last() == 10 {
        0
    } else {
        line_open(b.drop_last()) + 1
    }
}

/// Length of each line of a text plus one for its newline; the last line
/// counts one as well.
pub open spec fn line_map(b: Seq<u8>) -> Seq<usize> {
    lines_done(b).push(if line_open(b) < usize::MAX { (line_open(b) + 1) as usize } else { usize::MAX })
}

/// Model of the debugger state.
pub struct ReplState {
    pub enabled: bool,
    pub verbose: bool,
    pub skip: nat,
    pub map: Seq<usize>,
    pub last_line: nat,
}

/// The debugger state: whether it pauses at all, how many lines it still
/// lets pass, the line lengths of the program, the line it last paused at.
pub struct Repl {
    enabled: bool,
    verbose: bool,
    skip: usize,
    map: Vec<usize>,
    last_line: usize,
}

/// Where `print` found a variable.
#[derive(Debug, PartialEq, Eq, Clone, Copy)]
pub enum Scope {
    Local,
    Global,
    Invisible,
}

/// What a command has to show.
#[derive(Debug, PartialEq)]
pub enum Report {
    Nothing,
    /// `print`: the current value (none if never assigned) and where it was found.
    Value(Option<SymVal>, Scope),
    NotDeclared,
    /// `trace`: each value with the 1-based line of the statement that set it.
    History(Vec<(Option<SymVal>, Option<usize>)>),
    NoHistory,
    NextUsage,
    NameMissing,
    Unknown(String),
    NoCommand,
    Bye,
}

/// What the console does after a command.
#[derive(Debug, PartialEq, Eq, Clone, Copy)]
pub enum Action {
    /// Keep prompting.
    Stay,
    /// Leave the prompt and go on running.
    Resume,
    /// End the process.
    Quit,
}

/// Whether the debugger pauses before a statement at byte offset `loc`,
/// and its state after. A line reached again does not pause. Each line
/// advanced uses one unit of the skip budget; the debugger pauses once the
/// budget is spent.
pub open spec fn step(st: ReplState, loc: usize) -> (ReplState, bool) {
    if !st.enabled {
        (st, false)
    } else {
        match line_of(loc, st.map) {
            None => (st, false),
            Some(line) => if line == st.last_line {
                (st, false)
            } else {
                let skip = if line > st.last_line && st.skip > line - st.last_line {
                    (st.skip - (line - st.last_line)) as nat
                } else if line > st.last_line {
                    0nat
                } else {
                    st.skip
                };
                (ReplState { skip, last_line: line as nat, ..st }, skip == 0)
            },
        }
    }
}

pub open spec fn is_space(c: char) -> bool {
    c == ' ' || c == '\t' || c == '\n' || c == '\r'
}

/// First position at or after `i` that is not a space.
pub open spec fn skip_space(s: Seq<char>, i: int) -> int
    decreases s.len() - i,
{
    if 0 <= i < s.len() && is_space(s[i]) {
        skip_space(s, i + 1)
    } else {
        i
    }
}

/// First position at or after `i` that is a space, or the end.
pub open spec fn word_end(s: Seq<char>, i: int) -> int
    decreases s.len() - i,
{
    if 0 <= i < s.len() && !is_space(s[i]) {
        word_end(s, i + 1)
    } else {
        i
    }
}

/// The first word at or after `i`, and where it ends.
pub open spec fn word_at(s: Seq<char>, i: int) -> Option<(Seq<char>, int)> {
    let a = skip_space(s, i);
    if a >= s.len() {
        None
    } else {
        Some((s.subrange(a, word_end(s, a)), word_end(s, a)))
    }
}

/// The first two words of a command line.
pub open spec fn words(s: Seq<char>) -> (Option<Seq<char>>, Option<Seq<char>>) {
    match word_at(s, 0) {
        None => (None, None),
        Some((w, e)) => (Some(w), match word_at(s, e) {
            Some((w2, _)) => Some(w2),
            None => None,
        }),
    }
}

pub open spec fn is_digit(c: char) -> bool {
    '0' <= c && c <= '9'
}

/// Value of a string of decimal digits.
pub open spec fn digits_value(w: Seq<char>) -> nat
    decreases w.len(),
{
    if w.len() == 0 {
        0
    } else {
        digits_value(w.drop_last()) * 10 + (w.last() as nat - '0' as nat) as nat
    }
}

/// A line count written in decimal, if it is one that fits a `usize`.
pub open spec fn parse_count(w: Seq<char>) -> Option<usize> {
    if w.len() > 0 && (forall|i: int| 0 <= i < w.len() ==> is_digit(#[trigger] w[i])) && digits_value(w) <= usize::MAX {
        Some(digits_value(w) as usize)
    } else {
        None
    }
}

/// What `print` finds: the innermost local frame, then the globals, then
/// the enclosing local frames.
pub open spec fn print_result(g: TabV, l: TabV, id: Seq<char>) -> Option<(Option<Val>, Scope)> {
    if lookup(l.last(), id) is Some {
        Some((value_in(l.last(), id), Scope::Local))
    } else if binding(g, id) is Some {
        Some((value_below(g, id, g.len() as int), Scope::Global))
    } else {
        match value_below(l, id, l.len() - 1) {
            Some(v) => Some((Some(v), Scope::Invisible)),
            None => None,
        }
    }
}

/// What `trace` finds: the history in the innermost local frame that binds
/// the name, else among the globals.
pub open spec fn trace_result(g: TabV, l: TabV, id: Seq<char>) -> Option<HistV> {
    match binding(l, id) {
        Some(e) => Some(e.2),
        None => match binding(g, id) {
            Some(e) => Some(e.2),
            None => None,
        },
    }
}

/// A history with each location replaced by its line.
pub open spec fn with_lines(h: HistV, map: Seq<usize>) -> HistV {
    Seq::new(h.len(), |i: int| (h[i].0, match h[i].1 {
        Some(loc) => line_of(loc, map),
        None => None,
    }))
}

impl Repl {
    pub closed spec fn view(&self) -> ReplState {
        ReplState {
            enabled: self.enabled,
            verbose: self.verbose,
            skip: self.skip as nat,
            map: self.map@,
            last_line: self.last_line as nat,
        }
    }

    /// Byte length of each line of `text`, newline included.
    pub fn line_lengths(text: &str) -> (r: Vec<usize>)
        ensures
            r@ == line_map(text.spec_bytes()),
    {
        let b = text.as_bytes();
        let mut map: Vec<usize> = Vec::new();
        let mut cur: usize = 0;
        let mut i: usize = 0;
        while i < b.len()
            invariant
                i <= b.len(),
                b@ == text.spec_bytes(),
                map@ == lines_done(b@.subrange(0, i as int)),
                cur == line_open(b@.subrange(0, i as int)),
                cur <= i,
            decreases b.len() - i,
        {
            assert(b@.subrange(0, i + 1).drop_last() =~= b@.subrange(0, i as int));
            if b[i] == 10 {
                map.push(cur + 1);
                cur = 0;
            } else {
                cur = cur + 1;
            }
            i += 1;
        }
        assert(b@.subrange(0, b.len() as int) =~= b@);
        map.push(if cur < usize::MAX { cur + 1 } else { usize::MAX });
        map
    }

    /// A debugger for `program`, pausing only if `enabled`.
    pub fn new(enabled: bool, program: &str, verbose: bool) -> (r: Repl)
        ensures
            r@ == (ReplState {
                enabled,
                verbose,
                skip: 0,
                map: line_map(program.spec_bytes()),
                last_line: 0,
            }),
    {
        let map = Repl::line_lengths(program);
        Repl { enabled, verbose, skip: 0, map, last_line: 0 }
    }

    /// Whether the debugger pauses at all.
    pub fn enabled(&self) -> (r: bool)
        ensures
            r == self@.enabled,
    {
        self.enabled
    }

    /// Whether trace output was asked for.
    pub fn verbose(&self) -> (r: bool)
        ensures
            r == self@.verbose,
    {
        self.verbose
    }

    /// Decides whether to pause before a statement at byte offset `loc`.
    pub fn show(&mut self, loc: usize) -> (r: bool)
        ensures
            (final(self)@, r) == step(old(self)@, loc),
    {
        if !self.enabled {
            return false;
        }
        let line = match line_from(loc, &self.map) {
            Some(l) => l,
            None => {
                return false;
            },
        };
        if line == self.last_line {
            return false;
        }
        if line > self.last_line {
            let d = line - self.last_line;
            if self.skip > d {
                self.skip = self.skip - d;
            } else {
                self.skip = 0;
            }
        }
        self.last_line = line;
        self.skip == 0
    }
}


fn space(c: char) -> (r: bool)
    ensures
        r == is_space(c),
{
    c == ' ' || c == '\t' || c == '\n' || c == '\r'
}

fn skip_space_at(s: &str, n: usize, i: usize) -> (r: usize)
    requires
        n == s@.len(),
        i <= n,
    ensures
        r == skip_space(s@, i as int),
        i <= r <= n,
{
    let mut j = i;
    while j < n && space(s.get_char(j))
        invariant
            n == s@.len(),
            i <= j <= n,
            skip_space(s@, i as int) == skip_space(s@, j as int),
        decreases n - j,
    {
        j += 1;
    }
    j
}

fn word_end_at(s: &str, n: usize, i: usize) -> (r: usize)
    requires
        n == s@.len(),
        i <= n,
    ensures
        r == word_end(s@, i as int),
        i <= r <= n,
{
    let mut j = i;
    while j < n && !space(s.get_char(j))
        invariant
            n == s@.len(),
            i <= j <= n,
            word_end(s@, i as int) == word_end(s@, j as int),
        decreases n - j,
    {
        j += 1;
    }
    j
}

fn word_from(s: &str, n: usize, i: usize) -> (r: Option<(&str, usize)>)
    requires
        n == s@.len(),
        i <= n,
    ensures
        match word_at(s@, i as int) {
            Some((w, e)) => r matches Some(x) && x.0@ == w && x.1 == e && e <= n,
            None => r is None,
        },
{
    let a = skip_space_at(s, n, i);
    if a >= n {
        None
    } else {
        let b = word_end_at(s, n, a);
        Some((s.substring_char(a, b), b))
    }
}

/// The first two words of a command line.
pub fn words_of(s: &str) -> (r: (Option<&str>, Option<&str>))
    ensures
        ({
            let (a, b) = words(s@);
            &&& match a {
                Some(w) => r.0 matches Some(x) && x@ == w,
                None => r.0 is None,
            }
            &&& match b {
                Some(w) => r.1 matches Some(x) && x@ == w,
                None => r.1 is None,
            }
        }),
{
    let n = s.unicode_len();
    match word_from(s, n, 0) {
        None => (None, None),
        Some((w, e)) => match word_from(s, n, e) {
            Some((w2, _)) => (Some(w), Some(w2)),
            None => (Some(w), None),
        },
    }
}

fn same_text(a: &str, b: &str) -> (r: bool)
    ensures
        r == (a@ == b@),
{
    let n = a.unicode_len();
    if n != b.unicode_len() {
        return false;
    }
    let mut i: usize = 0;
    while i < n
        invariant
            n == a@.len() == b@.len(),
            i <= n,
            forall|j: int| 0 <= j < i ==> a@[j] == b@[j],
        decreases n - i,
    {
        if a.get_char(i) != b.get_char(i) {
            return false;
        }
        i += 1;
    }
    assert(a@ =~= b@);
    true
}

proof fn lemma_digits_grow(w: Seq<char>, k: int)
    requires
        0 <= k <= w.len(),
        forall|i: int| 0 <= i < w.len() ==> is_digit(#[trigger] w[i]),
    ensures
        digits_value(w.subrange(0, k)) <= digits_value(w),
    decreases w.len() - k,
{
    if k < w.len() {
        lemma_digits_grow(w, k + 1);
        assert(w.subrange(0, k + 1).drop_last() =~= w.subrange(0, k));
    } else {
        assert(w.subrange(0, k) =~= w);
    }
}

/// A line count written in decimal.
pub fn parse_count_of(w: &str) -> (r: Option<usize>)
    ensures
        r == parse_count(w@),
{
    let n = w.unicode_len();
    if n == 0 {
        return None;
    }
    let mut acc: usize = 0;
    let mut i: usize = 0;
    while i < n
        invariant
            n == w@.len(),
            i <= n,
            forall|j: int| 0 <= j < i ==> is_digit(#[trigger] w@[j]),
            acc == digits_value(w@.subrange(0, i as int)),
        decreases n - i,
    {
        let c = w.get_char(i);
        if !('0' <= c && c <= '9') {
            return None;
        }
        let d = (c as u32 - '0' as u32) as usize;
        assert(w@.subrange(0, i + 1).drop_last() =~= w@.subrange(0, i as int));
        if acc > (usize::MAX - d) / 10 {
            proof {
                assert(digits_value(w@.subrange(0, i + 1)) > usize::MAX) by (nonlinear_arith)
                    requires
                        digits_value(w@.subrange(0, i + 1)) == acc * 10 + d,
                        acc > (usize::MAX - d) / 10,
                        d <= 9,
                ;
                if forall|j: int| 0 <= j < n ==> is_digit(#[trigger] w@[j]) {
                    lemma_digits_grow(w@, i + 1);
                }
            }
            return None;
        }
        acc = acc * 10 + d;
        i += 1;
    }
    assert(w@.subrange(0, n as int) =~= w@);
    Some(acc)
}

impl Repl {
    /// What `print` finds for `id`.
    fn print_lookup(global: &SymTab, local: &SymTab, id: &str) -> (r: Report)
        requires
            global.wf(),
            local.wf(),
        ensures
            match print_result(global@, local@, id@) {
                Some((v, sc)) => r matches Report::Value(x, s) && opt_view(x) == v && s == sc,
                None => r is NotDeclared,
            },
    {
        if let Some(v) = local.get_local(id) {
            Report::Value(v, Scope::Local)
        } else if global.get_type(id).is_some() {
            Report::Value(global.get_val(id), Scope::Global)
        } else {
            match local.get_val_parent(id) {
                Some(v) => Report::Value(Some(v), Scope::Invisible),
                None => Report::NotDeclared,
            }
        }
    }

    /// What `trace` finds for `id`, with lines in place of locations.
    fn trace_lookup(&self, global: &SymTab, local: &SymTab, id: &str) -> (r: Report)
        requires
            global.wf(),
            local.wf(),
        ensures
            match trace_result(global@, local@, id@) {
                Some(h) => r matches Report::History(v) && hist_view(v@) == with_lines(h, self@.map),
                None => r is NoHistory,
            },
    {
        let h: Hist = match local.get_trace(id) {
            Some(h) => h,
            None => match global.get_trace(id) {
                Some(h) => h,
                None => {
                    return Report::NoHistory;
                },
            },
        };
        let ghost hv = hist_view(h@);
        let mut out: Hist = Vec::new();
        let mut i: usize = 0;
        while i < h.len()
            invariant
                i <= h.len(),
                hv == hist_view(h@),
                out.len() == i,
                forall|j: int| 0 <= j < i ==> opt_view(#[trigger] out@[j].0) == hv[j].0 && out@[j].1 == match hv[j].1 {
                    Some(loc) => line_of(loc, self@.map),
                    None => None,
                },
            decreases h.len() - i,
        {
            let line = match h[i].1 {
                Some(loc) => line_from(loc, &self.map),
                None => None,
            };
            out.push((crate::env::copy_opt(&h[i].0), line));
            i += 1;
        }
        assert(hist_view(out@) =~= with_lines(hv, self@.map));
        Report::History(out)
    }

    /// Carries out one console command against the current tables. `finished`
    /// tells that the program has returned, where `quit` ends the session
    /// instead of the process.
    pub fn command(&mut self, input: &str, global: &SymTab, local: &SymTab, finished: bool) -> (r: (Report, Action))
        requires
            global.wf(),
            local.wf(),
        ensures
            ({
                let (w1, w2) = words(input@);
                match w1 {
                    None => r == (Report::NoCommand, Action::Stay) && final(self)@ == old(self)@,
                    Some(c) => if c == "next"@ || c == "n"@ {
                        match (match w2 { None => Some(1usize), Some(a) => parse_count(a) }) {
                            None => r == (Report::NextUsage, Action::Stay) && final(self)@ == old(self)@,
                            Some(k) => if k == 0 {
                                r == (Report::Nothing, Action::Stay) && final(self)@ == old(self)@
                            } else {
                                r == (Report::Nothing, Action::Resume) && final(self)@ == (ReplState { skip: (k - 1) as nat, ..old(self)@ })
                            },
                        }
                    } else if c == "print"@ || c == "p"@ {
                        &&& final(self)@ == old(self)@
                        &&& r.1 == Action::Stay
                        &&& match w2 {
                            None => r.0 == Report::NameMissing,
                            Some(id) => match print_result(global@, local@, id) {
                                Some((v, sc)) => r.0 matches Report::Value(x, s) && opt_view(x) == v && s == sc,
                                None => r.0 == Report::NotDeclared,
                            },
                        }
                    } else if c == "trace"@ || c == "t"@ {
                        &&& final(self)@ == old(self)@
                        &&& r.1 == Action::Stay
                        &&& match w2 {
                            None => r.0 == Report::NameMissing,
                            Some(id) => match trace_result(global@, local@, id) {
                                Some(h) => r.0 matches Report::History(v) && hist_view(v@) == with_lines(h, old(self)@.map),
                                None => r.0 == Report::NoHistory,
                            },
                        }
                    } else if c == "quit"@ || c == "q"@ {
                        &&& final(self)@ == old(self)@
                        &&& r == (Report::Bye, if finished { Action::Resume } else { Action::Quit })
                    } else {
                        &&& final(self)@ == old(self)@
                        &&& r.1 == Action::Stay
                        &&& r.0 matches Report::Unknown(u) && u@ == c
                    },
                }
            }),
    {
        proof {
            reveal_strlit("next");
            reveal_strlit("n");
            reveal_strlit("print");
            reveal_strlit("p");
            reveal_strlit("trace");
            reveal_strlit("t");
            reveal_strlit("quit");
            reveal_strlit("q");
        }
        let (w1, w2) = words_of(input);
        let c = match w1 {
            None => {
                return (Report::NoCommand, Action::Stay);
            },
            Some(c) => c,
        };
        if same_text(c, "next") || same_text(c, "n") {
            let k = match w2 {
                None => 1,
                Some(a) => match parse_count_of(a) {
                    Some(k) => k,
                    None => {
                        return (Report::NextUsage, Action::Stay);
                    },
                },
            };
            if k == 0 {
                return (Report::Nothing, Action::Stay);
            }
            self.skip = k - 1;
            (Report::Nothing, Action::Resume)
        } else if same_text(c, "print") || same_text(c, "p") {
            match w2 {
                None => (Report::NameMissing, Action::Stay),
                Some(id) => (Repl::print_lookup(global, local, id), Action::Stay),
            }
        } else if same_text(c, "trace") || same_text(c, "t") {
            match w2 {
                None => (Report::NameMissing, Action::Stay),
                Some(id) => (self.trace_lookup(global, local, id), Action::Stay),
            }
        } else if same_text(c, "quit") || same_text(c, "q") {
            (Report::Bye, if finished { Action::Resume } else { Action::Quit })
        } else {
            (Report::Unknown(String::from_str(c)), Action::Stay)
        }
    }
}

} // verus!
