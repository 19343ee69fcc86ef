use semic::ast::{CExpr, CFunc, CProg, CProgElem, CProto, CStmt, CType};
use semic::engine::{run_prog, Monitor};
use semic::env::SymTab;
use semic::repl::{words_of, parse_count_of, Action, Repl, Report, Scope};
use semic::util::line_from;
use semic::value::SymVal;

#[test]
fn line_from_maps_offsets() {
    let lines = vec![4, 1, 6];
    assert_eq!(Some(1), line_from(0, &lines));
    assert_eq!(Some(1), line_from(3, &lines));
    assert_eq!(Some(2), line_from(4, &lines));
    assert_eq!(Some(3), line_from(5, &lines));
    assert_eq!(Some(3), line_from(10, &lines));
    assert_eq!(None, line_from(11, &lines));
    assert_eq!(None, line_from(0, &vec![]));
}

#[test]
fn repl_disabled_never_pauses() {
    let mut repl = Repl::new(false, "a\nb\nc", false);
    assert!(!repl.show(0));
    assert!(!repl.show(2));
    assert!(!repl.verbose());
}

#[test]
fn repl_pauses_once_per_line() {
    // lines: "ab" (0..3), "" (3..4), "cd" (4..6)
    let mut repl = Repl::new(true, "ab\n\ncd", true);
    assert!(repl.verbose());
    assert!(repl.show(0));
    assert!(!repl.show(1));
    assert!(repl.show(4));
    assert!(!repl.show(100));
}

#[test]
fn next_skips_lines() {
    let text = "l1\nl2\nl3\nl4\nl5\nl6";
    let mut repl = Repl::new(true, text, false);
    let g = SymTab::new();
    let l = SymTab::new();
    assert!(repl.show(0));
    assert_eq!((Report::Nothing, Action::Resume), repl.command("next 3", &g, &l, false));
    // skip budget 2: line 2 uses one, line 3 the other
    assert!(!repl.show(3));
    assert!(repl.show(6));
    assert_eq!((Report::Nothing, Action::Resume), repl.command("  n ", &g, &l, false));
    assert!(repl.show(9));
    // jumping two lines at once spends two units
    assert_eq!((Report::Nothing, Action::Resume), repl.command("next 3", &g, &l, false));
    assert!(repl.show(15));
}

#[test]
fn next_usage() {
    let mut repl = Repl::new(true, "x", false);
    let g = SymTab::new();
    let l = SymTab::new();
    assert_eq!((Report::NextUsage, Action::Stay), repl.command("next abc", &g, &l, false));
    assert_eq!((Report::Nothing, Action::Stay), repl.command("next 0", &g, &l, false));
    assert_eq!((Report::NextUsage, Action::Stay), repl.command("next 99999999999999999999999", &g, &l, false));
}

#[test]
fn other_commands() {
    let mut repl = Repl::new(true, "x", false);
    let g = SymTab::new();
    let l = SymTab::new();
    assert_eq!((Report::NoCommand, Action::Stay), repl.command("   ", &g, &l, false));
    assert_eq!((Report::Unknown("jump".to_string()), Action::Stay), repl.command("jump 3", &g, &l, false));
    assert_eq!((Report::NameMissing, Action::Stay), repl.command("print", &g, &l, false));
    assert_eq!((Report::NameMissing, Action::Stay), repl.command("t", &g, &l, false));
    assert_eq!((Report::NotDeclared, Action::Stay), repl.command("p zz", &g, &l, false));
    assert_eq!((Report::NoHistory, Action::Stay), repl.command("trace zz", &g, &l, false));
    assert_eq!((Report::Bye, Action::Quit), repl.command("quit", &g, &l, false));
    assert_eq!((Report::Bye, Action::Resume), repl.command("q", &g, &l, true));
}

#[test]
fn print_scopes() {
    let mut repl = Repl::new(true, "x", false);
    let mut g = SymTab::new();
    let mut l = SymTab::new();
    g.insert("x", CType::Int, None, Some(SymVal::Int(1)), None);
    l.insert("y", CType::Int, None, Some(SymVal::Int(2)), None);
    l.push_frame();
    l.insert("x", CType::Int, None, Some(SymVal::Int(3)), None);
    assert_eq!((Report::Value(Some(SymVal::Int(3)), Scope::Local), Action::Stay), repl.command("print x", &g, &l, false));
    assert_eq!((Report::Value(Some(SymVal::Int(2)), Scope::Invisible), Action::Stay), repl.command("print y", &g, &l, false));
    assert!(l.pop_frame().is_ok());
    assert_eq!((Report::Value(Some(SymVal::Int(1)), Scope::Global), Action::Stay), repl.command("print x", &g, &l, false));
    l.insert("u", CType::Int, None, None, None);
    assert_eq!((Report::Value(None, Scope::Local), Action::Stay), repl.command("p u", &g, &l, false));
}

#[test]
fn trace_reports_lines() {
    let text = "int x;\nx = 1;\nx = 2;\nx = 3;";
    let mut repl = Repl::new(true, text, false);
    let g = SymTab::new();
    let mut l = SymTab::new();
    l.insert("x", CType::Int, None, None, Some(0));
    assert!(l.set_val("x", None, SymVal::Int(1), Some(7)).is_ok());
    assert!(l.set_val("x", None, SymVal::Int(2), Some(14)).is_ok());
    assert!(l.set_val("x", None, SymVal::Int(3), Some(21)).is_ok());
    let expected = vec![
        (None, Some(1)),
        (Some(SymVal::Int(1)), Some(2)),
        (Some(SymVal::Int(2)), Some(3)),
        (Some(SymVal::Int(3)), Some(4)),
    ];
    assert_eq!((Report::History(expected), Action::Stay), repl.command("trace x", &g, &l, false));
}

#[test]
fn words_and_counts() {
    assert_eq!((Some("print"), Some("x")), words_of("\tprint  x extra"));
    assert_eq!((None, None), words_of(""));
    assert_eq!(Some(42), parse_count_of("42"));
    assert_eq!(None, parse_count_of("4x"));
    assert_eq!(None, parse_count_of(""));
}

struct Probe {
    repl: Repl,
    at: Vec<(usize, &'static str)>,
    seen: Vec<Report>,
}

impl Monitor for Probe {
    fn before_stmt(&mut self, loc: usize, global: &SymTab, local: &SymTab) {
        for (l, cmd) in self.at.clone() {
            if l == loc {
                let (rep, _) = self.repl.command(cmd, global, local, false);
                self.seen.push(rep);
            }
        }
    }

    fn print(&mut self, _value: &SymVal) {}

    fn finished(&mut self, global: &SymTab, local: &SymTab) {
        let (rep, _) = self.repl.command("print x", global, local, true);
        self.seen.push(rep);
    }
}

fn func(name: &str, stmts: Vec<CStmt>) -> CProgElem {
    CProgElem::Func((0, 0), CFunc { proto: CProto { ret: Some(CType::Int), name: name.to_string(), params: vec![] }, stmts })
}

#[test]
fn local_shadows_global_until_return() {
    // int x; int f() { int x; x = 2; return x; } int main() { x = 1; f(); return x; }
    let ast: CProg = vec![
        CProgElem::Decl((0, 1), CType::Int, "x".to_string(), None),
        func(
            "f",
            vec![
                CStmt::Decl((10, 1), CType::Int, "x".to_string(), None),
                CStmt::Assign((20, 1), "x".to_string(), None, CExpr::Int((0, 1), 2)),
                CStmt::Return((30, 1), Some(CExpr::Ident((0, 1), "x".to_string()))),
            ],
        ),
        func(
            "main",
            vec![
                CStmt::Assign((40, 1), "x".to_string(), None, CExpr::Int((0, 1), 1)),
                CStmt::Call((50, 1), "f".to_string(), vec![]),
                CStmt::Return((60, 1), Some(CExpr::Ident((0, 1), "x".to_string()))),
            ],
        ),
    ];
    let mut probe = Probe { repl: Repl::new(true, "", false), at: vec![(30, "print x"), (60, "print x")], seen: vec![] };
    assert_eq!(Some(SymVal::Int(1)), run_prog(&ast, &vec![], &mut probe, 1000).unwrap());
    assert_eq!(
        vec![
            Report::Value(Some(SymVal::Int(2)), Scope::Local),
            Report::Value(Some(SymVal::Int(1)), Scope::Global),
            Report::Value(Some(SymVal::Int(1)), Scope::Global),
        ],
        probe.seen
    );
}
