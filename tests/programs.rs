use semic::engine::{run_prog, Monitor};
use semic::env::SymTab;
use semic::error::CError;
use semic::parser::parse_prog;
use semic::value::SymVal;

struct Quiet;

impl Monitor for Quiet {
    fn before_stmt(&mut self, _loc: usize, _global: &SymTab, _local: &SymTab) {}

    fn print(&mut self, _value: &SymVal) {}

    fn finished(&mut self, _global: &SymTab, _local: &SymTab) {}
}

fn run(src: &str, args: &[&str]) -> Result<Option<SymVal>, CError> {
    let ast = parse_prog(src)?;
    let args: Vec<String> = args.iter().map(|s| s.to_string()).collect();
    run_prog(&ast, &args, &mut Quiet, 1_000_000)
}

#[test]
fn parsed_empty_main() {
    assert_eq!(None, run("\n    void main () {\n    }\n    ", &[]).unwrap());
}

#[test]
fn parsed_return_zero() {
    assert_eq!(Some(SymVal::Int(0)), run("int main () { return 0; }", &[]).unwrap());
}

#[test]
fn parsed_argc() {
    let src = "int main (int argc, char argv[][]) {\n  return argc;\n}\n";
    assert_eq!(Some(SymVal::Int(2)), run(src, &["a", "b"]).unwrap());
}

#[test]
fn parsed_precedence() {
    assert_eq!(Some(SymVal::Int(17)), run("int main() { return 1 + 2 * 2 * 4; }", &[]).unwrap());
    assert_eq!(Some(SymVal::Int(24)), run("int main() { return (1 + 2) * 2 * 4; }", &[]).unwrap());
    assert_eq!(Some(SymVal::Int(-2)), run("int main() { return - 1 * 2; }", &[]).unwrap());
}

#[test]
fn parsed_loops_and_calls() {
    let src = "
int total;
int add(int a, int b) { return a + b; }
int main() {
    int i, acc[3];
    total = 0;
    for (i = 0; i < 3; i = i + 1) {
        acc[i] = i * i;
        total = add(total, acc[i]);
    }
    while (total > 100) total = total - 1;
    if (total == 5 && acc[2] == 4) return total; else return -1;
}
";
    assert_eq!(Some(SymVal::Int(5)), run(src, &[]).unwrap());
}

#[test]
fn parsed_strings_and_chars() {
    let src = "int main() { char s[] = \"hi\"; char c = 'a'; return c; }";
    // 'a' stored into a char slot stays a char; returned as it is
    assert_eq!(Some(SymVal::Char('a')), run(src, &[]).unwrap());
    let src2 = "int main() { char s[] = \"hi\"; return s[2]; }";
    assert_eq!(Some(SymVal::Char('\0')), run(src2, &[]).unwrap());
}

#[test]
fn parsed_floats() {
    let src = "float main() { float f; int i; f = 1.5; i = f * 3; f = i; return f; }";
    assert_eq!(Some(SymVal::Float(4.0f32.to_bits())), run(src, &[]).unwrap());
}

#[test]
fn parsed_prototypes() {
    let src = "int foo(int a), bar(char b);\nvoid g(void);\nint main() { return 0; }";
    assert_eq!(Some(SymVal::Int(0)), run(src, &[]).unwrap());
}

#[test]
fn parse_errors() {
    assert!(matches!(parse_prog("main () {}"), Err(CError::ParseError(_, 0))));
    assert!(matches!(parse_prog("int 42foo42 ();"), Err(CError::ParseError(_, _))));
    assert!(matches!(parse_prog("int _foo_42 ();"), Err(CError::ParseError(_, 4))));
    assert!(matches!(parse_prog("int main() { return 0 }"), Err(CError::ParseError(_, 22))));
    assert!(matches!(parse_prog("int main() {"), Err(CError::ParseError(_, 12))));
    assert!(matches!(parse_prog("int main() { x = 99999999999; }"), Err(CError::ParseError(_, 17))));
    assert!(matches!(parse_prog("int main() { x = \"abc; }"), Err(CError::ParseError(_, 17))));
    assert!(parse_prog("int foo42 (); int foo_42 ();").is_ok());
}

#[test]
fn parsed_checker_errors() {
    match run("int x, x;", &[]) {
        Err(CError::CheckerError(es)) => assert_eq!(2, es.len()),
        other => panic!("unexpected {:?}", other),
    }
}

#[test]
fn parsed_out_of_bounds() {
    let src = "int main() {\n  int a[2];\n  a[0] = 1;\n  return a[2];\n}";
    match run(src, &[]) {
        Err(CError::RuntimeError(m, l)) => {
            assert_eq!("Index 2 out of bounds (range: 0..2)", m);
            assert_eq!(46, l);
        }
        other => panic!("unexpected {:?}", other),
    }
}
