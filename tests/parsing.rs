use semic::ast::{CExpr, CFunc, COp, CProgElem, CProto, CStmt, CType};
use semic::parser::{parse_expr, parse_func, parse_prog, parse_stmt};

// Renders syntax trees without their locations, so that a tree written by
// hand compares equal to a parsed one.

fn rt(t: &CType) -> String {
    match t {
        CType::Char => "char".to_string(),
        CType::Int => "int".to_string(),
        CType::Float => "float".to_string(),
        CType::Ref(t) => format!("{}*", rt(t)),
    }
}

fn rop(op: COp) -> &'static str {
    match op {
        COp::Mul => "*",
        COp::Div => "/",
        COp::Add => "+",
        COp::Sub => "-",
        COp::Eq => "==",
        COp::Neq => "!=",
        COp::Lt => "<",
        COp::Lte => "<=",
        COp::Gt => ">",
        COp::Gte => ">=",
        COp::And => "&&",
        COp::Or => "||",
        COp::Neg => "-",
        COp::Not => "!",
    }
}

fn re(e: &CExpr) -> String {
    match e {
        CExpr::Int(_, i) => format!("{:?}", i),
        CExpr::Float(_, f) => format!("{:.2}", f32::from_bits(*f)),
        CExpr::Str(_, s) => format!("\"{}\"", s.iter().collect::<String>()),
        CExpr::Char(_, c) => format!("{:?}", c),
        CExpr::Ident(_, s) => s.clone(),
        CExpr::UnOp(_, op, e) => format!("({}{})", rop(*op), re(e)),
        CExpr::BinOp(_, op, l, r) => format!("({} {} {})", re(l), rop(*op), re(r)),
        CExpr::Call(_, f, args) => format!("{}({})", f, args.iter().map(re).collect::<Vec<_>>().join(", ")),
        CExpr::Index(_, a, i) => format!("{}[{}]", a, re(i)),
        CExpr::Error => "error".to_string(),
    }
}

fn rs(s: &CStmt) -> String {
    match s {
        CStmt::Assign(_, l, Some(i), r) => format!("{}[{}] = {}", l, re(i), re(r)),
        CStmt::Assign(_, l, None, r) => format!("{} = {}", l, re(r)),
        CStmt::Decl(_, t, id, Some(n)) => format!("{} {}[{}]", rt(t), id, re(n)),
        CStmt::Decl(_, t, id, None) => format!("{} {}", rt(t), id),
        CStmt::Return(_, Some(e)) => format!("return {}", re(e)),
        CStmt::Return(_, None) => "return".to_string(),
        CStmt::Block(ss) => format!("[{}]", ss.iter().map(rs).collect::<Vec<_>>().join(", ")),
        CStmt::If(_, c, s, Some(s2)) => format!("if {} {} else {}", re(c), rs(s), rs(s2)),
        CStmt::If(_, c, s, None) => format!("if {} {}", re(c), rs(s)),
        CStmt::While(_, c, s) => format!("while {} {}", re(c), rs(s)),
        CStmt::Call(_, f, args) => format!("{}({})", f, args.iter().map(re).collect::<Vec<_>>().join(", ")),
        CStmt::Print(_, e) => format!("printf({})", re(e)),
        CStmt::Error => "error".to_string(),
    }
}

fn rproto(p: &CProto) -> String {
    let params: Vec<String> = p.params.iter().map(|(t, n)| format!("({}, {:?})", rt(t), n)).collect();
    let ret = match &p.ret {
        Some(t) => format!("Some({})", rt(t)),
        None => "None".to_string(),
    };
    format!("CProto {{ ret: {}, name: {:?}, params: [{}] }}", ret, p.name, params.join(", "))
}

fn rfunc(f: &CFunc) -> String {
    let body: Vec<String> = f.stmts.iter().map(rs).collect();
    format!("CFunc {{ proto: {}, body: [{}] }}", rproto(&f.proto), body.join(", "))
}

fn relem(e: &CProgElem) -> String {
    match e {
        CProgElem::Decl(_, t, id, Some(i)) => format!("{} {}[{}]", rt(t), id, i),
        CProgElem::Decl(_, t, id, None) => format!("{} {}", rt(t), id),
        CProgElem::Proto(_, p) => rproto(p),
        CProgElem::Func(_, f) => rfunc(f),
        CProgElem::Error => "error".to_string(),
    }
}

fn rprog(p: &[CProgElem]) -> String {
    format!("[{}]", p.iter().map(relem).collect::<Vec<_>>().join(", "))
}

const L: (usize, usize) = (0, 0);

fn lit(i: i32) -> CExpr {
    CExpr::Int(L, i)
}

fn ret() -> CStmt {
    CStmt::Return(L, None)
}

fn block(v: Vec<CStmt>) -> CStmt {
    CStmt::Block(v)
}

fn proto(ret: Option<CType>, name: &str, params: Vec<(CType, &str)>) -> CProto {
    CProto { ret, name: name.to_string(), params: params.into_iter().map(|(t, n)| (t, n.to_string())).collect() }
}

fn func(ret: Option<CType>, params: Vec<(CType, &str)>, stmts: Vec<CStmt>) -> CFunc {
    CFunc { proto: proto(ret, "main", params), stmts }
}

fn decl(t: CType, id: &str, n: Option<CExpr>) -> CStmt {
    CStmt::Decl(L, t, id.to_string(), n)
}

fn assign(id: &str, i: Option<CExpr>, e: CExpr) -> CStmt {
    CStmt::Assign(L, id.to_string(), i, e)
}

fn arr(t: CType) -> CType {
    CType::Ref(Box::new(t))
}

#[test]
fn expr_arith() {
    let actual = parse_expr(r"- 1 * 2");
    let expected = "((-1) * 2)";
    assert!(actual.is_ok());
    assert_eq!(expected, re(&actual.unwrap()));

    let actual2 = parse_expr(r"1 + 2 * 2");
    let expected2 = "(1 + (2 * 2))";
    assert!(actual2.is_ok());
    assert_eq!(expected2, re(&actual2.unwrap()));

    let actual3 = parse_expr(r"1 + 2 * 2 * 4");
    let expected3 = "(1 + ((2 * 2) * 4))";
    assert!(actual3.is_ok());
    assert_eq!(expected3, re(&actual3.unwrap()));

    let actual4 = parse_expr(r"(1 + 2) * 2 * 4");
    let expected4 = "(((1 + 2) * 2) * 4)";
    assert!(actual4.is_ok());
    assert_eq!(expected4, re(&actual4.unwrap()));
}

#[test]
fn expr_rel() {
    let actual = parse_expr(r#"s == "foo" || i < 9"#);
    let expected = r#"((s == "foo") || (i < 9))"#;
    assert!(actual.is_ok());
    assert_eq!(expected, re(&actual.unwrap()));
}

#[test]
fn expr_float() {
    let actual = parse_expr(r#"0.0"#);
    let expected = r#"0.00"#;
    assert!(actual.is_ok());
    assert_eq!(expected, re(&actual.unwrap()));
}

#[test]
fn stmt_return_empty() {
    let actual = parse_stmt(r#"return;"#);
    let expected = ret();
    assert!(actual.is_ok());
    assert_eq!(rs(&expected), rs(&actual.unwrap()));
}

#[test]
fn stmt_return_expr() {
    let actual = parse_stmt(r#"return 1 + - 2;"#);
    let expected = CStmt::Return(
        L,
        Some(CExpr::BinOp(L, COp::Add, Box::new(lit(1)), Box::new(CExpr::UnOp(L, COp::Sub, Box::new(lit(2)))))),
    );
    assert!(actual.is_ok());
    assert_eq!(rs(&expected), rs(&actual.unwrap()));
}

#[test]
fn stmt_if_single() {
    let actual = parse_stmt(r#"if (1) return;"#);
    let expected = CStmt::If(L, lit(1), Box::new(ret()), None);
    assert!(actual.is_ok());
    assert_eq!(rs(&expected), rs(&actual.unwrap()));
}

#[test]
fn stmt_if_block() {
    let actual = parse_stmt(r#"if (1) { return; }"#);
    let expected = CStmt::If(L, lit(1), Box::new(block(vec![ret()])), None);
    assert!(actual.is_ok());
    assert_eq!(rs(&expected), rs(&actual.unwrap()));
}

#[test]
fn stmt_if_else_single() {
    let actual = parse_stmt(r#"if (1) return; else return;"#);
    let expected = CStmt::If(L, lit(1), Box::new(ret()), Some(Box::new(ret())));
    assert!(actual.is_ok());
    assert_eq!(rs(&expected), rs(&actual.unwrap()));
}

#[test]
fn stmt_if_else_block() {
    let actual = parse_stmt(r#"if (1) { return; } else { return; }"#);
    let expected = CStmt::If(L, lit(1), Box::new(block(vec![ret()])), Some(Box::new(block(vec![ret()]))));
    assert!(actual.is_ok());
    assert_eq!(rs(&expected), rs(&actual.unwrap()));
}

#[test]
fn stmt_if_else_mixed() {
    let actual = parse_stmt(r#"if (1) return; else { return; }"#);
    let actual2 = parse_stmt(r#"if (1) { return; } else return;"#);
    let expected = CStmt::If(L, lit(1), Box::new(ret()), Some(Box::new(block(vec![ret()]))));
    let expected2 = CStmt::If(L, lit(1), Box::new(block(vec![ret()])), Some(Box::new(ret())));
    assert!(actual.is_ok());
    assert!(actual2.is_ok());
    assert_eq!(rs(&expected), rs(&actual.unwrap()));
    assert_eq!(rs(&expected2), rs(&actual2.unwrap()));
}

#[test]
fn stmt_if_else_nested() {
    let actual = parse_stmt(r#"if (1) { if (1) return; else return; }"#);
    let inner = CStmt::If(L, lit(1), Box::new(ret()), Some(Box::new(ret())));
    let expected = CStmt::If(L, lit(1), Box::new(block(vec![inner])), None);
    assert!(actual.is_ok());
    assert_eq!(rs(&expected), rs(&actual.unwrap()));
}

#[test]
fn stmt_else_single() {
    let actual = parse_stmt(r#"while (1) return;"#);
    let expected = CStmt::While(L, lit(1), Box::new(ret()));
    assert!(actual.is_ok());
    assert_eq!(rs(&expected), rs(&actual.unwrap()));
}

#[test]
fn stmt_else_block() {
    let actual = parse_stmt(r#"while (1) { return; }"#);
    let expected = CStmt::While(L, lit(1), Box::new(block(vec![ret()])));
    assert!(actual.is_ok());
    assert_eq!(rs(&expected), rs(&actual.unwrap()));
}

#[test]
fn stmt_for_cond() {
    let actual = parse_stmt(r#"for (;1;) return;"#);
    let expected = block(vec![CStmt::While(L, lit(1), Box::new(ret()))]);
    assert!(actual.is_ok());
    assert_eq!(rs(&expected), rs(&actual.unwrap()));
}

#[test]
fn stmt_for_all() {
    let actual = parse_stmt(r#"for (i = 0;1;i = i + 1) return;"#);
    let inc = assign("i", None, CExpr::BinOp(L, COp::Add, Box::new(CExpr::Ident(L, "i".to_string())), Box::new(lit(1))));
    let expected = block(vec![
        assign("i", None, lit(0)),
        CStmt::While(L, lit(1), Box::new(block(vec![ret(), inc]))),
    ]);
    assert!(actual.is_ok());
    assert_eq!(rs(&expected), rs(&actual.unwrap()));
}

#[test]
fn for_without_condition_loops_on_true() {
    let actual = parse_stmt(r#"for (;;) return;"#);
    let always = CExpr::BinOp(L, COp::Eq, Box::new(lit(0)), Box::new(lit(0)));
    let expected = block(vec![CStmt::While(L, always, Box::new(ret()))]);
    assert_eq!(rs(&expected), rs(&actual.unwrap()));
}

#[test]
fn func_empty() {
    let actual = parse_func("\n        void main (void) {}\n    ");
    let actual2 = parse_func("\n        void main () {}\n    ");
    let expected = func(None, vec![], vec![]);
    assert!(actual.is_ok());
    assert!(actual2.is_ok());
    assert_eq!(rfunc(&expected), rfunc(&actual.unwrap()));
    assert_eq!(rfunc(&expected), rfunc(&actual2.unwrap()));
}

#[test]
fn func_return_type() {
    let actual = parse_func("\n        int main (void) {}\n    ");
    let expected = func(Some(CType::Int), vec![], vec![]);
    assert!(actual.is_ok());
    assert_eq!(rfunc(&expected), rfunc(&actual.unwrap()));
}

#[test]
fn func_param_type_single() {
    let actual = parse_func("\n        int main (int a) {}\n    ");
    let expected = func(Some(CType::Int), vec![(CType::Int, "a")], vec![]);
    assert!(actual.is_ok());
    assert_eq!(rfunc(&expected), rfunc(&actual.unwrap()));
}

#[test]
fn func_param_type_mult() {
    let actual = parse_func("\n        int main (int a, char b) {}\n    ");
    let expected = func(Some(CType::Int), vec![(CType::Int, "a"), (CType::Char, "b")], vec![]);
    assert!(actual.is_ok());
    assert_eq!(rfunc(&expected), rfunc(&actual.unwrap()));
}

#[test]
fn func_decl_single_type_single_ident() {
    let actual = parse_func("\n        int main (void) {\n            int x;\n        }\n    ");
    let expected = func(Some(CType::Int), vec![], vec![decl(CType::Int, "x", None)]);
    assert!(actual.is_ok());
    assert_eq!(rfunc(&expected), rfunc(&actual.unwrap()));
}

#[test]
fn func_decl_single_type_single_array() {
    let actual = parse_func("\n        int main (void) {\n            int x[7];\n        }\n    ");
    let expected = func(Some(CType::Int), vec![], vec![decl(arr(CType::Int), "x", Some(lit(7)))]);
    assert!(actual.is_ok());
    assert_eq!(rfunc(&expected), rfunc(&actual.unwrap()));
}

#[test]
fn func_decl_single_type_mult_ident() {
    let actual = parse_func("\n        int main (void) {\n            int x, y;\n        }\n    ");
    let expected = func(Some(CType::Int), vec![], vec![decl(CType::Int, "x", None), decl(CType::Int, "y", None)]);
    assert!(actual.is_ok());
    assert_eq!(rfunc(&expected), rfunc(&actual.unwrap()));
}

#[test]
fn func_decl_single_type_mult_array() {
    let actual = parse_func("\n        int main (void) {\n            int x[7], y[8];\n        }\n    ");
    let expected = func(
        Some(CType::Int),
        vec![],
        vec![decl(arr(CType::Int), "x", Some(lit(7))), decl(arr(CType::Int), "y", Some(lit(8)))],
    );
    assert!(actual.is_ok());
    assert_eq!(rfunc(&expected), rfunc(&actual.unwrap()));
}

#[test]
fn func_decl_mult_type_single_ident() {
    let actual = parse_func("\n        int main (void) {\n            int x;\n            char y;\n        }\n    ");
    let expected = func(Some(CType::Int), vec![], vec![decl(CType::Int, "x", None), decl(CType::Char, "y", None)]);
    assert!(actual.is_ok());
    assert_eq!(rfunc(&expected), rfunc(&actual.unwrap()));
}

#[test]
fn func_decl_mult_type_mult_ident() {
    let actual = parse_func("\n        int main (void) {\n            int x, y;\n            char a, b;\n        }\n    ");
    let expected = func(
        Some(CType::Int),
        vec![],
        vec![
            decl(CType::Int, "x", None),
            decl(CType::Int, "y", None),
            decl(CType::Char, "a", None),
            decl(CType::Char, "b", None),
        ],
    );
    assert!(actual.is_ok());
    assert_eq!(rfunc(&expected), rfunc(&actual.unwrap()));
}

#[test]
fn func_decl_after_stmt() {
    let actual = parse_func("\n        void main (void) {\n            return;\n            char a;\n            return;\n        }\n    ");
    let expected = func(None, vec![], vec![ret(), decl(CType::Char, "a", None), ret()]);
    assert!(actual.is_ok());
    assert_eq!(rfunc(&expected), rfunc(&actual.unwrap()));
}

#[test]
fn func_decl_imm_init() {
    let actual = parse_func("\n        void main (void) {\n            char a = 'a';\n        }\n    ");
    let expected = func(None, vec![], vec![decl(CType::Char, "a", None), assign("a", None, CExpr::Char(L, 'a'))]);
    assert!(actual.is_ok());
    assert_eq!(rfunc(&expected), rfunc(&actual.unwrap()));
}

#[test]
fn func_decl_imm_init_string() {
    let actual = parse_func("\n        void main (void) {\n            char a[] = \"foobar\";\n        }\n    ");
    let expected = func(
        None,
        vec![],
        vec![decl(arr(CType::Char), "a", None), assign("a", None, CExpr::Str(L, "foobar".chars().collect()))],
    );
    assert!(actual.is_ok());
    assert_eq!(rfunc(&expected), rfunc(&actual.unwrap()));
}

#[test]
fn func_no_decl_single_stmt() {
    let actual = parse_func("\n        int main (void) {\n            return 0;\n        }\n    ");
    let expected = func(Some(CType::Int), vec![], vec![CStmt::Return(L, Some(lit(0)))]);
    assert!(actual.is_ok());
    assert_eq!(rfunc(&expected), rfunc(&actual.unwrap()));
}

#[test]
fn func_single_decl_single_stmt() {
    let actual = parse_func("\n        int main (void) {\n            int x;\n            x = 1;\n        }\n    ");
    let expected = func(Some(CType::Int), vec![], vec![decl(CType::Int, "x", None), assign("x", None, lit(1))]);
    assert!(actual.is_ok());
    assert_eq!(rfunc(&expected), rfunc(&actual.unwrap()));
}

#[test]
fn func_single_array_single_stmt() {
    let actual = parse_func("\n        int main (void) {\n            char x[7];\n            x[6] = '\\0';\n        }\n    ");
    let expected = func(
        Some(CType::Int),
        vec![],
        vec![decl(arr(CType::Char), "x", Some(lit(7))), assign("x", Some(lit(6)), CExpr::Char(L, '\0'))],
    );
    assert!(actual.is_ok());
    assert_eq!(rfunc(&expected), rfunc(&actual.unwrap()));
}

#[test]
fn func_stmt_mult() {
    let actual = parse_func(
        "\n        int main (void) {\n            int x, y;\n            x = 1;\n            y = 2;\n            return x + y;\n        }\n    ",
    );
    let sum = CExpr::BinOp(L, COp::Add, Box::new(CExpr::Ident(L, "x".to_string())), Box::new(CExpr::Ident(L, "y".to_string())));
    let expected = func(
        Some(CType::Int),
        vec![],
        vec![
            decl(CType::Int, "x", None),
            decl(CType::Int, "y", None),
            assign("x", None, lit(1)),
            assign("y", None, lit(2)),
            CStmt::Return(L, Some(sum)),
        ],
    );
    assert!(actual.is_ok());
    assert_eq!(rfunc(&expected), rfunc(&actual.unwrap()));
}

#[test]
fn prog_prog_empty() {
    let actual = parse_prog(r#""#);
    assert!(actual.is_ok());
    assert_eq!(format!("[]"), rprog(&actual.unwrap()));
}

#[test]
fn prog_proto_void() {
    let actual = parse_prog("\n        void foo (void);\n    ");
    let actual2 = parse_prog("\n        void foo ();\n    ");
    let expected = proto(None, "foo", vec![]);
    assert!(actual.is_ok());
    assert!(actual2.is_ok());
    assert_eq!(format!("[{}]", rproto(&expected)), rprog(&actual.unwrap()));
    assert_eq!(format!("[{}]", rproto(&expected)), rprog(&actual2.unwrap()));
}

#[test]
fn prog_proto_types() {
    let actual = parse_prog("\n        int foo (int a, char b);\n    ");
    let expected = proto(Some(CType::Int), "foo", vec![(CType::Int, "a"), (CType::Char, "b")]);
    assert!(actual.is_ok());
    assert_eq!(format!("[{}]", rproto(&expected)), rprog(&actual.unwrap()));
}

#[test]
fn prog_proto_names_good() {
    let actual = parse_prog("\n        int foo42 ();\n    ");
    let actual2 = parse_prog("\n        int foo_42 ();\n    ");
    let expected = proto(Some(CType::Int), "foo42", vec![]);
    let expected2 = proto(Some(CType::Int), "foo_42", vec![]);
    assert!(actual.is_ok());
    assert!(actual2.is_ok());
    assert_eq!(format!("[{}]", rproto(&expected)), rprog(&actual.unwrap()));
    assert_eq!(format!("[{}]", rproto(&expected2)), rprog(&actual2.unwrap()));
}

#[test]
fn prog_proto_names_bad() {
    let actual = parse_prog("\n        int 42foo42 ();\n    ");
    let actual2 = parse_prog("\n        int _foo_42 ();\n    ");
    assert!(actual.is_err());
    assert!(actual2.is_err());
}

#[test]
fn prog_proto_mult() {
    let actual = parse_prog("\n        int foo(int a), bar(char b);\n    ");
    let expected = vec![
        proto(Some(CType::Int), "foo", vec![(CType::Int, "a")]),
        proto(Some(CType::Int), "bar", vec![(CType::Char, "b")]),
    ];
    assert!(actual.is_ok());
    let shown: Vec<String> = expected.iter().map(rproto).collect();
    assert_eq!(format!("[{}]", shown.join(", ")), rprog(&actual.unwrap()));
}

#[test]
fn globals_and_definitions() {
    let actual = parse_prog("int x, y[4];\nint main() { return 0; }").unwrap();
    assert_eq!(2 + 1, actual.len());
    assert_eq!("int x", relem(&actual[0]));
    assert_eq!("int* y[4]", relem(&actual[1]));
}
