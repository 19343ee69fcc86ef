use semic::ast::CType;
use semic::env::SymTab;
use semic::value::SymVal;

#[test]
fn get_type() {
    let mut tab = SymTab::new();

    assert!(tab.get_type("i").is_none());

    tab.insert("i", CType::Ref(Box::new(CType::Int)), Some(4), None, None);

    let meta = tab.get_type("i");
    assert!(meta.is_some());

    let (t, s) = meta.unwrap();
    assert_eq!(CType::Ref(Box::new(CType::Int)), t);
    assert_eq!(Some(4), s);
}

#[test]
fn get_val() {
    let mut tab = SymTab::new();

    assert!(tab.get_val("i").is_none());

    tab.insert("i", CType::Int, None, None, None);

    assert!(tab.get_val("i").is_none());

    tab.insert("j", CType::Int, None, Some(SymVal::Int(2)), None);

    let val = tab.get_val("j");
    assert!(val.is_some());
    assert_eq!(Some(SymVal::Int(2)), val);
}

#[test]
fn set_val() {
    let mut tab = SymTab::new();

    assert!(tab.get_val("i").is_none());

    tab.insert("i", CType::Int, None, None, None);

    assert!(tab.get_val("i").is_none());

    let res = tab.set_val("i", None, SymVal::Int(2), None);
    assert!(res.is_ok());

    let val = tab.get_val("i");
    assert!(val.is_some());
    assert_eq!(Some(SymVal::Int(2)), val);
}

#[test]
fn set_val_array() {
    let mut tab = SymTab::new();

    assert!(tab.get_val("i").is_none());

    tab.insert("i", CType::Ref(Box::new(CType::Int)), Some(2), None, None);

    assert!(tab.get_val("i").is_none());

    let res = tab.set_val("i", Some(0), SymVal::Int(1), None);
    assert!(res.is_ok());

    let valo = tab.get_val("i");
    assert!(valo.is_some());
    let val = valo.unwrap();
    assert_eq!(SymVal::Array(vec![Box::new(SymVal::Int(1)), Box::new(SymVal::Int(0))]), val);

    let res2 = tab.set_val("i", Some(1), SymVal::Int(2), None);
    assert!(res2.is_ok());

    let valo2 = tab.get_val("i");
    assert!(valo2.is_some());
    let val2 = valo2.unwrap();
    assert_eq!(SymVal::Array(vec![Box::new(SymVal::Int(1)), Box::new(SymVal::Int(2))]), val2);
}

#[test]
fn get_trace() {
    let mut tab = SymTab::new();

    assert!(tab.get_trace("i").is_none());

    tab.insert("i", CType::Int, None, None, Some(0));

    let traceo = tab.get_trace("i");
    assert!(traceo.is_some());
    let trace = traceo.unwrap();
    assert_eq!(1, trace.len());
    let val = trace.get(0);
    assert!(val.is_some());
    assert_eq!((None, Some(0)), *val.unwrap());

    let res = tab.set_val("i", None, SymVal::Int(2), Some(2));
    assert!(res.is_ok());

    let traceo2 = tab.get_trace("i");
    assert!(traceo2.is_some());
    let trace2 = traceo2.unwrap();
    assert_eq!(2, trace2.len());
    let val2 = trace2.get(1);
    assert!(val2.is_some());
    assert_eq!((Some(SymVal::Int(2)), Some(2)), *val2.unwrap());
}

fn ints(v: &[i32]) -> SymVal {
    SymVal::Array(v.iter().map(|i| Box::new(SymVal::Int(*i))).collect())
}

#[test]
fn lazy_array_keeps_earlier_writes() {
    let mut tab = SymTab::new();
    tab.insert("x", CType::Int, Some(3), None, Some(0));
    assert!(tab.set_val("x", Some(1), SymVal::Int(5), Some(10)).is_ok());
    assert_eq!(Some(ints(&[0, 5, 0])), tab.get_val("x"));
    assert!(tab.set_val("x", Some(0), SymVal::Int(9), Some(20)).is_ok());
    assert_eq!(Some(ints(&[9, 5, 0])), tab.get_val("x"));
}

#[test]
fn history_keeps_order() {
    let mut tab = SymTab::new();
    tab.insert("x", CType::Int, None, Some(SymVal::Int(1)), Some(10));
    assert!(tab.set_val("x", None, SymVal::Int(2), Some(20)).is_ok());
    assert!(tab.set_val("x", None, SymVal::Int(3), Some(30)).is_ok());
    let trace = tab.get_trace("x").unwrap();
    assert_eq!(
        vec![
            (Some(SymVal::Int(1)), Some(10)),
            (Some(SymVal::Int(2)), Some(20)),
            (Some(SymVal::Int(3)), Some(30)),
        ],
        trace
    );
}

#[test]
fn history_after_declaration() {
    let mut tab = SymTab::new();
    tab.insert("x", CType::Int, None, None, Some(5));
    for (v, l) in [(1, 10), (2, 20), (3, 30)] {
        assert!(tab.set_val("x", None, SymVal::Int(v), Some(l)).is_ok());
    }
    let trace = tab.get_trace("x").unwrap();
    assert_eq!(4, trace.len());
    assert_eq!((None, Some(5)), trace[0]);
    assert_eq!((Some(SymVal::Int(3)), Some(30)), trace[3]);
}

#[test]
fn set_val_undeclared() {
    let mut tab = SymTab::new();
    let r = tab.set_val("q", None, SymVal::Int(1), None);
    assert_eq!(Err("Variable 'q' not declared".to_string()), r);
}

#[test]
fn set_val_not_an_array() {
    let mut tab = SymTab::new();
    tab.insert("q", CType::Int, None, Some(SymVal::Int(4)), None);
    let r = tab.set_val("q", Some(0), SymVal::Int(1), None);
    assert_eq!(Err("Variable 'q' is not an array".to_string()), r);
    tab.insert("u", CType::Int, None, None, None);
    let r2 = tab.set_val("u", Some(0), SymVal::Int(1), None);
    assert_eq!(Err("Variable 'u' is not an array".to_string()), r2);
}

#[test]
fn set_val_out_of_bounds() {
    let mut tab = SymTab::new();
    tab.insert("a", CType::Int, Some(2), None, None);
    let r = tab.set_val("a", Some(2), SymVal::Int(1), None);
    assert_eq!(Err("Index 2 out of bounds (range: 0..2)".to_string()), r);
    assert!(tab.set_val("a", Some(1), SymVal::Int(1), None).is_ok());
    let r2 = tab.set_val("a", Some(7), SymVal::Int(1), None);
    assert_eq!(Err("Index 7 out of bounds (range: 0..2)".to_string()), r2);
}

#[test]
fn lookups_search_outward() {
    let mut tab = SymTab::new();
    tab.insert("y", CType::Int, None, Some(SymVal::Int(7)), Some(1));
    tab.push_frame();
    assert_eq!(Some(SymVal::Int(7)), tab.get_val("y"));
    assert_eq!(Some(SymVal::Int(7)), tab.get_val_parent("y"));
    assert_eq!(None, tab.get_local("y"));
    assert_eq!(Some((CType::Int, None)), tab.get_type("y"));
    tab.insert("y", CType::Int, None, Some(SymVal::Int(8)), None);
    assert_eq!(Some(SymVal::Int(8)), tab.get_val("y"));
    assert_eq!(Some(Some(SymVal::Int(8))), tab.get_local("y"));
    assert_eq!(Some(SymVal::Int(7)), tab.get_val_parent("y"));
    assert!(tab.pop_frame().is_ok());
    assert_eq!(Some(SymVal::Int(7)), tab.get_val("y"));
    assert!(tab.pop_frame().is_err());
    assert_eq!(Some(SymVal::Int(7)), tab.get_val("y"));
}

#[test]
fn writes_reach_the_nearest_binding() {
    let mut tab = SymTab::new();
    tab.insert("z", CType::Int, None, None, Some(0));
    tab.insert("a", CType::Int, Some(2), None, Some(0));
    tab.push_frame();
    tab.insert("w", CType::Int, None, None, None);
    assert!(tab.set_val("z", None, SymVal::Int(3), Some(4)).is_ok());
    assert!(tab.set_val("a", Some(1), SymVal::Int(6), Some(5)).is_ok());
    assert!(tab.set_val("a", Some(0), SymVal::Int(2), Some(6)).is_ok());
    assert_eq!(Some(vec![(None, Some(0)), (Some(SymVal::Int(3)), Some(4))]), tab.get_trace("z"));
    assert_eq!(None, tab.get_local("z"));
    assert_eq!(Some(vec![(None, None)]), tab.get_trace("w"));
    assert!(tab.pop_frame().is_ok());
    assert_eq!(Some(SymVal::Int(3)), tab.get_val("z"));
    let two = SymVal::Array(vec![Box::new(SymVal::Int(2)), Box::new(SymVal::Int(6))]);
    assert_eq!(Some(two), tab.get_val("a"));
    assert!(tab.get_val("w").is_none());
}

#[test]
fn insert_returns_previous_entry() {
    let mut tab = SymTab::new();
    assert!(tab.insert("x", CType::Int, None, None, Some(1)).is_none());
    let prev = tab.insert("x", CType::Char, None, None, Some(2)).unwrap();
    assert_eq!(CType::Int, prev.0);
    assert_eq!(vec![(None, Some(1))], prev.2);
    assert_eq!(Some((CType::Char, None)), tab.get_type("x"));
}
