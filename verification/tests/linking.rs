use serpent_ci::library::{FunctionId, Library};
use serpent_ci::syntax_tree::{parse, Expression, Statement};

fn link(source: &str) -> Library {
    Library::link(parse(source).unwrap()).unwrap()
}

fn call_target(statement: &Statement<FunctionId>) -> FunctionId {
    match statement {
        Statement::Expression(Expression::Call { target, .. }) => *target,
        _ => panic!("expected a call statement"),
    }
}

#[test]
fn entry_point_is_found() {
    let library = link("def main():\n    pass\n");
    let main = library.main().unwrap();
    assert_eq!(main.name(), "main");
    assert_eq!(main.body().len(), 1);
}

#[test]
fn no_entry_point_without_main() {
    let library = link("def helper():\n    pass\n");
    assert!(library.main().is_none());
}

#[test]
fn single_call_links_to_position() {
    let library = link("def main():\n    function1()\ndef function1():\n    pass\n");
    assert_eq!(library.len(), 2);
    let main = library.main().unwrap();
    assert_eq!(main.name(), "main");
    let target = call_target(&main.body()[0]);
    assert_eq!(target, FunctionId(1));
    assert_eq!(library.lookup(target).name(), "function1");
}

#[test]
fn forward_and_backward_references_resolve() {
    let library = link("def a():\n    b()\ndef b():\n    a()\n");
    let a = library.lookup(FunctionId(0));
    let b = library.lookup(FunctionId(1));
    assert_eq!(a.name(), "a");
    assert_eq!(b.name(), "b");
    assert_eq!(call_target(&a.body()[0]), FunctionId(1));
    assert_eq!(call_target(&b.body()[0]), FunctionId(0));
}

#[test]
fn self_reference_resolves() {
    let library = link("def a():\n    a()\n");
    let a = library.lookup(FunctionId(0));
    assert_eq!(call_target(&a.body()[0]), FunctionId(0));
}

#[test]
fn order_and_names_are_preserved() {
    let library = link("def c():\n    pass\ndef a():\n    pass\ndef b():\n    pass\n");
    assert_eq!(library.len(), 3);
    assert_eq!(library.lookup(FunctionId(0)).name(), "c");
    assert_eq!(library.lookup(FunctionId(1)).name(), "a");
    assert_eq!(library.lookup(FunctionId(2)).name(), "b");
}

#[test]
fn statement_order_is_preserved() {
    let library = link("def main():\n    pass\n    x()\n    pass\ndef x():\n    pass\n");
    let main = library.main().unwrap();
    let body = main.body();
    assert_eq!(body.len(), 3);
    assert!(matches!(body[0], Statement::Pass));
    assert!(matches!(body[1], Statement::Expression(_)));
    assert!(matches!(body[2], Statement::Pass));
}

#[test]
fn unresolved_reference_is_reported() {
    let module = parse("def a():\n    b()\n").unwrap();
    let err = Library::link(module).unwrap_err();
    assert_eq!(err.name, "b");
    assert_eq!(err.function, "a");
}

#[test]
fn unresolved_reference_inside_arguments() {
    let module = parse("def a():\n    a(missing)\ndef missing():\n    nowhere()\n").unwrap();
    let err = Library::link(module).unwrap_err();
    assert_eq!(err.name, "nowhere");
    assert_eq!(err.function, "missing");
}

#[test]
fn variables_are_not_call_targets() {
    // a bare identifier carries no call semantics, so it need not resolve
    let library = link("def main():\n    some_name\n");
    let main = library.main().unwrap();
    assert!(matches!(
        main.body()[0],
        Statement::Expression(Expression::Variable { .. })
    ));
}

#[test]
fn later_duplicate_wins_resolution() {
    let library = link("def f():\n    pass\ndef f():\n    f()\n");
    assert_eq!(library.len(), 2);
    assert_eq!(library.lookup(FunctionId(0)).name(), "f");
    assert_eq!(library.lookup(FunctionId(1)).name(), "f");
    assert_eq!(call_target(&library.lookup(FunctionId(1)).body()[0]), FunctionId(1));
}

#[test]
fn sample_program_links() {
    let source = "def main():\n    function1()\n    function2()\n\ndef function1():\n    function2(function3())\n\ndef function2():\n    pass\n\ndef function3():\n    pass\n";
    let library = link(source);
    assert_eq!(library.len(), 4);
    let main = library.main().unwrap();
    assert_eq!(main.name(), "main");
    assert_eq!(call_target(&main.body()[0]), FunctionId(1));
    assert_eq!(call_target(&main.body()[1]), FunctionId(2));
    let f1 = library.lookup(FunctionId(1));
    match &f1.body()[0] {
        Statement::Expression(Expression::Call { target, args }) => {
            assert_eq!(*target, FunctionId(2));
            assert_eq!(args.len(), 1);
            assert!(matches!(
                args[0],
                Expression::Call { target: FunctionId(3), .. }
            ));
        }
        _ => panic!("expected a call statement"),
    }
}

#[test]
fn unresolved_nested_argument() {
    let module = parse("def a():\n    a(b())\n").unwrap();
    let err = Library::link(module).unwrap_err();
    assert_eq!(err.name, "b");
    assert_eq!(err.function, "a");
}

#[test]
fn bodies_are_shared_not_copied() {
    let library = link("def main():\n    pass\n");
    let through_lookup = std::rc::Rc::clone(library.lookup(FunctionId(0)).body());
    let through_main = std::rc::Rc::clone(library.main().unwrap().body());
    assert!(std::rc::Rc::ptr_eq(&through_lookup, &through_main));
}
