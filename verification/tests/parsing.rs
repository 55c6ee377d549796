use serpent_ci::syntax_tree::{parse, Expression, Function, Module, Statement};

fn parse_function_body(input: &str, body: Vec<Statement<String>>) {
    assert_eq!(
        parse(input).unwrap(),
        Module::new(vec![Function::new("test".to_string(), body)])
    );
}

fn parse_expression(input: &str, expression: Expression<String>) {
    parse_function_body(input, vec![Statement::Expression(expression)]);
}

#[test]
fn empty_fn() {
    parse_function_body("def test():\n    pass\n", vec![Statement::Pass]);
}

#[test]
fn multi_line() {
    parse_function_body(
        "def test():\n    pass\n    pass\n",
        vec![Statement::Pass, Statement::Pass],
    );
}

#[test]
fn blank_line() {
    parse_function_body("def test():\n\n    pass\n", vec![Statement::Pass]);
}

#[test]
fn comment() {
    parse_function_body("def test():\n    # Comment\n    pass\n", vec![Statement::Pass]);
}

#[test]
fn variable_expression() {
    parse_expression(
        "def test():\n    x\n",
        Expression::Variable {
            name: "x".to_string(),
        },
    );
}

#[test]
fn call0_expression() {
    parse_expression(
        "def test():\n    x()\n",
        Expression::Call {
            target: "x".to_string(),
            args: Vec::new(),
        },
    );
}

#[test]
fn call1_expression() {
    parse_expression(
        "def test():\n    x(y)\n",
        Expression::Call {
            target: "x".to_string(),
            args: vec![Expression::Variable {
                name: "y".to_string(),
            }],
        },
    );
}

#[test]
fn call2_expression() {
    parse_expression(
        "def test():\n    x(y, z)\n",
        Expression::Call {
            target: "x".to_string(),
            args: vec![
                Expression::Variable {
                    name: "y".to_string(),
                },
                Expression::Variable {
                    name: "z".to_string(),
                },
            ],
        },
    );
}

#[test]
fn call2_multiline_expression() {
    parse_expression(
        "def test():\n    x(\n        y,\n        z\n    )\n",
        Expression::Call {
            target: "x".to_string(),
            args: vec![
                Expression::Variable {
                    name: "y".to_string(),
                },
                Expression::Variable {
                    name: "z".to_string(),
                },
            ],
        },
    );
}

#[test]
fn basic_parsing() {
    let input = "def test():\n    pass\n";
    let module = parse(input).unwrap();
    assert_eq!(
        module,
        Module::new(vec![Function::new(
            "test".to_owned(),
            vec![Statement::Pass],
        )])
    );
}

#[test]
fn inline_body() {
    parse_function_body("def test(): pass\n", vec![Statement::Pass]);
}

#[test]
fn inline_body_without_final_newline() {
    parse_function_body("def test(): pass", vec![Statement::Pass]);
}

#[test]
fn comment_after_statement() {
    parse_function_body("def test():\n    pass  # done\n", vec![Statement::Pass]);
}

#[test]
fn comment_line_at_module_level() {
    let module = parse("# heading\ndef test():\n    pass\n").unwrap();
    assert_eq!(
        module,
        Module::new(vec![Function::new("test".to_string(), vec![Statement::Pass])])
    );
}

#[test]
fn nested_call_arguments() {
    parse_expression(
        "def test():\n    x(y(z))\n",
        Expression::Call {
            target: "x".to_string(),
            args: vec![Expression::Call {
                target: "y".to_string(),
                args: vec![Expression::Variable {
                    name: "z".to_string(),
                }],
            }],
        },
    );
}

#[test]
fn parenthesized_argument_leaves_no_node() {
    parse_expression(
        "def test():\n    x((y))\n",
        Expression::Call {
            target: "x".to_string(),
            args: vec![Expression::Variable {
                name: "y".to_string(),
            }],
        },
    );
}

#[test]
fn two_functions_in_order() {
    let module = parse("def test():\n    pass\ndef other():\n    pass\n").unwrap();
    let functions = module.functions();
    assert_eq!(functions.len(), 2);
    assert_eq!(functions[0].name(), "test");
    assert_eq!(functions[1].name(), "other");
}

#[test]
fn empty_module() {
    let module = parse("").unwrap();
    assert_eq!(module.functions().len(), 0);
}

#[test]
fn deeper_second_line_is_an_error() {
    let err = parse("def test():\n    pass\n        pass\n").unwrap_err();
    assert!(err.text().starts_with("parse error at line "));
}

#[test]
fn shallower_second_line_is_an_error() {
    assert!(parse("def test():\n        pass\n    pass\n").is_err());
}

#[test]
fn trailing_garbage_is_an_error() {
    assert!(parse("def test():\n    pass\n!!!\n").is_err());
}

#[test]
fn trailing_word_is_an_error() {
    let err = parse("def test():\n    pass\ngarbage\n").unwrap_err();
    assert!(err.text().contains("expected"));
}

#[test]
fn missing_colon_is_an_error() {
    assert!(parse("def test()\n    pass\n").is_err());
}

#[test]
fn space_inside_empty_parens_is_an_error() {
    assert!(parse("def test():\n    x( )\n").is_err());
}

#[test]
fn trailing_comma_is_an_error() {
    assert!(parse("def test():\n    x(y,)\n").is_err());
}

#[test]
fn parameters_are_not_accepted() {
    assert!(parse("def test(a):\n    pass\n").is_err());
}

#[test]
fn crlf_line_endings() {
    parse_function_body(
        "def test():\r\n    pass\r\n    pass\r\n",
        vec![Statement::Pass, Statement::Pass],
    );
}

#[test]
fn tab_indentation() {
    parse_function_body("def test():\n\tpass\n", vec![Statement::Pass]);
}

#[test]
fn underscores_and_digits_in_identifiers() {
    parse_expression(
        "def test():\n    my_var2\n",
        Expression::Variable {
            name: "my_var2".to_string(),
        },
    );
}

#[test]
fn space_before_call_parenthesis() {
    parse_expression(
        "def test():\n    x ()\n",
        Expression::Call {
            target: "x".to_string(),
            args: Vec::new(),
        },
    );
}

#[test]
fn space_around_colon() {
    parse_function_body("def test() : pass\n", vec![Statement::Pass]);
}

#[test]
fn space_inside_parameter_list_is_an_error() {
    assert!(parse("def test( ):\n    pass\n").is_err());
}

#[test]
fn keyword_claims_its_prefix() {
    // `pass` is matched before any identifier, so `passenger` is read as the
    // keyword followed by a stray `enger`, which nothing can consume
    assert!(parse("def test():\n    passenger\n").is_err());
}
