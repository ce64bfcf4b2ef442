use knoten_core::ast::Node;
use knoten_core::engine::ExecutionEngine;
use knoten_core::report::int_to_text;
use knoten_core::float::{debug_float_text, layout_digits, render_float};
use knoten_core::value::{ExecResult, Fault, RelType};

fn int_lit(v: i64) -> Node {
    Node::IntLiteral(v)
}

fn float(v: f64) -> Node {
    Node::FloatLiteral(v.to_bits())
}

fn ident(n: &str) -> Node {
    Node::Identifier(n.to_string())
}

fn assign(n: &str, e: Node) -> Node {
    Node::Assign(n.to_string(), Box::new(e))
}

fn b(n: Node) -> Box<Node> {
    Box::new(n)
}

fn run(root: &Node) -> String {
    let mut engine = ExecutionEngine::new();
    engine.execute(root)
}

fn eval(root: &Node) -> ExecResult {
    let mut engine = ExecutionEngine::new();
    engine.evaluate(root)
}

#[test]
fn division_by_zero_scenario_reports_fault_only() {
    let prog = Node::Block(vec![assign("x", int_lit(10)), assign("y", Node::Div(b(int_lit(10)), b(int_lit(0))))]);
    assert_eq!(run(&prog), "Fault: Division by zero");
}

#[test]
fn float_division_by_zero_faults() {
    let prog = Node::Div(b(float(1.5)), b(float(0.0)));
    assert_eq!(run(&prog), "Fault: Division by zero");
    let neg = Node::Div(b(float(1.5)), b(float(-0.0)));
    assert_eq!(run(&neg), "Fault: Division by zero");
}

#[test]
fn bindings_are_reported_alphabetically() {
    let prog = Node::Block(vec![assign("y", int_lit(2)), assign("x", int_lit(1))]);
    assert_eq!(run(&prog), "Return: 1 (i64), Memory: x = 1, y = 2");
    let other = Node::Block(vec![assign("x", int_lit(1)), assign("y", int_lit(2))]);
    assert_eq!(run(&other), "Return: 2 (i64), Memory: x = 1, y = 2");
}

#[test]
fn report_renders_each_variant() {
    let prog = Node::Block(vec![
        assign("a", float(2.0)),
        assign("b", Node::BoolLiteral(true)),
        assign("c", Node::StringLiteral("hi".to_string())),
        assign("d", int_lit(-42)),
    ]);
    assert_eq!(run(&prog), "Return: -42 (i64), Memory: a = 2.0, b = true, c = \"hi\", d = -42");
    assert_eq!(run(&float(2.5)), "Return: 2.5 (f64)");
    assert_eq!(run(&Node::BoolLiteral(false)), "Return: false (bool)");
    assert_eq!(run(&Node::StringLiteral("s".to_string())), "Return: \"s\" (String)");
    assert_eq!(run(&Node::Block(vec![])), "Return: void");
}

#[test]
fn return_inside_while_ends_the_loop() {
    // i = 0; while (i < 10) { i = i + 1; if (i == 3) { return i * 100 } }
    let prog = Node::Block(vec![
        assign("i", int_lit(0)),
        Node::While(
            b(Node::Lt(b(ident("i")), b(int_lit(10)))),
            b(Node::Block(vec![
                assign("i", Node::Add(b(ident("i")), b(int_lit(1)))),
                Node::If(
                    b(Node::Eq(b(ident("i")), b(int_lit(3)))),
                    b(Node::Return(b(Node::Mul(b(ident("i")), b(int_lit(100)))))),
                    None,
                ),
            ])),
        ),
        assign("after", int_lit(1)),
    ]);
    assert_eq!(run(&prog), "Return: 300 (i64), Memory: i = 3");
}

#[test]
fn while_that_ends_yields_void() {
    let prog = Node::Block(vec![
        assign("i", int_lit(0)),
        Node::While(
            b(Node::Lt(b(ident("i")), b(int_lit(5)))),
            b(assign("i", Node::Add(b(ident("i")), b(int_lit(1))))),
        ),
    ]);
    assert_eq!(run(&prog), "Return: void, Memory: i = 5");
}

#[test]
fn arithmetic_keeps_the_operand_variant() {
    match eval(&Node::Add(b(int_lit(2)), b(int_lit(3)))) {
        ExecResult::Value(RelType::Int(5)) => {}
        _ => panic!("expected Int(5)"),
    }
    match eval(&Node::Mul(b(float(1.5)), b(float(2.0)))) {
        ExecResult::Value(RelType::Float(bits)) => assert_eq!(f64::from_bits(bits), 3.0),
        _ => panic!("expected a float"),
    }
    match eval(&Node::Div(b(int_lit(-7)), b(int_lit(2)))) {
        ExecResult::Value(RelType::Int(-3)) => {}
        _ => panic!("expected truncating division"),
    }
    match eval(&Node::Sub(b(int_lit(2)), b(int_lit(5)))) {
        ExecResult::Value(RelType::Int(-3)) => {}
        _ => panic!("expected Int(-3)"),
    }
}

#[test]
fn mixed_arithmetic_is_a_type_mismatch() {
    assert_eq!(run(&Node::Add(b(int_lit(1)), b(float(1.0)))), "Fault: Mathematical type mismatch");
    assert_eq!(run(&Node::Add(b(int_lit(1)), b(Node::BoolLiteral(true)))), "Fault: Mathematical type mismatch");
}

#[test]
fn integer_overflow_faults() {
    assert_eq!(run(&Node::Add(b(int_lit(i64::MAX)), b(int_lit(1)))), "Fault: Integer overflow");
    assert_eq!(run(&Node::Div(b(int_lit(i64::MIN)), b(int_lit(-1)))), "Fault: Integer overflow");
}

#[test]
fn equality_is_variant_sensitive() {
    assert_eq!(run(&Node::Eq(b(int_lit(1)), b(int_lit(1)))), "Return: true (bool)");
    assert_eq!(run(&Node::Eq(b(int_lit(1)), b(float(1.0)))), "Return: false (bool)");
    assert_eq!(run(&Node::Eq(b(float(0.0)), b(float(-0.0)))), "Return: true (bool)");
    assert_eq!(run(&Node::Eq(b(float(f64::NAN)), b(float(f64::NAN)))), "Return: false (bool)");
    assert_eq!(
        run(&Node::Eq(b(Node::StringLiteral("a".to_string())), b(Node::StringLiteral("a".to_string())))),
        "Return: true (bool)"
    );
    assert_eq!(run(&Node::Eq(b(Node::BoolLiteral(true)), b(int_lit(1)))), "Return: false (bool)");
}

#[test]
fn less_than_on_numbers_only() {
    assert_eq!(run(&Node::Lt(b(int_lit(1)), b(int_lit(2)))), "Return: true (bool)");
    assert_eq!(run(&Node::Lt(b(float(-1.5)), b(float(-2.5)))), "Return: false (bool)");
    assert_eq!(run(&Node::Lt(b(float(-2.5)), b(float(0.5)))), "Return: true (bool)");
    assert_eq!(run(&Node::Lt(b(int_lit(1)), b(float(2.0)))), "Fault: Invalid Lt semantics");
}

#[test]
fn each_fault_has_its_message() {
    assert_eq!(run(&ident("nope")), "Fault: Undefined identifier");
    assert_eq!(run(&Node::If(b(int_lit(1)), b(int_lit(2)), None)), "Fault: If condition not a boolean");
    assert_eq!(run(&Node::While(b(int_lit(1)), b(int_lit(2)))), "Fault: While condition not a boolean");
    assert_eq!(
        run(&Node::Eq(b(int_lit(1)), b(Node::Return(b(int_lit(1)))))),
        "Fault: Invalid Eq semantics"
    );
    assert_eq!(Fault::LoopLimitExceeded.message(), "Loop iteration limit exceeded");
    assert_eq!(Fault::UnknownNativeFunction.message(), "Unknown native function");
}

#[test]
fn if_without_else_yields_void() {
    assert_eq!(run(&Node::If(b(Node::BoolLiteral(false)), b(int_lit(2)), None)), "Return: void");
    assert_eq!(
        run(&Node::If(b(Node::BoolLiteral(false)), b(int_lit(2)), Some(b(int_lit(3))))),
        "Return: 3 (i64)"
    );
}

#[test]
fn assignment_of_a_return_keeps_the_value() {
    let prog = Node::Block(vec![assign("x", Node::Return(b(int_lit(4)))), int_lit(9)]);
    assert_eq!(run(&prog), "Return: 9 (i64), Memory: x = 4");
}

#[test]
fn fault_in_assignment_skips_the_write() {
    let mut engine = ExecutionEngine::new();
    let r = engine.evaluate(&assign("x", ident("missing")));
    assert!(matches!(r, ExecResult::Fault(Fault::UndefinedIdentifier)));
    assert_eq!(engine.memory.len(), 0);
}

#[test]
fn store_is_reset_between_runs() {
    let mut engine = ExecutionEngine::new();
    assert_eq!(engine.execute(&assign("x", int_lit(1))), "Return: 1 (i64), Memory: x = 1");
    assert_eq!(engine.execute(&ident("x")), "Fault: Undefined identifier");
}

#[test]
fn integers_render_in_decimal() {
    assert_eq!(int_to_text(0), "0");
    assert_eq!(int_to_text(1234567890), "1234567890");
    assert_eq!(int_to_text(-5), "-5");
    assert_eq!(int_to_text(i64::MIN), "-9223372036854775808");
    assert_eq!(int_to_text(i64::MAX), "9223372036854775807");
}

#[test]
fn floats_render_shortest_with_a_point() {
    assert_eq!(render_float(2.0f64.to_bits()), "2.0");
    assert_eq!(render_float(2.5f64.to_bits()), "2.5");
    assert_eq!(render_float(0.1f64.to_bits()), "0.1");
    assert_eq!(render_float((-0.0f64).to_bits()), "-0.0");
    assert_eq!(render_float(1234.5f64.to_bits()), "1234.5");
    // Where Rust's debug form already shows a point, the text is that form.
    for x in [10.0f64, 100.0, 10000.0, 1e15, 0.0001, 0.1, 0.3, 1.0 / 3.0, -2.75, 1.5e300, f64::MAX, f64::MIN_POSITIVE, 2.5e-7] {
        assert_eq!(render_float(x.to_bits()), format!("{:?}", x));
    }
    // Powers of two.
    for k in [-1074i32, -20, -10, -1, 0, 1, 10, 52, 53, 60, 100, 1023] {
        let x = 2.0f64.powi(k);
        let expected = format!("{:?}", x);
        let expected = if expected.contains('.') {
            expected
        } else {
            expected.replacen('e', ".0e", 1)
        };
        assert_eq!(render_float(x.to_bits()), expected);
    }
    // A single-digit mantissa in exponent form gets ".0" so a point shows.
    assert_eq!(render_float(1e16f64.to_bits()), "1.0e16");
    assert_eq!(render_float(1e20f64.to_bits()), "1.0e20");
    assert_eq!(render_float(1e-7f64.to_bits()), "1.0e-7");
    assert_eq!(render_float(5e-324f64.to_bits()), "5.0e-324");
    assert_eq!(render_float(0.1f64.to_bits()), "0.1");
    assert_eq!(render_float((1.0f64 / 3.0).to_bits()), "0.3333333333333333");
    assert_eq!(render_float(f64::INFINITY.to_bits()), "inf");
    assert_eq!(render_float(f64::NEG_INFINITY.to_bits()), "-inf");
    assert_eq!(render_float(f64::NAN.to_bits()), "NaN");
}

#[test]
fn float_arithmetic_is_ieee() {
    match eval(&Node::Add(b(float(0.1)), b(float(0.2)))) {
        ExecResult::Value(RelType::Float(bits)) => assert_eq!(f64::from_bits(bits), 0.1 + 0.2),
        _ => panic!("expected a float"),
    }
    match eval(&Node::Sub(b(float(1.0)), b(float(0.25)))) {
        ExecResult::Value(RelType::Float(bits)) => assert_eq!(f64::from_bits(bits), 0.75),
        _ => panic!("expected a float"),
    }
    match eval(&Node::Div(b(float(1.0)), b(float(3.0)))) {
        ExecResult::Value(RelType::Float(bits)) => assert_eq!(f64::from_bits(bits), 1.0 / 3.0),
        _ => panic!("expected a float"),
    }
}

fn native(function: &str, args: Vec<Node>) -> Node {
    Node::NativeCall("registry".to_string(), function.to_string(), args)
}

#[test]
fn programs_reach_the_registry_through_native_calls() {
    let prog = Node::Block(vec![
        assign("c", native("create_counter", vec![])),
        native("increment", vec![ident("c")]),
        native("increment", vec![ident("c")]),
        native("increment", vec![ident("c")]),
        native("get_value", vec![ident("c")]),
    ]);
    let mut engine = ExecutionEngine::new();
    assert_eq!(engine.execute(&prog), "Return: 3 (i64), Memory: c = 1");
    let release = Node::Block(vec![native("release", vec![int_lit(1)]), native("get_value", vec![int_lit(1)])]);
    assert_eq!(engine.execute(&release), "Return: -1 (i64)");
}

#[test]
fn unknown_native_calls_fault() {
    assert_eq!(run(&native("explode", vec![])), "Fault: Unknown native function");
    let other = Node::NativeCall("gpu".to_string(), "init".to_string(), vec![]);
    assert_eq!(run(&other), "Fault: Unknown native function");
    assert_eq!(
        run(&native("increment", vec![Node::BoolLiteral(true)])),
        "Fault: Native argument type mismatch"
    );
    assert_eq!(run(&native("increment", vec![ident("missing")])), "Fault: Undefined identifier");
}

#[test]
fn scientific_text_is_laid_out_as_debug_form() {
    assert_eq!(debug_float_text("1.0E+1".to_string()), "10.0");
    assert_eq!(debug_float_text("-1.25E+2".to_string()), "-125.0");
    assert_eq!(debug_float_text("1.2345E+2".to_string()), "123.45");
    assert_eq!(debug_float_text("1.5E-3".to_string()), "0.0015");
    assert_eq!(debug_float_text("1.0E+16".to_string()), "1.0e16");
    assert_eq!(debug_float_text("2.5E-7".to_string()), "2.5e-7");
    assert_eq!(debug_float_text("-0.0E+0".to_string()), "-0.0");
    assert_eq!(debug_float_text("+Inf".to_string()), "inf");
    assert_eq!(debug_float_text("-Inf".to_string()), "-inf");
    assert_eq!(debug_float_text("NaN".to_string()), "NaN");
    assert_eq!(layout_digits("15", -5), "1.5e-5");
    assert_eq!(layout_digits("7", 3), "7000.0");
}
