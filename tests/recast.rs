use std::collections::HashMap;

use kcl_recast::ast::{
    ArrayExpression, BinaryExpression, BinaryPart, BodyItem, CallExpression, ExpressionStatement,
    FunctionExpression, Identifier, Literal, LiteralValue, MemberExpression, MemberObject,
    MemberProperty, NonCodeMeta, NonCodeNode, ObjectExpression, ObjectProperty, PipeExpression,
    Program, ReturnStatement, UnaryExpression, Value, VariableDeclaration, VariableDeclarator,
};
use kcl_recast::recast::{
    precedence, recast, recast_array_expression, recast_binary_expression, recast_function,
    recast_literal, recast_object_expression, recast_value,
};

fn ident(name: &str) -> Identifier {
    Identifier { name: name.to_string() }
}

fn num(text: &str) -> Literal {
    Literal { value: LiteralValue::Number(text.to_string()), raw: text.to_string() }
}

fn string_lit(value: &str, raw: &str) -> Literal {
    Literal { value: LiteralValue::Str(value.to_string()), raw: raw.to_string() }
}

fn num_part(text: &str) -> BinaryPart {
    BinaryPart::Literal(Box::new(num(text)))
}

fn num_value(text: &str) -> Value {
    Value::Literal(Box::new(num(text)))
}

fn ident_value(name: &str) -> Value {
    Value::Identifier(Box::new(ident(name)))
}

fn bin(op: &str, left: BinaryPart, right: BinaryPart) -> BinaryExpression {
    BinaryExpression { operator: op.to_string(), left, right }
}

fn bin_part(op: &str, left: BinaryPart, right: BinaryPart) -> BinaryPart {
    BinaryPart::BinaryExpression(Box::new(bin(op, left, right)))
}

fn call(name: &str, arguments: Vec<Value>) -> Value {
    Value::CallExpression(Box::new(CallExpression { callee: ident(name), arguments }))
}

fn no_notes() -> NonCodeMeta {
    NonCodeMeta { none_code_nodes: HashMap::new(), start: None }
}

fn notes(entries: Vec<(usize, &str)>, start: Option<&str>) -> NonCodeMeta {
    let mut none_code_nodes = HashMap::new();
    for (i, t) in entries {
        none_code_nodes.insert(i, NonCodeNode { value: t.to_string() });
    }
    NonCodeMeta {
        none_code_nodes,
        start: start.map(|s| NonCodeNode { value: s.to_string() }),
    }
}

fn declare(name: &str, init: Value) -> BodyItem {
    BodyItem::VariableDeclaration(VariableDeclaration {
        kind: "const".to_string(),
        declarations: vec![VariableDeclarator { id: ident(name), init }],
    })
}

fn program(body: Vec<BodyItem>, non_code_meta: NonCodeMeta) -> Program {
    Program { body, non_code_meta }
}

fn top(p: Program) -> String {
    recast(p, String::new(), false)
}

fn array(elements: Vec<Value>) -> ArrayExpression {
    ArrayExpression { elements }
}

fn object(props: Vec<(&str, Value)>) -> ObjectExpression {
    ObjectExpression {
        properties: props
            .into_iter()
            .map(|(k, v)| ObjectProperty { key: ident(k), value: v })
            .collect(),
    }
}

#[test]
fn multiplication_binds_tighter_than_addition() {
    let e = bin("+", num_part("1"), bin_part("*", num_part("2"), num_part("3")));
    assert_eq!(recast_binary_expression(&e), "1 + 2 * 3");
}

#[test]
fn looser_left_operand_is_parenthesized() {
    let e = bin("*", bin_part("+", num_part("1"), num_part("2")), num_part("3"));
    assert_eq!(recast_binary_expression(&e), "(1 + 2) * 3");
}

#[test]
fn subtraction_keeps_right_grouping() {
    let e = bin("-", num_part("1"), bin_part("-", num_part("2"), num_part("3")));
    assert_eq!(recast_binary_expression(&e), "1 - (2 - 3)");
}

#[test]
fn subtraction_left_grouping_needs_no_parens() {
    let e = bin("-", bin_part("-", num_part("1"), num_part("2")), num_part("3"));
    assert_eq!(recast_binary_expression(&e), "1 - 2 - 3");
}

#[test]
fn equal_precedence_on_the_right_is_parenthesized() {
    let e = bin("/", num_part("1"), bin_part("*", num_part("2"), num_part("3")));
    assert_eq!(recast_binary_expression(&e), "1 / (2 * 3)");
    let e = bin("+", num_part("1"), bin_part("+", num_part("2"), num_part("3")));
    assert_eq!(recast_binary_expression(&e), "1 + (2 + 3)");
}

#[test]
fn unknown_operator_binds_loosest() {
    let a = BinaryPart::Identifier(Box::new(ident("a")));
    let b = BinaryPart::Identifier(Box::new(ident("b")));
    let c = BinaryPart::Identifier(Box::new(ident("c")));
    let e = bin("*", bin_part("==", a, b), c);
    assert_eq!(recast_binary_expression(&e), "(a == b) * c");
}

#[test]
fn precedence_table() {
    assert_eq!(precedence("+"), 11);
    assert_eq!(precedence("-"), 11);
    assert_eq!(precedence("*"), 12);
    assert_eq!(precedence("/"), 12);
    assert_eq!(precedence("%"), 12);
    assert_eq!(precedence("=="), 0);
    assert_eq!(precedence("++"), 0);
}

#[test]
fn single_quotes_are_kept() {
    assert_eq!(recast_literal(&string_lit("seg01", "'seg01'")), "'seg01'");
}

#[test]
fn double_quotes_are_kept() {
    assert_eq!(recast_literal(&string_lit("seg01", "\"seg01\"")), "\"seg01\"");
    assert_eq!(recast_literal(&string_lit("x", "  \"x\"")), "\"x\"");
}

#[test]
fn other_scalars_print_their_text() {
    assert_eq!(recast_literal(&num("2.5")), "2.5");
    let t = Literal { value: LiteralValue::Bool(true), raw: "true".to_string() };
    assert_eq!(recast_literal(&t), "true");
    let f = Literal { value: LiteralValue::Bool(false), raw: "false".to_string() };
    assert_eq!(recast_literal(&f), "false");
    let n = Literal { value: LiteralValue::Null, raw: "null".to_string() };
    assert_eq!(recast_literal(&n), "null");
}

#[test]
fn long_array_breaks_into_lines() {
    let els = (100..110).map(|i| num_value(&i.to_string())).collect();
    let p = program(vec![BodyItem::ExpressionStatement(ExpressionStatement {
        expression: Value::ArrayExpression(Box::new(array(els))),
    })], no_notes());
    assert_eq!(
        top(p),
        "[\n  100,\n  101,\n  102,\n  103,\n  104,\n  105,\n  106,\n  107,\n  108,\n  109\n]"
    );
}

#[test]
fn array_of_forty_characters_stays_flat() {
    let a = array(vec![
        num_value("12345678"),
        num_value("12345678"),
        num_value("12345678"),
        num_value("12345678"),
    ]);
    let out = recast_array_expression(&a, "");
    assert_eq!(out.chars().count(), 40);
    assert_eq!(out, "[12345678, 12345678, 12345678, 12345678]");
}

#[test]
fn array_of_forty_one_characters_breaks() {
    let a = array(vec![
        num_value("123456789"),
        num_value("12345678"),
        num_value("12345678"),
        num_value("12345678"),
    ]);
    assert_eq!(
        recast_array_expression(&a, "  "),
        "[\n    123456789,\n    12345678,\n    12345678,\n    12345678\n  ]"
    );
}

#[test]
fn width_counts_characters_not_bytes() {
    let s = "é".repeat(36);
    let raw = format!("'{}'", s);
    let a = array(vec![Value::Literal(Box::new(string_lit(&s, &raw)))]);
    assert_eq!(recast_array_expression(&a, ""), format!("[{}]", raw));
}

#[test]
fn object_of_forty_characters_stays_flat() {
    let o = object(vec![("key1", num_value("12345678901")), ("key2", num_value("12345678901"))]);
    assert_eq!(recast_object_expression(&o, "", false), "{ key1: 12345678901, key2: 12345678901 }");
}

#[test]
fn object_of_forty_one_characters_breaks() {
    let o = object(vec![("key1", num_value("123456789012")), ("key2", num_value("12345678901"))]);
    assert_eq!(
        recast_object_expression(&o, "", false),
        "{\n  key1: 123456789012,\n  key2: 12345678901\n}"
    );
}

#[test]
fn empty_collections() {
    assert_eq!(recast_array_expression(&array(vec![]), ""), "[]");
    assert_eq!(recast_object_expression(&object(vec![]), "", false), "{  }");
}

#[test]
fn three_stage_pipeline() {
    let pipe = PipeExpression {
        body: vec![call("a", vec![]), call("b", vec![]), call("c", vec![])],
        non_code_meta: no_notes(),
    };
    let v = Value::PipeExpression(Box::new(pipe));
    assert_eq!(recast_value(&v, "", false), "a()\n  |> b()\n  |> c()");
}

#[test]
fn pipeline_comment_replaces_the_break() {
    let pipe = PipeExpression {
        body: vec![call("a", vec![]), call("b", vec![Value::PipeSubstitution])],
        non_code_meta: notes(vec![(0, "\n  // hi\n  ")], None),
    };
    let p = program(vec![declare("x", Value::PipeExpression(Box::new(pipe)))], no_notes());
    assert_eq!(top(p), "const x = a()\n  // hi\n  |> b(%)");
}

#[test]
fn pipeline_single_space_note_is_ignored() {
    let pipe = PipeExpression {
        body: vec![call("a", vec![]), call("b", vec![])],
        non_code_meta: notes(vec![(0, " ")], None),
    };
    let v = Value::PipeExpression(Box::new(pipe));
    assert_eq!(recast_value(&v, "", false), "a()\n  |> b()");
}

#[test]
fn comment_between_statements_is_kept() {
    let p = program(
        vec![declare("a", num_value("1")), declare("b", num_value("2"))],
        notes(vec![(0, "\n// comment\n")], None),
    );
    assert_eq!(top(p), "const a = 1\n// comment\nconst b = 2");
}

#[test]
fn blank_line_between_statements_is_kept() {
    let p = program(
        vec![declare("a", num_value("1")), declare("b", num_value("2"))],
        notes(vec![(0, "\n\n")], None),
    );
    assert_eq!(top(p), "const a = 1\n\nconst b = 2");
}

#[test]
fn ordinary_whitespace_notes_keep_default_layout() {
    for t in [" ", "\n", "  "] {
        let p = program(
            vec![declare("a", num_value("1")), declare("b", num_value("2"))],
            notes(vec![(0, t)], None),
        );
        assert_eq!(top(p), "const a = 1\nconst b = 2");
    }
}

#[test]
fn start_note_and_indentation() {
    let p = program(
        vec![declare("a", num_value("1")), declare("b", num_value("2"))],
        notes(vec![], Some("// head\n")),
    );
    assert_eq!(recast(p, "  ".to_string(), false), "// head\n  const a = 1\n  const b = 2");
}

#[test]
fn empty_program() {
    assert_eq!(top(program(vec![], no_notes())), "");
}

#[test]
fn function_body_is_a_block() {
    let sum = Value::BinaryExpression(Box::new(bin(
        "+",
        BinaryPart::Identifier(Box::new(ident("a"))),
        BinaryPart::Identifier(Box::new(ident("b"))),
    )));
    let f = FunctionExpression {
        params: vec![ident("a"), ident("b")],
        body: program(
            vec![BodyItem::ReturnStatement(ReturnStatement { argument: sum })],
            no_notes(),
        ),
    };
    assert_eq!(recast_function(f), "(a, b) => {return a + b\n}");
}

#[test]
fn member_chains_print_left_to_right() {
    let inner = MemberExpression {
        object: MemberObject::Identifier(Box::new(ident("a"))),
        property: MemberProperty::Identifier(Box::new(ident("b"))),
        computed: false,
    };
    let outer = MemberExpression {
        object: MemberObject::MemberExpression(Box::new(inner)),
        property: MemberProperty::Literal(Box::new(num("0"))),
        computed: true,
    };
    let computed = MemberExpression {
        object: MemberObject::Identifier(Box::new(ident("c"))),
        property: MemberProperty::Identifier(Box::new(ident("i"))),
        computed: true,
    };
    let v = call(
        "f",
        vec![
            Value::MemberExpression(Box::new(outer)),
            Value::MemberExpression(Box::new(computed)),
        ],
    );
    assert_eq!(recast_value(&v, "", false), "f(a.b[0], c[i])");
}

#[test]
fn unary_operand_inside_binary() {
    let neg = BinaryPart::UnaryExpression(Box::new(UnaryExpression {
        operator: "-".to_string(),
        argument: BinaryPart::Identifier(Box::new(ident("x"))),
    }));
    let e = bin("+", neg, num_part("1"));
    assert_eq!(recast_binary_expression(&e), "-x + 1");
}

#[test]
fn bare_pipeline_argument_prints_nothing() {
    let pipe = PipeExpression { body: vec![call("a", vec![])], non_code_meta: no_notes() };
    let v = call("f", vec![ident_value("x"), Value::PipeExpression(Box::new(pipe))]);
    assert_eq!(recast_value(&v, "", false), "f(x, )");
    assert_eq!(recast_value(&Value::PipeSubstitution, "", false), "");
}

#[test]
fn multiple_declarators_run_together() {
    let d = BodyItem::VariableDeclaration(VariableDeclaration {
        kind: "let".to_string(),
        declarations: vec![
            VariableDeclarator { id: ident("a"), init: num_value("1") },
            VariableDeclarator { id: ident("b"), init: ident_value("a") },
        ],
    });
    assert_eq!(top(program(vec![d], no_notes())), "let a = 1let b = a");
}

#[test]
fn sketch_pipeline_end_to_end() {
    let start = call(
        "startSketchAt",
        vec![Value::ArrayExpression(Box::new(array(vec![num_value("0"), num_value("0")])))],
    );
    let line = call(
        "lineTo",
        vec![
            Value::ArrayExpression(Box::new(array(vec![num_value("2"), num_value("3")]))),
            Value::PipeSubstitution,
        ],
    );
    let tagged = call(
        "line",
        vec![
            Value::ObjectExpression(Box::new(object(vec![
                ("to", Value::ArrayExpression(Box::new(array(vec![num_value("1"), num_value("1")])))),
                ("tag", Value::Literal(Box::new(string_lit("seg01", "'seg01'")))),
            ]))),
            Value::PipeSubstitution,
        ],
    );
    let pipe = PipeExpression { body: vec![start, line, tagged], non_code_meta: no_notes() };
    let p = program(
        vec![declare("part001", Value::PipeExpression(Box::new(pipe))), BodyItem::ExpressionStatement(
            ExpressionStatement { expression: call("show", vec![ident_value("part001")]) },
        )],
        no_notes(),
    );
    assert_eq!(
        top(p),
        "const part001 = startSketchAt([0, 0])\n  |> lineTo([2, 3], %)\n  |> line({ to: [1, 1], tag: 'seg01' }, %)\nshow(part001)"
    );
}
