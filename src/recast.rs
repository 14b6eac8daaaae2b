//! The printer: renders a syntax tree as KCL source text.
use crate::ast::{
    ArrayExpression, BinaryExpression, BinaryPart, BodyItem, CallExpression, FunctionExpression,
    Literal, LiteralValue, MemberExpression, MemberObject, MemberProperty, NonCodeMeta,
    ObjectExpression, PipeExpression, Program, UnaryExpression, Value, VariableDeclaration,
};
use crate::text::{
    argument_text, argument_texts, array_text, binary_text, call_text, concat, declarator_texts,
    element_texts, first_visible, flat_array_text, flat_object_text, function_text, is_legit,
    is_white_space, join, leading_text, literal_text, member_text, note_after, object_text,
    param_names, part_text, pipe_text, precedence_of, program_text, property_texts, quote_of,
    stage_pieces, statement_pieces, statement_text, trailing_text, unary_text, value_text, wrap,
    MAX_FLAT_WIDTH,
};
use vstd::prelude::*;

verus! {

/// Joining one more part adds the separator only after a first part.
pub proof fn lemma_join_push(parts: Seq<Seq<char>>, x: Seq<char>, sep: Seq<char>)
    ensures
        join(parts.push(x), sep) == if parts.len() == 0 {
            x
        } else {
            join(parts, sep) + sep + x
        },
{
    assert(parts.push(x).drop_last() =~= parts);
}

/// Running one more part together appends it.
pub proof fn lemma_concat_push(parts: Seq<Seq<char>>, x: Seq<char>)
    ensures
        concat(parts.push(x)) == concat(parts) + x,
{
    lemma_join_push(parts, x, Seq::empty());
    if parts.len() == 0 {
        assert(concat(parts) =~= Seq::<char>::empty());
        assert(concat(parts) + x =~= x);
    } else {
        assert(concat(parts) + Seq::<char>::empty() =~= concat(parts));
    }
}

fn is_white_space_char(c: char) -> (r: bool)
    ensures
        r == is_white_space(c),
{
    let u = c as u32;
    (0x9 <= u && u <= 0xd) || u == 0x20 || u == 0x85 || u == 0xa0 || u == 0x1680 || (0x2000 <= u
        && u <= 0x200a) || u == 0x2028 || u == 0x2029 || u == 0x202f || u == 0x205f || u == 0x3000
}

/// Whether `raw`, once trimmed, begins with a double quote.
fn starts_with_double_quote(raw: &str) -> (r: bool)
    ensures
        r == (first_visible(raw@) == Some('"')),
{
    let n = raw.unicode_len();
    let mut i: usize = 0;
    proof {
        assert(raw@.subrange(0, n as int) =~= raw@);
    }
    while i < n
        invariant
            n == raw@.len(),
            i <= n,
            first_visible(raw@) == first_visible(raw@.subrange(i as int, n as int)),
        decreases n - i,
    {
        let c = raw.get_char(i);
        let ghost rest = raw@.subrange(i as int, n as int);
        assert(rest[0] == c);
        if !is_white_space_char(c) {
            return c == '"';
        }
        assert(raw@.subrange(i + 1, n as int) =~= rest.drop_first());
        i = i + 1;
    }
    false
}

/// Whether `s` is exactly the one character `c`.
fn is_single(s: &str, c: char) -> (r: bool)
    ensures
        r == (s@ == seq![c]),
{
    if s.unicode_len() == 1 {
        let d = s.get_char(0);
        proof {
            assert(s@ =~= seq![d]);
            if d != c {
                assert(seq![d][0] != seq![c][0]);
            }
        }
        d == c
    } else {
        false
    }
}

/// Whether a captured note replaces the default layout.
fn is_legit_text(s: &str) -> (r: bool)
    ensures
        r == is_legit(s@),
{
    let n = s.unicode_len();
    if n == 1 {
        let c = s.get_char(0);
        proof {
            assert(s@ =~= seq![c]);
            assert(seq![c][0] == c);
            assert(seq![' '][0] == ' ');
            assert(seq!['\n'][0] == '\n');
        }
        c != ' ' && c != '\n'
    } else if n == 2 {
        let a = s.get_char(0);
        let b = s.get_char(1);
        proof {
            assert(s@ =~= seq![a, b]);
            assert(seq![a, b][0] == a && seq![a, b][1] == b);
            assert(seq![' ', ' '][0] == ' ' && seq![' ', ' '][1] == ' ');
            if a == ' ' && b == ' ' {
                assert(seq![a, b] =~= seq![' ', ' ']);
            }
        }
        !(a == ' ' && b == ' ')
    } else {
        true
    }
}

/// The legit note recorded after item `i`.
fn note_at(meta: &NonCodeMeta, i: usize) -> (r: Option<&String>)
    ensures
        match r {
            Some(t) => note_after(meta.none_code_nodes@, i as int) == Some(t@),
            None => note_after(meta.none_code_nodes@, i as int) is None,
        },
{
    match meta.none_code_nodes.get(&i) {
        Some(node) => {
            if is_legit_text(node.value.as_str()) {
                Some(&node.value)
            } else {
                None
            }
        },
        None => None,
    }
}

fn text_of(s: &str) -> (r: String)
    ensures
        r@ == s@,
{
    String::from_str(s)
}

/// Renders a scalar literal; a string keeps the quote it was written with.
pub fn recast_literal(literal: &Literal) -> (r: String)
    ensures
        r@ == literal_text(*literal),
{
    match &literal.value {
        LiteralValue::Str(value) => {
            let quote = if starts_with_double_quote(literal.raw.as_str()) {
                "\""
            } else {
                "'"
            };
            proof {
                reveal_strlit("\"");
                reveal_strlit("'");
            }
            assert(quote@ == seq![quote_of(literal.raw@)]);
            let mut out = text_of(quote);
            out.append(value.as_str());
            out.append(quote);
            out
        },
        LiteralValue::Number(t) => t.clone(),
        LiteralValue::Bool(b) => if *b {
            text_of("true")
        } else {
            text_of("false")
        },
        LiteralValue::Null => text_of("null"),
    }
}

/// Binding strength of a binary operator: 11 for `+ -`, 12 for `* / %`, else 0.
pub fn precedence(operator: &str) -> (r: u8)
    ensures
        r == precedence_of(operator@),
{
    if is_single(operator, '+') || is_single(operator, '-') {
        11
    } else if is_single(operator, '*') || is_single(operator, '/') || is_single(operator, '%') {
        12
    } else {
        0
    }
}

fn maybe_wrap(t: String, doit: bool) -> (r: String)
    ensures
        r@ == wrap(t@, doit),
{
    if doit {
        let mut out = text_of("(");
        out.append(t.as_str());
        out.append(")");
        proof {
            reveal_strlit("(");
            reveal_strlit(")");
        }
        out
    } else {
        t
    }
}

/// Renders `left op right`, parenthesizing an operand that would otherwise regroup.
pub fn recast_binary_expression(expression: &BinaryExpression) -> (r: String)
    ensures
        r@ == binary_text(*expression),
    decreases *expression, 0int,
{
    let op = expression.operator.as_str();
    let wrap_left = match &expression.left {
        BinaryPart::BinaryExpression(b) => precedence(b.operator.as_str()) < precedence(op),
        _ => false,
    };
    let wrap_right = match &expression.right {
        BinaryPart::BinaryExpression(b) => precedence(b.operator.as_str()) <= precedence(op)
            || is_single(op, '-'),
        _ => false,
    };
    let left = maybe_wrap(recast_binary_part(&expression.left), wrap_left);
    let right = maybe_wrap(recast_binary_part(&expression.right), wrap_right);
    let mut out = left;
    out.append(" ");
    out.append(op);
    out.append(" ");
    out.append(right.as_str());
    out
}

pub fn recast_binary_part(part: &BinaryPart) -> (r: String)
    ensures
        r@ == part_text(*part),
    decreases *part, 0int,
{
    match part {
        BinaryPart::Literal(l) => recast_literal(l),
        BinaryPart::Identifier(id) => id.name.clone(),
        BinaryPart::BinaryExpression(b) => recast_binary_expression(b),
        BinaryPart::CallExpression(c) => {
            let empty = String::new();
            recast_call_expression(c, empty.as_str(), false)
        },
        BinaryPart::UnaryExpression(u) => recast_unary_expression(u),
    }
}

/// Renders the operator directly before its operand.
pub fn recast_unary_expression(expression: &UnaryExpression) -> (r: String)
    ensures
        r@ == unary_text(*expression),
    decreases *expression, 0int,
{
    let mut out = expression.operator.clone();
    let arg = recast_binary_part(&expression.argument);
    out.append(arg.as_str());
    out
}

/// Renders a value in expression position at indentation `indentation`.
pub fn recast_value(node: &Value, indentation: &str, is_in_pipe_expression: bool) -> (r: String)
    ensures
        r@ == value_text(*node, indentation@, is_in_pipe_expression),
    decreases *node, 0int,
{
    let mut ind = text_of(indentation);
    if is_in_pipe_expression {
        ind.append("  ");
    }
    let ind = ind.as_str();
    match node {
        Value::Literal(l) => recast_literal(l),
        Value::Identifier(id) => id.name.clone(),
        Value::BinaryExpression(b) => recast_binary_expression(b),
        Value::UnaryExpression(u) => recast_unary_expression(u),
        Value::ArrayExpression(a) => recast_array_expression(a, ind),
        Value::ObjectExpression(o) => recast_object_expression(o, ind, is_in_pipe_expression),
        Value::MemberExpression(m) => recast_member_expression(m),
        Value::CallExpression(c) => recast_call_expression(c, ind, is_in_pipe_expression),
        Value::FunctionExpression(f) => render_function(f),
        Value::PipeExpression(p) => recast_pipe_expression(p),
        Value::PipeSubstitution => String::new(),
    }
}

/// Renders a value in argument position.
pub fn recast_argument(argument: &Value, indentation: &str, is_in_pipe_expression: bool) -> (r:
    String)
    ensures
        r@ == argument_text(*argument, indentation@, is_in_pipe_expression),
    decreases *argument, 0int,
{
    match argument {
        Value::Literal(l) => recast_literal(l),
        Value::Identifier(id) => id.name.clone(),
        Value::BinaryExpression(b) => recast_binary_expression(b),
        Value::UnaryExpression(u) => recast_unary_expression(u),
        Value::ArrayExpression(a) => recast_array_expression(a, indentation),
        Value::ObjectExpression(o) => recast_object_expression(
            o,
            indentation,
            is_in_pipe_expression,
        ),
        Value::MemberExpression(m) => recast_member_expression(m),
        Value::CallExpression(c) => recast_call_expression(c, indentation, is_in_pipe_expression),
        Value::FunctionExpression(f) => render_function(f),
        Value::PipeExpression(_) => String::new(),
        Value::PipeSubstitution => text_of("%"),
    }
}

/// The elements joined by `sep`, each rendered at `indentation`.
fn join_elements(expression: &ArrayExpression, indentation: &str, sep: &str) -> (r: String)
    ensures
        r@ == join(
            element_texts(expression.elements, expression.elements.len() as int, indentation@),
            sep@,
        ),
    decreases *expression, 0int,
{
    let els = &expression.elements;
    let mut out = String::new();
    let mut i: usize = 0;
    while i < els.len()
        invariant
            els == &expression.elements,
            i <= els.len(),
            out@ == join(element_texts(*els, i as int, indentation@), sep@),
        decreases els.len() - i,
    {
        proof {
            assert(decreases_to!(*els => els[i as int]));
            assert(decreases_to!(*expression => els[i as int]));
        }
        let t = recast_value(&els[i], indentation, false);
        proof {
            lemma_join_push(element_texts(*els, i as int, indentation@), t@, sep@);
        }
        if i > 0 {
            out.append(sep);
        }
        out.append(t.as_str());
        i = i + 1;
    }
    out
}

fn flat_array(expression: &ArrayExpression) -> (r: String)
    ensures
        r@ == flat_array_text(*expression),
    decreases *expression, 1int,
{
    let empty = String::new();
    let mut out = text_of("[");
    let body = join_elements(expression, empty.as_str(), ", ");
    out.append(body.as_str());
    out.append("]");
    out
}

/// Renders an array on one line, or one element per line when that line
/// would be longer than `MAX_FLAT_WIDTH` characters.
pub fn recast_array_expression(expression: &ArrayExpression, indentation: &str) -> (r: String)
    ensures
        r@ == array_text(*expression, indentation@),
    decreases *expression, 2int,
{
    let flat = flat_array(expression);
    if flat.as_str().unicode_len() <= MAX_FLAT_WIDTH {
        flat
    } else {
        let mut inner = text_of(indentation);
        inner.append("  ");
        let mut sep = text_of(",\n");
        sep.append(inner.as_str());
        let mut out = text_of("[\n");
        out.append(inner.as_str());
        let body = join_elements(expression, inner.as_str(), sep.as_str());
        out.append(body.as_str());
        out.append("\n");
        out.append(indentation);
        out.append("]");
        out
    }
}

/// The properties joined by `sep`, each as `key: value` with the value at `indentation`.
fn join_properties(
    expression: &ObjectExpression,
    indentation: &str,
    is_in_pipe_expression: bool,
    sep: &str,
) -> (r: String)
    ensures
        r@ == join(
            property_texts(
                expression.properties,
                expression.properties.len() as int,
                indentation@,
                is_in_pipe_expression,
            ),
            sep@,
        ),
    decreases *expression, 0int,
{
    let props = &expression.properties;
    let mut out = String::new();
    let mut i: usize = 0;
    while i < props.len()
        invariant
            props == &expression.properties,
            i <= props.len(),
            out@ == join(
                property_texts(*props, i as int, indentation@, is_in_pipe_expression),
                sep@,
            ),
        decreases props.len() - i,
    {
        proof {
            assert(decreases_to!(*props => props[i as int]));
            assert(decreases_to!(*expression => props[i as int].value));
        }
        let mut t = props[i].key.name.clone();
        t.append(": ");
        let v = recast_value(&props[i].value, indentation, is_in_pipe_expression);
        t.append(v.as_str());
        proof {
            lemma_join_push(
                property_texts(*props, i as int, indentation@, is_in_pipe_expression),
                t@,
                sep@,
            );
        }
        if i > 0 {
            out.append(sep);
        }
        out.append(t.as_str());
        i = i + 1;
    }
    out
}

fn flat_object(expression: &ObjectExpression) -> (r: String)
    ensures
        r@ == flat_object_text(*expression),
    decreases *expression, 1int,
{
    let empty = String::new();
    let mut out = text_of("{ ");
    let body = join_properties(expression, empty.as_str(), false, ", ");
    out.append(body.as_str());
    out.append(" }");
    out
}

/// Renders an object on one line, or one property per line when that line
/// would be longer than `MAX_FLAT_WIDTH` characters.
pub fn recast_object_expression(
    expression: &ObjectExpression,
    indentation: &str,
    is_in_pipe_expression: bool,
) -> (r: String)
    ensures
        r@ == object_text(*expression, indentation@, is_in_pipe_expression),
    decreases *expression, 2int,
{
    let flat = flat_object(expression);
    if flat.as_str().unicode_len() <= MAX_FLAT_WIDTH {
        flat
    } else {
        let mut inner = text_of(indentation);
        inner.append("  ");
        let mut sep = text_of(",\n");
        sep.append(inner.as_str());
        let mut out = text_of("{\n");
        out.append(inner.as_str());
        let body = join_properties(expression, inner.as_str(), is_in_pipe_expression, sep.as_str());
        out.append(body.as_str());
        out.append("\n");
        out.append(indentation);
        out.append("}");
        out
    }
}

/// Renders `callee(arg, ...)`.
pub fn recast_call_expression(
    expression: &CallExpression,
    indentation: &str,
    is_in_pipe_expression: bool,
) -> (r: String)
    ensures
        r@ == call_text(*expression, indentation@, is_in_pipe_expression),
    decreases *expression, 0int,
{
    let args = &expression.arguments;
    let mut body = String::new();
    let mut i: usize = 0;
    while i < args.len()
        invariant
            args == &expression.arguments,
            i <= args.len(),
            body@ == join(argument_texts(*args, i as int, indentation@, is_in_pipe_expression), ", "@),
        decreases args.len() - i,
    {
        proof {
            assert(decreases_to!(*args => args[i as int]));
            assert(decreases_to!(*expression => args[i as int]));
        }
        let t = recast_argument(&args[i], indentation, is_in_pipe_expression);
        proof {
            lemma_join_push(
                argument_texts(*args, i as int, indentation@, is_in_pipe_expression),
                t@,
                ", "@,
            );
        }
        if i > 0 {
            body.append(", ");
        }
        body.append(t.as_str());
        i = i + 1;
    }
    let mut out = expression.callee.name.clone();
    out.append("(");
    out.append(body.as_str());
    out.append(")");
    out
}

/// Renders a chain of member accesses, left to right.
pub fn recast_member_expression(expression: &MemberExpression) -> (r: String)
    ensures
        r@ == member_text(*expression),
    decreases *expression, 0int,
{
    let key = match &expression.property {
        MemberProperty::Identifier(id) => {
            if expression.computed {
                let mut k = text_of("[");
                k.append(id.name.as_str());
                k.append("]");
                k
            } else {
                let mut k = text_of(".");
                k.append(id.name.as_str());
                k
            }
        },
        MemberProperty::Literal(l) => {
            let mut k = text_of("[");
            k.append(l.raw.as_str());
            k.append("]");
            k
        },
    };
    let mut out = match &expression.object {
        MemberObject::MemberExpression(inner) => recast_member_expression(inner),
        MemberObject::Identifier(id) => id.name.clone(),
    };
    out.append(key.as_str());
    out
}

/// Renders the stages of a pipeline, each after a `|>` marker on a new
/// indented line unless a captured note supplies the break.
pub fn recast_pipe_expression(expression: &PipeExpression) -> (r: String)
    ensures
        r@ == pipe_text(*expression),
    decreases *expression, 0int,
{
    let body = &expression.body;
    let n = body.len();
    let stage_ind = text_of("  ");
    let mut out = String::new();
    let mut i: usize = 0;
    while i < n
        invariant
            body == &expression.body,
            n == body.len(),
            i <= n,
            stage_ind@ == "  "@,
            out@ == concat(stage_pieces(*body, expression.non_code_meta.none_code_nodes@, i as int)),
        decreases n - i,
    {
        proof {
            assert(decreases_to!(*body => body[i as int]));
            assert(decreases_to!(*expression => body[i as int]));
        }
        let mut piece = recast_value(&body[i], stage_ind.as_str(), true);
        let note = note_at(&expression.non_code_meta, i);
        match note {
            Some(t) => piece.append(t.as_str()),
            None => {},
        }
        if i != n - 1 {
            match note {
                Some(_) => piece.append("|> "),
                None => piece.append("\n  |> "),
            }
        }
        proof {
            lemma_concat_push(
                stage_pieces(*body, expression.non_code_meta.none_code_nodes@, i as int),
                piece@,
            );
        }
        out.append(piece.as_str());
        i = i + 1;
    }
    out
}

fn render_function(expression: &FunctionExpression) -> (r: String)
    ensures
        r@ == function_text(*expression),
    decreases *expression, 0int,
{
    let params = &expression.params;
    let mut names = String::new();
    let mut i: usize = 0;
    while i < params.len()
        invariant
            i <= params.len(),
            names@ == join(param_names(params@.subrange(0, i as int)), ", "@),
        decreases params.len() - i,
    {
        proof {
            lemma_join_push(param_names(params@.subrange(0, i as int)), params@[i as int].name@, ", "@);
            assert(param_names(params@.subrange(0, i + 1)) =~= param_names(
                params@.subrange(0, i as int),
            ).push(params@[i as int].name@));
        }
        if i > 0 {
            names.append(", ");
        }
        names.append(params[i].name.as_str());
        i = i + 1;
    }
    assert(params@.subrange(0, params.len() as int) =~= params@);
    let empty = String::new();
    let body = recast_program(&expression.body, empty.as_str(), true);
    let mut out = text_of("(");
    out.append(names.as_str());
    out.append(") => {");
    out.append(body.as_str());
    out.append("}");
    out
}

/// Renders `(p1, p2) => {body}`, the body as a block.
pub fn recast_function(expression: FunctionExpression) -> (r: String)
    ensures
        r@ == function_text(expression),
{
    render_function(&expression)
}

/// What precedes statement `i`.
fn leading(meta: &NonCodeMeta, i: usize, indentation: &str) -> (r: String)
    ensures
        r@ == leading_text(meta.none_code_nodes@, meta.start, i as int, indentation@),
{
    let mut base = if i == 0 {
        match &meta.start {
            Some(node) => node.value.clone(),
            None => text_of(indentation),
        }
    } else {
        match note_at(meta, i - 1) {
            Some(_) => String::new(),
            None => text_of(indentation),
        }
    };
    let len = base.as_str().unicode_len();
    if len > 0 && base.as_str().get_char(len - 1) == '\n' {
        base.append(indentation);
    }
    base
}

/// What follows statement `i` of `len`.
fn trailing(meta: &NonCodeMeta, i: usize, len: usize, is_block: bool) -> (r: String)
    requires
        i < len,
    ensures
        r@ == trailing_text(meta.none_code_nodes@, i as int, len as int, is_block),
{
    match note_at(meta, i) {
        Some(t) => t.clone(),
        None => if i == len - 1 && !is_block {
            String::new()
        } else {
            text_of("\n")
        },
    }
}

/// Renders each declarator as `kind name = init`, run together.
fn recast_declaration(d: &VariableDeclaration) -> (r: String)
    ensures
        r@ == concat(declarator_texts(d.declarations, d.declarations.len() as int, d.kind@)),
    decreases *d, 0int,
{
    let decls = &d.declarations;
    let empty = String::new();
    let mut out = String::new();
    let mut i: usize = 0;
    while i < decls.len()
        invariant
            decls == &d.declarations,
            i <= decls.len(),
            empty@ == Seq::<char>::empty(),
            out@ == concat(declarator_texts(*decls, i as int, d.kind@)),
        decreases decls.len() - i,
    {
        proof {
            assert(decreases_to!(*decls => decls[i as int]));
            assert(decreases_to!(*d => decls[i as int].init));
        }
        let mut t = d.kind.clone();
        t.append(" ");
        t.append(decls[i].id.name.as_str());
        t.append(" = ");
        let v = recast_value(&decls[i].init, empty.as_str(), false);
        t.append(v.as_str());
        proof {
            lemma_concat_push(declarator_texts(*decls, i as int, d.kind@), t@);
        }
        out.append(t.as_str());
        i = i + 1;
    }
    out
}

/// Renders one statement of a body.
pub fn recast_statement(item: &BodyItem) -> (r: String)
    ensures
        r@ == statement_text(*item),
    decreases *item, 0int,
{
    let empty = String::new();
    match item {
        BodyItem::ExpressionStatement(s) => recast_value(&s.expression, empty.as_str(), false),
        BodyItem::VariableDeclaration(d) => recast_declaration(d),
        BodyItem::ReturnStatement(s) => {
            let mut out = text_of("return ");
            let a = recast_argument(&s.argument, empty.as_str(), false);
            out.append(a.as_str());
            out
        },
    }
}

fn recast_program(ast: &Program, indentation: &str, is_with_block: bool) -> (r: String)
    ensures
        r@ == program_text(*ast, indentation@, is_with_block),
    decreases *ast, 0int,
{
    let body = &ast.body;
    let n = body.len();
    let mut out = String::new();
    let mut i: usize = 0;
    while i < n
        invariant
            body == &ast.body,
            n == body.len(),
            i <= n,
            out@ == concat(
                statement_pieces(
                    *body,
                    ast.non_code_meta.none_code_nodes@,
                    ast.non_code_meta.start,
                    i as int,
                    indentation@,
                    is_with_block,
                ),
            ),
        decreases n - i,
    {
        let mut piece = leading(&ast.non_code_meta, i, indentation);
        proof {
            assert(decreases_to!(*body => body[i as int]));
            assert(decreases_to!(*ast => body[i as int]));
        }
        let s = recast_statement(&body[i]);
        piece.append(s.as_str());
        let t = trailing(&ast.non_code_meta, i, n, is_with_block);
        piece.append(t.as_str());
        proof {
            lemma_concat_push(
                statement_pieces(
                    *body,
                    ast.non_code_meta.none_code_nodes@,
                    ast.non_code_meta.start,
                    i as int,
                    indentation@,
                    is_with_block,
                ),
                piece@,
            );
        }
        out.append(piece.as_str());
        i = i + 1;
    }
    out
}

/// Renders a program at `indentation`; a block (a function body) ends every
/// statement with a line break, a top-level program all but the last.
pub fn recast(ast: Program, indentation: String, is_with_block: bool) -> (r: String)
    ensures
        r@ == program_text(ast, indentation@, is_with_block),
{
    recast_program(&ast, indentation.as_str(), is_with_block)
}

} // verus!
