//! What the printer produces, stated over the syntax tree.
use crate::ast::{
    ArrayExpression, BinaryExpression, BinaryPart, BodyItem, CallExpression, FunctionExpression,
    Identifier, Literal, LiteralValue, MemberExpression, MemberObject, MemberProperty, NonCodeNode,
    ObjectExpression, ObjectProperty, PipeExpression, Program, UnaryExpression, Value,
    VariableDeclarator,
};
use vstd::prelude::*;

verus! {

/// Longest flat rendering, in characters, that an array or object keeps on one line.
pub const MAX_FLAT_WIDTH: usize = 40;

/// The characters that `str::trim` removes: Unicode's White_Space property.
pub open spec fn is_white_space(c: char) -> bool {
    let u = c as u32;
    ||| 0x9 <= u <= 0xd
    ||| u == 0x20
    ||| u == 0x85
    ||| u == 0xa0
    ||| u == 0x1680
    ||| 0x2000 <= u <= 0x200a
    ||| u == 0x2028
    ||| u == 0x2029
    ||| u == 0x202f
    ||| u == 0x205f
    ||| u == 0x3000
}

/// The first character of `s` that is not white space.
pub open spec fn first_visible(s: Seq<char>) -> Option<char>
    decreases s.len(),
{
    if s.len() == 0 {
        None
    } else if is_white_space(s[0]) {
        first_visible(s.drop_first())
    } else {
        Some(s[0])
    }
}

/// The quote that a string literal is printed with: a double quote when its
/// source text (trimmed) begins with one, else a single quote.
pub open spec fn quote_of(raw: Seq<char>) -> char {
    if first_visible(raw) == Some('"') {
        '"'
    } else {
        '\''
    }
}

pub open spec fn literal_text(l: Literal) -> Seq<char> {
    match l.value {
        LiteralValue::Str(s) => seq![quote_of(l.raw@)] + s@ + seq![quote_of(l.raw@)],
        LiteralValue::Number(t) => t@,
        LiteralValue::Bool(b) => if b {
            "true"@
        } else {
            "false"@
        },
        LiteralValue::Null => "null"@,
    }
}

/// Binding strength of a binary operator.
pub open spec fn precedence_of(op: Seq<char>) -> u8 {
    if op == seq!['+'] || op == seq!['-'] {
        11
    } else if op == seq!['*'] || op == seq!['/'] || op == seq!['%'] {
        12
    } else {
        0
    }
}

/// A binary left operand is parenthesized when it binds more loosely than `op`.
pub open spec fn wraps_left(op: Seq<char>, part: BinaryPart) -> bool {
    match part {
        BinaryPart::BinaryExpression(b) => precedence_of(b.operator@) < precedence_of(op),
        _ => false,
    }
}

/// A binary right operand is parenthesized when it binds no tighter than `op`,
/// and always under a subtraction.
pub open spec fn wraps_right(op: Seq<char>, part: BinaryPart) -> bool {
    match part {
        BinaryPart::BinaryExpression(b) => precedence_of(b.operator@) <= precedence_of(op) || op
            == seq!['-'],
        _ => false,
    }
}

pub open spec fn wrap(t: Seq<char>, doit: bool) -> Seq<char> {
    if doit {
        seq!['('] + t + seq![')']
    } else {
        t
    }
}

/// Comment or whitespace text that replaces the default layout: anything
/// but a single space, a single line break or two spaces.
pub open spec fn is_legit(t: Seq<char>) -> bool {
    t != seq![' '] && t != seq!['\n'] && t != seq![' ', ' ']
}

/// The legit note recorded after item `i`, if any.
pub open spec fn note_after(notes: Map<usize, NonCodeNode>, i: int) -> Option<Seq<char>> {
    if 0 <= i && notes.contains_key(i as usize) && is_legit(notes[i as usize].value@) {
        Some(notes[i as usize].value@)
    } else {
        None
    }
}

/// `parts` joined with `sep` between neighbours.
pub open spec fn join(parts: Seq<Seq<char>>, sep: Seq<char>) -> Seq<char>
    decreases parts.len(),
{
    if parts.len() == 0 {
        Seq::empty()
    } else if parts.len() == 1 {
        parts[0]
    } else {
        join(parts.drop_last(), sep) + sep + parts.last()
    }
}

/// `parts` run together.
pub open spec fn concat(parts: Seq<Seq<char>>) -> Seq<char> {
    join(parts, Seq::empty())
}

pub open spec fn indent_more(ind: Seq<char>) -> Seq<char> {
    ind + "  "@
}

pub open spec fn binary_text(e: BinaryExpression) -> Seq<char>
    decreases e, 0int,
{
    wrap(part_text(e.left), wraps_left(e.operator@, e.left)) + " "@ + e.operator@ + " "@ + wrap(
        part_text(e.right),
        wraps_right(e.operator@, e.right),
    )
}

pub open spec fn part_text(p: BinaryPart) -> Seq<char>
    decreases p, 0int,
{
    match p {
        BinaryPart::Literal(l) => literal_text(*l),
        BinaryPart::Identifier(id) => id.name@,
        BinaryPart::BinaryExpression(b) => binary_text(*b),
        BinaryPart::CallExpression(c) => call_text(*c, Seq::empty(), false),
        BinaryPart::UnaryExpression(u) => unary_text(*u),
    }
}

pub open spec fn unary_text(u: UnaryExpression) -> Seq<char>
    decreases u, 0int,
{
    u.operator@ + part_text(u.argument)
}

/// A value in expression position; a stage of a pipeline renders one level deeper.
pub open spec fn value_text(v: Value, ind: Seq<char>, in_pipe: bool) -> Seq<char>
    decreases v, 0int,
{
    let ind2 = if in_pipe {
        indent_more(ind)
    } else {
        ind
    };
    match v {
        Value::Literal(l) => literal_text(*l),
        Value::Identifier(id) => id.name@,
        Value::BinaryExpression(b) => binary_text(*b),
        Value::UnaryExpression(u) => unary_text(*u),
        Value::ArrayExpression(a) => array_text(*a, ind2),
        Value::ObjectExpression(o) => object_text(*o, ind2, in_pipe),
        Value::MemberExpression(m) => member_text(*m),
        Value::CallExpression(c) => call_text(*c, ind2, in_pipe),
        Value::FunctionExpression(f) => function_text(*f),
        Value::PipeExpression(p) => pipe_text(*p),
        Value::PipeSubstitution => Seq::empty(),
    }
}

/// A value in argument position: `%` stands for the piped value, and a bare
/// pipeline renders as nothing.
pub open spec fn argument_text(v: Value, ind: Seq<char>, in_pipe: bool) -> Seq<char>
    decreases v, 0int,
{
    match v {
        Value::Literal(l) => literal_text(*l),
        Value::Identifier(id) => id.name@,
        Value::BinaryExpression(b) => binary_text(*b),
        Value::UnaryExpression(u) => unary_text(*u),
        Value::ArrayExpression(a) => array_text(*a, ind),
        Value::ObjectExpression(o) => object_text(*o, ind, in_pipe),
        Value::MemberExpression(m) => member_text(*m),
        Value::CallExpression(c) => call_text(*c, ind, in_pipe),
        Value::FunctionExpression(f) => function_text(*f),
        Value::PipeExpression(_) => Seq::empty(),
        Value::PipeSubstitution => "%"@,
    }
}

/// Texts of the first `n` elements.
pub open spec fn element_texts(els: Vec<Value>, n: int, ind: Seq<char>) -> Seq<Seq<char>>
    decreases els, n,
{
    if n <= 0 || n > els.len() {
        Seq::empty()
    } else {
        element_texts(els, n - 1, ind).push(value_text(els[n - 1], ind, false))
    }
}

pub open spec fn flat_array_text(a: ArrayExpression) -> Seq<char>
    decreases a, 1int,
{
    "["@ + join(element_texts(a.elements, a.elements.len() as int, Seq::empty()), ", "@) + "]"@
}

pub open spec fn array_text(a: ArrayExpression, ind: Seq<char>) -> Seq<char>
    decreases a, 2int,
{
    let flat = flat_array_text(a);
    if flat.len() <= MAX_FLAT_WIDTH {
        flat
    } else {
        let inner = indent_more(ind);
        "[\n"@ + inner + join(
            element_texts(a.elements, a.elements.len() as int, inner),
            ",\n"@ + inner,
        ) + "\n"@ + ind + "]"@
    }
}

/// Texts of the first `n` properties, each `key: value`.
pub open spec fn property_texts(
    props: Vec<ObjectProperty>,
    n: int,
    ind: Seq<char>,
    in_pipe: bool,
) -> Seq<Seq<char>>
    decreases props, n,
{
    if n <= 0 || n > props.len() {
        Seq::empty()
    } else {
        property_texts(props, n - 1, ind, in_pipe).push(
            props[n - 1].key.name@ + ": "@ + value_text(props[n - 1].value, ind, in_pipe),
        )
    }
}

pub open spec fn flat_object_text(o: ObjectExpression) -> Seq<char>
    decreases o, 1int,
{
    "{ "@ + join(
        property_texts(o.properties, o.properties.len() as int, Seq::empty(), false),
        ", "@,
    ) + " }"@
}

pub open spec fn object_text(o: ObjectExpression, ind: Seq<char>, in_pipe: bool) -> Seq<char>
    decreases o, 2int,
{
    let flat = flat_object_text(o);
    if flat.len() <= MAX_FLAT_WIDTH {
        flat
    } else {
        let inner = indent_more(ind);
        "{\n"@ + inner + join(
            property_texts(o.properties, o.properties.len() as int, inner, in_pipe),
            ",\n"@ + inner,
        ) + "\n"@ + ind + "}"@
    }
}

/// Texts of the first `n` arguments.
pub open spec fn argument_texts(args: Vec<Value>, n: int, ind: Seq<char>, in_pipe: bool) -> Seq<
    Seq<char>,
>
    decreases args, n,
{
    if n <= 0 || n > args.len() {
        Seq::empty()
    } else {
        argument_texts(args, n - 1, ind, in_pipe).push(argument_text(args[n - 1], ind, in_pipe))
    }
}

pub open spec fn call_text(c: CallExpression, ind: Seq<char>, in_pipe: bool) -> Seq<char>
    decreases c, 0int,
{
    c.callee.name@ + "("@ + join(
        argument_texts(c.arguments, c.arguments.len() as int, ind, in_pipe),
        ", "@,
    ) + ")"@
}

pub open spec fn member_text(m: MemberExpression) -> Seq<char>
    decreases m, 0int,
{
    let key = match m.property {
        MemberProperty::Identifier(id) => if m.computed {
            "["@ + id.name@ + "]"@
        } else {
            "."@ + id.name@
        },
        MemberProperty::Literal(l) => "["@ + l.raw@ + "]"@,
    };
    match m.object {
        MemberObject::MemberExpression(inner) => member_text(*inner) + key,
        MemberObject::Identifier(id) => id.name@ + key,
    }
}

/// Stage `i` of a pipeline of `len` stages, with its note and the marker
/// that leads into the next stage.
pub open spec fn stage_piece(
    stage: Seq<char>,
    notes: Map<usize, NonCodeNode>,
    i: int,
    len: int,
) -> Seq<char> {
    let with_note = match note_after(notes, i) {
        Some(t) => stage + t,
        None => stage,
    };
    if i == len - 1 {
        with_note
    } else if note_after(notes, i) is Some {
        with_note + "|> "@
    } else {
        with_note + "\n  |> "@
    }
}

/// The first `n` stage pieces of a pipeline.
pub open spec fn stage_pieces(body: Vec<Value>, notes: Map<usize, NonCodeNode>, n: int) -> Seq<
    Seq<char>,
>
    decreases body, n,
{
    if n <= 0 || n > body.len() {
        Seq::empty()
    } else {
        stage_pieces(body, notes, n - 1).push(
            stage_piece(value_text(body[n - 1], "  "@, true), notes, n - 1, body.len() as int),
        )
    }
}

pub open spec fn pipe_text(p: PipeExpression) -> Seq<char>
    decreases p, 0int,
{
    concat(stage_pieces(p.body, p.non_code_meta.none_code_nodes@, p.body.len() as int))
}

pub open spec fn param_names(params: Seq<Identifier>) -> Seq<Seq<char>> {
    params.map_values(|id: Identifier| id.name@)
}

pub open spec fn function_text(f: FunctionExpression) -> Seq<char>
    decreases f, 0int,
{
    "("@ + join(param_names(f.params@), ", "@) + ") => {"@ + program_text(
        f.body,
        Seq::empty(),
        true,
    ) + "}"@
}

/// Texts of the first `n` declarators of a declaration of kind `kind`.
pub open spec fn declarator_texts(decls: Vec<VariableDeclarator>, n: int, kind: Seq<char>) -> Seq<
    Seq<char>,
>
    decreases decls, n,
{
    if n <= 0 || n > decls.len() {
        Seq::empty()
    } else {
        declarator_texts(decls, n - 1, kind).push(
            kind + " "@ + decls[n - 1].id.name@ + " = "@ + value_text(
                decls[n - 1].init,
                Seq::empty(),
                false,
            ),
        )
    }
}

pub open spec fn statement_text(item: BodyItem) -> Seq<char>
    decreases item, 0int,
{
    match item {
        BodyItem::ExpressionStatement(s) => value_text(s.expression, Seq::empty(), false),
        BodyItem::VariableDeclaration(d) => concat(
            declarator_texts(d.declarations, d.declarations.len() as int, d.kind@),
        ),
        BodyItem::ReturnStatement(r) => "return "@ + argument_text(r.argument, Seq::empty(), false),
    }
}

/// What precedes statement `i`: the start note or the indentation for the
/// first, nothing after a legit note, else the indentation; a leading text
/// that ends a line is followed by the indentation.
pub open spec fn leading_text(
    notes: Map<usize, NonCodeNode>,
    start: Option<NonCodeNode>,
    i: int,
    ind: Seq<char>,
) -> Seq<char> {
    let base = if i == 0 {
        match start {
            Some(n) => n.value@,
            None => ind,
        }
    } else if note_after(notes, i - 1) is Some {
        Seq::empty()
    } else {
        ind
    };
    if base.len() > 0 && base.last() == '\n' {
        base + ind
    } else {
        base
    }
}

/// What follows statement `i` of `len`: its legit note, else a line break,
/// except after the last statement of a program that is not a block.
pub open spec fn trailing_text(
    notes: Map<usize, NonCodeNode>,
    i: int,
    len: int,
    is_block: bool,
) -> Seq<char> {
    match note_after(notes, i) {
        Some(t) => t,
        None => if i == len - 1 && !is_block {
            Seq::empty()
        } else {
            "\n"@
        },
    }
}

/// The first `n` statement pieces of a program body.
pub open spec fn statement_pieces(
    body: Vec<BodyItem>,
    notes: Map<usize, NonCodeNode>,
    start: Option<NonCodeNode>,
    n: int,
    ind: Seq<char>,
    is_block: bool,
) -> Seq<Seq<char>>
    decreases body, n,
{
    if n <= 0 || n > body.len() {
        Seq::empty()
    } else {
        statement_pieces(body, notes, start, n - 1, ind, is_block).push(
            leading_text(notes, start, n - 1, ind) + statement_text(body[n - 1]) + trailing_text(
                notes,
                n - 1,
                body.len() as int,
                is_block,
            ),
        )
    }
}

pub open spec fn program_text(p: Program, ind: Seq<char>, is_block: bool) -> Seq<char>
    decreases p, 0int,
{
    concat(
        statement_pieces(
            p.body,
            p.non_code_meta.none_code_nodes@,
            p.non_code_meta.start,
            p.body.len() as int,
            ind,
            is_block,
        ),
    )
}

} // verus!
