//! Properties of the printed text that hold for every tree.
use crate::ast::{
    ArrayExpression, BinaryExpression, BinaryPart, BodyItem, Literal, NonCodeNode, ObjectExpression,
    Program, Value,
};
use crate::recast::lemma_concat_push;
use crate::text::{
    array_text, binary_text, concat, element_texts, first_visible, flat_array_text,
    flat_object_text, indent_more, join, leading_text, literal_text, note_after, object_text,
    part_text, precedence_of, program_text, property_texts, statement_pieces, statement_text,
    trailing_text, value_text, wrap, wraps_left, wraps_right, MAX_FLAT_WIDTH,
};
use vstd::prelude::*;

verus! {

/// An operand of a binary or unary expression, seen as a value.
pub open spec fn widen(p: BinaryPart) -> Value {
    match p {
        BinaryPart::Literal(l) => Value::Literal(l),
        BinaryPart::Identifier(id) => Value::Identifier(id),
        BinaryPart::BinaryExpression(b) => Value::BinaryExpression(b),
        BinaryPart::CallExpression(c) => Value::CallExpression(c),
        BinaryPart::UnaryExpression(u) => Value::UnaryExpression(u),
    }
}

/// An operand prints exactly as the same node does in expression position
/// at the top level.
pub proof fn lemma_operand_prints_as_value(p: BinaryPart)
    ensures
        part_text(p) == value_text(widen(p), Seq::empty(), false),
{
}

/// A binary expression prints as its two operands around the operator, and
/// an operand that is itself a binary expression is left bare only when
/// leaving it bare cannot regroup it: on the left it must bind at least as
/// tightly as the operator, on the right strictly more tightly, and never
/// under a subtraction.
pub proof fn lemma_bare_operands_bind_tighter(e: BinaryExpression)
    ensures
        binary_text(e) == wrap(part_text(e.left), wraps_left(e.operator@, e.left)) + " "@
            + e.operator@ + " "@ + wrap(part_text(e.right), wraps_right(e.operator@, e.right)),
        e.left matches BinaryPart::BinaryExpression(b) ==> (!wraps_left(e.operator@, e.left)
            ==> precedence_of(b.operator@) >= precedence_of(e.operator@)),
        e.right matches BinaryPart::BinaryExpression(b) ==> (!wraps_right(e.operator@, e.right)
            ==> precedence_of(b.operator@) > precedence_of(e.operator@) && e.operator@ != seq![
            '-',
        ]),
        !(e.left is BinaryExpression) ==> !wraps_left(e.operator@, e.left),
        !(e.right is BinaryExpression) ==> !wraps_right(e.operator@, e.right),
{
}

/// Under a subtraction a binary right operand is always parenthesized, and
/// any other right operand never is.
pub proof fn lemma_subtraction_groups_right(e: BinaryExpression)
    requires
        e.operator@ == seq!['-'],
    ensures
        e.right is BinaryExpression ==> binary_text(e) == wrap(
            part_text(e.left),
            wraps_left(e.operator@, e.left),
        ) + " "@ + e.operator@ + " "@ + (seq!['('] + part_text(e.right) + seq![')']),
        !(e.right is BinaryExpression) ==> binary_text(e) == wrap(
            part_text(e.left),
            wraps_left(e.operator@, e.left),
        ) + " "@ + e.operator@ + " "@ + part_text(e.right),
{
}

/// A string literal is printed between the quotes it was written with.
pub proof fn lemma_quote_preserved(l: Literal)
    requires
        l.value is Str,
    ensures
        first_visible(l.raw@) == Some('\'') ==> literal_text(l) == seq!['\''] + l.value->Str_0@
            + seq!['\''],
        first_visible(l.raw@) == Some('"') ==> literal_text(l) == seq!['"'] + l.value->Str_0@
            + seq!['"'],
{
}

/// An array stays on one line while that line is at most `MAX_FLAT_WIDTH`
/// characters; past that, each element goes on a line of its own, two
/// spaces deeper than `ind`, and the closing bracket lines up at `ind`.
pub proof fn lemma_array_width_threshold(a: ArrayExpression, ind: Seq<char>)
    ensures
        flat_array_text(a).len() <= MAX_FLAT_WIDTH ==> array_text(a, ind) == flat_array_text(a),
        flat_array_text(a).len() > MAX_FLAT_WIDTH ==> array_text(a, ind) == "[\n"@ + indent_more(
            ind,
        ) + join(
            element_texts(a.elements, a.elements.len() as int, indent_more(ind)),
            ",\n"@ + indent_more(ind),
        ) + "\n"@ + ind + "]"@,
{
}

/// An object stays on one line while that line is at most `MAX_FLAT_WIDTH`
/// characters; past that, each property goes on a line of its own, two
/// spaces deeper than `ind`.
pub proof fn lemma_object_width_threshold(o: ObjectExpression, ind: Seq<char>, in_pipe: bool)
    ensures
        flat_object_text(o).len() <= MAX_FLAT_WIDTH ==> object_text(o, ind, in_pipe)
            == flat_object_text(o),
        flat_object_text(o).len() > MAX_FLAT_WIDTH ==> object_text(o, ind, in_pipe) == "{\n"@
            + indent_more(ind) + join(
            property_texts(o.properties, o.properties.len() as int, indent_more(ind), in_pipe),
            ",\n"@ + indent_more(ind),
        ) + "\n"@ + ind + "}"@,
{
}

/// A legit note captured after statement `i` appears verbatim between the
/// text of statement `i` and that of statement `i + 1`, with nothing
/// inserted on either side of it.
pub proof fn lemma_note_between_statements(
    p: Program,
    ind: Seq<char>,
    is_block: bool,
    i: int,
    c: Seq<char>,
) -> (k: int)
    requires
        0 <= i,
        i + 1 < p.body.len(),
        note_after(p.non_code_meta.none_code_nodes@, i) == Some(c),
    ensures
        ({
            let run = statement_text(p.body[i]) + c + statement_text(p.body[i + 1]);
            let out = program_text(p, ind, is_block);
            0 <= k && k + run.len() <= out.len() && out.subrange(k, k + run.len()) == run
        }),
{
    let notes = p.non_code_meta.none_code_nodes@;
    let start = p.non_code_meta.start;
    let len = p.body.len() as int;
    let pre = concat(statement_pieces(p.body, notes, start, i, ind, is_block)) + leading_text(
        notes,
        start,
        i,
        ind,
    );
    let s0 = statement_text(p.body[i]);
    let s1 = statement_text(p.body[i + 1]);
    let head = pre + s0 + c + s1;
    let piece0 = leading_text(notes, start, i, ind) + s0 + trailing_text(notes, i, len, is_block);
    let piece1 = leading_text(notes, start, i + 1, ind) + s1 + trailing_text(
        notes,
        i + 1,
        len,
        is_block,
    );
    assert(trailing_text(notes, i, len, is_block) == c);
    assert(leading_text(notes, start, i + 1, ind) =~= Seq::<char>::empty());
    let pieces_i = statement_pieces(p.body, notes, start, i, ind, is_block);
    assert(statement_pieces(p.body, notes, start, i + 1, ind, is_block) == pieces_i.push(piece0));
    assert(statement_pieces(p.body, notes, start, i + 2, ind, is_block) == pieces_i.push(
        piece0,
    ).push(piece1));
    lemma_concat_push(pieces_i, piece0);
    lemma_concat_push(pieces_i.push(piece0), piece1);
    let mut post = trailing_text(notes, i + 1, len, is_block);
    assert(concat(statement_pieces(p.body, notes, start, i + 2, ind, is_block)) =~= head + post);
    lemma_pieces_prefix(p.body, notes, start, ind, is_block, i + 2, len);
    let total = program_text(p, ind, is_block);
    let run = s0 + c + s1;
    assert(head =~= pre + run);
    let a = concat(statement_pieces(p.body, notes, start, i + 2, ind, is_block));
    assert(total == concat(statement_pieces(p.body, notes, start, len, ind, is_block)));
    assert(a == head + post);
    assert(total.subrange(0, a.len() as int) == a);
    assert(a.subrange(pre.len() as int, (pre.len() + run.len()) as int) =~= run);
    assert(total.subrange(pre.len() as int, (pre.len() + run.len()) as int) =~= a.subrange(
        pre.len() as int,
        (pre.len() + run.len()) as int,
    ));
    assert(total.subrange(pre.len() as int, (pre.len() + run.len()) as int) =~= run);
    pre.len() as int
}

/// A block whose last statement has no legit note after it ends with a
/// line break, as it sits inside enclosing braces.
pub proof fn lemma_block_ends_with_break(p: Program, ind: Seq<char>)
    requires
        p.body.len() > 0,
        note_after(p.non_code_meta.none_code_nodes@, p.body.len() - 1) is None,
    ensures
        program_text(p, ind, true).len() > 0,
        program_text(p, ind, true).last() == '\n',
{
    let notes = p.non_code_meta.none_code_nodes@;
    let start = p.non_code_meta.start;
    let n = p.body.len() as int;
    let x = leading_text(notes, start, n - 1, ind) + statement_text(p.body[n - 1]) + trailing_text(
        notes,
        n - 1,
        n,
        true,
    );
    reveal_strlit("\n");
    lemma_concat_push(statement_pieces(p.body, notes, start, n - 1, ind, true), x);
    let before = concat(statement_pieces(p.body, notes, start, n - 1, ind, true));
    assert(program_text(p, ind, true) == before + x);
    assert((before + x).last() == x.last());
}

/// The text of the first `k` statements begins the text of the first `m`.
proof fn lemma_pieces_prefix(
    body: Vec<BodyItem>,
    notes: Map<usize, NonCodeNode>,
    start: Option<NonCodeNode>,
    ind: Seq<char>,
    is_block: bool,
    k: int,
    m: int,
)
    requires
        0 <= k <= m <= body.len(),
    ensures
        ({
            let a = concat(statement_pieces(body, notes, start, k, ind, is_block));
            let b = concat(statement_pieces(body, notes, start, m, ind, is_block));
            a.len() <= b.len() && b.subrange(0, a.len() as int) == a
        }),
    decreases m - k,
{
    let a = concat(statement_pieces(body, notes, start, k, ind, is_block));
    if m == k {
        assert(a.subrange(0, a.len() as int) =~= a);
    } else {
        lemma_pieces_prefix(body, notes, start, ind, is_block, k, m - 1);
        let prev = statement_pieces(body, notes, start, m - 1, ind, is_block);
        let x = leading_text(notes, start, m - 1, ind) + statement_text(body[m - 1])
            + trailing_text(notes, m - 1, body.len() as int, is_block);
        lemma_concat_push(prev, x);
        let b = concat(statement_pieces(body, notes, start, m, ind, is_block));
        assert(b.subrange(0, a.len() as int) =~= concat(prev).subrange(0, a.len() as int));
    }
}

} // verus!
