//! The syntax tree that the printer reads.
use std::collections::HashMap;
use vstd::prelude::*;

verus! {

/// A name, as written.
pub struct Identifier {
    pub name: String,
}

/// The value of a scalar literal.
pub enum LiteralValue {
    Str(String),
    /// A number, held as its canonical text (`3`, `-1`, `2.5`).
    Number(String),
    Bool(bool),
    Null,
}

/// A scalar literal with the text it was parsed from.
pub struct Literal {
    pub value: LiteralValue,
    pub raw: String,
}

/// What may stand as an operand of a binary or unary expression.
pub enum BinaryPart {
    Literal(Box<Literal>),
    Identifier(Box<Identifier>),
    BinaryExpression(Box<BinaryExpression>),
    CallExpression(Box<CallExpression>),
    UnaryExpression(Box<UnaryExpression>),
}

pub struct BinaryExpression {
    pub operator: String,
    pub left: BinaryPart,
    pub right: BinaryPart,
}

pub struct UnaryExpression {
    pub operator: String,
    pub argument: BinaryPart,
}

pub struct ArrayExpression {
    pub elements: Vec<Value>,
}

/// One `key: value` entry of an object.
pub struct ObjectProperty {
    pub key: Identifier,
    pub value: Value,
}

pub struct ObjectExpression {
    pub properties: Vec<ObjectProperty>,
}

pub enum MemberObject {
    MemberExpression(Box<MemberExpression>),
    Identifier(Box<Identifier>),
}

pub enum MemberProperty {
    Identifier(Box<Identifier>),
    Literal(Box<Literal>),
}

pub struct MemberExpression {
    pub object: MemberObject,
    pub property: MemberProperty,
    pub computed: bool,
}

pub struct CallExpression {
    pub callee: Identifier,
    pub arguments: Vec<Value>,
}

pub struct FunctionExpression {
    pub params: Vec<Identifier>,
    pub body: Program,
}

/// A chain of stages joined by `|>`; its side table is keyed by stage index.
pub struct PipeExpression {
    pub body: Vec<Value>,
    pub non_code_meta: NonCodeMeta,
}

pub enum Value {
    Literal(Box<Literal>),
    Identifier(Box<Identifier>),
    BinaryExpression(Box<BinaryExpression>),
    UnaryExpression(Box<UnaryExpression>),
    ArrayExpression(Box<ArrayExpression>),
    ObjectExpression(Box<ObjectExpression>),
    MemberExpression(Box<MemberExpression>),
    CallExpression(Box<CallExpression>),
    FunctionExpression(Box<FunctionExpression>),
    PipeExpression(Box<PipeExpression>),
    /// The `%` placeholder for the value piped in.
    PipeSubstitution,
}

/// Raw comment or whitespace text captured by the parser.
pub struct NonCodeNode {
    pub value: String,
}

/// Text that is not code: entry `i` follows item `i`, `start` precedes item 0.
pub struct NonCodeMeta {
    pub none_code_nodes: HashMap<usize, NonCodeNode>,
    pub start: Option<NonCodeNode>,
}

pub struct ExpressionStatement {
    pub expression: Value,
}

/// One `name = init` of a declaration.
pub struct VariableDeclarator {
    pub id: Identifier,
    pub init: Value,
}

pub struct VariableDeclaration {
    pub kind: String,
    pub declarations: Vec<VariableDeclarator>,
}

pub struct ReturnStatement {
    pub argument: Value,
}

pub enum BodyItem {
    ExpressionStatement(ExpressionStatement),
    VariableDeclaration(VariableDeclaration),
    ReturnStatement(ReturnStatement),
}

/// A sequence of statements with the comments and blank lines around them.
pub struct Program {
    pub body: Vec<BodyItem>,
    pub non_code_meta: NonCodeMeta,
}

} // verus!
