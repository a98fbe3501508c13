//! The parts of a Rust syntax tree that the extraction reads, held as plain values:
//! the kinds of nodes it tells apart and the token text it searches.
//!
//! Token text is the rendering of a node's tokens, each token separated by a space
//! (`ctx . accounts . vault`).
use vstd::prelude::*;

verus! {

/// A function call `func(args)`.
#[derive(Debug, Clone, PartialEq)]
pub struct CallExpr {
    /// The text of the call's tokens followed by ` . func`.
    pub func: String,
    /// The text of each argument.
    pub args: Vec<String>,
    /// The text of the whole call.
    pub text: String,
}

/// A method call `receiver.method(args)`.
#[derive(Debug, Clone, PartialEq)]
pub struct MethodCallExpr {
    /// The method's name.
    pub method: String,
    /// The text of each argument.
    pub args: Vec<String>,
    /// The text of the whole call.
    pub text: String,
}

/// An expression in statement position.
#[derive(Debug, PartialEq)]
pub enum Expr {
    /// `left = right`; each side is the text of the assignment's tokens followed by
    /// ` . left` and ` . right`.
    Assign { lhs: String, rhs: String },
    MethodCall(MethodCallExpr),
    Call(CallExpr),
    /// A macro invocation: the last segment of its path and the text of its tokens.
    Macro { name: String, tokens: String },
    /// `if`: the text of the expression followed by ` . cond`, the statements of the
    /// `then` branch and the `else` branch if any.
    If { cond: String, then_branch: Vec<Stmt>, else_branch: Option<Box<Expr>> },
    Block(Vec<Stmt>),
    /// `inner?`
    Try(Box<Expr>),
    Other,
}

/// The initialiser of a `let`, by kind.
#[derive(Debug, Clone, PartialEq)]
pub enum InitExpr {
    Call(CallExpr),
    MethodCall(MethodCallExpr),
    Other,
}

/// The initialiser of a `let`: its text and its kind.
#[derive(Debug, Clone, PartialEq)]
pub struct LocalInit {
    pub text: String,
    pub expr: InitExpr,
}

/// A statement of a block.
#[derive(Debug, PartialEq)]
pub enum Stmt {
    /// `let pat = init;`: the bound name (or the pattern's text) and the initialiser.
    Local { name: String, init: Option<LocalInit> },
    Expr(Expr),
    /// Items and macro statements.
    Other,
}

/// Binary operators, as far as the body scan tells them apart.
#[derive(Debug, Clone, Copy, PartialEq, Eq, Structural)]
pub enum BinOp {
    Add,
    Sub,
    Mul,
    Div,
    Other,
}

/// A node met while walking a function body in syntax-tree order.
#[derive(Debug, Clone, PartialEq)]
pub enum BodyEvent {
    /// A macro: the last segment of its path, the text of its tokens, and the text
    /// of its first token tree if it has one.
    Macro { name: String, tokens: String, first_token: Option<String> },
    /// A field access; the member's name when it is named.
    Field { member: Option<String> },
    /// A method call: its name and the text of the whole call.
    MethodCall { method: String, text: String },
    /// A binary expression: its operator and its text.
    Binary { op: BinOp, text: String },
}

/// A typed parameter of a function signature.
#[derive(Debug, Clone, PartialEq)]
pub struct FnParam {
    /// The text of the pattern.
    pub pat: String,
    /// The text of the type.
    pub ty: String,
    /// For a path type, the last segment's name.
    pub path_last: Option<String>,
    /// For a path type, the last segment of the first generic argument when that argument
    /// is itself a path type.
    pub first_generic: Option<String>,
}

/// A free function.
#[derive(Debug, PartialEq)]
pub struct FnItem {
    pub name: String,
    pub params: Vec<FnParam>,
    /// The text of each top-level statement of the body.
    pub stmt_texts: Vec<String>,
    /// The body's nodes in walk order.
    pub events: Vec<BodyEvent>,
    /// The body's top-level statements.
    pub body: Vec<Stmt>,
}

/// An attribute: the last segment of its path, its full text and the text of its meta.
#[derive(Debug, Clone, PartialEq)]
pub struct Attr {
    pub name: String,
    pub text: String,
    pub meta: String,
}

/// A named field of a struct.
#[derive(Debug, Clone, PartialEq)]
pub struct FieldItem {
    pub name: String,
    /// The text of the type.
    pub ty: String,
    /// For a path type, the last segment's name.
    pub path_last: Option<String>,
    /// For a path type with angle-bracketed arguments, the last segment of each argument
    /// that is a path type, in order.
    pub generic_paths: Vec<String>,
    pub attrs: Vec<Attr>,
}

/// A struct; `fields` is `None` unless its fields are named.
#[derive(Debug, Clone, PartialEq)]
pub struct StructItem {
    pub name: String,
    pub attrs: Vec<Attr>,
    pub fields: Option<Vec<FieldItem>>,
}

/// A variant of an enum.
#[derive(Debug, Clone, PartialEq)]
pub struct VariantItem {
    pub name: String,
    pub attrs: Vec<Attr>,
}

/// An enum.
#[derive(Debug, Clone, PartialEq)]
pub struct EnumItem {
    pub name: String,
    pub attrs: Vec<Attr>,
    pub variants: Vec<VariantItem>,
}

/// A macro invocation anywhere in a file.
#[derive(Debug, Clone, PartialEq)]
pub struct MacroItem {
    /// The last segment of its path.
    pub name: String,
    /// The text of its tokens.
    pub tokens: String,
}

/// What a file walk meets, in walk order.
#[derive(Debug, PartialEq)]
pub enum SourceItem {
    Function(FnItem),
    Struct(StructItem),
    Enum(EnumItem),
    Macro(MacroItem),
}

} // verus!
