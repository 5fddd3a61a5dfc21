//! The syntax tree that the checks read.
//!
//! It holds, as plain values, what the checks look at in a parsed Rust source
//! file: items, function signatures, statements, expressions, macro
//! invocations with their top-level tokens, and the source line on which each
//! interesting node starts.

use vstd::prelude::*;

verus! {

/// A path segment such as `storage` in `env::storage`; `has_args` is set when
/// the segment carries generic or parenthesized arguments.
pub struct PathSegment {
    pub ident: String,
    pub has_args: bool,
}

/// A path such as `soroban_sdk::Address`.
pub struct Path {
    pub leading_colon: bool,
    pub segments: Vec<PathSegment>,
}

/// A type, as far as the checks distinguish types.
pub enum Ty {
    Path { path: Path },
    Reference { elem: Box<Ty> },
    Other,
}

/// A pattern, as far as the checks distinguish patterns.
pub enum Pat {
    Ident { name: String, line: usize },
    Typed { pat: Box<Pat>, ty: Ty },
    Other,
}

/// A literal. An integer keeps its suffix and its base-10 digits.
pub enum Lit {
    Str { value: String },
    Int { suffix: String, digits: String },
    Float,
    Bool,
    Other,
}

/// Binary operators, compound assignments included.
#[derive(PartialEq, Eq, Structural, Clone, Copy)]
pub enum BinOp {
    Add,
    Sub,
    Mul,
    Div,
    Rem,
    And,
    Or,
    BitXor,
    BitAnd,
    BitOr,
    Shl,
    Shr,
    Eq,
    Lt,
    Le,
    Ne,
    Ge,
    Gt,
    AddAssign,
    SubAssign,
    MulAssign,
    DivAssign,
    RemAssign,
    BitXorAssign,
    BitAndAssign,
    BitOrAssign,
    ShlAssign,
    ShrAssign,
    /// An operator that none of the others names.
    Other,
}

/// A top-level token of a macro invocation's argument stream.
pub enum TokenTree {
    Ident { name: String },
    Punct { ch: char },
    Literal { text: String },
    Group,
}

/// A macro invocation `path!(tokens)`.
///
/// `text` is the token stream printed back as text, `body` is the whole
/// argument stream read as one expression (when it is one), and `first_arg`
/// is the part before the first top-level comma read as one expression (when
/// it is one).
pub struct Macro {
    pub path: Path,
    pub tokens: Vec<TokenTree>,
    pub text: String,
    pub body: Option<Box<Expr>>,
    pub first_arg: Option<Box<Expr>>,
    pub line: usize,
}

/// One `arm => body` of a `match`.
pub struct Arm {
    pub pat: Pat,
    pub guard: Option<Box<Expr>>,
    pub body: Box<Expr>,
}

/// One `member: expr` of a struct literal.
pub struct FieldValue {
    pub member: String,
    pub expr: Expr,
}

/// An expression. Kinds that no check tells apart are kept as `Other`,
/// with their sub-expressions in source order.
#[allow(inconsistent_fields)]
pub enum Expr {
    MethodCall { receiver: Box<Expr>, method: String, args: Vec<Expr>, line: usize },
    Call { func: Box<Expr>, args: Vec<Expr> },
    Path { path: Path, line: usize },
    Lit { lit: Lit },
    Field { base: Box<Expr>, member: String },
    Reference { expr: Box<Expr> },
    Paren { expr: Box<Expr> },
    Binary { left: Box<Expr>, op: BinOp, right: Box<Expr>, line: usize },
    Unary { expr: Box<Expr> },
    Cast { expr: Box<Expr>, ty: Ty, line: usize },
    Macro { mac: Macro },
    ForLoop { pat: Pat, expr: Box<Expr>, body: Block },
    While { cond: Box<Expr>, body: Block, cond_text: String, line: usize },
    Loop { body: Block },
    If { cond: Box<Expr>, then_branch: Block, else_branch: Option<Box<Expr>> },
    Match { expr: Box<Expr>, arms: Vec<Arm> },
    Block { block: Block },
    Closure { body: Box<Expr> },
    Return { expr: Option<Box<Expr>> },
    Break { expr: Option<Box<Expr>> },
    Struct { path: Path, fields: Vec<FieldValue>, rest: Option<Box<Expr>> },
    Try { expr: Box<Expr> },
    Other { children: Vec<Expr> },
}

/// `let pat = init else { diverge };`
pub struct Local {
    pub pat: Pat,
    pub init: Option<Box<Expr>>,
    pub diverge: Option<Box<Expr>>,
    pub line: usize,
}

pub enum StmtKind {
    Local { local: Local },
    Item { item: Box<Item> },
    Expr { expr: Expr, semi: bool },
    Macro { mac: Macro },
}

/// A statement and the line on which it starts.
pub struct Stmt {
    pub kind: StmtKind,
    pub line: usize,
}

/// A `{ ... }` block and the line of its closing brace.
pub struct Block {
    pub stmts: Vec<Stmt>,
    pub close_line: usize,
}

/// An attribute `#[path(list_tokens)]`; `list_tokens` is the printed token
/// list when the attribute has the list form.
pub struct Attribute {
    pub path: Path,
    pub list_tokens: Option<String>,
}

/// A function parameter.
pub enum FnArg {
    Receiver,
    Typed { pat: Pat, ty: Ty },
}

/// A free function or a function of an `impl` block.
///
/// `name_line` is the line of the name, `fn_line` that of the `fn` keyword,
/// `span_start`/`span_end` the first and last line of the whole function.
pub struct FnDef {
    pub attrs: Vec<Attribute>,
    pub is_pub: bool,
    pub name: String,
    pub name_line: usize,
    pub fn_line: usize,
    pub inputs: Vec<FnArg>,
    pub output_is_unit: bool,
    pub block: Block,
    pub span_start: usize,
    pub span_end: usize,
}

pub enum ImplItem {
    Fn { func: FnDef },
    Const { expr: Expr },
    Other,
}

pub struct ItemImpl {
    pub attrs: Vec<Attribute>,
    pub items: Vec<ImplItem>,
}

/// A struct or enum definition.
pub struct TypeDef {
    pub attrs: Vec<Attribute>,
    pub name: String,
    pub line: usize,
}

pub enum UseTree {
    Path { ident: String, line: usize, tree: Box<UseTree> },
    Name { ident: String },
    Rename { ident: String },
    Glob,
    Group { items: Vec<UseTree> },
}

/// An item of a trait: a function with its default body, or a constant with
/// its default value, when it has one.
pub enum TraitItem {
    Fn { body: Option<Block> },
    Const { default: Option<Expr> },
    Other,
}

#[allow(inconsistent_fields)]
pub enum Item {
    Fn { func: FnDef },
    Impl { imp: ItemImpl },
    Trait { items: Vec<TraitItem> },
    Struct { def: TypeDef },
    Enum { def: TypeDef },
    Use { tree: UseTree },
    Mod { items: Vec<Item> },
    /// A `const` or `static` item and its value.
    Const { expr: Expr },
    Other,
}

/// A whole source file.
pub struct SourceFile {
    pub items: Vec<Item>,
}

} // verus!
