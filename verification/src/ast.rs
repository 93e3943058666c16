use vstd::prelude::*;
use crate::Ident;

verus! {

/// A (possibly qualified) path, held as its segment identifiers.
pub struct Path {
    pub segments: Vec<Ident>,
}

impl Path {
    /// The segment names of a path.
    pub open spec fn names(&self) -> Seq<Seq<char>> {
        self.segments@.map(|i: int, id: Ident| id@)
    }
}

/// An attribute attached to a statement or expression: its name (a single
/// path segment) and whether its argument token list is empty.
pub struct Attr {
    pub name: Ident,
    pub tokens_empty: bool,
}

/// A match or binding pattern, holding exactly what the rewrite reads:
/// wrapper shapes descended through, alternatives of an or-pattern, and the
/// paths of struct-, tuple-struct- and path-shaped patterns. Subpatterns of a
/// struct or tuple-struct pattern are never read nor changed, so they are not
/// part of the model.
pub enum Pat {
    /// A binding `x` or `x @ subpat`.
    Binding { name: Ident, subpat: Option<Box<Pat>> },
    /// `&inner`.
    Ref { inner: Box<Pat> },
    /// A box pattern.
    BoxPat { inner: Box<Pat> },
    /// `inner: Type`.
    Ascribed { inner: Box<Pat> },
    /// `a | b | ...`.
    Or { cases: Vec<Pat> },
    /// `Path { ... }`.
    StructPat { path: Path },
    /// `Path(...)`.
    TupleStructPat { path: Path },
    /// A bare path; `qself` records a qualified self prefix.
    PathPat { qself: bool, path: Path },
    /// Any other pattern: never descended into, never changed.
    Other,
}

/// One arm of a match expression.
pub struct Arm {
    pub pat: Pat,
    pub body: Expr,
}

/// A match expression.
pub struct MatchExpr {
    pub attrs: Vec<Attr>,
    pub scrutinee: Box<Expr>,
    pub arms: Vec<Arm>,
}

/// An if expression; its condition may be a let-condition.
pub struct IfExpr {
    pub attrs: Vec<Attr>,
    pub cond: Box<Expr>,
    pub then_stmts: Vec<Stmt>,
    pub else_branch: Option<Box<Expr>>,
}

/// A `let PAT = EXPR` condition of an if expression.
pub struct LetExpr {
    pub pat: Pat,
    pub init: Box<Expr>,
}

/// An expression, as far as the rewrite reads it: match and if expressions
/// are held in full, a block holds its statements, and every other
/// expression holds only its direct subexpressions.
pub enum Expr {
    Match(MatchExpr),
    If(IfExpr),
    LetCond(LetExpr),
    BlockExpr { stmts: Vec<Stmt> },
    Other { children: Vec<Expr> },
}

/// A `let PATTERN = EXPR;` statement.
pub struct Local {
    pub attrs: Vec<Attr>,
    pub pat: Pat,
    pub init: Option<Box<Expr>>,
}

/// A statement of a function body.
pub enum Stmt {
    Local(Local),
    /// A bare expression statement, with or without a trailing semicolon.
    ExprStmt(Expr),
    /// A nested item definition: never descended into by the body visitor.
    ItemStmt(Item),
}

/// A generic parameter of an impl block or method: only lifetimes are read.
pub enum GenericParam {
    LifetimeParam { name: Ident },
    OtherParam,
}

/// A generic argument of a type's argument list.
pub enum GenericArg {
    LifetimeArg { name: Ident },
    OtherArg,
}

/// The argument list of the final segment of an impl block's self type.
pub enum PathArgs {
    NoArgs,
    AngleBracketed { args: Vec<GenericArg> },
    Parenthesized,
}

/// The self type of an impl block: a plain path type, of which only the
/// final segment's identifier and arguments are read, or anything else.
pub enum SelfTy {
    PathTy { last: Ident, args: PathArgs },
    OtherTy,
}

/// A method of an impl block; only its generic parameters are read.
pub struct Method {
    pub generics: Vec<GenericParam>,
}

/// An impl block.
pub struct ItemImpl {
    pub generics: Vec<GenericParam>,
    pub self_ty: SelfTy,
    pub methods: Vec<Method>,
}

/// A function item: its body's statements.
pub struct ItemFn {
    pub stmts: Vec<Stmt>,
}

/// A use import tree.
pub enum UseTree {
    /// `prefix::tree`.
    UsePath { ident: Ident, tree: Box<UseTree> },
    /// A plain name leaf.
    UseName { ident: Ident },
    /// `name as rename`.
    UseRename { ident: Ident, rename: Ident },
    /// `*`.
    UseGlob,
    /// `{ a, b, ... }`.
    UseGroup { items: Vec<UseTree> },
}

/// A use item.
pub struct ItemUse {
    pub tree: UseTree,
}

/// An item statement.
pub enum Item {
    FnItem(ItemFn),
    ImplItem(ItemImpl),
    UseItem(ItemUse),
    OtherItem,
}

} // verus!
