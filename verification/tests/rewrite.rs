use proj_rewrite::ast::{
    Arm, Attr, Expr, GenericArg, GenericParam, IfExpr, Item, ItemFn, ItemImpl, ItemUse, LetExpr,
    Local, MatchExpr, Method, Pat, Path, PathArgs, SelfTy, Stmt, UseTree,
};
use proj_rewrite::entry::{attribute, parse};
use proj_rewrite::fnbody::replace_item_fn;
use proj_rewrite::ident::{marker_ident, proj_ident};
use proj_rewrite::items::{replace_item_impl, replace_item_use};
use proj_rewrite::pattern::Context;
use proj_rewrite::{Ident, Mutability, RewriteError};

fn id(s: &str) -> Ident {
    Ident::new(s.chars().collect())
}

fn text(i: &Ident) -> String {
    i.chars.iter().collect()
}

fn path(segs: &[&str]) -> Path {
    Path { segments: segs.iter().map(|s| id(s)).collect() }
}

fn marker(name: &str, tokens_empty: bool) -> Attr {
    Attr { name: id(name), tokens_empty }
}

fn unit_expr() -> Expr {
    Expr::Other { children: Vec::new() }
}

#[test]
fn projection_names_by_mode() {
    assert_eq!(text(&proj_ident(&id("Foo"), Mutability::Mutable)), "__FooProjection");
    assert_eq!(text(&proj_ident(&id("Foo"), Mutability::Immutable)), "__FooProjectionRef");
    assert_eq!(text(&proj_ident(&id("Foo"), Mutability::Owned)), "__FooProjectionOwned");
}

#[test]
fn marker_names_by_mode() {
    assert_eq!(text(&marker_ident(Mutability::Mutable)), "project");
    assert_eq!(text(&marker_ident(Mutability::Immutable)), "project_ref");
    assert_eq!(text(&marker_ident(Mutability::Owned)), "project_replace");
}

#[test]
fn single_struct_path_rewritten() {
    let mut ctx = Context::new(Mutability::Mutable);
    let p = Pat::StructPat { path: path(&["Foo"]) };
    let r = ctx.replace_pat(p, true);
    assert!(ctx.replaced);
    match r {
        Pat::StructPat { path } => {
            assert_eq!(path.segments.len(), 1);
            assert_eq!(text(&path.segments[0]), "__FooProjection");
        }
        _ => panic!("pattern shape changed"),
    }
}

#[test]
fn first_of_two_distinct_paths_wins() {
    let mut ctx = Context::new(Mutability::Mutable);
    let p = Pat::Or {
        cases: vec![
            Pat::TupleStructPat { path: path(&["A"]) },
            Pat::TupleStructPat { path: path(&["B"]) },
        ],
    };
    let r = ctx.replace_pat(p, true);
    assert!(ctx.replaced);
    match r {
        Pat::Or { cases } => {
            match &cases[0] {
                Pat::TupleStructPat { path } => assert_eq!(text(&path.segments[0]), "__AProjection"),
                _ => panic!("first case shape changed"),
            }
            match &cases[1] {
                Pat::TupleStructPat { path } => assert_eq!(text(&path.segments[0]), "B"),
                _ => panic!("second case shape changed"),
            }
        }
        _ => panic!("or-pattern shape changed"),
    }
}

#[test]
fn same_shaped_enum_paths_both_rewritten() {
    let mut ctx = Context::new(Mutability::Immutable);
    let p = Pat::Or {
        cases: vec![
            Pat::TupleStructPat { path: path(&["E", "A"]) },
            Pat::TupleStructPat { path: path(&["E", "B"]) },
        ],
    };
    let r = ctx.replace_pat(p, true);
    match r {
        Pat::Or { cases } => {
            for (case, tail) in cases.iter().zip(["A", "B"]) {
                match case {
                    Pat::TupleStructPat { path } => {
                        assert_eq!(text(&path.segments[0]), "__EProjectionRef");
                        assert_eq!(text(&path.segments[1]), tail);
                    }
                    _ => panic!("case shape changed"),
                }
            }
        }
        _ => panic!("or-pattern shape changed"),
    }
}

#[test]
fn long_path_never_rewritten() {
    let mut ctx = Context::new(Mutability::Mutable);
    let p = Pat::StructPat { path: path(&["a", "b", "C"]) };
    let r = ctx.replace_pat(p, true);
    assert!(!ctx.replaced);
    match r {
        Pat::StructPat { path } => {
            assert_eq!(text(&path.segments[0]), "a");
            assert_eq!(text(&path.segments[1]), "b");
            assert_eq!(text(&path.segments[2]), "C");
        }
        _ => panic!("pattern shape changed"),
    }
}

#[test]
fn bare_path_only_in_match_position() {
    let mut ctx = Context::new(Mutability::Mutable);
    let r = ctx.replace_pat(Pat::PathPat { qself: false, path: path(&["Foo"]) }, false);
    assert!(!ctx.replaced);
    match r {
        Pat::PathPat { path, .. } => assert_eq!(text(&path.segments[0]), "Foo"),
        _ => panic!("pattern shape changed"),
    }
    let mut ctx2 = Context::new(Mutability::Mutable);
    let r2 = ctx2.replace_pat(Pat::PathPat { qself: false, path: path(&["Foo"]) }, true);
    assert!(ctx2.replaced);
    match r2 {
        Pat::PathPat { path, .. } => assert_eq!(text(&path.segments[0]), "__FooProjection"),
        _ => panic!("pattern shape changed"),
    }
}

#[test]
fn wrappers_are_descended() {
    let mut ctx = Context::new(Mutability::Mutable);
    let p = Pat::Ref {
        inner: Box::new(Pat::Binding {
            name: id("x"),
            subpat: Some(Box::new(Pat::TupleStructPat { path: path(&["Foo"]) })),
        }),
    };
    let r = ctx.replace_pat(p, true);
    match r {
        Pat::Ref { inner } => match *inner {
            Pat::Binding { name, subpat: Some(sp) } => {
                assert_eq!(text(&name), "x");
                match *sp {
                    Pat::TupleStructPat { path } => {
                        assert_eq!(text(&path.segments[0]), "__FooProjection")
                    }
                    _ => panic!("subpattern shape changed"),
                }
            }
            _ => panic!("binding shape changed"),
        },
        _ => panic!("reference shape changed"),
    }
}

fn match_init(arm_path: &[&str]) -> Option<Box<Expr>> {
    Some(Box::new(Expr::Match(MatchExpr {
        attrs: Vec::new(),
        scrutinee: Box::new(unit_expr()),
        arms: vec![Arm { pat: Pat::StructPat { path: path(arm_path) }, body: unit_expr() }],
    })))
}

#[test]
fn ambiguous_let_rejected_same_type() {
    let mut ctx = Context::new(Mutability::Mutable);
    let l = Local {
        attrs: Vec::new(),
        pat: Pat::StructPat { path: path(&["Foo"]) },
        init: match_init(&["Foo"]),
    };
    assert!(matches!(ctx.replace_local(l), Err(RewriteError::AmbiguousLet)));
}

#[test]
fn ambiguous_let_rejected_different_types() {
    let mut ctx = Context::new(Mutability::Mutable);
    let l = Local {
        attrs: Vec::new(),
        pat: Pat::StructPat { path: path(&["Bar"]) },
        init: match_init(&["Foo"]),
    };
    assert!(matches!(ctx.replace_local(l), Err(RewriteError::AmbiguousLet)));
}

#[test]
fn plain_let_passes_through() {
    let mut ctx = Context::new(Mutability::Mutable);
    let l = Local {
        attrs: Vec::new(),
        pat: Pat::Binding { name: id("x"), subpat: None },
        init: Some(Box::new(unit_expr())),
    };
    let r = ctx.replace_local(l).unwrap();
    assert!(!ctx.replaced);
    match r.pat {
        Pat::Binding { name, subpat: None } => assert_eq!(text(&name), "x"),
        _ => panic!("binding changed"),
    }
}

#[test]
fn let_pattern_rewritten_when_init_plain() {
    let mut ctx = Context::new(Mutability::Owned);
    let l = Local {
        attrs: Vec::new(),
        pat: Pat::StructPat { path: path(&["Foo"]) },
        init: Some(Box::new(unit_expr())),
    };
    let r = ctx.replace_local(l).unwrap();
    match r.pat {
        Pat::StructPat { path } => assert_eq!(text(&path.segments[0]), "__FooProjectionOwned"),
        _ => panic!("pattern shape changed"),
    }
}

#[test]
fn if_let_chain_rewrites_both_and_keeps_else() {
    let inner = IfExpr {
        attrs: Vec::new(),
        cond: Box::new(Expr::LetCond(LetExpr {
            pat: Pat::TupleStructPat { path: path(&["A", "C"]) },
            init: Box::new(unit_expr()),
        })),
        then_stmts: Vec::new(),
        else_branch: Some(Box::new(Expr::BlockExpr { stmts: Vec::new() })),
    };
    let chain = Expr::If(IfExpr {
        attrs: Vec::new(),
        cond: Box::new(Expr::LetCond(LetExpr {
            pat: Pat::TupleStructPat { path: path(&["A", "B"]) },
            init: Box::new(unit_expr()),
        })),
        then_stmts: Vec::new(),
        else_branch: Some(Box::new(Expr::If(inner))),
    });
    let r = proj_rewrite::expr::replace_expr(chain, Mutability::Mutable);
    match r {
        Expr::If(top) => {
            match *top.cond {
                Expr::LetCond(le) => match le.pat {
                    Pat::TupleStructPat { path } => {
                        assert_eq!(text(&path.segments[0]), "__AProjection");
                        assert_eq!(text(&path.segments[1]), "B");
                    }
                    _ => panic!("first condition pattern changed"),
                },
                _ => panic!("first condition changed"),
            }
            match *top.else_branch.expect("else kept") {
                Expr::If(snd) => {
                    match *snd.cond {
                        Expr::LetCond(le) => match le.pat {
                            Pat::TupleStructPat { path } => {
                                assert_eq!(text(&path.segments[0]), "__AProjection");
                                assert_eq!(text(&path.segments[1]), "C");
                            }
                            _ => panic!("second condition pattern changed"),
                        },
                        _ => panic!("second condition changed"),
                    }
                    match *snd.else_branch.expect("trailing else kept") {
                        Expr::BlockExpr { stmts } => assert!(stmts.is_empty()),
                        _ => panic!("trailing else changed"),
                    }
                }
                _ => panic!("chain shape changed"),
            }
        }
        _ => panic!("if shape changed"),
    }
}

#[test]
fn use_name_rewritten() {
    let u = ItemUse {
        tree: UseTree::UsePath {
            ident: id("original_crate"),
            tree: Box::new(UseTree::UseName { ident: id("MyType") }),
        },
    };
    let r = replace_item_use(u, Mutability::Mutable).unwrap();
    match r.tree {
        UseTree::UsePath { ident, tree } => {
            assert_eq!(text(&ident), "original_crate");
            match *tree {
                UseTree::UseName { ident } => assert_eq!(text(&ident), "__MyTypeProjection"),
                _ => panic!("leaf shape changed"),
            }
        }
        _ => panic!("prefix shape changed"),
    }
}

#[test]
fn use_glob_rejected() {
    let u = ItemUse {
        tree: UseTree::UsePath { ident: id("original_crate"), tree: Box::new(UseTree::UseGlob) },
    };
    assert!(matches!(replace_item_use(u, Mutability::Mutable), Err(RewriteError::GlobImport)));
}

#[test]
fn use_rename_rejected() {
    let u = ItemUse {
        tree: UseTree::UseRename { ident: id("MyType"), rename: id("Renamed") },
    };
    assert!(matches!(
        replace_item_use(u, Mutability::Mutable),
        Err(RewriteError::RenamedImport)
    ));
}

#[test]
fn use_group_rewrites_every_name() {
    let u = ItemUse {
        tree: UseTree::UseGroup {
            items: vec![
                UseTree::UseName { ident: id("A") },
                UseTree::UsePath {
                    ident: id("m"),
                    tree: Box::new(UseTree::UseName { ident: id("B") }),
                },
            ],
        },
    };
    let r = replace_item_use(u, Mutability::Owned).unwrap();
    match r.tree {
        UseTree::UseGroup { items } => {
            match &items[0] {
                UseTree::UseName { ident } => assert_eq!(text(ident), "__AProjectionOwned"),
                _ => panic!("first leaf changed"),
            }
            match &items[1] {
                UseTree::UsePath { tree, .. } => match &**tree {
                    UseTree::UseName { ident } => assert_eq!(text(ident), "__BProjectionOwned"),
                    _ => panic!("second leaf changed"),
                },
                _ => panic!("second entry changed"),
            }
        }
        _ => panic!("group shape changed"),
    }
}

#[test]
fn impl_gains_fresh_leading_lifetime() {
    let item = ItemImpl {
        generics: vec![GenericParam::OtherParam],
        self_ty: SelfTy::PathTy { last: id("MyType"), args: PathArgs::NoArgs },
        methods: vec![Method {
            generics: vec![GenericParam::LifetimeParam { name: id("'pin") }],
        }],
    };
    let r = replace_item_impl(item, Mutability::Mutable);
    assert_eq!(r.generics.len(), 2);
    match &r.generics[0] {
        GenericParam::LifetimeParam { name } => assert_eq!(text(name), "'pin_"),
        _ => panic!("no leading lifetime"),
    }
    match r.self_ty {
        SelfTy::PathTy { last, args } => {
            assert_eq!(text(&last), "__MyTypeProjection");
            match args {
                PathArgs::AngleBracketed { args } => {
                    assert_eq!(args.len(), 1);
                    match &args[0] {
                        GenericArg::LifetimeArg { name } => assert_eq!(text(name), "'pin_"),
                        _ => panic!("no leading lifetime argument"),
                    }
                }
                _ => panic!("no argument list created"),
            }
        }
        _ => panic!("self type shape changed"),
    }
}

#[test]
fn impl_existing_args_keep_their_order() {
    let item = ItemImpl {
        generics: Vec::new(),
        self_ty: SelfTy::PathTy {
            last: id("MyType"),
            args: PathArgs::AngleBracketed { args: vec![GenericArg::OtherArg] },
        },
        methods: Vec::new(),
    };
    let r = replace_item_impl(item, Mutability::Immutable);
    match &r.generics[0] {
        GenericParam::LifetimeParam { name } => assert_eq!(text(name), "'pin"),
        _ => panic!("no leading lifetime"),
    }
    match r.self_ty {
        SelfTy::PathTy { args: PathArgs::AngleBracketed { args }, .. } => {
            assert_eq!(args.len(), 2);
            assert!(matches!(&args[0], GenericArg::LifetimeArg { .. }));
            assert!(matches!(&args[1], GenericArg::OtherArg));
        }
        _ => panic!("argument list shape changed"),
    }
}

#[test]
fn impl_non_path_self_type_untouched() {
    let item = ItemImpl {
        generics: vec![GenericParam::OtherParam],
        self_ty: SelfTy::OtherTy,
        methods: Vec::new(),
    };
    let r = replace_item_impl(item, Mutability::Mutable);
    assert_eq!(r.generics.len(), 1);
    assert!(matches!(r.self_ty, SelfTy::OtherTy));
}

fn marked_local(tokens_empty: bool) -> Stmt {
    Stmt::Local(Local {
        attrs: vec![marker("project", tokens_empty)],
        pat: Pat::StructPat { path: path(&["Foo"]) },
        init: None,
    })
}

#[test]
fn marker_with_arguments_fails_on_let() {
    let f = ItemFn { stmts: vec![marked_local(false)] };
    assert!(matches!(
        replace_item_fn(f, Mutability::Mutable),
        Err(RewriteError::UnexpectedArgument)
    ));
}

#[test]
fn marker_with_arguments_fails_on_match() {
    let me = Expr::Match(MatchExpr {
        attrs: vec![marker("project_ref", false)],
        scrutinee: Box::new(unit_expr()),
        arms: Vec::new(),
    });
    let f = ItemFn { stmts: vec![Stmt::ExprStmt(me)] };
    assert!(matches!(
        replace_item_fn(f, Mutability::Immutable),
        Err(RewriteError::UnexpectedArgument)
    ));
}

#[test]
fn marker_with_arguments_fails_on_if_let() {
    let ie = Expr::If(IfExpr {
        attrs: vec![marker("project", false)],
        cond: Box::new(Expr::LetCond(LetExpr {
            pat: Pat::TupleStructPat { path: path(&["A", "B"]) },
            init: Box::new(unit_expr()),
        })),
        then_stmts: Vec::new(),
        else_branch: None,
    });
    let f = ItemFn { stmts: vec![Stmt::ExprStmt(ie)] };
    assert!(matches!(
        replace_item_fn(f, Mutability::Mutable),
        Err(RewriteError::UnexpectedArgument)
    ));
}

#[test]
fn marked_let_in_function_body_rewritten() {
    let f = ItemFn { stmts: vec![marked_local(true)] };
    let r = replace_item_fn(f, Mutability::Mutable).unwrap();
    match &r.stmts[0] {
        Stmt::Local(l) => {
            assert!(l.attrs.is_empty(), "marker is consumed");
            match &l.pat {
                Pat::StructPat { path } => assert_eq!(text(&path.segments[0]), "__FooProjection"),
                _ => panic!("pattern shape changed"),
            }
        }
        _ => panic!("statement shape changed"),
    }
}

#[test]
fn unmarked_nodes_left_alone() {
    let f = ItemFn {
        stmts: vec![Stmt::Local(Local {
            attrs: Vec::new(),
            pat: Pat::StructPat { path: path(&["Foo"]) },
            init: None,
        })],
    };
    let r = replace_item_fn(f, Mutability::Mutable).unwrap();
    match &r.stmts[0] {
        Stmt::Local(l) => match &l.pat {
            Pat::StructPat { path } => assert_eq!(text(&path.segments[0]), "Foo"),
            _ => panic!("pattern shape changed"),
        },
        _ => panic!("statement shape changed"),
    }
}

#[test]
fn nested_items_not_descended() {
    let inner = ItemFn { stmts: vec![marked_local(false)] };
    let f = ItemFn { stmts: vec![Stmt::ItemStmt(Item::FnItem(inner))] };
    // Even a malformed marker inside a nested item is never seen.
    assert!(replace_item_fn(f, Mutability::Mutable).is_ok());
}

#[test]
fn foreign_attributes_are_kept() {
    let f = ItemFn {
        stmts: vec![Stmt::Local(Local {
            attrs: vec![marker("allow", false), marker("project", true)],
            pat: Pat::StructPat { path: path(&["Foo"]) },
            init: None,
        })],
    };
    let r = replace_item_fn(f, Mutability::Mutable).unwrap();
    match &r.stmts[0] {
        Stmt::Local(l) => {
            assert_eq!(l.attrs.len(), 1);
            assert_eq!(text(&l.attrs[0].name), "allow");
        }
        _ => panic!("statement shape changed"),
    }
}

#[test]
fn let_with_match_initializer_rewrites_arms_and_keeps_binding() {
    let mut ctx = Context::new(Mutability::Mutable);
    let l = Local {
        attrs: Vec::new(),
        pat: Pat::Binding { name: id("x"), subpat: None },
        init: match_init(&["Foo"]),
    };
    let r = ctx.replace_local(l).unwrap();
    assert!(ctx.replaced);
    match r.pat {
        Pat::Binding { name, subpat: None } => assert_eq!(text(&name), "x"),
        _ => panic!("binding changed"),
    }
    match r.init.as_deref() {
        Some(Expr::Match(me)) => match &me.arms[0].pat {
            Pat::StructPat { path } => assert_eq!(text(&path.segments[0]), "__FooProjection"),
            _ => panic!("arm pattern shape changed"),
        },
        _ => panic!("initializer shape changed"),
    }
}

#[test]
fn marked_match_inside_marked_let_rewritten_twice() {
    // The visitor rewrites the marked initializer first; the marked `let`
    // then rewrites the already-rewritten arms again with a fresh context.
    let f = ItemFn {
        stmts: vec![Stmt::Local(Local {
            attrs: vec![marker("project", true)],
            pat: Pat::Binding { name: id("x"), subpat: None },
            init: Some(Box::new(Expr::Match(MatchExpr {
                attrs: vec![marker("project", true)],
                scrutinee: Box::new(unit_expr()),
                arms: vec![Arm {
                    pat: Pat::StructPat { path: path(&["Foo"]) },
                    body: unit_expr(),
                }],
            }))),
        })],
    };
    let r = replace_item_fn(f, Mutability::Mutable).unwrap();
    match &r.stmts[0] {
        Stmt::Local(l) => {
            assert!(l.attrs.is_empty());
            match l.init.as_deref() {
                Some(Expr::Match(me)) => {
                    assert!(me.attrs.is_empty());
                    match &me.arms[0].pat {
                        Pat::StructPat { path } => {
                            assert_eq!(text(&path.segments[0]), "____FooProjectionProjection")
                        }
                        _ => panic!("arm pattern shape changed"),
                    }
                }
                _ => panic!("initializer shape changed"),
            }
        }
        _ => panic!("statement shape changed"),
    }
}

#[test]
fn attribute_rejects_outer_arguments() {
    let s = Stmt::ExprStmt(unit_expr());
    assert!(matches!(
        attribute(false, s, Mutability::Mutable),
        Err(RewriteError::UnexpectedArgument)
    ));
}

#[test]
fn attribute_rewrites_bare_match() {
    let s = Stmt::ExprStmt(Expr::Match(MatchExpr {
        attrs: Vec::new(),
        scrutinee: Box::new(unit_expr()),
        arms: vec![Arm { pat: Pat::TupleStructPat { path: path(&["Foo"]) }, body: unit_expr() }],
    }));
    let r = attribute(true, s, Mutability::Mutable).unwrap();
    match r {
        Stmt::ExprStmt(Expr::Match(me)) => match &me.arms[0].pat {
            Pat::TupleStructPat { path } => assert_eq!(text(&path.segments[0]), "__FooProjection"),
            _ => panic!("arm pattern shape changed"),
        },
        _ => panic!("statement shape changed"),
    }
}

#[test]
fn parse_passes_other_items_through() {
    let r = parse(Stmt::ItemStmt(Item::OtherItem), Mutability::Mutable).unwrap();
    assert!(matches!(r, Stmt::ItemStmt(Item::OtherItem)));
}
