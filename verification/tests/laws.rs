use rnix_normalize::normal_ast::{AttrName, NormalNixExpr};
use rnix_normalize::rnix_ast::{
    Apply, Attr, AttrSet, Attrpath, AttrpathValue, BinOp, BinOpKind, Dynamic, Entry, Ident,
    IdentParam, Inherit, InheritFrom, InterpolPart, Lambda, LetIn, List, Literal, LiteralKind,
    Param, PatEntry, Path, Pattern, RNixExpr, Select, Str, StrInterpol,
};
use rnix_normalize::{canonicalize, normalize_nix_expr};

fn id(name: &str) -> RNixExpr {
    RNixExpr::Ident(Ident { inner: name.to_string() })
}

fn number(n: i64) -> RNixExpr {
    RNixExpr::Literal(Literal { kind: LiteralKind::Integer(n) })
}

fn literal(s: &str) -> InterpolPart {
    InterpolPart::Literal(s.to_string())
}

fn interpolation(e: RNixExpr) -> InterpolPart {
    InterpolPart::Interpolation(StrInterpol { expr: Box::new(e) })
}

fn call(f: RNixExpr, a: RNixExpr) -> RNixExpr {
    RNixExpr::Apply(Apply { lambda: Box::new(f), argument: Box::new(a) })
}

fn binding(names: &[&str], value: RNixExpr) -> Entry {
    Entry::AttrpathValue(AttrpathValue {
        attrpath: Attrpath {
            attrs: names.iter().map(|n| Attr::Ident(Ident { inner: n.to_string() })).collect(),
        },
        value: Box::new(value),
    })
}

fn attr_set(entries: Vec<Entry>) -> RNixExpr {
    RNixExpr::AttrSet(AttrSet { entries, recursive: false })
}

/// A program that uses most node kinds: nested bindings under shared
/// prefixes, inherits, calls of calls, selections, paths and strings.
fn sample(with_lone_interpolation: bool, with_home_path: bool) -> RNixExpr {
    let greeting = if with_lone_interpolation {
        vec![interpolation(id("who"))]
    } else {
        vec![literal("hello "), interpolation(id("who"))]
    };
    let some_path = if with_home_path { "~/a/../b" } else { "./a/../b" };
    let body = attr_set(vec![
        binding(&["zeta", "b"], number(1)),
        binding(&["alpha"], call(call(call(id("f"), number(1)), number(2)), number(3))),
        binding(&["zeta", "a", "x"], RNixExpr::Str(Str { parts: greeting })),
        Entry::Inherit(Inherit {
            from: Some(InheritFrom { expr: Box::new(id("pkgs")) }),
            idents: vec![Ident { inner: "m".to_string() }, Ident { inner: "c".to_string() }],
        }),
        binding(&["zeta", "a", "w"], RNixExpr::Path(Path { parts: vec![literal(some_path)] })),
        Entry::AttrpathValue(AttrpathValue {
            attrpath: Attrpath {
                attrs: vec![Attr::Dynamic(Dynamic { expr: Box::new(id("k")) })],
            },
            value: Box::new(RNixExpr::Select(Select {
                expr: Box::new(id("s")),
                attrpath: Attrpath { attrs: vec![Attr::Ident(Ident { inner: "t".to_string() })] },
                default_expr: Some(Box::new(RNixExpr::BinOp(BinOp {
                    lhs: Box::new(number(1)),
                    operator: BinOpKind::Sub,
                    rhs: Box::new(call(id("g"), number(2))),
                }))),
            })),
        }),
        binding(
            &["list"],
            RNixExpr::List(List {
                items: vec![
                    RNixExpr::Path(Path {
                        parts: vec![literal("/x/./y/"), interpolation(id("n")), literal("/z")],
                    }),
                    RNixExpr::BinOp(BinOp {
                        lhs: Box::new(id("a")),
                        operator: BinOpKind::Add,
                        rhs: Box::new(id("b")),
                    }),
                ],
            }),
        ),
    ]);
    RNixExpr::Lambda(Lambda {
        param: Param::Pattern(Pattern {
            pat_entries: vec![PatEntry {
                ident: Ident { inner: "who".to_string() },
                default: Some(Box::new(RNixExpr::LetIn(LetIn {
                    entries: vec![binding(&["q", "r"], number(0)), binding(&["q", "p"], number(1))],
                    body: Box::new(id("q")),
                }))),
            }],
            ellipsis: true,
            pat_bind: None,
        }),
        body: Box::new(RNixExpr::Lambda(Lambda {
            param: Param::IdentParam(IdentParam { ident: Ident { inner: "f".to_string() } }),
            body: Box::new(body),
        })),
    })
}

fn normal(expr: RNixExpr) -> NormalNixExpr {
    normalize_nix_expr(expr, "/work".to_string(), "/home/u".to_string()).unwrap()
}

struct Shape {
    nodes: usize,
    basic: bool,
    long_concats: bool,
    canonical_paths: bool,
}

fn visit_all(es: &[NormalNixExpr], f: &mut Shape) {
    for e in es {
        visit(e, f);
    }
}

fn visit_names(path: &[AttrName], f: &mut Shape) {
    for n in path {
        if let AttrName::Expr(e) = n {
            visit(e, f);
        }
    }
}

fn visit(e: &NormalNixExpr, f: &mut Shape) {
    f.nodes += 1;
    match e {
        NormalNixExpr::Int(_) | NormalNixExpr::Float(_) | NormalNixExpr::String(_) | NormalNixExpr::Var(_) => {}
        NormalNixExpr::Path(p) => {
            if canonicalize(p.clone()) != *p {
                f.canonical_paths = false;
            }
        }
        NormalNixExpr::Select { subject, or_default, path } => {
            if path.is_empty() {
                f.basic = false;
            }
            visit(subject, f);
            if let Some(d) = or_default {
                visit(d, f);
            }
            visit_names(path, f);
        }
        NormalNixExpr::OpHasAttr { subject, path } => {
            visit(subject, f);
            visit_names(path, f);
        }
        NormalNixExpr::Attrs { attrs, dynamic_attrs, .. } => {
            for pair in attrs.windows(2) {
                if pair[0].name.as_bytes() >= pair[1].name.as_bytes() {
                    f.basic = false;
                }
            }
            for d in attrs {
                visit(&d.expr, f);
            }
            for d in dynamic_attrs {
                visit(&d.name_expr, f);
                visit(&d.value_expr, f);
            }
        }
        NormalNixExpr::List(es) => visit_all(es, f),
        NormalNixExpr::Lambda { formals, body, .. } => {
            if let Some(formals) = formals {
                for (i, (name, _)) in formals.entries.iter().enumerate() {
                    if formals.entries[..i].iter().any(|(earlier, _)| earlier == name) {
                        f.basic = false;
                    }
                }
                for (_, formal) in &formals.entries {
                    if let Some(d) = &formal.default {
                        visit(d, f);
                    }
                }
            }
            visit(body, f);
        }
        NormalNixExpr::Call { fun, args } => {
            if matches!(**fun, NormalNixExpr::Call { .. }) || args.is_empty() {
                f.basic = false;
            }
            visit(fun, f);
            visit_all(args, f);
        }
        NormalNixExpr::Let { attrs, body } => {
            if !matches!(**attrs, NormalNixExpr::Attrs { .. }) {
                f.basic = false;
            }
            visit(attrs, f);
            visit(body, f);
        }
        NormalNixExpr::With { attrs, body } => {
            visit(attrs, f);
            visit(body, f);
        }
        NormalNixExpr::If { cond, then, else_ } => {
            visit(cond, f);
            visit(then, f);
            visit(else_, f);
        }
        NormalNixExpr::Assert { cond, body } => {
            visit(cond, f);
            visit(body, f);
        }
        NormalNixExpr::OpNot(e) => visit(e, f),
        NormalNixExpr::OpEq(l, r)
        | NormalNixExpr::OpNEq(l, r)
        | NormalNixExpr::OpAnd(l, r)
        | NormalNixExpr::OpOr(l, r)
        | NormalNixExpr::OpImpl(l, r)
        | NormalNixExpr::OpUpdate(l, r)
        | NormalNixExpr::OpConcatLists(l, r) => {
            visit(l, f);
            visit(r, f);
        }
        NormalNixExpr::OpConcatStrings { es, .. } => {
            if es.len() < 2 {
                f.long_concats = false;
            }
            visit_all(es, f);
        }
    }
}

fn shape_of(e: &NormalNixExpr) -> Shape {
    let mut f = Shape { nodes: 0, basic: true, long_concats: true, canonical_paths: true };
    visit(e, &mut f);
    f
}

#[test]
fn test_normalized_tree_keeps_all_rules() {
    let f = shape_of(&normal(sample(false, false)));
    assert_eq!(f.nodes, 42);
    assert!(f.basic);
    assert!(f.long_concats);
    assert!(f.canonical_paths);
}

#[test]
fn test_lone_interpolation_gives_a_short_concat_and_keeps_the_rest() {
    let f = shape_of(&normal(sample(true, false)));
    assert!(f.basic);
    assert!(!f.long_concats);
    assert!(f.canonical_paths);
}

#[test]
fn test_home_path_is_left_uncanonical_and_keeps_the_rest() {
    let f = shape_of(&normal(sample(false, true)));
    assert!(f.basic);
    assert!(f.long_concats);
    assert!(!f.canonical_paths);
}

#[test]
fn test_home_path_that_is_canonical_passes() {
    let e = RNixExpr::Path(Path { parts: vec![literal("~/a/b")] });
    let n = normal(e);
    assert_eq!(n, NormalNixExpr::Path("/home/u/a/b".to_string()));
    assert!(shape_of(&n).canonical_paths);
}

#[test]
fn test_applying_an_operator_call_extends_it() {
    // (a - b) c
    let e = call(
        RNixExpr::BinOp(BinOp {
            lhs: Box::new(id("a")),
            operator: BinOpKind::Sub,
            rhs: Box::new(id("b")),
        }),
        id("c"),
    );
    let n = normal(e);
    assert_eq!(
        n,
        NormalNixExpr::Call {
            fun: Box::new(NormalNixExpr::Var("__sub".to_string())),
            args: vec![
                NormalNixExpr::Var("a".to_string()),
                NormalNixExpr::Var("b".to_string()),
                NormalNixExpr::Var("c".to_string()),
            ],
        }
    );
    assert!(shape_of(&n).basic);
}

#[test]
fn test_same_tree_same_result() {
    let first = normalize_nix_expr(sample(false, true), "/w".to_string(), "/h".to_string());
    let second = normalize_nix_expr(sample(false, true), "/w".to_string(), "/h".to_string());
    assert_eq!(first, second);
    let elsewhere = normalize_nix_expr(sample(false, true), "/w".to_string(), "/g".to_string());
    assert_ne!(first, elsewhere);
}

#[test]
fn test_clone_is_equal() {
    let n = normal(sample(false, false));
    assert_eq!(n.clone(), n);
}

#[test]
fn test_repeated_formal_counts_once() {
    let e = RNixExpr::Lambda(Lambda {
        param: Param::Pattern(Pattern {
            pat_entries: vec![
                PatEntry { ident: Ident { inner: "x".to_string() }, default: None },
                PatEntry { ident: Ident { inner: "y".to_string() }, default: None },
                PatEntry { ident: Ident { inner: "x".to_string() }, default: Some(Box::new(number(1))) },
            ],
            ellipsis: false,
            pat_bind: None,
        }),
        body: Box::new(id("x")),
    });
    match normal(e) {
        NormalNixExpr::Lambda { formals: Some(formals), .. } => {
            assert_eq!(formals.entries.len(), 2);
            assert_eq!(formals.entries[0].0, "x");
            assert_eq!(formals.entries[0].1.default, Some(NormalNixExpr::Int(1)));
            assert_eq!(formals.entries[1].0, "y");
            assert_eq!(formals.entries[1].1.default, None);
        }
        other => panic!("not a lambda with formals: {other:?}"),
    }
}

#[test]
fn test_tree_clone_is_equal() {
    let tree = sample(true, true);
    assert_eq!(tree.clone(), tree);
    assert_eq!(
        normalize_nix_expr(tree.clone(), "/w".to_string(), "/h".to_string()),
        normalize_nix_expr(tree, "/w".to_string(), "/h".to_string())
    );
}

#[test]
fn test_repeated_formal_deep_in_the_tree_counts_once() {
    let pattern = |names: &[&str]| {
        RNixExpr::Lambda(Lambda {
            param: Param::Pattern(Pattern {
                pat_entries: names
                    .iter()
                    .map(|n| PatEntry { ident: Ident { inner: n.to_string() }, default: None })
                    .collect(),
                ellipsis: false,
                pat_bind: None,
            }),
            body: Box::new(id("x")),
        })
    };
    let e = attr_set(vec![binding(
        &["f", "g"],
        RNixExpr::List(List { items: vec![call(id("h"), pattern(&["b", "a", "b", "a", "c"]))] }),
    )]);
    let n = normal(e);
    assert!(shape_of(&n).basic);
    let expected_names = vec!["b", "a", "c"];
    let mut found = false;
    fn find(e: &NormalNixExpr, expected: &[&str], found: &mut bool) {
        match e {
            NormalNixExpr::Lambda { formals: Some(f), .. } => {
                let names: Vec<&str> = f.entries.iter().map(|(n, _)| n.as_str()).collect();
                assert_eq!(names, expected);
                *found = true;
            }
            NormalNixExpr::Attrs { attrs, .. } => attrs.iter().for_each(|d| find(&d.expr, expected, found)),
            NormalNixExpr::List(es) => es.iter().for_each(|e| find(e, expected, found)),
            NormalNixExpr::Call { args, .. } => args.iter().for_each(|e| find(e, expected, found)),
            _ => {}
        }
    }
    find(&n, &expected_names, &mut found);
    assert!(found);
}
