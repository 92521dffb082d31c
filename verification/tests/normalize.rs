use rnix_normalize::error::{Conflict, Defect, NodeKind, NormalizeError};
use rnix_normalize::normal_ast::{AttrDef, AttrName, DynamicAttrDef, Formal, Formals, NormalNixExpr};
use rnix_normalize::normalize_nix_expr;
use rnix_normalize::rnix_ast::{
    Apply, Assert, Attr, AttrSet, Attrpath, AttrpathValue, BinOp, BinOpKind, Dynamic, Entry,
    HasAttr, Ident, IdentParam, IfElse, Inherit, InheritFrom, InterpolPart, Lambda, LegacyLet,
    LetIn, List, Literal, LiteralKind, Param, Paren, PatBind, PatEntry, Path, Pattern, RNixExpr,
    Root, Select, Str, StrInterpol, UnaryOp, UnaryOpKind, With,
};

fn normalize(expr: RNixExpr) -> Result<NormalNixExpr, NormalizeError> {
    normalize_nix_expr(expr, "/base/dir".to_string(), "/home/user".to_string())
}

fn ok(expr: RNixExpr) -> NormalNixExpr {
    normalize(expr).unwrap()
}

fn ident(name: &str) -> Ident {
    Ident { inner: name.to_string() }
}

fn var(name: &str) -> RNixExpr {
    RNixExpr::Ident(ident(name))
}

fn num(n: i64) -> RNixExpr {
    RNixExpr::Literal(Literal { kind: LiteralKind::Integer(n) })
}

fn text(s: &str) -> InterpolPart {
    InterpolPart::Literal(s.to_string())
}

fn splice(e: RNixExpr) -> InterpolPart {
    InterpolPart::Interpolation(StrInterpol { expr: Box::new(e) })
}

fn string(parts: Vec<InterpolPart>) -> RNixExpr {
    RNixExpr::Str(Str { parts })
}

fn plain(s: &str) -> RNixExpr {
    string(vec![text(s)])
}

fn path(parts: Vec<InterpolPart>) -> RNixExpr {
    RNixExpr::Path(Path { parts })
}

fn bin(lhs: RNixExpr, operator: BinOpKind, rhs: RNixExpr) -> RNixExpr {
    RNixExpr::BinOp(BinOp { lhs: Box::new(lhs), operator, rhs: Box::new(rhs) })
}

fn apply(lambda: RNixExpr, argument: RNixExpr) -> RNixExpr {
    RNixExpr::Apply(Apply { lambda: Box::new(lambda), argument: Box::new(argument) })
}

fn key(name: &str) -> Attr {
    Attr::Ident(ident(name))
}

fn keys(names: &[&str]) -> Attrpath {
    Attrpath { attrs: names.iter().map(|n| key(n)).collect() }
}

fn bind(attrs: Vec<Attr>, value: RNixExpr) -> Entry {
    Entry::AttrpathValue(AttrpathValue { attrpath: Attrpath { attrs }, value: Box::new(value) })
}

fn bind_names(names: &[&str], value: RNixExpr) -> Entry {
    Entry::AttrpathValue(AttrpathValue { attrpath: keys(names), value: Box::new(value) })
}

fn set(entries: Vec<Entry>) -> RNixExpr {
    RNixExpr::AttrSet(AttrSet { entries, recursive: false })
}

fn n_var(name: &str) -> NormalNixExpr {
    NormalNixExpr::Var(name.to_string())
}

fn n_str(s: &str) -> NormalNixExpr {
    NormalNixExpr::String(s.to_string())
}

fn n_call(fun: &str, args: Vec<NormalNixExpr>) -> NormalNixExpr {
    NormalNixExpr::Call { fun: Box::new(n_var(fun)), args }
}

fn n_def(name: &str, expr: NormalNixExpr) -> AttrDef {
    AttrDef { name: name.to_string(), inherited: false, expr }
}

fn n_attrs(attrs: Vec<AttrDef>) -> NormalNixExpr {
    NormalNixExpr::Attrs { rec: false, attrs, dynamic_attrs: vec![] }
}

fn n_sym(name: &str) -> AttrName {
    AttrName::Symbol(name.to_string())
}

fn malformed(node: NodeKind, defect: Defect) -> NormalizeError {
    NormalizeError::Malformed { node, defect }
}

#[test]
fn test_int() {
    assert_eq!(ok(num(1)), NormalNixExpr::Int(1));
}

#[test]
fn test_float_keeps_its_bits() {
    let bits = 3.14f64.to_bits();
    let e = RNixExpr::Literal(Literal { kind: LiteralKind::Float(bits) });
    assert_eq!(ok(e), NormalNixExpr::Float(bits));
}

#[test]
fn test_uri_is_a_string() {
    let e = RNixExpr::Literal(Literal { kind: LiteralKind::Uri("http://example.org".to_string()) });
    assert_eq!(ok(e), n_str("http://example.org"));
}

#[test]
fn test_ident() {
    assert_eq!(ok(var("__curPos")), n_var("__curPos"));
}

#[test]
fn test_root_and_paren_are_transparent() {
    let e = RNixExpr::Root(Root {
        expr: Box::new(RNixExpr::Paren(Paren { expr: Box::new(num(7)) })),
    });
    assert_eq!(ok(e), NormalNixExpr::Int(7));
}

#[test]
fn test_string() {
    assert_eq!(ok(plain("hello world")), n_str("hello world"));
}

#[test]
fn test_string_empty() {
    assert_eq!(ok(string(vec![])), n_str(""));
}

#[test]
fn test_string_multiline_empty() {
    assert_eq!(ok(string(vec![text("")])), n_str(""));
}

#[test]
fn test_string_interpolated() {
    let e = string(vec![text("hello "), splice(plain("world"))]);
    assert_eq!(
        ok(e),
        NormalNixExpr::OpConcatStrings {
            force_string: true,
            es: vec![n_str("hello "), n_str("world")],
        }
    );
}

#[test]
fn test_string_interpolated_twice() {
    let e = string(vec![text("hello "), splice(plain("world")), text(" "), splice(num(123))]);
    assert_eq!(
        ok(e),
        NormalNixExpr::OpConcatStrings {
            force_string: true,
            es: vec![n_str("hello "), n_str("world"), n_str(" "), NormalNixExpr::Int(123)],
        }
    );
}

#[test]
fn test_string_of_one_interpolation() {
    let e = string(vec![splice(var("x"))]);
    assert_eq!(
        ok(e),
        NormalNixExpr::OpConcatStrings { force_string: true, es: vec![n_var("x")] }
    );
}

#[test]
fn test_string_adjacent_literals_fail() {
    let e = string(vec![text("a"), text("b")]);
    assert_eq!(normalize(e), Err(malformed(NodeKind::Str, Defect::AdjacentLiterals)));
}

#[test]
fn test_minus() {
    assert_eq!(
        ok(bin(num(0), BinOpKind::Sub, num(1))),
        n_call("__sub", vec![NormalNixExpr::Int(0), NormalNixExpr::Int(1)])
    );
}

#[test]
fn test_minus_assoc() {
    let e = bin(bin(num(0), BinOpKind::Sub, num(1)), BinOpKind::Sub, num(2));
    assert_eq!(
        ok(e),
        n_call(
            "__sub",
            vec![
                n_call("__sub", vec![NormalNixExpr::Int(0), NormalNixExpr::Int(1)]),
                NormalNixExpr::Int(2),
            ]
        )
    );
}

#[test]
fn test_times_and_divide() {
    assert_eq!(
        ok(bin(num(0), BinOpKind::Mul, num(1))),
        n_call("__mul", vec![NormalNixExpr::Int(0), NormalNixExpr::Int(1)])
    );
    assert_eq!(
        ok(bin(num(0), BinOpKind::Div, num(1))),
        n_call("__div", vec![NormalNixExpr::Int(0), NormalNixExpr::Int(1)])
    );
}

#[test]
fn test_less() {
    assert_eq!(
        ok(bin(num(0), BinOpKind::Less, num(1))),
        n_call("__lessThan", vec![NormalNixExpr::Int(0), NormalNixExpr::Int(1)])
    );
}

#[test]
fn test_less_eq() {
    assert_eq!(
        ok(bin(num(0), BinOpKind::LessOrEq, num(1))),
        NormalNixExpr::OpNot(Box::new(n_call(
            "__lessThan",
            vec![NormalNixExpr::Int(1), NormalNixExpr::Int(0)]
        )))
    );
}

#[test]
fn test_greater() {
    assert_eq!(
        ok(bin(num(0), BinOpKind::More, num(1))),
        n_call("__lessThan", vec![NormalNixExpr::Int(1), NormalNixExpr::Int(0)])
    );
}

#[test]
fn test_greater_eq() {
    assert_eq!(
        ok(bin(num(0), BinOpKind::MoreOrEq, num(1))),
        NormalNixExpr::OpNot(Box::new(n_call(
            "__lessThan",
            vec![NormalNixExpr::Int(0), NormalNixExpr::Int(1)]
        )))
    );
}

#[test]
fn test_plus_assoc() {
    let e = bin(bin(num(0), BinOpKind::Add, num(1)), BinOpKind::Add, num(2));
    assert_eq!(
        ok(e),
        NormalNixExpr::OpConcatStrings {
            force_string: false,
            es: vec![
                NormalNixExpr::OpConcatStrings {
                    force_string: false,
                    es: vec![NormalNixExpr::Int(0), NormalNixExpr::Int(1)],
                },
                NormalNixExpr::Int(2),
            ],
        }
    );
}

#[test]
fn test_structural_operators() {
    let l = || Box::new(NormalNixExpr::Int(0));
    let r = || Box::new(NormalNixExpr::Int(1));
    assert_eq!(ok(bin(num(0), BinOpKind::Concat, num(1))), NormalNixExpr::OpConcatLists(l(), r()));
    assert_eq!(ok(bin(num(0), BinOpKind::Update, num(1))), NormalNixExpr::OpUpdate(l(), r()));
    assert_eq!(ok(bin(num(0), BinOpKind::And, num(1))), NormalNixExpr::OpAnd(l(), r()));
    assert_eq!(ok(bin(num(0), BinOpKind::Or, num(1))), NormalNixExpr::OpOr(l(), r()));
    assert_eq!(ok(bin(num(0), BinOpKind::Equal, num(1))), NormalNixExpr::OpEq(l(), r()));
    assert_eq!(ok(bin(num(0), BinOpKind::NotEqual, num(1))), NormalNixExpr::OpNEq(l(), r()));
    assert_eq!(ok(bin(num(0), BinOpKind::Implication, num(1))), NormalNixExpr::OpImpl(l(), r()));
}

#[test]
fn test_not() {
    let e = RNixExpr::UnaryOp(UnaryOp { operator: UnaryOpKind::Invert, expr: Box::new(var("true")) });
    assert_eq!(ok(e), NormalNixExpr::OpNot(Box::new(n_var("true"))));
}

#[test]
fn test_negate() {
    let e = RNixExpr::UnaryOp(UnaryOp { operator: UnaryOpKind::Negate, expr: Box::new(num(5)) });
    assert_eq!(ok(e), n_call("__sub", vec![NormalNixExpr::Int(0), NormalNixExpr::Int(5)]));
}

#[test]
fn test_call() {
    assert_eq!(ok(apply(var("f"), num(0))), n_call("f", vec![NormalNixExpr::Int(0)]));
}

#[test]
fn test_call_multiple_args() {
    let e = apply(apply(apply(var("f"), num(0)), num(1)), num(2));
    assert_eq!(
        ok(e),
        n_call("f", vec![NormalNixExpr::Int(0), NormalNixExpr::Int(1), NormalNixExpr::Int(2)])
    );
}

#[test]
fn test_call_multiple_args_grouped() {
    let grouped = RNixExpr::Paren(Paren { expr: Box::new(apply(var("f"), num(0))) });
    assert_eq!(
        ok(apply(grouped, num(1))),
        n_call("f", vec![NormalNixExpr::Int(0), NormalNixExpr::Int(1)])
    );
}

#[test]
fn test_call_nested() {
    let inner = RNixExpr::Paren(Paren { expr: Box::new(apply(apply(var("g"), num(0)), num(1))) });
    let e = apply(apply(apply(var("f"), num(0)), inner), num(2));
    assert_eq!(
        ok(e),
        n_call(
            "f",
            vec![
                NormalNixExpr::Int(0),
                n_call("g", vec![NormalNixExpr::Int(0), NormalNixExpr::Int(1)]),
                NormalNixExpr::Int(2),
            ]
        )
    );
}

#[test]
fn test_if() {
    let e = RNixExpr::IfElse(IfElse {
        condition: Box::new(var("true")),
        body: Box::new(num(0)),
        else_body: Box::new(num(1)),
    });
    assert_eq!(
        ok(e),
        NormalNixExpr::If {
            cond: Box::new(n_var("true")),
            then: Box::new(NormalNixExpr::Int(0)),
            else_: Box::new(NormalNixExpr::Int(1)),
        }
    );
}

#[test]
fn test_assert() {
    let e = RNixExpr::Assert(Assert { condition: Box::new(var("true")), body: Box::new(num(0)) });
    assert_eq!(
        ok(e),
        NormalNixExpr::Assert {
            cond: Box::new(n_var("true")),
            body: Box::new(NormalNixExpr::Int(0)),
        }
    );
}

#[test]
fn test_with() {
    let e = RNixExpr::With(With { namespace: Box::new(var("x")), body: Box::new(var("y")) });
    assert_eq!(
        ok(e),
        NormalNixExpr::With { attrs: Box::new(n_var("x")), body: Box::new(n_var("y")) }
    );
}

#[test]
fn test_list() {
    let e = RNixExpr::List(List { items: vec![num(1), plain("2"), num(4)] });
    assert_eq!(
        ok(e),
        NormalNixExpr::List(vec![NormalNixExpr::Int(1), n_str("2"), NormalNixExpr::Int(4)])
    );
}

#[test]
fn test_list_empty() {
    assert_eq!(ok(RNixExpr::List(List { items: vec![] })), NormalNixExpr::List(vec![]));
}

#[test]
fn test_list_reports_first_failure() {
    let bad = string(vec![text("a"), text("b")]);
    let e = RNixExpr::List(List { items: vec![num(1), bad, path(vec![])] });
    assert_eq!(normalize(e), Err(malformed(NodeKind::Str, Defect::AdjacentLiterals)));
}

#[test]
fn test_select() {
    let e = RNixExpr::Select(Select {
        expr: Box::new(var("x")),
        attrpath: keys(&["y"]),
        default_expr: None,
    });
    assert_eq!(
        ok(e),
        NormalNixExpr::Select {
            subject: Box::new(n_var("x")),
            or_default: None,
            path: vec![n_sym("y")],
        }
    );
}

#[test]
fn test_select_deep() {
    let e = RNixExpr::Select(Select {
        expr: Box::new(var("x")),
        attrpath: keys(&["y", "z", "w", "v"]),
        default_expr: None,
    });
    assert_eq!(
        ok(e),
        NormalNixExpr::Select {
            subject: Box::new(n_var("x")),
            or_default: None,
            path: vec![n_sym("y"), n_sym("z"), n_sym("w"), n_sym("v")],
        }
    );
}

#[test]
fn test_select_with_default() {
    let e = RNixExpr::Select(Select {
        expr: Box::new(var("x")),
        attrpath: keys(&["y", "z"]),
        default_expr: Some(Box::new(num(37))),
    });
    assert_eq!(
        ok(e),
        NormalNixExpr::Select {
            subject: Box::new(n_var("x")),
            or_default: Some(Box::new(NormalNixExpr::Int(37))),
            path: vec![n_sym("y"), n_sym("z")],
        }
    );
}

#[test]
fn test_select_string() {
    let e = RNixExpr::Select(Select {
        expr: Box::new(set(vec![])),
        attrpath: Attrpath { attrs: vec![Attr::Str(Str { parts: vec![text("foo")] })] },
        default_expr: None,
    });
    assert_eq!(
        ok(e),
        NormalNixExpr::Select {
            subject: Box::new(n_attrs(vec![])),
            or_default: None,
            path: vec![n_sym("foo")],
        }
    );
}

#[test]
fn test_select_string_interp() {
    let e = RNixExpr::Select(Select {
        expr: Box::new(set(vec![])),
        attrpath: Attrpath { attrs: vec![Attr::Str(Str { parts: vec![splice(plain("foo"))] })] },
        default_expr: None,
    });
    assert_eq!(
        ok(e),
        NormalNixExpr::Select {
            subject: Box::new(n_attrs(vec![])),
            or_default: None,
            path: vec![AttrName::Expr(NormalNixExpr::OpConcatStrings {
                force_string: true,
                es: vec![n_str("foo")],
            })],
        }
    );
}

#[test]
fn test_select_dynamic() {
    let e = RNixExpr::Select(Select {
        expr: Box::new(set(vec![])),
        attrpath: Attrpath { attrs: vec![Attr::Dynamic(Dynamic { expr: Box::new(var("x")) })] },
        default_expr: None,
    });
    assert_eq!(
        ok(e),
        NormalNixExpr::Select {
            subject: Box::new(n_attrs(vec![])),
            or_default: None,
            path: vec![AttrName::Expr(n_var("x"))],
        }
    );
}

#[test]
fn test_select_dynamic_constant_string() {
    let e = RNixExpr::Select(Select {
        expr: Box::new(set(vec![])),
        attrpath: Attrpath { attrs: vec![Attr::Dynamic(Dynamic { expr: Box::new(plain("foo")) })] },
        default_expr: None,
    });
    assert_eq!(
        ok(e),
        NormalNixExpr::Select {
            subject: Box::new(n_attrs(vec![])),
            or_default: None,
            path: vec![n_sym("foo")],
        }
    );
}

#[test]
fn test_select_without_path_fails() {
    let e = RNixExpr::Select(Select {
        expr: Box::new(var("x")),
        attrpath: Attrpath { attrs: vec![] },
        default_expr: None,
    });
    assert_eq!(normalize(e), Err(malformed(NodeKind::Select, Defect::EmptyAttrpath)));
}

#[test]
fn test_has_attr_compound() {
    let e = RNixExpr::HasAttr(HasAttr { expr: Box::new(var("x")), attrpath: keys(&["y", "z"]) });
    assert_eq!(
        ok(e),
        NormalNixExpr::OpHasAttr {
            subject: Box::new(n_var("x")),
            path: vec![n_sym("y"), n_sym("z")],
        }
    );
}

#[test]
fn test_has_attr_without_path_fails() {
    let e = RNixExpr::HasAttr(HasAttr {
        expr: Box::new(var("x")),
        attrpath: Attrpath { attrs: vec![] },
    });
    assert_eq!(normalize(e), Err(malformed(NodeKind::HasAttr, Defect::EmptyAttrpath)));
}

#[test]
fn test_attrs_empty() {
    assert_eq!(ok(set(vec![])), n_attrs(vec![]));
}

#[test]
fn test_attrs() {
    assert_eq!(
        ok(set(vec![bind_names(&["x"], num(5))])),
        n_attrs(vec![n_def("x", NormalNixExpr::Int(5))])
    );
}

#[test]
fn test_attrs_rec() {
    let e = RNixExpr::AttrSet(AttrSet {
        entries: vec![bind_names(&["x"], num(5)), bind_names(&["y"], var("x"))],
        recursive: true,
    });
    assert_eq!(
        ok(e),
        NormalNixExpr::Attrs {
            rec: true,
            attrs: vec![n_def("x", NormalNixExpr::Int(5)), n_def("y", n_var("x"))],
            dynamic_attrs: vec![],
        }
    );
}

#[test]
fn test_attrs_compound_key() {
    let e = set(vec![bind_names(&["x", "y", "z"], num(5))]);
    assert_eq!(
        ok(e),
        n_attrs(vec![n_def(
            "x",
            n_attrs(vec![n_def("y", n_attrs(vec![n_def("z", NormalNixExpr::Int(5))]))])
        )])
    );
}

#[test]
fn test_attr_set_key_sorting() {
    let e = set(vec![
        bind_names(&["description"], plain("foo")),
        bind_names(&["outputs"], plain("bar")),
        bind_names(&["a"], plain("a")),
    ]);
    assert_eq!(
        ok(e),
        n_attrs(vec![
            n_def("a", n_str("a")),
            n_def("description", n_str("foo")),
            n_def("outputs", n_str("bar")),
        ])
    );
}

#[test]
fn test_attrs_sorted_by_bytes() {
    let e = set(vec![
        bind_names(&["é"], num(1)),
        bind_names(&["z"], num(2)),
        bind_names(&["ab"], num(3)),
        bind_names(&["Z"], num(4)),
        bind_names(&["a"], num(5)),
    ]);
    assert_eq!(
        ok(e),
        n_attrs(vec![
            n_def("Z", NormalNixExpr::Int(4)),
            n_def("a", NormalNixExpr::Int(5)),
            n_def("ab", NormalNixExpr::Int(3)),
            n_def("z", NormalNixExpr::Int(2)),
            n_def("é", NormalNixExpr::Int(1)),
        ])
    );
}

#[test]
fn test_attrs_overlapping() {
    let e = set(vec![
        bind_names(&["x", "y"], plain("foo")),
        bind_names(&["x", "z"], plain("bar")),
    ]);
    assert_eq!(
        ok(e),
        n_attrs(vec![n_def(
            "x",
            n_attrs(vec![n_def("y", n_str("foo")), n_def("z", n_str("bar"))])
        )])
    );
}

#[test]
fn test_attrs_overlapping_deep_and_unsorted() {
    let e = set(vec![
        bind_names(&["x", "b", "q"], num(1)),
        bind_names(&["x", "a"], num(2)),
        bind_names(&["x", "b", "p"], num(3)),
    ]);
    assert_eq!(
        ok(e),
        n_attrs(vec![n_def(
            "x",
            n_attrs(vec![
                n_def("a", NormalNixExpr::Int(2)),
                n_def(
                    "b",
                    n_attrs(vec![
                        n_def("p", NormalNixExpr::Int(3)),
                        n_def("q", NormalNixExpr::Int(1)),
                    ])
                ),
            ])
        )])
    );
}

#[test]
fn test_attrs_merge_keeps_rec_and_dynamic() {
    let inner_rec = RNixExpr::AttrSet(AttrSet {
        entries: vec![bind(vec![Attr::Dynamic(Dynamic { expr: Box::new(var("k")) })], num(1))],
        recursive: true,
    });
    let e = set(vec![
        bind_names(&["x"], inner_rec),
        bind(vec![key("x"), Attr::Dynamic(Dynamic { expr: Box::new(var("m")) })], num(2)),
    ]);
    assert_eq!(
        ok(e),
        n_attrs(vec![n_def(
            "x",
            NormalNixExpr::Attrs {
                rec: true,
                attrs: vec![],
                dynamic_attrs: vec![
                    DynamicAttrDef { name_expr: n_var("k"), value_expr: NormalNixExpr::Int(1) },
                    DynamicAttrDef { name_expr: n_var("m"), value_expr: NormalNixExpr::Int(2) },
                ],
            }
        )])
    );
}

#[test]
fn test_attrs_duplicate_plain_values_fail() {
    let e = set(vec![bind_names(&["x"], num(1)), bind_names(&["x"], num(2))]);
    assert_eq!(
        normalize(e),
        Err(NormalizeError::DuplicateAttr { name: "x".to_string(), conflict: Conflict::NotAttrSet })
    );
}

#[test]
fn test_attrs_duplicate_inherited_fails() {
    let e = set(vec![
        Entry::Inherit(Inherit { from: None, idents: vec![ident("x")] }),
        bind_names(&["x"], set(vec![])),
    ]);
    assert_eq!(
        normalize(e),
        Err(NormalizeError::DuplicateAttr { name: "x".to_string(), conflict: Conflict::Inherited })
    );
}

#[test]
fn test_attrs_duplicate_in_nested_merge_fails() {
    let e = set(vec![bind_names(&["x", "y"], num(1)), bind_names(&["x", "y"], num(2))]);
    assert_eq!(
        normalize(e),
        Err(NormalizeError::DuplicateAttr { name: "y".to_string(), conflict: Conflict::NotAttrSet })
    );
}

#[test]
fn test_attrs_dynamic() {
    let e = set(vec![bind(vec![Attr::Dynamic(Dynamic { expr: Box::new(var("x")) })], num(5))]);
    assert_eq!(
        ok(e),
        NormalNixExpr::Attrs {
            rec: false,
            attrs: vec![],
            dynamic_attrs: vec![DynamicAttrDef {
                name_expr: n_var("x"),
                value_expr: NormalNixExpr::Int(5),
            }],
        }
    );
}

#[test]
fn test_attrs_dynamic_constant_string() {
    let e = set(vec![bind(
        vec![Attr::Dynamic(Dynamic { expr: Box::new(plain("foo")) })],
        plain("bar"),
    )]);
    assert_eq!(ok(e), n_attrs(vec![n_def("foo", n_str("bar"))]));
}

#[test]
fn test_attrs_dynamic_plain_compound() {
    let e = set(vec![bind(
        vec![Attr::Dynamic(Dynamic { expr: Box::new(var("x")) }), key("y")],
        num(5),
    )]);
    assert_eq!(
        ok(e),
        NormalNixExpr::Attrs {
            rec: false,
            attrs: vec![],
            dynamic_attrs: vec![DynamicAttrDef {
                name_expr: n_var("x"),
                value_expr: n_attrs(vec![n_def("y", NormalNixExpr::Int(5))]),
            }],
        }
    );
}

#[test]
fn test_attrs_dynamic_not_deduplicated_and_in_source_order() {
    let dynamic = |name: &str, n: i64| {
        bind(vec![Attr::Dynamic(Dynamic { expr: Box::new(var(name)) })], num(n))
    };
    let e = set(vec![dynamic("z", 1), bind_names(&["k"], num(0)), dynamic("a", 2), dynamic("z", 3)]);
    let d = |name: &str, n: i64| DynamicAttrDef {
        name_expr: n_var(name),
        value_expr: NormalNixExpr::Int(n),
    };
    assert_eq!(
        ok(e),
        NormalNixExpr::Attrs {
            rec: false,
            attrs: vec![n_def("k", NormalNixExpr::Int(0))],
            dynamic_attrs: vec![d("z", 1), d("a", 2), d("z", 3)],
        }
    );
}

#[test]
fn test_attrs_string_key() {
    let e = set(vec![bind(vec![Attr::Str(Str { parts: vec![text("hello")] })], plain("world"))]);
    assert_eq!(ok(e), n_attrs(vec![n_def("hello", n_str("world"))]));
}

#[test]
fn test_attrs_string_key_interpol() {
    let e = set(vec![bind(
        vec![Attr::Str(Str { parts: vec![splice(var("x")), text(".y")] })],
        num(5),
    )]);
    assert_eq!(
        ok(e),
        NormalNixExpr::Attrs {
            rec: false,
            attrs: vec![],
            dynamic_attrs: vec![DynamicAttrDef {
                name_expr: NormalNixExpr::OpConcatStrings {
                    force_string: true,
                    es: vec![n_var("x"), n_str(".y")],
                },
                value_expr: NormalNixExpr::Int(5),
            }],
        }
    );
}

#[test]
fn test_attrs_binding_without_path_fails() {
    let e = set(vec![bind(vec![], num(5))]);
    assert_eq!(normalize(e), Err(malformed(NodeKind::AttrpathValue, Defect::EmptyAttrpath)));
}

#[test]
fn test_attrs_inherit() {
    let e = set(vec![Entry::Inherit(Inherit { from: None, idents: vec![ident("x")] })]);
    assert_eq!(
        ok(e),
        n_attrs(vec![AttrDef { name: "x".to_string(), inherited: true, expr: n_var("x") }])
    );
}

#[test]
fn test_attrs_inherit_from() {
    let e = set(vec![Entry::Inherit(Inherit {
        from: Some(InheritFrom { expr: Box::new(var("x")) }),
        idents: vec![ident("z"), ident("y")],
    })]);
    let pick = |name: &str| NormalNixExpr::Select {
        subject: Box::new(n_var("x")),
        or_default: None,
        path: vec![n_sym(name)],
    };
    assert_eq!(ok(e), n_attrs(vec![n_def("y", pick("y")), n_def("z", pick("z"))]));
}

#[test]
fn test_lambda() {
    let e = RNixExpr::Lambda(Lambda {
        param: Param::IdentParam(IdentParam { ident: ident("x") }),
        body: Box::new(var("x")),
    });
    assert_eq!(
        ok(e),
        NormalNixExpr::Lambda {
            arg: Some("x".to_string()),
            formals: None,
            body: Box::new(n_var("x")),
        }
    );
}

fn pattern_lambda(entries: Vec<PatEntry>, ellipsis: bool, at: Option<&str>) -> RNixExpr {
    RNixExpr::Lambda(Lambda {
        param: Param::Pattern(Pattern {
            pat_entries: entries,
            ellipsis,
            pat_bind: at.map(|name| PatBind { ident: ident(name) }),
        }),
        body: Box::new(var("x")),
    })
}

#[test]
fn test_lambda_formals() {
    let e = pattern_lambda(vec![PatEntry { ident: ident("x"), default: None }], false, None);
    assert_eq!(
        ok(e),
        NormalNixExpr::Lambda {
            arg: None,
            formals: Some(Formals {
                ellipsis: false,
                entries: vec![("x".to_string(), Formal { default: None })],
            }),
            body: Box::new(n_var("x")),
        }
    );
}

#[test]
fn test_lambda_formals_default_ellipsis_and_at() {
    let e = pattern_lambda(
        vec![
            PatEntry { ident: ident("x"), default: Some(Box::new(var("null"))) },
            PatEntry { ident: ident("y"), default: None },
        ],
        true,
        Some("inp"),
    );
    assert_eq!(
        ok(e),
        NormalNixExpr::Lambda {
            arg: Some("inp".to_string()),
            formals: Some(Formals {
                ellipsis: true,
                entries: vec![
                    ("x".to_string(), Formal { default: Some(n_var("null")) }),
                    ("y".to_string(), Formal { default: None }),
                ],
            }),
            body: Box::new(n_var("x")),
        }
    );
}

#[test]
fn test_let() {
    let e = RNixExpr::LetIn(LetIn {
        entries: vec![bind_names(&["x"], num(5))],
        body: Box::new(var("x")),
    });
    assert_eq!(
        ok(e),
        NormalNixExpr::Let {
            attrs: Box::new(n_attrs(vec![n_def("x", NormalNixExpr::Int(5))])),
            body: Box::new(n_var("x")),
        }
    );
}

#[test]
fn test_let_legacy() {
    let e = RNixExpr::LegacyLet(LegacyLet {
        entries: vec![bind_names(&["x"], num(5)), bind_names(&["body"], var("x"))],
    });
    assert_eq!(
        ok(e),
        NormalNixExpr::Select {
            subject: Box::new(NormalNixExpr::Attrs {
                rec: true,
                attrs: vec![n_def("body", n_var("x")), n_def("x", NormalNixExpr::Int(5))],
                dynamic_attrs: vec![],
            }),
            or_default: None,
            path: vec![n_sym("body")],
        }
    );
}

#[test]
fn test_path_relative() {
    assert_eq!(
        ok(path(vec![text("foo/bar")])),
        NormalNixExpr::Path("/base/dir/foo/bar".to_string())
    );
}

#[test]
fn test_path_relative_prefixed() {
    assert_eq!(
        ok(path(vec![text("./foo/bar")])),
        NormalNixExpr::Path("/base/dir/foo/bar".to_string())
    );
}

#[test]
fn test_path_relative_parent() {
    assert_eq!(ok(path(vec![text("./foo/..")])), NormalNixExpr::Path("/base/dir".to_string()));
    assert_eq!(ok(path(vec![text("../x")])), NormalNixExpr::Path("/base/x".to_string()));
}

#[test]
fn test_path_relative_cur() {
    assert_eq!(ok(path(vec![text("./.")])), NormalNixExpr::Path("/base/dir".to_string()));
}

#[test]
fn test_path_absolute() {
    assert_eq!(ok(path(vec![text("/foo/bar")])), NormalNixExpr::Path("/foo/bar".to_string()));
    assert_eq!(ok(path(vec![text("/foo/bar/..")])), NormalNixExpr::Path("/foo".to_string()));
    assert_eq!(ok(path(vec![text("/foo/bar/.")])), NormalNixExpr::Path("/foo/bar".to_string()));
}

#[test]
fn test_path_home() {
    assert_eq!(
        ok(path(vec![text("~/foo/bar")])),
        NormalNixExpr::Path("/home/user/foo/bar".to_string())
    );
}

#[test]
fn test_path_home_is_not_canonicalized() {
    assert_eq!(
        ok(path(vec![text("~/foo/bar/..")])),
        NormalNixExpr::Path("/home/user/foo/bar/..".to_string())
    );
}

#[test]
fn test_path_store() {
    assert_eq!(
        ok(path(vec![text("<foo/bar>")])),
        n_call("__findFile", vec![n_var("__nixPath"), n_str("foo/bar")])
    );
    assert_eq!(
        ok(path(vec![text("<foo/bar/..>")])),
        n_call("__findFile", vec![n_var("__nixPath"), n_str("foo/bar/..")])
    );
}

#[test]
fn test_path_store_unclosed_fails() {
    assert_eq!(
        normalize(path(vec![text("<foo")])),
        Err(malformed(NodeKind::Path, Defect::UnclosedSearchPath))
    );
    assert_eq!(
        normalize(path(vec![text("<")])),
        Err(malformed(NodeKind::Path, Defect::UnclosedSearchPath))
    );
}

#[test]
fn test_path_interpolated() {
    let e = path(vec![text("./"), splice(plain("foo"))]);
    assert_eq!(
        ok(e),
        NormalNixExpr::OpConcatStrings {
            force_string: false,
            es: vec![NormalNixExpr::Path("/base/dir/".to_string()), n_str("foo")],
        }
    );
}

#[test]
fn test_path_interpolated_long() {
    let e = path(vec![
        text("./a/b/"),
        splice(plain("c")),
        text("/"),
        splice(var("d")),
        text("/e/f"),
    ]);
    assert_eq!(
        ok(e),
        NormalNixExpr::OpConcatStrings {
            force_string: false,
            es: vec![
                NormalNixExpr::Path("/base/dir/a/b/".to_string()),
                n_str("c"),
                n_str("/"),
                n_var("d"),
                n_str("/e/f"),
            ],
        }
    );
}

#[test]
fn test_path_malformed() {
    assert_eq!(normalize(path(vec![])), Err(malformed(NodeKind::Path, Defect::NoParts)));
    assert_eq!(
        normalize(path(vec![text("a"), text("b")])),
        Err(malformed(NodeKind::Path, Defect::AdjacentLiterals))
    );
    assert_eq!(
        normalize(path(vec![splice(var("x")), text("/a")])),
        Err(malformed(NodeKind::Path, Defect::LeadingInterpolation))
    );
}

#[test]
fn test_normalize_is_deterministic() {
    let make = || {
        set(vec![
            bind_names(&["x", "y"], path(vec![text("./a/../b")])),
            bind_names(&["x", "z"], apply(apply(var("f"), num(1)), num(2))),
            Entry::Inherit(Inherit {
                from: Some(InheritFrom { expr: Box::new(var("s")) }),
                idents: vec![ident("b"), ident("a")],
            }),
        ])
    };
    assert_eq!(normalize(make()), normalize(make()));
    assert!(normalize(make()).is_ok());
}

#[test]
fn test_math_prec() {
    // (0 + 1 + -2 - 3) * -(4 / 5)
    let neg = |e: RNixExpr| {
        RNixExpr::UnaryOp(UnaryOp { operator: UnaryOpKind::Negate, expr: Box::new(e) })
    };
    let paren = |e: RNixExpr| RNixExpr::Paren(Paren { expr: Box::new(e) });
    let sum = bin(
        bin(bin(num(0), BinOpKind::Add, num(1)), BinOpKind::Add, neg(num(2))),
        BinOpKind::Sub,
        num(3),
    );
    let e = bin(paren(sum), BinOpKind::Mul, neg(paren(bin(num(4), BinOpKind::Div, num(5)))));
    let i = NormalNixExpr::Int;
    let cat = |a, b| NormalNixExpr::OpConcatStrings { force_string: false, es: vec![a, b] };
    assert_eq!(
        ok(e),
        n_call(
            "__mul",
            vec![
                n_call(
                    "__sub",
                    vec![cat(cat(i(0), i(1)), n_call("__sub", vec![i(0), i(2)])), i(3)]
                ),
                n_call("__sub", vec![i(0), n_call("__div", vec![i(4), i(5)])]),
            ]
        )
    );
}
