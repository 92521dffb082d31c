use rnix_normalize::error::{Conflict, Defect, NodeKind, NormalizeError};
use rnix_normalize::merge::{add_def, merge_attr_def, merge_attrs, merge_dynamic_attrs, sort_attrs};
use rnix_normalize::normal_ast::{AttrDef, DynamicAttrDef, NormalNixExpr};
use rnix_normalize::text::{bytes_before, chars_of, concatenate, name_before, string_of};
use rnix_normalize::{check_outcome, CheckResult, JsonMismatch};

fn def(name: &str, expr: NormalNixExpr) -> AttrDef {
    AttrDef { name: name.to_string(), inherited: false, expr }
}

fn attrs(rec: bool, attrs: Vec<AttrDef>, dynamic_attrs: Vec<DynamicAttrDef>) -> NormalNixExpr {
    NormalNixExpr::Attrs { rec, attrs, dynamic_attrs }
}

fn dynamic(n: i64) -> DynamicAttrDef {
    DynamicAttrDef { name_expr: NormalNixExpr::Var("k".to_string()), value_expr: NormalNixExpr::Int(n) }
}

#[test]
fn test_check_outcome_equal() {
    assert_eq!(check_outcome(Ok("{}".to_string()), Ok("{}".to_string()), None), CheckResult::Equal);
}

#[test]
fn test_check_outcome_not_equal() {
    assert_eq!(
        check_outcome(Ok("1".to_string()), Ok("2".to_string()), Some("differ".to_string())),
        CheckResult::NotEqual("differ".to_string())
    );
}

#[test]
fn test_check_outcome_reference_failure_counts_first() {
    assert_eq!(
        check_outcome(Err("ref".to_string()), Err("rnix".to_string()), Some("differ".to_string())),
        CheckResult::ReferenceImplError("ref".to_string())
    );
}

#[test]
fn test_check_outcome_rnix_failure() {
    assert_eq!(
        check_outcome(Ok("1".to_string()), Err("rnix".to_string()), Some("differ".to_string())),
        CheckResult::RNixError("rnix".to_string())
    );
}

#[test]
fn test_json_mismatch_message() {
    assert_eq!(JsonMismatch("a != b".to_string()).message(), "a != b");
}

#[test]
fn test_describe_duplicate() {
    let inherited = NormalizeError::DuplicateAttr { name: "x".to_string(), conflict: Conflict::Inherited };
    assert_eq!(inherited.describe(), "x is inherited, but inherited defs cannot be merged.");
    let plain = NormalizeError::DuplicateAttr { name: "x".to_string(), conflict: Conflict::NotAttrSet };
    assert_eq!(plain.describe(), "Cannot merge x, because one of the values is not an attrset");
}

#[test]
fn test_describe_malformed() {
    let e = NormalizeError::Malformed { node: NodeKind::Path, defect: Defect::LeadingInterpolation };
    assert_eq!(e.describe(), "Malformed Path: the first part is an interpolation");
    let e = NormalizeError::Malformed { node: NodeKind::Str, defect: Defect::AdjacentLiterals };
    assert_eq!(e.describe(), "Malformed Str: several literal parts and no interpolation");
    let e = NormalizeError::Malformed { node: NodeKind::Select, defect: Defect::EmptyAttrpath };
    assert_eq!(e.describe(), "Malformed Select: an attribute path without steps");
    let e = NormalizeError::Malformed { node: NodeKind::HasAttr, defect: Defect::NoParts };
    assert_eq!(e.describe(), "Malformed HasAttr: no parts");
    let e = NormalizeError::Malformed {
        node: NodeKind::AttrpathValue,
        defect: Defect::UnclosedSearchPath,
    };
    assert_eq!(e.describe(), "Malformed AttrpathValue: a search path without its closing bracket");
}

#[test]
fn test_byte_order() {
    assert!(bytes_before(b"a", b"b"));
    assert!(bytes_before(b"", b"a"));
    assert!(bytes_before(b"a", b"ab"));
    assert!(!bytes_before(b"ab", b"a"));
    assert!(!bytes_before(b"a", b"a"));
    assert!(!bytes_before(b"", b""));
    assert!(bytes_before(b"Z", b"a"));
    assert!(name_before("z", "é"));
    assert!(!name_before("é", "z"));
    assert!(name_before("outputs", "outputz"));
}

#[test]
fn test_text_conversions() {
    assert_eq!(chars_of("aé/"), vec!['a', 'é', '/']);
    assert_eq!(string_of(&vec!['a', 'é', '/']), "aé/");
    assert_eq!(concatenate("ab", "cd"), "abcd");
}

#[test]
fn test_sort_attrs_is_stable() {
    let sorted = sort_attrs(vec![
        def("b", NormalNixExpr::Int(1)),
        def("a", NormalNixExpr::Int(2)),
        def("b", NormalNixExpr::Int(3)),
        def("a", NormalNixExpr::Int(4)),
    ]);
    assert_eq!(
        sorted,
        vec![
            def("a", NormalNixExpr::Int(2)),
            def("a", NormalNixExpr::Int(4)),
            def("b", NormalNixExpr::Int(1)),
            def("b", NormalNixExpr::Int(3)),
        ]
    );
}

#[test]
fn test_merge_dynamic_attrs_appends() {
    assert_eq!(
        merge_dynamic_attrs(vec![dynamic(1), dynamic(2)], vec![dynamic(1)]),
        vec![dynamic(1), dynamic(2), dynamic(1)]
    );
}

#[test]
fn test_merge_attr_def() {
    let first = def("x", attrs(false, vec![def("b", NormalNixExpr::Int(1))], vec![dynamic(1)]));
    let second = def("x", attrs(true, vec![def("a", NormalNixExpr::Int(2))], vec![dynamic(2)]));
    assert_eq!(
        merge_attr_def(first, second),
        Ok(def(
            "x",
            attrs(
                true,
                vec![def("a", NormalNixExpr::Int(2)), def("b", NormalNixExpr::Int(1))],
                vec![dynamic(1), dynamic(2)]
            )
        ))
    );
}

#[test]
fn test_merge_attr_def_conflicts() {
    let set = || attrs(false, vec![], vec![]);
    let inherited = AttrDef { name: "x".to_string(), inherited: true, expr: set() };
    assert_eq!(
        merge_attr_def(def("x", set()), inherited),
        Err(NormalizeError::DuplicateAttr { name: "x".to_string(), conflict: Conflict::Inherited })
    );
    assert_eq!(
        merge_attr_def(def("x", set()), def("x", NormalNixExpr::Int(1))),
        Err(NormalizeError::DuplicateAttr { name: "x".to_string(), conflict: Conflict::NotAttrSet })
    );
    assert_eq!(
        merge_attr_def(def("x", NormalNixExpr::Int(1)), def("x", set())),
        Err(NormalizeError::DuplicateAttr { name: "x".to_string(), conflict: Conflict::NotAttrSet })
    );
}

#[test]
fn test_merge_attrs() {
    let merged = merge_attrs(
        vec![def("m", NormalNixExpr::Int(0)), def("z", attrs(false, vec![], vec![]))],
        vec![
            def("c", NormalNixExpr::Int(1)),
            def("z", attrs(false, vec![def("q", NormalNixExpr::Int(2))], vec![])),
            def("a", NormalNixExpr::Int(3)),
        ],
    );
    assert_eq!(
        merged,
        Ok(vec![
            def("a", NormalNixExpr::Int(3)),
            def("c", NormalNixExpr::Int(1)),
            def("m", NormalNixExpr::Int(0)),
            def("z", attrs(false, vec![def("q", NormalNixExpr::Int(2))], vec![])),
        ])
    );
}

#[test]
fn test_merge_attrs_reports_first_conflict() {
    let merged = merge_attrs(
        vec![],
        vec![
            def("b", NormalNixExpr::Int(1)),
            def("a", NormalNixExpr::Int(2)),
            def("a", NormalNixExpr::Int(3)),
            def("b", NormalNixExpr::Int(4)),
        ],
    );
    assert_eq!(
        merged,
        Err(NormalizeError::DuplicateAttr { name: "a".to_string(), conflict: Conflict::NotAttrSet })
    );
}

#[test]
fn test_merge_attrs_folds_a_name_that_stands_twice_in_the_first() {
    let empty_set = || attrs(false, vec![], vec![]);
    assert_eq!(
        merge_attrs(vec![def("x", empty_set()), def("x", empty_set())], vec![]),
        Ok(vec![def("x", empty_set())])
    );
}

#[test]
fn test_merge_attrs_folds_across_and_within_both_sides() {
    let set = |names: &[&str]| {
        attrs(false, names.iter().map(|n| def(n, NormalNixExpr::Int(0))).collect(), vec![])
    };
    let merged = merge_attrs(
        vec![def("x", set(&["d"])), def("k", NormalNixExpr::Int(1)), def("x", set(&["b"]))],
        vec![def("x", set(&["c"])), def("a", NormalNixExpr::Int(2)), def("x", set(&["a"]))],
    );
    assert_eq!(
        merged,
        Ok(vec![
            def("a", NormalNixExpr::Int(2)),
            def("k", NormalNixExpr::Int(1)),
            def("x", set(&["a", "b", "c", "d"])),
        ])
    );
}

#[test]
fn test_merge_attrs_conflict_within_the_first() {
    assert_eq!(
        merge_attrs(
            vec![def("x", NormalNixExpr::Int(1)), def("x", NormalNixExpr::Int(2))],
            vec![def("y", NormalNixExpr::Int(3))]
        ),
        Err(NormalizeError::DuplicateAttr { name: "x".to_string(), conflict: Conflict::NotAttrSet })
    );
}

#[test]
fn test_merge_attr_def_regroups_the_bindings_of_the_first() {
    let leaf = |name: &str, n: i64| attrs(false, vec![def(name, NormalNixExpr::Int(n))], vec![]);
    let first = def("x", attrs(false, vec![def("a", leaf("q", 1)), def("a", leaf("p", 2))], vec![]));
    let second = def("x", attrs(false, vec![], vec![]));
    assert_eq!(
        merge_attr_def(first, second),
        Ok(def(
            "x",
            attrs(
                false,
                vec![def(
                    "a",
                    attrs(
                        false,
                        vec![def("p", NormalNixExpr::Int(2)), def("q", NormalNixExpr::Int(1))],
                        vec![]
                    )
                )],
                vec![]
            )
        ))
    );
}

#[test]
fn test_merge_attrs_keeps_a_binding_whose_name_stands_once() {
    let inherited = AttrDef {
        name: "i".to_string(),
        inherited: true,
        expr: NormalNixExpr::Var("i".to_string()),
    };
    let merged = merge_attrs(
        vec![def("z", NormalNixExpr::Int(1)), inherited.clone()],
        vec![def("a", attrs(true, vec![], vec![dynamic(1)]))],
    )
    .unwrap();
    let names: Vec<&str> = merged.iter().map(|d| d.name.as_str()).collect();
    assert_eq!(names, vec!["a", "i", "z"]);
    assert_eq!(merged[0], def("a", attrs(true, vec![], vec![dynamic(1)])));
    assert_eq!(merged[1], inherited);
    assert_eq!(merged[2], def("z", NormalNixExpr::Int(1)));
}

#[test]
fn test_add_def() {
    let mut acc = vec![def("b", attrs(false, vec![], vec![])), def("a", NormalNixExpr::Int(1))];
    assert_eq!(add_def(&mut acc, def("c", NormalNixExpr::Int(2))), Ok(()));
    assert_eq!(add_def(&mut acc, def("b", attrs(true, vec![], vec![dynamic(3)]))), Ok(()));
    assert_eq!(
        acc,
        vec![
            def("b", attrs(true, vec![], vec![dynamic(3)])),
            def("a", NormalNixExpr::Int(1)),
            def("c", NormalNixExpr::Int(2)),
        ]
    );
    assert_eq!(
        add_def(&mut acc, def("a", NormalNixExpr::Int(4))),
        Err(NormalizeError::DuplicateAttr { name: "a".to_string(), conflict: Conflict::NotAttrSet })
    );
}
