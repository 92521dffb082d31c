//! What holds of every tree that normalization gives.

use crate::error::{ErrorView, NodeKind, NormalizeError};
use crate::merge_laws::lemma_merge_attrs_well_formed;
use crate::normal_ast::{
    formal_index, lemma_formal_index, AttrDefView, AttrNameView, DynamicAttrDefView, ExprView,
    NormalNixExpr,
};
use crate::normalize::{
    apply_spec, attrs_of_defs, bin_op_spec, builtin_call, dynamic_defs, expr_result_view,
    has_interpolation, inherit_def, inherit_defs, lemma_formals_distinct, normalize_all_spec,
    normalize_attr_path_spec,
    normalize_attr_set_spec, normalize_binding_spec, normalize_entries_spec,
    normalize_entry_spec, normalize_formals_spec, normalize_key_spec, normalize_keys_spec,
    normalize_optional_spec, normalize_param_spec, normalize_part_spec, normalize_parts_spec,
    normalize_path_literal_spec, normalize_path_spec, normalize_spec, normalize_str_spec,
    normalizes_to, static_defs, unary_op_spec, EntryDefsView, KeyView, Roots,
};
use crate::path::{
    canonicalize_spec, is_absolute, lemma_canonicalize_idempotent,
    lemma_canonicalize_keeps_absolute,
};
use crate::text::starts_with;
use crate::rnix_ast::{
    BinOpKind, Cst, CstAttr, CstEntry, CstParam, CstPart, CstPatEntry, RNixExpr, UnaryOpKind,
};
use crate::value::{parse_path_spec, store_literal_closed, Anchor};
use crate::well_formed::{
    all_well_formed, defs_well_formed, dynamic_def_well_formed, dynamic_defs_well_formed,
    formals_well_formed, name_well_formed, names_well_formed, well_formed, Rules,
};
use vstd::prelude::*;

verus! {

/// The rules that every canonical tree keeps, and no more.
pub open spec fn basic_rules() -> Rules {
    Rules { long_concats: false, canonical_paths: false }
}

/// Whether the parts of a string are not one interpolation and nothing
/// else, where `rules` asks for long concatenations: such a string becomes
/// a concatenation of one operand.
pub open spec fn str_parts_admitted(parts: Seq<CstPart>, rules: Rules) -> bool {
    rules.long_concats ==> !(parts.len() == 1 && parts[0] is Interpolation)
}

/// Whether the path literal `text`, if it starts from the home directory,
/// resolves to a canonical path, where `rules` asks for canonical paths: a
/// literal under the home directory is not brought into canonical form.
pub open spec fn path_literal_admitted(text: Seq<char>, rules: Rules, roots: Roots) -> bool {
    rules.canonical_paths && parse_path_spec(text).0 == Anchor::Home ==> {
        let resolved = roots.home + seq!['/'] + parse_path_spec(text).1;
        canonicalize_spec(resolved) == resolved
    }
}

/// Whether the first part of a path, if it is text, is admitted.
pub open spec fn path_parts_admitted(parts: Seq<CstPart>, rules: Rules, roots: Roots) -> bool {
    parts.len() > 0 ==> match parts[0] {
        CstPart::Literal(text) => path_literal_admitted(text, rules, roots),
        CstPart::Interpolation(_) => true,
    }
}

/// Whether every string in the tree `c` meets [`str_parts_admitted`] and
/// every path in it meets [`path_parts_admitted`].
pub open spec fn admitted(c: Cst, rules: Rules, roots: Roots) -> bool
    decreases c,
{
    match c {
        Cst::Apply { lambda, argument } => admitted(*lambda, rules, roots) && admitted(
            *argument,
            rules,
            roots,
        ),
        Cst::Assert { condition, body } => admitted(*condition, rules, roots) && admitted(
            *body,
            rules,
            roots,
        ),
        Cst::IfElse { condition, body, else_body } => {
            &&& admitted(*condition, rules, roots)
            &&& admitted(*body, rules, roots)
            &&& admitted(*else_body, rules, roots)
        },
        Cst::Select { expr, attrpath, default_expr } => {
            &&& admitted(*expr, rules, roots)
            &&& attrs_admitted(attrpath, rules, roots)
            &&& match default_expr {
                Some(d) => admitted(*d, rules, roots),
                None => true,
            }
        },
        Cst::Str { parts } => str_parts_admitted(parts, rules) && parts_admitted(
            parts,
            rules,
            roots,
        ),
        Cst::Path { parts } => path_parts_admitted(parts, rules, roots) && parts_admitted(
            parts,
            rules,
            roots,
        ),
        Cst::Float(_) => true,
        Cst::Integer(_) => true,
        Cst::Uri(_) => true,
        Cst::Lambda { param, body } => param_admitted(param, rules, roots) && admitted(
            *body,
            rules,
            roots,
        ),
        Cst::LegacyLet { entries } => entries_admitted(entries, rules, roots),
        Cst::LetIn { entries, body } => entries_admitted(entries, rules, roots) && admitted(
            *body,
            rules,
            roots,
        ),
        Cst::List { items } => all_admitted(items, rules, roots),
        Cst::BinOp { lhs, operator, rhs } => admitted(*lhs, rules, roots) && admitted(
            *rhs,
            rules,
            roots,
        ),
        Cst::Paren { expr } => admitted(*expr, rules, roots),
        Cst::Root { expr } => admitted(*expr, rules, roots),
        Cst::AttrSet { entries, recursive } => entries_admitted(entries, rules, roots),
        Cst::UnaryOp { operator, expr } => admitted(*expr, rules, roots),
        Cst::Ident { name } => true,
        Cst::With { namespace, body } => admitted(*namespace, rules, roots) && admitted(
            *body,
            rules,
            roots,
        ),
        Cst::HasAttr { expr, attrpath } => admitted(*expr, rules, roots) && attrs_admitted(
            attrpath,
            rules,
            roots,
        ),
    }
}

/// Every tree in `items` is admitted.
pub open spec fn all_admitted(items: Seq<Cst>, rules: Rules, roots: Roots) -> bool
    decreases items,
{
    forall|i: int| 0 <= i < items.len() ==> admitted(#[trigger] items[i], rules, roots)
}

/// What an interpolation holds is admitted.
pub open spec fn part_admitted(part: CstPart, rules: Rules, roots: Roots) -> bool
    decreases part,
{
    match part {
        CstPart::Literal(_) => true,
        CstPart::Interpolation(e) => admitted(*e, rules, roots),
    }
}

/// Every part in `parts` is admitted.
pub open spec fn parts_admitted(parts: Seq<CstPart>, rules: Rules, roots: Roots) -> bool
    decreases parts,
{
    forall|i: int| 0 <= i < parts.len() ==> part_admitted(#[trigger] parts[i], rules, roots)
}

/// What a step of an attribute path holds is admitted; a string there is
/// held to what strings are held to.
pub open spec fn attr_admitted(attr: CstAttr, rules: Rules, roots: Roots) -> bool
    decreases attr,
{
    match attr {
        CstAttr::Ident(_) => true,
        CstAttr::Dynamic(e) => admitted(*e, rules, roots),
        CstAttr::Str(parts) => str_parts_admitted(parts, rules) && parts_admitted(
            parts,
            rules,
            roots,
        ),
    }
}

/// Every step in `attrs` is admitted.
pub open spec fn attrs_admitted(attrs: Seq<CstAttr>, rules: Rules, roots: Roots) -> bool
    decreases attrs,
{
    forall|i: int| 0 <= i < attrs.len() ==> attr_admitted(#[trigger] attrs[i], rules, roots)
}

/// The trees in an entry are admitted.
pub open spec fn entry_admitted(entry: CstEntry, rules: Rules, roots: Roots) -> bool
    decreases entry,
{
    match entry {
        CstEntry::Inherit { from, idents } => match from {
            Some(e) => admitted(*e, rules, roots),
            None => true,
        },
        CstEntry::AttrpathValue { attrpath, value } => attrs_admitted(attrpath, rules, roots)
            && admitted(*value, rules, roots),
    }
}

/// Every entry in `entries` is admitted.
pub open spec fn entries_admitted(entries: Seq<CstEntry>, rules: Rules, roots: Roots) -> bool
    decreases entries,
{
    forall|i: int| 0 <= i < entries.len() ==> entry_admitted(#[trigger] entries[i], rules, roots)
}

/// Every default in `entries` is admitted.
pub open spec fn pat_entries_admitted(entries: Seq<CstPatEntry>, rules: Rules, roots: Roots) -> bool
    decreases entries,
{
    forall|i: int|
        0 <= i < entries.len() ==> match (#[trigger] entries[i]).default {
            Some(d) => admitted(d, rules, roots),
            None => true,
        }
}

/// Every default in the parameter is admitted.
pub open spec fn param_admitted(param: CstParam, rules: Rules, roots: Roots) -> bool
    decreases param,
{
    match param {
        CstParam::IdentParam(_) => true,
        CstParam::Pattern { entries, ellipsis, at } => pat_entries_admitted(entries, rules, roots),
    }
}

/// Whether `rules` asks for more than the basic rules.
pub open spec fn strict(rules: Rules) -> bool {
    rules.long_concats || rules.canonical_paths
}

/// A computed key is well formed.
pub open spec fn key_well_formed(key: KeyView, rules: Rules) -> bool {
    match key {
        KeyView::Static(_) => true,
        KeyView::Dynamic(e) => well_formed(e, rules),
    }
}

/// What an entry gave is well formed.
pub open spec fn entry_defs_well_formed(defs: EntryDefsView, rules: Rules) -> bool {
    match defs {
        EntryDefsView::Static(ds) => defs_well_formed(ds, rules),
        EntryDefsView::Dynamic(d) => dynamic_def_well_formed(d, rules),
    }
}

/// Every default among the pairs is well formed.
pub open spec fn pairs_well_formed(pairs: Seq<(Seq<char>, Option<ExprView>)>, rules: Rules) -> bool {
    forall|i: int|
        0 <= i < pairs.len() ==> match (#[trigger] pairs[i]).1 {
            Some(d) => well_formed(d, rules),
            None => true,
        }
}

proof fn lemma_builtin_call_well_formed(name: Seq<char>, args: Seq<ExprView>, rules: Rules)
    requires
        args.len() > 0,
        all_well_formed(args, rules),
    ensures
        well_formed(builtin_call(name, args), rules),
{
    assert(well_formed(ExprView::Var(name), rules));
}

proof fn lemma_pair_well_formed(l: ExprView, r: ExprView, rules: Rules)
    requires
        well_formed(l, rules),
        well_formed(r, rules),
    ensures
        all_well_formed(seq![l, r], rules),
        seq![l, r].len() == 2,
{
}

proof fn lemma_unary_op_well_formed(operator: UnaryOpKind, e: ExprView, rules: Rules)
    requires
        well_formed(e, rules),
    ensures
        well_formed(unary_op_spec(operator, e), rules),
{
    match operator {
        UnaryOpKind::Invert => {},
        UnaryOpKind::Negate => {
            assert(well_formed(ExprView::Int(0), rules));
            lemma_pair_well_formed(ExprView::Int(0), e, rules);
            lemma_builtin_call_well_formed("__sub"@, seq![ExprView::Int(0), e], rules);
        },
    }
}

proof fn lemma_bin_op_well_formed(operator: BinOpKind, l: ExprView, r: ExprView, rules: Rules)
    requires
        well_formed(l, rules),
        well_formed(r, rules),
    ensures
        well_formed(bin_op_spec(operator, l, r), rules),
{
    lemma_pair_well_formed(l, r, rules);
    lemma_pair_well_formed(r, l, rules);
    lemma_builtin_call_well_formed("__sub"@, seq![l, r], rules);
    lemma_builtin_call_well_formed("__mul"@, seq![l, r], rules);
    lemma_builtin_call_well_formed("__div"@, seq![l, r], rules);
    lemma_builtin_call_well_formed("__lessThan"@, seq![l, r], rules);
    lemma_builtin_call_well_formed("__lessThan"@, seq![r, l], rules);
    match operator {
        BinOpKind::Add => {
            assert(well_formed(
                ExprView::OpConcatStrings { force_string: false, es: seq![l, r] },
                rules,
            ));
        },
        BinOpKind::LessOrEq => {
            assert(well_formed(
                ExprView::OpNot(Box::new(builtin_call("__lessThan"@, seq![r, l]))),
                rules,
            ));
        },
        BinOpKind::MoreOrEq => {
            assert(well_formed(
                ExprView::OpNot(Box::new(builtin_call("__lessThan"@, seq![l, r]))),
                rules,
            ));
        },
        _ => {},
    }
}

proof fn lemma_apply_well_formed(f: ExprView, a: ExprView, rules: Rules)
    requires
        well_formed(f, rules),
        well_formed(a, rules),
    ensures
        well_formed(apply_spec(f, a), rules),
{
    match f {
        ExprView::Call { fun, args } => {
            let more = args.push(a);
            assert(all_well_formed(args, rules));
            assert(well_formed(*fun, rules));
            assert forall|i: int| 0 <= i < more.len() implies well_formed(
                #[trigger] more[i],
                rules,
            ) by {
                if i < args.len() {
                    assert(more[i] == args[i]);
                    assert(well_formed(args[i], rules));
                } else {
                    assert(more[i] == a);
                }
            }
            assert(all_well_formed(more, rules));
            assert(well_formed(ExprView::Call { fun, args: more }, rules));
        },
        _ => {
            assert(all_well_formed(seq![a], rules));
            assert(well_formed(ExprView::Call { fun: Box::new(f), args: seq![a] }, rules));
        },
    }
}

proof fn lemma_path_literal_well_formed(text: Seq<char>, rules: Rules, roots: Roots)
    requires
        strict(rules) ==> path_literal_admitted(text, rules, roots),
        normalize_path_literal_spec(text, roots) is Ok,
    ensures
        well_formed(normalize_path_literal_spec(text, roots)->Ok_0, rules),
{
    let (anchor, rest) = parse_path_spec(text);
    match anchor {
        Anchor::Absolute => {
            lemma_canonicalize_idempotent(rest);
        },
        Anchor::Relative => {
            lemma_canonicalize_idempotent(roots.base + seq!['/'] + rest);
        },
        Anchor::Home => {},
        Anchor::Store => {
            let args = seq![ExprView::Var("__nixPath"@), ExprView::String(rest)];
            assert(well_formed(args[0], rules));
            assert(well_formed(args[1], rules));
            lemma_builtin_call_well_formed("__findFile"@, args, rules);
        },
    }
}

proof fn lemma_parts_len(parts: Seq<CstPart>, roots: Roots)
    requires
        normalize_parts_spec(parts, roots) is Ok,
    ensures
        normalize_parts_spec(parts, roots)->Ok_0.len() == parts.len(),
    decreases parts.len(),
{
    if parts.len() > 0 {
        lemma_parts_len(parts.drop_last(), roots);
    }
}

proof fn lemma_keys_len(attrs: Seq<CstAttr>, roots: Roots)
    requires
        normalize_keys_spec(attrs, roots) is Ok,
    ensures
        normalize_keys_spec(attrs, roots)->Ok_0.len() == attrs.len(),
    decreases attrs.len(),
{
    if attrs.len() > 0 {
        lemma_keys_len(attrs.drop_last(), roots);
    }
}

proof fn lemma_static_defs_well_formed(defs: Seq<EntryDefsView>, rules: Rules)
    requires
        forall|i: int| 0 <= i < defs.len() ==> entry_defs_well_formed(#[trigger] defs[i], rules),
    ensures
        defs_well_formed(static_defs(defs), rules),
        dynamic_defs_well_formed(dynamic_defs(defs), rules),
    decreases defs.len(),
{
    if defs.len() > 0 {
        let init = defs.drop_last();
        assert forall|i: int| 0 <= i < init.len() implies entry_defs_well_formed(
            #[trigger] init[i],
            rules,
        ) by {
            assert(init[i] == defs[i]);
        }
        lemma_static_defs_well_formed(init, rules);
        assert(entry_defs_well_formed(defs[defs.len() - 1], rules));
        match defs.last() {
            EntryDefsView::Static(ds) => {
                let before = static_defs(init);
                let all = before + ds;
                assert forall|i: int| 0 <= i < all.len() implies well_formed(
                    (#[trigger] all[i]).expr,
                    rules,
                ) by {
                    if i < before.len() {
                        assert(all[i] == before[i]);
                    } else {
                        assert(all[i] == ds[i - before.len()]);
                    }
                }
            },
            EntryDefsView::Dynamic(d) => {
                let before = dynamic_defs(init);
                let all = before.push(d);
                assert forall|i: int| 0 <= i < all.len() implies dynamic_def_well_formed(
                    #[trigger] all[i],
                    rules,
                ) by {
                    if i < before.len() {
                        assert(all[i] == before[i]);
                    }
                }
            },
        }
    }
}

proof fn lemma_attrs_of_defs_well_formed(recursive: bool, defs: Seq<EntryDefsView>, rules: Rules)
    requires
        forall|i: int| 0 <= i < defs.len() ==> entry_defs_well_formed(#[trigger] defs[i], rules),
        attrs_of_defs(recursive, defs) is Ok,
    ensures
        well_formed(attrs_of_defs(recursive, defs)->Ok_0, rules),
{
    lemma_static_defs_well_formed(defs, rules);
    let none = Seq::<AttrDefView>::empty();
    assert(defs_well_formed(none, rules));
    lemma_merge_attrs_well_formed(static_defs(defs), none, rules);
}

proof fn lemma_inherit_defs_well_formed(from: Option<ExprView>, idents: Seq<Seq<char>>, rules: Rules)
    requires
        match from {
            Some(s) => well_formed(s, rules),
            None => true,
        },
    ensures
        defs_well_formed(inherit_defs(from, idents), rules),
{
    let defs = inherit_defs(from, idents);
    assert forall|i: int| 0 <= i < defs.len() implies well_formed((#[trigger] defs[i]).expr, rules) by {
        let name = idents[i];
        assert(defs[i] == inherit_def(from, name));
        match from {
            Some(subject) => {
                let path = seq![AttrNameView::Symbol(name)];
                assert(names_well_formed(path, rules));
                assert(well_formed(
                    ExprView::Select { subject: Box::new(subject), or_default: None, path },
                    rules,
                ));
            },
            None => {},
        }
    }
}

/// Every tree that normalization gives is well formed under `rules`, if
/// the tree it was given is admitted under them.
pub proof fn lemma_normalize_well_formed(c: Cst, rules: Rules, roots: Roots)
    requires
        strict(rules) ==> admitted(c, rules, roots),
        normalize_spec(c, roots) is Ok,
    ensures
        well_formed(normalize_spec(c, roots)->Ok_0, rules),
    decreases c, 0nat,
{
    match c {
        Cst::Root { expr } => lemma_normalize_well_formed(*expr, rules, roots),
        Cst::Paren { expr } => lemma_normalize_well_formed(*expr, rules, roots),
        Cst::Ident { name } => {},
        Cst::Integer(n) => {},
        Cst::Float(bits) => {},
        Cst::Uri(s) => {},
        Cst::Str { parts } => lemma_str_well_formed(parts, rules, roots),
        Cst::Path { parts } => lemma_path_well_formed(parts, rules, roots),
        Cst::UnaryOp { operator, expr } => {
            lemma_normalize_well_formed(*expr, rules, roots);
            lemma_unary_op_well_formed(operator, normalize_spec(*expr, roots)->Ok_0, rules);
        },
        Cst::BinOp { lhs, operator, rhs } => {
            lemma_normalize_well_formed(*lhs, rules, roots);
            lemma_normalize_well_formed(*rhs, rules, roots);
            lemma_bin_op_well_formed(
                operator,
                normalize_spec(*lhs, roots)->Ok_0,
                normalize_spec(*rhs, roots)->Ok_0,
                rules,
            );
        },
        Cst::Apply { lambda, argument } => {
            lemma_normalize_well_formed(*lambda, rules, roots);
            lemma_normalize_well_formed(*argument, rules, roots);
            lemma_apply_well_formed(
                normalize_spec(*lambda, roots)->Ok_0,
                normalize_spec(*argument, roots)->Ok_0,
                rules,
            );
        },
        Cst::Assert { condition, body } => {
            lemma_normalize_well_formed(*condition, rules, roots);
            lemma_normalize_well_formed(*body, rules, roots);
        },
        Cst::With { namespace, body } => {
            lemma_normalize_well_formed(*namespace, rules, roots);
            lemma_normalize_well_formed(*body, rules, roots);
        },
        Cst::IfElse { condition, body, else_body } => {
            lemma_normalize_well_formed(*condition, rules, roots);
            lemma_normalize_well_formed(*body, rules, roots);
            lemma_normalize_well_formed(*else_body, rules, roots);
        },
        Cst::List { items } => lemma_all_well_formed(items, rules, roots),
        Cst::HasAttr { expr, attrpath } => {
            lemma_normalize_well_formed(*expr, rules, roots);
            lemma_attr_path_well_formed(attrpath, NodeKind::HasAttr, rules, roots);
        },
        Cst::Select { expr, attrpath, default_expr } => {
            lemma_normalize_well_formed(*expr, rules, roots);
            lemma_optional_well_formed(default_expr, rules, roots);
            lemma_attr_path_well_formed(attrpath, NodeKind::Select, rules, roots);
        },
        Cst::Lambda { param, body } => {
            lemma_param_well_formed(param, rules, roots);
            lemma_normalize_well_formed(*body, rules, roots);
        },
        Cst::LegacyLet { entries } => {
            lemma_attr_set_well_formed(entries, true, rules, roots);
            let path = seq![AttrNameView::Symbol("body"@)];
            assert(names_well_formed(path, rules));
        },
        Cst::LetIn { entries, body } => {
            lemma_attr_set_well_formed(entries, false, rules, roots);
            lemma_normalize_well_formed(*body, rules, roots);
        },
        Cst::AttrSet { entries, recursive } => lemma_attr_set_well_formed(
            entries,
            recursive,
            rules,
            roots,
        ),
    }
}

proof fn lemma_optional_well_formed(e: Option<Box<Cst>>, rules: Rules, roots: Roots)
    requires
        strict(rules) ==> match e {
            Some(d) => admitted(*d, rules, roots),
            None => true,
        },
        normalize_optional_spec(e, roots) is Ok,
    ensures
        match normalize_optional_spec(e, roots)->Ok_0 {
            Some(d) => well_formed(*d, rules),
            None => true,
        },
    decreases e, 1nat,
{
    match e {
        Some(d) => lemma_normalize_well_formed(*d, rules, roots),
        None => {},
    }
}

proof fn lemma_all_well_formed(items: Seq<Cst>, rules: Rules, roots: Roots)
    requires
        strict(rules) ==> all_admitted(items, rules, roots),
        normalize_all_spec(items, roots) is Ok,
    ensures
        all_well_formed(normalize_all_spec(items, roots)->Ok_0, rules),
    decreases items, 0nat,
{
    if items.len() > 0 {
        let init = items.drop_last();
        if strict(rules) {
            assert forall|i: int| 0 <= i < init.len() implies admitted(
                #[trigger] init[i],
                rules,
                roots,
            ) by {
                assert(init[i] == items[i]);
            }
            assert(admitted(items[items.len() - 1], rules, roots));
        }
        lemma_all_well_formed(init, rules, roots);
        lemma_normalize_well_formed(items.last(), rules, roots);
        let before = normalize_all_spec(init, roots)->Ok_0;
        let all = normalize_all_spec(items, roots)->Ok_0;
        assert forall|i: int| 0 <= i < all.len() implies well_formed(#[trigger] all[i], rules) by {
            if i < before.len() {
                assert(all[i] == before[i]);
            }
        }
    }
}

proof fn lemma_part_well_formed(part: CstPart, rules: Rules, roots: Roots)
    requires
        strict(rules) ==> part_admitted(part, rules, roots),
        normalize_part_spec(part, roots) is Ok,
    ensures
        well_formed(normalize_part_spec(part, roots)->Ok_0, rules),
    decreases part, 0nat,
{
    match part {
        CstPart::Literal(s) => {},
        CstPart::Interpolation(e) => lemma_normalize_well_formed(*e, rules, roots),
    }
}

proof fn lemma_parts_well_formed(parts: Seq<CstPart>, rules: Rules, roots: Roots)
    requires
        strict(rules) ==> parts_admitted(parts, rules, roots),
        normalize_parts_spec(parts, roots) is Ok,
    ensures
        all_well_formed(normalize_parts_spec(parts, roots)->Ok_0, rules),
    decreases parts, 0nat,
{
    if parts.len() > 0 {
        let init = parts.drop_last();
        if strict(rules) {
            assert forall|i: int| 0 <= i < init.len() implies part_admitted(
                #[trigger] init[i],
                rules,
                roots,
            ) by {
                assert(init[i] == parts[i]);
            }
            assert(part_admitted(parts[parts.len() - 1], rules, roots));
        }
        lemma_parts_well_formed(init, rules, roots);
        lemma_part_well_formed(parts.last(), rules, roots);
        let before = normalize_parts_spec(init, roots)->Ok_0;
        let all = normalize_parts_spec(parts, roots)->Ok_0;
        assert forall|i: int| 0 <= i < all.len() implies well_formed(#[trigger] all[i], rules) by {
            if i < before.len() {
                assert(all[i] == before[i]);
            }
        }
    }
}

proof fn lemma_str_well_formed(parts: Seq<CstPart>, rules: Rules, roots: Roots)
    requires
        strict(rules) ==> str_parts_admitted(parts, rules) && parts_admitted(parts, rules, roots),
        normalize_str_spec(parts, roots) is Ok,
    ensures
        well_formed(normalize_str_spec(parts, roots)->Ok_0, rules),
    decreases parts, 1nat,
{
    if has_interpolation(parts) {
        lemma_parts_well_formed(parts, rules, roots);
        lemma_parts_len(parts, roots);
        let es = normalize_parts_spec(parts, roots)->Ok_0;
        if rules.long_concats && parts.len() == 1 {
            let i = choose|i: int| 0 <= i < parts.len() && parts[i] is Interpolation;
            assert(parts[0] is Interpolation);
        }
        assert(well_formed(ExprView::OpConcatStrings { force_string: true, es }, rules));
    }
}

proof fn lemma_path_well_formed(parts: Seq<CstPart>, rules: Rules, roots: Roots)
    requires
        strict(rules) ==> path_parts_admitted(parts, rules, roots) && parts_admitted(
            parts,
            rules,
            roots,
        ),
        normalize_path_spec(parts, roots) is Ok,
    ensures
        well_formed(normalize_path_spec(parts, roots)->Ok_0, rules),
    decreases parts, 1nat,
{
    if has_interpolation(parts) {
        let i = choose|i: int| 0 <= i < parts.len() && parts[i] is Interpolation;
        match parts[0] {
            CstPart::Interpolation(_) => {},
            CstPart::Literal(text) => {
                let tail = parts.drop_first();
                if strict(rules) {
                    assert forall|j: int| 0 <= j < tail.len() implies part_admitted(
                        #[trigger] tail[j],
                        rules,
                        roots,
                    ) by {
                        assert(tail[j] == parts[j + 1]);
                    }
                }
                lemma_path_literal_well_formed(text, rules, roots);
                lemma_parts_well_formed(tail, rules, roots);
                lemma_parts_len(tail, roots);
                let head = normalize_path_literal_spec(text, roots)->Ok_0;
                let rest = normalize_parts_spec(tail, roots)->Ok_0;
                let es = seq![head] + rest;
                assert(i > 0);
                assert forall|j: int| 0 <= j < es.len() implies well_formed(
                    #[trigger] es[j],
                    rules,
                ) by {
                    if j > 0 {
                        assert(es[j] == rest[j - 1]);
                        assert(well_formed(rest[j - 1], rules));
                    } else {
                        assert(es[j] == head);
                    }
                }
                assert(es.len() == 1 + rest.len());
                assert(tail.len() == parts.len() - 1);
                assert(all_well_formed(es, rules));
                assert(well_formed(ExprView::OpConcatStrings { force_string: false, es }, rules));
            },
        }
    } else if parts.len() == 1 {
        assert(!(parts[0] is Interpolation));
        lemma_path_literal_well_formed(parts[0]->Literal_0, rules, roots);
    }
}

proof fn lemma_key_well_formed(attr: CstAttr, rules: Rules, roots: Roots)
    requires
        strict(rules) ==> attr_admitted(attr, rules, roots),
        normalize_key_spec(attr, roots) is Ok,
    ensures
        key_well_formed(normalize_key_spec(attr, roots)->Ok_0, rules),
    decreases attr, 0nat,
{
    match attr {
        CstAttr::Ident(name) => {},
        CstAttr::Str(parts) => lemma_str_well_formed(parts, rules, roots),
        CstAttr::Dynamic(e) => lemma_normalize_well_formed(*e, rules, roots),
    }
}

proof fn lemma_keys_well_formed(attrs: Seq<CstAttr>, rules: Rules, roots: Roots)
    requires
        strict(rules) ==> attrs_admitted(attrs, rules, roots),
        normalize_keys_spec(attrs, roots) is Ok,
    ensures
        names_well_formed(normalize_keys_spec(attrs, roots)->Ok_0, rules),
    decreases attrs, 0nat,
{
    if attrs.len() > 0 {
        let init = attrs.drop_last();
        if strict(rules) {
            assert forall|i: int| 0 <= i < init.len() implies attr_admitted(
                #[trigger] init[i],
                rules,
                roots,
            ) by {
                assert(init[i] == attrs[i]);
            }
            assert(attr_admitted(attrs[attrs.len() - 1], rules, roots));
        }
        lemma_keys_well_formed(init, rules, roots);
        lemma_key_well_formed(attrs.last(), rules, roots);
        let before = normalize_keys_spec(init, roots)->Ok_0;
        let all = normalize_keys_spec(attrs, roots)->Ok_0;
        assert forall|i: int| 0 <= i < all.len() implies name_well_formed(
            #[trigger] all[i],
            rules,
        ) by {
            if i < before.len() {
                assert(all[i] == before[i]);
            }
        }
    }
}

proof fn lemma_attr_path_well_formed(attrs: Seq<CstAttr>, node: NodeKind, rules: Rules, roots: Roots)
    requires
        strict(rules) ==> attrs_admitted(attrs, rules, roots),
        normalize_attr_path_spec(attrs, node, roots) is Ok,
    ensures
        names_well_formed(normalize_attr_path_spec(attrs, node, roots)->Ok_0, rules),
        normalize_attr_path_spec(attrs, node, roots)->Ok_0.len() > 0,
    decreases attrs, 1nat,
{
    lemma_keys_well_formed(attrs, rules, roots);
    lemma_keys_len(attrs, roots);
}

proof fn lemma_formals_well_formed(entries: Seq<CstPatEntry>, rules: Rules, roots: Roots)
    requires
        strict(rules) ==> pat_entries_admitted(entries, rules, roots),
        normalize_formals_spec(entries, roots) is Ok,
    ensures
        pairs_well_formed(normalize_formals_spec(entries, roots)->Ok_0, rules),
    decreases entries, 0nat,
{
    if entries.len() > 0 {
        let init = entries.drop_last();
        if strict(rules) {
            assert forall|i: int| 0 <= i < init.len() implies match (#[trigger] init[i]).default {
                Some(d) => admitted(d, rules, roots),
                None => true,
            } by {
                assert(init[i] == entries[i]);
            }
            assert(entries[entries.len() - 1] == entries.last());
        }
        lemma_formals_well_formed(init, rules, roots);
        match entries.last().default {
            Some(d) => lemma_normalize_well_formed(d, rules, roots),
            None => {},
        }
        let before = normalize_formals_spec(init, roots)->Ok_0;
        let all = normalize_formals_spec(entries, roots)->Ok_0;
        lemma_formal_index(before, entries.last().name);
        assert forall|i: int| 0 <= i < all.len() implies match (#[trigger] all[i]).1 {
            Some(d) => well_formed(d, rules),
            None => true,
        } by {
            if i < before.len() && i != formal_index(before, entries.last().name) {
                assert(all[i] == before[i]);
            }
        }
    }
}

proof fn lemma_param_well_formed(param: CstParam, rules: Rules, roots: Roots)
    requires
        strict(rules) ==> param_admitted(param, rules, roots),
        normalize_param_spec(param, roots) is Ok,
    ensures
        match normalize_param_spec(param, roots)->Ok_0.1 {
            Some(f) => formals_well_formed(f, rules),
            None => true,
        },
    decreases param, 0nat,
{
    match param {
        CstParam::IdentParam(name) => {},
        CstParam::Pattern { entries, ellipsis, at } => {
            lemma_formals_well_formed(entries, rules, roots);
            lemma_formals_distinct(entries, roots);
        },
    }
}

proof fn lemma_binding_well_formed(entry: CstEntry, k: nat, rules: Rules, roots: Roots)
    requires
        strict(rules) ==> entry_admitted(entry, rules, roots),
        normalize_binding_spec(entry, k, roots) is Ok,
    ensures
        entry_defs_well_formed(normalize_binding_spec(entry, k, roots)->Ok_0, rules),
    decreases entry, entry->attrpath.len() - k,
{
    match entry {
        CstEntry::AttrpathValue { attrpath, value } => {
            if k < attrpath.len() {
                if strict(rules) {
                    assert(attr_admitted(attrpath[k as int], rules, roots));
                }
                if k + 1 < attrpath.len() {
                    lemma_binding_well_formed(entry, k + 1, rules, roots);
                    let inner = normalize_binding_spec(entry, k + 1, roots)->Ok_0;
                    assert(seq![inner][0] == inner);
                    lemma_attrs_of_defs_well_formed(false, seq![inner], rules);
                } else {
                    lemma_normalize_well_formed(*value, rules, roots);
                }
                lemma_key_well_formed(attrpath[k as int], rules, roots);
            }
        },
        _ => {},
    }
}

proof fn lemma_entry_well_formed(entry: CstEntry, rules: Rules, roots: Roots)
    requires
        strict(rules) ==> entry_admitted(entry, rules, roots),
        normalize_entry_spec(entry, roots) is Ok,
    ensures
        entry_defs_well_formed(normalize_entry_spec(entry, roots)->Ok_0, rules),
    decreases entry, entry->attrpath.len() + 1,
{
    match entry {
        CstEntry::Inherit { from, idents } => match from {
            Some(e) => {
                lemma_normalize_well_formed(*e, rules, roots);
                lemma_inherit_defs_well_formed(Some(normalize_spec(*e, roots)->Ok_0), idents, rules);
            },
            None => lemma_inherit_defs_well_formed(None, idents, rules),
        },
        CstEntry::AttrpathValue { attrpath, value } => {
            if attrpath.len() > 0 {
                lemma_binding_well_formed(entry, 0, rules, roots);
            }
        },
    }
}

proof fn lemma_entries_well_formed(entries: Seq<CstEntry>, rules: Rules, roots: Roots)
    requires
        strict(rules) ==> entries_admitted(entries, rules, roots),
        normalize_entries_spec(entries, roots) is Ok,
    ensures
        forall|i: int|
            0 <= i < normalize_entries_spec(entries, roots)->Ok_0.len() ==> entry_defs_well_formed(
                #[trigger] normalize_entries_spec(entries, roots)->Ok_0[i],
                rules,
            ),
    decreases entries, 0nat,
{
    if entries.len() > 0 {
        let init = entries.drop_last();
        if strict(rules) {
            assert forall|i: int| 0 <= i < init.len() implies entry_admitted(
                #[trigger] init[i],
                rules,
                roots,
            ) by {
                assert(init[i] == entries[i]);
            }
            assert(entry_admitted(entries[entries.len() - 1], rules, roots));
        }
        lemma_entries_well_formed(init, rules, roots);
        lemma_entry_well_formed(entries.last(), rules, roots);
        let before = normalize_entries_spec(init, roots)->Ok_0;
        let all = normalize_entries_spec(entries, roots)->Ok_0;
        assert forall|i: int| 0 <= i < all.len() implies entry_defs_well_formed(
            #[trigger] all[i],
            rules,
        ) by {
            if i < before.len() {
                assert(all[i] == before[i]);
            }
        }
    }
}

proof fn lemma_attr_set_well_formed(
    entries: Seq<CstEntry>,
    recursive: bool,
    rules: Rules,
    roots: Roots,
)
    requires
        strict(rules) ==> entries_admitted(entries, rules, roots),
        normalize_attr_set_spec(entries, recursive, roots) is Ok,
    ensures
        well_formed(normalize_attr_set_spec(entries, recursive, roots)->Ok_0, rules),
    decreases entries, 1nat,
{
    lemma_entries_well_formed(entries, rules, roots);
    lemma_attrs_of_defs_well_formed(recursive, normalize_entries_spec(entries, roots)->Ok_0, rules);
}

/// The rules that ask for long concatenations on top of the basic ones.
pub open spec fn long_concat_rules() -> Rules {
    Rules { long_concats: true, canonical_paths: false }
}

/// The rules that ask for canonical paths on top of the basic ones.
pub open spec fn canonical_path_rules() -> Rules {
    Rules { long_concats: false, canonical_paths: true }
}

/// In every tree that normalization gives, at every depth: the bindings of
/// each attribute set stand in the strict byte order of their names, so
/// that no name occurs twice; each call has an argument, and its function
/// is not itself a call; and each selection has a path of one step or
/// more.
pub proof fn lemma_normalized_keeps_basic_rules(c: Cst, roots: Roots)
    requires
        normalize_spec(c, roots) is Ok,
    ensures
        well_formed(normalize_spec(c, roots)->Ok_0, basic_rules()),
{
    lemma_normalize_well_formed(c, basic_rules(), roots);
}

/// In every tree that normalization gives, each concatenation of strings
/// has two operands or more, if no string of the tree it was given
/// consists of one interpolation alone.
pub proof fn lemma_normalized_concats_are_long(c: Cst, roots: Roots)
    requires
        normalize_spec(c, roots) is Ok,
        admitted(c, long_concat_rules(), roots),
    ensures
        well_formed(normalize_spec(c, roots)->Ok_0, long_concat_rules()),
{
    lemma_normalize_well_formed(c, long_concat_rules(), roots);
}

/// In every tree that normalization gives, each path is a fixed point of
/// canonicalization, if each path literal under the home directory in the
/// tree it was given resolves to one.
pub proof fn lemma_normalized_paths_are_canonical(c: Cst, roots: Roots)
    requires
        normalize_spec(c, roots) is Ok,
        admitted(c, canonical_path_rules(), roots),
    ensures
        well_formed(normalize_spec(c, roots)->Ok_0, canonical_path_rules()),
{
    lemma_normalize_well_formed(c, canonical_path_rules(), roots);
}

/// Normalization is deterministic: whatever it returns for two trees of
/// the same value, resolved against the same directories, has the same
/// value.
pub proof fn lemma_normalize_deterministic(
    expr1: RNixExpr,
    base_path1: String,
    home_path1: String,
    r1: Result<NormalNixExpr, NormalizeError>,
    expr2: RNixExpr,
    base_path2: String,
    home_path2: String,
    r2: Result<NormalNixExpr, NormalizeError>,
)
    requires
        expr1@ == expr2@,
        base_path1@ == base_path2@,
        home_path1@ == home_path2@,
        normalizes_to(expr1, base_path1, home_path1, r1),
        normalizes_to(expr2, base_path2, home_path2, r2),
    ensures
        expr_result_view(r1) == expr_result_view(r2),
{
}

proof fn lemma_binding_shift(attrpath: Seq<CstAttr>, value: Cst, k: nat, roots: Roots)
    requires
        k + 1 < attrpath.len(),
    ensures
        normalize_binding_spec(
            CstEntry::AttrpathValue { attrpath, value: Box::new(value) },
            k + 1,
            roots,
        ) == normalize_binding_spec(
            CstEntry::AttrpathValue { attrpath: attrpath.drop_first(), value: Box::new(value) },
            k,
            roots,
        ),
    decreases attrpath.len() - k,
{
    let tail = attrpath.drop_first();
    assert(tail[k as int] == attrpath[k as int + 1]);
    if k + 2 < attrpath.len() {
        lemma_binding_shift(attrpath, value, k + 1, roots);
    }
}

/// What a binding gives whose value came out as `v` and whose key is
/// `attr`.
spec fn bound_under(v: Result<ExprView, ErrorView>, attr: CstAttr, roots: Roots) -> Result<
    EntryDefsView,
    ErrorView,
> {
    match v {
        Ok(v) => match normalize_key_spec(attr, roots) {
            Ok(KeyView::Static(name)) => Ok(
                EntryDefsView::Static(seq![AttrDefView { name, inherited: false, expr: v }]),
            ),
            Ok(KeyView::Dynamic(name_expr)) => Ok(
                EntryDefsView::Dynamic(DynamicAttrDefView { name_expr, value_expr: v }),
            ),
            Err(e) => Err(e),
        },
        Err(e) => Err(e),
    }
}

/// The attribute set that holds what one entry gave.
spec fn set_of_one(inner: Result<EntryDefsView, ErrorView>) -> Result<ExprView, ErrorView> {
    match inner {
        Ok(d) => attrs_of_defs(false, seq![d]),
        Err(e) => Err(e),
    }
}

proof fn lemma_binding_of_last_step(attrpath: Seq<CstAttr>, value: Cst, roots: Roots)
    requires
        attrpath.len() == 1,
    ensures
        normalize_entry_spec(CstEntry::AttrpathValue { attrpath, value: Box::new(value) }, roots)
            == bound_under(normalize_spec(value, roots), attrpath[0], roots),
{
    let entry = CstEntry::AttrpathValue { attrpath, value: Box::new(value) };
    assert(normalize_entry_spec(entry, roots) == normalize_binding_spec(entry, 0, roots));
}

proof fn lemma_binding_of_first_step(attrpath: Seq<CstAttr>, value: Cst, roots: Roots)
    requires
        attrpath.len() >= 2,
    ensures
        normalize_entry_spec(CstEntry::AttrpathValue { attrpath, value: Box::new(value) }, roots)
            == bound_under(
            set_of_one(
                normalize_binding_spec(
                    CstEntry::AttrpathValue { attrpath, value: Box::new(value) },
                    1,
                    roots,
                ),
            ),
            attrpath[0],
            roots,
        ),
{
    let entry = CstEntry::AttrpathValue { attrpath, value: Box::new(value) };
    assert(normalize_entry_spec(entry, roots) == normalize_binding_spec(entry, 0, roots));
}

proof fn lemma_entries_of_one(entry: CstEntry, roots: Roots)
    ensures
        normalize_entries_spec(seq![entry], roots) == match normalize_entry_spec(entry, roots) {
            Ok(d) => Ok::<Seq<EntryDefsView>, ErrorView>(seq![d]),
            Err(e) => Err::<Seq<EntryDefsView>, ErrorView>(e),
        },
{
    let entries = seq![entry];
    let none = Seq::<CstEntry>::empty();
    assert(entries.drop_last() =~= none);
    assert(entries.last() == entry);
    assert(normalize_entries_spec(none, roots) == Ok::<Seq<EntryDefsView>, ErrorView>(
        Seq::empty(),
    ));
    match normalize_entry_spec(entry, roots) {
        Ok(d) => {
            assert(Seq::<EntryDefsView>::empty().push(d) =~= seq![d]);
        },
        Err(e) => {},
    }
}

proof fn lemma_attr_set_of_one(entry: CstEntry, roots: Roots)
    ensures
        normalize_attr_set_spec(seq![entry], false, roots) == set_of_one(
            normalize_entry_spec(entry, roots),
        ),
{
    lemma_entries_of_one(entry, roots);
}

proof fn lemma_set_of_one_entry(entry: CstEntry, roots: Roots)
    ensures
        normalize_spec(Cst::AttrSet { entries: seq![entry], recursive: false }, roots)
            == set_of_one(normalize_entry_spec(entry, roots)),
{
    lemma_attr_set_of_one(entry, roots);
}

/// A binding under a path of several steps gives what the binding under
/// the first step gives whose value is the attribute set that holds the
/// binding under the steps that are left: `x.y.z = v` stands for
/// `x = { y.z = v; }`.
pub proof fn lemma_compound_binding_desugars(attrpath: Seq<CstAttr>, value: Cst, roots: Roots)
    requires
        attrpath.len() >= 2,
    ensures
        normalize_entry_spec(CstEntry::AttrpathValue { attrpath, value: Box::new(value) }, roots)
            == normalize_entry_spec(
            CstEntry::AttrpathValue {
                attrpath: seq![attrpath[0]],
                value: Box::new(
                    Cst::AttrSet {
                        entries: seq![
                            CstEntry::AttrpathValue {
                                attrpath: attrpath.drop_first(),
                                value: Box::new(value),
                            },
                        ],
                        recursive: false,
                    },
                ),
            },
            roots,
        ),
{
    let whole = CstEntry::AttrpathValue { attrpath, value: Box::new(value) };
    let rest = CstEntry::AttrpathValue { attrpath: attrpath.drop_first(), value: Box::new(value) };
    let inner_set = Cst::AttrSet { entries: seq![rest], recursive: false };
    lemma_binding_shift(attrpath, value, 0, roots);
    assert(normalize_binding_spec(whole, 1, roots) == normalize_entry_spec(rest, roots));
    lemma_binding_of_first_step(attrpath, value, roots);
    lemma_set_of_one_entry(rest, roots);
    lemma_binding_of_last_step(seq![attrpath[0]], inner_set, roots);
}

/// What a path literal resolves to, by its anchor. An absolute literal
/// gives a canonical path that starts with a slash. A relative literal
/// gives a canonical path, which starts with a slash if the base directory
/// does or is empty. A literal under the home directory gives a path that
/// starts with the home directory and a slash. A literal in angle brackets
/// gives a call.
pub proof fn lemma_path_literal_anchored(text: Seq<char>, roots: Roots)
    requires
        store_literal_closed(text),
    ensures
        match parse_path_spec(text).0 {
            Anchor::Absolute => {
                &&& normalize_path_literal_spec(text, roots) matches Ok(ExprView::Path(p))
                &&& canonicalize_spec(p) == p
                &&& is_absolute(p)
            },
            Anchor::Relative => {
                &&& normalize_path_literal_spec(text, roots) matches Ok(ExprView::Path(p))
                &&& canonicalize_spec(p) == p
                &&& (roots.base.len() == 0 || is_absolute(roots.base) ==> is_absolute(p))
            },
            Anchor::Home => {
                &&& normalize_path_literal_spec(text, roots) matches Ok(ExprView::Path(p))
                &&& starts_with(p, roots.home + seq!['/'])
            },
            Anchor::Store => normalize_path_literal_spec(text, roots) matches Ok(
                ExprView::Call { .. },
            ),
        },
{
    let (anchor, rest) = parse_path_spec(text);
    match anchor {
        Anchor::Absolute => {
            lemma_canonicalize_idempotent(rest);
            lemma_canonicalize_keeps_absolute(rest);
        },
        Anchor::Relative => {
            let q = roots.base + seq!['/'] + rest;
            lemma_canonicalize_idempotent(q);
            if roots.base.len() == 0 || is_absolute(roots.base) {
                lemma_canonicalize_keeps_absolute(q);
            }
        },
        Anchor::Home => {
            let prefix = roots.home + seq!['/'];
            let p = prefix + rest;
            assert(p.take(prefix.len() as int) =~= prefix);
        },
        Anchor::Store => {},
    }
}

} // verus!
