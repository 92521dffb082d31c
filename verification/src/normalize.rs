//! Bringing a concrete syntax tree into canonical form.

use crate::error::{Defect, ErrorView, NodeKind, NormalizeError};
use crate::merge::{merge_attrs, merge_attrs_spec};
use crate::normal_ast::{
    attr_defs_view, attr_names_view, dynamic_attr_defs_view, exprs_view, formal_pairs_view,
    formal_index, lemma_formal_index_is, lemma_put_formal_distinct, pair_names_distinct,
    put_formal, AttrDef, AttrDefView, AttrName,
    AttrNameView, DynamicAttrDef, DynamicAttrDefView, ExprView, Formal, Formals, FormalsView,
    NormalNixExpr,
};
use crate::normalize_laws::{
    admitted, basic_rules, lemma_normalize_well_formed, lemma_normalized_keeps_basic_rules,
};
use crate::path::{canonicalize, canonicalize_spec};
use crate::rnix_ast::{
    attrs_view, cst_view, csts_view, entries_view, entry_view, idents_view, optional_view,
    part_view, parts_view, pat_entries_view, pat_entry_view, Apply, Assert, Attr, AttrSet,
    Attrpath, AttrpathValue, BinOp, BinOpKind, Cst, CstAttr, CstEntry, CstParam, CstPart,
    CstPatEntry, Entry, HasAttr, Ident, IfElse, Inherit, InterpolPart, Lambda, LegacyLet, LetIn,
    List, Literal, LiteralKind, Param, Paren, PatEntry, Path, RNixExpr, Root, Select, Str,
    UnaryOp, UnaryOpKind, With,
};
use crate::text::concatenate;
use crate::value::{
    is_store_literal_closed, parse_path, parse_path_spec, store_literal_closed, Anchor,
};
use crate::well_formed::{well_formed, Rules};
use itertools::{Either, Itertools};
use vstd::prelude::*;

verus! {

/// The two directories that path literals are resolved against.
pub struct Roots {
    /// The directory that relative paths start from.
    pub base: Seq<char>,
    /// The directory that `~/` stands for.
    pub home: Seq<char>,
}

/// What one step of an attribute path turns out to be: a name that the text
/// fixes, or an expression.
pub enum KeyView {
    Static(Seq<char>),
    Dynamic(ExprView),
}

/// What one entry of an attribute set gives: bindings under fixed names, or
/// one binding under a computed name.
pub enum EntryDefsView {
    Static(Seq<AttrDefView>),
    Dynamic(DynamicAttrDefView),
}

/// The call of the builtin `name` with the arguments `args`.
pub open spec fn builtin_call(name: Seq<char>, args: Seq<ExprView>) -> ExprView {
    ExprView::Call { fun: Box::new(ExprView::Var(name)), args }
}

/// The canonical form of a unary operation on the canonical form `e` of its
/// operand: negation is subtraction from zero.
pub open spec fn unary_op_spec(operator: UnaryOpKind, e: ExprView) -> ExprView {
    match operator {
        UnaryOpKind::Invert => ExprView::OpNot(Box::new(e)),
        UnaryOpKind::Negate => builtin_call("__sub"@, seq![ExprView::Int(0), e]),
    }
}

/// The canonical form of a binary operation on the canonical forms `l` and
/// `r` of its operands. Arithmetic and comparison become calls of builtins;
/// `>` and `<=` swap the operands of `__lessThan`, and `<=` and `>=` negate
/// it; addition is a concatenation that does not force strings.
pub open spec fn bin_op_spec(operator: BinOpKind, l: ExprView, r: ExprView) -> ExprView {
    match operator {
        BinOpKind::Concat => ExprView::OpConcatLists(Box::new(l), Box::new(r)),
        BinOpKind::Update => ExprView::OpUpdate(Box::new(l), Box::new(r)),
        BinOpKind::Add => ExprView::OpConcatStrings { force_string: false, es: seq![l, r] },
        BinOpKind::Sub => builtin_call("__sub"@, seq![l, r]),
        BinOpKind::Mul => builtin_call("__mul"@, seq![l, r]),
        BinOpKind::Div => builtin_call("__div"@, seq![l, r]),
        BinOpKind::And => ExprView::OpAnd(Box::new(l), Box::new(r)),
        BinOpKind::Equal => ExprView::OpEq(Box::new(l), Box::new(r)),
        BinOpKind::Implication => ExprView::OpImpl(Box::new(l), Box::new(r)),
        BinOpKind::Less => builtin_call("__lessThan"@, seq![l, r]),
        BinOpKind::LessOrEq => ExprView::OpNot(
            Box::new(builtin_call("__lessThan"@, seq![r, l])),
        ),
        BinOpKind::More => builtin_call("__lessThan"@, seq![r, l]),
        BinOpKind::MoreOrEq => ExprView::OpNot(
            Box::new(builtin_call("__lessThan"@, seq![l, r])),
        ),
        BinOpKind::NotEqual => ExprView::OpNEq(Box::new(l), Box::new(r)),
        BinOpKind::Or => ExprView::OpOr(Box::new(l), Box::new(r)),
    }
}

/// The canonical form of the application of `f` to `a`: where `f` is itself
/// a call, `a` joins its arguments, so that no call has a call as its
/// function.
pub open spec fn apply_spec(f: ExprView, a: ExprView) -> ExprView {
    match f {
        ExprView::Call { fun, args } => ExprView::Call { fun, args: args.push(a) },
        _ => ExprView::Call { fun: Box::new(f), args: seq![a] },
    }
}

/// The canonical form of the path literal `text`: a lookup on the search
/// path for `<...>`, the home directory followed by the rest for `~/...`,
/// and the canonical path for the others, relative ones taken from the base
/// directory.
pub open spec fn normalize_path_literal_spec(text: Seq<char>, roots: Roots) -> Result<
    ExprView,
    ErrorView,
> {
    if !store_literal_closed(text) {
        Err(ErrorView::Malformed { node: NodeKind::Path, defect: Defect::UnclosedSearchPath })
    } else {
        let (anchor, rest) = parse_path_spec(text);
        match anchor {
            Anchor::Absolute => Ok(ExprView::Path(canonicalize_spec(rest))),
            Anchor::Relative => Ok(ExprView::Path(canonicalize_spec(roots.base + seq!['/'] + rest))),
            Anchor::Home => Ok(ExprView::Path(roots.home + seq!['/'] + rest)),
            Anchor::Store => Ok(
                builtin_call("__findFile"@, seq![ExprView::Var("__nixPath"@), ExprView::String(rest)]),
            ),
        }
    }
}

/// Whether one of `parts` is an interpolation.
pub open spec fn has_interpolation(parts: Seq<CstPart>) -> bool {
    exists|i: int| 0 <= i < parts.len() && parts[i] is Interpolation
}

/// The name that an attribute path step of kind `key` is written as.
pub open spec fn attr_name_of(key: KeyView) -> AttrNameView {
    match key {
        KeyView::Static(name) => AttrNameView::Symbol(name),
        KeyView::Dynamic(e) => AttrNameView::Expr(e),
    }
}

/// A value in the place of a key: a plain string is a fixed name, anything
/// else is computed.
pub open spec fn key_of(e: ExprView) -> KeyView {
    match e {
        ExprView::String(s) => KeyView::Static(s),
        _ => KeyView::Dynamic(e),
    }
}

/// The binding that `inherit name;` or `inherit (from) name;` makes.
pub open spec fn inherit_def(from: Option<ExprView>, name: Seq<char>) -> AttrDefView {
    match from {
        Some(subject) => AttrDefView {
            name,
            inherited: false,
            expr: ExprView::Select {
                subject: Box::new(subject),
                or_default: None,
                path: seq![AttrNameView::Symbol(name)],
            },
        },
        None => AttrDefView { name, inherited: true, expr: ExprView::Var(name) },
    }
}

/// The bindings that an `inherit` with the names `idents` makes, one for
/// each name, in order.
pub open spec fn inherit_defs(from: Option<ExprView>, idents: Seq<Seq<char>>) -> Seq<AttrDefView> {
    Seq::new(idents.len(), |i: int| inherit_def(from, idents[i]))
}

/// The bindings under fixed names that the entries give, in order.
pub open spec fn static_defs(defs: Seq<EntryDefsView>) -> Seq<AttrDefView>
    decreases defs.len(),
{
    if defs.len() == 0 {
        Seq::empty()
    } else {
        match defs.last() {
            EntryDefsView::Static(ds) => static_defs(defs.drop_last()) + ds,
            EntryDefsView::Dynamic(_) => static_defs(defs.drop_last()),
        }
    }
}

/// The bindings under computed names that the entries give, in order.
pub open spec fn dynamic_defs(defs: Seq<EntryDefsView>) -> Seq<DynamicAttrDefView>
    decreases defs.len(),
{
    if defs.len() == 0 {
        Seq::empty()
    } else {
        match defs.last() {
            EntryDefsView::Static(_) => dynamic_defs(defs.drop_last()),
            EntryDefsView::Dynamic(d) => dynamic_defs(defs.drop_last()).push(d),
        }
    }
}

/// The attribute set that holds what the entries give: the bindings under
/// fixed names merged and in the order of their names, those under computed
/// names as they come.
pub open spec fn attrs_of_defs(recursive: bool, defs: Seq<EntryDefsView>) -> Result<
    ExprView,
    ErrorView,
> {
    match merge_attrs_spec(static_defs(defs), Seq::empty()) {
        Ok(attrs) => Ok(
            ExprView::Attrs { rec: recursive, attrs, dynamic_attrs: dynamic_defs(defs) },
        ),
        Err(e) => Err(e),
    }
}

/// The canonical form of the tree `e`, or the first failure met on the way,
/// children taken from left to right.
pub open spec fn normalize_spec(e: Cst, roots: Roots) -> Result<ExprView, ErrorView>
    decreases e, 0nat,
{
    match e {
        Cst::Root { expr } => normalize_spec(*expr, roots),
        Cst::Paren { expr } => normalize_spec(*expr, roots),
        Cst::Ident { name } => Ok(ExprView::Var(name)),
        Cst::Integer(n) => Ok(ExprView::Int(n)),
        Cst::Float(bits) => Ok(ExprView::Float(bits)),
        Cst::Uri(s) => Ok(ExprView::String(s)),
        Cst::Str { parts } => normalize_str_spec(parts, roots),
        Cst::Path { parts } => normalize_path_spec(parts, roots),
        Cst::UnaryOp { operator, expr } => match normalize_spec(*expr, roots) {
            Ok(v) => Ok(unary_op_spec(operator, v)),
            Err(e) => Err(e),
        },
        Cst::BinOp { lhs, operator, rhs } => match normalize_spec(*lhs, roots) {
            Ok(l) => match normalize_spec(*rhs, roots) {
                Ok(r) => Ok(bin_op_spec(operator, l, r)),
                Err(e) => Err(e),
            },
            Err(e) => Err(e),
        },
        Cst::Apply { lambda, argument } => match normalize_spec(*lambda, roots) {
            Ok(f) => match normalize_spec(*argument, roots) {
                Ok(a) => Ok(apply_spec(f, a)),
                Err(e) => Err(e),
            },
            Err(e) => Err(e),
        },
        Cst::Assert { condition, body } => match normalize_spec(*condition, roots) {
            Ok(c) => match normalize_spec(*body, roots) {
                Ok(b) => Ok(ExprView::Assert { cond: Box::new(c), body: Box::new(b) }),
                Err(e) => Err(e),
            },
            Err(e) => Err(e),
        },
        Cst::With { namespace, body } => match normalize_spec(*namespace, roots) {
            Ok(n) => match normalize_spec(*body, roots) {
                Ok(b) => Ok(ExprView::With { attrs: Box::new(n), body: Box::new(b) }),
                Err(e) => Err(e),
            },
            Err(e) => Err(e),
        },
        Cst::IfElse { condition, body, else_body } => match normalize_spec(*condition, roots) {
            Ok(c) => match normalize_spec(*body, roots) {
                Ok(t) => match normalize_spec(*else_body, roots) {
                    Ok(f) => Ok(
                        ExprView::If { cond: Box::new(c), then: Box::new(t), else_: Box::new(f) },
                    ),
                    Err(e) => Err(e),
                },
                Err(e) => Err(e),
            },
            Err(e) => Err(e),
        },
        Cst::List { items } => match normalize_all_spec(items, roots) {
            Ok(es) => Ok(ExprView::List(es)),
            Err(e) => Err(e),
        },
        Cst::HasAttr { expr, attrpath } => match normalize_spec(*expr, roots) {
            Ok(subject) => match normalize_attr_path_spec(attrpath, NodeKind::HasAttr, roots) {
                Ok(path) => Ok(ExprView::OpHasAttr { subject: Box::new(subject), path }),
                Err(e) => Err(e),
            },
            Err(e) => Err(e),
        },
        Cst::Select { expr, attrpath, default_expr } => match normalize_spec(*expr, roots) {
            Ok(subject) => match normalize_optional_spec(default_expr, roots) {
                Ok(or_default) => match normalize_attr_path_spec(attrpath, NodeKind::Select, roots) {
                    Ok(path) => Ok(
                        ExprView::Select { subject: Box::new(subject), or_default, path },
                    ),
                    Err(e) => Err(e),
                },
                Err(e) => Err(e),
            },
            Err(e) => Err(e),
        },
        Cst::Lambda { param, body } => match normalize_param_spec(param, roots) {
            Ok((arg, formals)) => match normalize_spec(*body, roots) {
                Ok(b) => Ok(ExprView::Lambda { arg, formals, body: Box::new(b) }),
                Err(e) => Err(e),
            },
            Err(e) => Err(e),
        },
        Cst::LegacyLet { entries } => match normalize_attr_set_spec(entries, true, roots) {
            Ok(attrs) => Ok(
                ExprView::Select {
                    subject: Box::new(attrs),
                    or_default: None,
                    path: seq![AttrNameView::Symbol("body"@)],
                },
            ),
            Err(e) => Err(e),
        },
        Cst::LetIn { entries, body } => match normalize_attr_set_spec(entries, false, roots) {
            Ok(attrs) => match normalize_spec(*body, roots) {
                Ok(b) => Ok(ExprView::Let { attrs: Box::new(attrs), body: Box::new(b) }),
                Err(e) => Err(e),
            },
            Err(e) => Err(e),
        },
        Cst::AttrSet { entries, recursive } => normalize_attr_set_spec(entries, recursive, roots),
    }
}

/// The canonical form of an optional tree.
pub open spec fn normalize_optional_spec(e: Option<Box<Cst>>, roots: Roots) -> Result<
    Option<Box<ExprView>>,
    ErrorView,
>
    decreases e, 1nat,
{
    match e {
        Some(d) => match normalize_spec(*d, roots) {
            Ok(v) => Ok(Some(Box::new(v))),
            Err(e) => Err(e),
        },
        None => Ok(None),
    }
}

/// The canonical forms of `items`, in order.
pub open spec fn normalize_all_spec(items: Seq<Cst>, roots: Roots) -> Result<
    Seq<ExprView>,
    ErrorView,
>
    decreases items, 0nat,
{
    if items.len() == 0 {
        Ok(Seq::empty())
    } else {
        match normalize_all_spec(items.drop_last(), roots) {
            Ok(es) => match normalize_spec(items.last(), roots) {
                Ok(e) => Ok(es.push(e)),
                Err(e) => Err(e),
            },
            Err(e) => Err(e),
        }
    }
}

/// The canonical form of one part of a string or path: text is a string,
/// an interpolation is the canonical form of what it holds.
pub open spec fn normalize_part_spec(part: CstPart, roots: Roots) -> Result<ExprView, ErrorView>
    decreases part, 0nat,
{
    match part {
        CstPart::Literal(s) => Ok(ExprView::String(s)),
        CstPart::Interpolation(e) => normalize_spec(*e, roots),
    }
}

/// The canonical forms of `parts`, in order.
pub open spec fn normalize_parts_spec(parts: Seq<CstPart>, roots: Roots) -> Result<
    Seq<ExprView>,
    ErrorView,
>
    decreases parts, 0nat,
{
    if parts.len() == 0 {
        Ok(Seq::empty())
    } else {
        match normalize_parts_spec(parts.drop_last(), roots) {
            Ok(es) => match normalize_part_spec(parts.last(), roots) {
                Ok(e) => Ok(es.push(e)),
                Err(e) => Err(e),
            },
            Err(e) => Err(e),
        }
    }
}

/// The canonical form of a string with the parts `parts`: a plain string
/// where there is no interpolation, else a concatenation of all parts that
/// forces strings.
pub open spec fn normalize_str_spec(parts: Seq<CstPart>, roots: Roots) -> Result<
    ExprView,
    ErrorView,
>
    decreases parts, 1nat,
{
    if has_interpolation(parts) {
        match normalize_parts_spec(parts, roots) {
            Ok(es) => Ok(ExprView::OpConcatStrings { force_string: true, es }),
            Err(e) => Err(e),
        }
    } else if parts.len() == 0 {
        Ok(ExprView::String(Seq::empty()))
    } else if parts.len() == 1 {
        Ok(ExprView::String(parts[0]->Literal_0))
    } else {
        Err(ErrorView::Malformed { node: NodeKind::Str, defect: Defect::AdjacentLiterals })
    }
}

/// The canonical form of a path with the parts `parts`: that of its one
/// literal where there is no interpolation, else a concatenation, not
/// forcing strings, of the first literal's canonical form and the parts
/// that follow.
pub open spec fn normalize_path_spec(parts: Seq<CstPart>, roots: Roots) -> Result<
    ExprView,
    ErrorView,
>
    decreases parts, 1nat,
{
    if has_interpolation(parts) {
        match parts[0] {
            CstPart::Interpolation(_) => Err(
                ErrorView::Malformed { node: NodeKind::Path, defect: Defect::LeadingInterpolation },
            ),
            CstPart::Literal(text) => match normalize_path_literal_spec(text, roots) {
                Ok(head) => match normalize_parts_spec(parts.drop_first(), roots) {
                    Ok(rest) => Ok(
                        ExprView::OpConcatStrings { force_string: false, es: seq![head] + rest },
                    ),
                    Err(e) => Err(e),
                },
                Err(e) => Err(e),
            },
        }
    } else if parts.len() == 0 {
        Err(ErrorView::Malformed { node: NodeKind::Path, defect: Defect::NoParts })
    } else if parts.len() == 1 {
        normalize_path_literal_spec(parts[0]->Literal_0, roots)
    } else {
        Err(ErrorView::Malformed { node: NodeKind::Path, defect: Defect::AdjacentLiterals })
    }
}

/// What the attribute path step `attr` turns out to be. An identifier is a
/// fixed name. A string is one if it has no interpolation, and `${e}` is
/// one if `e` is a plain string.
pub open spec fn normalize_key_spec(attr: CstAttr, roots: Roots) -> Result<KeyView, ErrorView>
    decreases attr, 0nat,
{
    match attr {
        CstAttr::Ident(name) => Ok(KeyView::Static(name)),
        CstAttr::Str(parts) => match normalize_str_spec(parts, roots) {
            Ok(e) => Ok(key_of(e)),
            Err(e) => Err(e),
        },
        CstAttr::Dynamic(e) => match normalize_spec(*e, roots) {
            Ok(e) => Ok(key_of(e)),
            Err(e) => Err(e),
        },
    }
}

/// The names that the steps `attrs` are written as, in order.
pub open spec fn normalize_keys_spec(attrs: Seq<CstAttr>, roots: Roots) -> Result<
    Seq<AttrNameView>,
    ErrorView,
>
    decreases attrs, 0nat,
{
    if attrs.len() == 0 {
        Ok(Seq::empty())
    } else {
        match normalize_keys_spec(attrs.drop_last(), roots) {
            Ok(names) => match normalize_key_spec(attrs.last(), roots) {
                Ok(key) => Ok(names.push(attr_name_of(key))),
                Err(e) => Err(e),
            },
            Err(e) => Err(e),
        }
    }
}

/// The canonical form of the attribute path `attrs` of a node of kind
/// `node`; a path without steps is malformed.
pub open spec fn normalize_attr_path_spec(attrs: Seq<CstAttr>, node: NodeKind, roots: Roots) -> Result<
    Seq<AttrNameView>,
    ErrorView,
>
    decreases attrs, 1nat,
{
    if attrs.len() == 0 {
        Err(ErrorView::Malformed { node, defect: Defect::EmptyAttrpath })
    } else {
        normalize_keys_spec(attrs, roots)
    }
}

/// The parameters of a pattern as pairs of a name and the canonical form of
/// its default, in the order in which the pattern first names them; where
/// a name stands twice, the later parameter takes the place of the earlier.
pub open spec fn normalize_formals_spec(entries: Seq<CstPatEntry>, roots: Roots) -> Result<
    Seq<(Seq<char>, Option<ExprView>)>,
    ErrorView,
>
    decreases entries, 0nat,
{
    if entries.len() == 0 {
        Ok(Seq::empty())
    } else {
        match normalize_formals_spec(entries.drop_last(), roots) {
            Ok(pairs) => match entries.last().default {
                Some(d) => match normalize_spec(d, roots) {
                    Ok(v) => Ok(put_formal(pairs, (entries.last().name, Some(v)))),
                    Err(e) => Err(e),
                },
                None => Ok(put_formal(pairs, (entries.last().name, None))),
            },
            Err(e) => Err(e),
        }
    }
}

/// The argument name and the formals of a lambda with the parameter
/// `param`.
pub open spec fn normalize_param_spec(param: CstParam, roots: Roots) -> Result<
    (Option<Seq<char>>, Option<FormalsView>),
    ErrorView,
>
    decreases param, 0nat,
{
    match param {
        CstParam::IdentParam(name) => Ok((Some(name), None)),
        CstParam::Pattern { entries, ellipsis, at } => match normalize_formals_spec(entries, roots) {
            Ok(pairs) => Ok((at, Some(FormalsView { ellipsis, entries: pairs }))),
            Err(e) => Err(e),
        },
    }
}

/// What the binding `a_k. ... .a_n = value` gives, where `a_k ... a_n` are
/// the steps of `entry`'s path from the `k`-th on: the value is that of
/// `value` for the last step, and else the attribute set that holds only
/// the binding of the steps after `a_k`; the key `a_k` decides whether the
/// binding stands under a fixed or a computed name.
pub open spec fn normalize_binding_spec(entry: CstEntry, k: nat, roots: Roots) -> Result<
    EntryDefsView,
    ErrorView,
>
    recommends
        entry is AttrpathValue,
        k < entry->attrpath.len(),
    decreases entry, entry->attrpath.len() - k,
{
    match entry {
        CstEntry::AttrpathValue { attrpath, value } if k < attrpath.len() => {
            let value = if k + 1 < attrpath.len() {
                match normalize_binding_spec(entry, k + 1, roots) {
                    Ok(inner) => attrs_of_defs(false, seq![inner]),
                    Err(e) => Err(e),
                }
            } else {
                normalize_spec(*value, roots)
            };
            match value {
                Ok(v) => match normalize_key_spec(attrpath[k as int], roots) {
                    Ok(KeyView::Static(name)) => Ok(
                        EntryDefsView::Static(seq![AttrDefView { name, inherited: false, expr: v }]),
                    ),
                    Ok(KeyView::Dynamic(name_expr)) => Ok(
                        EntryDefsView::Dynamic(DynamicAttrDefView { name_expr, value_expr: v }),
                    ),
                    Err(e) => Err(e),
                },
                Err(e) => Err(e),
            }
        },
        _ => Err(
            ErrorView::Malformed { node: NodeKind::AttrpathValue, defect: Defect::EmptyAttrpath },
        ),
    }
}

/// What one entry of an attribute set gives.
pub open spec fn normalize_entry_spec(entry: CstEntry, roots: Roots) -> Result<
    EntryDefsView,
    ErrorView,
>
    decreases entry, entry->attrpath.len() + 1,
{
    match entry {
        CstEntry::Inherit { from, idents } => match from {
            Some(e) => match normalize_spec(*e, roots) {
                Ok(subject) => Ok(EntryDefsView::Static(inherit_defs(Some(subject), idents))),
                Err(e) => Err(e),
            },
            None => Ok(EntryDefsView::Static(inherit_defs(None, idents))),
        },
        CstEntry::AttrpathValue { attrpath, value } => if attrpath.len() == 0 {
            Err(ErrorView::Malformed { node: NodeKind::AttrpathValue, defect: Defect::EmptyAttrpath })
        } else {
            normalize_binding_spec(entry, 0, roots)
        },
    }
}

/// What the entries of an attribute set give, in order.
pub open spec fn normalize_entries_spec(entries: Seq<CstEntry>, roots: Roots) -> Result<
    Seq<EntryDefsView>,
    ErrorView,
>
    decreases entries, 0nat,
{
    if entries.len() == 0 {
        Ok(Seq::empty())
    } else {
        match normalize_entries_spec(entries.drop_last(), roots) {
            Ok(defs) => match normalize_entry_spec(entries.last(), roots) {
                Ok(d) => Ok(defs.push(d)),
                Err(e) => Err(e),
            },
            Err(e) => Err(e),
        }
    }
}

/// The canonical form of the attribute set with the entries `entries`.
pub open spec fn normalize_attr_set_spec(entries: Seq<CstEntry>, recursive: bool, roots: Roots) -> Result<
    ExprView,
    ErrorView,
>
    decreases entries, 1nat,
{
    match normalize_entries_spec(entries, roots) {
        Ok(defs) => attrs_of_defs(recursive, defs),
        Err(e) => Err(e),
    }
}

/// What one step of an attribute path turns out to be.
#[derive(Debug, PartialEq)]
pub enum KeyPart {
    /// A name that the text fixes.
    Static(String),
    /// An expression that evaluation turns into a name.
    Dynamic(NormalNixExpr),
}

impl View for KeyPart {
    type V = KeyView;

    open spec fn view(&self) -> KeyView {
        match self {
            KeyPart::Static(name) => KeyView::Static(name@),
            KeyPart::Dynamic(e) => KeyView::Dynamic(e@),
        }
    }
}

/// What one entry of an attribute set gives.
#[derive(Debug, PartialEq)]
pub enum EntryDefs {
    /// Bindings under fixed names.
    Static(Vec<AttrDef>),
    /// One binding under a computed name.
    Dynamic(DynamicAttrDef),
}

impl View for EntryDefs {
    type V = EntryDefsView;

    open spec fn view(&self) -> EntryDefsView {
        match self {
            EntryDefs::Static(ds) => EntryDefsView::Static(attr_defs_view(ds@)),
            EntryDefs::Dynamic(d) => EntryDefsView::Dynamic(d@),
        }
    }
}

/// The values of what the entries gave, in order.
pub open spec fn entry_defs_view(defs: Seq<EntryDefs>) -> Seq<EntryDefsView> {
    Seq::new(defs.len(), |i: int| defs[i]@)
}

/// The values of the groups of bindings, in order.
pub open spec fn groups_view(groups: Seq<Vec<AttrDef>>) -> Seq<Seq<AttrDefView>> {
    Seq::new(groups.len(), |i: int| attr_defs_view(groups[i]@))
}

/// The groups of bindings under fixed names that the entries give, one for
/// each entry that gives such bindings, in order.
pub open spec fn static_groups(defs: Seq<EntryDefsView>) -> Seq<Seq<AttrDefView>>
    decreases defs.len(),
{
    if defs.len() == 0 {
        Seq::empty()
    } else {
        match defs.last() {
            EntryDefsView::Static(ds) => static_groups(defs.drop_last()).push(ds),
            EntryDefsView::Dynamic(_) => static_groups(defs.drop_last()),
        }
    }
}

/// The groups one after the other.
pub open spec fn concat_groups(groups: Seq<Seq<AttrDefView>>) -> Seq<AttrDefView>
    decreases groups.len(),
{
    if groups.len() == 0 {
        Seq::empty()
    } else {
        concat_groups(groups.drop_last()) + groups.last()
    }
}

proof fn lemma_concat_static_groups(defs: Seq<EntryDefsView>)
    ensures
        concat_groups(static_groups(defs)) == static_defs(defs),
    decreases defs.len(),
{
    if defs.len() > 0 {
        lemma_concat_static_groups(defs.drop_last());
        match defs.last() {
            EntryDefsView::Static(ds) => {
                let groups = static_groups(defs.drop_last());
                assert(groups.push(ds).drop_last() =~= groups);
            },
            EntryDefsView::Dynamic(_) => {},
        }
    }
}

/// The value of an expression or a failure.
pub open spec fn expr_result_view(r: Result<NormalNixExpr, NormalizeError>) -> Result<
    ExprView,
    ErrorView,
> {
    match r {
        Ok(e) => Ok(e@),
        Err(e) => Err(e@),
    }
}

/// The value of a boxed expression or a failure.
pub open spec fn boxed_result_view(r: Result<Box<NormalNixExpr>, NormalizeError>) -> Result<
    ExprView,
    ErrorView,
> {
    match r {
        Ok(e) => Ok(e@),
        Err(e) => Err(e@),
    }
}

/// The value of a sequence of expressions or a failure.
pub open spec fn exprs_result_view(r: Result<Vec<NormalNixExpr>, NormalizeError>) -> Result<
    Seq<ExprView>,
    ErrorView,
> {
    match r {
        Ok(es) => Ok(exprs_view(es@)),
        Err(e) => Err(e@),
    }
}

/// The value of a key or a failure.
pub open spec fn key_result_view(r: Result<KeyPart, NormalizeError>) -> Result<KeyView, ErrorView> {
    match r {
        Ok(k) => Ok(k@),
        Err(e) => Err(e@),
    }
}

/// The value of an attribute path or a failure.
pub open spec fn names_result_view(r: Result<Vec<AttrName>, NormalizeError>) -> Result<
    Seq<AttrNameView>,
    ErrorView,
> {
    match r {
        Ok(ns) => Ok(attr_names_view(ns@)),
        Err(e) => Err(e@),
    }
}

/// The value of what an entry gave, or of a failure.
pub open spec fn entry_result_view(r: Result<EntryDefs, NormalizeError>) -> Result<
    EntryDefsView,
    ErrorView,
> {
    match r {
        Ok(d) => Ok(d@),
        Err(e) => Err(e@),
    }
}

/// The value of an optional boxed expression.
pub open spec fn optional_expr_view(e: Option<Box<NormalNixExpr>>) -> Option<Box<ExprView>> {
    match e {
        Some(b) => Some(Box::new(b@)),
        None => None,
    }
}

/// The value of an optional expression.
pub open spec fn plain_optional_view(e: Option<NormalNixExpr>) -> Option<ExprView> {
    match e {
        Some(e) => Some(e@),
        None => None,
    }
}

/// The value of an argument name with formals, or of a failure.
pub open spec fn param_result_view(
    r: Result<(Option<String>, Option<Formals>), NormalizeError>,
) -> Result<(Option<Seq<char>>, Option<FormalsView>), ErrorView> {
    match r {
        Ok((arg, formals)) => Ok(
            (
                match arg {
                    Some(a) => Some(a@),
                    None => None,
                },
                match formals {
                    Some(f) => Some(f@),
                    None => None,
                },
            ),
        ),
        Err(e) => Err(e@),
    }
}

/// `Itertools::partition_map`: the bindings under fixed names go to the
/// first collection, group by group, and those under computed names to the
/// second, each side in the order in which the entries came.
#[verifier::external_body]
fn partition_entry_defs(defs: Vec<EntryDefs>) -> (out: (Vec<Vec<AttrDef>>, Vec<DynamicAttrDef>))
    ensures
        groups_view(out.0@) == static_groups(entry_defs_view(defs@)),
        dynamic_attr_defs_view(out.1@) == dynamic_defs(entry_defs_view(defs@)),
{
    defs.into_iter().partition_map(
        |d| match d {
            EntryDefs::Static(ds) => Either::Left(ds),
            EntryDefs::Dynamic(d) => Either::Right(d),
        },
    )
}

fn flatten_groups(groups: Vec<Vec<AttrDef>>) -> (out: Vec<AttrDef>)
    ensures
        attr_defs_view(out@) == concat_groups(groups_view(groups@)),
{
    let mut out: Vec<AttrDef> = Vec::new();
    let ghost all = groups_view(groups@);
    for group in it: groups
        invariant
            it.seq() == groups@,
            all == groups_view(groups@),
            attr_defs_view(out@) == concat_groups(all.take(it.index() as int)),
    {
        let ghost before = attr_defs_view(out@);
        let mut group = group;
        let ghost added = attr_defs_view(group@);
        proof {
            let k = it.index() as int;
            assert(all.take(k + 1).drop_last() =~= all.take(k));
            assert(all.take(k + 1).last() == added);
        }
        out.append(&mut group);
        assert(attr_defs_view(out@) =~= before + added);
    }
    assert(all.take(all.len() as int) =~= all);
    out
}

/// The attribute set that holds what the entries gave.
pub fn build_attrs(recursive: bool, defs: Vec<EntryDefs>) -> (r: Result<
    NormalNixExpr,
    NormalizeError,
>)
    ensures
        expr_result_view(r) == attrs_of_defs(recursive, entry_defs_view(defs@)),
{
    proof {
        lemma_concat_static_groups(entry_defs_view(defs@));
    }
    let (groups, dynamic_attrs) = partition_entry_defs(defs);
    let gathered = flatten_groups(groups);
    let empty: Vec<AttrDef> = Vec::new();
    assert(attr_defs_view(empty@) =~= Seq::<AttrDefView>::empty());
    match merge_attrs(gathered, empty) {
        Ok(attrs) => Ok(NormalNixExpr::Attrs { rec: recursive, attrs, dynamic_attrs }),
        Err(e) => Err(e),
    }
}

fn one(a: NormalNixExpr) -> (v: Vec<NormalNixExpr>)
    ensures
        exprs_view(v@) == seq![a@],
{
    let mut v: Vec<NormalNixExpr> = Vec::new();
    v.push(a);
    assert(exprs_view(v@) =~= seq![a@]);
    v
}

fn two(a: NormalNixExpr, b: NormalNixExpr) -> (v: Vec<NormalNixExpr>)
    ensures
        exprs_view(v@) == seq![a@, b@],
{
    let mut v: Vec<NormalNixExpr> = Vec::new();
    v.push(a);
    v.push(b);
    assert(exprs_view(v@) =~= seq![a@, b@]);
    v
}

fn call_builtin(name: &str, args: Vec<NormalNixExpr>) -> (e: NormalNixExpr)
    ensures
        e@ == builtin_call(name@, exprs_view(args@)),
{
    let fun = NormalNixExpr::Var(name.to_owned());
    assert(fun@ == ExprView::Var(name@));
    NormalNixExpr::Call { fun: Box::new(fun), args }
}

fn any_interpolation(parts: &Vec<InterpolPart>) -> (found: bool)
    ensures
        found == has_interpolation(parts_view(parts@)),
        found ==> parts.len() > 0,
{
    let mut i: usize = 0;
    while i < parts.len()
        invariant
            i <= parts.len(),
            forall|j: int| 0 <= j < i ==> !(#[trigger] parts_view(parts@)[j] is Interpolation),
        decreases parts.len() - i,
    {
        match &parts[i] {
            InterpolPart::Interpolation(_) => {
                assert(parts_view(parts@)[i as int] is Interpolation);
                return true;
            },
            InterpolPart::Literal(_) => {},
        }
        i = i + 1;
    }
    false
}

/// The place of the first entry of `name` in `entries`, or the length of
/// `entries` if there is none.
fn formal_position(entries: &Vec<(String, Formal)>, name: &String) -> (i: usize)
    ensures
        i == formal_index(formal_pairs_view(entries@), name@),
        i <= entries.len(),
{
    let mut i: usize = 0;
    while i < entries.len()
        invariant
            i <= entries.len(),
            forall|j: int| 0 <= j < i ==> (#[trigger] formal_pairs_view(entries@)[j]).0 != name@,
        decreases entries.len() - i,
    {
        if entries[i].0 == *name {
            proof {
                lemma_formal_index_is(formal_pairs_view(entries@), name@, i as int);
            }
            return i;
        }
        i = i + 1;
    }
    proof {
        lemma_formal_index_is(formal_pairs_view(entries@), name@, i as int);
    }
    i
}

/// Puts the parameter `name` into `entries`: in the place of the first
/// entry of the same name where there is one, at the end where there is
/// none.
fn insert_formal(entries: &mut Vec<(String, Formal)>, name: String, formal: Formal)
    ensures
        formal_pairs_view(final(entries)@) == put_formal(
            formal_pairs_view(old(entries)@),
            (name@, formal@),
        ),
{
    let ghost before = formal_pairs_view(entries@);
    let i = formal_position(entries, &name);
    if i < entries.len() {
        entries.remove(i);
        entries.insert(i, (name, formal));
        assert(formal_pairs_view(entries@) =~= before.update(i as int, (name@, formal@)));
    } else {
        entries.push((name, formal));
        assert(formal_pairs_view(entries@) =~= before.push((name@, formal@)));
    }
}

/// Brings trees into canonical form, resolving path literals against the
/// two directories it holds.
pub struct Normalizer {
    /// The directory that relative paths start from.
    pub base_path: String,
    /// The directory that `~/` stands for.
    pub home_path: String,
}

impl View for Normalizer {
    type V = Roots;

    open spec fn view(&self) -> Roots {
        Roots { base: self.base_path@, home: self.home_path@ }
    }
}

/// Whether `r` is what normalization owes for the tree `expr` and the two
/// directories: the canonical form of the tree, or the first failure.
pub open spec fn normalizes_to(
    expr: RNixExpr,
    base_path: String,
    home_path: String,
    r: Result<NormalNixExpr, NormalizeError>,
) -> bool {
    expr_result_view(r) == normalize_spec(expr@, Roots { base: base_path@, home: home_path@ })
}

/// Brings the tree `expr` into canonical form, or reports the first failure
/// met on the way. Relative path literals are resolved against `base_path`,
/// and those that start with `~/` against `home_path`. The result keeps the
/// basic rules of canonical trees, and each further rule under which `expr`
/// is admitted.
pub fn normalize_nix_expr(expr: RNixExpr, base_path: String, home_path: String) -> (r: Result<
    NormalNixExpr,
    NormalizeError,
>)
    ensures
        normalizes_to(expr, base_path, home_path, r),
        r matches Ok(e) ==> well_formed(e@, basic_rules()),
        r matches Ok(e) ==> forall|rules: Rules| #[trigger]
            admitted(expr@, rules, Roots { base: base_path@, home: home_path@ }) ==> well_formed(
                e@,
                rules,
            ),
{
    proof {
        let roots = Roots { base: base_path@, home: home_path@ };
        if normalize_spec(expr@, roots) is Ok {
            lemma_normalized_keeps_basic_rules(expr@, roots);
            assert forall|rules: Rules| #[trigger] admitted(expr@, rules, roots) implies well_formed(
                normalize_spec(expr@, roots)->Ok_0,
                rules,
            ) by {
                lemma_normalize_well_formed(expr@, rules, roots);
            }
        }
    }
    Normalizer { base_path, home_path }.normalize(&expr)
}

impl Normalizer {
    /// The canonical form of `expr`.
    pub fn normalize(&self, expr: &RNixExpr) -> (r: Result<NormalNixExpr, NormalizeError>)
        ensures
            expr_result_view(r) == normalize_spec(expr@, self@),
            r matches Ok(e) ==> well_formed(e@, basic_rules()),
        decreases expr, 0nat,
    {
        proof {
            if normalize_spec(expr@, self@) is Ok {
                lemma_normalized_keeps_basic_rules(expr@, self@);
            }
        }
        match expr {
            RNixExpr::Apply(apply) => self.normalize_apply(apply),
            RNixExpr::Assert(assert) => self.normalize_assert(assert),
            RNixExpr::Ident(ident) => Ok(self.normalize_ident(ident)),
            RNixExpr::IfElse(if_else) => self.normalize_if_else(if_else),
            RNixExpr::Select(select) => self.normalize_select(select),
            RNixExpr::Str(str) => self.normalize_str(str),
            RNixExpr::Path(path) => self.normalize_path(path),
            RNixExpr::Lambda(lambda) => self.normalize_lambda(lambda),
            RNixExpr::LegacyLet(legacy_let) => self.normalize_legacy_let(legacy_let),
            RNixExpr::LetIn(let_in) => self.normalize_let_in(let_in),
            RNixExpr::List(list) => self.normalize_list(list),
            RNixExpr::BinOp(bin_op) => self.normalize_bin_op(bin_op),
            RNixExpr::Paren(paren) => self.normalize_paren(paren),
            RNixExpr::Root(root) => self.normalize_root(root),
            RNixExpr::AttrSet(attr_set) => self.normalize_attr_set(attr_set),
            RNixExpr::UnaryOp(unary_op) => self.normalize_unary_op(unary_op),
            RNixExpr::Literal(literal) => Ok(self.normalize_literal(literal)),
            RNixExpr::With(with) => self.normalize_with(with),
            RNixExpr::HasAttr(has_attr) => self.normalize_has_attr(has_attr),
        }
    }

    /// The canonical form of `expr`, boxed.
    pub fn boxed_normalize(&self, expr: &RNixExpr) -> (r: Result<
        Box<NormalNixExpr>,
        NormalizeError,
    >)
        ensures
            boxed_result_view(r) == normalize_spec(expr@, self@),
        decreases expr, 1nat,
    {
        match self.normalize(expr) {
            Ok(e) => Ok(Box::new(e)),
            Err(e) => Err(e),
        }
    }

    /// Flattens an application: where the function is itself a call, the
    /// argument joins that call's arguments.
    pub fn normalize_apply(&self, apply: &Apply) -> (r: Result<NormalNixExpr, NormalizeError>)
        ensures
            expr_result_view(r) == normalize_spec(cst_view(RNixExpr::Apply(*apply)), self@),
        decreases apply, 0nat,
    {
        let fun = match self.normalize(&apply.lambda) {
            Ok(e) => e,
            Err(e) => return Err(e),
        };
        let last_arg = match self.normalize(&apply.argument) {
            Ok(e) => e,
            Err(e) => return Err(e),
        };
        match fun {
            NormalNixExpr::Call { fun: inner_fun, args: inner_args } => {
                let mut args = inner_args;
                args.push(last_arg);
                assert(exprs_view(args@) =~= exprs_view(inner_args@).push(last_arg@));
                Ok(NormalNixExpr::Call { fun: inner_fun, args })
            },
            other => Ok(NormalNixExpr::Call { fun: Box::new(other), args: one(last_arg) }),
        }
    }

    /// An assertion keeps its shape.
    pub fn normalize_assert(&self, assert: &Assert) -> (r: Result<NormalNixExpr, NormalizeError>)
        ensures
            expr_result_view(r) == normalize_spec(cst_view(RNixExpr::Assert(*assert)), self@),
        decreases assert, 0nat,
    {
        let cond = match self.boxed_normalize(&assert.condition) {
            Ok(e) => e,
            Err(e) => return Err(e),
        };
        let body = match self.boxed_normalize(&assert.body) {
            Ok(e) => e,
            Err(e) => return Err(e),
        };
        Ok(NormalNixExpr::Assert { cond, body })
    }

    /// An identifier is a variable.
    pub fn normalize_ident(&self, ident: &Ident) -> (r: NormalNixExpr)
        ensures
            Ok::<ExprView, ErrorView>(r@) == normalize_spec(cst_view(RNixExpr::Ident(*ident)), self@),
    {
        NormalNixExpr::Var(ident.inner.clone())
    }

    /// A conditional keeps its shape.
    pub fn normalize_if_else(&self, if_else: &IfElse) -> (r: Result<NormalNixExpr, NormalizeError>)
        ensures
            expr_result_view(r) == normalize_spec(cst_view(RNixExpr::IfElse(*if_else)), self@),
        decreases if_else, 0nat,
    {
        let cond = match self.boxed_normalize(&if_else.condition) {
            Ok(e) => e,
            Err(e) => return Err(e),
        };
        let then = match self.boxed_normalize(&if_else.body) {
            Ok(e) => e,
            Err(e) => return Err(e),
        };
        let else_ = match self.boxed_normalize(&if_else.else_body) {
            Ok(e) => e,
            Err(e) => return Err(e),
        };
        Ok(NormalNixExpr::If { cond, then, else_ })
    }

    /// A selection keeps its whole path and takes its default, if it has
    /// one, into the same node.
    pub fn normalize_select(&self, select: &Select) -> (r: Result<NormalNixExpr, NormalizeError>)
        ensures
            expr_result_view(r) == normalize_spec(cst_view(RNixExpr::Select(*select)), self@),
        decreases select, 0nat,
    {
        let subject = match self.boxed_normalize(&select.expr) {
            Ok(e) => e,
            Err(e) => return Err(e),
        };
        let or_default = match self.normalize_optional(&select.default_expr) {
            Ok(e) => e,
            Err(e) => return Err(e),
        };
        let path = match self.normalize_attr_path(&select.attrpath, NodeKind::Select) {
            Ok(p) => p,
            Err(e) => return Err(e),
        };
        Ok(NormalNixExpr::Select { subject, or_default, path })
    }

    /// The canonical form of an optional tree.
    pub fn normalize_optional(&self, expr: &Option<Box<RNixExpr>>) -> (r: Result<
        Option<Box<NormalNixExpr>>,
        NormalizeError,
    >)
        ensures
            match r {
                Ok(e) => Ok::<Option<Box<ExprView>>, ErrorView>(optional_expr_view(e)),
                Err(e) => Err::<Option<Box<ExprView>>, ErrorView>(e@),
            } == normalize_optional_spec(optional_view(*expr), self@),
        decreases expr, 2nat,
    {
        match expr {
            Some(e) => match self.boxed_normalize(e) {
                Ok(e) => Ok(Some(e)),
                Err(e) => Err(e),
            },
            None => Ok(None),
        }
    }

    /// The parameters of a pattern with their defaults, in the order in
    /// which the pattern first names them. Where a name stands twice in the
    /// pattern, the later parameter takes the place of the earlier.
    pub fn normalize_formals(&self, pat_entries: &Vec<PatEntry>) -> (r: Result<
        Vec<(String, Formal)>,
        NormalizeError,
    >)
        ensures
            match r {
                Ok(entries) => Ok::<Seq<(Seq<char>, Option<ExprView>)>, ErrorView>(
                    formal_pairs_view(entries@),
                ),
                Err(e) => Err::<Seq<(Seq<char>, Option<ExprView>)>, ErrorView>(e@),
            } == normalize_formals_spec(pat_entries_view(pat_entries@), self@),
            r matches Ok(entries) ==> pair_names_distinct(formal_pairs_view(entries@)),
        decreases pat_entries, 0nat,
    {
        let mut entries: Vec<(String, Formal)> = Vec::new();
        let mut i: usize = 0;
        let ghost all = pat_entries_view(pat_entries@);
        assert(all.take(0) =~= Seq::<CstPatEntry>::empty());
        assert(formal_pairs_view(entries@) =~= Seq::<(Seq<char>, Option<ExprView>)>::empty());
        while i < pat_entries.len()
            invariant
                i <= pat_entries.len(),
                all == pat_entries_view(pat_entries@),
                normalize_formals_spec(all.take(i as int), self@) == Ok::<
                    Seq<(Seq<char>, Option<ExprView>)>,
                    ErrorView,
                >(formal_pairs_view(entries@)),
            decreases pat_entries.len() - i,
        {
            let entry = &pat_entries[i];
            proof {
                assert(all.take(i + 1).drop_last() =~= all.take(i as int));
                assert(all.take(i + 1).last() == pat_entry_view(*entry));
            }
            let default = match &entry.default {
                Some(default) => match self.normalize(default) {
                    Ok(e) => Some(e),
                    Err(e) => {
                        proof {
                            lemma_formals_fail(all, i as int + 1, self@);
                        }
                        return Err(e);
                    },
                },
                None => None,
            };
            insert_formal(&mut entries, entry.ident.inner.clone(), Formal { default });
            i = i + 1;
        }
        proof {
            assert(all.take(i as int) =~= all);
            lemma_formals_distinct(all, self@);
        }
        Ok(entries)
    }

    /// The argument name and the formals of a lambda with the parameter
    /// `param`.
    pub fn normalize_param(&self, param: &Param) -> (r: Result<
        (Option<String>, Option<Formals>),
        NormalizeError,
    >)
        ensures
            param_result_view(r) == normalize_param_spec(param@, self@),
            r matches Ok((_, Some(formals))) ==> formals.names_distinct(),
        decreases param, 0nat,
    {
        match param {
            Param::IdentParam(ident_param) => Ok((Some(ident_param.ident.inner.clone()), None)),
            Param::Pattern(pattern) => {
                let at = match &pattern.pat_bind {
                    Some(pat_bind) => Some(pat_bind.ident.inner.clone()),
                    None => None,
                };
                match self.normalize_formals(&pattern.pat_entries) {
                    Ok(entries) => Ok((at, Some(Formals { ellipsis: pattern.ellipsis, entries }))),
                    Err(e) => Err(e),
                }
            },
        }
    }

    /// A lambda with a plain parameter has an argument name and no formals;
    /// one with a pattern has the pattern's formals, and the name bound by
    /// `@`, if there is one, as its argument name.
    pub fn normalize_lambda(&self, lambda: &Lambda) -> (r: Result<NormalNixExpr, NormalizeError>)
        ensures
            expr_result_view(r) == normalize_spec(cst_view(RNixExpr::Lambda(*lambda)), self@),
            r matches Ok(NormalNixExpr::Lambda { formals: Some(f), .. }) ==> f.names_distinct(),
        decreases lambda, 0nat,
    {
        let (arg, formals) = match self.normalize_param(&lambda.param) {
            Ok(p) => p,
            Err(e) => return Err(e),
        };
        let body = match self.boxed_normalize(&lambda.body) {
            Ok(e) => e,
            Err(e) => return Err(e),
        };
        Ok(NormalNixExpr::Lambda { arg, formals, body })
    }

    /// `let { ...; body = e; }` is the selection of `body` from the
    /// recursive attribute set with the same entries.
    pub fn normalize_legacy_let(&self, legacy_let: &LegacyLet) -> (r: Result<
        NormalNixExpr,
        NormalizeError,
    >)
        ensures
            expr_result_view(r) == normalize_spec(cst_view(RNixExpr::LegacyLet(*legacy_let)), self@),
        decreases legacy_let, 0nat,
    {
        let attrs = match self.normalize_entries(&legacy_let.entries, true) {
            Ok(e) => e,
            Err(e) => return Err(e),
        };
        let mut path: Vec<AttrName> = Vec::new();
        path.push(AttrName::Symbol("body".to_owned()));
        assert(attr_names_view(path@) =~= seq![AttrNameView::Symbol("body"@)]);
        Ok(NormalNixExpr::Select { subject: Box::new(attrs), or_default: None, path })
    }

    /// A `let` binds what the attribute set with the same entries holds.
    pub fn normalize_let_in(&self, let_in: &LetIn) -> (r: Result<NormalNixExpr, NormalizeError>)
        ensures
            expr_result_view(r) == normalize_spec(cst_view(RNixExpr::LetIn(*let_in)), self@),
        decreases let_in, 0nat,
    {
        let attrs = match self.normalize_entries(&let_in.entries, false) {
            Ok(e) => e,
            Err(e) => return Err(e),
        };
        let body = match self.boxed_normalize(&let_in.body) {
            Ok(e) => e,
            Err(e) => return Err(e),
        };
        Ok(NormalNixExpr::Let { attrs: Box::new(attrs), body })
    }

    /// A list of the canonical forms of the items.
    pub fn normalize_list(&self, list: &List) -> (r: Result<NormalNixExpr, NormalizeError>)
        ensures
            expr_result_view(r) == normalize_spec(cst_view(RNixExpr::List(*list)), self@),
        decreases list, 0nat,
    {
        let mut es: Vec<NormalNixExpr> = Vec::new();
        let mut i: usize = 0;
        let ghost all = csts_view(list.items@);
        assert(all.take(0) =~= Seq::<Cst>::empty());
        assert(exprs_view(es@) =~= Seq::<ExprView>::empty());
        while i < list.items.len()
            invariant
                i <= list.items.len(),
                all == csts_view(list.items@),
                normalize_all_spec(all.take(i as int), self@) == Ok::<Seq<ExprView>, ErrorView>(
                    exprs_view(es@),
                ),
            decreases list.items.len() - i,
        {
            let ghost before = exprs_view(es@);
            proof {
                assert(all.take(i + 1).drop_last() =~= all.take(i as int));
                assert(all.take(i + 1).last() == list.items[i as int]@);
            }
            match self.normalize(&list.items[i]) {
                Ok(e) => {
                    es.push(e);
                    assert(exprs_view(es@) =~= before.push(e@));
                },
                Err(e) => {
                    proof {
                        lemma_all_fail(all, i as int + 1, self@);
                    }
                    return Err(e);
                },
            }
            i = i + 1;
        }
        assert(all.take(i as int) =~= all);
        Ok(NormalNixExpr::List(es))
    }

    /// Rewrites a binary operation as the reference parser does.
    pub fn normalize_bin_op(&self, bin_op: &BinOp) -> (r: Result<NormalNixExpr, NormalizeError>)
        ensures
            expr_result_view(r) == normalize_spec(cst_view(RNixExpr::BinOp(*bin_op)), self@),
        decreases bin_op, 0nat,
    {
        let lhs = match self.normalize(&bin_op.lhs) {
            Ok(e) => e,
            Err(e) => return Err(e),
        };
        let rhs = match self.normalize(&bin_op.rhs) {
            Ok(e) => e,
            Err(e) => return Err(e),
        };
        Ok(
            match bin_op.operator {
                BinOpKind::Concat => NormalNixExpr::OpConcatLists(Box::new(lhs), Box::new(rhs)),
                BinOpKind::Update => NormalNixExpr::OpUpdate(Box::new(lhs), Box::new(rhs)),
                // The reference parser calls all addition "concat strings".
                BinOpKind::Add => NormalNixExpr::OpConcatStrings {
                    force_string: false,
                    es: two(lhs, rhs),
                },
                BinOpKind::Sub => call_builtin("__sub", two(lhs, rhs)),
                BinOpKind::Mul => call_builtin("__mul", two(lhs, rhs)),
                BinOpKind::Div => call_builtin("__div", two(lhs, rhs)),
                BinOpKind::And => NormalNixExpr::OpAnd(Box::new(lhs), Box::new(rhs)),
                BinOpKind::Equal => NormalNixExpr::OpEq(Box::new(lhs), Box::new(rhs)),
                BinOpKind::Implication => NormalNixExpr::OpImpl(Box::new(lhs), Box::new(rhs)),
                BinOpKind::Less => call_builtin("__lessThan", two(lhs, rhs)),
                // Note the argument order.
                BinOpKind::LessOrEq => NormalNixExpr::OpNot(
                    Box::new(call_builtin("__lessThan", two(rhs, lhs))),
                ),
                // Note the argument order.
                BinOpKind::More => call_builtin("__lessThan", two(rhs, lhs)),
                BinOpKind::MoreOrEq => NormalNixExpr::OpNot(
                    Box::new(call_builtin("__lessThan", two(lhs, rhs))),
                ),
                BinOpKind::NotEqual => NormalNixExpr::OpNEq(Box::new(lhs), Box::new(rhs)),
                BinOpKind::Or => NormalNixExpr::OpOr(Box::new(lhs), Box::new(rhs)),
            },
        )
    }

    /// Parentheses leave no trace.
    pub fn normalize_paren(&self, paren: &Paren) -> (r: Result<NormalNixExpr, NormalizeError>)
        ensures
            expr_result_view(r) == normalize_spec(cst_view(RNixExpr::Paren(*paren)), self@),
        decreases paren, 0nat,
    {
        self.normalize(&paren.expr)
    }

    /// The root leaves no trace.
    pub fn normalize_root(&self, root: &Root) -> (r: Result<NormalNixExpr, NormalizeError>)
        ensures
            expr_result_view(r) == normalize_spec(cst_view(RNixExpr::Root(*root)), self@),
        decreases root, 0nat,
    {
        self.normalize(&root.expr)
    }

    /// The canonical form of an attribute set.
    pub fn normalize_attr_set(&self, attr_set: &AttrSet) -> (r: Result<
        NormalNixExpr,
        NormalizeError,
    >)
        ensures
            expr_result_view(r) == normalize_spec(cst_view(RNixExpr::AttrSet(*attr_set)), self@),
        decreases attr_set, 0nat,
    {
        self.normalize_entries(&attr_set.entries, attr_set.recursive)
    }

    /// The canonical form of the attribute set that has the entries
    /// `entries`: each entry gives its bindings, those under fixed names
    /// are merged and ordered, those under computed names are kept as they
    /// come.
    pub fn normalize_entries(&self, entries: &Vec<Entry>, recursive: bool) -> (r: Result<
        NormalNixExpr,
        NormalizeError,
    >)
        ensures
            expr_result_view(r) == normalize_attr_set_spec(entries_view(entries@), recursive, self@),
        decreases entries, 1nat,
    {
        let mut defs: Vec<EntryDefs> = Vec::new();
        let mut i: usize = 0;
        let ghost all = entries_view(entries@);
        assert(all.take(0) =~= Seq::<CstEntry>::empty());
        assert(entry_defs_view(defs@) =~= Seq::<EntryDefsView>::empty());
        while i < entries.len()
            invariant
                i <= entries.len(),
                all == entries_view(entries@),
                normalize_entries_spec(all.take(i as int), self@) == Ok::<
                    Seq<EntryDefsView>,
                    ErrorView,
                >(entry_defs_view(defs@)),
            decreases entries.len() - i,
        {
            let ghost before = entry_defs_view(defs@);
            proof {
                assert(all.take(i + 1).drop_last() =~= all.take(i as int));
                assert(all.take(i + 1).last() == entries[i as int]@);
            }
            match self.normalize_entry(&entries[i]) {
                Ok(d) => {
                    defs.push(d);
                    assert(entry_defs_view(defs@) =~= before.push(d@));
                },
                Err(e) => {
                    proof {
                        lemma_entries_fail(all, i as int + 1, self@);
                    }
                    return Err(e);
                },
            }
            i = i + 1;
        }
        assert(all.take(i as int) =~= all);
        build_attrs(recursive, defs)
    }

    /// What one entry of an attribute set gives.
    pub fn normalize_entry(&self, entry: &Entry) -> (r: Result<EntryDefs, NormalizeError>)
        ensures
            entry_result_view(r) == normalize_entry_spec(entry@, self@),
        decreases entry, 2nat,
    {
        match entry {
            Entry::AttrpathValue(binding) => {
                if binding.attrpath.attrs.len() == 0 {
                    Err(
                        NormalizeError::Malformed {
                            node: NodeKind::AttrpathValue,
                            defect: Defect::EmptyAttrpath,
                        },
                    )
                } else {
                    self.normalize_binding(binding, 0)
                }
            },
            Entry::Inherit(inherit) => match self.normalize_inherit_entry(inherit) {
                Ok(defs) => Ok(EntryDefs::Static(defs)),
                Err(e) => Err(e),
            },
        }
    }

    /// What the binding gives whose path is that of `binding` from the
    /// `k`-th step on: `x.y.z = v` stands for `x = { y = { z = v; }; }`.
    pub fn normalize_binding(&self, binding: &AttrpathValue, k: usize) -> (r: Result<
        EntryDefs,
        NormalizeError,
    >)
        requires
            k < binding.attrpath.attrs.len(),
        ensures
            entry_result_view(r) == normalize_binding_spec(
                entry_view(Entry::AttrpathValue(*binding)),
                k as nat,
                self@,
            ),
        decreases binding, binding.attrpath.attrs.len() - k,
    {
        let value = if k + 1 < binding.attrpath.attrs.len() {
            let inner = match self.normalize_binding(binding, k + 1) {
                Ok(d) => d,
                Err(e) => return Err(e),
            };
            let mut defs: Vec<EntryDefs> = Vec::new();
            defs.push(inner);
            assert(entry_defs_view(defs@) =~= seq![inner@]);
            match build_attrs(false, defs) {
                Ok(e) => e,
                Err(e) => return Err(e),
            }
        } else {
            match self.normalize(&binding.value) {
                Ok(e) => e,
                Err(e) => return Err(e),
            }
        };
        match self.normalize_key_part_as(&binding.attrpath.attrs[k]) {
            Ok(KeyPart::Static(name)) => {
                let mut defs: Vec<AttrDef> = Vec::new();
                defs.push(AttrDef { name, inherited: false, expr: value });
                assert(attr_defs_view(defs@) =~= seq![
                    AttrDefView { name: name@, inherited: false, expr: value@ },
                ]);
                Ok(EntryDefs::Static(defs))
            },
            Ok(KeyPart::Dynamic(name_expr)) => Ok(
                EntryDefs::Dynamic(DynamicAttrDef { name_expr, value_expr: value }),
            ),
            Err(e) => Err(e),
        }
    }

    /// The bindings that an `inherit` makes: plain ones are inherited
    /// variables, those with a source select from it.
    pub fn normalize_inherit_entry(&self, inherit: &Inherit) -> (r: Result<
        Vec<AttrDef>,
        NormalizeError,
    >)
        ensures
            match r {
                Ok(defs) => Ok::<EntryDefsView, ErrorView>(
                    EntryDefsView::Static(attr_defs_view(defs@)),
                ),
                Err(e) => Err::<EntryDefsView, ErrorView>(e@),
            } == normalize_entry_spec(entry_view(Entry::Inherit(*inherit)), self@),
        decreases inherit, 0nat,
    {
        let subject = match &inherit.from {
            Some(from) => match self.normalize(&from.expr) {
                Ok(e) => Some(e),
                Err(e) => return Err(e),
            },
            None => None,
        };
        let ghost from = plain_optional_view(subject);
        let mut attrs: Vec<AttrDef> = Vec::new();
        let mut i: usize = 0;
        while i < inherit.idents.len()
            invariant
                i <= inherit.idents.len(),
                attrs.len() == i,
                from == plain_optional_view(subject),
                forall|j: int|
                    0 <= j < i ==> (#[trigger] attrs[j])@ == inherit_def(
                        from,
                        inherit.idents[j].inner@,
                    ),
            decreases inherit.idents.len() - i,
        {
            let name = inherit.idents[i].inner.clone();
            let def = match &subject {
                Some(subject) => {
                    let mut path: Vec<AttrName> = Vec::new();
                    path.push(AttrName::Symbol(name.clone()));
                    assert(attr_names_view(path@) =~= seq![AttrNameView::Symbol(name@)]);
                    AttrDef {
                        name,
                        inherited: false,
                        expr: NormalNixExpr::Select {
                            subject: Box::new(subject.clone()),
                            or_default: None,
                            path,
                        },
                    }
                },
                None => AttrDef {
                    name: name.clone(),
                    inherited: true,
                    expr: NormalNixExpr::Var(name),
                },
            };
            attrs.push(def);
            i = i + 1;
        }
        assert(attr_defs_view(attrs@) =~= inherit_defs(from, idents_view(inherit.idents@)));
        Ok(attrs)
    }

    /// The canonical forms of the parts from the `from`-th on.
    pub fn normalize_parts(&self, parts: &Vec<InterpolPart>, from: usize) -> (r: Result<
        Vec<NormalNixExpr>,
        NormalizeError,
    >)
        requires
            from <= parts.len(),
        ensures
            exprs_result_view(r) == normalize_parts_spec(
                parts_view(parts@).skip(from as int),
                self@,
            ),
        decreases parts, 0nat,
    {
        let mut es: Vec<NormalNixExpr> = Vec::new();
        let mut i: usize = from;
        let ghost all = parts_view(parts@).skip(from as int);
        assert(all.take(0) =~= Seq::<CstPart>::empty());
        assert(exprs_view(es@) =~= Seq::<ExprView>::empty());
        while i < parts.len()
            invariant
                from <= i <= parts.len(),
                all == parts_view(parts@).skip(from as int),
                normalize_parts_spec(all.take(i - from), self@) == Ok::<Seq<ExprView>, ErrorView>(
                    exprs_view(es@),
                ),
            decreases parts.len() - i,
        {
            let ghost before = exprs_view(es@);
            proof {
                assert(all.take(i - from + 1).drop_last() =~= all.take(i - from));
                assert(all.take(i - from + 1).last() == all[i - from]);
            }
            let part = match &parts[i] {
                InterpolPart::Literal(lit) => Ok(NormalNixExpr::String(lit.clone())),
                InterpolPart::Interpolation(str_interpol) => self.normalize(&str_interpol.expr),
            };
            proof {
                assert(all[i - from] == part_view(parts[i as int]));
                assert(expr_result_view(part) == normalize_part_spec(all[i - from], self@));
            }
            match part {
                Ok(e) => {
                    es.push(e);
                    assert(exprs_view(es@) =~= before.push(e@));
                },
                Err(e) => {
                    proof {
                        lemma_parts_fail(all, i - from + 1, self@);
                    }
                    return Err(e);
                },
            }
            i = i + 1;
        }
        assert(all.take(i - from) =~= all);
        Ok(es)
    }

    /// A string without interpolation is a plain string; one with
    /// interpolation is the concatenation of its parts, forcing strings.
    pub fn normalize_str(&self, str: &Str) -> (r: Result<NormalNixExpr, NormalizeError>)
        ensures
            expr_result_view(r) == normalize_spec(cst_view(RNixExpr::Str(*str)), self@),
            expr_result_view(r) == normalize_str_spec(parts_view(str.parts@), self@),
        decreases str, 0nat,
    {
        if any_interpolation(&str.parts) {
            assert(parts_view(str.parts@).skip(0) =~= parts_view(str.parts@));
            match self.normalize_parts(&str.parts, 0) {
                Ok(es) => Ok(NormalNixExpr::OpConcatStrings { force_string: true, es }),
                Err(e) => Err(e),
            }
        } else if str.parts.len() == 0 {
            Ok(NormalNixExpr::String(String::new()))
        } else if str.parts.len() == 1 {
            assert(parts_view(str.parts@)[0] == part_view(str.parts[0]));
            match &str.parts[0] {
                InterpolPart::Literal(lit) => Ok(NormalNixExpr::String(lit.clone())),
                InterpolPart::Interpolation(_) => {
                    assert(parts_view(str.parts@)[0] is Interpolation);
                    Err(NormalizeError::Malformed { node: NodeKind::Str, defect: Defect::AdjacentLiterals })
                },
            }
        } else {
            Err(NormalizeError::Malformed { node: NodeKind::Str, defect: Defect::AdjacentLiterals })
        }
    }

    /// Rewrites a unary operation as the reference parser does.
    pub fn normalize_unary_op(&self, unary_op: &UnaryOp) -> (r: Result<
        NormalNixExpr,
        NormalizeError,
    >)
        ensures
            expr_result_view(r) == normalize_spec(cst_view(RNixExpr::UnaryOp(*unary_op)), self@),
        decreases unary_op, 0nat,
    {
        let e = match self.normalize(&unary_op.expr) {
            Ok(e) => e,
            Err(e) => return Err(e),
        };
        Ok(
            match unary_op.operator {
                UnaryOpKind::Invert => NormalNixExpr::OpNot(Box::new(e)),
                // The reference parser treats negation as subtraction from 0.
                UnaryOpKind::Negate => call_builtin("__sub", two(NormalNixExpr::Int(0), e)),
            },
        )
    }

    /// Numbers stay as they are; a URI is a string.
    pub fn normalize_literal(&self, literal: &Literal) -> (r: NormalNixExpr)
        ensures
            Ok::<ExprView, ErrorView>(r@) == normalize_spec(
                cst_view(RNixExpr::Literal(*literal)),
                self@,
            ),
    {
        match &literal.kind {
            LiteralKind::Float(bits) => NormalNixExpr::Float(*bits),
            LiteralKind::Integer(n) => NormalNixExpr::Int(*n),
            LiteralKind::Uri(uri) => NormalNixExpr::String(uri.clone()),
        }
    }

    /// A `with` keeps its shape.
    pub fn normalize_with(&self, with: &With) -> (r: Result<NormalNixExpr, NormalizeError>)
        ensures
            expr_result_view(r) == normalize_spec(cst_view(RNixExpr::With(*with)), self@),
        decreases with, 0nat,
    {
        let attrs = match self.boxed_normalize(&with.namespace) {
            Ok(e) => e,
            Err(e) => return Err(e),
        };
        let body = match self.boxed_normalize(&with.body) {
            Ok(e) => e,
            Err(e) => return Err(e),
        };
        Ok(NormalNixExpr::With { attrs, body })
    }

    /// A path without interpolation is its one literal, resolved. One with
    /// interpolation is the concatenation, not forcing strings, of its
    /// first literal, resolved, and the parts that follow.
    pub fn normalize_path(&self, path: &Path) -> (r: Result<NormalNixExpr, NormalizeError>)
        ensures
            expr_result_view(r) == normalize_spec(cst_view(RNixExpr::Path(*path)), self@),
        decreases path, 0nat,
    {
        let ghost all = parts_view(path.parts@);
        assert(normalize_spec(cst_view(RNixExpr::Path(*path)), self@) == normalize_path_spec(
            all,
            self@,
        ));
        if any_interpolation(&path.parts) {
            assert(all[0] == part_view(path.parts[0]));
            let base_path = match &path.parts[0] {
                InterpolPart::Literal(literal) => match self.normalize_path_literal(literal.clone()) {
                    Ok(e) => e,
                    Err(e) => return Err(e),
                },
                InterpolPart::Interpolation(_) => {
                    return Err(
                        NormalizeError::Malformed {
                            node: NodeKind::Path,
                            defect: Defect::LeadingInterpolation,
                        },
                    );
                },
            };
            assert(parts_view(path.parts@).skip(1) =~= parts_view(path.parts@).drop_first());
            let mut rest = match self.normalize_parts(&path.parts, 1) {
                Ok(es) => es,
                Err(e) => return Err(e),
            };
            let mut es = one(base_path);
            let ghost tail = exprs_view(rest@);
            es.append(&mut rest);
            assert(exprs_view(es@) =~= seq![base_path@] + tail);
            Ok(NormalNixExpr::OpConcatStrings { force_string: false, es })
        } else if path.parts.len() == 0 {
            Err(NormalizeError::Malformed { node: NodeKind::Path, defect: Defect::NoParts })
        } else if path.parts.len() == 1 {
            assert(all[0] == part_view(path.parts[0]));
            match &path.parts[0] {
                InterpolPart::Literal(lit) => self.normalize_path_literal(lit.clone()),
                InterpolPart::Interpolation(_) => {
                    assert(parts_view(path.parts@)[0] is Interpolation);
                    Err(NormalizeError::Malformed { node: NodeKind::Path, defect: Defect::NoParts })
                },
            }
        } else {
            Err(NormalizeError::Malformed { node: NodeKind::Path, defect: Defect::AdjacentLiterals })
        }
    }

    /// A test for an attribute keeps its whole path.
    pub fn normalize_has_attr(&self, has_attr: &HasAttr) -> (r: Result<
        NormalNixExpr,
        NormalizeError,
    >)
        ensures
            expr_result_view(r) == normalize_spec(cst_view(RNixExpr::HasAttr(*has_attr)), self@),
        decreases has_attr, 0nat,
    {
        let subject = match self.boxed_normalize(&has_attr.expr) {
            Ok(e) => e,
            Err(e) => return Err(e),
        };
        let path = match self.normalize_attr_path(&has_attr.attrpath, NodeKind::HasAttr) {
            Ok(p) => p,
            Err(e) => return Err(e),
        };
        Ok(NormalNixExpr::OpHasAttr { subject, path })
    }

    /// The canonical form of the attribute path of a node of kind `node`.
    pub fn normalize_attr_path(&self, attrpath: &Attrpath, node: NodeKind) -> (r: Result<
        Vec<AttrName>,
        NormalizeError,
    >)
        ensures
            names_result_view(r) == normalize_attr_path_spec(attrpath@, node, self@),
        decreases attrpath, 0nat,
    {
        if attrpath.attrs.len() == 0 {
            return Err(NormalizeError::Malformed { node, defect: Defect::EmptyAttrpath });
        }
        let mut names: Vec<AttrName> = Vec::new();
        let mut i: usize = 0;
        let ghost all = attrs_view(attrpath.attrs@);
        assert(all.take(0) =~= Seq::<CstAttr>::empty());
        assert(attr_names_view(names@) =~= Seq::<AttrNameView>::empty());
        while i < attrpath.attrs.len()
            invariant
                i <= attrpath.attrs.len(),
                all == attrs_view(attrpath.attrs@),
                all.len() > 0,
                normalize_keys_spec(all.take(i as int), self@) == Ok::<Seq<AttrNameView>, ErrorView>(
                    attr_names_view(names@),
                ),
            decreases attrpath.attrs.len() - i,
        {
            let ghost before = attr_names_view(names@);
            proof {
                assert(all.take(i + 1).drop_last() =~= all.take(i as int));
                assert(all.take(i + 1).last() == attrpath.attrs[i as int]@);
            }
            match self.normalize_key_part_as(&attrpath.attrs[i]) {
                Ok(key) => {
                    let name = match key {
                        KeyPart::Static(s) => AttrName::Symbol(s),
                        KeyPart::Dynamic(e) => AttrName::Expr(e),
                    };
                    names.push(name);
                    assert(attr_names_view(names@) =~= before.push(attr_name_of(key@)));
                },
                Err(e) => {
                    proof {
                        lemma_keys_fail(all, i as int + 1, self@);
                    }
                    return Err(e);
                },
            }
            i = i + 1;
        }
        assert(all.take(i as int) =~= all);
        Ok(names)
    }

    /// Resolves a path literal by its anchor.
    pub fn normalize_path_literal(&self, literal: String) -> (r: Result<
        NormalNixExpr,
        NormalizeError,
    >)
        ensures
            expr_result_view(r) == normalize_path_literal_spec(literal@, self@),
    {
        if !is_store_literal_closed(literal.as_str()) {
            return Err(
                NormalizeError::Malformed { node: NodeKind::Path, defect: Defect::UnclosedSearchPath },
            );
        }
        proof {
            reveal_strlit("/");
            assert("/"@ =~= seq!['/']);
        }
        let (anchor, path) = parse_path(literal);
        match anchor {
            Anchor::Absolute => Ok(NormalNixExpr::Path(canonicalize(path))),
            Anchor::Relative => {
                let prefix = concatenate(self.base_path.as_str(), "/");
                Ok(NormalNixExpr::Path(canonicalize(concatenate(prefix.as_str(), path.as_str()))))
            },
            Anchor::Home => {
                let prefix = concatenate(self.home_path.as_str(), "/");
                Ok(NormalNixExpr::Path(concatenate(prefix.as_str(), path.as_str())))
            },
            // The reference parser treats search paths as a call to __findFile.
            Anchor::Store => Ok(
                call_builtin(
                    "__findFile",
                    two(NormalNixExpr::Var("__nixPath".to_owned()), NormalNixExpr::String(path)),
                ),
            ),
        }
    }

    /// Decides whether a step of an attribute path is a fixed name or a
    /// computed one.
    pub fn normalize_key_part_as(&self, attr: &Attr) -> (r: Result<KeyPart, NormalizeError>)
        ensures
            key_result_view(r) == normalize_key_spec(attr@, self@),
        decreases attr, 1nat,
    {
        match attr {
            // A plain identifier is never dynamic.
            Attr::Ident(ident) => Ok(KeyPart::Static(ident.inner.clone())),
            // A string is dynamic if it has interpolations in it.
            Attr::Str(str) => match self.normalize_str(str) {
                Ok(NormalNixExpr::String(s)) => Ok(KeyPart::Static(s)),
                Ok(other) => Ok(KeyPart::Dynamic(other)),
                Err(e) => Err(e),
            },
            // `${x}` is not dynamic if x is a plain string, as in `${"foo"}`.
            Attr::Dynamic(dynamic) => match self.normalize(&dynamic.expr) {
                Ok(NormalNixExpr::String(s)) => Ok(KeyPart::Static(s)),
                Ok(other) => Ok(KeyPart::Dynamic(other)),
                Err(e) => Err(e),
            },
        }
    }
}

proof fn lemma_all_fail(items: Seq<Cst>, k: int, roots: Roots)
    requires
        0 <= k <= items.len(),
        normalize_all_spec(items.take(k), roots) is Err,
    ensures
        normalize_all_spec(items, roots) == normalize_all_spec(items.take(k), roots),
    decreases items.len() - k,
{
    if k < items.len() {
        assert(items.take(k + 1).drop_last() =~= items.take(k));
        lemma_all_fail(items, k + 1, roots);
    } else {
        assert(items.take(k) =~= items);
    }
}

proof fn lemma_parts_fail(parts: Seq<CstPart>, k: int, roots: Roots)
    requires
        0 <= k <= parts.len(),
        normalize_parts_spec(parts.take(k), roots) is Err,
    ensures
        normalize_parts_spec(parts, roots) == normalize_parts_spec(parts.take(k), roots),
    decreases parts.len() - k,
{
    if k < parts.len() {
        assert(parts.take(k + 1).drop_last() =~= parts.take(k));
        lemma_parts_fail(parts, k + 1, roots);
    } else {
        assert(parts.take(k) =~= parts);
    }
}

proof fn lemma_keys_fail(attrs: Seq<CstAttr>, k: int, roots: Roots)
    requires
        0 <= k <= attrs.len(),
        normalize_keys_spec(attrs.take(k), roots) is Err,
    ensures
        normalize_keys_spec(attrs, roots) == normalize_keys_spec(attrs.take(k), roots),
    decreases attrs.len() - k,
{
    if k < attrs.len() {
        assert(attrs.take(k + 1).drop_last() =~= attrs.take(k));
        lemma_keys_fail(attrs, k + 1, roots);
    } else {
        assert(attrs.take(k) =~= attrs);
    }
}

proof fn lemma_entries_fail(entries: Seq<CstEntry>, k: int, roots: Roots)
    requires
        0 <= k <= entries.len(),
        normalize_entries_spec(entries.take(k), roots) is Err,
    ensures
        normalize_entries_spec(entries, roots) == normalize_entries_spec(entries.take(k), roots),
    decreases entries.len() - k,
{
    if k < entries.len() {
        assert(entries.take(k + 1).drop_last() =~= entries.take(k));
        lemma_entries_fail(entries, k + 1, roots);
    } else {
        assert(entries.take(k) =~= entries);
    }
}

/// The parameters that a pattern gives have distinct names.
pub proof fn lemma_formals_distinct(entries: Seq<CstPatEntry>, roots: Roots)
    requires
        normalize_formals_spec(entries, roots) is Ok,
    ensures
        pair_names_distinct(normalize_formals_spec(entries, roots)->Ok_0),
    decreases entries.len(),
{
    if entries.len() > 0 {
        lemma_formals_distinct(entries.drop_last(), roots);
        let pairs = normalize_formals_spec(entries.drop_last(), roots)->Ok_0;
        let name = entries.last().name;
        match entries.last().default {
            Some(d) => lemma_put_formal_distinct(pairs, (name, Some(normalize_spec(d, roots)->Ok_0))),
            None => lemma_put_formal_distinct(pairs, (name, None)),
        }
    }
}

proof fn lemma_formals_fail(entries: Seq<CstPatEntry>, k: int, roots: Roots)
    requires
        0 <= k <= entries.len(),
        normalize_formals_spec(entries.take(k), roots) is Err,
    ensures
        normalize_formals_spec(entries, roots) == normalize_formals_spec(entries.take(k), roots),
    decreases entries.len() - k,
{
    if k < entries.len() {
        assert(entries.take(k + 1).drop_last() =~= entries.take(k));
        lemma_formals_fail(entries, k + 1, roots);
    } else {
        assert(entries.take(k) =~= entries);
    }
}

} // verus!
