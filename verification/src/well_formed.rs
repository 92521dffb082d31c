//! The shape that every tree in canonical form has.

use crate::merge::names_strictly_ascending;
use crate::normal_ast::{
    pair_names_distinct, AttrDefView, AttrNameView, DynamicAttrDefView, ExprView, FormalsView,
};
use crate::path::canonicalize_spec;
use vstd::prelude::*;

verus! {

/// Which rules a tree is held to beyond those that every canonical tree
/// keeps.
pub struct Rules {
    /// Every concatenation of strings has at least two operands.
    pub long_concats: bool,
    /// Every path is in canonical form.
    pub canonical_paths: bool,
}

/// What holds of a single node of a canonical tree: the bindings of an
/// attribute set stand in the strict order of their names, a call has an
/// argument and its function is not itself a call, a selection has a path,
/// what a `let` binds is an attribute set, and (see
/// [`formals_well_formed`]) the parameters of a pattern have distinct
/// names; and, where `rules` asks for
/// it, a concatenation of strings has two operands or more and a path is a
/// fixed point of canonicalization.
pub open spec fn node_well_formed(e: ExprView, rules: Rules) -> bool {
    match e {
        ExprView::Attrs { attrs, .. } => names_strictly_ascending(attrs),
        ExprView::Call { fun, args } => !(*fun is Call) && args.len() > 0,
        ExprView::Select { path, .. } => path.len() > 0,
        ExprView::Let { attrs, .. } => *attrs is Attrs,
        ExprView::OpConcatStrings { es, .. } => rules.long_concats ==> es.len() >= 2,
        ExprView::Path(p) => rules.canonical_paths ==> canonicalize_spec(p) == p,
        _ => true,
    }
}

/// [`node_well_formed`] holds of `e` and of every node below it.
pub open spec fn well_formed(e: ExprView, rules: Rules) -> bool
    decreases e,
{
    &&& node_well_formed(e, rules)
    &&& match e {
        ExprView::Int(_) => true,
        ExprView::Float(_) => true,
        ExprView::String(_) => true,
        ExprView::Path(_) => true,
        ExprView::Var(_) => true,
        ExprView::Select { subject, or_default, path } => {
            &&& well_formed(*subject, rules)
            &&& match or_default {
                Some(d) => well_formed(*d, rules),
                None => true,
            }
            &&& names_well_formed(path, rules)
        },
        ExprView::OpHasAttr { subject, path } => {
            &&& well_formed(*subject, rules)
            &&& names_well_formed(path, rules)
        },
        ExprView::Attrs { rec, attrs, dynamic_attrs } => {
            &&& defs_well_formed(attrs, rules)
            &&& dynamic_defs_well_formed(dynamic_attrs, rules)
        },
        ExprView::List(es) => all_well_formed(es, rules),
        ExprView::Lambda { arg, formals, body } => {
            &&& match formals {
                Some(f) => formals_well_formed(f, rules),
                None => true,
            }
            &&& well_formed(*body, rules)
        },
        ExprView::Call { fun, args } => well_formed(*fun, rules) && all_well_formed(args, rules),
        ExprView::Let { attrs, body } => well_formed(*attrs, rules) && well_formed(*body, rules),
        ExprView::With { attrs, body } => well_formed(*attrs, rules) && well_formed(*body, rules),
        ExprView::If { cond, then, else_ } => {
            &&& well_formed(*cond, rules)
            &&& well_formed(*then, rules)
            &&& well_formed(*else_, rules)
        },
        ExprView::Assert { cond, body } => well_formed(*cond, rules) && well_formed(*body, rules),
        ExprView::OpNot(e) => well_formed(*e, rules),
        ExprView::OpEq(l, r) => well_formed(*l, rules) && well_formed(*r, rules),
        ExprView::OpNEq(l, r) => well_formed(*l, rules) && well_formed(*r, rules),
        ExprView::OpAnd(l, r) => well_formed(*l, rules) && well_formed(*r, rules),
        ExprView::OpOr(l, r) => well_formed(*l, rules) && well_formed(*r, rules),
        ExprView::OpImpl(l, r) => well_formed(*l, rules) && well_formed(*r, rules),
        ExprView::OpUpdate(l, r) => well_formed(*l, rules) && well_formed(*r, rules),
        ExprView::OpConcatLists(l, r) => well_formed(*l, rules) && well_formed(*r, rules),
        ExprView::OpConcatStrings { force_string, es } => all_well_formed(es, rules),
    }
}

/// Every tree in `es` is well formed.
pub open spec fn all_well_formed(es: Seq<ExprView>, rules: Rules) -> bool
    decreases es,
{
    forall|i: int| 0 <= i < es.len() ==> well_formed(#[trigger] es[i], rules)
}

/// The expression of a computed name is well formed.
pub open spec fn name_well_formed(n: AttrNameView, rules: Rules) -> bool
    decreases n,
{
    match n {
        AttrNameView::Symbol(_) => true,
        AttrNameView::Expr(e) => well_formed(e, rules),
    }
}

/// Every name in `ns` is well formed.
pub open spec fn names_well_formed(ns: Seq<AttrNameView>, rules: Rules) -> bool
    decreases ns,
{
    forall|i: int| 0 <= i < ns.len() ==> name_well_formed(#[trigger] ns[i], rules)
}

/// The value of every binding in `ds` is well formed.
pub open spec fn defs_well_formed(ds: Seq<AttrDefView>, rules: Rules) -> bool
    decreases ds,
{
    forall|i: int| 0 <= i < ds.len() ==> well_formed((#[trigger] ds[i]).expr, rules)
}

/// The name and the value of the binding are well formed.
pub open spec fn dynamic_def_well_formed(d: DynamicAttrDefView, rules: Rules) -> bool
    decreases d,
{
    well_formed(d.name_expr, rules) && well_formed(d.value_expr, rules)
}

/// The name and the value of every binding in `ds` are well formed.
pub open spec fn dynamic_defs_well_formed(ds: Seq<DynamicAttrDefView>, rules: Rules) -> bool
    decreases ds,
{
    forall|i: int| 0 <= i < ds.len() ==> dynamic_def_well_formed(#[trigger] ds[i], rules)
}

/// No name occurs twice among the parameters of `f`, and every default
/// in `f` is well formed.
pub open spec fn formals_well_formed(f: FormalsView, rules: Rules) -> bool
    decreases f,
{
    &&& pair_names_distinct(f.entries)
    &&& forall|i: int|
        0 <= i < f.entries.len() ==> match (#[trigger] f.entries[i]).1 {
            Some(d) => well_formed(d, rules),
            None => true,
        }
}

} // verus!
