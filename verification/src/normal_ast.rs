//! The canonical abstract syntax tree: the shape in which the reference Nix
//! parser hands out a program, after the rewrites it makes while parsing.

use vstd::prelude::*;

verus! {

/// An expression in canonical form.
#[derive(Debug, PartialEq)]
#[allow(inconsistent_fields)]
pub enum NormalNixExpr {
    Int(i64),
    /// A float, held as the bits of its IEEE-754 binary64 form.
    Float(u64),
    String(String),
    Path(String),
    Var(String),
    Select { subject: Box<NormalNixExpr>, or_default: Option<Box<NormalNixExpr>>, path: Vec<AttrName> },
    OpHasAttr { subject: Box<NormalNixExpr>, path: Vec<AttrName> },
    Attrs { rec: bool, attrs: Vec<AttrDef>, dynamic_attrs: Vec<DynamicAttrDef> },
    List(Vec<NormalNixExpr>),
    Lambda { arg: Option<String>, formals: Option<Formals>, body: Box<NormalNixExpr> },
    Call { fun: Box<NormalNixExpr>, args: Vec<NormalNixExpr> },
    Let { attrs: Box<NormalNixExpr>, body: Box<NormalNixExpr> },
    With { attrs: Box<NormalNixExpr>, body: Box<NormalNixExpr> },
    If { cond: Box<NormalNixExpr>, then: Box<NormalNixExpr>, else_: Box<NormalNixExpr> },
    Assert { cond: Box<NormalNixExpr>, body: Box<NormalNixExpr> },
    OpNot(Box<NormalNixExpr>),
    OpEq(Box<NormalNixExpr>, Box<NormalNixExpr>),
    OpNEq(Box<NormalNixExpr>, Box<NormalNixExpr>),
    OpAnd(Box<NormalNixExpr>, Box<NormalNixExpr>),
    OpOr(Box<NormalNixExpr>, Box<NormalNixExpr>),
    OpImpl(Box<NormalNixExpr>, Box<NormalNixExpr>),
    OpUpdate(Box<NormalNixExpr>, Box<NormalNixExpr>),
    OpConcatLists(Box<NormalNixExpr>, Box<NormalNixExpr>),
    OpConcatStrings { force_string: bool, es: Vec<NormalNixExpr> },
}

/// One step of an attribute path: a name known from the text, or an
/// expression that evaluation will turn into a name.
#[derive(Debug, PartialEq)]
pub enum AttrName {
    Symbol(String),
    Expr(NormalNixExpr),
}

/// A binding of an attribute set whose name is known from the text.
#[derive(Debug, PartialEq)]
pub struct AttrDef {
    pub name: String,
    pub inherited: bool,
    pub expr: NormalNixExpr,
}

/// A binding of an attribute set whose name is an expression.
#[derive(Debug, PartialEq)]
pub struct DynamicAttrDef {
    pub name_expr: NormalNixExpr,
    pub value_expr: NormalNixExpr,
}

/// What a lambda's pattern says of one parameter.
#[derive(Debug, PartialEq)]
pub struct Formal {
    pub default: Option<NormalNixExpr>,
}

/// The pattern of a lambda. `entries` holds each parameter's name with its
/// [`Formal`]. It stands for a mapping from names to defaults: the order of
/// the entries carries no meaning, and in a well-formed tree no name occurs
/// twice in it.
#[derive(Debug, PartialEq)]
pub struct Formals {
    pub ellipsis: bool,
    pub entries: Vec<(String, Formal)>,
}

/// The mathematical value of a [`NormalNixExpr`].
#[allow(inconsistent_fields)]
pub enum ExprView {
    Int(i64),
    Float(u64),
    String(Seq<char>),
    Path(Seq<char>),
    Var(Seq<char>),
    Select { subject: Box<ExprView>, or_default: Option<Box<ExprView>>, path: Seq<AttrNameView> },
    OpHasAttr { subject: Box<ExprView>, path: Seq<AttrNameView> },
    Attrs { rec: bool, attrs: Seq<AttrDefView>, dynamic_attrs: Seq<DynamicAttrDefView> },
    List(Seq<ExprView>),
    Lambda { arg: Option<Seq<char>>, formals: Option<FormalsView>, body: Box<ExprView> },
    Call { fun: Box<ExprView>, args: Seq<ExprView> },
    Let { attrs: Box<ExprView>, body: Box<ExprView> },
    With { attrs: Box<ExprView>, body: Box<ExprView> },
    If { cond: Box<ExprView>, then: Box<ExprView>, else_: Box<ExprView> },
    Assert { cond: Box<ExprView>, body: Box<ExprView> },
    OpNot(Box<ExprView>),
    OpEq(Box<ExprView>, Box<ExprView>),
    OpNEq(Box<ExprView>, Box<ExprView>),
    OpAnd(Box<ExprView>, Box<ExprView>),
    OpOr(Box<ExprView>, Box<ExprView>),
    OpImpl(Box<ExprView>, Box<ExprView>),
    OpUpdate(Box<ExprView>, Box<ExprView>),
    OpConcatLists(Box<ExprView>, Box<ExprView>),
    OpConcatStrings { force_string: bool, es: Seq<ExprView> },
}

/// The mathematical value of an [`AttrName`].
pub enum AttrNameView {
    Symbol(Seq<char>),
    Expr(ExprView),
}

/// The mathematical value of an [`AttrDef`].
pub struct AttrDefView {
    pub name: Seq<char>,
    pub inherited: bool,
    pub expr: ExprView,
}

/// The mathematical value of a [`DynamicAttrDef`].
pub struct DynamicAttrDefView {
    pub name_expr: ExprView,
    pub value_expr: ExprView,
}

/// The mathematical value of a [`Formals`]: each parameter's name with its
/// default, if it has one, entry by entry. The entries stand for the
/// mapping [`FormalsView::as_map`]; their order carries no meaning.
pub struct FormalsView {
    pub ellipsis: bool,
    pub entries: Seq<(Seq<char>, Option<ExprView>)>,
}

/// The value of an expression.
pub open spec fn expr_view(e: NormalNixExpr) -> ExprView
    decreases e,
{
    match e {
        NormalNixExpr::Int(n) => ExprView::Int(n),
        NormalNixExpr::Float(bits) => ExprView::Float(bits),
        NormalNixExpr::String(s) => ExprView::String(s@),
        NormalNixExpr::Path(s) => ExprView::Path(s@),
        NormalNixExpr::Var(s) => ExprView::Var(s@),
        NormalNixExpr::Select { subject, or_default, path } => ExprView::Select {
            subject: Box::new(expr_view(*subject)),
            or_default: match or_default {
                Some(d) => Some(Box::new(expr_view(*d))),
                None => None,
            },
            path: attr_names_view(path@),
        },
        NormalNixExpr::OpHasAttr { subject, path } => ExprView::OpHasAttr {
            subject: Box::new(expr_view(*subject)),
            path: attr_names_view(path@),
        },
        NormalNixExpr::Attrs { rec, attrs, dynamic_attrs } => ExprView::Attrs {
            rec,
            attrs: attr_defs_view(attrs@),
            dynamic_attrs: dynamic_attr_defs_view(dynamic_attrs@),
        },
        NormalNixExpr::List(es) => ExprView::List(exprs_view(es@)),
        NormalNixExpr::Lambda { arg, formals, body } => ExprView::Lambda {
            arg: match arg {
                Some(a) => Some(a@),
                None => None,
            },
            formals: match formals {
                Some(f) => Some(formals_view(f)),
                None => None,
            },
            body: Box::new(expr_view(*body)),
        },
        NormalNixExpr::Call { fun, args } => ExprView::Call {
            fun: Box::new(expr_view(*fun)),
            args: exprs_view(args@),
        },
        NormalNixExpr::Let { attrs, body } => ExprView::Let {
            attrs: Box::new(expr_view(*attrs)),
            body: Box::new(expr_view(*body)),
        },
        NormalNixExpr::With { attrs, body } => ExprView::With {
            attrs: Box::new(expr_view(*attrs)),
            body: Box::new(expr_view(*body)),
        },
        NormalNixExpr::If { cond, then, else_ } => ExprView::If {
            cond: Box::new(expr_view(*cond)),
            then: Box::new(expr_view(*then)),
            else_: Box::new(expr_view(*else_)),
        },
        NormalNixExpr::Assert { cond, body } => ExprView::Assert {
            cond: Box::new(expr_view(*cond)),
            body: Box::new(expr_view(*body)),
        },
        NormalNixExpr::OpNot(e) => ExprView::OpNot(Box::new(expr_view(*e))),
        NormalNixExpr::OpEq(l, r) => ExprView::OpEq(
            Box::new(expr_view(*l)),
            Box::new(expr_view(*r)),
        ),
        NormalNixExpr::OpNEq(l, r) => ExprView::OpNEq(
            Box::new(expr_view(*l)),
            Box::new(expr_view(*r)),
        ),
        NormalNixExpr::OpAnd(l, r) => ExprView::OpAnd(
            Box::new(expr_view(*l)),
            Box::new(expr_view(*r)),
        ),
        NormalNixExpr::OpOr(l, r) => ExprView::OpOr(
            Box::new(expr_view(*l)),
            Box::new(expr_view(*r)),
        ),
        NormalNixExpr::OpImpl(l, r) => ExprView::OpImpl(
            Box::new(expr_view(*l)),
            Box::new(expr_view(*r)),
        ),
        NormalNixExpr::OpUpdate(l, r) => ExprView::OpUpdate(
            Box::new(expr_view(*l)),
            Box::new(expr_view(*r)),
        ),
        NormalNixExpr::OpConcatLists(l, r) => ExprView::OpConcatLists(
            Box::new(expr_view(*l)),
            Box::new(expr_view(*r)),
        ),
        NormalNixExpr::OpConcatStrings { force_string, es } => ExprView::OpConcatStrings {
            force_string,
            es: exprs_view(es@),
        },
    }
}

/// The values of the expressions `es`, in order.
pub open spec fn exprs_view(es: Seq<NormalNixExpr>) -> Seq<ExprView>
    decreases es,
{
    Seq::new(
        es.len(),
        |i: int|
            if 0 <= i < es.len() {
                expr_view(es[i])
            } else {
                arbitrary()
            },
    )
}

/// The value of a step of an attribute path.
pub open spec fn attr_name_view(n: AttrName) -> AttrNameView
    decreases n,
{
    match n {
        AttrName::Symbol(s) => AttrNameView::Symbol(s@),
        AttrName::Expr(e) => AttrNameView::Expr(expr_view(e)),
    }
}

/// The values of the steps `ns`, in order.
pub open spec fn attr_names_view(ns: Seq<AttrName>) -> Seq<AttrNameView>
    decreases ns,
{
    Seq::new(
        ns.len(),
        |i: int|
            if 0 <= i < ns.len() {
                attr_name_view(ns[i])
            } else {
                arbitrary()
            },
    )
}

/// The value of a binding.
pub open spec fn attr_def_view(d: AttrDef) -> AttrDefView
    decreases d,
{
    AttrDefView { name: d.name@, inherited: d.inherited, expr: expr_view(d.expr) }
}

/// The values of the bindings `ds`, in order.
pub open spec fn attr_defs_view(ds: Seq<AttrDef>) -> Seq<AttrDefView>
    decreases ds,
{
    Seq::new(
        ds.len(),
        |i: int|
            if 0 <= i < ds.len() {
                attr_def_view(ds[i])
            } else {
                arbitrary()
            },
    )
}

/// The value of a binding under a computed name.
pub open spec fn dynamic_attr_def_view(d: DynamicAttrDef) -> DynamicAttrDefView
    decreases d,
{
    DynamicAttrDefView { name_expr: expr_view(d.name_expr), value_expr: expr_view(d.value_expr) }
}

/// The values of the bindings `ds`, in order.
pub open spec fn dynamic_attr_defs_view(ds: Seq<DynamicAttrDef>) -> Seq<DynamicAttrDefView>
    decreases ds,
{
    Seq::new(
        ds.len(),
        |i: int|
            if 0 <= i < ds.len() {
                dynamic_attr_def_view(ds[i])
            } else {
                arbitrary()
            },
    )
}

/// The default of a parameter, if it has one.
pub open spec fn formal_view(f: Formal) -> Option<ExprView>
    decreases f,
{
    match f.default {
        Some(e) => Some(expr_view(e)),
        None => None,
    }
}

/// The entries as pairs of a name and a default.
pub open spec fn formal_pairs_view(entries: Seq<(String, Formal)>) -> Seq<
    (Seq<char>, Option<ExprView>),
>
    decreases entries,
{
    Seq::new(
        entries.len(),
        |i: int|
            if 0 <= i < entries.len() {
                (entries[i].0@, formal_view(entries[i].1))
            } else {
                arbitrary()
            },
    )
}

/// The mapping that the pairs stand for; where a name stands twice, the
/// later pair counts.
pub open spec fn formals_map(pairs: Seq<(Seq<char>, Option<ExprView>)>) -> Map<
    Seq<char>,
    Option<ExprView>,
>
    decreases pairs.len(),
{
    if pairs.len() == 0 {
        Map::empty()
    } else {
        formals_map(pairs.drop_last()).insert(pairs.last().0, pairs.last().1)
    }
}

/// No name occurs twice among the pairs.
pub open spec fn pair_names_distinct(pairs: Seq<(Seq<char>, Option<ExprView>)>) -> bool {
    forall|i: int, j: int|
        #![trigger pairs[i], pairs[j]]
        0 <= i < j < pairs.len() ==> pairs[i].0 != pairs[j].0
}

/// The place of the first pair of `name` in `pairs`, or the length of
/// `pairs` if there is none.
pub open spec fn formal_index(pairs: Seq<(Seq<char>, Option<ExprView>)>, name: Seq<char>) -> nat
    decreases pairs.len(),
{
    if pairs.len() == 0 || pairs[0].0 == name {
        0
    } else {
        1 + formal_index(pairs.drop_first(), name)
    }
}

/// `pairs` with `pair` put in the place of the first pair of the same name
/// where there is one, and at the end where there is none.
pub open spec fn put_formal(
    pairs: Seq<(Seq<char>, Option<ExprView>)>,
    pair: (Seq<char>, Option<ExprView>),
) -> Seq<(Seq<char>, Option<ExprView>)> {
    let i = formal_index(pairs, pair.0) as int;
    if i < pairs.len() {
        pairs.update(i, pair)
    } else {
        pairs.push(pair)
    }
}

/// The place that [`formal_index`] gives is that of the first pair of the
/// name, and where it gives none, no pair has the name.
pub proof fn lemma_formal_index(pairs: Seq<(Seq<char>, Option<ExprView>)>, name: Seq<char>)
    ensures
        formal_index(pairs, name) <= pairs.len(),
        formal_index(pairs, name) < pairs.len() ==> pairs[formal_index(pairs, name) as int].0
            == name,
        forall|j: int| 0 <= j < formal_index(pairs, name) ==> (#[trigger] pairs[j]).0 != name,
    decreases pairs.len(),
{
    if pairs.len() > 0 && pairs[0].0 != name {
        let tail = pairs.drop_first();
        lemma_formal_index(tail, name);
        let i = formal_index(tail, name) as int;
        if i < tail.len() {
            assert(tail[i] == pairs[i + 1]);
        }
        assert forall|j: int| 0 <= j < i + 1 implies (#[trigger] pairs[j]).0 != name by {
            if j > 0 {
                assert(tail[j - 1] == pairs[j]);
            }
        }
    }
}

/// A place before which no pair has the name, and which holds a pair of
/// the name or is the end, is the place that [`formal_index`] gives.
pub proof fn lemma_formal_index_is(
    pairs: Seq<(Seq<char>, Option<ExprView>)>,
    name: Seq<char>,
    i: int,
)
    requires
        0 <= i <= pairs.len(),
        forall|j: int| 0 <= j < i ==> (#[trigger] pairs[j]).0 != name,
        i < pairs.len() ==> pairs[i].0 == name,
    ensures
        formal_index(pairs, name) == i,
{
    lemma_formal_index(pairs, name);
    let k = formal_index(pairs, name) as int;
    if k < i {
        assert(pairs[k].0 != name);
    }
}

/// Putting a pair among pairs of distinct names leaves the names distinct.
pub proof fn lemma_put_formal_distinct(
    pairs: Seq<(Seq<char>, Option<ExprView>)>,
    pair: (Seq<char>, Option<ExprView>),
)
    requires
        pair_names_distinct(pairs),
    ensures
        pair_names_distinct(put_formal(pairs, pair)),
{
    lemma_formal_index(pairs, pair.0);
    let i = formal_index(pairs, pair.0) as int;
    let after = put_formal(pairs, pair);
    assert forall|a: int, b: int| 0 <= a < b < after.len() implies after[a].0 != after[b].0 by {
        if i < pairs.len() {
            assert(after[a].0 == pairs[a].0);
            assert(after[b].0 == pairs[b].0);
        } else if b == pairs.len() {
            assert(after[a] == pairs[a]);
        } else {
            assert(after[a] == pairs[a] && after[b] == pairs[b]);
        }
    }
}

/// Replacing the pair of a name by another pair of the same name is, for
/// the mapping, the same as adding the new pair.
pub proof fn lemma_formals_map_update(
    pairs: Seq<(Seq<char>, Option<ExprView>)>,
    i: int,
    pair: (Seq<char>, Option<ExprView>),
)
    requires
        0 <= i < pairs.len(),
        pair_names_distinct(pairs),
        pairs[i].0 == pair.0,
    ensures
        formals_map(pairs.update(i, pair)) == formals_map(pairs).insert(pair.0, pair.1),
    decreases pairs.len(),
{
    let updated = pairs.update(i, pair);
    let init = pairs.drop_last();
    if i == pairs.len() - 1 {
        assert(updated.drop_last() =~= init);
        assert(formals_map(updated) =~= formals_map(pairs).insert(pair.0, pair.1));
    } else {
        assert forall|a: int, b: int| 0 <= a < b < init.len() implies init[a].0 != init[b].0 by {
            assert(init[a] == pairs[a] && init[b] == pairs[b]);
        }
        assert(init[i] == pairs[i]);
        lemma_formals_map_update(init, i, pair);
        assert(updated.drop_last() =~= init.update(i, pair));
        assert(updated.last() == pairs.last());
        assert(pairs[i].0 != pairs[pairs.len() - 1].0);
        assert(formals_map(updated) =~= formals_map(pairs).insert(pair.0, pair.1));
    }
}

/// For the mapping, putting a pair is setting what its name maps to: of two
/// parameters of one name, the later one counts.
pub proof fn lemma_put_formal_map(
    pairs: Seq<(Seq<char>, Option<ExprView>)>,
    pair: (Seq<char>, Option<ExprView>),
)
    requires
        pair_names_distinct(pairs),
    ensures
        formals_map(put_formal(pairs, pair)) == formals_map(pairs).insert(pair.0, pair.1),
{
    lemma_formal_index(pairs, pair.0);
    let i = formal_index(pairs, pair.0) as int;
    if i < pairs.len() {
        lemma_formals_map_update(pairs, i, pair);
    } else {
        assert(pairs.push(pair).drop_last() =~= pairs);
    }
}

impl FormalsView {
    /// The mapping from each parameter's name to its default.
    pub open spec fn as_map(self) -> Map<Seq<char>, Option<ExprView>> {
        formals_map(self.entries)
    }
}

impl Formals {
    /// No parameter's name occurs twice.
    pub open spec fn names_distinct(&self) -> bool {
        pair_names_distinct(formal_pairs_view(self.entries@))
    }
}

/// The value of a pattern: its entries, each by its value.
pub open spec fn formals_view(f: Formals) -> FormalsView
    decreases f,
{
    FormalsView { ellipsis: f.ellipsis, entries: formal_pairs_view(f.entries@) }
}

impl View for NormalNixExpr {
    type V = ExprView;

    open spec fn view(&self) -> ExprView {
        expr_view(*self)
    }
}

impl View for AttrName {
    type V = AttrNameView;

    open spec fn view(&self) -> AttrNameView {
        attr_name_view(*self)
    }
}

impl View for AttrDef {
    type V = AttrDefView;

    open spec fn view(&self) -> AttrDefView {
        attr_def_view(*self)
    }
}

impl View for DynamicAttrDef {
    type V = DynamicAttrDefView;

    open spec fn view(&self) -> DynamicAttrDefView {
        dynamic_attr_def_view(*self)
    }
}

impl View for Formal {
    type V = Option<ExprView>;

    open spec fn view(&self) -> Option<ExprView> {
        formal_view(*self)
    }
}

impl View for Formals {
    type V = FormalsView;

    open spec fn view(&self) -> FormalsView {
        formals_view(*self)
    }
}

fn clone_boxed(e: &Box<NormalNixExpr>) -> (r: Box<NormalNixExpr>)
    ensures
        expr_view(*r) == expr_view(**e),
    decreases e, 1nat,
{
    Box::new(clone_expr(&**e))
}

fn clone_expr(e: &NormalNixExpr) -> (r: NormalNixExpr)
    ensures
        expr_view(r) == expr_view(*e),
    decreases e, 0nat,
{
    match e {
        NormalNixExpr::Int(n) => NormalNixExpr::Int(*n),
        NormalNixExpr::Float(bits) => NormalNixExpr::Float(*bits),
        NormalNixExpr::String(s) => NormalNixExpr::String(s.clone()),
        NormalNixExpr::Path(s) => NormalNixExpr::Path(s.clone()),
        NormalNixExpr::Var(s) => NormalNixExpr::Var(s.clone()),
        NormalNixExpr::Select { subject, or_default, path } => NormalNixExpr::Select {
            subject: clone_boxed(subject),
            or_default: match or_default {
                Some(d) => Some(clone_boxed(d)),
                None => None,
            },
            path: clone_attr_names(path),
        },
        NormalNixExpr::OpHasAttr { subject, path } => NormalNixExpr::OpHasAttr {
            subject: clone_boxed(subject),
            path: clone_attr_names(path),
        },
        NormalNixExpr::Attrs { rec, attrs, dynamic_attrs } => NormalNixExpr::Attrs {
            rec: *rec,
            attrs: clone_attr_defs(attrs),
            dynamic_attrs: clone_dynamic_attr_defs(dynamic_attrs),
        },
        NormalNixExpr::List(es) => NormalNixExpr::List(clone_exprs(es)),
        NormalNixExpr::Lambda { arg, formals, body } => NormalNixExpr::Lambda {
            arg: match arg {
                Some(a) => Some(a.clone()),
                None => None,
            },
            formals: match formals {
                Some(f) => Some(clone_formals(f)),
                None => None,
            },
            body: clone_boxed(body),
        },
        NormalNixExpr::Call { fun, args } => NormalNixExpr::Call {
            fun: clone_boxed(fun),
            args: clone_exprs(args),
        },
        NormalNixExpr::Let { attrs, body } => NormalNixExpr::Let {
            attrs: clone_boxed(attrs),
            body: clone_boxed(body),
        },
        NormalNixExpr::With { attrs, body } => NormalNixExpr::With {
            attrs: clone_boxed(attrs),
            body: clone_boxed(body),
        },
        NormalNixExpr::If { cond, then, else_ } => NormalNixExpr::If {
            cond: clone_boxed(cond),
            then: clone_boxed(then),
            else_: clone_boxed(else_),
        },
        NormalNixExpr::Assert { cond, body } => NormalNixExpr::Assert {
            cond: clone_boxed(cond),
            body: clone_boxed(body),
        },
        NormalNixExpr::OpNot(e) => NormalNixExpr::OpNot(clone_boxed(e)),
        NormalNixExpr::OpEq(l, r) => NormalNixExpr::OpEq(clone_boxed(l), clone_boxed(r)),
        NormalNixExpr::OpNEq(l, r) => NormalNixExpr::OpNEq(clone_boxed(l), clone_boxed(r)),
        NormalNixExpr::OpAnd(l, r) => NormalNixExpr::OpAnd(clone_boxed(l), clone_boxed(r)),
        NormalNixExpr::OpOr(l, r) => NormalNixExpr::OpOr(clone_boxed(l), clone_boxed(r)),
        NormalNixExpr::OpImpl(l, r) => NormalNixExpr::OpImpl(clone_boxed(l), clone_boxed(r)),
        NormalNixExpr::OpUpdate(l, r) => NormalNixExpr::OpUpdate(clone_boxed(l), clone_boxed(r)),
        NormalNixExpr::OpConcatLists(l, r) => NormalNixExpr::OpConcatLists(
            clone_boxed(l),
            clone_boxed(r),
        ),
        NormalNixExpr::OpConcatStrings { force_string, es } => NormalNixExpr::OpConcatStrings {
            force_string: *force_string,
            es: clone_exprs(es),
        },
    }
}

fn clone_exprs(es: &Vec<NormalNixExpr>) -> (r: Vec<NormalNixExpr>)
    ensures
        exprs_view(r@) == exprs_view(es@),
    decreases es, 0nat,
{
    let mut r: Vec<NormalNixExpr> = Vec::new();
    let mut i: usize = 0;
    while i < es.len()
        invariant
            i <= es.len(),
            r.len() == i,
            forall|j: int| 0 <= j < i ==> expr_view(r[j]) == expr_view(es[j]),
        decreases es.len() - i,
    {
        r.push(clone_expr(&es[i]));
        i = i + 1;
    }
    assert(exprs_view(r@) =~= exprs_view(es@));
    r
}

fn clone_attr_name(n: &AttrName) -> (r: AttrName)
    ensures
        attr_name_view(r) == attr_name_view(*n),
    decreases n, 0nat,
{
    match n {
        AttrName::Symbol(s) => AttrName::Symbol(s.clone()),
        AttrName::Expr(e) => AttrName::Expr(clone_expr(e)),
    }
}

fn clone_attr_names(ns: &Vec<AttrName>) -> (r: Vec<AttrName>)
    ensures
        attr_names_view(r@) == attr_names_view(ns@),
    decreases ns, 0nat,
{
    let mut r: Vec<AttrName> = Vec::new();
    let mut i: usize = 0;
    while i < ns.len()
        invariant
            i <= ns.len(),
            r.len() == i,
            forall|j: int| 0 <= j < i ==> attr_name_view(r[j]) == attr_name_view(ns[j]),
        decreases ns.len() - i,
    {
        r.push(clone_attr_name(&ns[i]));
        i = i + 1;
    }
    assert(attr_names_view(r@) =~= attr_names_view(ns@));
    r
}

fn clone_attr_def(d: &AttrDef) -> (r: AttrDef)
    ensures
        attr_def_view(r) == attr_def_view(*d),
    decreases d, 0nat,
{
    AttrDef { name: d.name.clone(), inherited: d.inherited, expr: clone_expr(&d.expr) }
}

fn clone_attr_defs(ds: &Vec<AttrDef>) -> (r: Vec<AttrDef>)
    ensures
        attr_defs_view(r@) == attr_defs_view(ds@),
    decreases ds, 0nat,
{
    let mut r: Vec<AttrDef> = Vec::new();
    let mut i: usize = 0;
    while i < ds.len()
        invariant
            i <= ds.len(),
            r.len() == i,
            forall|j: int| 0 <= j < i ==> attr_def_view(r[j]) == attr_def_view(ds[j]),
        decreases ds.len() - i,
    {
        r.push(clone_attr_def(&ds[i]));
        i = i + 1;
    }
    assert(attr_defs_view(r@) =~= attr_defs_view(ds@));
    r
}

fn clone_dynamic_attr_def(d: &DynamicAttrDef) -> (r: DynamicAttrDef)
    ensures
        dynamic_attr_def_view(r) == dynamic_attr_def_view(*d),
    decreases d, 0nat,
{
    DynamicAttrDef { name_expr: clone_expr(&d.name_expr), value_expr: clone_expr(&d.value_expr) }
}

fn clone_dynamic_attr_defs(ds: &Vec<DynamicAttrDef>) -> (r: Vec<DynamicAttrDef>)
    ensures
        dynamic_attr_defs_view(r@) == dynamic_attr_defs_view(ds@),
    decreases ds, 0nat,
{
    let mut r: Vec<DynamicAttrDef> = Vec::new();
    let mut i: usize = 0;
    while i < ds.len()
        invariant
            i <= ds.len(),
            r.len() == i,
            forall|j: int|
                0 <= j < i ==> dynamic_attr_def_view(r[j]) == dynamic_attr_def_view(ds[j]),
        decreases ds.len() - i,
    {
        r.push(clone_dynamic_attr_def(&ds[i]));
        i = i + 1;
    }
    assert(dynamic_attr_defs_view(r@) =~= dynamic_attr_defs_view(ds@));
    r
}

fn clone_formal(f: &Formal) -> (r: Formal)
    ensures
        formal_view(r) == formal_view(*f),
    decreases f, 0nat,
{
    Formal {
        default: match &f.default {
            Some(e) => Some(clone_expr(e)),
            None => None,
        },
    }
}

fn clone_formals(f: &Formals) -> (r: Formals)
    ensures
        formals_view(r) == formals_view(*f),
    decreases f, 0nat,
{
    let mut entries: Vec<(String, Formal)> = Vec::new();
    let mut i: usize = 0;
    while i < f.entries.len()
        invariant
            i <= f.entries.len(),
            entries.len() == i,
            forall|j: int|
                0 <= j < i ==> entries[j].0@ == f.entries[j].0@ && formal_view(entries[j].1)
                    == formal_view(f.entries[j].1),
        decreases f.entries.len() - i,
    {
        entries.push((f.entries[i].0.clone(), clone_formal(&f.entries[i].1)));
        i = i + 1;
    }
    assert(formal_pairs_view(entries@) =~= formal_pairs_view(f.entries@));
    Formals { ellipsis: f.ellipsis, entries }
}

impl Clone for NormalNixExpr {
    fn clone(&self) -> (r: Self)
        ensures
            r@ == self@,
    {
        clone_expr(self)
    }
}

impl Clone for AttrName {
    fn clone(&self) -> (r: Self)
        ensures
            r@ == self@,
    {
        clone_attr_name(self)
    }
}

impl Clone for AttrDef {
    fn clone(&self) -> (r: Self)
        ensures
            r@ == self@,
    {
        clone_attr_def(self)
    }
}

impl Clone for DynamicAttrDef {
    fn clone(&self) -> (r: Self)
        ensures
            r@ == self@,
    {
        clone_dynamic_attr_def(self)
    }
}

impl Clone for Formal {
    fn clone(&self) -> (r: Self)
        ensures
            r@ == self@,
    {
        clone_formal(self)
    }
}

impl Clone for Formals {
    fn clone(&self) -> (r: Self)
        ensures
            r@ == self@,
    {
        clone_formals(self)
    }
}

} // verus!
