//! The concrete syntax tree: a Nix program as it was written, with its
//! operators, attribute paths, string parts and patterns still in surface
//! form.

use vstd::prelude::*;

verus! {

/// The binary operators of Nix.
#[derive(Clone, Copy, Debug, PartialEq, Eq, Structural)]
pub enum BinOpKind {
    Concat,
    Update,
    Add,
    Sub,
    Mul,
    Div,
    And,
    Equal,
    Implication,
    Less,
    LessOrEq,
    More,
    MoreOrEq,
    NotEqual,
    Or,
}

/// The unary operators of Nix.
#[derive(Clone, Copy, Debug, PartialEq, Eq, Structural)]
pub enum UnaryOpKind {
    Invert,
    Negate,
}

/// An expression as written.
#[derive(Debug, PartialEq)]
pub enum RNixExpr {
    Apply(Apply),
    Assert(Assert),
    IfElse(IfElse),
    Select(Select),
    Str(Str),
    Path(Path),
    Literal(Literal),
    Lambda(Lambda),
    LegacyLet(LegacyLet),
    LetIn(LetIn),
    List(List),
    BinOp(BinOp),
    Paren(Paren),
    Root(Root),
    AttrSet(AttrSet),
    UnaryOp(UnaryOp),
    Ident(Ident),
    With(With),
    HasAttr(HasAttr),
}

/// The application of a function to one argument.
#[derive(Debug, PartialEq)]
pub struct Apply {
    pub lambda: Box<RNixExpr>,
    pub argument: Box<RNixExpr>,
}

/// `assert condition; body`.
#[derive(Debug, PartialEq)]
pub struct Assert {
    pub condition: Box<RNixExpr>,
    pub body: Box<RNixExpr>,
}

/// `if condition then body else else_body`.
#[derive(Debug, PartialEq)]
pub struct IfElse {
    pub condition: Box<RNixExpr>,
    pub body: Box<RNixExpr>,
    pub else_body: Box<RNixExpr>,
}

/// The selection `expr.attrpath`, with the default that `or` gives it.
#[derive(Debug, PartialEq)]
pub struct Select {
    pub expr: Box<RNixExpr>,
    pub attrpath: Attrpath,
    pub default_expr: Option<Box<RNixExpr>>,
}

/// A string, in parts.
#[derive(Debug, PartialEq)]
pub struct Str {
    pub parts: Vec<InterpolPart>,
}

/// A path, in parts; the first part of a well-formed path is text.
#[derive(Debug, PartialEq)]
pub struct Path {
    pub parts: Vec<InterpolPart>,
}

/// `inherit a b;` or `inherit (from) a b;`.
#[derive(Debug, PartialEq)]
pub struct Inherit {
    pub from: Option<InheritFrom>,
    pub idents: Vec<Ident>,
}

/// The source of an `inherit`.
#[derive(Debug, PartialEq)]
pub struct InheritFrom {
    pub expr: Box<RNixExpr>,
}

/// A number or a URI.
#[derive(Debug, PartialEq)]
pub struct Literal {
    pub kind: LiteralKind,
}

/// A function.
#[derive(Debug, PartialEq)]
pub struct Lambda {
    pub param: Param,
    pub body: Box<RNixExpr>,
}

/// `let { ...; body = e; }`.
#[derive(Debug, PartialEq)]
pub struct LegacyLet {
    pub entries: Vec<Entry>,
}

/// `let ... in body`.
#[derive(Debug, PartialEq)]
pub struct LetIn {
    pub entries: Vec<Entry>,
    pub body: Box<RNixExpr>,
}

/// A list.
#[derive(Debug, PartialEq)]
pub struct List {
    pub items: Vec<RNixExpr>,
}

/// A binary operation.
#[derive(Debug, PartialEq)]
pub struct BinOp {
    pub lhs: Box<RNixExpr>,
    pub operator: BinOpKind,
    pub rhs: Box<RNixExpr>,
}

/// An expression in parentheses.
#[derive(Debug, PartialEq)]
pub struct Paren {
    pub expr: Box<RNixExpr>,
}

/// The root of a program.
#[derive(Debug, PartialEq)]
pub struct Root {
    pub expr: Box<RNixExpr>,
}

/// An attribute set.
#[derive(Debug, PartialEq)]
pub struct AttrSet {
    pub entries: Vec<Entry>,
    pub recursive: bool,
}

/// A unary operation.
#[derive(Debug, PartialEq)]
pub struct UnaryOp {
    pub operator: UnaryOpKind,
    pub expr: Box<RNixExpr>,
}

/// An identifier.
#[derive(Debug, PartialEq)]
pub struct Ident {
    pub inner: String,
}

/// `with namespace; body`.
#[derive(Debug, PartialEq)]
pub struct With {
    pub namespace: Box<RNixExpr>,
    pub body: Box<RNixExpr>,
}

/// The test `expr ? attrpath`.
#[derive(Debug, PartialEq)]
pub struct HasAttr {
    pub expr: Box<RNixExpr>,
    pub attrpath: Attrpath,
}

/// The dotted path `a.b.c` of a selection or a binding. A well-formed tree
/// has at least one step in each.
#[derive(Debug, PartialEq)]
pub struct Attrpath {
    pub attrs: Vec<Attr>,
}

/// One step of an attribute path, as written.
#[derive(Debug, PartialEq)]
pub enum Attr {
    Ident(Ident),
    Dynamic(Dynamic),
    Str(Str),
}

/// What a literal holds.
#[derive(Debug, PartialEq)]
pub enum LiteralKind {
    /// A float, held as the bits of its IEEE-754 binary64 form.
    Float(u64),
    Integer(i64),
    Uri(String),
}

/// A key written `${expr}`.
#[derive(Debug, PartialEq)]
pub struct Dynamic {
    pub expr: Box<RNixExpr>,
}

/// The parameter of a function: a name or a pattern.
#[derive(Debug, PartialEq)]
pub enum Param {
    Pattern(Pattern),
    IdentParam(IdentParam),
}

/// A pattern `{ a, b ? d, ... } @ name`.
#[derive(Debug, PartialEq)]
pub struct Pattern {
    pub pat_entries: Vec<PatEntry>,
    pub ellipsis: bool,
    pub pat_bind: Option<PatBind>,
}

/// One parameter of a pattern, with its default.
#[derive(Debug, PartialEq)]
pub struct PatEntry {
    pub ident: Ident,
    pub default: Option<Box<RNixExpr>>,
}

/// The name that `@` binds to the whole argument.
#[derive(Debug, PartialEq)]
pub struct PatBind {
    pub ident: Ident,
}

/// A parameter that is a plain name.
#[derive(Debug, PartialEq)]
pub struct IdentParam {
    pub ident: Ident,
}

/// One entry of an attribute set or of a `let`.
#[derive(Debug, PartialEq)]
pub enum Entry {
    Inherit(Inherit),
    AttrpathValue(AttrpathValue),
}

/// The binding `attrpath = value;`.
#[derive(Debug, PartialEq)]
pub struct AttrpathValue {
    pub attrpath: Attrpath,
    pub value: Box<RNixExpr>,
}

/// One part of a string or path: text, or an expression whose value is
/// spliced in.
#[derive(Debug, PartialEq)]
pub enum InterpolPart {
    Literal(String),
    Interpolation(StrInterpol),
}

/// An interpolation `${expr}`.
#[derive(Debug, PartialEq)]
pub struct StrInterpol {
    pub expr: Box<RNixExpr>,
}

/// The mathematical value of an [`RNixExpr`].
#[allow(inconsistent_fields)]
pub enum Cst {
    Apply { lambda: Box<Cst>, argument: Box<Cst> },
    Assert { condition: Box<Cst>, body: Box<Cst> },
    IfElse { condition: Box<Cst>, body: Box<Cst>, else_body: Box<Cst> },
    Select { expr: Box<Cst>, attrpath: Seq<CstAttr>, default_expr: Option<Box<Cst>> },
    Str { parts: Seq<CstPart> },
    Path { parts: Seq<CstPart> },
    Float(u64),
    Integer(i64),
    Uri(Seq<char>),
    Lambda { param: CstParam, body: Box<Cst> },
    LegacyLet { entries: Seq<CstEntry> },
    LetIn { entries: Seq<CstEntry>, body: Box<Cst> },
    List { items: Seq<Cst> },
    BinOp { lhs: Box<Cst>, operator: BinOpKind, rhs: Box<Cst> },
    Paren { expr: Box<Cst> },
    Root { expr: Box<Cst> },
    AttrSet { entries: Seq<CstEntry>, recursive: bool },
    UnaryOp { operator: UnaryOpKind, expr: Box<Cst> },
    Ident { name: Seq<char> },
    With { namespace: Box<Cst>, body: Box<Cst> },
    HasAttr { expr: Box<Cst>, attrpath: Seq<CstAttr> },
}

/// The mathematical value of an [`Attr`].
pub enum CstAttr {
    Ident(Seq<char>),
    Dynamic(Box<Cst>),
    Str(Seq<CstPart>),
}

/// The mathematical value of an [`InterpolPart`].
pub enum CstPart {
    Literal(Seq<char>),
    Interpolation(Box<Cst>),
}

/// The mathematical value of an [`Entry`].
pub enum CstEntry {
    Inherit { from: Option<Box<Cst>>, idents: Seq<Seq<char>> },
    AttrpathValue { attrpath: Seq<CstAttr>, value: Box<Cst> },
}

/// The mathematical value of a [`Param`].
pub enum CstParam {
    IdentParam(Seq<char>),
    Pattern { entries: Seq<CstPatEntry>, ellipsis: bool, at: Option<Seq<char>> },
}

/// The mathematical value of a [`PatEntry`].
pub struct CstPatEntry {
    pub name: Seq<char>,
    pub default: Option<Cst>,
}

/// The value of a boxed tree.
pub open spec fn boxed_view(e: Box<RNixExpr>) -> Box<Cst>
    decreases e, 1nat,
{
    Box::new(cst_view(*e))
}

/// The value of an optional tree.
pub open spec fn optional_view(e: Option<Box<RNixExpr>>) -> Option<Box<Cst>>
    decreases e, 2nat,
{
    match e {
        Some(b) => Some(boxed_view(b)),
        None => None,
    }
}

/// The value of a tree.
pub open spec fn cst_view(e: RNixExpr) -> Cst
    decreases e, 0nat,
{
    match e {
        RNixExpr::Apply(n) => Cst::Apply {
            lambda: boxed_view(n.lambda),
            argument: boxed_view(n.argument),
        },
        RNixExpr::Assert(n) => Cst::Assert {
            condition: boxed_view(n.condition),
            body: boxed_view(n.body),
        },
        RNixExpr::IfElse(n) => Cst::IfElse {
            condition: boxed_view(n.condition),
            body: boxed_view(n.body),
            else_body: boxed_view(n.else_body),
        },
        RNixExpr::Select(n) => Cst::Select {
            expr: boxed_view(n.expr),
            attrpath: attrs_view(n.attrpath.attrs@),
            default_expr: optional_view(n.default_expr),
        },
        RNixExpr::Str(n) => Cst::Str { parts: parts_view(n.parts@) },
        RNixExpr::Path(n) => Cst::Path { parts: parts_view(n.parts@) },
        RNixExpr::Literal(n) => match n.kind {
            LiteralKind::Float(bits) => Cst::Float(bits),
            LiteralKind::Integer(i) => Cst::Integer(i),
            LiteralKind::Uri(s) => Cst::Uri(s@),
        },
        RNixExpr::Lambda(n) => Cst::Lambda { param: param_view(n.param), body: boxed_view(n.body) },
        RNixExpr::LegacyLet(n) => Cst::LegacyLet { entries: entries_view(n.entries@) },
        RNixExpr::LetIn(n) => Cst::LetIn {
            entries: entries_view(n.entries@),
            body: boxed_view(n.body),
        },
        RNixExpr::List(n) => Cst::List { items: csts_view(n.items@) },
        RNixExpr::BinOp(n) => Cst::BinOp {
            lhs: boxed_view(n.lhs),
            operator: n.operator,
            rhs: boxed_view(n.rhs),
        },
        RNixExpr::Paren(n) => Cst::Paren { expr: boxed_view(n.expr) },
        RNixExpr::Root(n) => Cst::Root { expr: boxed_view(n.expr) },
        RNixExpr::AttrSet(n) => Cst::AttrSet {
            entries: entries_view(n.entries@),
            recursive: n.recursive,
        },
        RNixExpr::UnaryOp(n) => Cst::UnaryOp { operator: n.operator, expr: boxed_view(n.expr) },
        RNixExpr::Ident(n) => Cst::Ident { name: n.inner@ },
        RNixExpr::With(n) => Cst::With {
            namespace: boxed_view(n.namespace),
            body: boxed_view(n.body),
        },
        RNixExpr::HasAttr(n) => Cst::HasAttr {
            expr: boxed_view(n.expr),
            attrpath: attrs_view(n.attrpath.attrs@),
        },
    }
}

/// The values of the trees `es`, in order.
pub open spec fn csts_view(es: Seq<RNixExpr>) -> Seq<Cst>
    decreases es, 0nat,
{
    Seq::new(
        es.len(),
        |i: int|
            if 0 <= i < es.len() {
                cst_view(es[i])
            } else {
                arbitrary()
            },
    )
}

/// The value of a step of an attribute path.
pub open spec fn attr_view(a: Attr) -> CstAttr
    decreases a, 0nat,
{
    match a {
        Attr::Ident(i) => CstAttr::Ident(i.inner@),
        Attr::Dynamic(d) => CstAttr::Dynamic(boxed_view(d.expr)),
        Attr::Str(s) => CstAttr::Str(parts_view(s.parts@)),
    }
}

/// The values of the steps `attrs`, in order.
pub open spec fn attrs_view(attrs: Seq<Attr>) -> Seq<CstAttr>
    decreases attrs, 0nat,
{
    Seq::new(
        attrs.len(),
        |i: int|
            if 0 <= i < attrs.len() {
                attr_view(attrs[i])
            } else {
                arbitrary()
            },
    )
}

/// The value of a part of a string or path.
pub open spec fn part_view(p: InterpolPart) -> CstPart
    decreases p, 0nat,
{
    match p {
        InterpolPart::Literal(s) => CstPart::Literal(s@),
        InterpolPart::Interpolation(i) => CstPart::Interpolation(boxed_view(i.expr)),
    }
}

/// The values of the parts `parts`, in order.
pub open spec fn parts_view(parts: Seq<InterpolPart>) -> Seq<CstPart>
    decreases parts, 0nat,
{
    Seq::new(
        parts.len(),
        |i: int|
            if 0 <= i < parts.len() {
                part_view(parts[i])
            } else {
                arbitrary()
            },
    )
}

/// The names of the identifiers `idents`, in order.
pub open spec fn idents_view(idents: Seq<Ident>) -> Seq<Seq<char>> {
    Seq::new(idents.len(), |i: int| idents[i].inner@)
}

/// The value of an entry.
pub open spec fn entry_view(e: Entry) -> CstEntry
    decreases e, 0nat,
{
    match e {
        Entry::Inherit(i) => CstEntry::Inherit {
            from: match i.from {
                Some(f) => Some(boxed_view(f.expr)),
                None => None,
            },
            idents: idents_view(i.idents@),
        },
        Entry::AttrpathValue(v) => CstEntry::AttrpathValue {
            attrpath: attrs_view(v.attrpath.attrs@),
            value: boxed_view(v.value),
        },
    }
}

/// The values of the entries `entries`, in order.
pub open spec fn entries_view(entries: Seq<Entry>) -> Seq<CstEntry>
    decreases entries, 0nat,
{
    Seq::new(
        entries.len(),
        |i: int|
            if 0 <= i < entries.len() {
                entry_view(entries[i])
            } else {
                arbitrary()
            },
    )
}

/// The value of a parameter of a pattern.
pub open spec fn pat_entry_view(e: PatEntry) -> CstPatEntry
    decreases e, 0nat,
{
    CstPatEntry {
        name: e.ident.inner@,
        default: match e.default {
            Some(d) => Some(cst_view(*d)),
            None => None,
        },
    }
}

/// The values of the parameters `entries`, in order.
pub open spec fn pat_entries_view(entries: Seq<PatEntry>) -> Seq<CstPatEntry>
    decreases entries, 0nat,
{
    Seq::new(
        entries.len(),
        |i: int|
            if 0 <= i < entries.len() {
                pat_entry_view(entries[i])
            } else {
                arbitrary()
            },
    )
}

/// The value of a parameter.
pub open spec fn param_view(p: Param) -> CstParam
    decreases p, 0nat,
{
    match p {
        Param::IdentParam(i) => CstParam::IdentParam(i.ident.inner@),
        Param::Pattern(pat) => CstParam::Pattern {
            entries: pat_entries_view(pat.pat_entries@),
            ellipsis: pat.ellipsis,
            at: match pat.pat_bind {
                Some(b) => Some(b.ident.inner@),
                None => None,
            },
        },
    }
}

impl View for RNixExpr {
    type V = Cst;

    open spec fn view(&self) -> Cst {
        cst_view(*self)
    }
}

impl View for Attr {
    type V = CstAttr;

    open spec fn view(&self) -> CstAttr {
        attr_view(*self)
    }
}

impl View for Attrpath {
    type V = Seq<CstAttr>;

    open spec fn view(&self) -> Seq<CstAttr> {
        attrs_view(self.attrs@)
    }
}

impl View for InterpolPart {
    type V = CstPart;

    open spec fn view(&self) -> CstPart {
        part_view(*self)
    }
}

impl View for Entry {
    type V = CstEntry;

    open spec fn view(&self) -> CstEntry {
        entry_view(*self)
    }
}

impl View for Param {
    type V = CstParam;

    open spec fn view(&self) -> CstParam {
        param_view(*self)
    }
}

impl View for PatEntry {
    type V = CstPatEntry;

    open spec fn view(&self) -> CstPatEntry {
        pat_entry_view(*self)
    }
}

fn clone_boxed(x: &Box<RNixExpr>) -> (r: Box<RNixExpr>)
    ensures
        boxed_view(r) == boxed_view(*x),
    decreases x, 1nat,
{
    Box::new(clone_expr(&**x))
}

fn clone_optional(x: &Option<Box<RNixExpr>>) -> (r: Option<Box<RNixExpr>>)
    ensures
        optional_view(r) == optional_view(*x),
    decreases x, 2nat,
{
    match x {
        Some(b) => Some(clone_boxed(b)),
        None => None,
    }
}

fn clone_apply(x: &Apply) -> (r: Apply)
    ensures
        cst_view(RNixExpr::Apply(r)) == cst_view(RNixExpr::Apply(*x)),
    decreases x, 0nat,
{
    Apply {
        lambda: clone_boxed(&x.lambda),
        argument: clone_boxed(&x.argument),
    }
}

fn clone_assert(x: &Assert) -> (r: Assert)
    ensures
        cst_view(RNixExpr::Assert(r)) == cst_view(RNixExpr::Assert(*x)),
    decreases x, 0nat,
{
    Assert {
        condition: clone_boxed(&x.condition),
        body: clone_boxed(&x.body),
    }
}

fn clone_if_else(x: &IfElse) -> (r: IfElse)
    ensures
        cst_view(RNixExpr::IfElse(r)) == cst_view(RNixExpr::IfElse(*x)),
    decreases x, 0nat,
{
    IfElse {
        condition: clone_boxed(&x.condition),
        body: clone_boxed(&x.body),
        else_body: clone_boxed(&x.else_body),
    }
}

fn clone_select(x: &Select) -> (r: Select)
    ensures
        cst_view(RNixExpr::Select(r)) == cst_view(RNixExpr::Select(*x)),
    decreases x, 0nat,
{
    Select {
        expr: clone_boxed(&x.expr),
        attrpath: clone_attrpath(&x.attrpath),
        default_expr: clone_optional(&x.default_expr),
    }
}

fn clone_str(x: &Str) -> (r: Str)
    ensures
        cst_view(RNixExpr::Str(r)) == cst_view(RNixExpr::Str(*x)),
    decreases x, 0nat,
{
    Str {
        parts: clone_parts(&x.parts),
    }
}

fn clone_path(x: &Path) -> (r: Path)
    ensures
        cst_view(RNixExpr::Path(r)) == cst_view(RNixExpr::Path(*x)),
    decreases x, 0nat,
{
    Path {
        parts: clone_parts(&x.parts),
    }
}

fn clone_literal(x: &Literal) -> (r: Literal)
    ensures
        cst_view(RNixExpr::Literal(r)) == cst_view(RNixExpr::Literal(*x)),
    decreases x, 0nat,
{
    Literal {
        kind: clone_literal_kind(&x.kind),
    }
}

fn clone_lambda(x: &Lambda) -> (r: Lambda)
    ensures
        cst_view(RNixExpr::Lambda(r)) == cst_view(RNixExpr::Lambda(*x)),
    decreases x, 0nat,
{
    Lambda {
        param: clone_param(&x.param),
        body: clone_boxed(&x.body),
    }
}

fn clone_legacy_let(x: &LegacyLet) -> (r: LegacyLet)
    ensures
        cst_view(RNixExpr::LegacyLet(r)) == cst_view(RNixExpr::LegacyLet(*x)),
    decreases x, 0nat,
{
    LegacyLet {
        entries: clone_entries(&x.entries),
    }
}

fn clone_let_in(x: &LetIn) -> (r: LetIn)
    ensures
        cst_view(RNixExpr::LetIn(r)) == cst_view(RNixExpr::LetIn(*x)),
    decreases x, 0nat,
{
    LetIn {
        entries: clone_entries(&x.entries),
        body: clone_boxed(&x.body),
    }
}

fn clone_list(x: &List) -> (r: List)
    ensures
        cst_view(RNixExpr::List(r)) == cst_view(RNixExpr::List(*x)),
    decreases x, 0nat,
{
    List {
        items: clone_exprs(&x.items),
    }
}

fn clone_bin_op(x: &BinOp) -> (r: BinOp)
    ensures
        cst_view(RNixExpr::BinOp(r)) == cst_view(RNixExpr::BinOp(*x)),
    decreases x, 0nat,
{
    BinOp {
        lhs: clone_boxed(&x.lhs),
        operator: x.operator,
        rhs: clone_boxed(&x.rhs),
    }
}

fn clone_paren(x: &Paren) -> (r: Paren)
    ensures
        cst_view(RNixExpr::Paren(r)) == cst_view(RNixExpr::Paren(*x)),
    decreases x, 0nat,
{
    Paren {
        expr: clone_boxed(&x.expr),
    }
}

fn clone_root(x: &Root) -> (r: Root)
    ensures
        cst_view(RNixExpr::Root(r)) == cst_view(RNixExpr::Root(*x)),
    decreases x, 0nat,
{
    Root {
        expr: clone_boxed(&x.expr),
    }
}

fn clone_attr_set(x: &AttrSet) -> (r: AttrSet)
    ensures
        cst_view(RNixExpr::AttrSet(r)) == cst_view(RNixExpr::AttrSet(*x)),
    decreases x, 0nat,
{
    AttrSet {
        entries: clone_entries(&x.entries),
        recursive: x.recursive,
    }
}

fn clone_unary_op(x: &UnaryOp) -> (r: UnaryOp)
    ensures
        cst_view(RNixExpr::UnaryOp(r)) == cst_view(RNixExpr::UnaryOp(*x)),
    decreases x, 0nat,
{
    UnaryOp {
        operator: x.operator,
        expr: clone_boxed(&x.expr),
    }
}

fn clone_ident(x: &Ident) -> (r: Ident)
    ensures
        r.inner@ == x.inner@,
    decreases x, 0nat,
{
    Ident {
        inner: x.inner.clone(),
    }
}

fn clone_with(x: &With) -> (r: With)
    ensures
        cst_view(RNixExpr::With(r)) == cst_view(RNixExpr::With(*x)),
    decreases x, 0nat,
{
    With {
        namespace: clone_boxed(&x.namespace),
        body: clone_boxed(&x.body),
    }
}

fn clone_has_attr(x: &HasAttr) -> (r: HasAttr)
    ensures
        cst_view(RNixExpr::HasAttr(r)) == cst_view(RNixExpr::HasAttr(*x)),
    decreases x, 0nat,
{
    HasAttr {
        expr: clone_boxed(&x.expr),
        attrpath: clone_attrpath(&x.attrpath),
    }
}

fn clone_expr(x: &RNixExpr) -> (r: RNixExpr)
    ensures
        cst_view(r) == cst_view(*x),
    decreases x, 0nat,
{
    match x {
        RNixExpr::Apply(n) => RNixExpr::Apply(clone_apply(n)),
        RNixExpr::Assert(n) => RNixExpr::Assert(clone_assert(n)),
        RNixExpr::IfElse(n) => RNixExpr::IfElse(clone_if_else(n)),
        RNixExpr::Select(n) => RNixExpr::Select(clone_select(n)),
        RNixExpr::Str(n) => RNixExpr::Str(clone_str(n)),
        RNixExpr::Path(n) => RNixExpr::Path(clone_path(n)),
        RNixExpr::Literal(n) => RNixExpr::Literal(clone_literal(n)),
        RNixExpr::Lambda(n) => RNixExpr::Lambda(clone_lambda(n)),
        RNixExpr::LegacyLet(n) => RNixExpr::LegacyLet(clone_legacy_let(n)),
        RNixExpr::LetIn(n) => RNixExpr::LetIn(clone_let_in(n)),
        RNixExpr::List(n) => RNixExpr::List(clone_list(n)),
        RNixExpr::BinOp(n) => RNixExpr::BinOp(clone_bin_op(n)),
        RNixExpr::Paren(n) => RNixExpr::Paren(clone_paren(n)),
        RNixExpr::Root(n) => RNixExpr::Root(clone_root(n)),
        RNixExpr::AttrSet(n) => RNixExpr::AttrSet(clone_attr_set(n)),
        RNixExpr::UnaryOp(n) => RNixExpr::UnaryOp(clone_unary_op(n)),
        RNixExpr::Ident(n) => RNixExpr::Ident(clone_ident(n)),
        RNixExpr::With(n) => RNixExpr::With(clone_with(n)),
        RNixExpr::HasAttr(n) => RNixExpr::HasAttr(clone_has_attr(n)),
    }
}

fn clone_exprs(xs: &Vec<RNixExpr>) -> (r: Vec<RNixExpr>)
    ensures
        csts_view(r@) == csts_view(xs@),
    decreases xs, 0nat,
{
    let mut r: Vec<RNixExpr> = Vec::new();
    let mut i: usize = 0;
    while i < xs.len()
        invariant
            i <= xs.len(),
            r.len() == i,
            forall|j: int| 0 <= j < i ==> cst_view(r[j]) == cst_view(xs[j]),
        decreases xs.len() - i,
    {
        r.push(clone_expr(&xs[i]));
        i = i + 1;
    }
    assert(csts_view(r@) =~= csts_view(xs@));
    r
}

fn clone_literal_kind(x: &LiteralKind) -> (r: LiteralKind)
    ensures
        cst_view(RNixExpr::Literal(Literal { kind: r })) == cst_view(
            RNixExpr::Literal(Literal { kind: *x }),
        ),
    decreases x, 0nat,
{
    match x {
        LiteralKind::Float(bits) => LiteralKind::Float(*bits),
        LiteralKind::Integer(n) => LiteralKind::Integer(*n),
        LiteralKind::Uri(s) => LiteralKind::Uri(s.clone()),
    }
}

fn clone_dynamic(x: &Dynamic) -> (r: Dynamic)
    ensures
        attr_view(Attr::Dynamic(r)) == attr_view(Attr::Dynamic(*x)),
    decreases x, 0nat,
{
    Dynamic {
        expr: clone_boxed(&x.expr),
    }
}

fn clone_attr(x: &Attr) -> (r: Attr)
    ensures
        attr_view(r) == attr_view(*x),
    decreases x, 0nat,
{
    match x {
        Attr::Ident(i) => Attr::Ident(clone_ident(i)),
        Attr::Dynamic(d) => Attr::Dynamic(clone_dynamic(d)),
        Attr::Str(s) => Attr::Str(clone_str(s)),
    }
}

fn clone_attrs(xs: &Vec<Attr>) -> (r: Vec<Attr>)
    ensures
        attrs_view(r@) == attrs_view(xs@),
    decreases xs, 0nat,
{
    let mut r: Vec<Attr> = Vec::new();
    let mut i: usize = 0;
    while i < xs.len()
        invariant
            i <= xs.len(),
            r.len() == i,
            forall|j: int| 0 <= j < i ==> attr_view(r[j]) == attr_view(xs[j]),
        decreases xs.len() - i,
    {
        r.push(clone_attr(&xs[i]));
        i = i + 1;
    }
    assert(attrs_view(r@) =~= attrs_view(xs@));
    r
}

fn clone_attrpath(x: &Attrpath) -> (r: Attrpath)
    ensures
        attrs_view(r.attrs@) == attrs_view(x.attrs@),
    decreases x, 0nat,
{
    Attrpath { attrs: clone_attrs(&x.attrs) }
}

fn clone_str_interpol(x: &StrInterpol) -> (r: StrInterpol)
    ensures
        part_view(InterpolPart::Interpolation(r)) == part_view(InterpolPart::Interpolation(*x)),
    decreases x, 0nat,
{
    StrInterpol {
        expr: clone_boxed(&x.expr),
    }
}

fn clone_part(x: &InterpolPart) -> (r: InterpolPart)
    ensures
        part_view(r) == part_view(*x),
    decreases x, 0nat,
{
    match x {
        InterpolPart::Literal(s) => InterpolPart::Literal(s.clone()),
        InterpolPart::Interpolation(i) => InterpolPart::Interpolation(clone_str_interpol(i)),
    }
}

fn clone_parts(xs: &Vec<InterpolPart>) -> (r: Vec<InterpolPart>)
    ensures
        parts_view(r@) == parts_view(xs@),
    decreases xs, 0nat,
{
    let mut r: Vec<InterpolPart> = Vec::new();
    let mut i: usize = 0;
    while i < xs.len()
        invariant
            i <= xs.len(),
            r.len() == i,
            forall|j: int| 0 <= j < i ==> part_view(r[j]) == part_view(xs[j]),
        decreases xs.len() - i,
    {
        r.push(clone_part(&xs[i]));
        i = i + 1;
    }
    assert(parts_view(r@) =~= parts_view(xs@));
    r
}

fn clone_inherit_from(x: &InheritFrom) -> (r: InheritFrom)
    ensures
        boxed_view(r.expr) == boxed_view(x.expr),
    decreases x, 0nat,
{
    InheritFrom {
        expr: clone_boxed(&x.expr),
    }
}

fn clone_idents(xs: &Vec<Ident>) -> (r: Vec<Ident>)
    ensures
        idents_view(r@) == idents_view(xs@),
{
    let mut r: Vec<Ident> = Vec::new();
    let mut i: usize = 0;
    while i < xs.len()
        invariant
            i <= xs.len(),
            r.len() == i,
            forall|j: int| 0 <= j < i ==> r[j].inner@ == xs[j].inner@,
        decreases xs.len() - i,
    {
        r.push(Ident { inner: xs[i].inner.clone() });
        i = i + 1;
    }
    assert(idents_view(r@) =~= idents_view(xs@));
    r
}

fn clone_inherit(x: &Inherit) -> (r: Inherit)
    ensures
        entry_view(Entry::Inherit(r)) == entry_view(Entry::Inherit(*x)),
    decreases x, 0nat,
{
    Inherit {
        from: match &x.from {
            Some(f) => Some(clone_inherit_from(f)),
            None => None,
        },
        idents: clone_idents(&x.idents),
    }
}

fn clone_attrpath_value(x: &AttrpathValue) -> (r: AttrpathValue)
    ensures
        entry_view(Entry::AttrpathValue(r)) == entry_view(Entry::AttrpathValue(*x)),
    decreases x, 0nat,
{
    AttrpathValue {
        attrpath: clone_attrpath(&x.attrpath),
        value: clone_boxed(&x.value),
    }
}

fn clone_entry(x: &Entry) -> (r: Entry)
    ensures
        entry_view(r) == entry_view(*x),
    decreases x, 0nat,
{
    match x {
        Entry::Inherit(i) => Entry::Inherit(clone_inherit(i)),
        Entry::AttrpathValue(v) => Entry::AttrpathValue(clone_attrpath_value(v)),
    }
}

fn clone_entries(xs: &Vec<Entry>) -> (r: Vec<Entry>)
    ensures
        entries_view(r@) == entries_view(xs@),
    decreases xs, 0nat,
{
    let mut r: Vec<Entry> = Vec::new();
    let mut i: usize = 0;
    while i < xs.len()
        invariant
            i <= xs.len(),
            r.len() == i,
            forall|j: int| 0 <= j < i ==> entry_view(r[j]) == entry_view(xs[j]),
        decreases xs.len() - i,
    {
        r.push(clone_entry(&xs[i]));
        i = i + 1;
    }
    assert(entries_view(r@) =~= entries_view(xs@));
    r
}

fn clone_pat_bind(x: &PatBind) -> (r: PatBind)
    ensures
        r.ident.inner@ == x.ident.inner@,
    decreases x, 0nat,
{
    PatBind {
        ident: clone_ident(&x.ident),
    }
}

fn clone_ident_param(x: &IdentParam) -> (r: IdentParam)
    ensures
        param_view(Param::IdentParam(r)) == param_view(Param::IdentParam(*x)),
    decreases x, 0nat,
{
    IdentParam {
        ident: clone_ident(&x.ident),
    }
}

fn clone_pat_entry(x: &PatEntry) -> (r: PatEntry)
    ensures
        pat_entry_view(r) == pat_entry_view(*x),
    decreases x, 0nat,
{
    PatEntry {
        ident: clone_ident(&x.ident),
        default: match &x.default {
            Some(d) => Some(clone_boxed(d)),
            None => None,
        },
    }
}

fn clone_pat_entries(xs: &Vec<PatEntry>) -> (r: Vec<PatEntry>)
    ensures
        pat_entries_view(r@) == pat_entries_view(xs@),
    decreases xs, 0nat,
{
    let mut r: Vec<PatEntry> = Vec::new();
    let mut i: usize = 0;
    while i < xs.len()
        invariant
            i <= xs.len(),
            r.len() == i,
            forall|j: int| 0 <= j < i ==> pat_entry_view(r[j]) == pat_entry_view(xs[j]),
        decreases xs.len() - i,
    {
        r.push(clone_pat_entry(&xs[i]));
        i = i + 1;
    }
    assert(pat_entries_view(r@) =~= pat_entries_view(xs@));
    r
}

fn clone_pattern(x: &Pattern) -> (r: Pattern)
    ensures
        param_view(Param::Pattern(r)) == param_view(Param::Pattern(*x)),
    decreases x, 0nat,
{
    Pattern {
        pat_entries: clone_pat_entries(&x.pat_entries),
        ellipsis: x.ellipsis,
        pat_bind: match &x.pat_bind {
            Some(b) => Some(clone_pat_bind(b)),
            None => None,
        },
    }
}

fn clone_param(x: &Param) -> (r: Param)
    ensures
        param_view(r) == param_view(*x),
    decreases x, 0nat,
{
    match x {
        Param::Pattern(p) => Param::Pattern(clone_pattern(p)),
        Param::IdentParam(i) => Param::IdentParam(clone_ident_param(i)),
    }
}

impl Clone for Apply {
    fn clone(&self) -> (r: Self)
        ensures
            cst_view(RNixExpr::Apply(r)) == cst_view(RNixExpr::Apply(*self)),
    {
        clone_apply(self)
    }
}

impl Clone for Assert {
    fn clone(&self) -> (r: Self)
        ensures
            cst_view(RNixExpr::Assert(r)) == cst_view(RNixExpr::Assert(*self)),
    {
        clone_assert(self)
    }
}

impl Clone for IfElse {
    fn clone(&self) -> (r: Self)
        ensures
            cst_view(RNixExpr::IfElse(r)) == cst_view(RNixExpr::IfElse(*self)),
    {
        clone_if_else(self)
    }
}

impl Clone for Select {
    fn clone(&self) -> (r: Self)
        ensures
            cst_view(RNixExpr::Select(r)) == cst_view(RNixExpr::Select(*self)),
    {
        clone_select(self)
    }
}

impl Clone for Str {
    fn clone(&self) -> (r: Self)
        ensures
            cst_view(RNixExpr::Str(r)) == cst_view(RNixExpr::Str(*self)),
    {
        clone_str(self)
    }
}

impl Clone for Path {
    fn clone(&self) -> (r: Self)
        ensures
            cst_view(RNixExpr::Path(r)) == cst_view(RNixExpr::Path(*self)),
    {
        clone_path(self)
    }
}

impl Clone for Literal {
    fn clone(&self) -> (r: Self)
        ensures
            cst_view(RNixExpr::Literal(r)) == cst_view(RNixExpr::Literal(*self)),
    {
        clone_literal(self)
    }
}

impl Clone for Lambda {
    fn clone(&self) -> (r: Self)
        ensures
            cst_view(RNixExpr::Lambda(r)) == cst_view(RNixExpr::Lambda(*self)),
    {
        clone_lambda(self)
    }
}

impl Clone for LegacyLet {
    fn clone(&self) -> (r: Self)
        ensures
            cst_view(RNixExpr::LegacyLet(r)) == cst_view(RNixExpr::LegacyLet(*self)),
    {
        clone_legacy_let(self)
    }
}

impl Clone for LetIn {
    fn clone(&self) -> (r: Self)
        ensures
            cst_view(RNixExpr::LetIn(r)) == cst_view(RNixExpr::LetIn(*self)),
    {
        clone_let_in(self)
    }
}

impl Clone for List {
    fn clone(&self) -> (r: Self)
        ensures
            cst_view(RNixExpr::List(r)) == cst_view(RNixExpr::List(*self)),
    {
        clone_list(self)
    }
}

impl Clone for BinOp {
    fn clone(&self) -> (r: Self)
        ensures
            cst_view(RNixExpr::BinOp(r)) == cst_view(RNixExpr::BinOp(*self)),
    {
        clone_bin_op(self)
    }
}

impl Clone for Paren {
    fn clone(&self) -> (r: Self)
        ensures
            cst_view(RNixExpr::Paren(r)) == cst_view(RNixExpr::Paren(*self)),
    {
        clone_paren(self)
    }
}

impl Clone for Root {
    fn clone(&self) -> (r: Self)
        ensures
            cst_view(RNixExpr::Root(r)) == cst_view(RNixExpr::Root(*self)),
    {
        clone_root(self)
    }
}

impl Clone for AttrSet {
    fn clone(&self) -> (r: Self)
        ensures
            cst_view(RNixExpr::AttrSet(r)) == cst_view(RNixExpr::AttrSet(*self)),
    {
        clone_attr_set(self)
    }
}

impl Clone for UnaryOp {
    fn clone(&self) -> (r: Self)
        ensures
            cst_view(RNixExpr::UnaryOp(r)) == cst_view(RNixExpr::UnaryOp(*self)),
    {
        clone_unary_op(self)
    }
}

impl Clone for Ident {
    fn clone(&self) -> (r: Self)
        ensures
            r.inner@ == self.inner@,
    {
        clone_ident(self)
    }
}

impl Clone for With {
    fn clone(&self) -> (r: Self)
        ensures
            cst_view(RNixExpr::With(r)) == cst_view(RNixExpr::With(*self)),
    {
        clone_with(self)
    }
}

impl Clone for HasAttr {
    fn clone(&self) -> (r: Self)
        ensures
            cst_view(RNixExpr::HasAttr(r)) == cst_view(RNixExpr::HasAttr(*self)),
    {
        clone_has_attr(self)
    }
}

impl Clone for RNixExpr {
    fn clone(&self) -> (r: Self)
        ensures
            r@ == self@,
    {
        clone_expr(self)
    }
}

impl Clone for LiteralKind {
    fn clone(&self) -> (r: Self)
        ensures
            cst_view(RNixExpr::Literal(Literal { kind: r })) == cst_view(
                RNixExpr::Literal(Literal { kind: *self }),
            ),
    {
        clone_literal_kind(self)
    }
}

impl Clone for Dynamic {
    fn clone(&self) -> (r: Self)
        ensures
            attr_view(Attr::Dynamic(r)) == attr_view(Attr::Dynamic(*self)),
    {
        clone_dynamic(self)
    }
}

impl Clone for Attr {
    fn clone(&self) -> (r: Self)
        ensures
            r@ == self@,
    {
        clone_attr(self)
    }
}

impl Clone for Attrpath {
    fn clone(&self) -> (r: Self)
        ensures
            r@ == self@,
    {
        clone_attrpath(self)
    }
}

impl Clone for StrInterpol {
    fn clone(&self) -> (r: Self)
        ensures
            part_view(InterpolPart::Interpolation(r)) == part_view(
                InterpolPart::Interpolation(*self),
            ),
    {
        clone_str_interpol(self)
    }
}

impl Clone for InterpolPart {
    fn clone(&self) -> (r: Self)
        ensures
            r@ == self@,
    {
        clone_part(self)
    }
}

impl Clone for InheritFrom {
    fn clone(&self) -> (r: Self)
        ensures
            boxed_view(r.expr) == boxed_view(self.expr),
    {
        clone_inherit_from(self)
    }
}

impl Clone for Inherit {
    fn clone(&self) -> (r: Self)
        ensures
            entry_view(Entry::Inherit(r)) == entry_view(Entry::Inherit(*self)),
    {
        clone_inherit(self)
    }
}

impl Clone for AttrpathValue {
    fn clone(&self) -> (r: Self)
        ensures
            entry_view(Entry::AttrpathValue(r)) == entry_view(Entry::AttrpathValue(*self)),
    {
        clone_attrpath_value(self)
    }
}

impl Clone for Entry {
    fn clone(&self) -> (r: Self)
        ensures
            r@ == self@,
    {
        clone_entry(self)
    }
}

impl Clone for PatBind {
    fn clone(&self) -> (r: Self)
        ensures
            r.ident.inner@ == self.ident.inner@,
    {
        clone_pat_bind(self)
    }
}

impl Clone for IdentParam {
    fn clone(&self) -> (r: Self)
        ensures
            param_view(Param::IdentParam(r)) == param_view(Param::IdentParam(*self)),
    {
        clone_ident_param(self)
    }
}

impl Clone for PatEntry {
    fn clone(&self) -> (r: Self)
        ensures
            r@ == self@,
    {
        clone_pat_entry(self)
    }
}

impl Clone for Pattern {
    fn clone(&self) -> (r: Self)
        ensures
            param_view(Param::Pattern(r)) == param_view(Param::Pattern(*self)),
    {
        clone_pattern(self)
    }
}

impl Clone for Param {
    fn clone(&self) -> (r: Self)
        ensures
            r@ == self@,
    {
        clone_param(self)
    }
}

} // verus!
