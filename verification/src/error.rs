//! What normalization reports when a tree cannot be brought into canonical
//! form.

use crate::text::concatenate;
use vstd::prelude::*;

verus! {

/// Why two bindings of one name cannot stand in the same attribute set.
#[derive(Clone, Copy, Debug, PartialEq, Eq, Structural)]
pub enum Conflict {
    /// One of the two is inherited.
    Inherited,
    /// One of the two values is not an attribute set.
    NotAttrSet,
}

/// The kind of node at which a tree was found to be malformed.
#[derive(Clone, Copy, Debug, PartialEq, Eq, Structural)]
pub enum NodeKind {
    Str,
    Path,
    Select,
    HasAttr,
    AttrpathValue,
}

/// What is wrong with a malformed node.
#[derive(Clone, Copy, Debug, PartialEq, Eq, Structural)]
pub enum Defect {
    /// Text without interpolation came in more than one part.
    AdjacentLiterals,
    /// A path with interpolation does not start with text.
    LeadingInterpolation,
    /// A path has no parts at all.
    NoParts,
    /// A path opens with `<` and does not close with `>`.
    UnclosedSearchPath,
    /// An attribute path has no steps.
    EmptyAttrpath,
}

/// A failure of normalization.
#[derive(Debug, PartialEq)]
pub enum NormalizeError {
    /// The program binds `name` twice in one attribute set, in a way that
    /// the two bindings cannot be merged.
    DuplicateAttr { name: String, conflict: Conflict },
    /// The tree breaks a rule that every tree of a parsed program keeps.
    Malformed { node: NodeKind, defect: Defect },
}

/// The mathematical value of a [`NormalizeError`].
pub enum ErrorView {
    DuplicateAttr { name: Seq<char>, conflict: Conflict },
    Malformed { node: NodeKind, defect: Defect },
}

impl View for NormalizeError {
    type V = ErrorView;

    open spec fn view(&self) -> ErrorView {
        match self {
            NormalizeError::DuplicateAttr { name, conflict } => ErrorView::DuplicateAttr {
                name: name@,
                conflict: *conflict,
            },
            NormalizeError::Malformed { node, defect } => ErrorView::Malformed {
                node: *node,
                defect: *defect,
            },
        }
    }
}

/// The name of a kind of node.
pub open spec fn node_name(node: NodeKind) -> Seq<char> {
    match node {
        NodeKind::Str => "Str"@,
        NodeKind::Path => "Path"@,
        NodeKind::Select => "Select"@,
        NodeKind::HasAttr => "HasAttr"@,
        NodeKind::AttrpathValue => "AttrpathValue"@,
    }
}

/// What a defect is, in words.
pub open spec fn defect_text(defect: Defect) -> Seq<char> {
    match defect {
        Defect::AdjacentLiterals => "several literal parts and no interpolation"@,
        Defect::LeadingInterpolation => "the first part is an interpolation"@,
        Defect::NoParts => "no parts"@,
        Defect::UnclosedSearchPath => "a search path without its closing bracket"@,
        Defect::EmptyAttrpath => "an attribute path without steps"@,
    }
}

/// The message of a failure.
pub open spec fn describe_spec(e: ErrorView) -> Seq<char> {
    match e {
        ErrorView::DuplicateAttr { name, conflict } => match conflict {
            Conflict::Inherited => name + " is inherited, but inherited defs cannot be merged."@,
            Conflict::NotAttrSet => "Cannot merge "@ + name
                + ", because one of the values is not an attrset"@,
        },
        ErrorView::Malformed { node, defect } => "Malformed "@ + node_name(node) + ": "@
            + defect_text(defect),
    }
}

impl NodeKind {
    /// The name of this kind of node.
    pub fn name(&self) -> (s: &'static str)
        ensures
            s@ == node_name(*self),
    {
        match self {
            NodeKind::Str => "Str",
            NodeKind::Path => "Path",
            NodeKind::Select => "Select",
            NodeKind::HasAttr => "HasAttr",
            NodeKind::AttrpathValue => "AttrpathValue",
        }
    }
}

impl Defect {
    /// What this defect is, in words.
    pub fn text(&self) -> (s: &'static str)
        ensures
            s@ == defect_text(*self),
    {
        match self {
            Defect::AdjacentLiterals => "several literal parts and no interpolation",
            Defect::LeadingInterpolation => "the first part is an interpolation",
            Defect::NoParts => "no parts",
            Defect::UnclosedSearchPath => "a search path without its closing bracket",
            Defect::EmptyAttrpath => "an attribute path without steps",
        }
    }
}

impl NormalizeError {
    /// The message of this failure: it names the attribute and the kind of
    /// conflict, or the kind of node and what is wrong with it.
    pub fn describe(&self) -> (s: String)
        ensures
            s@ == describe_spec(self@),
    {
        match self {
            NormalizeError::DuplicateAttr { name, conflict } => match conflict {
                Conflict::Inherited => concatenate(
                    name.as_str(),
                    " is inherited, but inherited defs cannot be merged.",
                ),
                Conflict::NotAttrSet => {
                    let start = concatenate("Cannot merge ", name.as_str());
                    concatenate(start.as_str(), ", because one of the values is not an attrset")
                },
            },
            NormalizeError::Malformed { node, defect } => {
                let start = concatenate("Malformed ", node.name());
                let middle = concatenate(start.as_str(), ": ");
                concatenate(middle.as_str(), defect.text())
            },
        }
    }
}

} // verus!
