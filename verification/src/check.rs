//! The outcome of comparing what the reference parser gives for a program
//! with what normalization gives for it.

use vstd::prelude::*;

verus! {

/// `std::path::PathBuf`, carried through without a look inside.
#[verifier::external_type_specification]
#[verifier::external_body]
pub struct ExPathBuf(std::path::PathBuf);

/// Where a program comes from.
pub enum NixSource {
    /// The program's text.
    String(String),
    /// The file that holds the program.
    File(std::path::PathBuf),
}

/// How the comparison of the two sides ended.
#[derive(Debug, PartialEq)]
pub enum CheckResult {
    /// Both sides gave the same tree.
    Equal,
    /// Both sides gave a tree, and the two differ as the text says.
    NotEqual(String),
    /// The reference parser failed, with this message.
    ReferenceImplError(String),
    /// Parsing or normalization failed, with this message.
    RNixError(String),
}

/// The difference between two JSON values, as text.
#[derive(Debug, PartialEq)]
pub struct JsonMismatch(pub String);

/// The mathematical value of a [`CheckResult`].
pub enum CheckResultView {
    Equal,
    NotEqual(Seq<char>),
    ReferenceImplError(Seq<char>),
    RNixError(Seq<char>),
}

impl View for CheckResult {
    type V = CheckResultView;

    open spec fn view(&self) -> CheckResultView {
        match self {
            CheckResult::Equal => CheckResultView::Equal,
            CheckResult::NotEqual(m) => CheckResultView::NotEqual(m@),
            CheckResult::ReferenceImplError(m) => CheckResultView::ReferenceImplError(m@),
            CheckResult::RNixError(m) => CheckResultView::RNixError(m@),
        }
    }
}

/// How a comparison ends: a failure of the reference parser counts first,
/// then one of the other side, then a difference between the two trees.
pub open spec fn check_outcome_spec(
    reference: Result<Seq<char>, Seq<char>>,
    rnix: Result<Seq<char>, Seq<char>>,
    mismatch: Option<Seq<char>>,
) -> CheckResultView {
    match reference {
        Err(e) => CheckResultView::ReferenceImplError(e),
        Ok(_) => match rnix {
            Err(e) => CheckResultView::RNixError(e),
            Ok(_) => match mismatch {
                Some(m) => CheckResultView::NotEqual(m),
                None => CheckResultView::Equal,
            },
        },
    }
}

/// The value of what one side gave: its JSON, or the message of its failure.
pub open spec fn text_result_view(r: Result<String, String>) -> Result<Seq<char>, Seq<char>> {
    match r {
        Ok(s) => Ok(s@),
        Err(e) => Err(e@),
    }
}

/// The value of an optional text.
pub open spec fn optional_text_view(m: Option<String>) -> Option<Seq<char>> {
    match m {
        Some(s) => Some(s@),
        None => None,
    }
}

/// Decides how a comparison ended, from what each side gave (its JSON or
/// the message of its failure) and from the difference that was found
/// between the two, if there was one.
pub fn check_outcome(
    reference: Result<String, String>,
    rnix: Result<String, String>,
    mismatch: Option<String>,
) -> (r: CheckResult)
    ensures
        r@ == check_outcome_spec(
            text_result_view(reference),
            text_result_view(rnix),
            optional_text_view(mismatch),
        ),
{
    match reference {
        Err(e) => CheckResult::ReferenceImplError(e),
        Ok(_) => match rnix {
            Err(e) => CheckResult::RNixError(e),
            Ok(_) => match mismatch {
                Some(m) => CheckResult::NotEqual(m),
                None => CheckResult::Equal,
            },
        },
    }
}

impl JsonMismatch {
    /// The text of the difference.
    pub fn message(&self) -> (m: String)
        ensures
            m@ == self.0@,
    {
        self.0.clone()
    }
}

} // verus!
