//! Normalization of Nix concrete syntax trees into the canonical abstract
//! shape that the reference Nix parser emits, with the path and attribute
//! utilities that normalization rests on.

pub mod check;
pub mod error;
pub mod merge;
pub mod merge_laws;
pub mod nix_path;
pub mod normal_ast;
pub mod normalize;
pub mod normalize_laws;
pub mod path;
pub mod rnix_ast;
pub mod text;
pub mod value;
pub mod well_formed;

pub use check::{check_outcome, CheckResult, JsonMismatch, NixSource};
pub use normalize::normalize_nix_expr;
pub use path::canonicalize;
pub use value::{parse_path, Anchor};
