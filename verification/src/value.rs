//! Classification of path literals by their anchor.

use vstd::prelude::*;

verus! {

/// What a path literal is resolved against.
#[derive(Clone, Copy, Debug, PartialEq, Eq, Structural)]
pub enum Anchor {
    /// The literal starts at the file system root.
    Absolute,
    /// The literal is resolved against the directory of the file it stands in.
    Relative,
    /// The literal starts with `~/` and is resolved against the home directory.
    Home,
    /// The literal is written `<...>` and is looked up on the search path.
    Store,
}

/// A literal that opens with `<` also closes with `>`.
pub open spec fn store_literal_closed(s: Seq<char>) -> bool {
    s.len() > 0 && s[0] == '<' ==> s.len() >= 2 && s.last() == '>'
}

/// The anchor of the literal `s` and the text that is left once the anchor's
/// own marks (`<`, `>`, `~/`) are taken off.
pub open spec fn parse_path_spec(s: Seq<char>) -> (Anchor, Seq<char>) {
    if s.len() > 0 && s[0] == '<' {
        (Anchor::Store, s.subrange(1, s.len() - 1))
    } else if s.len() >= 2 && s[0] == '~' && s[1] == '/' {
        (Anchor::Home, s.skip(2))
    } else if s.len() > 0 && s[0] == '/' {
        (Anchor::Absolute, s)
    } else {
        (Anchor::Relative, s)
    }
}

/// Whether `s` meets [`store_literal_closed`].
pub fn is_store_literal_closed(s: &str) -> (ok: bool)
    ensures
        ok == store_literal_closed(s@),
{
    let n = s.unicode_len();
    if n > 0 && s.get_char(0) == '<' {
        n >= 2 && s.get_char(n - 1) == '>'
    } else {
        true
    }
}

/// Splits a path literal into its anchor and the rest of its text.
pub fn parse_path(s: String) -> (r: (Anchor, String))
    requires
        store_literal_closed(s@),
    ensures
        r.0 == parse_path_spec(s@).0,
        r.1@ == parse_path_spec(s@).1,
{
    let n = s.as_str().unicode_len();
    if n > 0 && s.as_str().get_char(0) == '<' {
        (Anchor::Store, s.as_str().substring_char(1, n - 1).to_owned())
    } else if n >= 2 && s.as_str().get_char(0) == '~' && s.as_str().get_char(1) == '/' {
        let rest = s.as_str().substring_char(2, n).to_owned();
        assert(s@.subrange(2, n as int) =~= s@.skip(2));
        (Anchor::Home, rest)
    } else if n > 0 && s.as_str().get_char(0) == '/' {
        (Anchor::Absolute, s)
    } else {
        (Anchor::Relative, s)
    }
}

} // verus!
