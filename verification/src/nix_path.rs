//! Finding files of the package collection: the names written `<...>` and
//! the search path that says where the collection lies.

use crate::text::{
    chars_from, chars_of, has_prefix, segments_view, split_chars, split_on, starts_with, string_of,
};
use vstd::prelude::*;

verus! {

/// What stands between the angle brackets, if `file` opens with `<` and
/// closes with `>`.
pub open spec fn bracketed_name_spec(file: Seq<char>) -> Option<Seq<char>> {
    if file.len() >= 2 && file[0] == '<' && file.last() == '>' {
        Some(file.subrange(1, file.len() - 1))
    } else {
        None
    }
}

/// The first of `segs` that starts with `prefix`, without the prefix.
pub open spec fn first_with_prefix(segs: Seq<Seq<char>>, prefix: Seq<char>) -> Option<Seq<char>>
    decreases segs.len(),
{
    if segs.len() == 0 {
        None
    } else if starts_with(segs[0], prefix) {
        Some(segs[0].skip(prefix.len() as int))
    } else {
        first_with_prefix(segs.drop_first(), prefix)
    }
}

/// Where a search path says that the package collection lies: what
/// follows `nixpkgs=` in the first of its entries, which colons separate,
/// that starts so.
pub open spec fn path_to_nixpkgs_spec(nix_path: Seq<char>) -> Option<Seq<char>> {
    first_with_prefix(split_on(nix_path, ':'), "nixpkgs="@)
}

/// The value of an optional string.
pub open spec fn optional_string_view(s: Option<String>) -> Option<Seq<char>> {
    match s {
        Some(s) => Some(s@),
        None => None,
    }
}

/// The name of a file of the package collection, if `file` is written
/// `<name>`.
pub fn bracketed_name(file: &str) -> (r: Option<String>)
    ensures
        optional_string_view(r) == bracketed_name_spec(file@),
{
    let n = file.unicode_len();
    if n >= 2 && file.get_char(0) == '<' && file.get_char(n - 1) == '>' {
        Some(file.substring_char(1, n - 1).to_owned())
    } else {
        None
    }
}

/// Where the search path `nix_path` says that the package collection lies.
pub fn path_to_nixpkgs(nix_path: &str) -> (r: Option<String>)
    ensures
        optional_string_view(r) == path_to_nixpkgs_spec(nix_path@),
{
    let cs = chars_of(nix_path);
    let entries = split_chars(&cs, ':');
    let prefix = chars_of("nixpkgs=");
    let ghost all = segments_view(entries@);
    let mut i: usize = 0;
    assert(all.skip(0) =~= all);
    while i < entries.len()
        invariant
            i <= entries.len(),
            all == segments_view(entries@),
            path_to_nixpkgs_spec(nix_path@) == first_with_prefix(all, prefix@),
            first_with_prefix(all, prefix@) == first_with_prefix(all.skip(i as int), prefix@),
        decreases entries.len() - i,
    {
        proof {
            assert(all.skip(i as int)[0] == entries[i as int]@);
            assert(all.skip(i as int).drop_first() =~= all.skip(i + 1));
        }
        if has_prefix(&entries[i], &prefix) {
            let rest = chars_from(&entries[i], prefix.len());
            return Some(string_of(&rest));
        }
        i = i + 1;
    }
    None
}

} // verus!
