//! Canonical form of slash-separated paths.

use crate::text::{chars_of, segments_view, split_on, string_of};
use vstd::prelude::*;

verus! {

/// The segments of `p` between its slashes: one more than it has slashes, so
/// a leading or trailing slash and two slashes in a row each give an empty
/// segment.
pub open spec fn split_segments(p: Seq<char>) -> Seq<Seq<char>> {
    split_on(p, '/')
}

/// Whether `seg` is the segment `.`.
pub open spec fn is_cur_dir(seg: Seq<char>) -> bool {
    seg.len() == 1 && seg[0] == '.'
}

/// Whether `seg` is the segment `..`.
pub open spec fn is_parent_dir(seg: Seq<char>) -> bool {
    seg.len() == 2 && seg[0] == '.' && seg[1] == '.'
}

/// The kept segments after one more segment is read: empty segments and
/// `.` change nothing, `..` removes the last kept segment if there is one,
/// anything else is kept.
pub open spec fn step_segment(kept: Seq<Seq<char>>, seg: Seq<char>) -> Seq<Seq<char>> {
    if seg.len() == 0 || is_cur_dir(seg) {
        kept
    } else if is_parent_dir(seg) {
        if kept.len() > 0 {
            kept.drop_last()
        } else {
            kept
        }
    } else {
        kept.push(seg)
    }
}

/// The kept segments after all of `segs` are read from left to right.
pub open spec fn resolve_segments(segs: Seq<Seq<char>>) -> Seq<Seq<char>>
    decreases segs.len(),
{
    if segs.len() == 0 {
        Seq::empty()
    } else {
        step_segment(resolve_segments(segs.drop_last()), segs.last())
    }
}

/// `parts` with one slash between each two neighbours.
pub open spec fn join_segments(parts: Seq<Seq<char>>) -> Seq<char>
    decreases parts.len(),
{
    if parts.len() == 0 {
        Seq::empty()
    } else if parts.len() == 1 {
        parts[0]
    } else {
        join_segments(parts.drop_last()) + seq!['/'] + parts.last()
    }
}

/// Whether `p` starts with a slash.
pub open spec fn is_absolute(p: Seq<char>) -> bool {
    p.len() > 0 && p[0] == '/'
}

/// Whether `p` ends with a slash.
pub open spec fn has_trailing_slash(p: Seq<char>) -> bool {
    p.len() > 0 && p.last() == '/'
}

/// The parts that the canonical form of `p` joins: an empty part in front
/// if `p` is absolute, the resolved segments, and an empty part behind if
/// `p` ends with a slash.
pub open spec fn canonical_parts(p: Seq<char>) -> Seq<Seq<char>> {
    let front = if is_absolute(p) {
        seq![Seq::<char>::empty()]
    } else {
        Seq::<Seq<char>>::empty()
    };
    let back = if has_trailing_slash(p) {
        seq![Seq::<char>::empty()]
    } else {
        Seq::<Seq<char>>::empty()
    };
    front + resolve_segments(split_segments(p)) + back
}

/// The canonical form of `p`: without `.`, `..` or empty segments, never
/// rising above the root, keeping a leading and a trailing slash, and `/`
/// where nothing else is left.
pub open spec fn canonicalize_spec(p: Seq<char>) -> Seq<char> {
    let joined = join_segments(canonical_parts(p));
    if joined.len() == 0 {
        seq!['/']
    } else {
        joined
    }
}

/// Whether `s` holds no slash.
pub open spec fn slash_free(s: Seq<char>) -> bool {
    forall|j: int| 0 <= j < s.len() ==> s[j] != '/'
}

/// Whether `s` is a segment that canonical paths keep: not empty, not `.`,
/// not `..`, and without a slash.
pub open spec fn is_plain_segment(s: Seq<char>) -> bool {
    s.len() > 0 && !is_cur_dir(s) && !is_parent_dir(s) && slash_free(s)
}

proof fn lemma_split_slash_free(p: Seq<char>)
    ensures
        split_segments(p).len() > 0,
        forall|k: int| 0 <= k < split_segments(p).len() ==> slash_free(#[trigger] split_segments(p)[k]),
    decreases p.len(),
{
    if p.len() > 0 {
        lemma_split_slash_free(p.drop_last());
    }
}

proof fn lemma_split_of_slash_free(y: Seq<char>)
    requires
        slash_free(y),
    ensures
        split_segments(y) == seq![y],
    decreases y.len(),
{
    if y.len() == 0 {
        assert(y =~= Seq::<char>::empty());
    } else {
        lemma_split_of_slash_free(y.drop_last());
        assert(y.drop_last().push(y.last()) =~= y);
        assert(seq![y.drop_last()].drop_last().push(y) =~= seq![y]);
    }
}

proof fn lemma_split_after_slash(x: Seq<char>, y: Seq<char>)
    requires
        slash_free(y),
    ensures
        split_segments(x + seq!['/'] + y) == split_segments(x).push(y),
    decreases y.len(),
{
    let z = x + seq!['/'] + y;
    if y.len() == 0 {
        assert(z.drop_last() =~= x);
        assert(y =~= Seq::<char>::empty());
    } else {
        lemma_split_after_slash(x, y.drop_last());
        assert(z.drop_last() =~= x + seq!['/'] + y.drop_last());
        assert(z.last() == y.last());
        assert(y.drop_last().push(y.last()) =~= y);
        assert(split_segments(x).push(y.drop_last()).drop_last() =~= split_segments(x));
    }
}

proof fn lemma_split_join(parts: Seq<Seq<char>>)
    requires
        parts.len() > 0,
        forall|k: int| 0 <= k < parts.len() ==> slash_free(#[trigger] parts[k]),
    ensures
        split_segments(join_segments(parts)) == parts,
    decreases parts.len(),
{
    if parts.len() == 1 {
        lemma_split_of_slash_free(parts[0]);
        assert(seq![parts[0]] =~= parts);
    } else {
        lemma_split_join(parts.drop_last());
        lemma_split_after_slash(join_segments(parts.drop_last()), parts.last());
        assert(parts.drop_last().push(parts.last()) =~= parts);
    }
}

proof fn lemma_resolve_keeps_plain(segs: Seq<Seq<char>>)
    requires
        forall|k: int| 0 <= k < segs.len() ==> slash_free(#[trigger] segs[k]),
    ensures
        forall|k: int|
            0 <= k < resolve_segments(segs).len() ==> is_plain_segment(
                #[trigger] resolve_segments(segs)[k],
            ),
    decreases segs.len(),
{
    if segs.len() > 0 {
        let before = resolve_segments(segs.drop_last());
        let after = resolve_segments(segs);
        assert forall|k: int| 0 <= k < segs.drop_last().len() implies slash_free(
            #[trigger] segs.drop_last()[k],
        ) by {
            assert(segs.drop_last()[k] == segs[k]);
        }
        lemma_resolve_keeps_plain(segs.drop_last());
        assert(slash_free(segs[segs.len() - 1]));
        assert forall|k: int| 0 <= k < after.len() implies is_plain_segment(#[trigger] after[k]) by {
            if k < before.len() {
                assert(after[k] == before[k]);
            }
        }
    }
}

proof fn lemma_resolve_plain_suffix(a: Seq<Seq<char>>, b: Seq<Seq<char>>)
    requires
        forall|k: int| 0 <= k < b.len() ==> is_plain_segment(#[trigger] b[k]),
    ensures
        resolve_segments(a + b) == resolve_segments(a) + b,
    decreases b.len(),
{
    if b.len() == 0 {
        assert(a + b =~= a);
        assert(resolve_segments(a) + b =~= resolve_segments(a));
    } else {
        lemma_resolve_plain_suffix(a, b.drop_last());
        assert((a + b).drop_last() =~= a + b.drop_last());
        assert((a + b).last() == b.last());
        assert((resolve_segments(a) + b.drop_last()).push(b.last()) =~= resolve_segments(a) + b);
    }
}

proof fn lemma_join_starts_with_first(parts: Seq<Seq<char>>)
    requires
        parts.len() > 0,
    ensures
        join_segments(parts).len() >= parts[0].len(),
        join_segments(parts).subrange(0, parts[0].len() as int) == parts[0],
        parts.len() >= 2 ==> join_segments(parts).len() > parts[0].len() && join_segments(
            parts,
        )[parts[0].len() as int] == '/',
    decreases parts.len(),
{
    if parts.len() == 1 {
        assert(parts[0].subrange(0, parts[0].len() as int) =~= parts[0]);
    } else {
        lemma_join_starts_with_first(parts.drop_last());
        let init = join_segments(parts.drop_last());
        let all = join_segments(parts);
        assert(all.subrange(0, parts[0].len() as int) =~= init.subrange(0, parts[0].len() as int));
        if parts.len() == 2 {
            assert(init.len() == parts[0].len());
        }
    }
}

/// The root is in canonical form.
pub proof fn lemma_root_is_canonical()
    ensures
        canonicalize_spec(seq!['/']) == seq!['/'],
        resolve_segments(split_segments(seq!['/'])) == Seq::<Seq<char>>::empty(),
{
    let slash = seq!['/'];
    let none = Seq::<char>::empty();
    let two = seq![none, none];
    assert(slash.drop_last() =~= none);
    assert(split_segments(none) =~= seq![none]);
    assert(split_segments(slash) =~= two);
    assert(two.drop_last() =~= seq![none]);
    assert(seq![none].drop_last() =~= Seq::<Seq<char>>::empty());
    assert(resolve_segments(seq![none].drop_last()) =~= Seq::<Seq<char>>::empty());
    assert(resolve_segments(seq![none]) =~= Seq::<Seq<char>>::empty());
    assert(resolve_segments(two.drop_last()) =~= Seq::<Seq<char>>::empty());
    assert(resolve_segments(two) =~= Seq::<Seq<char>>::empty());
    assert(canonical_parts(slash) =~= two);
    assert(join_segments(two.drop_last()) =~= none);
    assert(join_segments(two) =~= slash);
}

/// The shape of a canonical path. The segments that it keeps are plain:
/// none is empty, `.` or `..`. Where it keeps none, it is the root. Where
/// it keeps some, its segments are those, with an empty one in front
/// exactly if the path it came from starts with a slash and an empty one
/// behind exactly if that path ends with one; so it has no `.`, no `..` and
/// no slash that is not needed.
pub proof fn lemma_canonical_shape(p: Seq<char>)
    ensures
        forall|k: int|
            0 <= k < resolve_segments(split_segments(p)).len() ==> is_plain_segment(
                #[trigger] resolve_segments(split_segments(p))[k],
            ),
        resolve_segments(split_segments(p)).len() == 0 ==> canonicalize_spec(p) == seq!['/'],
        resolve_segments(split_segments(p)).len() > 0 ==> {
            &&& canonicalize_spec(p) == join_segments(canonical_parts(p))
            &&& split_segments(canonicalize_spec(p)) == canonical_parts(p)
            &&& is_absolute(canonicalize_spec(p)) == is_absolute(p)
            &&& has_trailing_slash(canonicalize_spec(p)) == has_trailing_slash(p)
        },
        resolve_segments(split_segments(canonicalize_spec(p))) == resolve_segments(
            split_segments(p),
        ),
{
    let slash = seq!['/'];
    let none = Seq::<char>::empty();
    let kept = resolve_segments(split_segments(p));
    let parts = canonical_parts(p);
    let joined = join_segments(parts);
    lemma_split_slash_free(p);
    lemma_resolve_keeps_plain(split_segments(p));
    lemma_root_is_canonical();
    if kept.len() == 0 {
        // Nothing is kept: whatever slashes stood around it, the result is the root.
        assert(canonicalize_spec(p) =~= slash) by {
            if joined.len() > 0 {
                assert(parts.len() <= 2);
                assert(forall|k: int| 0 <= k < parts.len() ==> parts[k] =~= none);
                if parts.len() == 2 {
                    assert(parts.drop_last()[0] == parts[0]);
                    assert(join_segments(parts.drop_last()) =~= none);
                    assert(parts.last() == parts[1]);
                    assert(joined =~= slash);
                } else if parts.len() == 1 {
                    assert(joined =~= none);
                }
            }
        }
    } else {
        let front = if is_absolute(p) {
            seq![none]
        } else {
            Seq::<Seq<char>>::empty()
        };
        let back = if has_trailing_slash(p) {
            seq![none]
        } else {
            Seq::<Seq<char>>::empty()
        };
        assert(parts == front + kept + back);
        assert(forall|k: int| 0 <= k < parts.len() ==> slash_free(#[trigger] parts[k]));
        lemma_split_join(parts);
        lemma_join_starts_with_first(parts);
        // Something is kept, so the joined parts are not empty.
        assert(joined.len() > 0) by {
            if !is_absolute(p) {
                assert(parts[0] == kept[0]);
            }
        }
        // The segments of the result resolve to what was kept.
        assert(resolve_segments(front) =~= Seq::<Seq<char>>::empty()) by {
            if is_absolute(p) {
                assert(front.drop_last() =~= Seq::<Seq<char>>::empty());
                assert(resolve_segments(front.drop_last()) =~= Seq::<Seq<char>>::empty());
                assert(front.last() =~= none);
            }
        }
        lemma_resolve_plain_suffix(front, kept);
        assert(resolve_segments(front) + kept =~= kept);
        assert(resolve_segments(parts) == kept) by {
            if has_trailing_slash(p) {
                assert(parts.drop_last() =~= front + kept);
            } else {
                assert(parts =~= front + kept);
            }
        }
        // The result starts and ends with a slash exactly where `p` does.
        assert(is_absolute(joined) == is_absolute(p)) by {
            if is_absolute(p) {
                assert(parts[0] =~= none);
            } else {
                assert(parts[0] == kept[0]);
                assert(joined.subrange(0, parts[0].len() as int)[0] == joined[0]);
            }
        }
        assert(has_trailing_slash(joined) == has_trailing_slash(p)) by {
            if has_trailing_slash(p) {
                assert(parts.last() =~= none);
                assert(joined =~= join_segments(parts.drop_last()) + slash + none);
            } else {
                assert(parts.last() == kept.last());
                if parts.len() >= 2 {
                    assert(joined.last() == kept.last().last());
                }
            }
        }
    }
}

/// Canonical form is a fixed point: a path that is already canonical is
/// left as it is, so bringing a path into canonical form twice gives what
/// doing it once gives.
pub proof fn lemma_canonicalize_idempotent(p: Seq<char>)
    ensures
        canonicalize_spec(canonicalize_spec(p)) == canonicalize_spec(p),
{
    let c = canonicalize_spec(p);
    lemma_canonical_shape(p);
    lemma_root_is_canonical();
    if resolve_segments(split_segments(p)).len() > 0 {
        assert(canonical_parts(c) =~= canonical_parts(p));
    }
}

/// The canonical form of a path that starts with a slash starts with a
/// slash.
pub proof fn lemma_canonicalize_keeps_absolute(p: Seq<char>)
    requires
        is_absolute(p),
    ensures
        is_absolute(canonicalize_spec(p)),
{
    lemma_canonical_shape(p);
}

fn push_segment(kept: &mut Vec<Vec<char>>, seg: Vec<char>)
    ensures
        segments_view(final(kept)@) == step_segment(segments_view(old(kept)@), seg@),
{
    let n = seg.len();
    if n == 0 || (n == 1 && seg[0] == '.') {
    } else if n == 2 && seg[0] == '.' && seg[1] == '.' {
        if kept.len() > 0 {
            kept.pop();
            assert(segments_view(kept@) =~= segments_view(old(kept)@).drop_last());
        }
    } else {
        kept.push(seg);
        assert(segments_view(kept@) =~= segments_view(old(kept)@).push(seg@));
    }
}

fn join(parts: &Vec<Vec<char>>) -> (out: Vec<char>)
    ensures
        out@ == join_segments(segments_view(parts@)),
{
    let mut out: Vec<char> = Vec::new();
    let mut k: usize = 0;
    while k < parts.len()
        invariant
            k <= parts.len(),
            out@ == join_segments(segments_view(parts@).take(k as int)),
        decreases parts.len() - k,
    {
        let ghost before = out@;
        if k > 0 {
            out.push('/');
        }
        let part = &parts[k];
        let mut j: usize = 0;
        while j < part.len()
            invariant
                j <= part.len(),
                out@ == (if k > 0 {
                    before + seq!['/']
                } else {
                    before
                }) + part@.take(j as int),
            decreases part.len() - j,
        {
            out.push(part[j]);
            assert(part@.take(j + 1) =~= part@.take(j as int).push(part@[j as int]));
            j = j + 1;
        }
        proof {
            let all = segments_view(parts@);
            assert(part@.take(j as int) =~= part@);
            assert(all.take(k + 1).drop_last() =~= all.take(k as int));
            assert(all.take(k + 1).last() == part@);
            if k == 0 {
                assert(before =~= Seq::<char>::empty());
                assert(out@ =~= part@);
            }
        }
        k = k + 1;
    }
    assert(segments_view(parts@).take(k as int) =~= segments_view(parts@));
    out
}

/// Brings a path into canonical form.
pub fn canonicalize(path: String) -> (out: String)
    ensures
        out@ == canonicalize_spec(path@),
{
    let cs = chars_of(path.as_str());
    let n = cs.len();
    let absolute = n > 0 && cs[0] == '/';
    let trailing = n > 0 && cs[n - 1] == '/';
    let mut parts: Vec<Vec<char>> = Vec::new();
    if absolute {
        parts.push(Vec::new());
    }
    let ghost front = segments_view(parts@);
    let mut kept: Vec<Vec<char>> = Vec::new();
    let mut cur: Vec<char> = Vec::new();
    let mut i: usize = 0;
    assert(segments_view(kept@) =~= Seq::<Seq<char>>::empty());
    assert(cs@.take(0) =~= Seq::<char>::empty());
    while i < n
        invariant
            i <= n,
            n == cs.len(),
            split_segments(cs@.take(i as int)).len() > 0,
            split_segments(cs@.take(i as int)).last() == cur@,
            segments_view(kept@) == resolve_segments(split_segments(cs@.take(i as int)).drop_last()),
        decreases n - i,
    {
        let c = cs[i];
        proof {
            let next = cs@.take(i + 1);
            let segs = split_segments(cs@.take(i as int));
            assert(next.drop_last() =~= cs@.take(i as int));
            assert(next.last() == c);
            if c == '/' {
                assert(split_segments(next).drop_last() =~= segs);
                assert(segs.drop_last().push(segs.last()) =~= segs);
            } else {
                assert(split_segments(next).drop_last() =~= segs.drop_last());
            }
        }
        if c == '/' {
            push_segment(&mut kept, cur);
            cur = Vec::new();
        } else {
            cur.push(c);
        }
        i = i + 1;
    }
    proof {
        let segs = split_segments(cs@.take(i as int));
        assert(cs@.take(i as int) =~= cs@);
        assert(segs.drop_last().push(segs.last()) =~= segs);
    }
    push_segment(&mut kept, cur);
    let ghost resolved = segments_view(kept@);
    parts.append(&mut kept);
    if trailing {
        parts.push(Vec::new());
    }
    proof {
        assert(segments_view(parts@) =~= canonical_parts(path@));
    }
    let joined = join(&parts);
    if joined.len() == 0 {
        let mut root: Vec<char> = Vec::new();
        root.push('/');
        assert(root@ =~= seq!['/']);
        string_of(&root)
    } else {
        string_of(&joined)
    }
}

} // verus!
