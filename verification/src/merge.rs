//! Merging the bindings of an attribute set: bindings of one name are folded
//! into one, from left to right, and the result is put in the order of the
//! names.

use crate::error::{Conflict, ErrorView, NormalizeError};
use crate::normal_ast::{
    attr_def_view, attr_defs_view, dynamic_attr_defs_view, AttrDef, AttrDefView, DynamicAttrDef,
    DynamicAttrDefView, ExprView, NormalNixExpr,
};
use crate::text::{
    lemma_name_lt_asymmetric, lemma_name_lt_total, lemma_name_lt_transitive, name_before, name_lt,
};
use std::cmp::Ordering;
use crate::merge_laws::{lemma_fold_defs_distinct, lemma_sort_strict};
use itertools::Itertools;
use vstd::prelude::*;

verus! {

/// No binding's name comes before the name of a binding that stands
/// earlier.
pub open spec fn names_ascending(s: Seq<AttrDefView>) -> bool {
    forall|i: int, j: int|
        #![trigger s[i], s[j]]
        0 <= i < j < s.len() ==> !name_lt(s[j].name, s[i].name)
}

/// Each binding's name comes before the names of all that follow it; so no
/// name occurs twice.
pub open spec fn names_strictly_ascending(s: Seq<AttrDefView>) -> bool {
    forall|i: int, j: int|
        #![trigger s[i], s[j]]
        0 <= i < j < s.len() ==> name_lt(s[i].name, s[j].name)
}

/// No name occurs twice.
pub open spec fn names_distinct(s: Seq<AttrDefView>) -> bool {
    forall|i: int, j: int|
        #![trigger s[i], s[j]]
        0 <= i < j < s.len() ==> s[i].name != s[j].name
}

/// The bindings of `name` in `s`, in the order in which they stand there.
pub open spec fn with_name(s: Seq<AttrDefView>, name: Seq<char>) -> Seq<AttrDefView>
    decreases s.len(),
{
    if s.len() == 0 {
        Seq::empty()
    } else if s[0].name == name {
        seq![s[0]] + with_name(s.drop_first(), name)
    } else {
        with_name(s.drop_first(), name)
    }
}

/// `sorted` with `d` put in front of the first binding whose name does not
/// come before `d`'s.
pub open spec fn insert_by_name(d: AttrDefView, sorted: Seq<AttrDefView>) -> Seq<AttrDefView>
    decreases sorted.len(),
{
    if sorted.len() > 0 && name_lt(sorted[0].name, d.name) {
        seq![sorted[0]] + insert_by_name(d, sorted.drop_first())
    } else {
        seq![d] + sorted
    }
}

/// The bindings of `s` in the order of their names; bindings of one name
/// keep the order that they have in `s`.
pub open spec fn sort_by_name(s: Seq<AttrDefView>) -> Seq<AttrDefView>
    decreases s.len(),
{
    if s.len() == 0 {
        Seq::empty()
    } else {
        insert_by_name(s[0], sort_by_name(s.drop_first()))
    }
}

/// The place of the first binding of `name` in `defs`, or the length of
/// `defs` if there is none.
pub open spec fn name_index(defs: Seq<AttrDefView>, name: Seq<char>) -> nat
    decreases defs.len(),
{
    if defs.len() == 0 || defs[0].name == name {
        0
    } else {
        1 + name_index(defs.drop_first(), name)
    }
}

/// The number of bindings that `d` holds: itself, and where its value is
/// an attribute set, the bindings of that set, at every depth.
pub open spec fn def_size(d: AttrDefView) -> nat
    decreases d,
{
    match d.expr {
        ExprView::Attrs { attrs, .. } => 1 + defs_size(attrs),
        _ => 1,
    }
}

/// The number of bindings that `ds` hold, at every depth.
pub open spec fn defs_size(ds: Seq<AttrDefView>) -> nat
    decreases ds,
{
    if ds.len() == 0 {
        0
    } else {
        defs_size(ds.drop_last()) + def_size(ds.last())
    }
}

/// Two sequences one after the other hold what the two hold together.
pub proof fn lemma_defs_size_concat(a: Seq<AttrDefView>, b: Seq<AttrDefView>)
    ensures
        defs_size(a + b) == defs_size(a) + defs_size(b),
    decreases b.len(),
{
    if b.len() == 0 {
        assert(a + b =~= a);
    } else {
        lemma_defs_size_concat(a, b.drop_last());
        assert((a + b).drop_last() =~= a + b.drop_last());
        assert((a + b).last() == b.last());
    }
}

/// A binding holds no more than the sequence in which it stands.
pub proof fn lemma_defs_size_member(s: Seq<AttrDefView>, i: int)
    requires
        0 <= i < s.len(),
    ensures
        def_size(s[i]) <= defs_size(s),
    decreases s.len(),
{
    if i < s.len() - 1 {
        lemma_defs_size_member(s.drop_last(), i);
        assert(s.drop_last()[i] == s[i]);
    }
}

/// The one binding that two bindings of the same name merge into: both must
/// be attribute sets that are not inherited; the result is recursive if one
/// of them is, holds the merged bindings of both and the dynamic bindings of
/// the first followed by those of the second.
pub open spec fn merge_def_spec(d1: AttrDefView, d2: AttrDefView) -> Result<AttrDefView, ErrorView>
    decreases def_size(d1) + def_size(d2), 0nat,
{
    if d1.inherited || d2.inherited {
        Err(ErrorView::DuplicateAttr { name: d1.name, conflict: Conflict::Inherited })
    } else {
        match (d1.expr, d2.expr) {
            (
                ExprView::Attrs { rec: rec1, attrs: attrs1, dynamic_attrs: dynamic1 },
                ExprView::Attrs { rec: rec2, attrs: attrs2, dynamic_attrs: dynamic2 },
            ) => match merge_attrs_spec(attrs1, attrs2) {
                Ok(attrs) => Ok(
                    AttrDefView {
                        name: d1.name,
                        inherited: false,
                        expr: ExprView::Attrs {
                            rec: rec1 || rec2,
                            attrs,
                            dynamic_attrs: dynamic1 + dynamic2,
                        },
                    },
                ),
                Err(e) => Err(e),
            },
            _ => Err(ErrorView::DuplicateAttr { name: d1.name, conflict: Conflict::NotAttrSet }),
        }
    }
}

/// `acc` after the binding `d` is added: merged into the first binding of
/// its name where there is one, put at the end where there is none.
pub open spec fn add_def_spec(acc: Seq<AttrDefView>, d: AttrDefView) -> Result<
    Seq<AttrDefView>,
    ErrorView,
>
    decreases defs_size(acc) + def_size(d), 1nat,
{
    let i = name_index(acc, d.name) as int;
    if i < acc.len() {
        proof {
            lemma_defs_size_member(acc, i);
        }
        match merge_def_spec(acc[i], d) {
            Ok(merged) => Ok(acc.update(i, merged)),
            Err(e) => Err(e),
        }
    } else {
        Ok(acc.push(d))
    }
}

/// `acc` after the bindings `defs` are added one by one, from left to
/// right; the first failure ends it.
///
/// Adding a binding never gives more bindings than there were on both
/// sides ([`lemma_fold_defs_size`]). The definition asks for that bound
/// before each step, which is what makes it well founded; as the bound
/// always holds, each step is the plain one ([`lemma_fold_defs_step`]).
pub open spec fn fold_defs_spec(acc: Seq<AttrDefView>, defs: Seq<AttrDefView>) -> Result<
    Seq<AttrDefView>,
    ErrorView,
>
    decreases defs_size(acc) + defs_size(defs), 2nat,
{
    if defs.len() == 0 {
        Ok(acc)
    } else {
        match fold_defs_spec(acc, defs.drop_last()) {
            Ok(before) => if defs_size(before) <= defs_size(acc) + defs_size(defs.drop_last()) {
                add_def_spec(before, defs.last())
            } else {
                Ok(before)
            },
            Err(e) => Err(e),
        }
    }
}

/// The bindings of `attrs1` and `attrs2` merged: all of them are added to
/// an empty sequence, those of `attrs1` first, so that bindings of one name
/// fold into one wherever they stand; the result stands in the order of
/// the names.
pub open spec fn merge_attrs_spec(attrs1: Seq<AttrDefView>, attrs2: Seq<AttrDefView>) -> Result<
    Seq<AttrDefView>,
    ErrorView,
>
    decreases defs_size(attrs1) + defs_size(attrs2), 3nat,
{
    proof {
        lemma_defs_size_concat(attrs1, attrs2);
    }
    match fold_defs_spec(Seq::empty(), attrs1 + attrs2) {
        Ok(acc) => Ok(sort_by_name(acc)),
        Err(e) => Err(e),
    }
}

/// The first `k` of a sequence hold no more than the sequence.
pub proof fn lemma_defs_size_take(s: Seq<AttrDefView>, k: int)
    requires
        0 <= k <= s.len(),
    ensures
        defs_size(s.take(k)) <= defs_size(s),
{
    lemma_defs_size_concat(s.take(k), s.skip(k));
    assert(s.take(k) + s.skip(k) =~= s);
}

/// Putting one binding in the place of another changes what the sequence
/// holds by the difference of the two.
pub proof fn lemma_defs_size_update(s: Seq<AttrDefView>, i: int, d: AttrDefView)
    requires
        0 <= i < s.len(),
    ensures
        defs_size(s.update(i, d)) + def_size(s[i]) == defs_size(s) + def_size(d),
    decreases s.len(),
{
    let u = s.update(i, d);
    if i == s.len() - 1 {
        assert(u.drop_last() =~= s.drop_last());
    } else {
        lemma_defs_size_update(s.drop_last(), i, d);
        assert(u.drop_last() =~= s.drop_last().update(i, d));
        assert(u.last() == s.last());
        assert(s.drop_last()[i] == s[i]);
    }
}

proof fn lemma_defs_size_front(d: AttrDefView, s: Seq<AttrDefView>)
    ensures
        defs_size(seq![d] + s) == def_size(d) + defs_size(s),
{
    lemma_defs_size_concat(seq![d], s);
    assert(seq![d].drop_last() =~= Seq::<AttrDefView>::empty());
    assert(defs_size(seq![d].drop_last()) == 0);
}

proof fn lemma_insert_by_name_size(d: AttrDefView, s: Seq<AttrDefView>)
    ensures
        defs_size(insert_by_name(d, s)) == def_size(d) + defs_size(s),
    decreases s.len(),
{
    if s.len() > 0 && name_lt(s[0].name, d.name) {
        lemma_insert_by_name_size(d, s.drop_first());
        lemma_defs_size_front(s[0], insert_by_name(d, s.drop_first()));
        lemma_defs_size_front(s[0], s.drop_first());
        assert(seq![s[0]] + s.drop_first() =~= s);
    } else {
        lemma_defs_size_front(d, s);
    }
}

/// Sorting changes nothing in what the bindings hold.
pub proof fn lemma_sort_by_name_size(s: Seq<AttrDefView>)
    ensures
        defs_size(sort_by_name(s)) == defs_size(s),
    decreases s.len(),
{
    if s.len() > 0 {
        lemma_sort_by_name_size(s.drop_first());
        lemma_insert_by_name_size(s[0], sort_by_name(s.drop_first()));
        lemma_defs_size_front(s[0], s.drop_first());
        assert(seq![s[0]] + s.drop_first() =~= s);
    }
}

/// What two bindings merge into holds no more than the two held.
pub proof fn lemma_merge_def_size(d1: AttrDefView, d2: AttrDefView)
    requires
        merge_def_spec(d1, d2) is Ok,
    ensures
        def_size(merge_def_spec(d1, d2)->Ok_0) <= def_size(d1) + def_size(d2),
    decreases def_size(d1) + def_size(d2), 0nat,
{
    match (d1.expr, d2.expr) {
        (
            ExprView::Attrs { rec: rec1, attrs: attrs1, dynamic_attrs: dynamic1 },
            ExprView::Attrs { rec: rec2, attrs: attrs2, dynamic_attrs: dynamic2 },
        ) => {
            lemma_merge_attrs_size(attrs1, attrs2);
        },
        _ => {},
    }
}

/// Adding a binding gives no more than the sequence and the binding held.
pub proof fn lemma_add_def_size(acc: Seq<AttrDefView>, d: AttrDefView)
    requires
        add_def_spec(acc, d) is Ok,
    ensures
        defs_size(add_def_spec(acc, d)->Ok_0) <= defs_size(acc) + def_size(d),
    decreases defs_size(acc) + def_size(d), 1nat,
{
    let i = name_index(acc, d.name) as int;
    if i < acc.len() {
        lemma_defs_size_member(acc, i);
        lemma_merge_def_size(acc[i], d);
        lemma_defs_size_update(acc, i, merge_def_spec(acc[i], d)->Ok_0);
    } else {
        assert(acc.push(d).drop_last() =~= acc);
    }
}

/// Adding bindings gives no more than there were on both sides.
pub proof fn lemma_fold_defs_size(acc: Seq<AttrDefView>, defs: Seq<AttrDefView>)
    requires
        fold_defs_spec(acc, defs) is Ok,
    ensures
        defs_size(fold_defs_spec(acc, defs)->Ok_0) <= defs_size(acc) + defs_size(defs),
    decreases defs_size(acc) + defs_size(defs), 2nat,
{
    if defs.len() > 0 {
        assert(def_size(defs.last()) >= 1);
        lemma_fold_defs_size(acc, defs.drop_last());
        lemma_add_def_size(fold_defs_spec(acc, defs.drop_last())->Ok_0, defs.last());
    }
}

/// Merging gives no more than the two sequences held.
pub proof fn lemma_merge_attrs_size(attrs1: Seq<AttrDefView>, attrs2: Seq<AttrDefView>)
    requires
        merge_attrs_spec(attrs1, attrs2) is Ok,
    ensures
        defs_size(merge_attrs_spec(attrs1, attrs2)->Ok_0) <= defs_size(attrs1) + defs_size(attrs2),
    decreases defs_size(attrs1) + defs_size(attrs2), 3nat,
{
    lemma_defs_size_concat(attrs1, attrs2);
    lemma_fold_defs_size(Seq::empty(), attrs1 + attrs2);
    lemma_sort_by_name_size(fold_defs_spec(Seq::empty(), attrs1 + attrs2)->Ok_0);
}

/// One step of adding bindings: the last binding is added to what the
/// bindings before it gave.
pub proof fn lemma_fold_defs_step(acc: Seq<AttrDefView>, defs: Seq<AttrDefView>)
    requires
        defs.len() > 0,
    ensures
        fold_defs_spec(acc, defs) == match fold_defs_spec(acc, defs.drop_last()) {
            Ok(before) => add_def_spec(before, defs.last()),
            Err(e) => Err(e),
        },
{
    if fold_defs_spec(acc, defs.drop_last()) is Ok {
        lemma_fold_defs_size(acc, defs.drop_last());
    }
}

/// The value of a binding or a failure.
pub open spec fn def_result_view(r: Result<AttrDef, NormalizeError>) -> Result<
    AttrDefView,
    ErrorView,
> {
    match r {
        Ok(d) => Ok(d@),
        Err(e) => Err(e@),
    }
}

/// The value of a sequence of bindings or a failure.
pub open spec fn defs_result_view(r: Result<Vec<AttrDef>, NormalizeError>) -> Result<
    Seq<AttrDefView>,
    ErrorView,
> {
    match r {
        Ok(ds) => Ok(attr_defs_view(ds@)),
        Err(e) => Err(e@),
    }
}

/// Putting a binding into bindings that stand in the order of their names
/// gives bindings in that order: one more, each of them the new binding
/// or one of the old.
pub proof fn lemma_insert_by_name(d: AttrDefView, s: Seq<AttrDefView>)
    requires
        names_ascending(s),
    ensures
        names_ascending(insert_by_name(d, s)),
        insert_by_name(d, s).len() == s.len() + 1,
        forall|k: int|
            0 <= k < insert_by_name(d, s).len() ==> #[trigger] insert_by_name(d, s)[k] == d
                || s.contains(insert_by_name(d, s)[k]),
    decreases s.len(),
{
    let r = insert_by_name(d, s);
    if s.len() > 0 && name_lt(s[0].name, d.name) {
        let tail = s.drop_first();
        let rest = insert_by_name(d, tail);
        assert(names_ascending(tail)) by {
            assert forall|i: int, j: int| 0 <= i < j < tail.len() implies !name_lt(
                tail[j].name,
                tail[i].name,
            ) by {
                assert(tail[i] == s[i + 1] && tail[j] == s[j + 1]);
            }
        }
        lemma_insert_by_name(d, tail);
        assert forall|k: int| 0 <= k < r.len() implies #[trigger] r[k] == d || s.contains(r[k]) by {
            if k == 0 {
                assert(r[0] == s[0]);
            } else {
                assert(r[k] == rest[k - 1]);
                if rest[k - 1] != d {
                    let m = choose|m: int| 0 <= m < tail.len() && tail[m] == rest[k - 1];
                    assert(s[m + 1] == r[k]);
                }
            }
        }
        assert forall|i: int, j: int| 0 <= i < j < r.len() implies !name_lt(
            r[j].name,
            r[i].name,
        ) by {
            if i == 0 {
                assert(r[j] == rest[j - 1]);
                if rest[j - 1] == d {
                    lemma_name_lt_asymmetric(s[0].name, d.name);
                } else {
                    let m = choose|m: int| 0 <= m < tail.len() && tail[m] == rest[j - 1];
                    assert(s[m + 1] == r[j]);
                    assert(!name_lt(s[m + 1].name, s[0].name));
                }
            } else {
                assert(r[i] == rest[i - 1] && r[j] == rest[j - 1]);
            }
        }
    } else {
        assert forall|k: int| 0 <= k < r.len() implies #[trigger] r[k] == d || s.contains(r[k]) by {
            if k > 0 {
                assert(r[k] == s[k - 1]);
            }
        }
        assert forall|i: int, j: int| 0 <= i < j < r.len() implies !name_lt(
            r[j].name,
            r[i].name,
        ) by {
            assert(r[j] == s[j - 1]);
            if i == 0 {
                if name_lt(s[j - 1].name, d.name) {
                    lemma_name_lt_total(s[0].name, d.name);
                    if j - 1 > 0 {
                        assert(!name_lt(s[j - 1].name, s[0].name));
                        if name_lt(d.name, s[0].name) {
                            lemma_name_lt_transitive(s[j - 1].name, d.name, s[0].name);
                        }
                    }
                }
            } else {
                assert(r[i] == s[i - 1]);
            }
        }
    }
}

proof fn lemma_insert_with_name(d: AttrDefView, s: Seq<AttrDefView>, name: Seq<char>)
    ensures
        with_name(insert_by_name(d, s), name) == if d.name == name {
            seq![d] + with_name(s, name)
        } else {
            with_name(s, name)
        },
    decreases s.len(),
{
    let r = insert_by_name(d, s);
    if s.len() > 0 && name_lt(s[0].name, d.name) {
        lemma_insert_with_name(d, s.drop_first(), name);
        assert(r.drop_first() =~= insert_by_name(d, s.drop_first()));
        lemma_name_lt_asymmetric(s[0].name, d.name);
        assert(s[0].name != d.name);
    } else {
        assert(r.drop_first() =~= s);
    }
}

/// What sorting gives stands in the order of the names and is as long as
/// what was sorted.
pub proof fn lemma_sort_by_name_ascending(s: Seq<AttrDefView>)
    ensures
        names_ascending(sort_by_name(s)),
        sort_by_name(s).len() == s.len(),
    decreases s.len(),
{
    if s.len() > 0 {
        lemma_sort_by_name_ascending(s.drop_first());
        lemma_insert_by_name(s[0], sort_by_name(s.drop_first()));
    }
}

/// Sorting keeps the bindings of each name, in their order.
pub proof fn lemma_sort_by_name_with_name(s: Seq<AttrDefView>, name: Seq<char>)
    ensures
        with_name(sort_by_name(s), name) == with_name(s, name),
    decreases s.len(),
{
    if s.len() > 0 {
        lemma_sort_by_name_with_name(s.drop_first(), name);
        lemma_insert_with_name(s[0], sort_by_name(s.drop_first()), name);
    }
}

/// A sequence holds a binding of each name that stands in it.
pub proof fn lemma_with_name_nonempty(s: Seq<AttrDefView>, k: int)
    requires
        0 <= k < s.len(),
    ensures
        with_name(s, s[k].name).len() > 0,
    decreases s.len(),
{
    if k > 0 && s[0].name != s[k].name {
        assert(s.drop_first()[k - 1] == s[k]);
        lemma_with_name_nonempty(s.drop_first(), k - 1);
    }
}

/// Where a sequence holds bindings of a name, the first of them stands at
/// the first place of that name.
pub proof fn lemma_with_name_found(s: Seq<AttrDefView>, name: Seq<char>) -> (k: int)
    requires
        with_name(s, name).len() > 0,
    ensures
        0 <= k < s.len(),
        s[k].name == name,
        s[k] == with_name(s, name)[0],
        forall|j: int| 0 <= j < k ==> (#[trigger] s[j]).name != name,
    decreases s.len(),
{
    if s[0].name == name {
        0
    } else {
        let k = lemma_with_name_found(s.drop_first(), name);
        assert(s.drop_first()[k] == s[k + 1]);
        assert forall|j: int| 0 <= j < k + 1 implies (#[trigger] s[j]).name != name by {
            if j > 0 {
                assert(s.drop_first()[j - 1] == s[j]);
            }
        }
        k + 1
    }
}

/// Two sequences in the order of their names that hold, for each name, the
/// same bindings in the same order, are equal.
proof fn lemma_ascending_determined(s1: Seq<AttrDefView>, s2: Seq<AttrDefView>)
    requires
        names_ascending(s1),
        names_ascending(s2),
        forall|name: Seq<char>| #[trigger] with_name(s1, name) == with_name(s2, name),
    ensures
        s1 == s2,
    decreases s1.len(),
{
    if s1.len() == 0 {
        if s2.len() > 0 {
            lemma_with_name_nonempty(s2, 0);
            assert(with_name(s1, s2[0].name) == with_name(s2, s2[0].name));
        }
        assert(s1 =~= s2);
    } else {
        let n0 = s1[0].name;
        assert(with_name(s1, n0) == with_name(s2, n0));
        lemma_with_name_nonempty(s1, 0);
        let j = lemma_with_name_found(s2, n0);
        if j > 0 {
            let m = s2[0].name;
            lemma_with_name_nonempty(s2, 0);
            assert(with_name(s1, m) == with_name(s2, m));
            let k = lemma_with_name_found(s1, m);
            assert(k > 0);
            assert(!name_lt(s1[k].name, s1[0].name));
            assert(!name_lt(s2[j].name, s2[0].name));
            lemma_name_lt_total(m, n0);
            assert(false);
        }
        assert(s2[0] == s1[0]);
        let t1 = s1.drop_first();
        let t2 = s2.drop_first();
        assert forall|name: Seq<char>| #[trigger] with_name(t1, name) == with_name(t2, name) by {
            assert(with_name(s1, name) == with_name(s2, name));
            if name == n0 {
                assert((seq![s1[0]] + with_name(t1, name)).drop_first() =~= with_name(t1, name));
                assert((seq![s2[0]] + with_name(t2, name)).drop_first() =~= with_name(t2, name));
            }
        }
        assert(names_ascending(t1)) by {
            assert forall|i: int, j: int| 0 <= i < j < t1.len() implies !name_lt(
                t1[j].name,
                t1[i].name,
            ) by {
                assert(t1[i] == s1[i + 1] && t1[j] == s1[j + 1]);
            }
        }
        assert(names_ascending(t2)) by {
            assert forall|i: int, j: int| 0 <= i < j < t2.len() implies !name_lt(
                t2[j].name,
                t2[i].name,
            ) by {
                assert(t2[i] == s2[i + 1] && t2[j] == s2[j + 1]);
            }
        }
        lemma_ascending_determined(t1, t2);
        assert(s1 =~= seq![s1[0]] + t1);
        assert(s2 =~= seq![s2[0]] + t2);
    }
}

/// How the names of two bindings stand to each other in byte order.
fn compare_names(a: &AttrDef, b: &AttrDef) -> (o: Ordering)
    ensures
        o == Ordering::Less <==> name_lt(a.name@, b.name@),
        o == Ordering::Greater <==> name_lt(b.name@, a.name@),
{
    proof {
        lemma_name_lt_asymmetric(a.name@, b.name@);
    }
    if name_before(a.name.as_str(), b.name.as_str()) {
        Ordering::Less
    } else if name_before(b.name.as_str(), a.name.as_str()) {
        Ordering::Greater
    } else {
        Ordering::Equal
    }
}

/// `Itertools::sorted_by` with [`compare_names`] as the order: what comes
/// out stands in that order, and as the sort is stable, the bindings of
/// each name come out in the order in which they went in.
#[verifier::external_body]
fn sorted_by_name(defs: Vec<AttrDef>) -> (out: Vec<AttrDef>)
    ensures
        names_ascending(attr_defs_view(out@)),
        forall|name: Seq<char>| #[trigger]
            with_name(attr_defs_view(out@), name) == with_name(attr_defs_view(defs@), name),
{
    defs.into_iter().sorted_by(|a, b| compare_names(a, b)).collect()
}

/// Puts bindings in the order of their names.
pub fn sort_attrs(defs: Vec<AttrDef>) -> (out: Vec<AttrDef>)
    ensures
        attr_defs_view(out@) == sort_by_name(attr_defs_view(defs@)),
{
    let ghost before = attr_defs_view(defs@);
    let out = sorted_by_name(defs);
    proof {
        let after = attr_defs_view(out@);
        lemma_sort_by_name_ascending(before);
        assert forall|name: Seq<char>| #[trigger]
            with_name(after, name) == with_name(sort_by_name(before), name) by {
            lemma_sort_by_name_with_name(before, name);
        }
        lemma_ascending_determined(after, sort_by_name(before));
    }
    out
}

proof fn lemma_name_index(defs: Seq<AttrDefView>, name: Seq<char>, i: int)
    requires
        0 <= i <= defs.len(),
        forall|j: int| 0 <= j < i ==> (#[trigger] defs[j]).name != name,
        i < defs.len() ==> defs[i].name == name,
    ensures
        name_index(defs, name) == i,
    decreases i,
{
    if i > 0 {
        let tail = defs.drop_first();
        assert(defs[0].name != name);
        assert forall|j: int| 0 <= j < i - 1 implies (#[trigger] tail[j]).name != name by {
            assert(tail[j] == defs[j + 1]);
        }
        if i < defs.len() {
            assert(tail[i - 1] == defs[i]);
        }
        lemma_name_index(tail, name, i - 1);
    }
}

fn name_position(defs: &Vec<AttrDef>, name: &String) -> (i: usize)
    ensures
        i == name_index(attr_defs_view(defs@), name@),
        i <= defs.len(),
{
    let mut i: usize = 0;
    while i < defs.len()
        invariant
            i <= defs.len(),
            forall|j: int| 0 <= j < i ==> (#[trigger] attr_defs_view(defs@)[j]).name != name@,
        decreases defs.len() - i,
    {
        if defs[i].name == *name {
            proof {
                lemma_name_index(attr_defs_view(defs@), name@, i as int);
            }
            return i;
        }
        i = i + 1;
    }
    proof {
        lemma_name_index(attr_defs_view(defs@), name@, i as int);
    }
    i
}

/// The dynamic bindings of two attribute sets that merge: those of the
/// first, then those of the second, none dropped and none compared.
pub fn merge_dynamic_attrs(
    dynamic_attrs1: Vec<DynamicAttrDef>,
    dynamic_attrs2: Vec<DynamicAttrDef>,
) -> (r: Vec<DynamicAttrDef>)
    ensures
        dynamic_attr_defs_view(r@) == dynamic_attr_defs_view(dynamic_attrs1@)
            + dynamic_attr_defs_view(dynamic_attrs2@),
{
    let mut r = dynamic_attrs1;
    let mut rest = dynamic_attrs2;
    r.append(&mut rest);
    assert(dynamic_attr_defs_view(r@) =~= dynamic_attr_defs_view(dynamic_attrs1@)
        + dynamic_attr_defs_view(dynamic_attrs2@));
    r
}

/// Merges two bindings of one name into one.
pub fn merge_attr_def(def1: AttrDef, def2: AttrDef) -> (r: Result<AttrDef, NormalizeError>)
    ensures
        def_result_view(r) == merge_def_spec(def1@, def2@),
    decreases def_size(def1@) + def_size(def2@), 0nat,
{
    let AttrDef { name, inherited: inherited1, expr: expr1 } = def1;
    let AttrDef { name: _, inherited: inherited2, expr: expr2 } = def2;
    if inherited1 || inherited2 {
        return Err(NormalizeError::DuplicateAttr { name, conflict: Conflict::Inherited });
    }
    match expr1 {
        NormalNixExpr::Attrs { rec: rec1, attrs: attrs1, dynamic_attrs: dynamic1 } => match expr2 {
            NormalNixExpr::Attrs { rec: rec2, attrs: attrs2, dynamic_attrs: dynamic2 } => {
                assert(def_size(def1@) == 1 + defs_size(attr_defs_view(attrs1@)));
                assert(def_size(def2@) == 1 + defs_size(attr_defs_view(attrs2@)));
                match merge_attrs(attrs1, attrs2) {
                    Ok(attrs) => Ok(
                        AttrDef {
                            name,
                            inherited: false,
                            expr: NormalNixExpr::Attrs {
                                rec: rec1 || rec2,
                                attrs,
                                dynamic_attrs: merge_dynamic_attrs(dynamic1, dynamic2),
                            },
                        },
                    ),
                    Err(e) => Err(e),
                }
            },
            _ => Err(NormalizeError::DuplicateAttr { name, conflict: Conflict::NotAttrSet }),
        },
        _ => Err(NormalizeError::DuplicateAttr { name, conflict: Conflict::NotAttrSet }),
    }
}

/// Adds the binding `d` to `acc`: merged into the first binding of its name
/// where there is one, put at the end where there is none.
pub fn add_def(acc: &mut Vec<AttrDef>, d: AttrDef) -> (r: Result<(), NormalizeError>)
    ensures
        match r {
            Ok(_) => add_def_spec(attr_defs_view(old(acc)@), d@) == Ok::<
                Seq<AttrDefView>,
                ErrorView,
            >(attr_defs_view(final(acc)@)),
            Err(e) => add_def_spec(attr_defs_view(old(acc)@), d@) == Err::<
                Seq<AttrDefView>,
                ErrorView,
            >(e@),
        },
    decreases defs_size(attr_defs_view(old(acc)@)) + def_size(d@), 1nat,
{
    let ghost before = attr_defs_view(acc@);
    let i = name_position(acc, &d.name);
    if i < acc.len() {
        let old_def = acc.remove(i);
        proof {
            assert(attr_def_view(old_def) == before[i as int]);
            lemma_defs_size_member(before, i as int);
        }
        match merge_attr_def(old_def, d) {
            Ok(merged) => {
                acc.insert(i, merged);
                assert(attr_defs_view(acc@) =~= before.update(i as int, attr_def_view(merged)));
                Ok(())
            },
            Err(e) => Err(e),
        }
    } else {
        acc.push(d);
        assert(attr_defs_view(acc@) =~= before.push(attr_def_view(d)));
        Ok(())
    }
}

/// Merges the bindings of `attrs1` and `attrs2`: bindings of one name fold
/// into one, from left to right, wherever they stand, and the result is
/// put in the order of the names.
pub fn merge_attrs(attrs1: Vec<AttrDef>, attrs2: Vec<AttrDef>) -> (r: Result<
    Vec<AttrDef>,
    NormalizeError,
>)
    ensures
        defs_result_view(r) == merge_attrs_spec(attr_defs_view(attrs1@), attr_defs_view(attrs2@)),
        r matches Ok(out) ==> names_strictly_ascending(attr_defs_view(out@)),
    decreases defs_size(attr_defs_view(attrs1@)) + defs_size(attr_defs_view(attrs2@)), 2nat,
{
    let ghost none = Seq::<AttrDefView>::empty();
    let ghost defs = attr_defs_view(attrs1@) + attr_defs_view(attrs2@);
    let mut all = attrs1;
    let mut rest = attrs2;
    all.append(&mut rest);
    let mut acc: Vec<AttrDef> = Vec::new();
    proof {
        lemma_defs_size_concat(attr_defs_view(attrs1@), attr_defs_view(attrs2@));
        assert(attr_defs_view(all@) =~= defs);
        assert(attr_defs_view(acc@) =~= none);
        assert(defs.take(0) =~= none);
    }
    for d in it: all
        invariant
            it.seq() == all@,
            defs == attr_defs_view(all@),
            defs == attr_defs_view(attrs1@) + attr_defs_view(attrs2@),
            defs_size(defs) == defs_size(attr_defs_view(attrs1@)) + defs_size(
                attr_defs_view(attrs2@),
            ),
            fold_defs_spec(Seq::empty(), defs.take(it.index() as int)) == Ok::<
                Seq<AttrDefView>,
                ErrorView,
            >(attr_defs_view(acc@)),
    {
        proof {
            let k = it.index() as int;
            assert(defs.take(k + 1).drop_last() =~= defs.take(k));
            assert(defs.take(k + 1).last() == attr_def_view(d));
            lemma_fold_defs_step(Seq::empty(), defs.take(k + 1));
            lemma_fold_defs_size(Seq::empty(), defs.take(k));
            lemma_defs_size_take(defs, k + 1);
        }
        match add_def(&mut acc, d) {
            Ok(()) => {},
            Err(e) => {
                proof {
                    lemma_fold_defs_fails(Seq::empty(), defs, it.index() as int + 1);
                }
                return Err(e);
            },
        }
    }
    proof {
        assert(defs.take(defs.len() as int) =~= defs);
        assert(names_distinct(none));
        lemma_fold_defs_distinct(none, defs);
        lemma_sort_strict(attr_defs_view(acc@));
    }
    Ok(sort_attrs(acc))
}

proof fn lemma_fold_defs_fails(acc: Seq<AttrDefView>, defs: Seq<AttrDefView>, k: int)
    requires
        0 <= k <= defs.len(),
        fold_defs_spec(acc, defs.take(k)) is Err,
    ensures
        fold_defs_spec(acc, defs) == fold_defs_spec(acc, defs.take(k)),
    decreases defs.len() - k,
{
    if k < defs.len() {
        assert(defs.take(k + 1).drop_last() =~= defs.take(k));
        lemma_fold_defs_step(acc, defs.take(k + 1));
        lemma_fold_defs_fails(acc, defs, k + 1);
    } else {
        assert(defs.take(k) =~= defs);
    }
}

} // verus!
