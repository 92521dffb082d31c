//! What merging gives: its names are those that went in, each once and in
//! strict order; a binding whose name stands once stays as it is; and
//! well-formed bindings merge into well-formed ones.

use crate::merge::{
    add_def_spec, def_size, defs_size, fold_defs_spec, insert_by_name, lemma_defs_size_concat,
    lemma_defs_size_member, lemma_fold_defs_size, lemma_fold_defs_step, lemma_insert_by_name,
    lemma_sort_by_name_ascending, lemma_sort_by_name_with_name, lemma_with_name_found,
    lemma_with_name_nonempty, merge_attrs_spec, merge_def_spec, name_index, names_ascending,
    names_distinct, names_strictly_ascending, sort_by_name, with_name,
};
use crate::normal_ast::{AttrDefView, ExprView};
use crate::text::{lemma_name_lt_asymmetric, lemma_name_lt_total, name_lt};
use crate::well_formed::{
    defs_well_formed, dynamic_def_well_formed, dynamic_defs_well_formed, well_formed, Rules,
};
use vstd::prelude::*;

verus! {

/// Whether a binding of `name` stands in `s`.
pub open spec fn has_name(s: Seq<AttrDefView>, name: Seq<char>) -> bool {
    exists|k: int| 0 <= k < s.len() && (#[trigger] s[k]).name == name
}

/// Bindings in the strict order of their names have distinct names.
pub proof fn lemma_strictly_ascending_distinct(s: Seq<AttrDefView>)
    requires
        names_strictly_ascending(s),
    ensures
        names_distinct(s),
{
    assert forall|i: int, j: int| 0 <= i < j < s.len() implies s[i].name != s[j].name by {
        lemma_name_lt_asymmetric(s[i].name, s[j].name);
    }
}

/// Bindings with distinct names that stand in the order of their names
/// stand in the strict order.
pub proof fn lemma_ascending_distinct_strict(s: Seq<AttrDefView>)
    requires
        names_ascending(s),
        names_distinct(s),
    ensures
        names_strictly_ascending(s),
{
    assert forall|i: int, j: int| 0 <= i < j < s.len() implies name_lt(s[i].name, s[j].name) by {
        lemma_name_lt_total(s[i].name, s[j].name);
    }
}

proof fn lemma_insert_distinct(d: AttrDefView, s: Seq<AttrDefView>)
    requires
        names_ascending(s),
        names_distinct(s),
        !has_name(s, d.name),
    ensures
        names_distinct(insert_by_name(d, s)),
    decreases s.len(),
{
    let r = insert_by_name(d, s);
    if s.len() > 0 && name_lt(s[0].name, d.name) {
        let tail = s.drop_first();
        let rest = insert_by_name(d, tail);
        assert forall|i: int, j: int| 0 <= i < j < tail.len() implies !name_lt(
            tail[j].name,
            tail[i].name,
        ) && tail[i].name != tail[j].name by {
            assert(tail[i] == s[i + 1] && tail[j] == s[j + 1]);
        }
        assert(!has_name(tail, d.name)) by {
            if has_name(tail, d.name) {
                let k = choose|k: int| 0 <= k < tail.len() && (#[trigger] tail[k]).name == d.name;
                assert(s[k + 1].name == d.name);
            }
        }
        lemma_insert_distinct(d, tail);
        lemma_insert_by_name(d, tail);
        assert forall|i: int, j: int| 0 <= i < j < r.len() implies r[i].name != r[j].name by {
            assert(r[j] == rest[j - 1]);
            if i == 0 {
                assert(r[0] == s[0]);
                if rest[j - 1] == d {
                    assert(s[0].name != d.name);
                } else {
                    let m = choose|m: int| 0 <= m < tail.len() && tail[m] == rest[j - 1];
                    assert(s[m + 1] == rest[j - 1]);
                    assert(s[0].name != s[m + 1].name);
                }
            } else {
                assert(r[i] == rest[i - 1]);
            }
        }
    } else {
        assert forall|i: int, j: int| 0 <= i < j < r.len() implies r[i].name != r[j].name by {
            assert(r[j] == s[j - 1]);
            if i == 0 {
                assert(r[0] == d);
            } else {
                assert(r[i] == s[i - 1]);
            }
        }
    }
}

/// Sorting brings in nothing new: each binding of the result stands in the
/// sequence that was sorted.
pub proof fn lemma_sort_members(s: Seq<AttrDefView>)
    ensures
        sort_by_name(s).len() == s.len(),
        forall|k: int| 0 <= k < s.len() ==> s.contains(#[trigger] sort_by_name(s)[k]),
    decreases s.len(),
{
    if s.len() > 0 {
        let tail = s.drop_first();
        let sorted = sort_by_name(tail);
        let r = sort_by_name(s);
        lemma_sort_members(tail);
        lemma_sort_by_name_ascending(tail);
        lemma_insert_by_name(s[0], sorted);
        assert forall|k: int| 0 <= k < s.len() implies s.contains(#[trigger] r[k]) by {
            if r[k] != s[0] {
                let m = choose|m: int| 0 <= m < sorted.len() && sorted[m] == r[k];
                let n = choose|n: int| 0 <= n < tail.len() && tail[n] == sorted[m];
                assert(s[n + 1] == r[k]);
            } else {
                assert(s[0] == r[k]);
            }
        }
    }
}

/// Bindings with distinct names, sorted, stand in the strict order of
/// their names.
pub proof fn lemma_sort_strict(s: Seq<AttrDefView>)
    requires
        names_distinct(s),
    ensures
        names_strictly_ascending(sort_by_name(s)),
    decreases s.len(),
{
    lemma_sort_distinct(s);
    lemma_sort_by_name_ascending(s);
    lemma_ascending_distinct_strict(sort_by_name(s));
}

proof fn lemma_sort_distinct(s: Seq<AttrDefView>)
    requires
        names_distinct(s),
    ensures
        names_distinct(sort_by_name(s)),
    decreases s.len(),
{
    if s.len() > 0 {
        let tail = s.drop_first();
        let sorted = sort_by_name(tail);
        assert forall|i: int, j: int| 0 <= i < j < tail.len() implies tail[i].name
            != tail[j].name by {
            assert(tail[i] == s[i + 1] && tail[j] == s[j + 1]);
        }
        lemma_sort_distinct(tail);
        lemma_sort_by_name_ascending(tail);
        lemma_sort_members(tail);
        assert(!has_name(sorted, s[0].name)) by {
            if has_name(sorted, s[0].name) {
                let k = choose|k: int| 0 <= k < sorted.len() && (#[trigger] sorted[k]).name == s[0].name;
                assert(tail.contains(sorted[k]));
                let n = choose|n: int| 0 <= n < tail.len() && tail[n] == sorted[k];
                assert(s[n + 1].name == s[0].name);
            }
        }
        lemma_insert_distinct(s[0], sorted);
    }
}

/// The place that [`name_index`] gives is that of a binding of the name,
/// and where it gives none, no binding has the name.
pub proof fn lemma_name_index_found(defs: Seq<AttrDefView>, name: Seq<char>)
    ensures
        name_index(defs, name) <= defs.len(),
        name_index(defs, name) < defs.len() ==> defs[name_index(defs, name) as int].name == name,
        name_index(defs, name) == defs.len() ==> !has_name(defs, name),
    decreases defs.len(),
{
    if defs.len() > 0 && defs[0].name != name {
        let tail = defs.drop_first();
        lemma_name_index_found(tail, name);
        let i = name_index(tail, name) as int;
        if i < tail.len() {
            assert(tail[i] == defs[i + 1]);
        } else {
            if has_name(defs, name) {
                let k = choose|k: int| 0 <= k < defs.len() && (#[trigger] defs[k]).name == name;
                assert(tail[k - 1].name == name);
            }
        }
    }
}

/// Adding bindings to bindings of distinct names gives bindings of
/// distinct names.
pub proof fn lemma_fold_defs_distinct(acc: Seq<AttrDefView>, defs: Seq<AttrDefView>)
    requires
        names_distinct(acc),
        fold_defs_spec(acc, defs) is Ok,
    ensures
        names_distinct(fold_defs_spec(acc, defs)->Ok_0),
    decreases defs.len(),
{
    if defs.len() > 0 {
        lemma_fold_defs_step(acc, defs);
        lemma_fold_defs_distinct(acc, defs.drop_last());
        let before = fold_defs_spec(acc, defs.drop_last())->Ok_0;
        let d = defs.last();
        let after = add_def_spec(before, d)->Ok_0;
        let i = name_index(before, d.name) as int;
        lemma_name_index_found(before, d.name);
        if i < before.len() {
            let merged = merge_def_spec(before[i], d)->Ok_0;
            assert(merged.name == before[i].name);
            assert(after == before.update(i, merged));
            assert forall|a: int, b: int| 0 <= a < b < after.len() implies after[a].name
                != after[b].name by {
                assert(after[a].name == before[a].name);
                assert(after[b].name == before[b].name);
            }
        } else {
            assert(after == before.push(d));
            assert forall|a: int, b: int| 0 <= a < b < after.len() implies after[a].name
                != after[b].name by {
                if b == before.len() {
                    assert(after[a] == before[a]);
                    assert(after[b] == d);
                } else {
                    assert(after[a] == before[a] && after[b] == before[b]);
                }
            }
        }
    }
}

/// What merging gives stands in the strict byte order of its names: no
/// name occurs twice in it, whatever stood in the two sequences.
pub proof fn lemma_merge_attrs_strictly_ascending(
    attrs1: Seq<AttrDefView>,
    attrs2: Seq<AttrDefView>,
)
    requires
        merge_attrs_spec(attrs1, attrs2) is Ok,
    ensures
        names_strictly_ascending(merge_attrs_spec(attrs1, attrs2)->Ok_0),
{
    let none = Seq::<AttrDefView>::empty();
    assert(names_distinct(none));
    lemma_fold_defs_distinct(none, attrs1 + attrs2);
    lemma_sort_strict(fold_defs_spec(none, attrs1 + attrs2)->Ok_0);
}

/// Merging two well-formed bindings gives a well-formed binding of the
/// first one's name.
pub proof fn lemma_merge_def_well_formed(d1: AttrDefView, d2: AttrDefView, rules: Rules)
    requires
        well_formed(d1.expr, rules),
        well_formed(d2.expr, rules),
        merge_def_spec(d1, d2) is Ok,
    ensures
        well_formed(merge_def_spec(d1, d2)->Ok_0.expr, rules),
        merge_def_spec(d1, d2)->Ok_0.name == d1.name,
    decreases def_size(d1) + def_size(d2), 0nat,
{
    match (d1.expr, d2.expr) {
        (
            ExprView::Attrs { rec: rec1, attrs: attrs1, dynamic_attrs: dynamic1 },
            ExprView::Attrs { rec: rec2, attrs: attrs2, dynamic_attrs: dynamic2 },
        ) => {
            lemma_merge_attrs_well_formed(attrs1, attrs2, rules);
            let both = dynamic1 + dynamic2;
            assert(dynamic_defs_well_formed(dynamic1, rules));
            assert(dynamic_defs_well_formed(dynamic2, rules));
            assert forall|i: int| 0 <= i < both.len() implies dynamic_def_well_formed(
                #[trigger] both[i],
                rules,
            ) by {
                if i < dynamic1.len() {
                    assert(both[i] == dynamic1[i]);
                } else {
                    assert(both[i] == dynamic2[i - dynamic1.len()]);
                }
            }
            let attrs = merge_attrs_spec(attrs1, attrs2)->Ok_0;
            let merged = ExprView::Attrs { rec: rec1 || rec2, attrs, dynamic_attrs: both };
            assert(merge_def_spec(d1, d2)->Ok_0.expr == merged);
            assert(dynamic_defs_well_formed(both, rules));
            assert(defs_well_formed(attrs, rules));
            assert(well_formed(merged, rules));
        },
        _ => {},
    }
}

/// Adding well-formed bindings to well-formed bindings gives well-formed
/// bindings.
pub proof fn lemma_fold_defs_well_formed(
    acc: Seq<AttrDefView>,
    defs: Seq<AttrDefView>,
    rules: Rules,
)
    requires
        defs_well_formed(acc, rules),
        defs_well_formed(defs, rules),
        fold_defs_spec(acc, defs) is Ok,
    ensures
        defs_well_formed(fold_defs_spec(acc, defs)->Ok_0, rules),
    decreases defs_size(acc) + defs_size(defs), 2nat,
{
    if defs.len() > 0 {
        let init = defs.drop_last();
        let d = defs.last();
        lemma_fold_defs_step(acc, defs);
        assert(defs_well_formed(init, rules)) by {
            assert forall|i: int| 0 <= i < init.len() implies well_formed(
                (#[trigger] init[i]).expr,
                rules,
            ) by {
                assert(init[i] == defs[i]);
            }
        }
        assert(def_size(d) >= 1);
        lemma_fold_defs_well_formed(acc, init, rules);
        lemma_fold_defs_size(acc, init);
        let before = fold_defs_spec(acc, init)->Ok_0;
        let after = add_def_spec(before, d)->Ok_0;
        let i = name_index(before, d.name) as int;
        lemma_name_index_found(before, d.name);
        assert(well_formed(defs[defs.len() - 1].expr, rules));
        if i < before.len() {
            lemma_defs_size_member(before, i);
            lemma_merge_def_well_formed(before[i], d, rules);
            let merged = merge_def_spec(before[i], d)->Ok_0;
            assert(after == before.update(i, merged));
            assert forall|k: int| 0 <= k < after.len() implies well_formed(
                (#[trigger] after[k]).expr,
                rules,
            ) by {
                if k != i {
                    assert(after[k] == before[k]);
                }
            }
        } else {
            assert(after == before.push(d));
            assert forall|k: int| 0 <= k < after.len() implies well_formed(
                (#[trigger] after[k]).expr,
                rules,
            ) by {
                if k < before.len() {
                    assert(after[k] == before[k]);
                }
            }
        }
    }
}

/// Merging well-formed bindings gives well-formed bindings in the strict
/// order of their names.
pub proof fn lemma_merge_attrs_well_formed(
    attrs1: Seq<AttrDefView>,
    attrs2: Seq<AttrDefView>,
    rules: Rules,
)
    requires
        defs_well_formed(attrs1, rules),
        defs_well_formed(attrs2, rules),
        merge_attrs_spec(attrs1, attrs2) is Ok,
    ensures
        names_strictly_ascending(merge_attrs_spec(attrs1, attrs2)->Ok_0),
        defs_well_formed(merge_attrs_spec(attrs1, attrs2)->Ok_0, rules),
    decreases defs_size(attrs1) + defs_size(attrs2), 3nat,
{
    let none = Seq::<AttrDefView>::empty();
    let all = attrs1 + attrs2;
    lemma_defs_size_concat(attrs1, attrs2);
    assert forall|i: int| 0 <= i < all.len() implies well_formed((#[trigger] all[i]).expr, rules) by {
        if i < attrs1.len() {
            assert(all[i] == attrs1[i]);
        } else {
            assert(all[i] == attrs2[i - attrs1.len()]);
        }
    }
    assert(defs_well_formed(none, rules));
    lemma_fold_defs_well_formed(none, all, rules);
    lemma_merge_attrs_strictly_ascending(attrs1, attrs2);
    let acc = fold_defs_spec(none, all)->Ok_0;
    let sorted = sort_by_name(acc);
    lemma_sort_members(acc);
    assert forall|k: int| 0 <= k < sorted.len() implies well_formed(
        (#[trigger] sorted[k]).expr,
        rules,
    ) by {
        assert(acc.contains(sorted[k]));
        let m = choose|m: int| 0 <= m < acc.len() && acc[m] == sorted[k];
        assert(well_formed(acc[m].expr, rules));
    }
}

/// The bindings of a name in a sequence that grew by one at its end.
pub proof fn lemma_with_name_push(s: Seq<AttrDefView>, x: AttrDefView, name: Seq<char>)
    ensures
        with_name(s.push(x), name) == if x.name == name {
            with_name(s, name).push(x)
        } else {
            with_name(s, name)
        },
    decreases s.len(),
{
    if s.len() == 0 {
        assert(s.push(x).drop_first() =~= s);
        assert(with_name(s, name) =~= Seq::<AttrDefView>::empty());
        assert(seq![x] + Seq::<AttrDefView>::empty() =~= Seq::<AttrDefView>::empty().push(x));
    } else {
        lemma_with_name_push(s.drop_first(), x, name);
        assert(s.push(x).drop_first() =~= s.drop_first().push(x));
        assert(s.push(x)[0] == s[0]);
        if s[0].name == name && x.name == name {
            assert(seq![s[0]] + with_name(s.drop_first(), name).push(x) =~= (seq![s[0]]
                + with_name(s.drop_first(), name)).push(x));
        }
    }
}

/// Changing a binding of another name changes nothing in the bindings of
/// a name.
pub proof fn lemma_with_name_update(
    s: Seq<AttrDefView>,
    i: int,
    m: AttrDefView,
    name: Seq<char>,
)
    requires
        0 <= i < s.len(),
        s[i].name != name,
        m.name != name,
    ensures
        with_name(s.update(i, m), name) == with_name(s, name),
    decreases s.len(),
{
    let u = s.update(i, m);
    if i == 0 {
        assert(u.drop_first() =~= s.drop_first());
    } else {
        lemma_with_name_update(s.drop_first(), i - 1, m, name);
        assert(u.drop_first() =~= s.drop_first().update(i - 1, m));
        assert(s.drop_first()[i - 1] == s[i]);
        assert(u[0] == s[0]);
    }
}

/// A name stands in a sequence exactly if the sequence holds bindings of
/// it.
pub proof fn lemma_has_name_with_name(s: Seq<AttrDefView>, name: Seq<char>)
    ensures
        has_name(s, name) <==> with_name(s, name).len() > 0,
{
    if has_name(s, name) {
        let k = choose|k: int| 0 <= k < s.len() && (#[trigger] s[k]).name == name;
        lemma_with_name_nonempty(s, k);
    }
    if with_name(s, name).len() > 0 {
        let k = lemma_with_name_found(s, name);
        assert(s[k].name == name);
    }
}

/// After a binding is added, the names are those that were there and the
/// name of the binding.
pub proof fn lemma_add_def_names(acc: Seq<AttrDefView>, d: AttrDefView, name: Seq<char>)
    requires
        add_def_spec(acc, d) is Ok,
    ensures
        has_name(add_def_spec(acc, d)->Ok_0, name) <==> has_name(acc, name) || d.name == name,
{
    let after = add_def_spec(acc, d)->Ok_0;
    let i = name_index(acc, d.name) as int;
    lemma_name_index_found(acc, d.name);
    if i < acc.len() {
        let merged = merge_def_spec(acc[i], d)->Ok_0;
        assert(merged.name == acc[i].name);
        assert(after == acc.update(i, merged));
        if has_name(acc, name) {
            let k = choose|k: int| 0 <= k < acc.len() && (#[trigger] acc[k]).name == name;
            assert(after[k].name == name);
        }
        if has_name(after, name) {
            let k = choose|k: int| 0 <= k < after.len() && (#[trigger] after[k]).name == name;
            assert(acc[k].name == name);
        }
        assert(after[i].name == d.name);
    } else {
        assert(after == acc.push(d));
        if has_name(acc, name) {
            let k = choose|k: int| 0 <= k < acc.len() && (#[trigger] acc[k]).name == name;
            assert(after[k] == acc[k]);
        }
        if has_name(after, name) {
            let k = choose|k: int| 0 <= k < after.len() && (#[trigger] after[k]).name == name;
            if k < acc.len() {
                assert(acc[k] == after[k]);
            }
        }
        assert(after[acc.len() as int] == d);
    }
}

/// After bindings are added, the names are those that were there and those
/// of the bindings.
pub proof fn lemma_fold_defs_names(acc: Seq<AttrDefView>, defs: Seq<AttrDefView>, name: Seq<char>)
    requires
        fold_defs_spec(acc, defs) is Ok,
    ensures
        has_name(fold_defs_spec(acc, defs)->Ok_0, name) <==> has_name(acc, name) || has_name(
            defs,
            name,
        ),
    decreases defs.len(),
{
    if defs.len() > 0 {
        let init = defs.drop_last();
        lemma_fold_defs_step(acc, defs);
        lemma_fold_defs_names(acc, init, name);
        lemma_add_def_names(fold_defs_spec(acc, init)->Ok_0, defs.last(), name);
        if has_name(init, name) {
            let k = choose|k: int| 0 <= k < init.len() && (#[trigger] init[k]).name == name;
            assert(defs[k].name == name);
        }
        if has_name(defs, name) {
            let k = choose|k: int| 0 <= k < defs.len() && (#[trigger] defs[k]).name == name;
            if k < init.len() {
                assert(init[k].name == name);
            }
        }
        assert(defs[defs.len() - 1] == defs.last());
    }
}

/// What merging gives has the names of the two sequences, and no others.
pub proof fn lemma_merge_attrs_names(
    attrs1: Seq<AttrDefView>,
    attrs2: Seq<AttrDefView>,
    name: Seq<char>,
)
    requires
        merge_attrs_spec(attrs1, attrs2) is Ok,
    ensures
        has_name(merge_attrs_spec(attrs1, attrs2)->Ok_0, name) <==> has_name(
            attrs1 + attrs2,
            name,
        ),
{
    let none = Seq::<AttrDefView>::empty();
    let acc = fold_defs_spec(none, attrs1 + attrs2)->Ok_0;
    lemma_fold_defs_names(none, attrs1 + attrs2, name);
    assert(!has_name(none, name));
    lemma_sort_by_name_with_name(acc, name);
    lemma_has_name_with_name(acc, name);
    lemma_has_name_with_name(sort_by_name(acc), name);
}

/// Adding bindings among which a name stands once at most, to bindings
/// without that name, leaves the binding of that name as it is.
pub proof fn lemma_fold_defs_keeps_single(
    acc: Seq<AttrDefView>,
    defs: Seq<AttrDefView>,
    name: Seq<char>,
)
    requires
        !has_name(acc, name),
        with_name(defs, name).len() <= 1,
        fold_defs_spec(acc, defs) is Ok,
    ensures
        with_name(fold_defs_spec(acc, defs)->Ok_0, name) == with_name(defs, name),
    decreases defs.len(),
{
    if defs.len() == 0 {
        lemma_has_name_with_name(acc, name);
        assert(with_name(acc, name) =~= with_name(defs, name));
    } else {
        let init = defs.drop_last();
        let x = defs.last();
        assert(init.push(x) =~= defs);
        lemma_with_name_push(init, x, name);
        lemma_fold_defs_step(acc, defs);
        let before = fold_defs_spec(acc, init)->Ok_0;
        let after = add_def_spec(before, x)->Ok_0;
        lemma_fold_defs_keeps_single(acc, init, name);
        lemma_fold_defs_names(acc, init, name);
        lemma_has_name_with_name(init, name);
        lemma_has_name_with_name(before, name);
        let i = name_index(before, x.name) as int;
        lemma_name_index_found(before, x.name);
        if x.name == name {
            assert(with_name(init, name).len() == 0);
            assert(!has_name(before, name));
            assert(after == before.push(x));
            lemma_with_name_push(before, x, name);
        } else if i < before.len() {
            let merged = merge_def_spec(before[i], x)->Ok_0;
            assert(merged.name == before[i].name);
            lemma_with_name_update(before, i, merged, name);
        } else {
            lemma_with_name_push(before, x, name);
        }
    }
}

/// A binding whose name stands once in the two sequences is in what
/// merging gives, unchanged.
pub proof fn lemma_merge_attrs_keeps_single(
    attrs1: Seq<AttrDefView>,
    attrs2: Seq<AttrDefView>,
    d: AttrDefView,
)
    requires
        merge_attrs_spec(attrs1, attrs2) is Ok,
        with_name(attrs1 + attrs2, d.name) == seq![d],
    ensures
        with_name(merge_attrs_spec(attrs1, attrs2)->Ok_0, d.name) == seq![d],
{
    let none = Seq::<AttrDefView>::empty();
    assert(!has_name(none, d.name));
    lemma_fold_defs_keeps_single(none, attrs1 + attrs2, d.name);
    lemma_sort_by_name_with_name(fold_defs_spec(none, attrs1 + attrs2)->Ok_0, d.name);
}

} // verus!
