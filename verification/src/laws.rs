//! The global guarantees of the reconciliation logic, stated and proved
//! over the same specifications the operations' contracts use.

use vstd::prelude::*;
use crate::action::ActionView;
use crate::binding::BindingView;
use crate::model::{models_view, BindingId, Model};
use crate::shortcuts::{
    bindings_of, insert_pair, keys_set, keys_unique, lemma_insert_pair, lemma_merge,
    lemma_remove_key, lookup, merge, remove_key,
};
use crate::update::{action_at, dialog_view, row_at, staged_dialog, submit_rel};

verus! {

/// How often a binding occurs in a sequence.
pub open spec fn count_eq(bs: Seq<BindingView>, b: BindingView) -> nat
    decreases bs.len(),
{
    if bs.len() == 0 {
        0
    } else {
        count_eq(bs.drop_last(), b) + if bs.last() == b {
            1nat
        } else {
            0nat
        }
    }
}

/// A binding that is no key of the table occurs in no action's bindings.
pub proof fn lemma_absent_binding_no_row(
    t: Seq<(BindingView, ActionView)>,
    b: BindingView,
    a: ActionView,
)
    requires
        forall|i: int| 0 <= i < t.len() ==> (#[trigger] t[i]).0 != b,
    ensures
        count_eq(bindings_of(t, a), b) == 0,
    decreases t.len(),
{
    if t.len() > 0 {
        assert(forall|i: int| 0 <= i < t.drop_last().len()
            ==> (#[trigger] t.drop_last()[i]) == t[i]);
        lemma_absent_binding_no_row(t.drop_last(), b, a);
        if t.last().1 == a {
            assert(bindings_of(t, a).drop_last() =~= bindings_of(t.drop_last(), a));
        }
    }
}

/// In a table with unique keys, the binding's owner shows it in exactly
/// one row and every other action in none: after any rebuild, exactly one
/// row holds the binding.
pub proof fn lemma_unique_binding_row(
    t: Seq<(BindingView, ActionView)>,
    b: BindingView,
    a: ActionView,
)
    requires
        keys_unique(t),
        lookup(t, b) == Some(a),
    ensures
        count_eq(bindings_of(t, a), b) == 1,
        forall|a2: ActionView| a2 != a ==> count_eq(#[trigger] bindings_of(t, a2), b) == 0,
    decreases t.len(),
{
    assert(t.len() > 0);
    let rest = t.drop_last();
    assert(forall|i: int| 0 <= i < rest.len() ==> (#[trigger] rest[i]) == t[i]);
    if t.last().0 == b {
        assert(t.last().1 == a);
        assert(forall|i: int| 0 <= i < rest.len() ==> (#[trigger] rest[i]).0 != b);
        assert(bindings_of(t, a).drop_last() =~= bindings_of(rest, a));
        lemma_absent_binding_no_row(rest, b, a);
        assert forall|a2: ActionView| a2 != a implies count_eq(
            #[trigger] bindings_of(t, a2),
            b,
        ) == 0 by {
            lemma_absent_binding_no_row(rest, b, a2);
            assert(bindings_of(t, a2) == bindings_of(rest, a2));
        }
    } else {
        assert(lookup(rest, b) == Some(a));
        assert(keys_unique(rest));
        lemma_unique_binding_row(rest, b, a);
        assert forall|a2: ActionView| true implies count_eq(
            #[trigger] bindings_of(t, a2),
            b,
        ) == count_eq(bindings_of(rest, a2), b) by {
            if t.last().1 == a2 {
                assert(bindings_of(t, a2).drop_last() =~= bindings_of(rest, a2));
                assert(bindings_of(t, a2).last() == t.last().0);
            }
        }
    }
}

/// A `Disable` entry suppresses its binding: inserted into the custom
/// table, the merged system view maps the binding to `Disable`, which the
/// ownership lookup filters out.
pub proof fn lemma_disable_suppresses(
    defaults: Seq<(BindingView, ActionView)>,
    custom: Seq<(BindingView, ActionView)>,
    b: BindingView,
)
    requires
        keys_unique(custom),
    ensures
        lookup(merge(defaults, insert_pair(custom, b, ActionView::Disable)), b) == Some(
            ActionView::Disable,
        ),
{
    lemma_insert_pair(custom, b, ActionView::Disable);
    lemma_merge(defaults, insert_pair(custom, b, ActionView::Disable));
}

/// Committing a binding that another action already owns stages a replace
/// confirmation and persists nothing until it is confirmed.
pub proof fn lemma_conflict_stages_without_mutation(
    pre: Model,
    id: BindingId,
    post: Model,
    sid: BindingId,
    b: BindingView,
    owner: ActionView,
)
    requires
        submit_rel(pre, id.0 as int, post),
        pre.shortcut_context == Some(sid),
        row_at(pre, sid.0 as int, id.0 as int) is Some,
        crate::grammar::parse_spec(row_at(pre, sid.0 as int, id.0 as int).unwrap().input)
            == Some(b),
        b.is_set(),
        lookup(pre.store.merged_view(), b) == Some(owner),
        owner != ActionView::Disable,
    ensures
        post.store.custom_view() == pre.store.custom_view(),
        post.store.defaults@ == pre.store.defaults@,
        staged_dialog(dialog_view(post.replace_dialog), id.0 as int, b, owner),
{
}

/// The custom table's keys stay unique and set through any removal or
/// commit: an unset binding is never persisted as a key.
pub proof fn lemma_commit_keeps_table_wf(
    custom: Seq<(BindingView, ActionView)>,
    prev: BindingView,
    b: BindingView,
    a: ActionView,
)
    requires
        keys_unique(custom),
        keys_set(custom),
        b.is_set(),
    ensures
        keys_unique(insert_pair(remove_key(custom, prev), b, a)),
        keys_set(insert_pair(remove_key(custom, prev), b, a)),
{
    lemma_remove_key(custom, prev);
    lemma_insert_pair(remove_key(custom, prev), b, a);
}

/// An unset binding is never a key of a well-formed table: looking one up
/// in the persisted custom table finds nothing, whatever was committed.
pub proof fn lemma_no_unset_custom_key(m: Model, b: BindingView)
    requires
        m.store_ok(),
        !b.is_set(),
    ensures
        lookup(m.store.custom_view(), b) is None,
{
    lemma_set_keys_lookup(m.store.custom_view(), b);
}

/// A lookup in a table whose keys are all set finds nothing for an unset
/// binding.
pub proof fn lemma_set_keys_lookup(t: Seq<(BindingView, ActionView)>, b: BindingView)
    requires
        keys_set(t),
        !b.is_set(),
    ensures
        lookup(t, b) is None,
    decreases t.len(),
{
    if t.len() > 0 {
        assert(t[t.len() - 1].0.is_set());
        assert(forall|i: int| 0 <= i < t.drop_last().len()
            ==> (#[trigger] t.drop_last()[i]) == t[i]);
        lemma_set_keys_lookup(t.drop_last(), b);
    }
}

/// In a state that reflects the persisted tables, every group's `modified`
/// count equals the documented formula, recomputed from scratch over the
/// defaults and the reconciled table.
pub proof fn lemma_synced_modified_formula(m: Model, g: int)
    requires
        m.synced(),
        0 <= g < models_view(m.shortcut_models@).len(),
        models_view(m.shortcut_models@)[g] is Some,
    ensures
        models_view(m.shortcut_models@)[g].unwrap().modified == crate::model::modified_of(
            m.store.defaults@,
            m.store.merged_view(),
            models_view(m.shortcut_models@)[g].unwrap().action,
        ) as usize,
{
    let shown = m.shown_actions();
    assert(models_view(m.shortcut_models@)[g] == Some(
        crate::model::model_of(m.store.defaults@, m.store.merged_view(), shown[g]),
    ));
}

/// After a confirmed replace, the merged system view maps the contested
/// binding to the action of the row it was committed for: the new owner
/// gains it and the old owner's claim is gone.
pub proof fn lemma_replace_confirmed_new_owner(pre: Model, post: Model, sid: BindingId, id: int)
    requires
        crate::update::apply_replace_rel(pre, post),
        pre.wf(),
        dialog_view(pre.replace_dialog) matches Some((did, nb, _, _)) && did == id,
        pre.shortcut_context == Some(sid),
        row_at(pre, sid.0 as int, id) is Some,
    ensures
        lookup(post.store.merged_view(), dialog_view(pre.replace_dialog).unwrap().1) == Some(
            action_at(pre, sid.0 as int).unwrap(),
        ),
        count_eq(
            bindings_of(
                post.store.merged_view(),
                action_at(pre, sid.0 as int).unwrap(),
            ),
            dialog_view(pre.replace_dialog).unwrap().1,
        ) == 1,
        forall|a2: ActionView| a2 != action_at(pre, sid.0 as int).unwrap() ==> count_eq(
            #[trigger] bindings_of(post.store.merged_view(), a2),
            dialog_view(pre.replace_dialog).unwrap().1,
        ) == 0,
{
    let nb = dialog_view(pre.replace_dialog).unwrap().1;
    let row = row_at(pre, sid.0 as int, id).unwrap();
    let act = action_at(pre, sid.0 as int).unwrap();
    let c0 = pre.store.custom_view();
    let c1 = remove_key(c0, nb);
    lemma_remove_key(c0, nb);
    let c2 = remove_key(c1, row.binding);
    lemma_remove_key(c1, row.binding);
    let c3 = insert_pair(c2, nb, act);
    lemma_insert_pair(c2, nb, act);
    assert(post.store.custom_view() == c3);
    lemma_merge(post.store.defaults@, c3);
    assert(lookup(post.store.merged_view(), nb) == Some(act));
    lemma_unique_binding_row(post.store.merged_view(), nb, act);
}

} // verus!
