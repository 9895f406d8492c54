//! The interactive state machine: every UI event of the shortcut pane as a
//! message, and what each one does to the rows, the staged dialog and the
//! persisted tables.

use vstd::prelude::*;
use crate::action::{Action, ActionView};
use crate::binding::{Binding, BindingView};
use crate::grammar::parse_spec;
use crate::keys::{KeyEvent, Modifiers};
use crate::model::{
    models_view, rows_view, BindingId, Model, RowView, ShortcutBinding, ShortcutModel,
    ShortcutModelView,
};
use crate::shortcuts::{insert_pair, lookup, remove_key};

verus! {

/// A UI event of the shortcut pane.
#[derive(Debug)]
pub enum ShortcutMessage {
    /// Add an empty row to the active row group, reusing an empty one.
    AddKeybinding,
    /// Confirm the staged replace dialog.
    ApplyReplace,
    /// Discard the staged replace dialog.
    CancelReplace,
    /// Delete one row of the active row group.
    DeleteBinding(BindingId),
    /// Delete a whole row group and its custom entries.
    DeleteShortcut(BindingId),
    /// Enter or leave text editing on one row.
    EditBinding(BindingId, bool),
    /// Replace the edit buffer of one row.
    InputBinding(BindingId, String),
    /// Commit the typed edit buffer of one row.
    SubmitBinding(BindingId),
    /// Start raw key capture for one row.
    PressBinding(BindingId),
    /// Restore the active row group to its defaults.
    ResetBindings,
    /// Open the detail view of one row group.
    ShowShortcut(BindingId, String),
    /// A raw key press captured for one row.
    KeyPressed(BindingId, KeyEvent, Modifiers),
}

/// Mathematical value of an [`Effect`].
pub ghost enum EffectView {
    Focus(int, int),
    SelectAll(int, int),
    OpenContextDrawer(Seq<char>),
}

/// A fire-and-forget UI command the surrounding application performs: focus
/// the text field of a row, select its whole text, or open the context
/// drawer with a title. A row is addressed by row group key and row key.
#[derive(Debug)]
pub enum Effect {
    Focus(BindingId, BindingId),
    SelectAll(BindingId, BindingId),
    OpenContextDrawer(String),
}

impl View for Effect {
    type V = EffectView;

    open spec fn view(&self) -> EffectView {
        match self {
            Effect::Focus(m, r) => EffectView::Focus(m.0 as int, r.0 as int),
            Effect::SelectAll(m, r) => EffectView::SelectAll(m.0 as int, r.0 as int),
            Effect::OpenContextDrawer(s) => EffectView::OpenContextDrawer(s@),
        }
    }
}

/// The views of a sequence of effects.
pub open spec fn eviews(v: Seq<Effect>) -> Seq<EffectView> {
    v.map_values(|e: Effect| e@)
}

/// Mathematical value of a staged replace dialog.
pub open spec fn dialog_view(
    d: Option<(BindingId, Binding, Action, String)>,
) -> Option<(int, BindingView, ActionView, Seq<char>)> {
    match d {
        Some((id, b, a, l)) => Some((id.0 as int, b@, a@, l@)),
        None => None,
    }
}

/// The row group at arena key `sid`, by mathematical value.
pub open spec fn model_at(m: Model, sid: int) -> Option<ShortcutModelView> {
    match m.shortcut_models.spec_get(sid) {
        Some(sm) => Some(sm@),
        None => None,
    }
}

/// The row at key `id` of the row group at key `sid`.
pub open spec fn row_at(m: Model, sid: int, id: int) -> Option<RowView> {
    match m.shortcut_models.spec_get(sid) {
        Some(sm) => match sm.bindings.spec_get(id) {
            Some(r) => Some(r@),
            None => None,
        },
        None => None,
    }
}

/// The action of the row group at key `sid`.
pub open spec fn action_at(m: Model, sid: int) -> Option<ActionView> {
    match m.shortcut_models.spec_get(sid) {
        Some(sm) => Some(sm.action@),
        None => None,
    }
}

/// Nothing observable differs between the two states.
pub open spec fn unchanged(pre: Model, post: Model) -> bool {
    &&& post.entity == pre.entity
    &&& post.defaults@ == pre.defaults@
    &&& dialog_view(post.replace_dialog) == dialog_view(pre.replace_dialog)
    &&& models_view(post.shortcut_models@) == models_view(pre.shortcut_models@)
    &&& post.shortcut_context == pre.shortcut_context
    &&& post.store.defaults@ == pre.store.defaults@
    &&& post.store.custom_view() == pre.store.custom_view()
    &&& post.custom == pre.custom
    &&& crate::model::aviews(post.actions@) == crate::model::aviews(pre.actions@)
}

/// Only the row groups differ, in the stated way.
pub open spec fn only_models_changed(
    pre: Model,
    post: Model,
    ms: Seq<Option<ShortcutModelView>>,
) -> bool {
    &&& post.entity == pre.entity
    &&& post.defaults@ == pre.defaults@
    &&& dialog_view(post.replace_dialog) == dialog_view(pre.replace_dialog)
    &&& models_view(post.shortcut_models@) == ms
    &&& post.shortcut_context == pre.shortcut_context
    &&& post.store.defaults@ == pre.store.defaults@
    &&& post.store.custom_view() == pre.store.custom_view()
    &&& post.custom == pre.custom
    &&& crate::model::aviews(post.actions@) == crate::model::aviews(pre.actions@)
}

/// The row group views with row `id` of group `sid` replaced, and that
/// group's capture marker replaced when `set_rki` says so.
pub open spec fn with_row(
    ms: Seq<Option<ShortcutModelView>>,
    sid: int,
    id: int,
    row: RowView,
    set_rki: bool,
    rki: Option<int>,
) -> Seq<Option<ShortcutModelView>>
    recommends
        0 <= sid < ms.len(),
        ms[sid] is Some,
{
    let m = ms[sid].unwrap();
    ms.update(
        sid,
        Some(
            ShortcutModelView {
                bindings: m.bindings.update(id, Some(row)),
                request_key_input: if set_rki {
                    rki
                } else {
                    m.request_key_input
                },
                ..m
            },
        ),
    )
}

/// A staged replace dialog for row `id`, candidate `b` and owner `a`.
pub open spec fn staged_dialog(
    d: Option<(int, BindingView, ActionView, Seq<char>)>,
    id: int,
    b: BindingView,
    a: ActionView,
) -> bool {
    d matches Some((did, db, da, dl)) && did == id && db == b && da == a && dl == a.label()
}

/// The staged replace dialog, if any, holds a set candidate binding.
impl Model {
    pub open spec fn dialog_ok(self) -> bool {
        match self.replace_dialog {
            Some((_, b, _, _)) => b@.is_set(),
            None => true,
        }
    }
}

/// A live row pins down the shape of the row group views around it.
pub proof fn lemma_row_at_bounds(m: Model, sid: int, id: int)
    requires
        row_at(m, sid, id) is Some,
    ensures
        0 <= sid < models_view(m.shortcut_models@).len(),
        models_view(m.shortcut_models@)[sid] is Some,
        0 <= id < models_view(m.shortcut_models@)[sid].unwrap().bindings.len(),
        models_view(m.shortcut_models@)[sid].unwrap().bindings[id] == Some(
            row_at(m, sid, id).unwrap(),
        ),
        action_at(m, sid) == Some(models_view(m.shortcut_models@)[sid].unwrap().action),
        model_at(m, sid) == models_view(m.shortcut_models@)[sid],
{
    let arena = m.shortcut_models@;
    let sm = arena[sid].unwrap();
    assert(models_view(arena)[sid] == Some(sm@));
    assert(sm@.bindings == rows_view(sm.bindings@));
    assert(rows_view(sm.bindings@)[id] == Some(sm.bindings@[id].unwrap()@));
}

/// The row group views pin down `row_at` and `action_at`.
pub proof fn lemma_view_row(m: Model, sid: int, id: int)
    requires
        0 <= sid < models_view(m.shortcut_models@).len(),
        models_view(m.shortcut_models@)[sid] is Some,
        0 <= id < models_view(m.shortcut_models@)[sid].unwrap().bindings.len(),
    ensures
        row_at(m, sid, id) == models_view(m.shortcut_models@)[sid].unwrap().bindings[id],
        action_at(m, sid) == Some(models_view(m.shortcut_models@)[sid].unwrap().action),
        model_at(m, sid) == models_view(m.shortcut_models@)[sid],
{
    let arena = m.shortcut_models@;
    let ms = models_view(arena);
    assert(ms[sid] == match arena[sid] {
        Some(sm) => Some(sm@),
        None => None::<ShortcutModelView>,
    });
    let sm = arena[sid].unwrap();
    assert(sm@.bindings == rows_view(sm.bindings@));
    assert(rows_view(sm.bindings@)[id] == match sm.bindings@[id] {
        Some(r) => Some(r@),
        None => None::<RowView>,
    });
}

/// The conflict-check/commit step shared by typed submits and captured
/// keys, over a set candidate `b` for row `id` of group `sid`. When the
/// merged system view already maps `b` to an action other than `Disable`, a
/// replace dialog is staged and nothing is persisted; `ms` is what the row
/// groups look like then. Otherwise the row's previous binding leaves the
/// custom table, `b` enters it under the group's action, and the rows are
/// rebuilt from the persisted truth.
pub open spec fn commit_or_stage_rel(
    pre: Model,
    sid: int,
    id: int,
    b: BindingView,
    post: Model,
    ms: Seq<Option<ShortcutModelView>>,
) -> bool {
    let found = lookup(pre.store.merged_view(), b);
    if found is Some && found != Some(ActionView::Disable) {
        &&& staged_dialog(dialog_view(post.replace_dialog), id, b, found.unwrap())
        &&& post.entity == pre.entity
        &&& post.defaults@ == pre.defaults@
        &&& models_view(post.shortcut_models@) == ms
        &&& post.shortcut_context == pre.shortcut_context
        &&& post.store.defaults@ == pre.store.defaults@
        &&& post.store.custom_view() == pre.store.custom_view()
        &&& post.custom == pre.custom
        &&& crate::model::aviews(post.actions@) == crate::model::aviews(pre.actions@)
    } else {
        &&& post.store.custom_view() == insert_pair(
            remove_key(pre.store.custom_view(), row_at(pre, sid, id).unwrap().binding),
            b,
            action_at(pre, sid).unwrap(),
        )
        &&& post.store.defaults@ == pre.store.defaults@
        &&& post.synced()
        &&& dialog_view(post.replace_dialog) == dialog_view(pre.replace_dialog)
        &&& post.shortcut_context == pre.shortcut_context
        &&& post.entity == pre.entity
        &&& post.custom == pre.custom
        &&& crate::model::aviews(post.actions@) == crate::model::aviews(pre.actions@)
    }
}

/// What committing the typed edit buffer of row `id` does: nothing without
/// a context, a live row and a parseable buffer; an unset result only
/// clears the buffer; a set result goes through the conflict check.
pub open spec fn submit_rel(pre: Model, id: int, post: Model) -> bool {
    match pre.shortcut_context {
        None => unchanged(pre, post),
        Some(sid) => match row_at(pre, sid.0 as int, id) {
            None => unchanged(pre, post),
            Some(row) => match parse_spec(row.input) {
                None => unchanged(pre, post),
                Some(b) => if !b.is_set() {
                    only_models_changed(
                        pre,
                        post,
                        with_row(
                            models_view(pre.shortcut_models@),
                            sid.0 as int,
                            id,
                            RowView { input: Seq::empty(), ..row },
                            false,
                            None,
                        ),
                    )
                } else {
                    commit_or_stage_rel(
                        pre,
                        sid.0 as int,
                        id,
                        b,
                        post,
                        models_view(pre.shortcut_models@),
                    )
                },
            },
        },
    }
}

/// What a captured raw key press for row `id` does: an uncapturable key
/// does nothing; a mapped one fills the row's buffer with the candidate's
/// canonical form, clears the capture marker, and goes through the
/// conflict check.
pub open spec fn key_pressed_rel(
    pre: Model,
    id: int,
    key: crate::keys::KeyEventView,
    mods: Modifiers,
    post: Model,
) -> bool {
    match pre.shortcut_context {
        None => unchanged(pre, post),
        Some(sid) => match row_at(pre, sid.0 as int, id) {
            None => unchanged(pre, post),
            Some(row) => match crate::keysym::keysym_of(key) {
                None => unchanged(pre, post),
                Some(name) => {
                    let b = BindingView { modifiers: mods, key: Some(name) };
                    commit_or_stage_rel(
                        pre,
                        sid.0 as int,
                        id,
                        b,
                        post,
                        with_row(
                            models_view(pre.shortcut_models@),
                            sid.0 as int,
                            id,
                            RowView { input: crate::grammar::format_spec(b), ..row },
                            true,
                            None,
                        ),
                    )
                },
            },
        },
    }
}

/// The bindings of the occupied rows, in slot order.
pub open spec fn occupied_bindings(rows: Seq<Option<RowView>>) -> Seq<BindingView>
    decreases rows.len(),
{
    if rows.len() == 0 {
        Seq::empty()
    } else {
        occupied_bindings(rows.drop_last()) + match rows.last() {
            Some(r) => seq![r.binding],
            None => Seq::empty(),
        }
    }
}

/// The keys removed one after the other, in order.
pub open spec fn remove_keys(
    s: Seq<(BindingView, ActionView)>,
    bs: Seq<BindingView>,
) -> Seq<(BindingView, ActionView)>
    decreases bs.len(),
{
    if bs.len() == 0 {
        s
    } else {
        remove_key(remove_keys(s, bs.drop_last()), bs.last())
    }
}

/// Removing keys keeps a table well formed and never grows it.
pub proof fn lemma_remove_keys(s: Seq<(BindingView, ActionView)>, bs: Seq<BindingView>)
    ensures
        crate::shortcuts::keys_unique(s) ==> crate::shortcuts::keys_unique(remove_keys(s, bs)),
        crate::shortcuts::keys_set(s) ==> crate::shortcuts::keys_set(remove_keys(s, bs)),
        remove_keys(s, bs).len() <= s.len(),
    decreases bs.len(),
{
    if bs.len() > 0 {
        lemma_remove_keys(s, bs.drop_last());
        crate::shortcuts::lemma_remove_key(remove_keys(s, bs.drop_last()), bs.last());
    }
}

/// A row that the add-keybinding path reuses instead of piling up empty
/// rows: an unset binding whose edit buffer is empty or unparseable.
pub open spec fn reusable(bs: Seq<Option<RowView>>, k: int) -> bool {
    &&& bs[k] matches Some(r)
    &&& !r.binding.is_set()
    &&& (r.input.len() == 0 || parse_spec(r.input) is None)
}

/// The empty, unset row the add-keybinding path creates.
pub open spec fn empty_row() -> RowView {
    RowView {
        binding: BindingView::unset(),
        input: Seq::empty(),
        is_default: false,
        editing: false,
    }
}

/// What confirming the staged replace does: the conflicting binding leaves
/// the custom table; any one in-memory row still holding it is dropped;
/// the originally intended row is committed; and the rows are rebuilt.
pub open spec fn apply_replace_rel(pre: Model, post: Model) -> bool {
    match dialog_view(pre.replace_dialog) {
        None => unchanged(pre, post),
        Some((id, nb, _, _)) => match pre.shortcut_context {
            None => {
                &&& post.replace_dialog is None
                &&& post.entity == pre.entity
                &&& post.defaults@ == pre.defaults@
                &&& models_view(post.shortcut_models@) == models_view(pre.shortcut_models@)
                &&& post.shortcut_context == pre.shortcut_context
                &&& post.store.defaults@ == pre.store.defaults@
                &&& post.store.custom_view() == pre.store.custom_view()
                &&& post.custom == pre.custom
                &&& crate::model::aviews(post.actions@) == crate::model::aviews(pre.actions@)
            },
            Some(sid) => {
                let c1 = remove_key(pre.store.custom_view(), nb);
                &&& post.replace_dialog is None
                &&& post.shortcut_context == pre.shortcut_context
                &&& post.entity == pre.entity
                &&& post.custom == pre.custom
                &&& crate::model::aviews(post.actions@) == crate::model::aviews(pre.actions@)
                &&& post.store.defaults@ == pre.store.defaults@
                &&& post.synced()
                &&& match row_at(pre, sid.0 as int, id) {
                    None => post.store.custom_view() == c1,
                    Some(row) => post.store.custom_view() == insert_pair(
                        remove_key(c1, row.binding),
                        nb,
                        action_at(pre, sid.0 as int).unwrap(),
                    ),
                }
            },
        },
    }
}

/// Whether row `id` is the only occupied row of the group at `sid`.
pub open spec fn lone_row(pre: Model, sid: int, id: int) -> bool {
    forall|j: int|
        0 <= j < model_at(pre, sid).unwrap().bindings.len() && j != id ==> model_at(
            pre,
            sid,
        ).unwrap().bindings[j] is None
}

/// What deleting one row does: a default-sourced binding is suppressed by
/// a `Disable` entry, any other loses its custom entry; the detail context
/// closes when its last row went away; and the rows are rebuilt.
pub open spec fn delete_binding_rel(pre: Model, id: int, post: Model) -> bool {
    match pre.shortcut_context {
        None => unchanged(pre, post),
        Some(sid) => match row_at(pre, sid.0 as int, id) {
            None => unchanged(pre, post),
            Some(row) => {
                &&& post.entity == pre.entity
                &&& post.custom == pre.custom
                &&& crate::model::aviews(post.actions@) == crate::model::aviews(pre.actions@)
                &&& dialog_view(post.replace_dialog) == dialog_view(pre.replace_dialog)
                &&& post.store.defaults@ == pre.store.defaults@
                &&& post.synced()
                &&& lone_row(pre, sid.0 as int, id) ==> post.shortcut_context is None
                &&& !lone_row(pre, sid.0 as int, id) ==> post.shortcut_context
                    == pre.shortcut_context
                &&& (row.is_default && row.binding.is_set()) ==> post.store.custom_view()
                    == insert_pair(pre.store.custom_view(), row.binding, ActionView::Disable)
                &&& !(row.is_default && row.binding.is_set()) ==> post.store.custom_view()
                    == remove_key(pre.store.custom_view(), row.binding)
            },
        },
    }
}

/// What deleting a whole row group does: every one of its bindings loses
/// its custom entry and the rows are rebuilt.
pub open spec fn delete_shortcut_rel(pre: Model, id: int, post: Model) -> bool {
    match model_at(pre, id) {
        None => unchanged(pre, post),
        Some(mv) => {
            &&& post.store.custom_view() == remove_keys(
                pre.store.custom_view(),
                occupied_bindings(mv.bindings),
            )
            &&& post.store.defaults@ == pre.store.defaults@
            &&& post.synced()
            &&& post.entity == pre.entity
            &&& post.custom == pre.custom
            &&& crate::model::aviews(post.actions@) == crate::model::aviews(pre.actions@)
            &&& dialog_view(post.replace_dialog) == dialog_view(pre.replace_dialog)
            &&& post.shortcut_context == pre.shortcut_context
        },
    }
}

/// What restoring the active row group to its defaults does: every current
/// binding loses its custom entry, then every system default of the
/// group's action does too, un-suppressing them; and the rows are rebuilt.
pub open spec fn reset_bindings_rel(pre: Model, post: Model) -> bool {
    match pre.shortcut_context {
        None => unchanged(pre, post),
        Some(sid) => {
            &&& post.store.defaults@ == pre.store.defaults@
            &&& post.synced()
            &&& post.entity == pre.entity
            &&& post.custom == pre.custom
            &&& crate::model::aviews(post.actions@) == crate::model::aviews(pre.actions@)
            &&& dialog_view(post.replace_dialog) == dialog_view(pre.replace_dialog)
            &&& post.shortcut_context == pre.shortcut_context
            &&& match model_at(pre, sid.0 as int) {
                None => post.store.custom_view() == pre.store.custom_view(),
                Some(mv) => post.store.custom_view() == remove_keys(
                    remove_keys(pre.store.custom_view(), occupied_bindings(mv.bindings)),
                    crate::shortcuts::bindings_of(pre.store.defaults@, mv.action),
                ),
            }
        },
    }
}

/// What adding a keybinding does: the first reusable empty row is cleared
/// and focused; without one, a fresh empty row is appended and focused.
pub open spec fn add_keybinding_rel(pre: Model, post: Model, effects: Seq<EffectView>) -> bool {
    match pre.shortcut_context {
        None => unchanged(pre, post) && effects == Seq::<EffectView>::empty(),
        Some(sid) => match model_at(pre, sid.0 as int) {
            None => unchanged(pre, post) && effects == Seq::<EffectView>::empty(),
            Some(mv) => {
                let ms = models_view(pre.shortcut_models@);
                if exists|k: int| 0 <= k < mv.bindings.len() && reusable(mv.bindings, k) {
                    exists|k: int|
                        {
                            &&& 0 <= k < mv.bindings.len()
                            &&& reusable(mv.bindings, k)
                            &&& forall|j: int| 0 <= j < k ==> !reusable(mv.bindings, j)
                            &&& only_models_changed(
                                pre,
                                post,
                                with_row(
                                    ms,
                                    sid.0 as int,
                                    k,
                                    RowView { input: Seq::empty(), ..mv.bindings[k].unwrap() },
                                    false,
                                    None,
                                ),
                            )
                            &&& effects == seq![EffectView::Focus(sid.0 as int, k)]
                        }
                } else {
                    &&& only_models_changed(
                        pre,
                        post,
                        ms.update(
                            sid.0 as int,
                            Some(
                                ShortcutModelView {
                                    bindings: mv.bindings.push(Some(empty_row())),
                                    ..mv
                                },
                            ),
                        ),
                    )
                    &&& effects == seq![
                        EffectView::Focus(sid.0 as int, mv.bindings.len() as int),
                    ]
                }
            },
        },
    }
}

/// What entering or leaving text editing does: entering fills the buffer
/// with the binding's canonical form and selects it; leaving auto-commits
/// a buffer that parses, exactly as an explicit submit would, and
/// discards an unparseable one with no persisted change.
pub open spec fn edit_binding_rel(
    pre: Model,
    id: int,
    enable: bool,
    post: Model,
    effects: Seq<EffectView>,
) -> bool {
    match pre.shortcut_context {
        None => unchanged(pre, post) && effects == Seq::<EffectView>::empty(),
        Some(sid) => match row_at(pre, sid.0 as int, id) {
            None => unchanged(pre, post) && effects == Seq::<EffectView>::empty(),
            Some(row) => {
                let ms = models_view(pre.shortcut_models@);
                if enable {
                    &&& only_models_changed(
                        pre,
                        post,
                        with_row(
                            ms,
                            sid.0 as int,
                            id,
                            RowView {
                                editing: true,
                                input: crate::grammar::format_spec(row.binding),
                                ..row
                            },
                            false,
                            None,
                        ),
                    )
                    &&& effects == seq![EffectView::SelectAll(sid.0 as int, id)]
                } else {
                    let mid_ms = with_row(
                        ms,
                        sid.0 as int,
                        id,
                        RowView { editing: false, ..row },
                        false,
                        None,
                    );
                    effects == Seq::<EffectView>::empty() && match parse_spec(row.input) {
                        None => only_models_changed(
                            pre,
                            post,
                            with_row(
                                ms,
                                sid.0 as int,
                                id,
                                RowView { editing: false, input: Seq::empty(), ..row },
                                false,
                                None,
                            ),
                        ),
                        Some(b) => if !b.is_set() {
                            only_models_changed(
                                pre,
                                post,
                                with_row(
                                    ms,
                                    sid.0 as int,
                                    id,
                                    RowView { editing: false, input: Seq::empty(), ..row },
                                    false,
                                    None,
                                ),
                            )
                        } else {
                            commit_or_stage_rel(pre, sid.0 as int, id, b, post, mid_ms)
                        },
                    }
                }
            },
        },
    }
}

/// What typing in a row's text field does: the edit buffer is replaced.
pub open spec fn input_binding_rel(pre: Model, id: int, text: Seq<char>, post: Model) -> bool {
    match pre.shortcut_context {
        None => unchanged(pre, post),
        Some(sid) => match row_at(pre, sid.0 as int, id) {
            None => unchanged(pre, post),
            Some(row) => only_models_changed(
                pre,
                post,
                with_row(
                    models_view(pre.shortcut_models@),
                    sid.0 as int,
                    id,
                    RowView { input: text, ..row },
                    false,
                    None,
                ),
            ),
        },
    }
}

/// What requesting raw key capture does: the group marks the row as
/// awaiting the next key press.
pub open spec fn press_binding_rel(pre: Model, id: int, post: Model) -> bool {
    match pre.shortcut_context {
        None => unchanged(pre, post),
        Some(sid) => match row_at(pre, sid.0 as int, id) {
            None => unchanged(pre, post),
            Some(row) => only_models_changed(
                pre,
                post,
                with_row(
                    models_view(pre.shortcut_models@),
                    sid.0 as int,
                    id,
                    row,
                    true,
                    Some(id),
                ),
            ),
        },
    }
}

/// What opening a row group's detail view does: it becomes the active
/// context, any staged dialog is dropped, the drawer opens under the given
/// title, and the first row of the first group is focused and selected.
pub open spec fn show_shortcut_rel(
    pre: Model,
    id: int,
    description: Seq<char>,
    post: Model,
    effects: Seq<EffectView>,
) -> bool {
    &&& post.shortcut_context matches Some(s) && s.0 == id
    &&& post.replace_dialog is None
    &&& post.entity == pre.entity
    &&& post.defaults@ == pre.defaults@
    &&& models_view(post.shortcut_models@) == models_view(pre.shortcut_models@)
    &&& post.store.defaults@ == pre.store.defaults@
    &&& post.store.custom_view() == pre.store.custom_view()
    &&& post.custom == pre.custom
    &&& crate::model::aviews(post.actions@) == crate::model::aviews(pre.actions@)
    &&& effects == seq![EffectView::OpenContextDrawer(description)] + (if row_at(pre, 0, 0)
        is Some {
        seq![EffectView::Focus(0, 0), EffectView::SelectAll(0, 0)]
    } else {
        Seq::<EffectView>::empty()
    })
}

impl Model {
    /// Commits the typed edit buffer of row `id` of the active row group:
    /// a parse failure leaves everything unchanged, an unset result clears
    /// the buffer, and a set one is conflict-checked and either staged for
    /// replacement or persisted.
    pub fn submit_binding(&mut self, id: BindingId)
        requires
            old(self).wf(),
        ensures
            submit_rel(*old(self), id.0 as int, *final(self)),
            final(self).store_ok(),
    {
        let ghost pre = *old(self);
        let sid = match self.shortcut_context {
            Some(s) => s,
            None => {
                return ;
            },
        };
        let mut candidate: Option<Binding> = None;
        let mut clear_row: Option<ShortcutBinding> = None;
        match self.shortcut_models.get(sid.0) {
            Some(model) => {
                match model.bindings.get(id.0) {
                    Some(shortcut) => {
                        match Binding::parse(shortcut.input.as_str()) {
                            Ok(nb) => {
                                if nb.is_set() {
                                    candidate = Some(nb);
                                } else {
                                    clear_row = Some(
                                        ShortcutBinding {
                                            binding: shortcut.binding.clone(),
                                            input: String::new(),
                                            is_default: shortcut.is_default,
                                            editing: shortcut.editing,
                                        },
                                    );
                                }
                            },
                            Err(_) => {},
                        }
                    },
                    None => {},
                }
            },
            None => {},
        }
        if let Some(row) = clear_row {
            let ghost rv = row@;
            self.set_row(sid.0, id.0, row, false, None);
            proof {
                assert(rv =~~= (RowView {
                    input: Seq::empty(),
                    ..row_at(pre, sid.0 as int, id.0 as int).unwrap()
                }));
            }
            return ;
        }
        if let Some(nb) = candidate {
            match self.config_contains(&nb) {
                Some(action) => {
                    let label = action.label();
                    self.replace_dialog = Some((id, nb, action, label));
                },
                None => {
                    self.commit_row(sid, id, nb);
                },
            }
        }
    }

    /// Handles a raw key press captured for row `id` of the active row
    /// group: maps the key to a key symbol, forms a candidate binding from
    /// the held modifiers, and conflict-checks it exactly as a typed
    /// submit would.
    pub fn key_pressed(&mut self, id: BindingId, key: KeyEvent, modifiers: Modifiers)
        requires
            old(self).wf(),
        ensures
            key_pressed_rel(*old(self), id.0 as int, key@, modifiers, *final(self)),
            final(self).store_ok(),
    {
        let ghost pre = *old(self);
        let sid = match self.shortcut_context {
            Some(s) => s,
            None => {
                return ;
            },
        };
        let mut found_row: Option<ShortcutBinding> = None;
        match self.shortcut_models.get(sid.0) {
            Some(model) => {
                match model.bindings.get(id.0) {
                    Some(r) => {
                        found_row = Some(
                            ShortcutBinding {
                                binding: r.binding.clone(),
                                input: String::new(),
                                is_default: r.is_default,
                                editing: r.editing,
                            },
                        );
                    },
                    None => {},
                }
            },
            None => {},
        }
        let row = match found_row {
            Some(r) => r,
            None => {
                return ;
            },
        };
        match crate::keysym::keysym_for(&key) {
            Some(name) => {
                let nb = Binding::new(modifiers, Some(name));
                let ghost b = nb@;
                let input = nb.format();
                let prev_binding = row.binding;
                let is_default = row.is_default;
                let editing = row.editing;
                self.set_row(
                    sid.0,
                    id.0,
                    ShortcutBinding { binding: prev_binding, input, is_default, editing },
                    true,
                    None,
                );
                proof {
                    let rv = row_at(pre, sid.0 as int, id.0 as int).unwrap();
                    assert(models_view(self.shortcut_models@) == with_row(
                        models_view(pre.shortcut_models@),
                        sid.0 as int,
                        id.0 as int,
                        RowView { input: crate::grammar::format_spec(b), ..rv },
                        true,
                        None,
                    )) by {
                        assert((RowView {
                            binding: rv.binding,
                            input: crate::grammar::format_spec(b),
                            is_default: rv.is_default,
                            editing: rv.editing,
                        }) =~~= (RowView { input: crate::grammar::format_spec(b), ..rv }));
                    }
                }
                match self.config_contains(&nb) {
                    Some(action) => {
                        let label = action.label();
                        self.replace_dialog = Some((id, nb, action, label));
                    },
                    None => {
                        proof {
                            let sidi = sid.0 as int;
                            let idi = id.0 as int;
                            lemma_row_at_bounds(pre, sidi, idi);
                            lemma_view_row(*self, sidi, idi);
                            assert(row_at(*self, sidi, idi).unwrap().binding == row_at(
                                pre,
                                sidi,
                                idi,
                            ).unwrap().binding);
                            assert(action_at(*self, sidi) == action_at(pre, sidi));
                        }
                        self.commit_row(sid, id, nb);
                    },
                }
            },
            None => {},
        }
    }

    /// Replaces the edit buffer of row `id` of the active row group.
    pub fn input_binding(&mut self, id: BindingId, text: String)
        ensures
            input_binding_rel(*old(self), id.0 as int, text@, *final(self)),
    {
        let ghost pre = *old(self);
        let ghost tv = text@;
        let sid = match self.shortcut_context {
            Some(s) => s,
            None => {
                return ;
            },
        };
        let mut newrow: Option<ShortcutBinding> = None;
        match self.shortcut_models.get(sid.0) {
            Some(model) => {
                match model.bindings.get(id.0) {
                    Some(r) => {
                        newrow = Some(
                            ShortcutBinding {
                                binding: r.binding.clone(),
                                input: text,
                                is_default: r.is_default,
                                editing: r.editing,
                            },
                        );
                    },
                    None => {},
                }
            },
            None => {},
        }
        if let Some(row) = newrow {
            let ghost rv = row@;
            self.set_row(sid.0, id.0, row, false, None);
            proof {
                assert(rv =~~= (RowView {
                    input: tv,
                    ..row_at(pre, sid.0 as int, id.0 as int).unwrap()
                }));
            }
        }
    }

    /// Marks row `id` of the active row group as awaiting raw key capture.
    pub fn press_binding(&mut self, id: BindingId)
        ensures
            press_binding_rel(*old(self), id.0 as int, *final(self)),
    {
        let ghost pre = *old(self);
        let sid = match self.shortcut_context {
            Some(s) => s,
            None => {
                return ;
            },
        };
        let mut newrow: Option<ShortcutBinding> = None;
        match self.shortcut_models.get(sid.0) {
            Some(model) => {
                match model.bindings.get(id.0) {
                    Some(r) => {
                        newrow = Some(
                            ShortcutBinding {
                                binding: r.binding.clone(),
                                input: r.input.clone(),
                                is_default: r.is_default,
                                editing: r.editing,
                            },
                        );
                    },
                    None => {},
                }
            },
            None => {},
        }
        if let Some(row) = newrow {
            let ghost rv = row@;
            self.set_row(sid.0, id.0, row, true, Some(id));
            proof {
                assert(rv =~~= row_at(pre, sid.0 as int, id.0 as int).unwrap());
            }
        }
    }

    /// Opens the detail view of row group `id`: sets the context, drops any
    /// staged dialog, opens the drawer and focuses the first row of the
    /// first group.
    pub fn show_shortcut(&mut self, id: BindingId, description: String) -> (r: Vec<Effect>)
        ensures
            show_shortcut_rel(*old(self), id.0 as int, description@, *final(self), eviews(r@)),
    {
        let ghost pre = *old(self);
        let ghost dv = description@;
        self.shortcut_context = Some(id);
        self.replace_dialog = None;
        let mut effects: Vec<Effect> = Vec::new();
        effects.push(Effect::OpenContextDrawer(description));
        let mut first_row = false;
        match self.shortcut_models.get(0) {
            Some(model) => {
                match model.bindings.get(0) {
                    Some(_) => {
                        first_row = true;
                    },
                    None => {},
                }
            },
            None => {},
        }
        if first_row {
            effects.push(Effect::Focus(BindingId(0), BindingId(0)));
            effects.push(Effect::SelectAll(BindingId(0), BindingId(0)));
            proof {
                assert(eviews(effects@) =~= seq![EffectView::OpenContextDrawer(dv)] + seq![
                    EffectView::Focus(0, 0),
                    EffectView::SelectAll(0, 0),
                ]);
            }
        } else {
            proof {
                assert(eviews(effects@) =~= seq![EffectView::OpenContextDrawer(dv)]
                    + Seq::<EffectView>::empty());
            }
        }
        effects
    }

    /// Discards the staged replace dialog without any mutation.
    pub fn cancel_replace(&mut self)
        ensures
            final(self).replace_dialog is None,
            final(self).entity == old(self).entity,
            final(self).defaults == old(self).defaults,
            models_view(final(self).shortcut_models@) == models_view(old(self).shortcut_models@),
            final(self).shortcut_context == old(self).shortcut_context,
            final(self).store == old(self).store,
            final(self).custom == old(self).custom,
            final(self).actions == old(self).actions,
    {
        self.replace_dialog = None;
    }

    /// Adds a keybinding row to the active row group: the first reusable
    /// empty row is cleared and focused instead of piling up empty rows;
    /// without one, a fresh empty row is appended and focused.
    pub fn add_keybinding(&mut self) -> (r: Vec<Effect>)
        ensures
            add_keybinding_rel(*old(self), *final(self), eviews(r@)),
    {
        let ghost pre = *old(self);
        let sid = match self.shortcut_context {
            Some(s) => s,
            None => {
                let r: Vec<Effect> = Vec::new();
                proof {
                    assert(eviews(r@) =~= Seq::<EffectView>::empty());
                }
                return r;
            },
        };
        let mut model_missing = false;
        let mut found: Option<usize> = None;
        let mut cleared: Option<ShortcutBinding> = None;
        match self.shortcut_models.get(sid.0) {
            Some(model) => {
                let ghost mv = model@;
                let n = model.bindings.slot_count();
                let mut k: usize = 0;
                while k < n && found.is_none()
                    invariant
                        k <= n,
                        n == mv.bindings.len(),
                        mv == model@,
                        mv.bindings == rows_view(model.bindings@),
                        found is None ==> forall|j: int| 0 <= j < k ==> !reusable(mv.bindings, j),
                        found matches Some(kk) ==> {
                            &&& 0 <= kk < n
                            &&& reusable(mv.bindings, kk as int)
                            &&& (forall|j: int| 0 <= j < kk ==> !reusable(mv.bindings, j))
                            &&& cleared matches Some(c) && c@ =~~= (RowView {
                                input: Seq::empty(),
                                ..mv.bindings[kk as int].unwrap()
                            })
                        },
                    decreases n - k,
                {
                    match model.bindings.get(k) {
                        Some(r) => {
                            proof {
                                assert(mv.bindings[k as int] == Some(r@));
                            }
                            if !r.binding.is_set() {
                                let reuse = r.input.as_str().is_empty() || Binding::parse(
                                    r.input.as_str(),
                                ).is_err();
                                if reuse {
                                    found = Some(k);
                                    cleared = Some(
                                        ShortcutBinding {
                                            binding: r.binding.clone(),
                                            input: String::new(),
                                            is_default: r.is_default,
                                            editing: r.editing,
                                        },
                                    );
                                }
                            }
                        },
                        None => {},
                    }
                    k = k + 1;
                }
            },
            None => {
                model_missing = true;
            },
        }
        if model_missing {
            let r: Vec<Effect> = Vec::new();
            proof {
                assert(eviews(r@) =~= Seq::<EffectView>::empty());
            }
            return r;
        }
        let ghost mv = model_at(pre, sid.0 as int).unwrap();
        match found {
            Some(k) => {
                let row = match cleared {
                    Some(c) => c,
                    None => {
                        // provably unreachable: a found key comes with its
                        // cleared row
                        proof {
                            assert(false);
                        }
                        ShortcutBinding {
                            binding: Binding::unset(),
                            input: String::new(),
                            is_default: false,
                            editing: false,
                        }
                    },
                };
                let ghost rv = row@;
                self.set_row(sid.0, k, row, false, None);
                let mut r: Vec<Effect> = Vec::new();
                r.push(Effect::Focus(sid, BindingId(k)));
                proof {
                    assert(eviews(r@) =~= seq![EffectView::Focus(sid.0 as int, k as int)]);
                    assert(row_at(pre, sid.0 as int, k as int) == mv.bindings[k as int]) by {
                        lemma_view_row(pre, sid.0 as int, k as int);
                    }
                }
                r
            },
            None => {
                match self.shortcut_models.remove(sid.0) {
                    Some(mut model) => {
                        let ghost mb0 = rows_view(model.bindings@);
                        let k = model.bindings.insert(
                            ShortcutBinding {
                                binding: Binding::unset(),
                                input: String::new(),
                                is_default: false,
                                editing: false,
                            },
                        );
                        proof {
                            assert(rows_view(model.bindings@) =~= mb0.push(Some(empty_row())));
                        }
                        self.shortcut_models.set(sid.0, model);
                        proof {
                            assert(models_view(self.shortcut_models@) =~~= models_view(
                                pre.shortcut_models@,
                            ).update(
                                sid.0 as int,
                                Some(
                                    ShortcutModelView {
                                        bindings: mv.bindings.push(Some(empty_row())),
                                        ..mv
                                    },
                                ),
                            ));
                        }
                        let mut r: Vec<Effect> = Vec::new();
                        r.push(Effect::Focus(sid, BindingId(k)));
                        proof {
                            assert(eviews(r@) =~= seq![
                                EffectView::Focus(sid.0 as int, mv.bindings.len() as int),
                            ]);
                        }
                        r
                    },
                    None => {
                        // provably unreachable: the group was read above
                        // and nothing removed it since
                        proof {
                            assert(false);
                        }
                        Vec::new()
                    },
                }
            },
        }
    }

    /// Deletes row `id` of the active row group. A default-sourced binding
    /// is suppressed with a `Disable` entry, since deletion alone would let
    /// the default reappear on reload; any other loses its custom entry.
    /// When the group ran out of rows the detail context closes. The rows
    /// are then rebuilt from the persisted truth.
    pub fn delete_binding(&mut self, id: BindingId)
        requires
            old(self).wf(),
        ensures
            delete_binding_rel(*old(self), id.0 as int, *final(self)),
            final(self).store_ok(),
    {
        let ghost pre = *old(self);
        let sid = match self.shortcut_context {
            Some(s) => s,
            None => {
                return ;
            },
        };
        match self.shortcut_models.remove(sid.0) {
            Some(mut model) => {
                let ghost ob = model.bindings@;
                match model.bindings.remove(id.0) {
                    Some(shortcut) => {
                        let empty = model.bindings.is_empty();
                        proof {
                            assert(model.bindings@ == ob.update(id.0 as int, None));
                            assert(model_at(pre, sid.0 as int).unwrap().bindings == rows_view(ob));
                            if empty {
                                assert forall|j: int|
                                    0 <= j < rows_view(ob).len() && j != id.0 as int implies
                                    rows_view(ob)[j] is None by {
                                    assert(ob.update(id.0 as int, None)[j] == ob[j]);
                                    assert(ob.update(id.0 as int, None)[j] is None);
                                }
                                assert(lone_row(pre, sid.0 as int, id.0 as int));
                            } else {
                                assert(!(forall|i: int|
                                    0 <= i < model.bindings@.len() ==> model.bindings@[i]
                                        is None));
                                let w = choose|w: int|
                                    0 <= w < model.bindings@.len() && !(model.bindings@[w]
                                        is None);
                                assert(w != id.0 as int);
                                assert(rows_view(ob)[w] is Some);
                                assert(!lone_row(pre, sid.0 as int, id.0 as int));
                            }
                        }
                        self.shortcut_models.set(sid.0, model);
                        proof {
                            let c0 = pre.store.custom_view();
                            crate::shortcuts::lemma_insert_pair(
                                c0,
                                shortcut.binding@,
                                ActionView::Disable,
                            );
                            crate::shortcuts::lemma_remove_key(c0, shortcut.binding@);
                        }
                        if empty {
                            self.shortcut_context = None;
                        }
                        if shortcut.is_default && shortcut.binding.is_set() {
                            self.config_add(Action::Disable, shortcut.binding);
                        } else {
                            self.config_remove(&shortcut.binding);
                        }
                        self.on_enter();
                    },
                    None => {
                        self.shortcut_models.set(sid.0, model);
                        proof {
                            assert(models_view(self.shortcut_models@) =~~= models_view(
                                pre.shortcut_models@,
                            ));
                        }
                    },
                }
            },
            None => {
                proof {
                    assert(models_view(self.shortcut_models@) =~= models_view(
                        pre.shortcut_models@,
                    ));
                }
            },
        }
    }

    /// Deletes the whole row group of key `id`: every one of its bindings
    /// loses its custom entry, and the rows are rebuilt from the persisted
    /// truth.
    pub fn delete_shortcut(&mut self, id: BindingId)
        requires
            old(self).wf(),
        ensures
            delete_shortcut_rel(*old(self), id.0 as int, *final(self)),
            final(self).store_ok(),
    {
        let ghost pre = *old(self);
        match self.shortcut_models.remove(id.0) {
            None => {
                proof {
                    assert(models_view(self.shortcut_models@) =~= models_view(
                        pre.shortcut_models@,
                    ));
                }
            },
            Some(model) => {
                let ghost mv = model@;
                let n = model.bindings.slot_count();
                let mut collected: Vec<Binding> = Vec::new();
                let mut k: usize = 0;
                proof {
                    assert(rows_view(model.bindings@).take(0)
                        =~= Seq::<Option<RowView>>::empty());
                    assert(crate::model::bviews(collected@) =~= Seq::<BindingView>::empty());
                }
                while k < n
                    invariant
                        k <= n,
                        n == model.bindings@.len(),
                        crate::model::bviews(collected@) == occupied_bindings(
                            rows_view(model.bindings@).take(k as int),
                        ),
                    decreases n - k,
                {
                    let ghost rows = rows_view(model.bindings@);
                    proof {
                        assert(rows.take(k + 1).drop_last() =~= rows.take(k as int));
                        assert(rows.take(k + 1).last() == rows[k as int]);
                    }
                    match model.bindings.get(k) {
                        Some(r) => {
                            let ghost prevb = crate::model::bviews(collected@);
                            collected.push(r.binding.clone());
                            proof {
                                assert(rows[k as int] == Some(r@));
                                assert(crate::model::bviews(collected@) =~= prevb.push(r@.binding));
                                assert(prevb.push(r@.binding) =~= prevb + seq![r@.binding]);
                            }
                        },
                        None => {},
                    }
                    k = k + 1;
                }
                proof {
                    assert(rows_view(model.bindings@).take(n as int) =~= rows_view(
                        model.bindings@,
                    ));
                    assert(crate::model::bviews(collected@) == occupied_bindings(mv.bindings));
                    assert(crate::model::bviews(collected@).take(0)
                        =~= Seq::<BindingView>::empty());
                }
                let m = collected.len();
                let mut i: usize = 0;
                while i < m
                    invariant
                        i <= m,
                        m == collected@.len(),
                        self.store.custom_view() == remove_keys(
                            pre.store.custom_view(),
                            crate::model::bviews(collected@).take(i as int),
                        ),
                        crate::shortcuts::table_wf(self.store.custom_view()),
                        self.store.custom_view().len() <= pre.store.custom_view().len(),
                        self.store.defaults@ == pre.store.defaults@,
                        pre.wf(),
                        self.entity == pre.entity,
                        self.defaults == pre.defaults,
                        self.replace_dialog == pre.replace_dialog,
                        self.shortcut_context == pre.shortcut_context,
                        self.custom == pre.custom,
                        self.actions == pre.actions,
                    decreases m - i,
                {
                    let ghost bs = crate::model::bviews(collected@);
                    proof {
                        assert(bs.take(i + 1).drop_last() =~= bs.take(i as int));
                        assert(bs.take(i + 1).last() == bs[i as int]);
                        crate::shortcuts::lemma_remove_key(self.store.custom_view(), bs[i as int]);
                    }
                    self.config_remove(&collected[i]);
                    i = i + 1;
                }
                proof {
                    assert(crate::model::bviews(collected@).take(m as int) =~= crate::model::bviews(
                        collected@,
                    ));
                }
                self.on_enter();
            },
        }
    }

    /// Restores the active row group to its defaults: every current
    /// binding's custom entry is removed, then any custom entry keyed by a
    /// system default of this action, un-suppressing the natural defaults;
    /// the rows are then rebuilt from the persisted truth.
    pub fn reset_bindings(&mut self)
        requires
            old(self).wf(),
        ensures
            reset_bindings_rel(*old(self), *final(self)),
            final(self).store_ok(),
    {
        let ghost pre = *old(self);
        let sid = match self.shortcut_context {
            Some(s) => s,
            None => {
                return ;
            },
        };
        let mut action: Option<Action> = None;
        let mut collected: Vec<Binding> = Vec::new();
        match self.shortcut_models.get(sid.0) {
            Some(model) => {
                let ghost mv = model@;
                action = Some(model.action.clone());
                let n = model.bindings.slot_count();
                let mut k: usize = 0;
                proof {
                    assert(rows_view(model.bindings@).take(0)
                        =~= Seq::<Option<RowView>>::empty());
                    assert(crate::model::bviews(collected@) =~= Seq::<BindingView>::empty());
                }
                while k < n
                    invariant
                        k <= n,
                        n == model.bindings@.len(),
                        crate::model::bviews(collected@) == occupied_bindings(
                            rows_view(model.bindings@).take(k as int),
                        ),
                    decreases n - k,
                {
                    let ghost rows = rows_view(model.bindings@);
                    proof {
                        assert(rows.take(k + 1).drop_last() =~= rows.take(k as int));
                        assert(rows.take(k + 1).last() == rows[k as int]);
                    }
                    match model.bindings.get(k) {
                        Some(r) => {
                            let ghost prevb = crate::model::bviews(collected@);
                            collected.push(r.binding.clone());
                            proof {
                                assert(rows[k as int] == Some(r@));
                                assert(crate::model::bviews(collected@) =~= prevb.push(r@.binding));
                            }
                        },
                        None => {},
                    }
                    k = k + 1;
                }
                proof {
                    assert(rows_view(model.bindings@).take(n as int) =~= rows_view(
                        model.bindings@,
                    ));
                }
            },
            None => {},
        }
        match action {
            Some(act) => {
                let ghost mv = model_at(pre, sid.0 as int).unwrap();
                proof {
                    assert(crate::model::bviews(collected@) == occupied_bindings(mv.bindings));
                    assert(crate::model::bviews(collected@).take(0)
                        =~= Seq::<BindingView>::empty());
                }
                let m = collected.len();
                let mut i: usize = 0;
                while i < m
                    invariant
                        i <= m,
                        m == collected@.len(),
                        self.store.custom_view() == remove_keys(
                            pre.store.custom_view(),
                            crate::model::bviews(collected@).take(i as int),
                        ),
                        crate::shortcuts::table_wf(self.store.custom_view()),
                        self.store.custom_view().len() <= pre.store.custom_view().len(),
                        self.store.defaults@ == pre.store.defaults@,
                        pre.wf(),
                        self.entity == pre.entity,
                        self.defaults == pre.defaults,
                        self.replace_dialog == pre.replace_dialog,
                        self.shortcut_context == pre.shortcut_context,
                        self.custom == pre.custom,
                        self.actions == pre.actions,
                    decreases m - i,
                {
                    let ghost bs = crate::model::bviews(collected@);
                    proof {
                        assert(bs.take(i + 1).drop_last() =~= bs.take(i as int));
                        assert(bs.take(i + 1).last() == bs[i as int]);
                        crate::shortcuts::lemma_remove_key(self.store.custom_view(), bs[i as int]);
                    }
                    self.config_remove(&collected[i]);
                    i = i + 1;
                }
                let ghost c1 = remove_keys(
                    pre.store.custom_view(),
                    occupied_bindings(mv.bindings),
                );
                proof {
                    assert(crate::model::bviews(collected@).take(m as int) =~= crate::model::bviews(
                        collected@,
                    ));
                    assert(self.store.custom_view() == c1);
                }
                // Un-suppress: drop any custom entry keyed by a system
                // default of this action.
                let mut dbs: Vec<Binding> = Vec::new();
                let dn = self.store.defaults.len();
                let mut j: usize = 0;
                proof {
                    assert(self.store.defaults@.take(0)
                        =~= Seq::<(BindingView, ActionView)>::empty());
                    assert(crate::model::bviews(dbs@) =~= Seq::<BindingView>::empty());
                }
                while j < dn
                    invariant
                        j <= dn,
                        dn == self.store.defaults@.len(),
                        act@ == mv.action,
                        crate::model::bviews(dbs@) == crate::shortcuts::bindings_of(
                            self.store.defaults@.take(j as int),
                            mv.action,
                        ),
                    decreases dn - j,
                {
                    let ghost dseq = self.store.defaults@;
                    proof {
                        assert(dseq.take(j + 1).drop_last() =~= dseq.take(j as int));
                        assert(dseq.take(j + 1).last() == dseq[j as int]);
                    }
                    let (b, a) = self.store.defaults.entry(j);
                    if *a == act {
                        let ghost prevb = crate::model::bviews(dbs@);
                        dbs.push(b.clone());
                        proof {
                            assert(crate::model::bviews(dbs@) =~= prevb.push(
                                dseq[j as int].0,
                            ));
                        }
                    }
                    j = j + 1;
                }
                proof {
                    assert(self.store.defaults@.take(dn as int) =~= self.store.defaults@);
                    assert(crate::model::bviews(dbs@) == crate::shortcuts::bindings_of(
                        pre.store.defaults@,
                        mv.action,
                    ));
                    assert(crate::model::bviews(dbs@).take(0) =~= Seq::<BindingView>::empty());
                }
                let dm = dbs.len();
                let mut i2: usize = 0;
                while i2 < dm
                    invariant
                        i2 <= dm,
                        dm == dbs@.len(),
                        self.store.custom_view() == remove_keys(
                            c1,
                            crate::model::bviews(dbs@).take(i2 as int),
                        ),
                        crate::shortcuts::table_wf(self.store.custom_view()),
                        self.store.custom_view().len() <= pre.store.custom_view().len(),
                        self.store.defaults@ == pre.store.defaults@,
                        c1.len() <= pre.store.custom_view().len(),
                        pre.wf(),
                        self.entity == pre.entity,
                        self.defaults == pre.defaults,
                        self.replace_dialog == pre.replace_dialog,
                        self.shortcut_context == pre.shortcut_context,
                        self.custom == pre.custom,
                        self.actions == pre.actions,
                    decreases dm - i2,
                {
                    let ghost bs2 = crate::model::bviews(dbs@);
                    proof {
                        assert(bs2.take(i2 + 1).drop_last() =~= bs2.take(i2 as int));
                        assert(bs2.take(i2 + 1).last() == bs2[i2 as int]);
                        crate::shortcuts::lemma_remove_key(
                            self.store.custom_view(),
                            bs2[i2 as int],
                        );
                    }
                    self.config_remove(&dbs[i2]);
                    i2 = i2 + 1;
                }
                proof {
                    assert(crate::model::bviews(dbs@).take(dm as int) =~= crate::model::bviews(
                        dbs@,
                    ));
                }
                self.on_enter();
            },
            None => {
                self.on_enter();
            },
        }
    }

    /// Confirms the staged replace: the conflicting binding's claim is
    /// revoked on disk, any in-memory row still holding it is dropped, the
    /// originally intended row is committed, and the rows are rebuilt.
    pub fn apply_replace(&mut self)
        requires
            old(self).wf(),
            old(self).dialog_ok(),
        ensures
            apply_replace_rel(*old(self), *final(self)),
            final(self).store_ok(),
    {
        let ghost pre = *old(self);
        let (id, nb) = match &self.replace_dialog {
            Some((id, nb, _, _)) => (*id, nb.clone()),
            None => {
                return ;
            },
        };
        self.replace_dialog = None;
        let sid = match self.shortcut_context {
            Some(s) => s,
            None => {
                return ;
            },
        };
        // Revoke the conflicting binding's claim on disk.
        self.config_remove(&nb);
        proof {
            crate::shortcuts::lemma_remove_key(pre.store.custom_view(), nb@);
        }
        let ghost c1 = remove_key(pre.store.custom_view(), nb@);
        // Drop the first in-memory row still holding the conflicting
        // binding, if any.
        let total = self.shortcut_models.slot_count();
        let mut mi: usize = 0;
        let mut done = false;
        while mi < total
            invariant
                mi <= total,
                self.store.custom_view() == c1,
                self.store.defaults@ == pre.store.defaults@,
                crate::shortcuts::table_wf(self.store.custom_view()),
                self.store.custom_view().len() <= pre.store.custom_view().len(),
                pre.wf(),
                nb@.is_set(),
                self.entity == pre.entity,
                self.defaults == pre.defaults,
                self.replace_dialog is None,
                self.shortcut_context == pre.shortcut_context,
                self.custom == pre.custom,
                self.actions == pre.actions,
                self.store == pre.store || self.store.custom_view() == c1,
                row_at(*self, sid.0 as int, id.0 as int) == row_at(
                    pre,
                    sid.0 as int,
                    id.0 as int,
                ),
                action_at(*self, sid.0 as int) == action_at(pre, sid.0 as int),
            decreases total - mi,
        {
            let ghost before = *self;
            if !done {
                match self.shortcut_models.remove(mi) {
                    Some(mut model) => {
                        let ghost bv0 = model.bindings@;
                        let mut hit: Option<usize> = None;
                        let bn = model.bindings.slot_count();
                        let mut bi: usize = 0;
                        while bi < bn
                            invariant
                                bi <= bn,
                                bn == model.bindings@.len(),
                                hit matches Some(h) ==> h < bn && (model.bindings@[h as int]
                                    matches Some(rr) && rr.binding@ == nb@) && !(mi == sid.0 && h
                                    == id.0),
                            decreases bn - bi,
                        {
                            // the row being replaced is left to the commit
                            // step; any other row holding the binding goes
                            if hit.is_none() && !(mi == sid.0 && bi == id.0) {
                                match model.bindings.get(bi) {
                                    Some(r) => {
                                        if r.binding == nb {
                                            hit = Some(bi);
                                        }
                                    },
                                    None => {},
                                }
                            }
                            bi = bi + 1;
                        }
                        if let Some(h) = hit {
                            model.bindings.remove(h);
                            done = true;
                        }
                        self.shortcut_models.set(mi, model);
                        proof {
                            if mi != sid.0 {
                                assert(self.shortcut_models.spec_get(sid.0 as int)
                                    == before.shortcut_models.spec_get(sid.0 as int));
                            } else {
                                assert(self.shortcut_models.spec_get(sid.0 as int)
                                    == Some(model));
                                assert(model.bindings.spec_get(id.0 as int) == before
                                    .shortcut_models.spec_get(sid.0 as int)
                                    .unwrap().bindings.spec_get(id.0 as int));
                            }
                        }
                    },
                    None => {},
                }
            }
            mi = mi + 1;
        }
        // Commit the originally intended row, or just rebuild when it is
        // gone.
        let mut row_exists = false;
        match self.shortcut_models.get(sid.0) {
            Some(model) => {
                match model.bindings.get(id.0) {
                    Some(_) => {
                        row_exists = true;
                    },
                    None => {},
                }
            },
            None => {},
        }
        if row_exists {
            proof {
                crate::shortcuts::lemma_remove_key(c1, row_at(
                    *self,
                    sid.0 as int,
                    id.0 as int,
                ).unwrap().binding);
            }
            self.commit_row(sid, id, nb);
        } else {
            self.on_enter();
            proof {
                assert(row_at(pre, sid.0 as int, id.0 as int) is None);
            }
        }
    }

    /// Enters or leaves text editing on row `id` of the active row group.
    /// Entering fills the buffer with the binding's canonical form and
    /// selects it; leaving auto-commits a buffer that parses, exactly as
    /// an explicit submit would, and otherwise discards the buffer with
    /// no persisted change.
    pub fn edit_binding(&mut self, id: BindingId, enable: bool) -> (r: Vec<Effect>)
        requires
            old(self).wf(),
        ensures
            edit_binding_rel(*old(self), id.0 as int, enable, *final(self), eviews(r@)),
            final(self).store_ok(),
    {
        let ghost pre = *old(self);
        let sid = match self.shortcut_context {
            Some(s) => s,
            None => {
                let r: Vec<Effect> = Vec::new();
                proof {
                    assert(eviews(r@) =~= Seq::<EffectView>::empty());
                }
                return r;
            },
        };
        let mut found: Option<ShortcutBinding> = None;
        match self.shortcut_models.get(sid.0) {
            Some(model) => {
                match model.bindings.get(id.0) {
                    Some(rr) => {
                        found = Some(
                            ShortcutBinding {
                                binding: rr.binding.clone(),
                                input: rr.input.clone(),
                                is_default: rr.is_default,
                                editing: rr.editing,
                            },
                        );
                    },
                    None => {},
                }
            },
            None => {},
        }
        let row = match found {
            Some(rr) => rr,
            None => {
                let r: Vec<Effect> = Vec::new();
                proof {
                    assert(eviews(r@) =~= Seq::<EffectView>::empty());
                }
                return r;
            },
        };
        let ghost rv = row_at(pre, sid.0 as int, id.0 as int).unwrap();
        if enable {
            let input = row.binding.format();
            let newrow = ShortcutBinding {
                binding: row.binding,
                input,
                is_default: row.is_default,
                editing: true,
            };
            let ghost nv = newrow@;
            self.set_row(sid.0, id.0, newrow, false, None);
            let mut r: Vec<Effect> = Vec::new();
            r.push(Effect::SelectAll(sid, id));
            proof {
                assert(nv =~~= (RowView {
                    editing: true,
                    input: crate::grammar::format_spec(rv.binding),
                    ..rv
                }));
                assert(eviews(r@) =~= seq![EffectView::SelectAll(sid.0 as int, id.0 as int)]);
            }
            r
        } else {
            let parse_ok = match Binding::parse(row.input.as_str()) {
                Ok(_) => true,
                Err(_) => false,
            };
            // an unparseable buffer is discarded on leaving edit; a
            // parseable one is kept for the auto-commit below
            let newrow = ShortcutBinding {
                binding: row.binding,
                input: if parse_ok {
                    row.input
                } else {
                    String::new()
                },
                is_default: row.is_default,
                editing: false,
            };
            let ghost nv = newrow@;
            self.set_row(sid.0, id.0, newrow, false, None);
            let ghost mid = *self;
            proof {
                if parse_ok {
                    assert(nv =~~= (RowView { editing: false, ..rv }));
                } else {
                    assert(nv =~~= (RowView { editing: false, input: Seq::empty(), ..rv }));
                }
                lemma_row_at_bounds(pre, sid.0 as int, id.0 as int);
                lemma_view_row(mid, sid.0 as int, id.0 as int);
                assert(row_at(mid, sid.0 as int, id.0 as int) == Some(nv));
            }
            if parse_ok {
                self.submit_binding(id);
                proof {
                    let sidi = sid.0 as int;
                    let idi = id.0 as int;
                    let ms = models_view(pre.shortcut_models@);
                    let mid_ms = with_row(
                        ms,
                        sidi,
                        idi,
                        RowView { editing: false, ..rv },
                        false,
                        None,
                    );
                    assert(models_view(mid.shortcut_models@) == mid_ms);
                    match parse_spec(rv.input) {
                        None => {
                            assert(unchanged(mid, *self));
                        },
                        Some(b) => {
                            if !b.is_set() {
                                assert(only_models_changed(
                                    mid,
                                    *self,
                                    with_row(
                                        mid_ms,
                                        sidi,
                                        idi,
                                        RowView { input: Seq::empty(), ..nv },
                                        false,
                                        None,
                                    ),
                                ));
                                assert(with_row(
                                    mid_ms,
                                    sidi,
                                    idi,
                                    RowView { input: Seq::empty(), ..nv },
                                    false,
                                    None,
                                ) =~~= with_row(
                                    ms,
                                    sidi,
                                    idi,
                                    RowView { editing: false, input: Seq::empty(), ..rv },
                                    false,
                                    None,
                                ));
                            } else {
                                assert(commit_or_stage_rel(mid, sidi, idi, b, *self, mid_ms));
                                assert(row_at(mid, sidi, idi).unwrap().binding == rv.binding);
                                assert(action_at(mid, sidi) == action_at(pre, sidi));
                                assert(mid.store.merged_view() == pre.store.merged_view());
                                assert(commit_or_stage_rel(pre, sidi, idi, b, *self, mid_ms));
                            }
                        },
                    }
                }
            }
            let r: Vec<Effect> = Vec::new();
            proof {
                assert(eviews(r@) =~= Seq::<EffectView>::empty());
            }
            r
        }
    }

    /// Applies one UI event to the pane: the single entry point of the
    /// interactive state machine.
    pub fn update(&mut self, message: ShortcutMessage) -> (r: Vec<Effect>)
        requires
            old(self).wf(),
            old(self).dialog_ok(),
        ensures
            final(self).store_ok(),
            final(self).dialog_ok(),
            match message {
                ShortcutMessage::AddKeybinding => add_keybinding_rel(
                    *old(self),
                    *final(self),
                    eviews(r@),
                ),
                ShortcutMessage::ApplyReplace => apply_replace_rel(*old(self), *final(self))
                    && r@.len() == 0,
                ShortcutMessage::CancelReplace => final(self).replace_dialog is None && unchanged(
                    Model { replace_dialog: None, ..*old(self) },
                    *final(self),
                ) && r@.len() == 0,
                ShortcutMessage::DeleteBinding(id) => delete_binding_rel(
                    *old(self),
                    id.0 as int,
                    *final(self),
                ) && r@.len() == 0,
                ShortcutMessage::DeleteShortcut(id) => delete_shortcut_rel(
                    *old(self),
                    id.0 as int,
                    *final(self),
                ) && r@.len() == 0,
                ShortcutMessage::EditBinding(id, enable) => edit_binding_rel(
                    *old(self),
                    id.0 as int,
                    enable,
                    *final(self),
                    eviews(r@),
                ),
                ShortcutMessage::InputBinding(id, text) => input_binding_rel(
                    *old(self),
                    id.0 as int,
                    text@,
                    *final(self),
                ) && r@.len() == 0,
                ShortcutMessage::SubmitBinding(id) => submit_rel(
                    *old(self),
                    id.0 as int,
                    *final(self),
                ) && r@.len() == 0,
                ShortcutMessage::PressBinding(id) => press_binding_rel(
                    *old(self),
                    id.0 as int,
                    *final(self),
                ) && r@.len() == 0,
                ShortcutMessage::ResetBindings => reset_bindings_rel(*old(self), *final(self))
                    && r@.len() == 0,
                ShortcutMessage::ShowShortcut(id, description) => show_shortcut_rel(
                    *old(self),
                    id.0 as int,
                    description@,
                    *final(self),
                    eviews(r@),
                ),
                ShortcutMessage::KeyPressed(id, key, modifiers) => key_pressed_rel(
                    *old(self),
                    id.0 as int,
                    key@,
                    modifiers,
                    *final(self),
                ) && r@.len() == 0,
            },
    {
        match message {
            ShortcutMessage::AddKeybinding => self.add_keybinding(),
            ShortcutMessage::ApplyReplace => {
                self.apply_replace();
                Vec::new()
            },
            ShortcutMessage::CancelReplace => {
                self.cancel_replace();
                Vec::new()
            },
            ShortcutMessage::DeleteBinding(id) => {
                self.delete_binding(id);
                Vec::new()
            },
            ShortcutMessage::DeleteShortcut(id) => {
                self.delete_shortcut(id);
                Vec::new()
            },
            ShortcutMessage::EditBinding(id, enable) => self.edit_binding(id, enable),
            ShortcutMessage::InputBinding(id, text) => {
                self.input_binding(id, text);
                Vec::new()
            },
            ShortcutMessage::SubmitBinding(id) => {
                self.submit_binding(id);
                Vec::new()
            },
            ShortcutMessage::PressBinding(id) => {
                self.press_binding(id);
                Vec::new()
            },
            ShortcutMessage::ResetBindings => {
                self.reset_bindings();
                Vec::new()
            },
            ShortcutMessage::ShowShortcut(id, description) => self.show_shortcut(id, description),
            ShortcutMessage::KeyPressed(id, key, modifiers) => {
                self.key_pressed(id, key, modifiers);
                Vec::new()
            },
        }
    }

    /// Replaces the row `id` of row group `sid`, and when `set_rki` also
    /// that group's key-capture marker. Nothing happens when the group or
    /// the row is gone.
    fn set_row(
        &mut self,
        sid: usize,
        id: usize,
        row: ShortcutBinding,
        set_rki: bool,
        rki: Option<BindingId>,
    )
        ensures
            final(self).entity == old(self).entity,
            final(self).defaults == old(self).defaults,
            final(self).replace_dialog == old(self).replace_dialog,
            final(self).shortcut_context == old(self).shortcut_context,
            final(self).store == old(self).store,
            final(self).custom == old(self).custom,
            final(self).actions == old(self).actions,
            row_at(*old(self), sid as int, id as int) is Some ==> models_view(
                final(self).shortcut_models@,
            ) == with_row(
                models_view(old(self).shortcut_models@),
                sid as int,
                id as int,
                row@,
                set_rki,
                match rki {
                    Some(k) => Some(k.0 as int),
                    None => None,
                },
            ),
            row_at(*old(self), sid as int, id as int) is None ==> models_view(
                final(self).shortcut_models@,
            ) == models_view(old(self).shortcut_models@),
    {
        let ghost ms0 = models_view(self.shortcut_models@);
        match self.shortcut_models.remove(sid) {
            Some(mut model) => {
                let ghost mv0 = model@;
                match model.bindings.remove(id) {
                    Some(_) => {
                        model.bindings.set(id, row);
                        if set_rki {
                            model.request_key_input = rki;
                        }
                        proof {
                            assert(rows_view(model.bindings@) =~= mv0.bindings.update(
                                id as int,
                                Some(row@),
                            ));
                        }
                        self.shortcut_models.set(sid, model);
                        proof {
                            assert(models_view(final(self).shortcut_models@) =~= with_row(
                                ms0,
                                sid as int,
                                id as int,
                                row@,
                                set_rki,
                                match rki {
                                    Some(k) => Some(k.0 as int),
                                    None => None,
                                },
                            ));
                        }
                    },
                    None => {
                        self.shortcut_models.set(sid, model);
                        proof {
                            assert(models_view(final(self).shortcut_models@) =~~= models_view(
                                old(self).shortcut_models@,
                            ));
                        }
                    },
                }
            },
            None => {
                proof {
                    assert(final(self).shortcut_models@ =~= old(self).shortcut_models@);
                }
            },
        }
    }

    /// Step three of the commit algorithm: replace the row's binding,
    /// remove its previous binding from the custom table, add the new one
    /// under the group's action, and rebuild from the persisted truth.
    /// Nothing happens when the group or the row is gone.
    fn commit_row(&mut self, sid: BindingId, id: BindingId, new_binding: Binding)
        requires
            old(self).wf(),
            new_binding@.is_set(),
        ensures
            final(self).store_ok(),
            final(self).entity == old(self).entity,
            final(self).replace_dialog == old(self).replace_dialog,
            final(self).shortcut_context == old(self).shortcut_context,
            final(self).custom == old(self).custom,
            final(self).actions == old(self).actions,
            final(self).store.defaults@ == old(self).store.defaults@,
            match row_at(*old(self), sid.0 as int, id.0 as int) {
                Some(row) => {
                    &&& final(self).store.custom_view() == insert_pair(
                        remove_key(old(self).store.custom_view(), row.binding),
                        new_binding@,
                        action_at(*old(self), sid.0 as int).unwrap(),
                    )
                    &&& final(self).synced()
                },
                None => {
                    &&& final(self).store.custom_view() == old(self).store.custom_view()
                    &&& final(self).defaults@ == old(self).defaults@
                    &&& models_view(final(self).shortcut_models@) == models_view(
                        old(self).shortcut_models@,
                    )
                },
            },
    {
        let ghost pre = *old(self);
        match self.shortcut_models.remove(sid.0) {
            Some(mut model) => {
                match model.bindings.remove(id.0) {
                    Some(row) => {
                        let prev_binding = row.binding;
                        model.bindings.set(
                            id.0,
                            ShortcutBinding {
                                binding: new_binding.clone(),
                                input: String::new(),
                                is_default: row.is_default,
                                editing: false,
                            },
                        );
                        let action = model.action.clone();
                        self.shortcut_models.set(sid.0, model);
                        self.config_remove(&prev_binding);
                        self.config_add(action, new_binding);
                        proof {
                            let c0 = pre.store.custom_view();
                            crate::shortcuts::lemma_remove_key(c0, prev_binding@);
                            crate::shortcuts::lemma_insert_pair(
                                remove_key(c0, prev_binding@),
                                new_binding@,
                                action_at(pre, sid.0 as int).unwrap(),
                            );
                        }
                        self.on_enter();
                    },
                    None => {
                        self.shortcut_models.set(sid.0, model);
                        proof {
                            assert(models_view(final(self).shortcut_models@) =~~= models_view(
                                pre.shortcut_models@,
                            ));
                        }
                    },
                }
            },
            None => {
                proof {
                    assert(final(self).shortcut_models@ =~= pre.shortcut_models@);
                }
            },
        }
    }
}

} // verus!
