//! The rows and row groups shown for one shortcut category, and how they
//! are rebuilt from the persisted tables.

use vstd::prelude::*;
use crate::action::{Action, ActionView};
use crate::arena::Arena;
use crate::binding::{Binding, BindingView};
use crate::shortcuts::{
    bindings_of, insert_pair, lemma_merge, lookup, merge, remove_key, table_wf, Shortcuts,
};
use crate::store::ConfigStore;

verus! {

/// The largest combined size of the persisted tables the controller
/// accepts: room enough for any real configuration, small enough that every
/// rebuild stays within machine limits.
pub const TABLE_LIMIT: usize = 0x3FFF_FFFF;

/// The stable identity handle of a row or of a row group: a key in the
/// owning arena. A lookup by it is fallible, since the row may have been
/// removed.
#[derive(Clone, Copy, Debug, PartialEq, Eq, Structural)]
pub struct BindingId(pub usize);

/// Mathematical value of a [`ShortcutBinding`].
#[verifier::ext_equal]
pub ghost struct RowView {
    pub binding: BindingView,
    pub input: Seq<char>,
    pub is_default: bool,
    pub editing: bool,
}

/// One editable row: the committed binding, the transient edit buffer,
/// whether the binding equals a system default, and whether its text field
/// is being edited.
#[derive(Debug)]
pub struct ShortcutBinding {
    pub binding: Binding,
    pub input: String,
    pub is_default: bool,
    pub editing: bool,
}

impl View for ShortcutBinding {
    type V = RowView;

    open spec fn view(&self) -> RowView {
        RowView {
            binding: self.binding@,
            input: self.input@,
            is_default: self.is_default,
            editing: self.editing,
        }
    }
}

/// Mathematical value of a [`ShortcutModel`].
#[verifier::ext_equal]
pub ghost struct ShortcutModelView {
    pub action: ActionView,
    pub bindings: Seq<Option<RowView>>,
    pub description: Seq<char>,
    pub modified: usize,
    pub request_key_input: Option<int>,
}

/// All rows mapped to one action, with a description, the count of rows
/// diverging from the defaults, and the row awaiting raw key capture, if
/// any.
#[derive(Debug)]
pub struct ShortcutModel {
    pub action: Action,
    pub bindings: Arena<ShortcutBinding>,
    pub description: String,
    pub modified: usize,
    pub request_key_input: Option<BindingId>,
}

/// The slots of a row arena, by mathematical value.
pub open spec fn rows_view(s: Seq<Option<ShortcutBinding>>) -> Seq<Option<RowView>> {
    s.map_values(
        |o: Option<ShortcutBinding>|
            match o {
                Some(r) => Some(r@),
                None => None,
            },
    )
}

impl View for ShortcutModel {
    type V = ShortcutModelView;

    open spec fn view(&self) -> ShortcutModelView {
        ShortcutModelView {
            action: self.action@,
            bindings: rows_view(self.bindings@),
            description: self.description@,
            modified: self.modified,
            request_key_input: match self.request_key_input {
                Some(id) => Some(id.0 as int),
                None => None,
            },
        }
    }
}

/// The row built for one binding of an action: committed binding, empty
/// edit buffer, default-flag from the defaults table.
pub open spec fn row_for(
    defaults: Seq<(BindingView, ActionView)>,
    action: ActionView,
    b: BindingView,
) -> RowView {
    RowView {
        binding: b,
        input: Seq::empty(),
        is_default: lookup(defaults, b) == Some(action),
        editing: false,
    }
}

/// The rows built for an action from a reconciled table, in table order.
pub open spec fn rows_for(
    defaults: Seq<(BindingView, ActionView)>,
    table: Seq<(BindingView, ActionView)>,
    action: ActionView,
) -> Seq<Option<RowView>> {
    bindings_of(table, action).map_values(|b: BindingView| Some(row_for(defaults, action, b)))
}

/// How many of the action's bindings do not match a system default.
pub open spec fn count_nondefault(
    defaults: Seq<(BindingView, ActionView)>,
    bs: Seq<BindingView>,
    action: ActionView,
) -> nat
    decreases bs.len(),
{
    if bs.len() == 0 {
        0
    } else {
        count_nondefault(defaults, bs.drop_last(), action) + if lookup(defaults, bs.last())
            == Some(action) {
            0nat
        } else {
            1nat
        }
    }
}

/// How many system defaults for the action are absent from its bindings.
pub open spec fn count_missing(
    defaults: Seq<(BindingView, ActionView)>,
    bs: Seq<BindingView>,
    action: ActionView,
) -> nat
    decreases defaults.len(),
{
    if defaults.len() == 0 {
        0
    } else {
        count_missing(defaults.drop_last(), bs, action) + if defaults.last().1 == action
            && !bs.contains(defaults.last().0) {
            1nat
        } else {
            0nat
        }
    }
}

/// The documented formula for the `modified` count: bindings of the action
/// not matching any system default, plus system defaults for the action
/// absent from the bindings.
pub open spec fn modified_of(
    defaults: Seq<(BindingView, ActionView)>,
    table: Seq<(BindingView, ActionView)>,
    action: ActionView,
) -> nat {
    count_nondefault(defaults, bindings_of(table, action), action) + count_missing(
        defaults,
        bindings_of(table, action),
        action,
    )
}

/// The whole row group built for one action.
pub open spec fn model_of(
    defaults: Seq<(BindingView, ActionView)>,
    table: Seq<(BindingView, ActionView)>,
    action: ActionView,
) -> ShortcutModelView {
    ShortcutModelView {
        action,
        bindings: rows_for(defaults, table, action),
        description: action.label(),
        modified: modified_of(defaults, table, action) as usize,
        request_key_input: None,
    }
}

/// The views of a sequence of bindings.
pub open spec fn bviews(v: Seq<Binding>) -> Seq<BindingView> {
    v.map_values(|b: Binding| b@)
}

/// The views of a sequence of actions.
pub open spec fn aviews(v: Seq<Action>) -> Seq<ActionView> {
    v.map_values(|a: Action| a@)
}

/// Counting nondefault bindings never exceeds the binding count.
pub proof fn lemma_count_nondefault_le(
    defaults: Seq<(BindingView, ActionView)>,
    bs: Seq<BindingView>,
    action: ActionView,
)
    ensures
        count_nondefault(defaults, bs, action) <= bs.len(),
    decreases bs.len(),
{
    if bs.len() > 0 {
        lemma_count_nondefault_le(defaults, bs.drop_last(), action);
    }
}

/// Counting missing defaults never exceeds the defaults count.
pub proof fn lemma_count_missing_le(
    defaults: Seq<(BindingView, ActionView)>,
    bs: Seq<BindingView>,
    action: ActionView,
)
    ensures
        count_missing(defaults, bs, action) <= defaults.len(),
    decreases defaults.len(),
{
    if defaults.len() > 0 {
        lemma_count_missing_le(defaults.drop_last(), bs, action);
    }
}

/// An action has at most as many bindings as the table has entries.
pub proof fn lemma_bindings_of_le(table: Seq<(BindingView, ActionView)>, action: ActionView)
    ensures
        bindings_of(table, action).len() <= table.len(),
    decreases table.len(),
{
    if table.len() > 0 {
        lemma_bindings_of_le(table.drop_last(), action);
    }
}

/// Whether a binding occurs in a vector, by value.
pub fn vec_contains_binding(v: &Vec<Binding>, b: &Binding) -> (r: bool)
    ensures
        r == bviews(v@).contains(b@),
{
    let n = v.len();
    let mut i: usize = 0;
    while i < n
        invariant
            i <= n,
            n == v@.len(),
            forall|j: int| 0 <= j < i ==> bviews(v@)[j] != b@,
        decreases n - i,
    {
        if v[i] == *b {
            proof {
                assert(bviews(v@)[i as int] == b@);
            }
            return true;
        }
        i = i + 1;
    }
    proof {
        assert forall|j: int| 0 <= j < bviews(v@).len() implies bviews(v@)[j] != b@ by {}
    }
    false
}

/// Whether an action occurs in a vector, by value.
pub fn vec_contains_action(v: &Vec<Action>, a: &Action) -> (r: bool)
    ensures
        r == aviews(v@).contains(a@),
{
    let n = v.len();
    let mut i: usize = 0;
    while i < n
        invariant
            i <= n,
            n == v@.len(),
            forall|j: int| 0 <= j < i ==> aviews(v@)[j] != a@,
        decreases n - i,
    {
        if v[i] == *a {
            proof {
                assert(aviews(v@)[i as int] == a@);
            }
            return true;
        }
        i = i + 1;
    }
    false
}

impl ShortcutModel {
    /// Builds the row group for `action` from the reconciled `shortcuts`
    /// table, marking each row that equals a system default and counting
    /// the divergence from the defaults by the documented formula.
    pub fn new(defaults: &Shortcuts, shortcuts: &Shortcuts, action: Action) -> (r: ShortcutModel)
        requires
            defaults@.len() + shortcuts@.len() <= 0x8000_0000usize,
        ensures
            r@ == model_of(defaults@, shortcuts@, action@),
    {
        let n = shortcuts.len();
        let mut rows: Arena<ShortcutBinding> = Arena::new();
        let mut collected: Vec<Binding> = Vec::new();
        let mut modified: usize = 0;
        let mut i: usize = 0;
        proof {
            assert(shortcuts@.take(0) =~= Seq::<(BindingView, ActionView)>::empty());
            assert(rows_view(rows@) =~= Seq::<Option<RowView>>::empty());
            assert(bviews(collected@) =~= Seq::<BindingView>::empty());
            assert(rows_for(defaults@, shortcuts@.take(0), action@)
                =~= Seq::<Option<RowView>>::empty());
        }
        while i < n
            invariant
                i <= n,
                n == shortcuts@.len(),
                defaults@.len() + shortcuts@.len() <= 0x8000_0000usize,
                bviews(collected@) == bindings_of(shortcuts@.take(i as int), action@),
                rows_view(rows@) == rows_for(defaults@, shortcuts@.take(i as int), action@),
                modified == count_nondefault(
                    defaults@,
                    bindings_of(shortcuts@.take(i as int), action@),
                    action@,
                ),
                modified <= i,
            decreases n - i,
        {
            let ghost pre = shortcuts@.take(i as int);
            let ghost bs = bindings_of(pre, action@);
            proof {
                assert(shortcuts@.take(i + 1).drop_last() =~= pre);
                assert(shortcuts@.take(i + 1).last() == shortcuts@[i as int]);
                lemma_count_nondefault_le(defaults@, bs, action@);
            }
            let (b, a) = shortcuts.entry(i);
            if *a == action {
                let is_default = match defaults.get(b) {
                    Some(d) => *d == action,
                    None => false,
                };
                let ghost old_rows = rows_view(rows@);
                rows.insert(
                    ShortcutBinding {
                        binding: b.clone(),
                        input: String::new(),
                        is_default,
                        editing: false,
                    },
                );
                collected.push(b.clone());
                if !is_default {
                    modified = modified + 1;
                }
                proof {
                    assert(bviews(collected@) =~= bs.push(b@));
                    assert(rows_view(rows@) =~= old_rows.push(
                        Some(row_for(defaults@, action@, b@)),
                    ));
                    assert(bindings_of(shortcuts@.take(i + 1), action@) == bs.push(b@));
                    assert(bs.push(b@).drop_last() =~= bs);
                    assert(rows_for(defaults@, shortcuts@.take(i + 1), action@) =~= old_rows.push(
                        Some(row_for(defaults@, action@, b@)),
                    ));
                }
            } else {
                proof {
                    assert(bindings_of(shortcuts@.take(i + 1), action@) == bs);
                }
            }
            i = i + 1;
        }
        proof {
            assert(shortcuts@.take(n as int) =~= shortcuts@);
        }
        // Add the system defaults for this action that are absent from the
        // current bindings.
        let ghost bs = bindings_of(shortcuts@, action@);
        let m = defaults.len();
        let mut j: usize = 0;
        proof {
            assert(defaults@.take(0) =~= Seq::<(BindingView, ActionView)>::empty());
            lemma_bindings_of_le(shortcuts@, action@);
            lemma_count_nondefault_le(defaults@, bs, action@);
        }
        while j < m
            invariant
                j <= m,
                m == defaults@.len(),
                defaults@.len() + shortcuts@.len() <= 0x8000_0000usize,
                bviews(collected@) == bs,
                bs == bindings_of(shortcuts@, action@),
                bs.len() <= shortcuts@.len(),
                count_nondefault(defaults@, bs, action@) <= bs.len(),
                modified == count_nondefault(defaults@, bs, action@) + count_missing(
                    defaults@.take(j as int),
                    bs,
                    action@,
                ),
            decreases m - j,
        {
            proof {
                assert(defaults@.take(j + 1).drop_last() =~= defaults@.take(j as int));
                assert(defaults@.take(j + 1).last() == defaults@[j as int]);
                lemma_count_missing_le(defaults@.take(j as int), bs, action@);
            }
            let (b, a) = defaults.entry(j);
            if *a == action && !vec_contains_binding(&collected, b) {
                modified = modified + 1;
            }
            j = j + 1;
        }
        proof {
            assert(defaults@.take(m as int) =~= defaults@);
        }
        ShortcutModel {
            description: action.label(),
            action,
            bindings: rows,
            modified,
            request_key_input: None,
        }
    }
}

/// The views of a sequence of model slots.
pub open spec fn models_view(s: Seq<Option<ShortcutModel>>) -> Seq<Option<ShortcutModelView>> {
    s.map_values(
        |o: Option<ShortcutModel>|
            match o {
                Some(m) => Some(m@),
                None => None,
            },
    )
}

/// The spawned-command actions of a table, first occurrence first: the row
/// groups a user-defined category shows.
pub open spec fn spawn_actions(table: Seq<(BindingView, ActionView)>) -> Seq<ActionView>
    decreases table.len(),
{
    if table.len() == 0 {
        Seq::empty()
    } else {
        let rest = spawn_actions(table.drop_last());
        if table.last().1 is Spawn && !rest.contains(table.last().1) {
            rest.push(table.last().1)
        } else {
            rest
        }
    }
}

/// The row groups rebuilt for a list of actions over the reconciled table.
pub open spec fn built_models(
    defaults: Seq<(BindingView, ActionView)>,
    table: Seq<(BindingView, ActionView)>,
    shown: Seq<ActionView>,
) -> Seq<Option<ShortcutModelView>> {
    shown.map_values(|a: ActionView| Some(model_of(defaults, table, a)))
}

/// The controller of one shortcut category: the persisted tables, the row
/// groups rebuilt from them, the active detail context, and the staged
/// replace-confirmation dialog, if any.
#[derive(Debug)]
pub struct Model {
    /// Page-navigation handle of the surrounding application.
    pub entity: u64,
    /// The defaults table as last read.
    pub defaults: Shortcuts,
    /// A staged conflict: the target row, the candidate binding, the action
    /// now owning that binding, and that action's display label.
    pub replace_dialog: Option<(BindingId, Binding, Action, String)>,
    /// The row groups shown, one per action.
    pub shortcut_models: Arena<ShortcutModel>,
    /// The row group open in the detail view, if any.
    pub shortcut_context: Option<BindingId>,
    /// The persisted tables.
    pub store: ConfigStore,
    /// Whether this is a user-defined category, whose row groups are the
    /// spawned commands found in the reconciled table.
    pub custom: bool,
    /// The fixed actions a system category shows.
    pub actions: Vec<Action>,
}

impl Model {
    /// The persisted tables have unique, set keys.
    pub open spec fn store_ok(self) -> bool {
        &&& table_wf(self.store.defaults@)
        &&& table_wf(self.store.custom_view())
    }

    /// The persisted tables are well formed and small enough for every
    /// count and rebuild to stay within machine limits.
    pub open spec fn wf(self) -> bool {
        &&& self.store_ok()
        &&& self.store.defaults@.len() + self.store.custom_view().len() <= TABLE_LIMIT
    }

    /// The actions whose row groups are shown: the fixed list, or for a
    /// user-defined category the spawned commands of the reconciled table.
    pub open spec fn shown_actions(self) -> Seq<ActionView> {
        if self.custom {
            spawn_actions(self.store.merged_view())
        } else {
            aviews(self.actions@)
        }
    }

    /// Everything but the persisted tables is unchanged between two states.
    pub open spec fn same_ui(self, other: Model) -> bool {
        &&& self.entity == other.entity
        &&& self.defaults == other.defaults
        &&& self.replace_dialog == other.replace_dialog
        &&& self.shortcut_models == other.shortcut_models
        &&& self.shortcut_context == other.shortcut_context
        &&& self.custom == other.custom
        &&& self.actions == other.actions
    }

    /// The frame around the rebuilt rows is unchanged between two states:
    /// everything but the defaults mirror and the row groups.
    pub open spec fn same_frame(self, other: Model) -> bool {
        &&& self.entity == other.entity
        &&& self.replace_dialog == other.replace_dialog
        &&& self.shortcut_context == other.shortcut_context
        &&& self.custom == other.custom
        &&& self.actions == other.actions
    }

    /// The in-memory rows are an exact reflection of the persisted tables.
    pub open spec fn synced(self) -> bool {
        &&& self.defaults@ == self.store.defaults@
        &&& models_view(self.shortcut_models@) == built_models(
            self.store.defaults@,
            self.store.merged_view(),
            self.shown_actions(),
        )
    }

    /// Chooses the fixed action list a system category shows.
    pub fn actions(self, actions: Vec<Action>) -> (r: Model)
        ensures
            r.actions == actions,
            r.entity == self.entity && r.defaults == self.defaults && r.replace_dialog
                == self.replace_dialog && r.shortcut_models == self.shortcut_models
                && r.shortcut_context == self.shortcut_context && r.store == self.store
                && r.custom == self.custom,
    {
        Model { actions, ..self }
    }

    /// Marks this category as user-defined.
    pub fn custom(self) -> (r: Model)
        ensures
            r.custom,
            r.entity == self.entity && r.defaults == self.defaults && r.replace_dialog
                == self.replace_dialog && r.shortcut_models == self.shortcut_models
                && r.shortcut_context == self.shortcut_context && r.store == self.store
                && r.actions == self.actions,
    {
        Model { custom: true, ..self }
    }

    /// Reads the custom table, an absent or unreadable one as empty.
    pub fn shortcuts_config(&self) -> (r: Shortcuts)
        ensures
            r@ == self.store.custom_view(),
    {
        self.store.get_custom()
    }

    /// Reads the merged system view: customizations laid over defaults.
    pub fn shortcuts_system_config(&self) -> (r: Shortcuts)
        ensures
            r@ == self.store.merged_view(),
    {
        let mut merged = self.store.get_defaults();
        match &self.store.custom {
            Some(c) => {
                let n = c.len();
                let mut i: usize = 0;
                proof {
                    assert(c@.take(0) =~= Seq::<(BindingView, ActionView)>::empty());
                }
                while i < n
                    invariant
                        i <= n,
                        n == c@.len(),
                        merged@ == merge(self.store.defaults@, c@.take(i as int)),
                    decreases n - i,
                {
                    proof {
                        assert(c@.take(i + 1).drop_last() =~= c@.take(i as int));
                        assert(c@.take(i + 1).last() == c@[i as int]);
                    }
                    let (b, a) = c.entry(i);
                    merged.insert(b.clone(), a.clone());
                    i = i + 1;
                }
                proof {
                    assert(c@.take(n as int) =~= c@);
                }
            },
            None => {},
        }
        merged
    }

    /// Writes the custom table.
    pub fn shortcuts_config_set(&mut self, shortcuts: Shortcuts)
        ensures
            final(self).store.custom_view() == shortcuts@,
            final(self).store.defaults == old(self).store.defaults,
            final(self).same_ui(*old(self)),
    {
        self.store.set_custom(shortcuts);
    }

    /// Adds a binding-to-action entry to the custom table and persists it.
    pub fn config_add(&mut self, action: Action, binding: Binding)
        ensures
            final(self).store.custom_view() == insert_pair(
                old(self).store.custom_view(),
                binding@,
                action@,
            ),
            final(self).store.defaults == old(self).store.defaults,
            final(self).same_ui(*old(self)),
    {
        let mut shortcuts = self.shortcuts_config();
        shortcuts.insert(binding, action);
        self.shortcuts_config_set(shortcuts);
    }

    /// Removes any entry keyed by this binding from the custom table and
    /// persists it.
    pub fn config_remove(&mut self, binding: &Binding)
        ensures
            final(self).store.custom_view() == remove_key(old(self).store.custom_view(), binding@),
            final(self).store.defaults == old(self).store.defaults,
            final(self).same_ui(*old(self)),
    {
        let mut shortcuts = self.shortcuts_config();
        shortcuts.remove(binding);
        self.shortcuts_config_set(shortcuts);
    }

    /// The action owning this binding in the merged system view, unless it
    /// is the `Disable` sentinel, which suppresses a default and owns
    /// nothing.
    pub fn config_contains(&self, binding: &Binding) -> (r: Option<Action>)
        ensures
            match r {
                Some(a) => lookup(self.store.merged_view(), binding@) == Some(a@) && !(a@
                    is Disable),
                None => lookup(self.store.merged_view(), binding@) is None || lookup(
                    self.store.merged_view(),
                    binding@,
                ) == Some(ActionView::Disable),
            },
    {
        let merged = self.shortcuts_system_config();
        match merged.get(binding) {
            Some(a) => {
                if a.is_disable() {
                    None
                } else {
                    Some(a.clone())
                }
            },
            None => None,
        }
    }

    /// Rebuilds every row group from the persisted tables: the single path
    /// by which the in-memory rows are synchronized after any persisted
    /// write.
    pub fn on_enter(&mut self)
        requires
            old(self).store_ok(),
            old(self).store.defaults@.len() + old(self).store.custom_view().len()
                <= TABLE_LIMIT + 1,
        ensures
            final(self).synced(),
            final(self).store == old(self).store,
            final(self).same_frame(*old(self)),
    {
        let defaults = self.store.get_defaults();
        self.defaults = defaults;
        let merged = self.shortcuts_system_config();
        proof {
            lemma_merge(self.store.defaults@, self.store.custom_view());
        }
        let mut models: Arena<ShortcutModel> = Arena::new();
        proof {
            assert(models_view(models@) =~= Seq::<Option<ShortcutModelView>>::empty());
        }
        if self.custom {
            // A user-defined category shows the spawned commands found in
            // the reconciled table, first occurrence first.
            let n = merged.len();
            let mut shown: Vec<Action> = Vec::new();
            let mut i: usize = 0;
            proof {
                assert(merged@.take(0) =~= Seq::<(BindingView, ActionView)>::empty());
                assert(aviews(shown@) =~= Seq::<ActionView>::empty());
            }
            while i < n
                invariant
                    i <= n,
                    n == merged@.len(),
                    aviews(shown@) == spawn_actions(merged@.take(i as int)),
                decreases n - i,
            {
                proof {
                    assert(merged@.take(i + 1).drop_last() =~= merged@.take(i as int));
                    assert(merged@.take(i + 1).last() == merged@[i as int]);
                }
                let (_, a) = merged.entry(i);
                if a.is_spawn() && !vec_contains_action(&shown, a) {
                    let ghost prev = aviews(shown@);
                    shown.push(a.clone());
                    proof {
                        assert(aviews(shown@) =~= prev.push(merged@[i as int].1));
                    }
                }
                i = i + 1;
            }
            proof {
                assert(merged@.take(n as int) =~= merged@);
            }
            let k = shown.len();
            let mut j: usize = 0;
            while j < k
                invariant
                    j <= k,
                    k == shown@.len(),
                    aviews(shown@) == spawn_actions(merged@),
                    self.defaults@ == self.store.defaults@,
                    self.defaults@.len() + merged@.len() <= 0x8000_0000usize,
                    merged@ == self.store.merged_view(),
                    models_view(models@) == built_models(
                        self.defaults@,
                        merged@,
                        aviews(shown@).take(j as int),
                    ),
                decreases k - j,
            {
                let ghost prev = models_view(models@);
                let sm = ShortcutModel::new(&self.defaults, &merged, shown[j].clone());
                models.insert(sm);
                proof {
                    assert(models_view(models@) =~= prev.push(
                        Some(model_of(self.defaults@, merged@, aviews(shown@)[j as int])),
                    ));
                    assert(built_models(self.defaults@, merged@, aviews(shown@).take(j + 1))
                        =~= prev.push(
                        Some(model_of(self.defaults@, merged@, aviews(shown@)[j as int])),
                    ));
                }
                j = j + 1;
            }
            proof {
                assert(aviews(shown@).take(k as int) =~= aviews(shown@));
            }
        } else {
            let k = self.actions.len();
            let mut j: usize = 0;
            while j < k
                invariant
                    j <= k,
                    k == self.actions@.len(),
                    self.defaults@ == self.store.defaults@,
                    self.defaults@.len() + merged@.len() <= 0x8000_0000usize,
                    merged@ == self.store.merged_view(),
                    models_view(models@) == built_models(
                        self.defaults@,
                        merged@,
                        aviews(self.actions@).take(j as int),
                    ),
                decreases k - j,
            {
                let ghost prev = models_view(models@);
                let sm = ShortcutModel::new(&self.defaults, &merged, self.actions[j].clone());
                models.insert(sm);
                proof {
                    assert(models_view(models@) =~= prev.push(
                        Some(model_of(self.defaults@, merged@, aviews(self.actions@)[j as int])),
                    ));
                    assert(built_models(
                        self.defaults@,
                        merged@,
                        aviews(self.actions@).take(j + 1),
                    ) =~= prev.push(
                        Some(model_of(self.defaults@, merged@, aviews(self.actions@)[j as int])),
                    ));
                }
                j = j + 1;
            }
            proof {
                assert(aviews(self.actions@).take(k as int) =~= aviews(self.actions@));
            }
        }
        self.shortcut_models = models;
    }

    /// Discards every row group.
    pub fn on_clear(&mut self)
        ensures
            final(self).shortcut_models@ == Seq::<Option<ShortcutModel>>::empty(),
            final(self).same_frame(*old(self)),
            final(self).defaults == old(self).defaults,
            final(self).store == old(self).store,
    {
        self.shortcut_models.clear();
    }

    /// What a staged replace-confirmation dialog shows: the edit-buffer
    /// text of the target row and the display label of the conflicting
    /// action. `None` when no dialog is staged or the target row is gone.
    pub fn dialog(&self) -> (r: Option<(String, String)>)
        ensures
            match r {
                Some((input, label)) => {
                    &&& self.replace_dialog matches Some((id, _, _, l)) && label@ == l@
                    &&& self.shortcut_context matches Some(sid)
                    &&& models_view(self.shortcut_models@).len() > sid.0
                    &&& models_view(self.shortcut_models@)[sid.0 as int] matches Some(m)
                    &&& m.bindings.len() > (self.replace_dialog.unwrap().0).0
                    &&& m.bindings[(self.replace_dialog.unwrap().0).0 as int] matches Some(row)
                        && input@ == row.input
                },
                None => {
                    self.replace_dialog is None || self.shortcut_context is None || {
                        let sid = self.shortcut_context.unwrap().0 as int;
                        let id = (self.replace_dialog.unwrap().0).0 as int;
                        self.shortcut_models.spec_get(sid) is None
                            || (self.shortcut_models.spec_get(sid) matches Some(m)
                            && m.bindings.spec_get(id) is None)
                    }
                },
            },
    {
        if let Some((id, _, _, label)) = &self.replace_dialog {
            if let Some(sid) = self.shortcut_context {
                if let Some(model) = self.shortcut_models.get(sid.0) {
                    if let Some(shortcut) = model.bindings.get(id.0) {
                        proof {
                            assert(models_view(self.shortcut_models@)[sid.0 as int]
                                == Some(model@));
                            assert(model@.bindings[id.0 as int] == Some(shortcut@));
                        }
                        return Some((shortcut.input.clone(), label.clone()));
                    }
                }
            }
        }
        None
    }
}

impl Default for Model {
    fn default() -> (r: Model)
        ensures
            r.entity == 0,
            r.defaults@ == Seq::<(BindingView, ActionView)>::empty(),
            r.replace_dialog is None,
            r.shortcut_models@ == Seq::<Option<ShortcutModel>>::empty(),
            r.shortcut_context is None,
            r.store.defaults@ == Seq::<(BindingView, ActionView)>::empty(),
            r.store.custom is None,
            !r.custom,
            r.actions@ == Seq::<Action>::empty(),
            r.wf(),
            r.synced(),
    {
        let r = Model {
            entity: 0,
            defaults: Shortcuts::new(),
            replace_dialog: None,
            shortcut_models: Arena::new(),
            shortcut_context: None,
            store: ConfigStore::new(),
            custom: false,
            actions: Vec::new(),
        };
        proof {
            assert(r.actions@ =~= Seq::<Action>::empty());
            assert(aviews(r.actions@) =~= Seq::<ActionView>::empty());
            assert(models_view(r.shortcut_models@) =~= built_models(
                r.store.defaults@,
                r.store.merged_view(),
                r.shown_actions(),
            ));
        }
        r
    }
}

} // verus!
