use shortcuts::action::Action;
use shortcuts::binding::Binding;
use shortcuts::keys::{KeyEvent, Modifiers, NamedKey};
use shortcuts::model::{BindingId, Model, ShortcutModel};
use shortcuts::shortcuts::Shortcuts;
use shortcuts::update::{Effect, ShortcutMessage};

fn binding(s: &str) -> Binding {
    Binding::parse(s).unwrap()
}

fn terminal() -> Action {
    Action::Builtin(String::from("Terminal"))
}

fn browser() -> Action {
    Action::Builtin(String::from("Browser"))
}

fn table(entries: &[(&str, Action)]) -> Shortcuts {
    let mut t = Shortcuts::new();
    for (b, a) in entries {
        t.insert(binding(b), a.clone());
    }
    t
}

fn model_with(defaults: Shortcuts, custom: Option<Shortcuts>, actions: Vec<Action>) -> Model {
    let mut m = Model::default().actions(actions);
    m.store.defaults = defaults;
    m.store.custom = custom;
    m.on_enter();
    m
}

fn occupied_rows(m: &Model, group: usize) -> usize {
    let model = m.shortcut_models.get(group).unwrap();
    let mut count = 0;
    for k in 0..model.bindings.slot_count() {
        if model.bindings.get(k).is_some() {
            count += 1;
        }
    }
    count
}

fn rows_holding(m: &Model, b: &Binding) -> usize {
    let mut count = 0;
    for g in 0..m.shortcut_models.slot_count() {
        if let Some(model) = m.shortcut_models.get(g) {
            for k in 0..model.bindings.slot_count() {
                if let Some(row) = model.bindings.get(k) {
                    if row.binding == *b {
                        count += 1;
                    }
                }
            }
        }
    }
    count
}

#[test]
fn modified_counts_divergence_from_defaults() {
    let defaults = table(&[("Ctrl+Alt+T", terminal())]);
    let current = table(&[("Ctrl+Alt+T", terminal()), ("Super+X", terminal())]);
    let sm = ShortcutModel::new(&defaults, &current, terminal());
    assert_eq!(sm.modified, 1);

    let none = ShortcutModel::new(&defaults, &Shortcuts::new(), terminal());
    assert_eq!(none.modified, 1);

    let same = ShortcutModel::new(&defaults, &defaults, terminal());
    assert_eq!(same.modified, 0);
}

#[test]
fn on_enter_merges_custom_over_defaults() {
    let m = model_with(
        table(&[("Ctrl+Alt+T", terminal())]),
        Some(table(&[("Ctrl+Alt+T", browser())])),
        vec![terminal(), browser()],
    );
    assert_eq!(m.config_contains(&binding("Ctrl+Alt+T")), Some(browser()));
    assert_eq!(occupied_rows(&m, 0), 0);
    assert_eq!(occupied_rows(&m, 1), 1);
}

#[test]
fn config_contains_filters_disable() {
    let m = model_with(
        table(&[("Ctrl+Alt+T", terminal())]),
        Some(table(&[("Ctrl+Alt+T", Action::Disable)])),
        vec![terminal()],
    );
    assert_eq!(m.config_contains(&binding("Ctrl+Alt+T")), None);
}

#[test]
fn conflicting_commit_stages_dialog_and_persists_nothing() {
    let mut m = model_with(table(&[("Ctrl+Alt+T", terminal())]), None, vec![
        terminal(),
        browser(),
    ]);
    m.update(ShortcutMessage::ShowShortcut(BindingId(1), String::from("Browser")));
    m.update(ShortcutMessage::AddKeybinding);
    m.update(ShortcutMessage::InputBinding(BindingId(0), String::from("Ctrl+Alt+T")));
    m.update(ShortcutMessage::SubmitBinding(BindingId(0)));

    match &m.replace_dialog {
        Some((id, b, a, label)) => {
            assert_eq!(id.0, 0);
            assert_eq!(*b, binding("Ctrl+Alt+T"));
            assert_eq!(*a, terminal());
            assert_eq!(label, "Terminal");
        },
        None => panic!("expected a staged replace dialog"),
    }
    assert!(m.shortcuts_config().is_empty());

    let dialog = m.dialog().unwrap();
    assert_eq!(dialog.0, "Ctrl+Alt+T");
    assert_eq!(dialog.1, "Terminal");
}

#[test]
fn cancel_replace_discards_the_dialog() {
    let mut m = model_with(table(&[("Ctrl+Alt+T", terminal())]), None, vec![
        terminal(),
        browser(),
    ]);
    m.update(ShortcutMessage::ShowShortcut(BindingId(1), String::from("Browser")));
    m.update(ShortcutMessage::AddKeybinding);
    m.update(ShortcutMessage::InputBinding(BindingId(0), String::from("Ctrl+Alt+T")));
    m.update(ShortcutMessage::SubmitBinding(BindingId(0)));
    assert!(m.replace_dialog.is_some());
    m.update(ShortcutMessage::CancelReplace);
    assert!(m.replace_dialog.is_none());
    assert!(m.shortcuts_config().is_empty());
}

#[test]
fn confirmed_replace_moves_the_binding() {
    let mut m = model_with(table(&[("Ctrl+Alt+T", terminal())]), None, vec![
        terminal(),
        browser(),
    ]);
    m.update(ShortcutMessage::ShowShortcut(BindingId(1), String::from("Browser")));
    m.update(ShortcutMessage::AddKeybinding);
    m.update(ShortcutMessage::InputBinding(BindingId(0), String::from("Ctrl+Alt+T")));
    m.update(ShortcutMessage::SubmitBinding(BindingId(0)));
    m.update(ShortcutMessage::ApplyReplace);

    let custom = m.shortcuts_config();
    assert_eq!(custom.len(), 1);
    assert_eq!(custom.get(&binding("Ctrl+Alt+T")), Some(&browser()));

    // the contested binding now belongs to the new owner, and a reclaim
    // attempt by the old owner conflicts instead of overwriting
    assert_eq!(m.config_contains(&binding("Ctrl+Alt+T")), Some(browser()));

    // exactly one row holds the binding afterwards
    assert_eq!(rows_holding(&m, &binding("Ctrl+Alt+T")), 1);
}

#[test]
fn add_keybinding_reuses_an_empty_row() {
    let mut m = model_with(Shortcuts::new(), None, vec![terminal()]);
    m.update(ShortcutMessage::ShowShortcut(BindingId(0), String::from("Terminal")));
    let first = m.update(ShortcutMessage::AddKeybinding);
    assert_eq!(first.len(), 1);
    assert!(matches!(first[0], Effect::Focus(BindingId(0), BindingId(0))));
    assert_eq!(occupied_rows(&m, 0), 1);

    let second = m.update(ShortcutMessage::AddKeybinding);
    assert_eq!(second.len(), 1);
    assert!(matches!(second[0], Effect::Focus(BindingId(0), BindingId(0))));
    assert_eq!(occupied_rows(&m, 0), 1);
}

#[test]
fn add_keybinding_appends_when_rows_are_taken() {
    let mut m = model_with(table(&[("Ctrl+Alt+T", terminal())]), None, vec![terminal()]);
    m.update(ShortcutMessage::ShowShortcut(BindingId(0), String::from("Terminal")));
    assert_eq!(occupied_rows(&m, 0), 1);
    let effects = m.update(ShortcutMessage::AddKeybinding);
    assert!(matches!(effects[0], Effect::Focus(BindingId(0), BindingId(1))));
    assert_eq!(occupied_rows(&m, 0), 2);
}

#[test]
fn deleting_a_default_binding_writes_a_disable_entry() {
    let mut m = model_with(table(&[("Ctrl+Alt+T", terminal())]), None, vec![terminal()]);
    m.update(ShortcutMessage::ShowShortcut(BindingId(0), String::from("Terminal")));
    m.update(ShortcutMessage::DeleteBinding(BindingId(0)));

    let custom = m.shortcuts_config();
    assert_eq!(custom.get(&binding("Ctrl+Alt+T")), Some(&Action::Disable));
    assert_eq!(m.config_contains(&binding("Ctrl+Alt+T")), None);
    assert_eq!(occupied_rows(&m, 0), 0);
    // the group ran out of rows, so the detail context closed here too
    assert!(m.shortcut_context.is_none());
}

#[test]
fn deleting_a_custom_binding_removes_its_entry() {
    let mut m = model_with(
        Shortcuts::new(),
        Some(table(&[("Super+X", terminal())])),
        vec![terminal()],
    );
    m.update(ShortcutMessage::ShowShortcut(BindingId(0), String::from("Terminal")));
    m.update(ShortcutMessage::DeleteBinding(BindingId(0)));
    assert!(m.shortcuts_config().is_empty());
    // the group ran out of rows, so the detail context closed
    assert!(m.shortcut_context.is_none());
}

#[test]
fn reset_bindings_restores_the_natural_default() {
    let mut m = model_with(
        table(&[("Ctrl+Alt+T", terminal())]),
        Some(table(&[("Super+Q", terminal()), ("Ctrl+Alt+T", Action::Disable)])),
        vec![terminal()],
    );
    m.update(ShortcutMessage::ShowShortcut(BindingId(0), String::from("Terminal")));
    m.update(ShortcutMessage::ResetBindings);

    assert!(m.shortcuts_config().is_empty());
    let model = m.shortcut_models.get(0).unwrap();
    assert_eq!(model.modified, 0);
    let row = model.bindings.get(0).unwrap();
    assert_eq!(row.binding, binding("Ctrl+Alt+T"));
    assert!(row.is_default);
}

#[test]
fn submitting_an_unset_binding_persists_nothing() {
    let mut m = model_with(Shortcuts::new(), None, vec![terminal()]);
    m.update(ShortcutMessage::ShowShortcut(BindingId(0), String::from("Terminal")));
    m.update(ShortcutMessage::AddKeybinding);
    m.update(ShortcutMessage::InputBinding(BindingId(0), String::from("ctrl+alt")));
    m.update(ShortcutMessage::SubmitBinding(BindingId(0)));
    assert!(m.shortcuts_config().is_empty());
    let row = m.shortcut_models.get(0).unwrap().bindings.get(0).unwrap();
    assert_eq!(row.input, "");
    assert!(!row.binding.is_set());
}

#[test]
fn submitting_garbage_keeps_the_buffer() {
    let mut m = model_with(Shortcuts::new(), None, vec![terminal()]);
    m.update(ShortcutMessage::ShowShortcut(BindingId(0), String::from("Terminal")));
    m.update(ShortcutMessage::AddKeybinding);
    m.update(ShortcutMessage::InputBinding(BindingId(0), String::from("not a key")));
    m.update(ShortcutMessage::SubmitBinding(BindingId(0)));
    assert!(m.shortcuts_config().is_empty());
    let row = m.shortcut_models.get(0).unwrap().bindings.get(0).unwrap();
    assert_eq!(row.input, "not a key");
}

#[test]
fn submitting_a_free_binding_commits_it() {
    let mut m = model_with(table(&[("Ctrl+Alt+T", terminal())]), None, vec![terminal()]);
    m.update(ShortcutMessage::ShowShortcut(BindingId(0), String::from("Terminal")));
    m.update(ShortcutMessage::AddKeybinding);
    m.update(ShortcutMessage::InputBinding(BindingId(1), String::from("Super+X")));
    m.update(ShortcutMessage::SubmitBinding(BindingId(1)));

    let custom = m.shortcuts_config();
    assert_eq!(custom.get(&binding("Super+X")), Some(&terminal()));
    let model = m.shortcut_models.get(0).unwrap();
    // one custom row beside the untouched default
    assert_eq!(model.modified, 1);
    assert_eq!(occupied_rows(&m, 0), 2);
}

#[test]
fn key_capture_commits_the_pressed_combination() {
    let mut m = model_with(Shortcuts::new(), None, vec![terminal()]);
    m.update(ShortcutMessage::ShowShortcut(BindingId(0), String::from("Terminal")));
    m.update(ShortcutMessage::AddKeybinding);
    m.update(ShortcutMessage::PressBinding(BindingId(0)));
    assert_eq!(
        m.shortcut_models.get(0).unwrap().request_key_input,
        Some(BindingId(0)),
    );

    let mods = Modifiers { ctrl: true, alt: false, shift: false, logo: false };
    m.update(ShortcutMessage::KeyPressed(
        BindingId(0),
        KeyEvent::Named(NamedKey::F3),
        mods,
    ));

    let custom = m.shortcuts_config();
    assert_eq!(custom.get(&binding("Ctrl+F3")), Some(&terminal()));
    assert_eq!(m.shortcut_models.get(0).unwrap().request_key_input, None);
}

#[test]
fn punctuation_capture_commits_a_named_binding() {
    let mut m = model_with(Shortcuts::new(), None, vec![terminal()]);
    m.update(ShortcutMessage::ShowShortcut(BindingId(0), String::from("Terminal")));
    m.update(ShortcutMessage::AddKeybinding);
    let mods = Modifiers { ctrl: true, alt: false, shift: false, logo: false };
    m.update(ShortcutMessage::KeyPressed(
        BindingId(0),
        KeyEvent::Character(String::from("!")),
        mods,
    ));
    let custom = m.shortcuts_config();
    assert_eq!(custom.get(&binding("Ctrl+exclam")), Some(&terminal()));
}

#[test]
fn uncapturable_key_is_ignored() {
    let mut m = model_with(Shortcuts::new(), None, vec![terminal()]);
    m.update(ShortcutMessage::ShowShortcut(BindingId(0), String::from("Terminal")));
    m.update(ShortcutMessage::AddKeybinding);
    let mods = Modifiers { ctrl: true, alt: false, shift: false, logo: false };
    m.update(ShortcutMessage::KeyPressed(
        BindingId(0),
        KeyEvent::Named(NamedKey::TVPower),
        mods,
    ));
    assert!(m.shortcuts_config().is_empty());
}

#[test]
fn edit_binding_fills_and_commits_the_buffer() {
    let mut m = model_with(table(&[("Ctrl+Alt+T", terminal())]), None, vec![terminal()]);
    m.update(ShortcutMessage::ShowShortcut(BindingId(0), String::from("Terminal")));
    let effects = m.update(ShortcutMessage::EditBinding(BindingId(0), true));
    assert!(matches!(effects[0], Effect::SelectAll(BindingId(0), BindingId(0))));
    {
        let row = m.shortcut_models.get(0).unwrap().bindings.get(0).unwrap();
        assert_eq!(row.input, "Ctrl+Alt+T");
        assert!(row.editing);
    }
    m.update(ShortcutMessage::InputBinding(BindingId(0), String::from("Super+Return")));
    m.update(ShortcutMessage::EditBinding(BindingId(0), false));

    let custom = m.shortcuts_config();
    assert_eq!(custom.get(&binding("Super+Return")), Some(&terminal()));
}

#[test]
fn leaving_edit_with_garbage_discards_the_buffer() {
    let mut m = model_with(table(&[("Ctrl+Alt+T", terminal())]), None, vec![terminal()]);
    m.update(ShortcutMessage::ShowShortcut(BindingId(0), String::from("Terminal")));
    m.update(ShortcutMessage::EditBinding(BindingId(0), true));
    m.update(ShortcutMessage::InputBinding(BindingId(0), String::from("not a key")));
    m.update(ShortcutMessage::EditBinding(BindingId(0), false));

    let row = m.shortcut_models.get(0).unwrap().bindings.get(0).unwrap();
    assert_eq!(row.input, "");
    assert!(!row.editing);
    assert_eq!(row.binding, binding("Ctrl+Alt+T"));
    assert!(m.shortcuts_config().is_empty());
}

#[test]
fn delete_shortcut_drops_a_custom_action() {
    let spawn = Action::Spawn(String::from("firefox"));
    let mut m = Model::default().custom();
    m.store.custom = Some(table(&[("Super+B", spawn.clone())]));
    m.on_enter();
    assert_eq!(m.shortcut_models.slot_count(), 1);
    assert_eq!(m.shortcut_models.get(0).unwrap().description, "firefox");

    m.update(ShortcutMessage::DeleteShortcut(BindingId(0)));
    assert!(m.shortcuts_config().is_empty());
    assert_eq!(m.shortcut_models.slot_count(), 0);
}

#[test]
fn show_shortcut_opens_the_drawer_and_focuses() {
    let mut m = model_with(table(&[("Ctrl+Alt+T", terminal())]), None, vec![terminal()]);
    let effects = m.update(ShortcutMessage::ShowShortcut(BindingId(0), String::from("Terminal")));
    assert_eq!(effects.len(), 3);
    assert!(matches!(&effects[0], Effect::OpenContextDrawer(t) if t == "Terminal"));
    assert!(matches!(effects[1], Effect::Focus(BindingId(0), BindingId(0))));
    assert!(matches!(effects[2], Effect::SelectAll(BindingId(0), BindingId(0))));
    assert_eq!(m.shortcut_context, Some(BindingId(0)));
}
