use shortcuts::action::Action;
use shortcuts::arena::Arena;
use shortcuts::binding::Binding;
use shortcuts::model::{BindingId, Model};
use shortcuts::shortcuts::Shortcuts;
use shortcuts::update::ShortcutMessage;

fn binding(s: &str) -> Binding {
    Binding::parse(s).unwrap()
}

fn terminal() -> Action {
    Action::Builtin(String::from("Terminal"))
}

fn browser() -> Action {
    Action::Builtin(String::from("Browser"))
}

#[test]
fn insert_overwrites_an_equal_key() {
    let mut t = Shortcuts::new();
    t.insert(binding("Ctrl+Alt+T"), terminal());
    t.insert(binding("Ctrl+Alt+T"), browser());
    assert_eq!(t.len(), 1);
    assert_eq!(t.get(&binding("Ctrl+Alt+T")), Some(&browser()));
}

#[test]
fn remove_drops_only_its_key() {
    let mut t = Shortcuts::new();
    t.insert(binding("Ctrl+Alt+T"), terminal());
    t.insert(binding("Super+B"), browser());
    t.remove(&binding("Ctrl+Alt+T"));
    assert_eq!(t.len(), 1);
    assert_eq!(t.get(&binding("Ctrl+Alt+T")), None);
    assert_eq!(t.get(&binding("Super+B")), Some(&browser()));
}

#[test]
fn lookup_on_empty_table_finds_nothing() {
    let t = Shortcuts::new();
    assert!(t.is_empty());
    assert_eq!(t.get(&binding("Ctrl+Alt+T")), None);
}

#[test]
fn arena_keys_stay_stable_across_removal() {
    let mut a: Arena<u32> = Arena::new();
    let k0 = a.insert(10);
    let k1 = a.insert(11);
    let k2 = a.insert(12);
    assert_eq!(a.remove(k1), Some(11));
    // the other rows keep their keys, and the stale key misses
    assert_eq!(a.get(k0), Some(&10));
    assert_eq!(a.get(k1), None);
    assert_eq!(a.get(k2), Some(&12));
    assert_eq!(a.remove(k1), None);
    // a fresh insertion gets a fresh key
    let k3 = a.insert(13);
    assert!(k3 != k0 && k3 != k2);
    assert_eq!(a.get(k3), Some(&13));
}

#[test]
fn on_clear_discards_every_row_group() {
    let mut m = Model::default().actions(vec![terminal()]);
    let mut defaults = Shortcuts::new();
    defaults.insert(binding("Ctrl+Alt+T"), terminal());
    m.store.defaults = defaults;
    m.on_enter();
    assert_eq!(m.shortcut_models.slot_count(), 1);
    m.on_clear();
    assert_eq!(m.shortcut_models.slot_count(), 0);
}

#[test]
fn stale_row_ids_are_ignored() {
    let mut m = Model::default().actions(vec![terminal()]);
    let mut defaults = Shortcuts::new();
    defaults.insert(binding("Ctrl+Alt+T"), terminal());
    m.store.defaults = defaults;
    m.on_enter();
    m.update(ShortcutMessage::ShowShortcut(BindingId(0), String::from("Terminal")));
    // a lookup by a handle whose row never existed changes nothing
    m.update(ShortcutMessage::DeleteBinding(BindingId(7)));
    m.update(ShortcutMessage::SubmitBinding(BindingId(7)));
    assert!(m.shortcuts_config().is_empty());
    assert!(m.shortcut_models.get(0).unwrap().bindings.get(0).is_some());
}

#[test]
fn builders_set_their_flags() {
    let m = Model::default().custom();
    assert!(m.custom);
    let m2 = Model::default().actions(vec![terminal(), browser()]);
    assert_eq!(m2.actions.len(), 2);
    assert!(!m2.custom);
}
