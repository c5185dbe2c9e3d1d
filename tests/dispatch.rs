use flow::config::{Config, ConfigCombo, FlowConfig, Modifier};
use flow::dispatch::Dispatcher;
use flow::handler::{ComboHandler, Spawn};
use flow::keys::{Key, KeyAction, KeyMap, KeyState, Keyboard};
use flow::profile::{Keybind, ProfileContext};
use flow::record::ComboRecord;
use flow::tree::ComboTree;

/// A layout with one keysym per keycode: `a` on 8, `b` on 9, `c` on 10.
fn abc_layout() -> KeyState {
    KeyState::new(8, 10, 1, vec![0x61, 0x62, 0x63])
}

fn strings(items: &[&str]) -> Vec<String> {
    items.iter().map(|s| s.to_string()).collect()
}

fn named(name: &str, keys: &[&str], spawn: &[&str]) -> (String, ConfigCombo) {
    (name.to_string(), ConfigCombo::new(strings(keys), strings(spawn)))
}

fn config(combos: Vec<(String, ConfigCombo)>) -> Config {
    Config::new(FlowConfig::new(Modifier::M1), combos)
}

#[test]
fn keysym_of_letter_resolves_through_layout() {
    let state = abc_layout();
    assert_eq!(Key::from_char('b').keysym(), 0x62);
    assert_eq!(Key::from_char('b').keycode(&state), Some(9));
    assert_eq!(Key::from_char('z').keycode(&state), None);
}

#[test]
fn keysym_found_in_later_column_of_row() {
    // two keysyms per keycode: lower and upper case
    let state = KeyState::new(20, 22, 2, vec![0x61, 0x41, 0x62, 0x42, 0x63, 0x43]);
    assert_eq!(state.keysym_to_keycode(0x42), Some(21));
    assert_eq!(state.keysym_to_keycode(0x61), Some(20));
    assert_eq!(state.keysym_to_keycode(0x44), None);
    let empty_rows = KeyState::new(8, 8, 0, vec![]);
    assert_eq!(empty_rows.keysym_to_keycode(0x61), None);
}

#[test]
fn scenario_combo_fires_only_in_press_order() {
    let cfg = config(vec![named("term", &["a", "b"], &["alacritty"])]);
    let mut d = Dispatcher::new();
    let roots = d.setup_binds(&cfg, &abc_layout());
    assert_eq!(roots, vec![8]);
    assert!(d.handle_key_press(8).is_none());
    let action = d.handle_key_press(9).expect("a then b is bound");
    assert_eq!(action.program(), "alacritty");
    assert_eq!(action.handler_name(), "term");

    let mut d = Dispatcher::new();
    d.setup_binds(&cfg, &abc_layout());
    assert!(d.handle_key_press(9).is_none());
    assert!(d.handle_key_press(8).is_none());
}

#[test]
fn scenario_root_release_forgets_the_combo() {
    let mut d = Dispatcher::new();
    d.handle_key_press(8);
    d.handle_key_release(8);
    d.handle_key_press(9);
    assert_eq!(d.snapshot().keycodes(), &vec![9]);
}

#[test]
fn scenario_unresolvable_binding_is_skipped() {
    let cfg = config(vec![
        named("bad", &["a", "é"], &["bad-program"]),
        named("good", &["b", "c"], &["good-program", "--flag"]),
    ]);
    let mut d = Dispatcher::new();
    let roots = d.setup_binds(&cfg, &abc_layout());
    assert_eq!(roots, vec![9]);
    assert!(d.handle_key_press(8).is_none());
    d.handle_key_release(8);
    assert!(d.handle_key_press(9).is_none());
    let action = d.handle_key_press(10).expect("b then c is bound");
    assert_eq!(action.program(), "good-program");
    assert_eq!(action.arguments(), &["--flag".to_string()][..]);
}

#[test]
fn scenario_shared_root_is_grabbed_once() {
    let cfg = config(vec![
        named("ab", &["a", "b"], &["first"]),
        named("ac", &["a", "c"], &["second"]),
    ]);
    let mut d = Dispatcher::new();
    let roots = d.setup_binds(&cfg, &abc_layout());
    assert_eq!(roots, vec![8]);
    d.handle_key_press(8);
    assert_eq!(d.handle_key_press(9).unwrap().program(), "first");
    d.handle_key_release(9);
    assert_eq!(d.handle_key_press(10).unwrap().program(), "second");
}

#[test]
fn later_binding_with_same_keys_wins_and_setup_replaces() {
    let cfg = config(vec![
        named("one", &["a"], &["first"]),
        named("two", &["a"], &["second"]),
        named("no-command", &["b"], &[]),
        named("no-keys", &[], &["x"]),
    ]);
    let mut d = Dispatcher::new();
    let roots = d.setup_binds(&cfg, &abc_layout());
    assert_eq!(roots, vec![8]);
    assert_eq!(d.handle_key_press(8).unwrap().program(), "second");
    d.handle_key_release(8);
    assert!(d.handle_key_press(9).is_none());
    d.handle_key_release(9);

    let roots = d.setup_binds(&config(vec![named("c", &["c"], &["third"])]), &abc_layout());
    assert_eq!(roots, vec![10]);
    assert!(d.handle_key_press(8).is_none());
    d.handle_key_release(8);
    assert_eq!(d.handle_key_press(10).unwrap().program(), "third");
}

#[test]
fn record_ignores_repeats_and_removes_single_keys() {
    let mut r = ComboRecord::new();
    r.add(5);
    r.add(6);
    r.add(6);
    r.add(7);
    assert_eq!(r.snapshot().keycodes(), &vec![5, 6, 7]);
    r.remove(6);
    assert_eq!(r.snapshot().keycodes(), &vec![5, 7]);
    r.remove(42);
    assert_eq!(r.snapshot().keycodes(), &vec![5, 7]);
    assert!(r.contains(7) && !r.contains(6));
    assert_eq!(r.snapshot().to_text(), "5+7");
    r.remove(5);
    assert_eq!(r.snapshot().keycodes(), &Vec::<u32>::new());
    assert_eq!(r.snapshot().to_text(), "");
}

#[test]
fn tree_matches_exactly() {
    let mut t: ComboTree<u8> = ComboTree::new();
    t.add_combo(&[1, 2, 3], 7);
    assert_eq!(t.find_combo_handler(&[1, 2, 3]), Some(&7));
    assert_eq!(t.find_combo_handler(&[1, 2]), None);
    assert_eq!(t.find_combo_handler(&[1, 2, 3, 4]), None);
    t.add_combo(&[1, 2, 3], 9);
    assert_eq!(t.find_combo_handler(&[1, 2, 3]), Some(&9));
    t.add_combo(&[1], 1);
    assert_eq!(t.find_combo_handler(&[1]), Some(&1));
    t.clear();
    assert_eq!(t.find_combo_handler(&[1, 2, 3]), None);
    assert_eq!(t.find_combo_handler(&[1]), None);
}

#[test]
fn modifier_masks_follow_the_core_protocol() {
    assert_eq!(Modifier::SHIFT.mask(), 1);
    assert_eq!(Modifier::CTRL.mask(), 4);
    assert_eq!(Modifier::M1.mask(), 8);
    assert_eq!(Modifier::M4.mask(), 64);
    assert_eq!(Modifier::default(), Modifier::M1);
    assert_eq!(Config::default().flow().modifier(), Modifier::M1);
}

#[test]
fn spawn_clone_keeps_every_part() {
    let s = Spawn::new("n".to_string(), "p".to_string(), strings(&["x", "y"]));
    let c = s.clone();
    assert_eq!(c.handler_name(), "n");
    assert_eq!(c.program(), "p");
    assert_eq!(c.arguments(), &strings(&["x", "y"])[..]);
}

#[test]
fn keysym_of_non_latin_character_comes_from_the_keysym_table() {
    let omega = Key::from_char('\u{3a9}');
    assert_eq!(omega.keysym(), 0x7d9);
    let state = KeyState::new(30, 31, 1, vec![0x61, 0x7d9]);
    assert_eq!(omega.keycode(&state), Some(31));
}

#[test]
fn key_maps_and_profiles_keep_their_keys() {
    let map = KeyMap::new(Key::from_char('q'), KeyAction::Placeholder);
    assert_eq!(map.key(), Key('q'));
    let profile = ProfileContext::new(vec![Keybind::new(Key('x')), Keybind::new(Key('y'))]);
    let keys: Vec<char> = profile.keybinds().iter().map(|k| k.key.0).collect();
    assert_eq!(keys, vec!['x', 'y']);
    assert_eq!(Keyboard::default().active_modifiers, 0);
}
