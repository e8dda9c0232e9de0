use dxwm::commands::Command;
use dxwm::keybindings::{KeyAction, KeyBindingManager, Report};
use dxwm::keyboard::{
    normalize_modifiers, KeySymConverter, KeyboardGrabber, MOD_2, MOD_4, MOD_CONTROL, MOD_LOCK,
    MOD_SHIFT,
};

fn sample_bindings() -> KeyBindingManager {
    let mut m = KeyBindingManager::new();
    m.bind_normal(10, MOD_4, KeyAction::FocusNext);
    m.bind_normal(11, MOD_4 | MOD_SHIFT, KeyAction::Spawn(String::from("alacritty")));
    m.bind_normal(10, MOD_4, KeyAction::FocusPrev);
    m.bind_normal(12, 0, KeyAction::Report(Report::Volume));
    m.add_submap(String::from("nav"), false);
    m.add_submap(String::from("apps"), true);
    m.bind_in_mode("nav", 20, 0, KeyAction::FocusNext);
    m.bind_in_mode("nav", 9, 0, KeyAction::ExitMode);
    m.bind_in_mode("apps", 30, 0, KeyAction::Spawn(String::from("pcmanfm")));
    m.bind_in_mode("missing", 40, 0, KeyAction::Quit);
    m
}

#[test]
fn modifier_bits() {
    assert_eq!(MOD_SHIFT, 1);
    assert_eq!(MOD_LOCK, 2);
    assert_eq!(MOD_CONTROL, 4);
    assert_eq!(MOD_2, 16);
    assert_eq!(MOD_4, 64);
}

#[test]
fn new_manager_is_in_normal_mode() {
    let m = KeyBindingManager::new();
    assert!(m.is_normal_mode());
    assert!(!m.is_in_submap());
    assert!(m.normal_bindings.is_empty());
    assert!(m.submaps.is_empty());
    assert!(m.active_bindings().is_empty());
    assert!(!m.should_auto_exit());
    assert!(m.find_action(10, 0).is_none());
}

#[test]
fn bindings_are_kept_in_order() {
    let m = sample_bindings();
    assert_eq!(m.normal_bindings.len(), 4);
    assert_eq!(m.submaps.len(), 2);
    assert_eq!(m.submaps[0].name, "nav");
    assert!(!m.submaps[0].oneshot);
    assert_eq!(m.submaps[0].bindings.len(), 2);
    assert_eq!(m.submaps[1].name, "apps");
    assert!(m.submaps[1].oneshot);
    assert_eq!(m.submaps[1].bindings.len(), 1);
    assert_eq!(m.submap_position(&String::from("apps")), Some(1));
    assert_eq!(m.submap_position(&String::from("missing")), None);
}

#[test]
fn find_action_takes_the_first_match() {
    let m = sample_bindings();
    assert!(matches!(m.find_action(10, MOD_4), Some(KeyAction::FocusNext)));
    assert!(matches!(
        m.find_action(11, MOD_4 | MOD_SHIFT),
        Some(KeyAction::Spawn(ref s)) if s == "alacritty"
    ));
    assert!(matches!(m.find_action(12, 0), Some(KeyAction::Report(Report::Volume))));
}

#[test]
fn find_action_needs_exact_modifiers() {
    let m = sample_bindings();
    assert!(m.find_action(10, 0).is_none());
    assert!(m.find_action(10, MOD_4 | MOD_SHIFT).is_none());
    assert!(m.find_action(11, MOD_4).is_none());
    assert!(m.find_action(12, MOD_4).is_none());
    assert!(m.find_action(99, MOD_4).is_none());
}

#[test]
fn modes_have_their_own_bindings() {
    let mut m = sample_bindings();
    m.enter_mode(String::from("nav"));
    assert!(m.is_in_submap());
    assert!(!m.is_normal_mode());
    assert_eq!(m.active_bindings().len(), 2);
    assert!(matches!(m.find_action(20, 0), Some(KeyAction::FocusNext)));
    assert!(matches!(m.find_action(9, 0), Some(KeyAction::ExitMode)));
    assert!(m.find_action(10, MOD_4).is_none());
    assert!(!m.should_auto_exit());
    m.exit_mode();
    assert!(m.is_normal_mode());
    assert!(matches!(m.find_action(10, MOD_4), Some(KeyAction::FocusNext)));
}

#[test]
fn oneshot_mode_wants_to_be_left() {
    let mut m = sample_bindings();
    m.enter_mode(String::from("apps"));
    assert!(m.should_auto_exit());
    assert!(matches!(m.find_action(30, 0), Some(KeyAction::Spawn(ref s)) if s == "pcmanfm"));
}

#[test]
fn unknown_mode_is_not_entered() {
    let mut m = sample_bindings();
    m.enter_mode(String::from("missing"));
    assert!(m.is_normal_mode());
    m.enter_mode(String::from("nav"));
    m.enter_mode(String::from("missing"));
    assert_eq!(m.current_mode, Some(String::from("nav")));
}

#[test]
fn adding_a_mode_again_empties_it() {
    let mut m = sample_bindings();
    m.add_submap(String::from("nav"), true);
    assert_eq!(m.submaps.len(), 2);
    assert_eq!(m.submaps[0].name, "nav");
    assert!(m.submaps[0].oneshot);
    assert!(m.submaps[0].bindings.is_empty());
    assert_eq!(m.submaps[1].bindings.len(), 1);
}

#[test]
fn duplicate_keeps_the_action() {
    let a = KeyAction::EnterMode(String::from("nav"));
    assert!(matches!(a.duplicate(), KeyAction::EnterMode(ref s) if s == "nav"));
    assert!(matches!(KeyAction::SwitchWorkspace(4).duplicate(), KeyAction::SwitchWorkspace(4)));
    assert!(matches!(KeyAction::AdjustGap(-5).duplicate(), KeyAction::AdjustGap(-5)));
    assert!(matches!(
        KeyAction::Report(Report::Battery).duplicate(),
        KeyAction::Report(Report::Battery)
    ));
}

#[test]
fn grabs_follow_the_bindings() {
    let mut m = KeyBindingManager::new();
    m.bind_normal(10, MOD_4, KeyAction::FocusNext);
    m.bind_normal(11, MOD_4 | MOD_2, KeyAction::FocusPrev);
    assert_eq!(
        m.update_grabs(),
        vec![
            Command::UngrabAllKeys,
            Command::GrabKey { keycode: 10, modifiers: 64, must_succeed: true },
            Command::GrabKey { keycode: 10, modifiers: 80, must_succeed: false },
            Command::GrabKey { keycode: 11, modifiers: 80, must_succeed: true },
            Command::Flush,
        ]
    );
    m.add_submap(String::from("nav"), false);
    m.enter_mode(String::from("nav"));
    assert_eq!(m.update_grabs(), vec![Command::UngrabAllKeys, Command::GrabAllKeys, Command::Flush]);
}

fn sample_mapping() -> Vec<u32> {
    vec![
        0x31, 0x21, // key code 8
        0x32, 0x40, // key code 9
        0x31, 0, // key code 10
        0, 0x61, // key code 11
    ]
}

#[test]
fn converter_finds_the_lowest_key_code() {
    let c = KeySymConverter::new(8, 11, 2, &sample_mapping());
    assert_eq!(c.keysym_to_keycode(0x31), Some(8));
    assert_eq!(c.keysym_to_keycode(0x21), Some(8));
    assert_eq!(c.keysym_to_keycode(0x32), Some(9));
    assert_eq!(c.keysym_to_keycode(0x40), Some(9));
    assert_eq!(c.keysym_to_keycode(0x61), Some(11));
    assert_eq!(c.keysym_to_keycode(0), None);
    assert_eq!(c.keysym_to_keycode(0x99), None);
}

#[test]
fn converter_skips_rows_that_are_not_whole() {
    let mut mapping = sample_mapping();
    mapping.pop();
    let c = KeySymConverter::new(8, 11, 2, &mapping);
    assert_eq!(c.keysym_to_keycode(0x31), Some(8));
    assert_eq!(c.keysym_to_keycode(0x61), None);
    let fewer = KeySymConverter::new(8, 9, 2, &sample_mapping());
    assert_eq!(fewer.keysym_to_keycode(0x61), None);
    assert_eq!(fewer.keysym_to_keycode(0x32), Some(9));
}

#[test]
fn converter_of_an_empty_range() {
    let c = KeySymConverter::new(11, 8, 2, &sample_mapping());
    assert_eq!(c.keysym_to_keycode(0x31), None);
    let none = KeySymConverter::new(8, 11, 0, &sample_mapping());
    assert_eq!(none.keysym_to_keycode(0x31), None);
    let whole = KeySymConverter::new(0, 255, 1, &vec![7; 256]);
    assert_eq!(whole.keysym_to_keycode(7), Some(0));
}

#[test]
fn grabber_grabs_with_and_without_num_lock() {
    let g = KeyboardGrabber::new(1, KeySymConverter::new(8, 11, 2, &sample_mapping()));
    assert_eq!(
        g.grab_key(10, MOD_4),
        vec![
            Command::GrabKey { keycode: 10, modifiers: 64, must_succeed: true },
            Command::GrabKey { keycode: 10, modifiers: 80, must_succeed: false },
        ]
    );
    assert_eq!(
        g.grab_key(10, MOD_4 | MOD_2),
        vec![Command::GrabKey { keycode: 10, modifiers: 80, must_succeed: true }]
    );
    assert_eq!(g.ungrab_all_keys(), Command::UngrabAllKeys);
    assert_eq!(g.keysym_to_keycode(0x32), Some(9));
    assert_eq!(g.keysym_to_keycode(0x99), None);
}

#[test]
fn modifiers_are_taken_as_reported() {
    assert_eq!(normalize_modifiers(0), 0);
    assert_eq!(normalize_modifiers(MOD_4 | MOD_2), MOD_4 | MOD_2);
    assert_eq!(normalize_modifiers(0xffff), 0xffff);
}

#[test]
fn mode_names_stay_distinct() {
    let mut m = sample_bindings();
    m.add_submap(String::from("apps"), false);
    m.add_submap(String::from("tools"), true);
    m.add_submap(String::from("nav"), false);
    m.bind_in_mode("tools", 1, 0, KeyAction::Quit);
    m.enter_mode(String::from("tools"));
    m.exit_mode();
    let names: Vec<&str> = m.submaps.iter().map(|s| s.name.as_str()).collect();
    assert_eq!(names, vec!["nav", "apps", "tools"]);
}
