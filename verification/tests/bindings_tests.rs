use expiecustwm::bindings::{key_str_to_keycode, BindingManager, KeyboardMapping, IGNORED_MODIFIERS};
use expiecustwm::config::{BindingAction, Config};

/// Keycodes from 8, two keysyms each: keycode 8 -> Tab, 9 -> 'j'/'J',
/// 10 -> Return, 11 -> 'q', 12 -> 'd', 13 -> 'k', 14 -> 'f', 15 -> 't',
/// 16 -> 'm', 17 -> 's', 18 -> 'c'.
fn mapping() -> KeyboardMapping {
    let pairs: [(u32, u32); 11] = [
        (0xff09, 0),
        ('j' as u32, 'J' as u32),
        (0xff0d, 0),
        ('q' as u32, 'Q' as u32),
        ('d' as u32, 'D' as u32),
        ('k' as u32, 'K' as u32),
        ('f' as u32, 'F' as u32),
        ('t' as u32, 'T' as u32),
        ('m' as u32, 'M' as u32),
        ('s' as u32, 'S' as u32),
        ('c' as u32, 'C' as u32),
    ];
    KeyboardMapping {
        min_keycode: 8,
        keysyms_per_keycode: 2,
        keysyms: pairs.iter().flat_map(|&(a, b)| vec![a, b]).collect(),
    }
}

#[test]
fn find_keycode_by_group() {
    let m = mapping();
    assert_eq!(m.find_keycode(0xff09), Some(8));
    assert_eq!(m.find_keycode('J' as u32), Some(9));
    assert_eq!(m.find_keycode('c' as u32), Some(18));
    assert_eq!(m.find_keycode(0x1234), None);
    // 0 is listed first in the group of keycode 8
    assert_eq!(m.find_keycode(0), Some(8));
}

#[test]
fn key_names_to_keycodes() {
    let m = mapping();
    assert_eq!(key_str_to_keycode(&m, "Tab"), Some(8));
    assert_eq!(key_str_to_keycode(&m, "Return"), Some(10));
    assert_eq!(key_str_to_keycode(&m, "j"), Some(9));
    assert_eq!(key_str_to_keycode(&m, "x"), None);
    assert_eq!(key_str_to_keycode(&m, "NoSuchKey"), None);
}

#[test]
fn grabs_for_default_config() {
    let cfg = Config::default();
    let mgr = BindingManager::new(&cfg, &mapping(), 42);
    assert_eq!(mgr.root(), 42);
    assert_eq!(mgr.modifiers, 64);
    let bs = mgr.bindings();
    // all thirteen default keys are in the mapping
    assert_eq!(bs.len(), 13);
    assert_eq!((bs[0].mask, bs[0].keycode), (64, 10));
    assert_eq!(bs[0].action, BindingAction::Spawn("xterm".into()));
    assert_eq!((bs[5].mask, bs[5].keycode), (65, 10));
    assert_eq!(bs[5].action, BindingAction::SwapWithMaster);
}

#[test]
fn keys_missing_from_mapping_are_skipped() {
    let cfg = Config::default();
    let m = KeyboardMapping { min_keycode: 8, keysyms_per_keycode: 1, keysyms: vec!['j' as u32] };
    let mgr = BindingManager::new(&cfg, &m, 1);
    let bs = mgr.bindings();
    assert_eq!(bs.len(), 1);
    assert_eq!(bs[0].keycode, 8);
    assert_eq!(bs[0].action, BindingAction::FocusNext);
}

#[test]
fn keypress_finds_first_binding() {
    let cfg = Config::default();
    let mgr = BindingManager::new(&cfg, &mapping(), 1);
    assert_eq!(mgr.handle_keypress(9, 64), Some(&BindingAction::FocusNext));
    assert_eq!(mgr.handle_keypress(10, 64), Some(&BindingAction::Spawn("xterm".into())));
    assert_eq!(mgr.handle_keypress(10, 65), Some(&BindingAction::SwapWithMaster));
    assert_eq!(mgr.handle_keypress(11, 65), Some(&BindingAction::Quit));
    assert_eq!(mgr.handle_keypress(9, 0), None);
    assert_eq!(mgr.handle_keypress(99, 64), None);
}

#[test]
fn keypress_ignores_lock_modifiers() {
    let cfg = Config::default();
    let mgr = BindingManager::new(&cfg, &mapping(), 1);
    // Caps Lock (2) and Num Lock (16) held
    assert_eq!(mgr.handle_keypress(9, 64 | 2 | 16), Some(&BindingAction::FocusNext));
    assert_eq!(mgr.handle_keypress(9, 64 | IGNORED_MODIFIERS), Some(&BindingAction::FocusNext));
    // Control is not ignored
    assert_eq!(mgr.handle_keypress(9, 64 | 4), None);
}

#[test]
fn rebuild_uses_new_modifier() {
    let mut cfg = Config::default();
    let mut mgr = BindingManager::new(&cfg, &mapping(), 1);
    cfg.mod_key = "Alt".into();
    mgr.rebuild(&cfg, &mapping());
    assert_eq!(mgr.modifiers, 8);
    // the default bindings list Mod4 themselves, so Alt is added to it
    assert_eq!(mgr.bindings()[2].mask, 8 | 64);
    assert_eq!(mgr.handle_keypress(9, 72), Some(&BindingAction::FocusNext));
}

#[test]
fn mod5_as_modifier_key_fires() {
    let mut cfg = Config::default();
    cfg.mod_key = "Mod5".into();
    for kb in cfg.keybindings.iter_mut() {
        kb.mods.clear();
    }
    let mgr = BindingManager::new(&cfg, &mapping(), 1);
    assert_eq!(mgr.modifiers, 128);
    assert_eq!(mgr.bindings()[2].mask, 128);
    assert_eq!(mgr.handle_keypress(9, 128), Some(&BindingAction::FocusNext));
    // Num Lock still does not matter, Mod5 does
    assert_eq!(mgr.handle_keypress(9, 128 | 16), Some(&BindingAction::FocusNext));
    assert_eq!(mgr.handle_keypress(9, 0), None);
}
