use expiecustwm::client::{Client, LayoutMode};
use expiecustwm::config::Config;
use expiecustwm::layout::Area;
use expiecustwm::wm::{ConfigureRequest, WindowChanges, WmState};

fn state_with(n: u32) -> WmState {
    let mut s = WmState::new(Config::default());
    for i in 0..n {
        s.add_client(Client::new(10 + i, 20 + i));
    }
    s
}

#[test]
fn first_client_takes_focus() {
    let mut s = WmState::new(Config::default());
    assert_eq!(s.focus_index(), None);
    assert_eq!(s.add_client(Client::new(1, 2)), Some(0));
    assert_eq!(s.add_client(Client::new(3, 4)), None);
    assert_eq!(s.focus_index(), Some(0));
    assert_eq!(s.client_windows(), vec![1, 3]);
    assert_eq!(s.stacking_windows(), vec![3, 1]);
}

#[test]
fn new_state_takes_layout_from_config() {
    let mut cfg = Config::default();
    cfg.gap = 9;
    cfg.master_count = 3;
    let s = WmState::new(cfg);
    assert_eq!(s.layout().gap, 9);
    assert_eq!(s.layout().master_count, 3);
    assert_eq!(s.layout().mode, LayoutMode::Tiling);
    assert_eq!(s.bar_top(), 0);
}

#[test]
fn focus_next_and_prev_wrap() {
    let mut s = state_with(3);
    let ch = s.focus_next().unwrap();
    assert_eq!((ch.unfocused, ch.focused), (Some(0), 1));
    s.focus_next();
    assert_eq!(s.focus_index(), Some(2));
    s.focus_next();
    assert_eq!(s.focus_index(), Some(0));
    let ch = s.focus_prev().unwrap();
    assert_eq!((ch.unfocused, ch.focused), (Some(0), 2));
    s.focus_next();
    assert_eq!(s.focus_index(), Some(0));
}

#[test]
fn focus_moves_need_two_clients() {
    let mut s = state_with(1);
    assert!(s.focus_next().is_none());
    assert!(s.focus_prev().is_none());
    assert_eq!(s.focus_index(), Some(0));
}

#[test]
fn set_focus_out_of_range_changes_nothing() {
    let mut s = state_with(2);
    assert!(s.set_focus(5).is_none());
    assert_eq!(s.focus_index(), Some(0));
    let ch = s.set_focus(1).unwrap();
    assert_eq!((ch.unfocused, ch.focused), (Some(0), 1));
}

#[test]
fn removing_keeps_focus_index_in_range() {
    let mut s = state_with(3);
    s.set_focus(2);
    let removed = s.remove_client(2).unwrap();
    assert_eq!(removed.window, 12);
    assert_eq!(s.focus_index(), Some(1));
    s.remove_client(0);
    assert_eq!(s.focus_index(), Some(0));
    assert_eq!(s.client_windows(), vec![11]);
    s.remove_client(0);
    assert_eq!(s.focus_index(), None);
    assert!(s.remove_client(0).is_none());
}

#[test]
fn removing_before_focus_keeps_the_index() {
    let mut s = state_with(3);
    s.set_focus(1);
    s.remove_client(0);
    assert_eq!(s.focus_index(), Some(1));
    assert_eq!(s.client(1).unwrap().window, 12);
}

#[test]
fn discarding_focuses_first() {
    let mut s = state_with(3);
    s.set_focus(2);
    let c = s.discard_client(2);
    assert_eq!(c.frame, 22);
    assert_eq!(s.focus_index(), Some(0));
    s.discard_client(0);
    s.discard_client(0);
    assert_eq!(s.focus_index(), None);
}

#[test]
fn swap_with_master_moves_focused_first() {
    let mut s = state_with(3);
    assert!(!s.swap_with_master());
    s.set_focus(2);
    assert!(s.swap_with_master());
    assert_eq!(s.client_windows(), vec![12, 11, 10]);
    assert_eq!(s.focus_index(), Some(0));
    assert!(!s.swap_with_master());
}

#[test]
fn toggle_floating_flips_focused() {
    let mut s = state_with(2);
    s.set_focus(1);
    assert!(s.toggle_floating());
    assert!(s.client(1).unwrap().floating);
    assert!(!s.client(0).unwrap().floating);
    assert!(s.toggle_floating());
    assert!(!s.client(1).unwrap().floating);
    let mut empty = state_with(0);
    assert!(!empty.toggle_floating());
}

#[test]
fn lookups_by_window_and_frame() {
    let s = state_with(3);
    assert_eq!(s.position_of_window(11), Some(1));
    assert_eq!(s.position_of_window(99), None);
    assert_eq!(s.position_of_frame(22), Some(2));
    assert_eq!(s.position_of_frame(11), None);
    assert!(s.is_managed(10));
    assert!(!s.is_managed(20));
}

#[test]
fn dialog_types_make_clients_float() {
    let mut s = state_with(2);
    s.apply_window_types(1, 32, &vec![5, 7], 7);
    assert!(s.client(1).unwrap().floating);
    assert!(s.client(1).unwrap().is_dialog);
    s.apply_window_types(0, 8, &vec![7], 7);
    assert!(!s.client(0).unwrap().is_dialog);
}

#[test]
fn layout_and_config_changes() {
    let mut s = state_with(1);
    s.set_layout(LayoutMode::Monocle);
    assert_eq!(s.layout().mode, LayoutMode::Monocle);
    let mut cfg = Config::default();
    cfg.gap = 12;
    cfg.border_width = 5;
    s.apply_config(cfg);
    assert_eq!(s.layout().gap, 12);
    assert_eq!(s.layout().border_width, 5);
    assert_eq!(s.layout().mode, LayoutMode::Monocle);
    assert_eq!(s.config().gap, 12);
}

#[test]
fn area_below_the_bar() {
    let mut s = state_with(1);
    assert_eq!(s.arrange_area(1920, 1080), Area { x: 0, y: 0, width: 1920, height: 1080 });
    s.set_bar_top(30);
    assert_eq!(s.arrange_area(1920, 1080), Area { x: 0, y: 30, width: 1920, height: 1050 });
    let ps = s.placements(&s.arrange_area(1920, 1080), 0);
    assert_eq!(ps[0].y, 34);
    assert_eq!(ps[0].height, 1042);
}

fn request(window: u32, mask: u16) -> ConfigureRequest {
    ConfigureRequest { window, value_mask: mask, x: -5, y: 6, width: 300, height: 200, border_width: 1, sibling: 0, stack_mode: 2 }
}

#[test]
fn configure_requests() {
    let mut s = state_with(2);
    // a tiled client gets nothing
    assert_eq!(s.configure_request(&request(10, 0x1f)), None);
    // a floating client gets what its mask asks for
    s.toggle_floating();
    assert_eq!(
        s.configure_request(&request(10, 1 | 4)),
        Some(WindowChanges { x: Some(-5), y: None, width: Some(300), height: None, border_width: None, sibling: None, stack_mode: None })
    );
    // an unmanaged window gets everything
    let mut r = request(99, 0);
    assert_eq!(
        s.configure_request(&r),
        Some(WindowChanges { x: Some(-5), y: Some(6), width: Some(300), height: Some(200), border_width: Some(1), sibling: None, stack_mode: Some(2) })
    );
    r.sibling = 77;
    assert_eq!(s.configure_request(&r).unwrap().sibling, Some(77));
}

use expiecustwm::config::BindingAction;
use expiecustwm::wm::ActionEffect;

#[test]
fn actions_change_state_and_report_effects() {
    let mut s = state_with(3);
    match s.execute_action(&BindingAction::FocusNext) {
        ActionEffect::Refocus(ch) => assert_eq!((ch.unfocused, ch.focused), (Some(0), 1)),
        _ => panic!("expected a focus change"),
    }
    assert!(matches!(s.execute_action(&BindingAction::MoveToMaster), ActionEffect::Arrange));
    assert_eq!(s.client_windows(), vec![11, 10, 12]);
    assert!(matches!(s.execute_action(&BindingAction::SwapWithMaster), ActionEffect::Nothing));
    assert!(matches!(s.execute_action(&BindingAction::ToggleFloating), ActionEffect::Arrange));
    assert!(s.client(0).unwrap().floating);
    assert!(matches!(s.execute_action(&BindingAction::LayoutMonocle), ActionEffect::Arrange));
    assert_eq!(s.layout().mode, LayoutMode::Monocle);
    assert!(matches!(s.execute_action(&BindingAction::CloseWindow), ActionEffect::CloseFocused));
    match s.execute_action(&BindingAction::Spawn("xterm -e top".into())) {
        ActionEffect::Spawn(cmd) => assert_eq!(cmd, "xterm -e top"),
        _ => panic!("expected a spawn"),
    }
    assert!(matches!(s.execute_action(&BindingAction::ReloadConfig), ActionEffect::ReloadConfig));
    assert!(matches!(s.execute_action(&BindingAction::Quit), ActionEffect::Quit));
    let mut one = state_with(1);
    assert!(matches!(one.execute_action(&BindingAction::FocusPrev), ActionEffect::Nothing));
}
