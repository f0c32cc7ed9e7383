use expiecustwm::config::{default_bindings, BindingAction, Config, ConfigOverrides};
use expiecustwm::layout::DEFAULT_MASTER_RATIO_BITS;

fn no_overrides() -> ConfigOverrides {
    ConfigOverrides {
        mod_key: None,
        terminal: None,
        launcher: None,
        border_focus: None,
        border_normal: None,
        wallpaper: None,
        wallpaper_color: None,
        gap: None,
        border_width: None,
        master_count: None,
        master_ratio_bits: None,
        autostart: None,
    }
}

fn spawned(c: &Config) -> Vec<String> {
    c.keybindings
        .iter()
        .filter_map(|kb| match &kb.action {
            BindingAction::Spawn(cmd) => Some(cmd.clone()),
            _ => None,
        })
        .collect()
}

#[test]
fn default_bindings_are_listed_in_order() {
    let bs = default_bindings();
    assert_eq!(bs.len(), 13);
    assert_eq!(bs[0].mods, vec!["Mod4".to_string()]);
    assert_eq!(bs[0].key, "Return");
    assert_eq!(bs[0].action, BindingAction::Spawn("xterm".into()));
    assert_eq!(bs[1].key, "d");
    assert_eq!(bs[1].action, BindingAction::Spawn("dmenu_run".into()));
    assert_eq!(bs[4].key, "Tab");
    assert_eq!(bs[4].action, BindingAction::FocusNext);
    assert_eq!(bs[5].mods, vec!["Mod4".to_string(), "Shift".to_string()]);
    assert_eq!(bs[5].action, BindingAction::SwapWithMaster);
    assert_eq!(bs[10].key, "s");
    assert_eq!(bs[10].action, BindingAction::LayoutFloating);
    assert_eq!(bs[12].key, "q");
    assert_eq!(bs[12].action, BindingAction::Quit);
}

#[test]
fn default_config_values() {
    let c = Config::default();
    assert_eq!(c.config_path, None);
    assert_eq!(c.mod_key, "Mod4");
    assert_eq!(c.terminal, "xterm");
    assert_eq!(c.launcher, "dmenu_run");
    assert_eq!(c.gap, 4);
    assert_eq!(c.border_width, 2);
    assert_eq!(c.border_focus, "#5294e2");
    assert_eq!(c.border_normal, "#222222");
    assert_eq!(c.master_count, 1);
    assert_eq!(f64::from_bits(c.master_ratio_bits), 0.55);
    assert!(c.autostart.is_empty());
    assert_eq!(c.keybindings, default_bindings());
}

#[test]
fn script_setting_nothing_gives_defaults() {
    let c = Config::from_overrides(no_overrides(), "/home/u/.config/expiecustwm/config.rhai".into());
    let d = Config::default();
    assert_eq!(c.config_path.as_deref(), Some("/home/u/.config/expiecustwm/config.rhai"));
    assert_eq!(c.keybindings, d.keybindings);
    assert_eq!(c.gap, d.gap);
    assert_eq!(c.master_ratio_bits, DEFAULT_MASTER_RATIO_BITS);
}

#[test]
fn script_values_replace_defaults() {
    let mut o = no_overrides();
    o.mod_key = Some("Mod1".into());
    o.terminal = Some("alacritty".into());
    o.launcher = Some("rofi -show run".into());
    o.gap = Some(10);
    o.border_width = Some(3);
    o.master_count = Some(2);
    o.master_ratio_bits = Some(0.6f64.to_bits());
    o.autostart = Some(vec![Some("dunst".into()), None, Some("polybar main".into())]);
    let c = Config::from_overrides(o, "cfg.rhai".into());
    assert_eq!(c.mod_key, "Mod1");
    assert_eq!(c.gap, 10);
    assert_eq!(c.border_width, 3);
    assert_eq!(c.master_count, 2);
    assert_eq!(f64::from_bits(c.master_ratio_bits), 0.6);
    assert_eq!(c.autostart, vec!["dunst".to_string(), "polybar main".to_string()]);
    assert_eq!(spawned(&c), vec!["alacritty".to_string(), "rofi -show run".to_string()]);
}

#[test]
fn script_integers_convert_like_as() {
    let mut o = no_overrides();
    o.gap = Some(-1);
    o.border_width = Some(0x1_0000_0005);
    o.master_count = Some(-1);
    let c = Config::from_overrides(o, "p".into());
    assert_eq!(c.gap, u32::MAX);
    assert_eq!(c.border_width, 5);
    assert_eq!(c.master_count, usize::MAX);
}

#[test]
fn config_clone_keeps_values() {
    let mut o = no_overrides();
    o.terminal = Some("kitty".into());
    let c = Config::from_overrides(o, "p".into());
    let d = c.clone();
    assert_eq!(d.terminal, "kitty");
    assert_eq!(d.keybindings, c.keybindings);
    assert_eq!(d.config_path, c.config_path);
}

#[test]
fn script_sets_border_colors_and_wallpaper() {
    let mut o = no_overrides();
    o.border_focus = Some("#ff0000".into());
    o.border_normal = Some("#00ff00".into());
    o.wallpaper = Some("/usr/share/backgrounds/cave.png".into());
    o.wallpaper_color = Some("#101010".into());
    let c = Config::from_overrides(o, "cfg.rhai".into());
    assert_eq!(c.border_focus, "#ff0000");
    assert_eq!(c.border_normal, "#00ff00");
    assert_eq!(c.wallpaper.as_deref(), Some("/usr/share/backgrounds/cave.png"));
    assert_eq!(c.wallpaper_color.as_deref(), Some("#101010"));
    let d = Config::from_overrides(no_overrides(), "cfg.rhai".into());
    assert_eq!(d.border_focus, "#5294e2");
    assert_eq!(d.border_normal, "#222222");
    assert_eq!(d.wallpaper, None);
    assert_eq!(d.wallpaper_color, None);
}
