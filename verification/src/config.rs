use vstd::prelude::*;
use crate::layout::DEFAULT_MASTER_RATIO_BITS;
use crate::text::str_eq;

verus! {

/// What a key binding does.
#[derive(Debug, PartialEq, Eq)]
pub enum BindingAction {
    FocusNext,
    FocusPrev,
    MoveToMaster,
    SwapWithMaster,
    ToggleFloating,
    CloseWindow,
    LayoutTiling,
    LayoutFloating,
    LayoutMonocle,
    Spawn(String),
    ReloadConfig,
    Quit,
}

/// A `BindingAction` with the command of `Spawn` as its characters.
pub enum ActionView {
    FocusNext,
    FocusPrev,
    MoveToMaster,
    SwapWithMaster,
    ToggleFloating,
    CloseWindow,
    LayoutTiling,
    LayoutFloating,
    LayoutMonocle,
    Spawn(Seq<char>),
    ReloadConfig,
    Quit,
}

impl View for BindingAction {
    type V = ActionView;

    open spec fn view(&self) -> ActionView {
        match self {
            BindingAction::FocusNext => ActionView::FocusNext,
            BindingAction::FocusPrev => ActionView::FocusPrev,
            BindingAction::MoveToMaster => ActionView::MoveToMaster,
            BindingAction::SwapWithMaster => ActionView::SwapWithMaster,
            BindingAction::ToggleFloating => ActionView::ToggleFloating,
            BindingAction::CloseWindow => ActionView::CloseWindow,
            BindingAction::LayoutTiling => ActionView::LayoutTiling,
            BindingAction::LayoutFloating => ActionView::LayoutFloating,
            BindingAction::LayoutMonocle => ActionView::LayoutMonocle,
            BindingAction::Spawn(cmd) => ActionView::Spawn(cmd@),
            BindingAction::ReloadConfig => ActionView::ReloadConfig,
            BindingAction::Quit => ActionView::Quit,
        }
    }
}

impl Clone for BindingAction {
    fn clone(&self) -> (r: Self)
        ensures
            r == *self,
    {
        match self {
            BindingAction::FocusNext => BindingAction::FocusNext,
            BindingAction::FocusPrev => BindingAction::FocusPrev,
            BindingAction::MoveToMaster => BindingAction::MoveToMaster,
            BindingAction::SwapWithMaster => BindingAction::SwapWithMaster,
            BindingAction::ToggleFloating => BindingAction::ToggleFloating,
            BindingAction::CloseWindow => BindingAction::CloseWindow,
            BindingAction::LayoutTiling => BindingAction::LayoutTiling,
            BindingAction::LayoutFloating => BindingAction::LayoutFloating,
            BindingAction::LayoutMonocle => BindingAction::LayoutMonocle,
            BindingAction::Spawn(cmd) => BindingAction::Spawn(cmd.clone()),
            BindingAction::ReloadConfig => BindingAction::ReloadConfig,
            BindingAction::Quit => BindingAction::Quit,
        }
    }
}

/// A key, the modifiers held with it, and what pressing them does.
#[derive(Debug, PartialEq, Eq)]
pub struct KeyBinding {
    pub mods: Vec<String>,
    pub key: String,
    pub action: BindingAction,
}

pub struct KeyBindingView {
    pub mods: Seq<Seq<char>>,
    pub key: Seq<char>,
    pub action: ActionView,
}

impl View for KeyBinding {
    type V = KeyBindingView;

    open spec fn view(&self) -> KeyBindingView {
        KeyBindingView {
            mods: self.mods@.map_values(|m: String| m@),
            key: self.key@,
            action: self.action@,
        }
    }
}

impl Clone for KeyBinding {
    fn clone(&self) -> (r: Self)
        ensures
            r@ == self@,
    {
        let mods = self.mods.clone();
        assert(mods@ =~= self.mods@);
        KeyBinding { mods, key: self.key.clone(), action: self.action.clone() }
    }
}

pub open spec fn kb(mods: Seq<Seq<char>>, key: Seq<char>, action: ActionView) -> KeyBindingView {
    KeyBindingView { mods, key, action }
}

/// The key bindings a configuration starts with.
pub open spec fn default_bindings_view() -> Seq<KeyBindingView> {
    seq![
        kb(seq!["Mod4"@], "Return"@, ActionView::Spawn("xterm"@)),
        kb(seq!["Mod4"@], "d"@, ActionView::Spawn("dmenu_run"@)),
        kb(seq!["Mod4"@], "j"@, ActionView::FocusNext),
        kb(seq!["Mod4"@], "k"@, ActionView::FocusPrev),
        kb(seq!["Mod4"@], "Tab"@, ActionView::FocusNext),
        kb(seq!["Mod4"@, "Shift"@], "Return"@, ActionView::SwapWithMaster),
        kb(seq!["Mod4"@], "f"@, ActionView::ToggleFloating),
        kb(seq!["Mod4"@], "q"@, ActionView::CloseWindow),
        kb(seq!["Mod4"@], "t"@, ActionView::LayoutTiling),
        kb(seq!["Mod4"@], "m"@, ActionView::LayoutMonocle),
        kb(seq!["Mod4"@], "s"@, ActionView::LayoutFloating),
        kb(seq!["Mod4"@, "Shift"@], "c"@, ActionView::ReloadConfig),
        kb(seq!["Mod4"@, "Shift"@], "q"@, ActionView::Quit),
    ]
}

fn binding(mods: Vec<String>, key: &str, action: BindingAction) -> (b: KeyBinding)
    ensures
        b@ == kb(mods@.map_values(|m: String| m@), key@, action@),
{
    KeyBinding { mods, key: key.to_owned(), action }
}

fn mods_1(a: &str) -> (v: Vec<String>)
    ensures
        v@.map_values(|m: String| m@) == seq![a@],
{
    let v = vec![a.to_owned()];
    assert(v@.map_values(|m: String| m@) =~= seq![a@]);
    v
}

fn mods_2(a: &str, b: &str) -> (v: Vec<String>)
    ensures
        v@.map_values(|m: String| m@) == seq![a@, b@],
{
    let v = vec![a.to_owned(), b.to_owned()];
    assert(v@.map_values(|m: String| m@) =~= seq![a@, b@]);
    v
}

fn spawn(cmd: &str) -> (a: BindingAction)
    ensures
        a@ == ActionView::Spawn(cmd@),
{
    BindingAction::Spawn(cmd.to_owned())
}

/// The key bindings a configuration starts with: Mod4 with Return or d
/// starts the terminal or the launcher, j/k/Tab move the focus, Shift+Return
/// swaps with the master, f toggles floating, q closes, t/m/s pick the layout,
/// Shift+c reloads the configuration and Shift+q quits.
pub fn default_bindings() -> (bs: Vec<KeyBinding>)
    ensures
        bs@.map_values(|b: KeyBinding| b@) == default_bindings_view(),
{
    let bs = vec![
        binding(mods_1("Mod4"), "Return", spawn("xterm")),
        binding(mods_1("Mod4"), "d", spawn("dmenu_run")),
        binding(mods_1("Mod4"), "j", BindingAction::FocusNext),
        binding(mods_1("Mod4"), "k", BindingAction::FocusPrev),
        binding(mods_1("Mod4"), "Tab", BindingAction::FocusNext),
        binding(mods_2("Mod4", "Shift"), "Return", BindingAction::SwapWithMaster),
        binding(mods_1("Mod4"), "f", BindingAction::ToggleFloating),
        binding(mods_1("Mod4"), "q", BindingAction::CloseWindow),
        binding(mods_1("Mod4"), "t", BindingAction::LayoutTiling),
        binding(mods_1("Mod4"), "m", BindingAction::LayoutMonocle),
        binding(mods_1("Mod4"), "s", BindingAction::LayoutFloating),
        binding(mods_2("Mod4", "Shift"), "c", BindingAction::ReloadConfig),
        binding(mods_2("Mod4", "Shift"), "q", BindingAction::Quit),
    ];
    assert(bs@.map_values(|b: KeyBinding| b@) =~= default_bindings_view());
    bs
}


/// The window manager's settings. `master_ratio_bits` holds the bits of the
/// floating-point master share (`f64::to_bits`).
#[derive(Debug)]
pub struct Config {
    pub config_path: Option<String>,
    pub mod_key: String,
    pub terminal: String,
    pub launcher: String,
    pub gap: u32,
    pub border_width: u32,
    pub border_focus: String,
    pub border_normal: String,
    pub master_count: usize,
    pub master_ratio_bits: u64,
    pub autostart: Vec<String>,
    pub keybindings: Vec<KeyBinding>,
    pub wallpaper: Option<String>,
    pub wallpaper_color: Option<String>,
}

pub open spec fn opt_view(o: Option<String>) -> Option<Seq<char>> {
    match o {
        Some(s) => Some(s@),
        None => None,
    }
}

pub open spec fn bindings_view(bs: Seq<KeyBinding>) -> Seq<KeyBindingView> {
    bs.map_values(|b: KeyBinding| b@)
}

impl Config {
    /// The settings are the defaults, but for the path, which is `path`.
    pub open spec fn is_default_with_path(&self, path: Option<Seq<char>>) -> bool {
        &&& opt_view(self.config_path) == path
        &&& self.mod_key@ == "Mod4"@
        &&& self.terminal@ == "xterm"@
        &&& self.launcher@ == "dmenu_run"@
        &&& self.gap == 4
        &&& self.border_width == 2
        &&& self.border_focus@ == "#5294e2"@
        &&& self.border_normal@ == "#222222"@
        &&& self.master_count == 1
        &&& self.master_ratio_bits == DEFAULT_MASTER_RATIO_BITS
        &&& self.autostart@.len() == 0
        &&& bindings_view(self.keybindings@) == default_bindings_view()
        &&& self.wallpaper is None
        &&& self.wallpaper_color is None
    }

    /// The default settings: Mod4, xterm, dmenu_run, gap 4, border 2, one
    /// master window taking 0.55 of the width, no autostart, the default key
    /// bindings, no configuration file.
    pub fn default() -> (c: Self)
        ensures
            c.is_default_with_path(None),
    {
        Config {
            config_path: None,
            mod_key: "Mod4".to_owned(),
            terminal: "xterm".to_owned(),
            launcher: "dmenu_run".to_owned(),
            gap: 4,
            border_width: 2,
            border_focus: "#5294e2".to_owned(),
            border_normal: "#222222".to_owned(),
            master_count: 1,
            master_ratio_bits: DEFAULT_MASTER_RATIO_BITS,
            autostart: Vec::new(),
            keybindings: default_bindings(),
            wallpaper: None,
            wallpaper_color: None,
        }
    }
}


/// The values a configuration script set, as the script engine handed them
/// over: the text settings (keys, programs, border colors, wallpaper file
/// and color), the integer settings (before conversion), the bits of the
/// master share, and the autostart commands (an item that is not a string is
/// `None`).
pub struct ConfigOverrides {
    pub mod_key: Option<String>,
    pub terminal: Option<String>,
    pub launcher: Option<String>,
    pub border_focus: Option<String>,
    pub border_normal: Option<String>,
    pub wallpaper: Option<String>,
    pub wallpaper_color: Option<String>,
    pub gap: Option<i64>,
    pub border_width: Option<i64>,
    pub master_count: Option<i64>,
    pub master_ratio_bits: Option<u64>,
    pub autostart: Option<Vec<Option<String>>>,
}

/// The value of `v as u32`: `v` modulo 2^32.
pub open spec fn wrap_u32(v: i64) -> u32 {
    (v as int % 0x1_0000_0000) as u32
}

/// The value of `v as usize`: `v` modulo the size of `usize`.
pub open spec fn wrap_usize(v: i64) -> usize {
    (v as int % (usize::MAX as int + 1)) as usize
}

fn i64_as_u32(v: i64) -> (r: u32)
    ensures
        r == wrap_u32(v),
{
    let m = v % 0x1_0000_0000i64;
    let m = if m < 0 { m + 0x1_0000_0000i64 } else { m };
    m as u32
}

fn i64_as_usize(v: i64) -> (r: usize)
    ensures
        r == wrap_usize(v),
{
    let modulus: i128 = usize::MAX as i128 + 1;
    let m = (v as i128) % modulus;
    let m = if m < 0 { m + modulus } else { m };
    m as usize
}

/// A spawn of the default terminal or launcher becomes a spawn of the
/// configured one; any other action stays.
pub open spec fn with_commands(a: ActionView, terminal: Seq<char>, launcher: Seq<char>) -> ActionView {
    match a {
        ActionView::Spawn(cmd) => if cmd == "xterm"@ {
            ActionView::Spawn(terminal)
        } else if cmd == "dmenu_run"@ {
            ActionView::Spawn(launcher)
        } else {
            a
        },
        _ => a,
    }
}

/// The default key bindings, spawning `terminal` and `launcher`.
pub open spec fn configured_bindings(terminal: Seq<char>, launcher: Seq<char>) -> Seq<KeyBindingView> {
    default_bindings_view().map_values(
        |b: KeyBindingView| KeyBindingView { mods: b.mods, key: b.key, action: with_commands(b.action, terminal, launcher) },
    )
}

/// The strings among `items`, in order.
pub open spec fn strings_of(items: Seq<Option<String>>) -> Seq<Seq<char>>
    decreases items.len(),
{
    if items.len() == 0 {
        seq![]
    } else {
        let rest = strings_of(items.drop_last());
        match items.last() {
            Some(s) => rest.push(s@),
            None => rest,
        }
    }
}

fn pick(o: Option<String>, default: &str) -> (s: String)
    ensures
        s@ == (match o {
            Some(v) => v@,
            None => default@,
        }),
{
    match o {
        Some(v) => v,
        None => default.to_owned(),
    }
}

fn configured_action(a: &BindingAction, terminal: &String, launcher: &String) -> (r: BindingAction)
    ensures
        r@ == with_commands(a@, terminal@, launcher@),
{
    match a {
        BindingAction::Spawn(cmd) => {
            if str_eq(cmd.as_str(), "xterm") {
                BindingAction::Spawn(terminal.clone())
            } else if str_eq(cmd.as_str(), "dmenu_run") {
                BindingAction::Spawn(launcher.clone())
            } else {
                a.clone()
            }
        },
        _ => a.clone(),
    }
}

impl Config {
    /// The settings a configuration script at `path` gives: the defaults,
    /// with each value the script set (border colors and wallpaper
    /// included) in place of the default (integers
    /// converted as `as` converts them), and the default terminal and launcher
    /// bindings spawning the configured terminal and launcher.
    pub fn from_overrides(o: ConfigOverrides, path: String) -> (c: Self)
        ensures
            c.config_path == Some(path),
            c.mod_key@ == (match o.mod_key { Some(v) => v@, None => "Mod4"@ }),
            c.terminal@ == (match o.terminal { Some(v) => v@, None => "xterm"@ }),
            c.launcher@ == (match o.launcher { Some(v) => v@, None => "dmenu_run"@ }),
            c.gap == (match o.gap { Some(v) => wrap_u32(v), None => 4 }),
            c.border_width == (match o.border_width { Some(v) => wrap_u32(v), None => 2 }),
            c.master_count == (match o.master_count { Some(v) => wrap_usize(v), None => 1 }),
            c.master_ratio_bits == (match o.master_ratio_bits { Some(v) => v, None => DEFAULT_MASTER_RATIO_BITS }),
            c.autostart@.map_values(|s: String| s@) == (match o.autostart { Some(items) => strings_of(items@), None => seq![] }),
            bindings_view(c.keybindings@) == configured_bindings(c.terminal@, c.launcher@),
            c.border_focus@ == (match o.border_focus { Some(v) => v@, None => "#5294e2"@ }),
            c.border_normal@ == (match o.border_normal { Some(v) => v@, None => "#222222"@ }),
            opt_view(c.wallpaper) == opt_view(o.wallpaper),
            opt_view(c.wallpaper_color) == opt_view(o.wallpaper_color),
    {
        let mod_key = pick(o.mod_key, "Mod4");
        let terminal = pick(o.terminal, "xterm");
        let launcher = pick(o.launcher, "dmenu_run");
        let border_focus = pick(o.border_focus, "#5294e2");
        let border_normal = pick(o.border_normal, "#222222");
        let gap = match o.gap {
            Some(v) => i64_as_u32(v),
            None => 4,
        };
        let border_width = match o.border_width {
            Some(v) => i64_as_u32(v),
            None => 2,
        };
        let master_count = match o.master_count {
            Some(v) => i64_as_usize(v),
            None => 1,
        };
        let master_ratio_bits = match o.master_ratio_bits {
            Some(v) => v,
            None => DEFAULT_MASTER_RATIO_BITS,
        };
        let mut autostart: Vec<String> = Vec::new();
        match o.autostart {
            Some(items) => {
                let mut i: usize = 0;
                assert(items@.take(0) =~= Seq::<Option<String>>::empty());
                while i < items.len()
                    invariant
                        0 <= i <= items@.len(),
                        autostart@.map_values(|s: String| s@) == strings_of(items@.take(i as int)),
                    decreases items@.len() - i,
                {
                    assert(items@.take(i as int + 1).drop_last() =~= items@.take(i as int));
                    let ghost before = autostart@;
                    match &items[i] {
                        Some(s) => {
                            autostart.push(s.clone());
                            assert(autostart@.map_values(|s: String| s@) =~= before.map_values(|s: String| s@).push(s@));
                        },
                        None => {},
                    }
                    i = i + 1;
                }
                assert(items@.take(i as int) =~= items@);
            },
            None => {
                assert(autostart@.map_values(|s: String| s@) =~= Seq::<Seq<char>>::empty());
            },
        }
        let defaults = default_bindings();
        let mut keybindings: Vec<KeyBinding> = Vec::new();
        let mut i: usize = 0;
        while i < defaults.len()
            invariant
                0 <= i <= defaults@.len(),
                bindings_view(defaults@) == default_bindings_view(),
                keybindings@.len() == i,
                forall|j: int| 0 <= j < i ==> #[trigger] keybindings@[j]@ == configured_bindings(terminal@, launcher@)[j],
            decreases defaults@.len() - i,
        {
            let b = &defaults[i];
            assert(b@ == default_bindings_view()[i as int]);
            let mods = b.mods.clone();
            assert(mods@ =~= b.mods@);
            let action = configured_action(&b.action, &terminal, &launcher);
            keybindings.push(KeyBinding { mods, key: b.key.clone(), action });
            i = i + 1;
        }
        assert(bindings_view(keybindings@) =~= configured_bindings(terminal@, launcher@));
        Config {
            config_path: Some(path),
            mod_key,
            terminal,
            launcher,
            gap,
            border_width,
            border_focus,
            border_normal,
            master_count,
            master_ratio_bits,
            autostart,
            keybindings,
            wallpaper: o.wallpaper,
            wallpaper_color: o.wallpaper_color,
        }
    }
}


/// Setting the default terminal and launcher leaves the default key bindings
/// as they are: a script that sets nothing gives the default configuration.
pub proof fn lemma_default_commands_keep_bindings()
    ensures
        configured_bindings("xterm"@, "dmenu_run"@) == default_bindings_view(),
{
    let d = default_bindings_view();
    let c = configured_bindings("xterm"@, "dmenu_run"@);
    assert forall|i: int| 0 <= i < d.len() implies #[trigger] c[i] == d[i] by {
        match d[i].action {
            ActionView::Spawn(cmd) => {
                if cmd == "xterm"@ {
                } else if cmd == "dmenu_run"@ {
                }
            },
            _ => {},
        }
    }
    assert(c =~= d);
}

impl Clone for Config {
    fn clone(&self) -> (r: Self)
        ensures
            opt_view(r.config_path) == opt_view(self.config_path),
            r.mod_key@ == self.mod_key@,
            r.terminal@ == self.terminal@,
            r.launcher@ == self.launcher@,
            r.gap == self.gap,
            r.border_width == self.border_width,
            r.border_focus@ == self.border_focus@,
            r.border_normal@ == self.border_normal@,
            r.master_count == self.master_count,
            r.master_ratio_bits == self.master_ratio_bits,
            r.autostart@ == self.autostart@,
            bindings_view(r.keybindings@) == bindings_view(self.keybindings@),
            opt_view(r.wallpaper) == opt_view(self.wallpaper),
            opt_view(r.wallpaper_color) == opt_view(self.wallpaper_color),
    {
        let autostart = self.autostart.clone();
        assert(autostart@ =~= self.autostart@);
        let keybindings = self.keybindings.clone();
        assert(bindings_view(keybindings@) =~= bindings_view(self.keybindings@));
        Config {
            config_path: clone_opt(&self.config_path),
            mod_key: self.mod_key.clone(),
            terminal: self.terminal.clone(),
            launcher: self.launcher.clone(),
            gap: self.gap,
            border_width: self.border_width,
            border_focus: self.border_focus.clone(),
            border_normal: self.border_normal.clone(),
            master_count: self.master_count,
            master_ratio_bits: self.master_ratio_bits,
            autostart,
            keybindings,
            wallpaper: clone_opt(&self.wallpaper),
            wallpaper_color: clone_opt(&self.wallpaper_color),
        }
    }
}

fn clone_opt(o: &Option<String>) -> (r: Option<String>)
    ensures
        opt_view(r) == opt_view(*o),
{
    match o {
        Some(s) => Some(s.clone()),
        None => None,
    }
}

} // verus!
