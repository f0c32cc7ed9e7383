use vstd::prelude::*;
use crate::client::{Client, LayoutMode, lists_atom};
use crate::config::{ActionView, BindingAction, Config};
use crate::layout::{Area, LayoutEngine, Placement, gap_as_i32, in_i32, lemma_placements_start_in_area, visible_of};

verus! {

/// The index of the first client whose window is `w`.
pub open spec fn first_with_window(cs: Seq<Client>, w: u32) -> Option<nat>
    decreases cs.len(),
{
    if cs.len() == 0 {
        None
    } else if cs[0].window == w {
        Some(0)
    } else {
        match first_with_window(cs.drop_first(), w) {
            Some(i) => Some(i + 1),
            None => None,
        }
    }
}

/// The index of the first client whose frame is `f`.
pub open spec fn first_with_frame(cs: Seq<Client>, f: u32) -> Option<nat>
    decreases cs.len(),
{
    if cs.len() == 0 {
        None
    } else if cs[0].frame == f {
        Some(0)
    } else {
        match first_with_frame(cs.drop_first(), f) {
            Some(i) => Some(i + 1),
            None => None,
        }
    }
}

proof fn lemma_first_with_window(cs: Seq<Client>, w: u32, j: int)
    requires
        0 <= j <= cs.len(),
        forall|i: int| 0 <= i < j ==> cs[i].window != w,
    ensures
        j < cs.len() && cs[j].window == w ==> first_with_window(cs, w) == Some(j as nat),
        j == cs.len() ==> first_with_window(cs, w) is None,
    decreases j,
{
    if j > 0 {
        lemma_first_with_window(cs.drop_first(), w, j - 1);
    }
}

proof fn lemma_first_with_frame(cs: Seq<Client>, f: u32, j: int)
    requires
        0 <= j <= cs.len(),
        forall|i: int| 0 <= i < j ==> cs[i].frame != f,
    ensures
        j < cs.len() && cs[j].frame == f ==> first_with_frame(cs, f) == Some(j as nat),
        j == cs.len() ==> first_with_frame(cs, f) is None,
    decreases j,
{
    if j > 0 {
        lemma_first_with_frame(cs.drop_first(), f, j - 1);
    }
}

/// No window is the window of two clients.
pub open spec fn windows_distinct(cs: Seq<Client>) -> bool {
    forall|i: int, j: int| 0 <= i < cs.len() && 0 <= j < cs.len() && i != j ==> #[trigger] cs[i].window != #[trigger] cs[j].window
}

/// The layout settings that a configuration gives in layout mode `mode`: the
/// gap, border width, master count and master share come from the
/// configuration.
pub open spec fn configured_layout(mode: LayoutMode, config: &Config) -> LayoutEngine {
    LayoutEngine {
        mode,
        master_count: config.master_count,
        master_ratio_bits: config.master_ratio_bits,
        gap: config.gap,
        border_width: config.border_width,
    }
}

/// A change of focus: the client that loses the focus (if any) and the one
/// that gains it, by index.
pub struct FocusChange {
    pub unfocused: Option<usize>,
    pub focused: usize,
}

/// The state of the window manager that is not the X connection: the managed
/// clients in order (the first is the master), the focused one, the layout,
/// the configuration and the height of the bar at the top of the screen.
pub struct WmState {
    clients: Vec<Client>,
    focus_index: Option<usize>,
    layout: LayoutEngine,
    config: Config,
    bar_top: u32,
}

impl WmState {
    pub closed spec fn clients_view(&self) -> Seq<Client> {
        self.clients@
    }

    pub closed spec fn focus(&self) -> Option<usize> {
        self.focus_index
    }

    pub closed spec fn layout_view(&self) -> LayoutEngine {
        self.layout
    }

    pub closed spec fn config_view(&self) -> &Config {
        &self.config
    }

    pub closed spec fn bar(&self) -> u32 {
        self.bar_top
    }

    /// Some client has the focus exactly when there are clients, the focused
    /// index is that of a client, and no window is managed twice.
    pub open spec fn wf(&self) -> bool {
        &&& (self.focus() is None <==> self.clients_view().len() == 0)
        &&& (self.focus() matches Some(i) ==> i < self.clients_view().len())
        &&& windows_distinct(self.clients_view())
    }

    /// No clients, no focus, no bar; the layout is the default one with the
    /// gap, border width, master count and master share of `config`.
    pub fn new(config: Config) -> (s: Self)
        ensures
            s.wf(),
            s.clients_view().len() == 0,
            s.focus() is None,
            s.bar() == 0,
            s.layout_view() == configured_layout(LayoutMode::Tiling, &config),
            s.config_view() == &config,
    {
        let mut layout = LayoutEngine::new();
        layout.gap = config.gap;
        layout.border_width = config.border_width;
        layout.master_count = config.master_count;
        layout.master_ratio_bits = config.master_ratio_bits;
        WmState { clients: Vec::new(), focus_index: None, layout, config, bar_top: 0 }
    }

    pub fn clients(&self) -> (cs: &Vec<Client>)
        ensures
            cs@ == self.clients_view(),
    {
        &self.clients
    }

    pub fn client(&self, idx: usize) -> (c: Option<&Client>)
        ensures
            idx < self.clients_view().len() ==> c == Some(&self.clients_view()[idx as int]),
            idx >= self.clients_view().len() ==> c is None,
    {
        if idx < self.clients.len() {
            Some(&self.clients[idx])
        } else {
            None
        }
    }

    pub fn focus_index(&self) -> (f: Option<usize>)
        ensures
            f == self.focus(),
    {
        self.focus_index
    }

    pub fn layout(&self) -> (l: &LayoutEngine)
        ensures
            *l == self.layout_view(),
    {
        &self.layout
    }

    pub fn config(&self) -> (c: &Config)
        ensures
            c == self.config_view(),
    {
        &self.config
    }

    pub fn bar_top(&self) -> (b: u32)
        ensures
            b == self.bar(),
    {
        self.bar_top
    }

    /// Records the height of the bar at the top of the screen.
    pub fn set_bar_top(&mut self, top: u32)
        requires
            old(self).wf(),
        ensures
            final(self).wf(),
            final(self).bar() == top,
            final(self).clients_view() == old(self).clients_view(),
            final(self).focus() == old(self).focus(),
            final(self).layout_view() == old(self).layout_view(),
            final(self).config_view() == old(self).config_view(),
    {
        self.bar_top = top;
    }

    /// The index of the first client of `window`.
    pub fn position_of_window(&self, window: u32) -> (p: Option<usize>)
        ensures
            match p {
                Some(j) => first_with_window(self.clients_view(), window) == Some(j as nat) && j < self.clients_view().len(),
                None => first_with_window(self.clients_view(), window) is None,
            },
    {
        let mut i: usize = 0;
        while i < self.clients.len()
            invariant
                0 <= i <= self.clients@.len(),
                forall|k: int| 0 <= k < i ==> self.clients@[k].window != window,
            decreases self.clients@.len() - i,
        {
            if self.clients[i].window == window {
                proof {
                    lemma_first_with_window(self.clients@, window, i as int);
                }
                return Some(i);
            }
            i = i + 1;
        }
        proof {
            lemma_first_with_window(self.clients@, window, i as int);
        }
        None
    }

    /// The index of the first client whose frame is `frame`.
    pub fn position_of_frame(&self, frame: u32) -> (p: Option<usize>)
        ensures
            match p {
                Some(j) => first_with_frame(self.clients_view(), frame) == Some(j as nat) && j < self.clients_view().len(),
                None => first_with_frame(self.clients_view(), frame) is None,
            },
    {
        let mut i: usize = 0;
        while i < self.clients.len()
            invariant
                0 <= i <= self.clients@.len(),
                forall|k: int| 0 <= k < i ==> self.clients@[k].frame != frame,
            decreases self.clients@.len() - i,
        {
            if self.clients[i].frame == frame {
                proof {
                    lemma_first_with_frame(self.clients@, frame, i as int);
                }
                return Some(i);
            }
            i = i + 1;
        }
        proof {
            lemma_first_with_frame(self.clients@, frame, i as int);
        }
        None
    }

    /// Whether some client is the client of `window`.
    pub fn is_managed(&self, window: u32) -> (b: bool)
        ensures
            b == exists|i: int| 0 <= i < self.clients_view().len() && self.clients_view()[i].window == window,
    {
        let mut i: usize = 0;
        while i < self.clients.len()
            invariant
                0 <= i <= self.clients@.len(),
                forall|k: int| 0 <= k < i ==> self.clients@[k].window != window,
            decreases self.clients@.len() - i,
        {
            if self.clients[i].window == window {
                assert(self.clients_view()[i as int].window == window);
                return true;
            }
            i = i + 1;
        }
        false
    }
}


/// The client that "focus next" moves to among `len` clients: the one after
/// the focused one, or the first after the last; none with fewer than two
/// clients.
pub open spec fn next_target(len: nat, focus: Option<usize>) -> Option<nat> {
    if len < 2 {
        None
    } else {
        match focus {
            Some(i) => if i + 1 < len { Some((i + 1) as nat) } else { Some(0) },
            None => Some(0),
        }
    }
}

/// The client that "focus previous" moves to among `len` clients: the one
/// before the focused one, or the last before the first; none with fewer
/// than two clients.
pub open spec fn prev_target(len: nat, focus: Option<usize>) -> Option<nat> {
    if len < 2 {
        None
    } else {
        match focus {
            Some(i) => if i == 0 { Some((len - 1) as nat) } else { Some((i - 1) as nat) },
            None => Some(0),
        }
    }
}

/// Among two or more clients, "focus previous" undoes "focus next" and
/// "focus next" undoes "focus previous".
pub proof fn lemma_prev_undoes_next(len: nat, i: usize)
    requires
        len >= 2,
        i < len,
        len <= usize::MAX,
    ensures
        next_target(len, Some(i)) matches Some(n) && prev_target(len, Some(n as usize)) == Some(i as nat),
        prev_target(len, Some(i)) matches Some(p) && next_target(len, Some(p as usize)) == Some(i as nat),
{
}

/// After `k` times "focus next" from client `i`, the focus is on client
/// `(i + k) mod len`.
pub proof fn lemma_next_steps(len: nat, i: usize, k: nat)
    requires
        len >= 2,
        i < len,
        len <= usize::MAX,
    ensures
        next_n(len, i as nat, k) == (i + k) % (len as int),
    decreases k,
{
    if k == 0 {
        vstd::arithmetic::div_mod::lemma_small_mod(i as nat, len);
    } else {
        lemma_next_steps(len, i, (k - 1) as nat);
        let p = next_n(len, i as nat, (k - 1) as nat);
        vstd::arithmetic::div_mod::lemma_mod_bound(i + k - 1, len as int);
        vstd::arithmetic::div_mod::lemma_add_mod_noop(i + k - 1, 1, len as int);
        vstd::arithmetic::div_mod::lemma_small_mod(1, len);
        if p + 1 < len {
            vstd::arithmetic::div_mod::lemma_small_mod((p + 1) as nat, len);
        } else {
            vstd::arithmetic::div_mod::lemma_mod_self_0(len as int);
        }
    }
}

/// Going "focus next" as many times as there are clients comes back to the
/// client that had the focus.
pub proof fn lemma_next_cycles(len: nat, i: usize)
    requires
        len >= 2,
        i < len,
        len <= usize::MAX,
    ensures
        next_n(len, i as nat, len) == i,
{
    lemma_next_steps(len, i, len);
    vstd::arithmetic::div_mod::lemma_mod_add_multiples_vanish(i as int, len as int);
    vstd::arithmetic::div_mod::lemma_small_mod(i as nat, len);
}

/// The focused index after `k` times "focus next" from `i`, among `len`
/// clients.
pub open spec fn next_n(len: nat, i: nat, k: nat) -> nat
    decreases k,
{
    if k == 0 {
        i
    } else {
        let p = next_n(len, i, (k - 1) as nat);
        match next_target(len, Some(p as usize)) {
            Some(t) => t,
            None => p,
        }
    }
}

/// The client with its floating flag flipped.
pub open spec fn toggled(c: Client) -> Client {
    Client { floating: !c.floating, ..c }
}

/// In tiling and monocle mode no client is placed over the bar: every
/// placement in the area that starts at the bar's bottom edge (as
/// `arrange_area` gives it) starts at or below it, when the gap is not
/// negative and the area is tall enough for the gaps around every visible
/// client.
pub proof fn lemma_clients_below_bar(s: &WmState, area: Area, master_w: int)
    requires
        area.y == s.bar(),
        s.layout_view().mode != LayoutMode::Floating,
        gap_as_i32(s.layout_view().gap) >= 0,
        area.height >= gap_as_i32(s.layout_view().gap) * (visible_of(s.clients_view()).len() + 1),
        s.layout_view().arrangement_fits(s.clients_view(), area, master_w),
    ensures
        forall|k: int| 0 <= k < s.layout_view().arrangement(s.clients_view(), area, master_w).len() ==>
            (#[trigger] s.layout_view().arrangement(s.clients_view(), area, master_w)[k]).y >= s.bar(),
{
    lemma_placements_start_in_area(s.layout_view(), s.clients_view(), area, master_w);
}

/// Toggling floating twice gives the client back as it was.
pub proof fn lemma_toggle_twice(c: Client)
    ensures
        toggled(toggled(c)) == c,
{
}

impl WmState {
    /// Nothing but the clients and the focus changed.
    pub open spec fn same_settings(&self, other: &WmState) -> bool {
        &&& self.layout_view() == other.layout_view()
        &&& self.config_view() == other.config_view()
        &&& self.bar() == other.bar()
    }

    /// Adds a newly managed client at the end; it takes the focus when no
    /// client had it, and then its index is returned.
    pub fn add_client(&mut self, client: Client) -> (focused: Option<usize>)
        requires
            old(self).wf(),
            old(self).clients_view().len() < usize::MAX,
            forall|i: int| 0 <= i < old(self).clients_view().len() ==> (#[trigger] old(self).clients_view()[i]).window != client.window,
        ensures
            final(self).wf(),
            final(self).same_settings(old(self)),
            final(self).clients_view() == old(self).clients_view().push(client),
            old(self).focus() is None ==> focused == Some(old(self).clients_view().len() as usize)
                && final(self).focus() == focused,
            old(self).focus() is Some ==> focused is None && final(self).focus() == old(self).focus(),
    {
        let idx = self.clients.len();
        self.clients.push(client);
        if self.focus_index.is_none() {
            self.focus_index = Some(idx);
            Some(idx)
        } else {
            None
        }
    }

    /// Stops managing the client at `idx` (its window went away): the others
    /// keep their order, and the focus stays at the same index, moved back to
    /// the last client if it is past the end. An index out of range changes
    /// nothing.
    pub fn remove_client(&mut self, idx: usize) -> (removed: Option<Client>)
        requires
            old(self).wf(),
        ensures
            final(self).wf(),
            final(self).same_settings(old(self)),
            idx >= old(self).clients_view().len() ==> removed is None
                && final(self).clients_view() == old(self).clients_view()
                && final(self).focus() == old(self).focus(),
            idx < old(self).clients_view().len() ==> {
                let rest = old(self).clients_view().remove(idx as int);
                &&& removed == Some(old(self).clients_view()[idx as int])
                &&& final(self).clients_view() == rest
                &&& final(self).focus() == (if rest.len() == 0 {
                    None
                } else {
                    match old(self).focus() {
                        Some(f) => if f >= rest.len() { Some((rest.len() - 1) as usize) } else { Some(f) },
                        None => Some(0usize),
                    }
                })
            },
    {
        if idx >= self.clients.len() {
            return None;
        }
        let c = self.clients.remove(idx);
        if self.clients.len() == 0 {
            self.focus_index = None;
        } else {
            let len = self.clients.len();
            let new_focus = match self.focus_index {
                Some(f) => if f >= len { len - 1 } else { f },
                None => 0,
            };
            self.focus_index = Some(new_focus);
        }
        Some(c)
    }

    /// Removes the client at `idx` whose window could not be closed because
    /// it is already gone: the focus goes to the first client, if any.
    pub fn discard_client(&mut self, idx: usize) -> (removed: Client)
        requires
            old(self).wf(),
            idx < old(self).clients_view().len(),
        ensures
            final(self).wf(),
            final(self).same_settings(old(self)),
            removed == old(self).clients_view()[idx as int],
            final(self).clients_view() == old(self).clients_view().remove(idx as int),
            final(self).focus() == (if final(self).clients_view().len() == 0 { None } else { Some(0usize) }),
    {
        let c = self.clients.remove(idx);
        if self.clients.len() == 0 {
            self.focus_index = None;
        } else {
            self.focus_index = Some(0);
        }
        c
    }

    /// Gives the focus to the client at `idx`; the change says which client
    /// loses it. An index out of range changes nothing.
    pub fn set_focus(&mut self, idx: usize) -> (change: Option<FocusChange>)
        requires
            old(self).wf(),
        ensures
            final(self).wf(),
            final(self).same_settings(old(self)),
            final(self).clients_view() == old(self).clients_view(),
            idx >= old(self).clients_view().len() ==> change is None && final(self).focus() == old(self).focus(),
            idx < old(self).clients_view().len() ==> final(self).focus() == Some(idx)
                && change == Some(FocusChange { unfocused: old(self).focus(), focused: idx }),
    {
        if idx >= self.clients.len() {
            return None;
        }
        let old_focus = self.focus_index;
        self.focus_index = Some(idx);
        Some(FocusChange { unfocused: old_focus, focused: idx })
    }

    /// Moves the focus to the next client, round to the first after the last.
    pub fn focus_next(&mut self) -> (change: Option<FocusChange>)
        requires
            old(self).wf(),
        ensures
            final(self).wf(),
            final(self).same_settings(old(self)),
            final(self).clients_view() == old(self).clients_view(),
            match next_target(old(self).clients_view().len(), old(self).focus()) {
                None => change is None && final(self).focus() == old(self).focus(),
                Some(t) => final(self).focus() == Some(t as usize)
                    && change == Some(FocusChange { unfocused: old(self).focus(), focused: t as usize }),
            },
    {
        if self.clients.len() < 2 {
            return None;
        }
        let next = match self.focus_index {
            Some(i) => if i + 1 < self.clients.len() { i + 1 } else { 0 },
            None => 0,
        };
        self.set_focus(next)
    }

    /// Moves the focus to the previous client, round to the last before the
    /// first.
    pub fn focus_prev(&mut self) -> (change: Option<FocusChange>)
        requires
            old(self).wf(),
        ensures
            final(self).wf(),
            final(self).same_settings(old(self)),
            final(self).clients_view() == old(self).clients_view(),
            match prev_target(old(self).clients_view().len(), old(self).focus()) {
                None => change is None && final(self).focus() == old(self).focus(),
                Some(t) => final(self).focus() == Some(t as usize)
                    && change == Some(FocusChange { unfocused: old(self).focus(), focused: t as usize }),
            },
    {
        if self.clients.len() < 2 {
            return None;
        }
        let prev = match self.focus_index {
            Some(i) => if i == 0 { self.clients.len() - 1 } else { i - 1 },
            None => 0,
        };
        self.set_focus(prev)
    }

    /// Flips whether the focused client floats; tells whether there was one.
    pub fn toggle_floating(&mut self) -> (changed: bool)
        requires
            old(self).wf(),
        ensures
            final(self).wf(),
            final(self).same_settings(old(self)),
            final(self).focus() == old(self).focus(),
            changed == old(self).focus() is Some,
            match old(self).focus() {
                Some(i) => final(self).clients_view() == old(self).clients_view().update(
                    i as int,
                    toggled(old(self).clients_view()[i as int]),
                ),
                None => final(self).clients_view() == old(self).clients_view(),
            },
    {
        match self.focus_index {
            Some(idx) => {
                if idx < self.clients.len() {
                    let mut c = self.clients[idx];
                    c.floating = !c.floating;
                    self.clients.set(idx, c);
                    true
                } else {
                    false
                }
            },
            None => false,
        }
    }

    /// Swaps the focused client with the master (the first client), and
    /// keeps the focus on it; nothing happens when it is the master already or
    /// there are fewer than two clients. Tells whether the clients changed.
    pub fn swap_with_master(&mut self) -> (changed: bool)
        requires
            old(self).wf(),
        ensures
            final(self).wf(),
            final(self).same_settings(old(self)),
            ({
                let cs = old(self).clients_view();
                let f = match old(self).focus() { Some(i) => i as int, None => 0 };
                if cs.len() < 2 || f == 0 {
                    !changed && final(self).clients_view() == cs && final(self).focus() == old(self).focus()
                } else {
                    &&& changed
                    &&& final(self).clients_view() == cs.update(0, cs[f]).update(f, cs[0])
                    &&& final(self).focus() == Some(0usize)
                }
            }),
    {
        if self.clients.len() < 2 {
            return false;
        }
        let focused = match self.focus_index {
            Some(i) => i,
            None => 0,
        };
        if focused == 0 {
            return false;
        }
        let first = self.clients[0];
        let other = self.clients[focused];
        self.clients.set(0, other);
        self.clients.set(focused, first);
        self.focus_index = Some(0);
        true
    }

    /// Switches the layout mode.
    pub fn set_layout(&mut self, mode: LayoutMode)
        requires
            old(self).wf(),
        ensures
            final(self).wf(),
            final(self).clients_view() == old(self).clients_view(),
            final(self).focus() == old(self).focus(),
            final(self).config_view() == old(self).config_view(),
            final(self).bar() == old(self).bar(),
            final(self).layout_view() == (LayoutEngine { mode, ..old(self).layout_view() }),
    {
        self.layout.mode = mode;
    }

    /// Takes a reloaded configuration: its gap, border width, master count and
    /// master share go into the layout, whose mode stays.
    pub fn apply_config(&mut self, config: Config)
        requires
            old(self).wf(),
        ensures
            final(self).wf(),
            final(self).clients_view() == old(self).clients_view(),
            final(self).focus() == old(self).focus(),
            final(self).bar() == old(self).bar(),
            final(self).config_view() == &config,
            final(self).layout_view() == configured_layout(old(self).layout_view().mode, &config),
    {
        self.config = config;
        self.layout.gap = self.config.gap;
        self.layout.border_width = self.config.border_width;
        self.layout.master_count = self.config.master_count;
        self.layout.master_ratio_bits = self.config.master_ratio_bits;
    }

    /// The windows of the clients, in order (`_NET_CLIENT_LIST`).
    pub fn client_windows(&self) -> (ws: Vec<u32>)
        ensures
            ws@ == self.clients_view().map_values(|c: Client| c.window),
    {
        let mut ws: Vec<u32> = Vec::new();
        let mut i: usize = 0;
        while i < self.clients.len()
            invariant
                0 <= i <= self.clients@.len(),
                ws@ == self.clients@.take(i as int).map_values(|c: Client| c.window),
            decreases self.clients@.len() - i,
        {
            ws.push(self.clients[i].window);
            assert(self.clients@.take(i as int + 1).map_values(|c: Client| c.window)
                =~= self.clients@.take(i as int).map_values(|c: Client| c.window).push(self.clients@[i as int].window));
            i = i + 1;
        }
        assert(self.clients@.take(i as int) =~= self.clients@);
        ws
    }

    /// The windows of the clients, last first (`_NET_CLIENT_LIST_STACKING`).
    pub fn stacking_windows(&self) -> (ws: Vec<u32>)
        ensures
            ws@ == self.clients_view().map_values(|c: Client| c.window).reverse(),
    {
        let mut ws: Vec<u32> = Vec::new();
        let n = self.clients.len();
        let mut i: usize = n;
        while i > 0
            invariant
                n == self.clients@.len(),
                0 <= i <= n,
                ws@.len() == n - i,
                forall|k: int| 0 <= k < n - i ==> #[trigger] ws@[k] == self.clients@[n - 1 - k].window,
            decreases i,
        {
            i = i - 1;
            ws.push(self.clients[i].window);
        }
        assert(ws@ =~= self.clients_view().map_values(|c: Client| c.window).reverse());
        ws
    }
}


/// A window's request to be configured, as the server forwards it: the
/// window, which of the values it sets (`value_mask`), and the values.
#[derive(Clone, Copy, Debug, PartialEq, Eq, Structural)]
pub struct ConfigureRequest {
    pub window: u32,
    pub value_mask: u16,
    pub x: i16,
    pub y: i16,
    pub width: u16,
    pub height: u16,
    pub border_width: u16,
    pub sibling: u32,
    pub stack_mode: u32,
}

/// The values to configure a window with; `None` leaves one as it is.
#[derive(Clone, Copy, Debug, PartialEq, Eq, Structural)]
pub struct WindowChanges {
    pub x: Option<i32>,
    pub y: Option<i32>,
    pub width: Option<u32>,
    pub height: Option<u32>,
    pub border_width: Option<u32>,
    pub sibling: Option<u32>,
    pub stack_mode: Option<u32>,
}

/// The value-mask bits of a configure request.
pub const CONFIG_X: u16 = 1;
pub const CONFIG_Y: u16 = 2;
pub const CONFIG_WIDTH: u16 = 4;
pub const CONFIG_HEIGHT: u16 = 8;
pub const CONFIG_BORDER_WIDTH: u16 = 16;

pub open spec fn if_set<T>(mask: u16, bit: u16, v: T) -> Option<T> {
    if mask & bit != 0 {
        Some(v)
    } else {
        None
    }
}

/// What the window manager does with a configure request: a floating client
/// gets the values it asked for, a tiled client gets nothing (the layout
/// decides), and a window that is not managed gets all its values, its
/// sibling when it named one, and its stacking mode.
pub open spec fn configure_response(clients: Seq<Client>, req: ConfigureRequest) -> Option<WindowChanges> {
    match first_with_window(clients, req.window) {
        Some(i) => if clients[i as int].floating {
            Some(WindowChanges {
                x: if_set(req.value_mask, CONFIG_X, req.x as i32),
                y: if_set(req.value_mask, CONFIG_Y, req.y as i32),
                width: if_set(req.value_mask, CONFIG_WIDTH, req.width as u32),
                height: if_set(req.value_mask, CONFIG_HEIGHT, req.height as u32),
                border_width: if_set(req.value_mask, CONFIG_BORDER_WIDTH, req.border_width as u32),
                sibling: None,
                stack_mode: None,
            })
        } else {
            None
        },
        None => Some(WindowChanges {
            x: Some(req.x as i32),
            y: Some(req.y as i32),
            width: Some(req.width as u32),
            height: Some(req.height as u32),
            border_width: Some(req.border_width as u32),
            sibling: if req.sibling != 0 { Some(req.sibling) } else { None },
            stack_mode: Some(req.stack_mode),
        }),
    }
}

/// A managed window's configure request is answered by how its client is
/// laid out: a floating client gets exactly the values whose bits the request's
/// value mask sets (x 1, y 2, width 4, height 8, border width 16, as the X
/// protocol numbers them), each as it asked, and neither sibling nor stacking
/// mode; a tiled client gets nothing, as the layout decides its geometry.
pub proof fn lemma_managed_configure(s: &WmState, req: ConfigureRequest, i: int)
    requires
        s.wf(),
        0 <= i < s.clients_view().len(),
        s.clients_view()[i].window == req.window,
    ensures
        s.clients_view()[i].floating ==> (configure_response(s.clients_view(), req) == Some(WindowChanges {
            x: if req.value_mask & 1 != 0 { Some(req.x as i32) } else { None },
            y: if req.value_mask & 2 != 0 { Some(req.y as i32) } else { None },
            width: if req.value_mask & 4 != 0 { Some(req.width as u32) } else { None },
            height: if req.value_mask & 8 != 0 { Some(req.height as u32) } else { None },
            border_width: if req.value_mask & 16 != 0 { Some(req.border_width as u32) } else { None },
            sibling: None,
            stack_mode: None,
        })),
        !s.clients_view()[i].floating ==> configure_response(s.clients_view(), req) is None,
{
    let cs = s.clients_view();
    assert forall|k: int| 0 <= k < i implies cs[k].window != req.window by {
        assert(cs[k].window != cs[i].window);
    }
    lemma_first_with_window(cs, req.window, i);
}

/// A window that no client holds gets every value of its configure request,
/// its stacking mode, and its sibling when it named one.
pub proof fn lemma_unmanaged_configure(s: &WmState, req: ConfigureRequest)
    requires
        forall|i: int| 0 <= i < s.clients_view().len() ==> s.clients_view()[i].window != req.window,
    ensures
        (configure_response(s.clients_view(), req) == Some(WindowChanges {
            x: Some(req.x as i32),
            y: Some(req.y as i32),
            width: Some(req.width as u32),
            height: Some(req.height as u32),
            border_width: Some(req.border_width as u32),
            sibling: if req.sibling == 0 { None } else { Some(req.sibling) },
            stack_mode: Some(req.stack_mode),
        })),
{
    lemma_first_with_window(s.clients_view(), req.window, s.clients_view().len() as int);
}

fn opt_if_set<T>(mask: u16, bit: u16, v: T) -> (r: Option<T>)
    ensures
        r == if_set(mask, bit, v),
{
    if mask & bit != 0 {
        Some(v)
    } else {
        None
    }
}

impl WmState {
    /// How to answer a window's request to be configured.
    pub fn configure_request(&self, req: &ConfigureRequest) -> (changes: Option<WindowChanges>)
        ensures
            changes == configure_response(self.clients_view(), *req),
    {
        match self.position_of_window(req.window) {
            Some(i) => {
                if self.clients[i].floating {
                    let vm = req.value_mask;
                    Some(WindowChanges {
                        x: opt_if_set(vm, CONFIG_X, req.x as i32),
                        y: opt_if_set(vm, CONFIG_Y, req.y as i32),
                        width: opt_if_set(vm, CONFIG_WIDTH, req.width as u32),
                        height: opt_if_set(vm, CONFIG_HEIGHT, req.height as u32),
                        border_width: opt_if_set(vm, CONFIG_BORDER_WIDTH, req.border_width as u32),
                        sibling: None,
                        stack_mode: None,
                    })
                } else {
                    None
                }
            },
            None => Some(WindowChanges {
                x: Some(req.x as i32),
                y: Some(req.y as i32),
                width: Some(req.width as u32),
                height: Some(req.height as u32),
                border_width: Some(req.border_width as u32),
                sibling: if req.sibling != 0 { Some(req.sibling) } else { None },
                stack_mode: Some(req.stack_mode),
            }),
        }
    }

    /// Marks the client at `idx` as a floating dialog when its window types
    /// (format and items) include the dialog type.
    pub fn apply_window_types(&mut self, idx: usize, format: u8, types: &Vec<u32>, dialog_atom: u32)
        requires
            old(self).wf(),
            idx < old(self).clients_view().len(),
        ensures
            final(self).wf(),
            final(self).same_settings(old(self)),
            final(self).focus() == old(self).focus(),
            final(self).clients_view() == (if lists_atom(format, types@, dialog_atom) {
                old(self).clients_view().update(
                    idx as int,
                    Client { is_dialog: true, floating: true, ..old(self).clients_view()[idx as int] },
                )
            } else {
                old(self).clients_view()
            }),
    {
        let mut c = self.clients[idx];
        c.apply_window_types(format, types, dialog_atom);
        self.clients.set(idx, c);
        proof {
            if !lists_atom(format, types@, dialog_atom) {
                assert(self.clients@ =~= old(self).clients@);
            }
        }
    }

    /// The part of a `screen_w` by `screen_h` screen that the clients share:
    /// all of it but the bar at the top.
    pub fn arrange_area(&self, screen_w: i32, screen_h: i32) -> (a: Area)
        requires
            in_i32(screen_h - gap_as_i32(self.bar())),
        ensures
            a == (Area {
                x: 0,
                y: gap_as_i32(self.bar()) as i32,
                width: screen_w,
                height: (screen_h - gap_as_i32(self.bar())) as i32,
            }),
    {
        let top: i32 = if self.bar_top <= 0x7fff_ffff {
            self.bar_top as i32
        } else {
            (self.bar_top as i64 - 0x1_0000_0000i64) as i32
        };
        Area { x: 0, y: top, width: screen_w, height: screen_h - top }
    }

    /// Where the clients go in `area` under the current layout (see
    /// `LayoutEngine::arrange`).
    pub fn placements(&self, area: &Area, master_w: i32) -> (ps: Vec<Placement>)
        requires
            self.layout_view().arrangement_fits(self.clients_view(), *area, master_w as int),
        ensures
            ps@ == self.layout_view().arrangement(self.clients_view(), *area, master_w as int),
    {
        self.layout.arrange(&self.clients, area, self.focus_index, master_w)
    }
}


/// What is left to do, outside the state, after a key binding's action.
pub enum ActionEffect {
    /// Nothing.
    Nothing,
    /// The focus moved: show it on the windows.
    Refocus(FocusChange),
    /// The clients or the layout changed: lay the clients out again.
    Arrange,
    /// Close the focused client's window (or discard it if it is gone).
    CloseFocused,
    /// Run the command.
    Spawn(String),
    /// Read the configuration again.
    ReloadConfig,
    /// Stop the window manager.
    Quit,
}

/// The effect of moving the focus to `target`, if there is one.
pub open spec fn refocus_effect(old_focus: Option<usize>, target: Option<nat>) -> ActionEffect {
    match target {
        Some(t) => ActionEffect::Refocus(FocusChange { unfocused: old_focus, focused: t as usize }),
        None => ActionEffect::Nothing,
    }
}

impl WmState {
    /// Performs the part of a key binding's action that concerns the state
    /// (moving the focus, swapping with the master, toggling floating,
    /// switching the layout) and says what is left to do.
    pub fn execute_action(&mut self, action: &BindingAction) -> (e: ActionEffect)
        requires
            old(self).wf(),
        ensures
            final(self).wf(),
            final(self).config_view() == old(self).config_view(),
            final(self).bar() == old(self).bar(),
            ({
                let cs = old(self).clients_view();
                let f = old(self).focus();
                match action@ {
                    ActionView::FocusNext => {
                        &&& final(self).clients_view() == cs
                        &&& final(self).layout_view() == old(self).layout_view()
                        &&& e == refocus_effect(f, next_target(cs.len(), f))
                        &&& final(self).focus() == (match next_target(cs.len(), f) {
                            Some(t) => Some(t as usize),
                            None => f,
                        })
                    },
                    ActionView::FocusPrev => {
                        &&& final(self).clients_view() == cs
                        &&& final(self).layout_view() == old(self).layout_view()
                        &&& e == refocus_effect(f, prev_target(cs.len(), f))
                        &&& final(self).focus() == (match prev_target(cs.len(), f) {
                            Some(t) => Some(t as usize),
                            None => f,
                        })
                    },
                    ActionView::SwapWithMaster | ActionView::MoveToMaster => {
                        let m = match f { Some(i) => i as int, None => 0 };
                        &&& final(self).layout_view() == old(self).layout_view()
                        &&& if cs.len() < 2 || m == 0 {
                            e == ActionEffect::Nothing && final(self).clients_view() == cs && final(self).focus() == f
                        } else {
                            &&& e == ActionEffect::Arrange
                            &&& final(self).clients_view() == cs.update(0, cs[m]).update(m, cs[0])
                            &&& final(self).focus() == Some(0usize)
                        }
                    },
                    ActionView::ToggleFloating => {
                        &&& final(self).layout_view() == old(self).layout_view()
                        &&& final(self).focus() == f
                        &&& match f {
                            Some(i) => e == ActionEffect::Arrange
                                && final(self).clients_view() == cs.update(i as int, toggled(cs[i as int])),
                            None => e == ActionEffect::Nothing && final(self).clients_view() == cs,
                        }
                    },
                    ActionView::LayoutTiling => final(self).clients_view() == cs && final(self).focus() == f
                        && final(self).layout_view() == (LayoutEngine { mode: LayoutMode::Tiling, ..old(self).layout_view() })
                        && e == ActionEffect::Arrange,
                    ActionView::LayoutFloating => final(self).clients_view() == cs && final(self).focus() == f
                        && final(self).layout_view() == (LayoutEngine { mode: LayoutMode::Floating, ..old(self).layout_view() })
                        && e == ActionEffect::Arrange,
                    ActionView::LayoutMonocle => final(self).clients_view() == cs && final(self).focus() == f
                        && final(self).layout_view() == (LayoutEngine { mode: LayoutMode::Monocle, ..old(self).layout_view() })
                        && e == ActionEffect::Arrange,
                    ActionView::CloseWindow => final(self).clients_view() == cs && final(self).focus() == f
                        && final(self).layout_view() == old(self).layout_view() && e == ActionEffect::CloseFocused,
                    ActionView::Spawn(cmd) => final(self).clients_view() == cs && final(self).focus() == f
                        && final(self).layout_view() == old(self).layout_view()
                        && (e matches ActionEffect::Spawn(s) && s@ == cmd),
                    ActionView::ReloadConfig => final(self).clients_view() == cs && final(self).focus() == f
                        && final(self).layout_view() == old(self).layout_view() && e == ActionEffect::ReloadConfig,
                    ActionView::Quit => final(self).clients_view() == cs && final(self).focus() == f
                        && final(self).layout_view() == old(self).layout_view() && e == ActionEffect::Quit,
                }
            }),
    {
        match action {
            BindingAction::FocusNext => match self.focus_next() {
                Some(c) => ActionEffect::Refocus(c),
                None => ActionEffect::Nothing,
            },
            BindingAction::FocusPrev => match self.focus_prev() {
                Some(c) => ActionEffect::Refocus(c),
                None => ActionEffect::Nothing,
            },
            BindingAction::SwapWithMaster | BindingAction::MoveToMaster => {
                if self.swap_with_master() {
                    ActionEffect::Arrange
                } else {
                    ActionEffect::Nothing
                }
            },
            BindingAction::ToggleFloating => {
                if self.toggle_floating() {
                    ActionEffect::Arrange
                } else {
                    ActionEffect::Nothing
                }
            },
            BindingAction::CloseWindow => ActionEffect::CloseFocused,
            BindingAction::LayoutTiling => {
                self.set_layout(LayoutMode::Tiling);
                ActionEffect::Arrange
            },
            BindingAction::LayoutFloating => {
                self.set_layout(LayoutMode::Floating);
                ActionEffect::Arrange
            },
            BindingAction::LayoutMonocle => {
                self.set_layout(LayoutMode::Monocle);
                ActionEffect::Arrange
            },
            BindingAction::Spawn(cmd) => ActionEffect::Spawn(cmd.clone()),
            BindingAction::ReloadConfig => ActionEffect::ReloadConfig,
            BindingAction::Quit => ActionEffect::Quit,
        }
    }
}

} // verus!
