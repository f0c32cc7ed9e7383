use vstd::prelude::*;

verus! {

/// How the clients of the screen are placed.
#[derive(Clone, Copy, Debug, PartialEq, Eq, Structural)]
pub enum LayoutMode {
    Tiling,
    Floating,
    Monocle,
}

/// A managed top-level window and the frame the window manager wrapped it in.
#[derive(Clone, Copy, Debug, PartialEq, Eq, Structural)]
pub struct Client {
    pub window: u32,
    pub frame: u32,
    pub x: i32,
    pub y: i32,
    pub width: u32,
    pub height: u32,
    pub floating: bool,
    pub fullscreen: bool,
    pub urgent: bool,
    pub is_dialog: bool,
}

/// Whether a property value of format `format` with the items `items`
/// lists `atom`. Only format-32 values list atoms.
pub open spec fn lists_atom(format: u8, items: Seq<u32>, atom: u32) -> bool {
    format == 32 && items.contains(atom)
}

fn contains_u32(items: &Vec<u32>, x: u32) -> (b: bool)
    ensures
        b == items@.contains(x),
{
    let mut i: usize = 0;
    while i < items.len()
        invariant
            0 <= i <= items@.len(),
            forall|k: int| 0 <= k < i ==> items@[k] != x,
        decreases items@.len() - i,
    {
        if items[i] == x {
            assert(items@[i as int] == x);
            return true;
        }
        i = i + 1;
    }
    false
}

/// Whether the `WM_PROTOCOLS` of a window (format and items) include
/// `WM_DELETE_WINDOW`: then the window is asked to close, else its client
/// is killed.
pub fn supports_delete(format: u8, protocols: &Vec<u32>, wm_delete_window: u32) -> (b: bool)
    ensures
        b == lists_atom(format, protocols@, wm_delete_window),
{
    format == 32 && contains_u32(protocols, wm_delete_window)
}

/// Whether the window types of a window (format and items) include the
/// dock type: such a window (a bar) is shown but not managed.
pub fn is_dock(format: u8, types: &Vec<u32>, dock_atom: u32) -> (b: bool)
    ensures
        b == lists_atom(format, types@, dock_atom),
{
    format == 32 && contains_u32(types, dock_atom)
}

/// The top strut that a `_NET_WM_STRUT_PARTIAL` value (format and items)
/// reserves, when it reserves a positive one.
pub open spec fn strut_top_of(format: u8, items: Seq<u32>) -> Option<u32> {
    if format == 32 && items.len() >= 1 && items[2] > 0 {
        Some(items[2])
    } else {
        None
    }
}

/// The space a bar reserves at the top of the screen, if any. A value with
/// fewer than four items does not fit the property's layout.
pub fn strut_top(format: u8, items: &Vec<u32>) -> (top: Option<u32>)
    requires
        format == 32 && items@.len() >= 1 ==> items@.len() >= 4,
    ensures
        top == strut_top_of(format, items@),
{
    if format == 32 && items.len() >= 1 {
        let top = items[2];
        if top > 0 {
            return Some(top);
        }
    }
    None
}

/// Whether a window found at start-up is one to manage, as far as its
/// attributes tell: it is mapped and does not place itself
/// (override-redirect). A candidate that is a dock (see `is_dock`) is left
/// alone all the same.
pub fn existing_window_candidate(override_redirect: bool, unmapped: bool) -> (b: bool)
    ensures
        b == (!override_redirect && !unmapped),
{
    !override_redirect && !unmapped
}

/// Whether a button press on a client's frame toggles floating: the first
/// button with the window manager's modifier held.
pub fn is_float_toggle_click(button: u8, state: u16, modifiers: u16) -> (b: bool)
    ensures
        b == (button == 1 && state & modifiers != 0),
{
    button == 1 && (state & modifiers) != 0
}

/// The geometry of a window or frame to configure.
#[derive(Clone, Copy, Debug, PartialEq, Eq, Structural)]
pub struct Geometry {
    pub x: i32,
    pub y: i32,
    pub width: u32,
    pub height: u32,
}

/// The sizes of a placement fit in `u32` once the border is added on both
/// sides.
pub open spec fn resize_fits(w: u32, h: u32, bw: u32) -> bool {
    w + 2 * bw <= u32::MAX && h + 2 * bw <= u32::MAX
}

impl Client {
    /// A client for `window` inside `frame`, at the origin, 800 by 600, tiled.
    pub fn new(window: u32, frame: u32) -> (c: Self)
        ensures
            c == (Client {
                window,
                frame,
                x: 0,
                y: 0,
                width: 800,
                height: 600,
                floating: false,
                fullscreen: false,
                urgent: false,
                is_dialog: false,
            }),
    {
        Client {
            window,
            frame,
            x: 0,
            y: 0,
            width: 800,
            height: 600,
            floating: false,
            fullscreen: false,
            urgent: false,
            is_dialog: false,
        }
    }

    /// Marks the client as a floating dialog when its window types (format
    /// and items) include the dialog type.
    pub fn apply_window_types(&mut self, format: u8, types: &Vec<u32>, dialog_atom: u32)
        ensures
            lists_atom(format, types@, dialog_atom) ==> *final(self) == (Client { is_dialog: true, floating: true, ..*old(self) }),
            !lists_atom(format, types@, dialog_atom) ==> *final(self) == *old(self),
    {
        if format == 32 && contains_u32(types, dialog_atom) {
            self.is_dialog = true;
            self.floating = true;
        }
    }

    /// Where the frame and the window inside it go when the client is placed
    /// at (`x`, `y`) with size `w` by `h` and border width `bw`: the frame
    /// there, the border larger on each side; the window inside it, at the
    /// border's offset, `w` by `h`.
    pub fn resize_geometry(x: i32, y: i32, w: u32, h: u32, bw: u32) -> (g: (Geometry, Geometry))
        requires
            resize_fits(w, h, bw),
        ensures
            g.0 == (Geometry { x, y, width: (w + 2 * bw) as u32, height: (h + 2 * bw) as u32 }),
            g.1 == (Geometry { x: bw as i32, y: bw as i32, width: w, height: h }),
    {
        let frame = Geometry { x, y, width: w + bw * 2, height: h + bw * 2 };
        let inner = Geometry { x: bw as i32, y: bw as i32, width: w, height: h };
        (frame, inner)
    }
}

} // verus!
