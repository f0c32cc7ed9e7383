use vstd::prelude::*;
use vstd::string::StrSliceExecFns;
use vstd::string::StringSliceAdditionalSpecFns;
use vstd::utf8::*;
use vstd::arithmetic::power2::{lemma2_to64, pow2};
use crate::text::{hex_digit, hex_digits_value, leading_hashes, parse_radix16, parse_radix16_exec, skip_leading_hashes, str_eq};

verus! {

/// The value of a color written `#rrggbb` (any number of leading `#`), as
/// `0xrrggbb`; a component that is not a hexadecimal number counts as 0, and
/// text that is not six bytes long after the `#`s gives `0x222222`.
pub open spec fn color_value(b: Seq<u8>) -> u32 {
    let t = b.skip(leading_hashes(b) as int);
    if t.len() == 6 {
        (color_component(t.subrange(0, 2)) * 0x10000 + color_component(t.subrange(2, 4)) * 0x100
            + color_component(t.subrange(4, 6))) as u32
    } else {
        0x222222
    }
}

/// A two-byte hexadecimal color component, or 0 if it is not one.
pub open spec fn color_component(s: Seq<u8>) -> nat {
    match parse_radix16(s, 255) {
        Some(v) => v,
        None => 0,
    }
}

/// The color's text can be cut into its three components: when it is six
/// bytes long after the `#`s, bytes 2 and 4 start characters.
pub open spec fn color_splits(b: Seq<u8>) -> bool {
    let t = b.skip(leading_hashes(b) as int);
    t.len() == 6 ==> is_char_boundary(t, 2) && is_char_boundary(t, 4)
}

/// The lowercase hexadecimal digit for `d` < 16.
pub open spec fn hex_char(d: nat) -> u8 {
    if d < 10 {
        (0x30 + d) as u8
    } else {
        (0x61 + d - 10) as u8
    }
}

/// `v` as two lowercase hexadecimal digits.
pub open spec fn hex2(v: u8) -> Seq<u8> {
    seq![hex_char((v / 16) as nat), hex_char((v % 16) as nat)]
}

/// The uppercase hexadecimal digit for `d` < 16.
pub open spec fn hex_char_upper(d: nat) -> u8 {
    if d < 10 {
        (0x30 + d) as u8
    } else {
        (0x41 + d - 10) as u8
    }
}

/// `v` as two uppercase hexadecimal digits.
pub open spec fn hex2_upper(v: u8) -> Seq<u8> {
    seq![hex_char_upper((v / 16) as nat), hex_char_upper((v % 16) as nat)]
}

/// `RRGGBB`, in uppercase and without `#`, for the components `r`, `g`, `b`.
pub open spec fn color_text_upper(r: u8, g: u8, b: u8) -> Seq<u8> {
    hex2_upper(r) + hex2_upper(g) + hex2_upper(b)
}

proof fn lemma_hex2_upper_component(v: u8)
    ensures
        color_component(hex2_upper(v)) == v,
{
    let s = hex2_upper(v);
    assert(s.drop_last().drop_last() =~= Seq::<u8>::empty());
    assert(hex_digits_value(s.drop_last().drop_last()) == Some(0nat));
    assert(s.drop_last().last() == s[0]);
    assert(s.drop_last().len() == 1);
    assert(hex_digit(s[0]) == Some((v / 16) as nat));
    assert(hex_digit(s[1]) == Some((v % 16) as nat));
    assert(hex_digits_value(s.drop_last()) == Some((v / 16) as nat));
    assert(hex_digits_value(s) == Some(16 * (v / 16) as nat + (v % 16) as nat));
}

/// A color written as `RRGGBB` in uppercase hexadecimal, without `#`, reads
/// back as the components it was written from.
pub proof fn lemma_color_round_trip_upper(r: u8, g: u8, b: u8)
    ensures
        color_value(color_text_upper(r, g, b)) == r * 0x10000 + g * 0x100 + b,
{
    let t = color_text_upper(r, g, b);
    assert(t[0] == hex_char_upper((r / 16) as nat));
    assert(leading_hashes(t) == 0);
    assert(t.skip(0) =~= t);
    assert(t.subrange(0, 2) =~= hex2_upper(r));
    assert(t.subrange(2, 4) =~= hex2_upper(g));
    assert(t.subrange(4, 6) =~= hex2_upper(b));
    lemma_hex2_upper_component(r);
    lemma_hex2_upper_component(g);
    lemma_hex2_upper_component(b);
}

/// `#rrggbb` for the components `r`, `g`, `b`.
pub open spec fn color_text(r: u8, g: u8, b: u8) -> Seq<u8> {
    seq![0x23u8] + hex2(r) + hex2(g) + hex2(b)
}

proof fn lemma_hex2_component(v: u8)
    ensures
        color_component(hex2(v)) == v,
{
    let s = hex2(v);
    assert(s.drop_last().drop_last() =~= Seq::<u8>::empty());
    assert(hex_digit(s[0]) == Some((v / 16) as nat));
    assert(hex_digit(s[1]) == Some((v % 16) as nat));
    assert(hex_digits_value(s.drop_last().drop_last()) == Some(0nat));
    assert(s.drop_last().last() == s[0]);
    assert(s.drop_last().len() == 1);
    assert(hex_digits_value(s.drop_last()) == Some((v / 16) as nat));
    assert(hex_digits_value(s) == Some(16 * (v / 16) as nat + (v % 16) as nat));
}

/// A color written as `#rrggbb` in lowercase hexadecimal reads back as the
/// components it was written from.
pub proof fn lemma_color_round_trip(r: u8, g: u8, b: u8)
    ensures
        color_value(color_text(r, g, b)) == r * 0x10000 + g * 0x100 + b,
{
    let t = color_text(r, g, b);
    assert(t.drop_first() =~= hex2(r) + hex2(g) + hex2(b));
    assert(leading_hashes(t.drop_first()) == 0);
    assert(leading_hashes(t) == 1);
    let rest = t.skip(1);
    assert(rest.subrange(0, 2) =~= hex2(r));
    assert(rest.subrange(2, 4) =~= hex2(g));
    assert(rest.subrange(4, 6) =~= hex2(b));
    lemma_hex2_component(r);
    lemma_hex2_component(g);
    lemma_hex2_component(b);
}

/// Parses a color written `#rrggbb` into `0xrrggbb`.
pub fn parse_color(color: &str) -> (r: u32)
    requires
        color_splits(color.spec_bytes()),
    ensures
        r == color_value(color.spec_bytes()),
        r <= 0xffffff,
{
    let b = color.as_bytes();
    let k = skip_leading_hashes(b);
    let ghost t = b@.skip(k as int);
    if b.len() - k == 6 {
        assert(b@.subrange(k as int, k + 2) =~= t.subrange(0, 2));
        assert(b@.subrange(k + 2, k + 4) =~= t.subrange(2, 4));
        assert(b@.subrange(k + 4, k + 6) =~= t.subrange(4, 6));
        let r = match parse_radix16_exec(b, k, k + 2, 255) {
            Some(v) => v,
            None => 0,
        };
        let g = match parse_radix16_exec(b, k + 2, k + 4, 255) {
            Some(v) => v,
            None => 0,
        };
        let bl = match parse_radix16_exec(b, k + 4, k + 6, 255) {
            Some(v) => v,
            None => 0,
        };
        (r * 0x10000 + g * 0x100 + bl) as u32
    } else {
        0x222222
    }
}

/// The pixel value of the wallpaper color `color` (leading `#`s allowed):
/// its hexadecimal value, or `0x1a1a2e` when it is not one, with the alpha
/// byte set.
pub open spec fn wallpaper_pixel_value(b: Seq<u8>) -> u32 {
    let v: u32 = match parse_radix16(b.skip(leading_hashes(b) as int), u32::MAX as nat) {
        Some(v) => v as u32,
        None => 0x1a1a2e,
    };
    0xff00_0000u32 | v
}

pub fn wallpaper_pixel(color: &str) -> (r: u32)
    ensures
        r == wallpaper_pixel_value(color.spec_bytes()),
{
    let b = color.as_bytes();
    let k = skip_leading_hashes(b);
    assert(b@.subrange(k as int, b@.len() as int) =~= b@.skip(k as int));
    let v: u32 = match parse_radix16_exec(b, k, b.len(), 0xffff_ffff) {
        Some(v) => v as u32,
        None => 0x1a1a2e,
    };
    0xff00_0000u32 | v
}

/// The keysym that a key name stands for: the X keysym of the named keys the
/// window manager knows, the character itself for a one-byte name, else 0.
pub open spec fn keysym_of(v: Seq<char>) -> u32 {
    if v == "Tab"@ { 0xff09 }
    else if v == "Return"@ { 0xff0d }
    else if v == "Escape"@ { 0xff1b }
    else if v == "BackSpace"@ { 0xff08 }
    else if v == "Insert"@ { 0xff63 }
    else if v == "Delete"@ { 0xffff }
    else if v == "Home"@ { 0xff50 }
    else if v == "End"@ { 0xff57 }
    else if v == "Prior"@ { 0xff55 }
    else if v == "Next"@ { 0xff56 }
    else if v == "Left"@ { 0xff51 }
    else if v == "Up"@ { 0xff52 }
    else if v == "Right"@ { 0xff53 }
    else if v == "Down"@ { 0xff54 }
    else if v == "Shift"@ { 0xffe1 }
    else if v == "Control"@ { 0xffe3 }
    else if v == "Mod1"@ || v == "Alt"@ { 0xffe9 }
    else if v == "Mod2"@ { 0xffea }
    else if v == "Mod3"@ { 0xffeb }
    else if v == "Mod4"@ || v == "Super"@ || v == "Win"@ { 0xffeb }
    else if v == "Mod5"@ { 0xffec }
    else if v == "F1"@ { 0xffbe }
    else if v == "F2"@ { 0xffbf }
    else if v == "F3"@ { 0xffc0 }
    else if v == "F4"@ { 0xffc1 }
    else if v == "F5"@ { 0xffc2 }
    else if v == "F6"@ { 0xffc3 }
    else if v == "F7"@ { 0xffc4 }
    else if v == "F8"@ { 0xffc5 }
    else if v == "F9"@ { 0xffc6 }
    else if v == "F10"@ { 0xffc7 }
    else if v == "F11"@ { 0xffc8 }
    else if v == "F12"@ { 0xffc9 }
    else if v == "Print"@ { 0xff61 }
    else if v == "XF86AudioLowerVolume"@ { 0x1008ff11 }
    else if v == "XF86AudioMute"@ { 0x1008ff12 }
    else if v == "XF86AudioRaiseVolume"@ { 0x1008ff13 }
    else if v == "XF86AudioMicMute"@ { 0x1008ffb2 }
    else if v == "XF86MonBrightnessUp"@ { 0x1008ff02 }
    else if v == "XF86MonBrightnessDown"@ { 0x1008ff03 }
    else if v == "XF86Bluetooth"@ { 0x1008ff2e }
    else if v == "space"@ { 0x0020 }
    else if encode_utf8(v).len() == 1 { v[0] as u32 }
    else { 0 }
}

proof fn lemma_one_byte_nonempty(s: &str)
    requires
        s.spec_bytes().len() == 1,
    ensures
        s@.len() >= 1,
{
    if s@.len() == 0 {
        assert(encode_utf8(s@) =~= Seq::<u8>::empty());
    }
}

/// The X keysym of a key name.
pub fn string_to_keysym(s: &str) -> (k: u32)
    ensures
        k == keysym_of(s@),
{
    if str_eq(s, "Tab") { 0xff09 }
    else if str_eq(s, "Return") { 0xff0d }
    else if str_eq(s, "Escape") { 0xff1b }
    else if str_eq(s, "BackSpace") { 0xff08 }
    else if str_eq(s, "Insert") { 0xff63 }
    else if str_eq(s, "Delete") { 0xffff }
    else if str_eq(s, "Home") { 0xff50 }
    else if str_eq(s, "End") { 0xff57 }
    else if str_eq(s, "Prior") { 0xff55 }
    else if str_eq(s, "Next") { 0xff56 }
    else if str_eq(s, "Left") { 0xff51 }
    else if str_eq(s, "Up") { 0xff52 }
    else if str_eq(s, "Right") { 0xff53 }
    else if str_eq(s, "Down") { 0xff54 }
    else if str_eq(s, "Shift") { 0xffe1 }
    else if str_eq(s, "Control") { 0xffe3 }
    else if str_eq(s, "Mod1") || str_eq(s, "Alt") { 0xffe9 }
    else if str_eq(s, "Mod2") { 0xffea }
    else if str_eq(s, "Mod3") { 0xffeb }
    else if str_eq(s, "Mod4") || str_eq(s, "Super") || str_eq(s, "Win") { 0xffeb }
    else if str_eq(s, "Mod5") { 0xffec }
    else if str_eq(s, "F1") { 0xffbe }
    else if str_eq(s, "F2") { 0xffbf }
    else if str_eq(s, "F3") { 0xffc0 }
    else if str_eq(s, "F4") { 0xffc1 }
    else if str_eq(s, "F5") { 0xffc2 }
    else if str_eq(s, "F6") { 0xffc3 }
    else if str_eq(s, "F7") { 0xffc4 }
    else if str_eq(s, "F8") { 0xffc5 }
    else if str_eq(s, "F9") { 0xffc6 }
    else if str_eq(s, "F10") { 0xffc7 }
    else if str_eq(s, "F11") { 0xffc8 }
    else if str_eq(s, "F12") { 0xffc9 }
    else if str_eq(s, "Print") { 0xff61 }
    else if str_eq(s, "XF86AudioLowerVolume") { 0x1008ff11 }
    else if str_eq(s, "XF86AudioMute") { 0x1008ff12 }
    else if str_eq(s, "XF86AudioRaiseVolume") { 0x1008ff13 }
    else if str_eq(s, "XF86AudioMicMute") { 0x1008ffb2 }
    else if str_eq(s, "XF86MonBrightnessUp") { 0x1008ff02 }
    else if str_eq(s, "XF86MonBrightnessDown") { 0x1008ff03 }
    else if str_eq(s, "XF86Bluetooth") { 0x1008ff2e }
    else if str_eq(s, "space") { 0x0020 }
    else if s.as_bytes().len() == 1 {
        proof {
            lemma_one_byte_nonempty(s);
        }
        s.get_char(0) as u32
    } else { 0 }
}

/// The modifier bit that a modifier name stands for, or 0.
pub open spec fn mask_of(v: Seq<char>) -> u16 {
    if v == "Shift"@ { 1 }
    else if v == "Control"@ || v == "Ctrl"@ { 4 }
    else if v == "Mod1"@ || v == "Alt"@ { 8 }
    else if v == "Mod2"@ { 16 }
    else if v == "Mod3"@ { 32 }
    else if v == "Mod4"@ || v == "Super"@ || v == "Win"@ { 64 }
    else if v == "Mod5"@ { 128 }
    else { 0 }
}

/// The X modifier mask of a modifier name.
pub fn mod_string_to_mask(s: &str) -> (m: u16)
    ensures
        m == mask_of(s@),
{
    if str_eq(s, "Shift") { 1 }
    else if str_eq(s, "Control") || str_eq(s, "Ctrl") { 4 }
    else if str_eq(s, "Mod1") || str_eq(s, "Alt") { 8 }
    else if str_eq(s, "Mod2") { 16 }
    else if str_eq(s, "Mod3") { 32 }
    else if str_eq(s, "Mod4") || str_eq(s, "Super") || str_eq(s, "Win") { 64 }
    else if str_eq(s, "Mod5") { 128 }
    else { 0 }
}


/// Modifier names follow the masks of the X core protocol: `Mod1` to `Mod5`
/// (`Mod` and a digit `d`) give the bit `d + 2`, above those of Shift (bit 0),
/// Lock and Control (bit 2); each alias gives the mask of the name it stands
/// for (Alt of Mod1, Ctrl of Control, Super and Win of Mod4); and every name
/// gives either one bit of the low byte or nothing.
pub proof fn lemma_modifier_bits(d: char, v: Seq<char>)
    ensures
        '1' <= d <= '5' ==> mask_of(seq!['M', 'o', 'd', d]) as nat == pow2((d as int - '1' as int + 3) as nat),
        mask_of("Shift"@) as nat == pow2(0),
        mask_of("Control"@) as nat == pow2(2),
        mask_of("Alt"@) == mask_of("Mod1"@),
        mask_of("Ctrl"@) == mask_of("Control"@),
        mask_of("Super"@) == mask_of("Mod4"@),
        mask_of("Win"@) == mask_of("Mod4"@),
        mask_of(v) == 0 || exists|b: nat| b < 8 && mask_of(v) as nat == pow2(b),
{
    reveal_strlit("Shift");
    reveal_strlit("Control");
    reveal_strlit("Ctrl");
    reveal_strlit("Mod1");
    reveal_strlit("Alt");
    reveal_strlit("Mod2");
    reveal_strlit("Mod3");
    reveal_strlit("Mod4");
    reveal_strlit("Super");
    reveal_strlit("Win");
    reveal_strlit("Mod5");
    lemma2_to64();
    assert("Shift"@.len() == 5 && "Shift"@[0] == 'S' && "Shift"@[1] == 'h' && "Shift"@[3] == 'f');
    assert("Control"@.len() == 7 && "Control"@[0] == 'C' && "Control"@[1] == 'o' && "Control"@[3] == 't');
    assert("Ctrl"@.len() == 4 && "Ctrl"@[0] == 'C' && "Ctrl"@[1] == 't' && "Ctrl"@[3] == 'l');
    assert("Mod1"@.len() == 4 && "Mod1"@[0] == 'M' && "Mod1"@[1] == 'o' && "Mod1"@[3] == '1');
    assert("Alt"@.len() == 3 && "Alt"@[0] == 'A' && "Alt"@[1] == 'l');
    assert("Mod2"@.len() == 4 && "Mod2"@[0] == 'M' && "Mod2"@[1] == 'o' && "Mod2"@[3] == '2');
    assert("Mod3"@.len() == 4 && "Mod3"@[0] == 'M' && "Mod3"@[1] == 'o' && "Mod3"@[3] == '3');
    assert("Mod4"@.len() == 4 && "Mod4"@[0] == 'M' && "Mod4"@[1] == 'o' && "Mod4"@[3] == '4');
    assert("Super"@.len() == 5 && "Super"@[0] == 'S' && "Super"@[1] == 'u' && "Super"@[3] == 'e');
    assert("Win"@.len() == 3 && "Win"@[0] == 'W' && "Win"@[1] == 'i');
    assert("Mod5"@.len() == 4 && "Mod5"@[0] == 'M' && "Mod5"@[1] == 'o' && "Mod5"@[3] == '5');
    let m = seq!['M', 'o', 'd', d];
    assert(m.len() == 4 && m[0] == 'M' && m[1] == 'o' && m[2] == 'd' && m[3] == d);
    if d == '1' {
        assert(m =~= "Mod1"@);
    } else if d == '2' {
        assert(m =~= "Mod2"@);
        assert(m[3] != "Mod1"@[3]);
    } else if d == '3' {
        assert(m =~= "Mod3"@);
        assert(m[3] != "Mod1"@[3] && m[3] != "Mod2"@[3]);
    } else if d == '4' {
        assert(m =~= "Mod4"@);
        assert(m[3] != "Mod1"@[3] && m[3] != "Mod2"@[3] && m[3] != "Mod3"@[3]);
    } else if d == '5' {
        assert(m =~= "Mod5"@);
        assert(m[3] != "Mod1"@[3] && m[3] != "Mod2"@[3] && m[3] != "Mod3"@[3] && m[3] != "Mod4"@[3]);
    }
    let k = mask_of(v);
    if k == 1 {
        assert(k as nat == pow2(0));
    } else if k == 4 {
        assert(k as nat == pow2(2));
    } else if k == 8 {
        assert(k as nat == pow2(3));
    } else if k == 16 {
        assert(k as nat == pow2(4));
    } else if k == 32 {
        assert(k as nat == pow2(5));
    } else if k == 64 {
        assert(k as nat == pow2(6));
    } else if k == 128 {
        assert(k as nat == pow2(7));
    }
}

/// The atoms the window manager interns, by index into the list of names.
pub struct Atoms {
    pub wm_protocols: u32,
    pub wm_delete_window: u32,
    pub wm_state: u32,
    pub net_wm_name: u32,
    pub net_wm_pid: u32,
    pub net_wm_window_type: u32,
    pub net_wm_window_type_dialog: u32,
    pub net_wm_window_type_dock: u32,
    pub net_wm_state: u32,
    pub net_wm_state_fullscreen: u32,
    pub net_active_window: u32,
    pub net_supported: u32,
    pub net_supporting_wm_check: u32,
    pub net_client_list: u32,
    pub net_client_list_stacking: u32,
    pub net_number_of_desktops: u32,
    pub net_current_desktop: u32,
    pub net_desktop_names: u32,
    pub net_wm_window_opacity: u32,
    pub motif_wm_hints: u32,
    pub net_wm_strut_partial: u32,
    pub ewmh_atoms: Vec<u32>,
}

/// How many atoms the window manager interns.
pub const ATOM_COUNT: usize = 21;

/// Where the EWMH atoms (from `_NET_SUPPORTED` on) start among the interned atoms.
pub const EWMH_START: usize = 11;

/// The name of the atom at `i` in the order the window manager interns them.
pub open spec fn atom_name(i: int) -> Seq<char> {
    if i == 0 { "WM_PROTOCOLS"@ }
    else if i == 1 { "WM_DELETE_WINDOW"@ }
    else if i == 2 { "WM_STATE"@ }
    else if i == 3 { "_NET_WM_NAME"@ }
    else if i == 4 { "_NET_WM_PID"@ }
    else if i == 5 { "_NET_WM_WINDOW_TYPE"@ }
    else if i == 6 { "_NET_WM_WINDOW_TYPE_DIALOG"@ }
    else if i == 7 { "_NET_WM_WINDOW_TYPE_DOCK"@ }
    else if i == 8 { "_NET_WM_STATE"@ }
    else if i == 9 { "_NET_WM_STATE_FULLSCREEN"@ }
    else if i == 10 { "_NET_ACTIVE_WINDOW"@ }
    else if i == 11 { "_NET_SUPPORTED"@ }
    else if i == 12 { "_NET_SUPPORTING_WM_CHECK"@ }
    else if i == 13 { "_NET_CLIENT_LIST"@ }
    else if i == 14 { "_NET_CLIENT_LIST_STACKING"@ }
    else if i == 15 { "_NET_NUMBER_OF_DESKTOPS"@ }
    else if i == 16 { "_NET_CURRENT_DESKTOP"@ }
    else if i == 17 { "_NET_DESKTOP_NAMES"@ }
    else if i == 18 { "_NET_WM_WINDOW_OPACITY"@ }
    else if i == 19 { "_MOTIF_WM_HINTS"@ }
    else { "_NET_WM_STRUT_PARTIAL"@ }
}

/// The names of the atoms to intern, in the order `Atoms::from_interned` reads them.
pub fn atom_names() -> (names: Vec<&'static str>)
    ensures
        names@.len() == ATOM_COUNT,
        forall|i: int| 0 <= i < ATOM_COUNT ==> (#[trigger] names@[i])@ == atom_name(i),
{
    let names = vec![
        "WM_PROTOCOLS",
        "WM_DELETE_WINDOW",
        "WM_STATE",
        "_NET_WM_NAME",
        "_NET_WM_PID",
        "_NET_WM_WINDOW_TYPE",
        "_NET_WM_WINDOW_TYPE_DIALOG",
        "_NET_WM_WINDOW_TYPE_DOCK",
        "_NET_WM_STATE",
        "_NET_WM_STATE_FULLSCREEN",
        "_NET_ACTIVE_WINDOW",
        "_NET_SUPPORTED",
        "_NET_SUPPORTING_WM_CHECK",
        "_NET_CLIENT_LIST",
        "_NET_CLIENT_LIST_STACKING",
        "_NET_NUMBER_OF_DESKTOPS",
        "_NET_CURRENT_DESKTOP",
        "_NET_DESKTOP_NAMES",
        "_NET_WM_WINDOW_OPACITY",
        "_MOTIF_WM_HINTS",
        "_NET_WM_STRUT_PARTIAL",
    ];
    names
}

impl Atoms {
    /// Each field holds the id at its own position of `ids`, the ids the
    /// server gave for `atom_names()` in order.
    pub open spec fn read_in_order(self, ids: Seq<u32>) -> bool {
        &&& self.wm_protocols == ids[0]
        &&& self.wm_delete_window == ids[1]
        &&& self.wm_state == ids[2]
        &&& self.net_wm_name == ids[3]
        &&& self.net_wm_pid == ids[4]
        &&& self.net_wm_window_type == ids[5]
        &&& self.net_wm_window_type_dialog == ids[6]
        &&& self.net_wm_window_type_dock == ids[7]
        &&& self.net_wm_state == ids[8]
        &&& self.net_wm_state_fullscreen == ids[9]
        &&& self.net_active_window == ids[10]
        &&& self.net_supported == ids[11]
        &&& self.net_supporting_wm_check == ids[12]
        &&& self.net_client_list == ids[13]
        &&& self.net_client_list_stacking == ids[14]
        &&& self.net_number_of_desktops == ids[15]
        &&& self.net_current_desktop == ids[16]
        &&& self.net_desktop_names == ids[17]
        &&& self.net_wm_window_opacity == ids[18]
        &&& self.motif_wm_hints == ids[19]
        &&& self.net_wm_strut_partial == ids[20]
    }

    /// The atoms, from the ids the server gave for `atom_names()`, in order.
    pub fn from_interned(ids: &Vec<u32>) -> (a: Atoms)
        requires
            ids@.len() >= ATOM_COUNT,
        ensures
            a.wm_protocols == ids@[0],
            a.wm_delete_window == ids@[1],
            a.wm_state == ids@[2],
            a.net_wm_name == ids@[3],
            a.net_wm_pid == ids@[4],
            a.net_wm_window_type == ids@[5],
            a.net_wm_window_type_dialog == ids@[6],
            a.net_wm_window_type_dock == ids@[7],
            a.net_wm_state == ids@[8],
            a.net_wm_state_fullscreen == ids@[9],
            a.net_active_window == ids@[10],
            a.net_supported == ids@[11],
            a.net_supporting_wm_check == ids@[12],
            a.net_client_list == ids@[13],
            a.net_client_list_stacking == ids@[14],
            a.net_number_of_desktops == ids@[15],
            a.net_current_desktop == ids@[16],
            a.net_desktop_names == ids@[17],
            a.net_wm_window_opacity == ids@[18],
            a.motif_wm_hints == ids@[19],
            a.net_wm_strut_partial == ids@[20],
            a.ewmh_atoms@ == ids@.skip(EWMH_START as int),
            a.read_in_order(ids@),
    {
        let mut ewmh_atoms: Vec<u32> = Vec::new();
        let mut i: usize = EWMH_START;
        while i < ids.len()
            invariant
                EWMH_START <= i <= ids@.len(),
                ewmh_atoms@ == ids@.subrange(EWMH_START as int, i as int),
            decreases ids@.len() - i,
        {
            ewmh_atoms.push(ids[i]);
            assert(ids@.subrange(EWMH_START as int, i + 1) =~= ids@.subrange(EWMH_START as int, i as int).push(ids@[i as int]));
            i = i + 1;
        }
        assert(ids@.subrange(EWMH_START as int, ids@.len() as int) =~= ids@.skip(EWMH_START as int));
        Atoms {
            wm_protocols: ids[0],
            wm_delete_window: ids[1],
            wm_state: ids[2],
            net_wm_name: ids[3],
            net_wm_pid: ids[4],
            net_wm_window_type: ids[5],
            net_wm_window_type_dialog: ids[6],
            net_wm_window_type_dock: ids[7],
            net_wm_state: ids[8],
            net_wm_state_fullscreen: ids[9],
            net_active_window: ids[10],
            net_supported: ids[11],
            net_supporting_wm_check: ids[12],
            net_client_list: ids[13],
            net_client_list_stacking: ids[14],
            net_number_of_desktops: ids[15],
            net_current_desktop: ids[16],
            net_desktop_names: ids[17],
            net_wm_window_opacity: ids[18],
            motif_wm_hints: ids[19],
            net_wm_strut_partial: ids[20],
            ewmh_atoms,
        }
    }
}

/// `id` is the id that the server gave for the atom called `name`, given the
/// ids `ids` it gave for `atom_names()` in order.
pub open spec fn interned_as(ids: Seq<u32>, name: Seq<char>, id: u32) -> bool {
    exists|i: int| 0 <= i < ATOM_COUNT && atom_name(i) == name && ids[i] == id
}

/// The names interned are all different, and each field of the atoms read
/// from the server's ids holds the id of that field's own X name.
pub proof fn lemma_atoms_by_name(a: Atoms, ids: Seq<u32>)
    requires
        ids.len() >= ATOM_COUNT,
        a.read_in_order(ids),
    ensures
        forall|i: int, j: int| 0 <= i < ATOM_COUNT && 0 <= j < ATOM_COUNT && i != j ==> atom_name(i) != atom_name(j),
        interned_as(ids, "WM_PROTOCOLS"@, a.wm_protocols),
        interned_as(ids, "WM_DELETE_WINDOW"@, a.wm_delete_window),
        interned_as(ids, "WM_STATE"@, a.wm_state),
        interned_as(ids, "_NET_WM_NAME"@, a.net_wm_name),
        interned_as(ids, "_NET_WM_PID"@, a.net_wm_pid),
        interned_as(ids, "_NET_WM_WINDOW_TYPE"@, a.net_wm_window_type),
        interned_as(ids, "_NET_WM_WINDOW_TYPE_DIALOG"@, a.net_wm_window_type_dialog),
        interned_as(ids, "_NET_WM_WINDOW_TYPE_DOCK"@, a.net_wm_window_type_dock),
        interned_as(ids, "_NET_WM_STATE"@, a.net_wm_state),
        interned_as(ids, "_NET_WM_STATE_FULLSCREEN"@, a.net_wm_state_fullscreen),
        interned_as(ids, "_NET_ACTIVE_WINDOW"@, a.net_active_window),
        interned_as(ids, "_NET_SUPPORTED"@, a.net_supported),
        interned_as(ids, "_NET_SUPPORTING_WM_CHECK"@, a.net_supporting_wm_check),
        interned_as(ids, "_NET_CLIENT_LIST"@, a.net_client_list),
        interned_as(ids, "_NET_CLIENT_LIST_STACKING"@, a.net_client_list_stacking),
        interned_as(ids, "_NET_NUMBER_OF_DESKTOPS"@, a.net_number_of_desktops),
        interned_as(ids, "_NET_CURRENT_DESKTOP"@, a.net_current_desktop),
        interned_as(ids, "_NET_DESKTOP_NAMES"@, a.net_desktop_names),
        interned_as(ids, "_NET_WM_WINDOW_OPACITY"@, a.net_wm_window_opacity),
        interned_as(ids, "_MOTIF_WM_HINTS"@, a.motif_wm_hints),
        interned_as(ids, "_NET_WM_STRUT_PARTIAL"@, a.net_wm_strut_partial),
{
    reveal_strlit("WM_PROTOCOLS");
    reveal_strlit("WM_DELETE_WINDOW");
    reveal_strlit("WM_STATE");
    reveal_strlit("_NET_WM_NAME");
    reveal_strlit("_NET_WM_PID");
    reveal_strlit("_NET_WM_WINDOW_TYPE");
    reveal_strlit("_NET_WM_WINDOW_TYPE_DIALOG");
    reveal_strlit("_NET_WM_WINDOW_TYPE_DOCK");
    reveal_strlit("_NET_WM_STATE");
    reveal_strlit("_NET_WM_STATE_FULLSCREEN");
    reveal_strlit("_NET_ACTIVE_WINDOW");
    reveal_strlit("_NET_SUPPORTED");
    reveal_strlit("_NET_SUPPORTING_WM_CHECK");
    reveal_strlit("_NET_CLIENT_LIST");
    reveal_strlit("_NET_CLIENT_LIST_STACKING");
    reveal_strlit("_NET_NUMBER_OF_DESKTOPS");
    reveal_strlit("_NET_CURRENT_DESKTOP");
    reveal_strlit("_NET_DESKTOP_NAMES");
    reveal_strlit("_NET_WM_WINDOW_OPACITY");
    reveal_strlit("_MOTIF_WM_HINTS");
    reveal_strlit("_NET_WM_STRUT_PARTIAL");
    assert("WM_PROTOCOLS"@.len() == 12 && "WM_PROTOCOLS"@[0] == 'W');
    assert("WM_DELETE_WINDOW"@.len() == 16 && "WM_DELETE_WINDOW"@[0] == 'W');
    assert("WM_STATE"@.len() == 8);
    assert("_NET_WM_NAME"@.len() == 12 && "_NET_WM_NAME"@[0] == '_');
    assert("_NET_WM_PID"@.len() == 11);
    assert("_NET_WM_WINDOW_TYPE"@.len() == 19);
    assert("_NET_WM_WINDOW_TYPE_DIALOG"@.len() == 26);
    assert("_NET_WM_WINDOW_TYPE_DOCK"@.len() == 24 && "_NET_WM_WINDOW_TYPE_DOCK"@[5] == 'W' && "_NET_WM_WINDOW_TYPE_DOCK"@[8] == 'W');
    assert("_NET_WM_STATE"@.len() == 13);
    assert("_NET_WM_STATE_FULLSCREEN"@.len() == 24 && "_NET_WM_STATE_FULLSCREEN"@[5] == 'W' && "_NET_WM_STATE_FULLSCREEN"@[8] == 'S');
    assert("_NET_ACTIVE_WINDOW"@.len() == 18 && "_NET_ACTIVE_WINDOW"@[5] == 'A');
    assert("_NET_SUPPORTED"@.len() == 14);
    assert("_NET_SUPPORTING_WM_CHECK"@.len() == 24 && "_NET_SUPPORTING_WM_CHECK"@[5] == 'S');
    assert("_NET_CLIENT_LIST"@.len() == 16 && "_NET_CLIENT_LIST"@[0] == '_');
    assert("_NET_CLIENT_LIST_STACKING"@.len() == 25);
    assert("_NET_NUMBER_OF_DESKTOPS"@.len() == 23);
    assert("_NET_CURRENT_DESKTOP"@.len() == 20);
    assert("_NET_DESKTOP_NAMES"@.len() == 18 && "_NET_DESKTOP_NAMES"@[5] == 'D');
    assert("_NET_WM_WINDOW_OPACITY"@.len() == 22);
    assert("_MOTIF_WM_HINTS"@.len() == 15);
    assert("_NET_WM_STRUT_PARTIAL"@.len() == 21);
    assert(atom_name(0) == "WM_PROTOCOLS"@);
    assert(atom_name(1) == "WM_DELETE_WINDOW"@);
    assert(atom_name(2) == "WM_STATE"@);
    assert(atom_name(3) == "_NET_WM_NAME"@);
    assert(atom_name(4) == "_NET_WM_PID"@);
    assert(atom_name(5) == "_NET_WM_WINDOW_TYPE"@);
    assert(atom_name(6) == "_NET_WM_WINDOW_TYPE_DIALOG"@);
    assert(atom_name(7) == "_NET_WM_WINDOW_TYPE_DOCK"@);
    assert(atom_name(8) == "_NET_WM_STATE"@);
    assert(atom_name(9) == "_NET_WM_STATE_FULLSCREEN"@);
    assert(atom_name(10) == "_NET_ACTIVE_WINDOW"@);
    assert(atom_name(11) == "_NET_SUPPORTED"@);
    assert(atom_name(12) == "_NET_SUPPORTING_WM_CHECK"@);
    assert(atom_name(13) == "_NET_CLIENT_LIST"@);
    assert(atom_name(14) == "_NET_CLIENT_LIST_STACKING"@);
    assert(atom_name(15) == "_NET_NUMBER_OF_DESKTOPS"@);
    assert(atom_name(16) == "_NET_CURRENT_DESKTOP"@);
    assert(atom_name(17) == "_NET_DESKTOP_NAMES"@);
    assert(atom_name(18) == "_NET_WM_WINDOW_OPACITY"@);
    assert(atom_name(19) == "_MOTIF_WM_HINTS"@);
    assert(atom_name(20) == "_NET_WM_STRUT_PARTIAL"@);
}

/// The number of workspaces announced to pagers and bars.
pub const WORKSPACE_COUNT: u32 = 5;

/// The decimal digits of `n`, in ASCII.
pub open spec fn decimal(n: nat) -> Seq<u8>
    decreases n,
{
    if n < 10 {
        seq![(0x30 + n) as u8]
    } else {
        decimal(n / 10).push((0x30 + n % 10) as u8)
    }
}

/// The `_NET_DESKTOP_NAMES` value for `count` workspaces: the names `1`, `2`,
/// ..., each ended by a NUL byte.
pub open spec fn desktop_names(count: nat) -> Seq<u8>
    decreases count,
{
    if count == 0 {
        seq![]
    } else {
        desktop_names((count - 1) as nat) + decimal(count) + seq![0u8]
    }
}

fn push_decimal(out: &mut Vec<u8>, n: u32)
    ensures
        final(out)@ == old(out)@ + decimal(n as nat),
    decreases n,
{
    if n >= 10 {
        push_decimal(out, n / 10);
    }
    out.push(0x30 + (n % 10) as u8);
    proof {
        if n < 10 {
            assert(decimal(n as nat) =~= seq![(0x30 + n) as u8]);
        }
    }
}

/// The workspace names to announce for `count` workspaces.
pub fn desktop_names_bytes(count: u32) -> (b: Vec<u8>)
    ensures
        b@ == desktop_names(count as nat),
{
    let mut out: Vec<u8> = Vec::new();
    let mut i: u64 = 1;
    assert(out@ =~= desktop_names(0));
    while i <= count as u64
        invariant
            1 <= i,
            i <= count + 1,
            out@ == desktop_names((i - 1) as nat),
        decreases count + 1 - i,
    {
        push_decimal(&mut out, i as u32);
        out.push(0u8);
        assert(out@ =~= desktop_names(i as nat));
        i = i + 1;
    }
    out
}


/// The 32-bit word whose bytes, least significant first, are `b[0..4]`.
pub open spec fn le_word(b: Seq<u8>) -> u32 {
    (b[0] + b[1] * 0x100 + b[2] * 0x1_0000 + b[3] * 0x100_0000) as u32
}

/// The 32-bit word whose bytes, most significant first, are `b[0..4]`.
pub open spec fn be_word(b: Seq<u8>) -> u32 {
    (b[3] + b[2] * 0x100 + b[1] * 0x1_0000 + b[0] * 0x100_0000) as u32
}

/// Reads four bytes as a `u32` in the machine's byte order, by
/// `bytemuck::pod_read_unaligned`, which copies the bytes into the word and
/// panics only when the slice is not exactly four bytes long. Which of the two
/// byte orders applies depends on the machine, so only that it is one of them
/// is stated.
#[verifier::external_body]
fn read_native_word(chunk: &[u8]) -> (w: u32)
    requires
        chunk@.len() == 4,
    ensures
        w == le_word(chunk@) || w == be_word(chunk@),
{
    bytemuck::pod_read_unaligned::<u32>(chunk)
}

/// The 32-bit items of a property value of format 32, read in the machine's
/// byte order; no items for any other format.
pub fn property_words(format: u8, value: &[u8]) -> (words: Vec<u32>)
    requires
        format == 32 ==> value@.len() % 4 == 0,
    ensures
        format != 32 ==> words@.len() == 0,
        format == 32 ==> words@.len() == value@.len() / 4,
        format == 32 ==> forall|i: int| 0 <= i < words@.len() ==>
            #[trigger] words@[i] == le_word(value@.subrange(4 * i, 4 * i + 4))
            || words@[i] == be_word(value@.subrange(4 * i, 4 * i + 4)),
{
    let mut words: Vec<u32> = Vec::new();
    if format != 32 {
        return words;
    }
    let len = value.len();
    let n = len / 4;
    let mut i: usize = 0;
    while i < n
        invariant
            n == value@.len() / 4,
            len == value@.len(),
            4 * n <= len,
            0 <= i <= n,
            words@.len() == i,
            forall|j: int| 0 <= j < i ==>
                #[trigger] words@[j] == le_word(value@.subrange(4 * j, 4 * j + 4))
                || words@[j] == be_word(value@.subrange(4 * j, 4 * j + 4)),
        decreases n - i,
    {
        let w = read_native_word(&value[4 * i..4 * i + 4]);
        words.push(w);
        i = i + 1;
    }
    words
}

} // verus!
