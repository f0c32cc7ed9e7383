use vstd::prelude::*;
use vstd::string::StrSliceExecFns;
use vstd::utf8::encode_utf8;
use crate::config::{ActionView, BindingAction, Config, KeyBindingView, bindings_view};
use crate::x11::{keysym_of, mask_of, mod_string_to_mask, string_to_keysym};

verus! {

/// The keyboard mapping of the X server: for each keycode from
/// `min_keycode` on, `keysyms_per_keycode` keysyms in a row.
pub struct KeyboardMapping {
    pub min_keycode: u8,
    pub keysyms_per_keycode: u8,
    pub keysyms: Vec<u32>,
}

/// The index of the first `x` in `s`.
pub open spec fn first_index(s: Seq<u32>, x: u32) -> Option<nat>
    decreases s.len(),
{
    if s.len() == 0 {
        None
    } else if s[0] == x {
        Some(0)
    } else {
        match first_index(s.drop_first(), x) {
            Some(i) => Some(i + 1),
            None => None,
        }
    }
}

proof fn lemma_first_index(s: Seq<u32>, x: u32, j: int)
    requires
        0 <= j <= s.len(),
        forall|i: int| 0 <= i < j ==> s[i] != x,
    ensures
        j < s.len() && s[j] == x ==> first_index(s, x) == Some(j as nat),
        j == s.len() ==> first_index(s, x) is None,
    decreases j,
{
    if j > 0 {
        lemma_first_index(s.drop_first(), x, j - 1);
    }
}

proof fn lemma_first_index_found(s: Seq<u32>, x: u32)
    ensures
        first_index(s, x) matches Some(j) ==> j < s.len() && s[j as int] == x
            && forall|i: int| 0 <= i < j ==> s[i] != x,
        first_index(s, x) is None <==> !s.contains(x),
    decreases s.len(),
{
    if s.len() > 0 {
        lemma_first_index_found(s.drop_first(), x);
        if s[0] != x {
            if s.contains(x) {
                let k = choose|k: int| 0 <= k < s.len() && s[k] == x;
                assert(s.drop_first()[k - 1] == x);
            }
            if s.drop_first().contains(x) {
                let k = choose|k: int| 0 <= k < s.drop_first().len() && s.drop_first()[k] == x;
                assert(s[k + 1] == x);
            }
            match first_index(s.drop_first(), x) {
                Some(j) => {
                    assert forall|i: int| 0 <= i < j + 1 implies s[i] != x by {
                        if i > 0 {
                            assert(s[i] == s.drop_first()[i - 1]);
                        }
                    }
                },
                None => {},
            }
        } else {
            assert(s[0] == x);
        }
    }
}

impl KeyboardMapping {
    /// The keycode of the first group of keysyms that holds `keysym`: the
    /// group's number (taken modulo 256, as `as u8` does) after the first
    /// keycode.
    pub open spec fn keycode_of(self, keysym: u32) -> Option<u8> {
        match first_index(self.keysyms@, keysym) {
            Some(j) => Some((self.min_keycode + (j / self.keysyms_per_keycode as nat) % 256) as u8),
            None => None,
        }
    }

    /// Looking `keysym` up neither divides by zero nor overflows the keycode.
    pub open spec fn keycode_fits(self, keysym: u32) -> bool {
        &&& self.keysyms_per_keycode > 0
        &&& first_index(self.keysyms@, keysym) matches Some(j) ==>
            self.min_keycode + (j / self.keysyms_per_keycode as nat) % 256 <= u8::MAX
    }

    /// Whether looking `keysym` up neither divides by zero nor overflows.
    pub fn keycode_fits_check(&self, keysym: u32) -> (b: bool)
        ensures
            b == self.keycode_fits(keysym),
    {
        if self.keysyms_per_keycode == 0 {
            return false;
        }
        let per = self.keysyms_per_keycode as usize;
        let mut j: usize = 0;
        while j < self.keysyms.len()
            invariant
                per == self.keysyms_per_keycode,
                per > 0,
                0 <= j <= self.keysyms@.len(),
                forall|i: int| 0 <= i < j ==> self.keysyms@[i] != keysym,
            decreases self.keysyms@.len() - j,
        {
            if self.keysyms[j] == keysym {
                proof {
                    lemma_first_index(self.keysyms@, keysym, j as int);
                }
                return (self.min_keycode as usize) + (j / per) % 256 <= 255;
            }
            j = j + 1;
        }
        proof {
            lemma_first_index(self.keysyms@, keysym, j as int);
        }
        true
    }

    /// Whether every key of `config` can be looked up under this mapping.
    pub fn fits_config(&self, config: &Config) -> (b: bool)
        ensures
            b == config_fits(config, *self),
    {
        let mut i: usize = 0;
        while i < config.keybindings.len()
            invariant
                0 <= i <= config.keybindings@.len(),
                forall|k: int| 0 <= k < i ==> key_fits(*self, #[trigger] config.keybindings@[k].key@),
            decreases config.keybindings@.len() - i,
        {
            if !self.key_fits_check(config.keybindings[i].key.as_str()) {
                return false;
            }
            i = i + 1;
        }
        true
    }

    fn key_fits_check(&self, key: &str) -> (b: bool)
        ensures
            b == key_fits(*self, key@),
    {
        let keysym = string_to_keysym(key);
        if keysym == 0 && key.as_bytes().len() == 1 {
            proof {
                lemma_one_byte_nonempty(key@);
            }
            let c = key.get_char(0);
            return self.keycode_fits_check(c as u32);
        }
        if keysym != 0 {
            return self.keycode_fits_check(keysym);
        }
        true
    }

    /// The keycode that produces `keysym`, if any.
    pub fn find_keycode(&self, keysym: u32) -> (kc: Option<u8>)
        requires
            self.keycode_fits(keysym),
        ensures
            kc == self.keycode_of(keysym),
    {
        let per = self.keysyms_per_keycode as usize;
        let mut j: usize = 0;
        while j < self.keysyms.len()
            invariant
                per == self.keysyms_per_keycode,
                self.keycode_fits(keysym),
                0 <= j <= self.keysyms@.len(),
                forall|i: int| 0 <= i < j ==> self.keysyms@[i] != keysym,
            decreases self.keysyms@.len() - j,
        {
            if self.keysyms[j] == keysym {
                proof {
                    lemma_first_index(self.keysyms@, keysym, j as int);
                }
                let chunk = ((j / per) % 256) as u8;
                return Some(self.min_keycode + chunk);
            }
            j = j + 1;
        }
        proof {
            lemma_first_index(self.keysyms@, keysym, j as int);
        }
        None
    }
}

/// Under a keyboard mapping of at most `256 - min_keycode` keycodes (as the
/// server sends), the keycode found for a keysym is the first keycode whose
/// group of `keysyms_per_keycode` keysyms holds it: the group of keycode
/// `kc` is `keysyms[(kc - min_keycode) * per .. (kc - min_keycode + 1) * per]`;
/// no keycode is found exactly when no group holds the keysym.
pub proof fn lemma_keycode_group(m: KeyboardMapping, keysym: u32)
    requires
        m.keysyms_per_keycode > 0,
        m.keysyms@.len() <= (256 - m.min_keycode) * m.keysyms_per_keycode,
    ensures
        m.keycode_of(keysym) is None <==> !m.keysyms@.contains(keysym),
        m.keycode_of(keysym) matches Some(kc) ==> ({
            let per = m.keysyms_per_keycode as int;
            let start = (kc - m.min_keycode) * per;
            &&& m.min_keycode <= kc
            &&& exists|j: int| start <= j < start + per && j < m.keysyms@.len() && m.keysyms@[j] == keysym
            &&& forall|i: int| 0 <= i < start ==> m.keysyms@[i] != keysym
        }),
{
    lemma_first_index_found(m.keysyms@, keysym);
    let per = m.keysyms_per_keycode as int;
    let min = m.min_keycode as int;
    if let Some(j) = first_index(m.keysyms@, keysym) {
        let q = j as int / per;
        vstd::arithmetic::div_mod::lemma_fundamental_div_mod(j as int, per);
        vstd::arithmetic::div_mod::lemma_mod_bound(j as int, per);
        vstd::arithmetic::div_mod::lemma_div_pos_is_pos(j as int, per);
        assert(q < 256 - min) by (nonlinear_arith)
            requires
                j < (256 - min) * per,
                j == per * q + j as int % per,
                0 <= j as int % per,
                per > 0,
        ;
        vstd::arithmetic::div_mod::lemma_small_mod(q as nat, 256);
        let kc = m.keycode_of(keysym)->Some_0;
        assert(kc == min + q);
        assert(per * q == (kc - min) * per) by (nonlinear_arith)
            requires
                kc == min + q,
        ;
        assert(m.keysyms@[j as int] == keysym);
    }
}

/// The keysym to look up for a key name: its keysym, or, for a one-byte name
/// without one, the character itself; none for other names.
pub open spec fn searched_keysym(key: Seq<char>) -> Option<u32> {
    let ks = keysym_of(key);
    if ks == 0 && encode_utf8(key).len() == 1 {
        Some(key[0] as u32)
    } else if ks != 0 {
        Some(ks)
    } else {
        None
    }
}

/// The keycode a key name stands for under `mapping`.
pub open spec fn key_keycode(mapping: KeyboardMapping, key: Seq<char>) -> Option<u8> {
    match searched_keysym(key) {
        Some(ks) => mapping.keycode_of(ks),
        None => None,
    }
}

/// Looking the key name up under `mapping` does not fail.
pub open spec fn key_fits(mapping: KeyboardMapping, key: Seq<char>) -> bool {
    searched_keysym(key) matches Some(ks) ==> mapping.keycode_fits(ks)
}

proof fn lemma_one_byte_nonempty(v: Seq<char>)
    requires
        encode_utf8(v).len() == 1,
    ensures
        v.len() >= 1,
{
    if v.len() == 0 {
        assert(encode_utf8(v) =~= Seq::<u8>::empty());
    }
}

/// The keycode of the key named `key`.
pub fn key_str_to_keycode(mapping: &KeyboardMapping, key: &str) -> (kc: Option<u8>)
    requires
        key_fits(*mapping, key@),
    ensures
        kc == key_keycode(*mapping, key@),
{
    let keysym = string_to_keysym(key);
    if keysym == 0 && key.as_bytes().len() == 1 {
        proof {
            lemma_one_byte_nonempty(key@);
        }
        let c = key.get_char(0);
        return mapping.find_keycode(c as u32);
    }
    if keysym != 0 {
        return mapping.find_keycode(keysym);
    }
    None
}

/// A grabbed key: the modifier mask and keycode it fires on, and its action.
pub struct Binding {
    pub mask: u16,
    pub keycode: u8,
    pub action: BindingAction,
}

pub struct BindingView {
    pub mask: u16,
    pub keycode: u8,
    pub action: ActionView,
}

impl View for Binding {
    type V = BindingView;

    open spec fn view(&self) -> BindingView {
        BindingView { mask: self.mask, keycode: self.keycode, action: self.action@ }
    }
}

/// The modifier mask of a binding: the configured modifier key with the
/// binding's own modifiers added.
pub open spec fn mods_mask(base: u16, mods: Seq<Seq<char>>) -> u16
    decreases mods.len(),
{
    if mods.len() == 0 {
        base
    } else {
        mods_mask(base, mods.drop_last()) | mask_of(mods.last())
    }
}

/// The grabbed keys for the key bindings `kbs`, with `mod_key` as the
/// modifier key: each binding whose key has a keycode, in order.
pub open spec fn grabs_for(kbs: Seq<KeyBindingView>, mod_key: Seq<char>, mapping: KeyboardMapping) -> Seq<BindingView>
    decreases kbs.len(),
{
    if kbs.len() == 0 {
        seq![]
    } else {
        let rest = grabs_for(kbs.drop_last(), mod_key, mapping);
        let b = kbs.last();
        match key_keycode(mapping, b.key) {
            Some(kc) => rest.push(BindingView { mask: mods_mask(mask_of(mod_key), b.mods), keycode: kc, action: b.action }),
            None => rest,
        }
    }
}

/// Every key of the configuration can be looked up under `mapping`.
pub open spec fn config_fits(config: &Config, mapping: KeyboardMapping) -> bool {
    forall|i: int| 0 <= i < config.keybindings@.len() ==> key_fits(mapping, #[trigger] config.keybindings@[i].key@)
}

/// The modifiers that do not matter when a key is pressed, unless the grab
/// itself names them: Lock (Caps Lock), Mod2 (Num Lock), Mod3 and Mod5.
pub const IGNORED_MODIFIERS: u16 = 0xb2;

/// Whether a grab fires on a press of `keycode` with modifier state `state`:
/// the keycode is the grab's, and the state is the grab's mask once the
/// ignored modifiers that the mask does not name are taken out.
pub open spec fn fires(b: BindingView, keycode: u8, state: u16) -> bool {
    b.keycode == keycode && state & !(IGNORED_MODIFIERS & !b.mask) == b.mask
}

/// The index of the first grab that fires on `keycode` with modifier state
/// `state`.
pub open spec fn first_match(bs: Seq<BindingView>, keycode: u8, state: u16) -> Option<nat>
    decreases bs.len(),
{
    if bs.len() == 0 {
        None
    } else if fires(bs[0], keycode, state) {
        Some(0)
    } else {
        match first_match(bs.drop_first(), keycode, state) {
            Some(i) => Some(i + 1),
            None => None,
        }
    }
}

proof fn lemma_first_match(bs: Seq<BindingView>, keycode: u8, state: u16, j: int)
    requires
        0 <= j <= bs.len(),
        forall|i: int| 0 <= i < j ==> !fires(#[trigger] bs[i], keycode, state),
    ensures
        j < bs.len() && fires(bs[j], keycode, state) ==> first_match(bs, keycode, state) == Some(j as nat),
        j == bs.len() ==> first_match(bs, keycode, state) is None,
    decreases j,
{
    if j > 0 {
        lemma_first_match(bs.drop_first(), keycode, state, j - 1);
    }
}

/// The key grabs of the window manager and the modifier key.
pub struct BindingManager {
    bindings: Vec<Binding>,
    pub modifiers: u16,
    root: u32,
}

impl BindingManager {
    pub closed spec fn grabs(&self) -> Seq<BindingView> {
        self.bindings@.map_values(|b: Binding| b@)
    }

    pub closed spec fn modifier_mask(&self) -> u16 {
        self.modifiers
    }

    pub closed spec fn root_window(&self) -> u32 {
        self.root
    }

    /// The grab that a key press of `keycode` with modifier state `state`
    /// fires: the first that `fires` on it.
    pub open spec fn matching(&self, keycode: u8, state: u16) -> Option<nat> {
        first_match(self.grabs(), keycode, state)
    }

    /// The grabs for the key bindings of `config` on the root window `root`.
    pub fn new(config: &Config, mapping: &KeyboardMapping, root: u32) -> (m: Self)
        requires
            config_fits(config, *mapping),
        ensures
            m.grabs() == grabs_for(bindings_view(config.keybindings@), config.mod_key@, *mapping),
            m.modifier_mask() == mask_of(config.mod_key@),
            m.root_window() == root,
    {
        let mut mgr = BindingManager { bindings: Vec::new(), modifiers: 0x40, root };
        mgr.rebuild(config, mapping);
        mgr
    }

    /// Recomputes the grabs from the key bindings of `config`.
    pub fn rebuild(&mut self, config: &Config, mapping: &KeyboardMapping)
        requires
            config_fits(config, *mapping),
        ensures
            final(self).grabs() == grabs_for(bindings_view(config.keybindings@), config.mod_key@, *mapping),
            final(self).modifier_mask() == mask_of(config.mod_key@),
            final(self).root_window() == old(self).root_window(),
    {
        let mod_mask = mod_string_to_mask(config.mod_key.as_str());
        let mut bindings: Vec<Binding> = Vec::new();
        let ghost kbs = bindings_view(config.keybindings@);
        let mut i: usize = 0;
        assert(kbs.take(0) =~= Seq::<KeyBindingView>::empty());
        while i < config.keybindings.len()
            invariant
                kbs == bindings_view(config.keybindings@),
                config_fits(config, *mapping),
                mod_mask == mask_of(config.mod_key@),
                0 <= i <= config.keybindings@.len(),
                bindings@.map_values(|b: Binding| b@) == grabs_for(kbs.take(i as int), config.mod_key@, *mapping),
            decreases config.keybindings@.len() - i,
        {
            let kb = &config.keybindings[i];
            let mut mask: u16 = mod_mask;
            let mut j: usize = 0;
            while j < kb.mods.len()
                invariant
                    0 <= j <= kb.mods@.len(),
                    mask == mods_mask(mod_mask, kb.mods@.map_values(|m: String| m@).take(j as int)),
                decreases kb.mods@.len() - j,
            {
                let ghost ms = kb.mods@.map_values(|m: String| m@);
                assert(ms.take(j as int + 1).drop_last() =~= ms.take(j as int));
                let m = mod_string_to_mask(kb.mods[j].as_str());
                if m != 0 {
                    mask = mask | m;
                } else {
                    assert(mask | 0u16 == mask) by (bit_vector);
                }
                j = j + 1;
            }
            assert(kb.mods@.map_values(|m: String| m@).take(j as int) =~= kb.mods@.map_values(|m: String| m@));
            assert(kbs.take(i as int + 1).drop_last() =~= kbs.take(i as int));
            assert(kbs[i as int] == kb@);
            let keycode = key_str_to_keycode(mapping, kb.key.as_str());
            let ghost before = bindings@.map_values(|b: Binding| b@);
            match keycode {
                Some(kc) => {
                    bindings.push(Binding { mask, keycode: kc, action: kb.action.clone() });
                    assert(bindings@.map_values(|b: Binding| b@) =~= before.push(bindings@.last()@));
                },
                None => {},
            }
            i = i + 1;
        }
        assert(kbs.take(i as int) =~= kbs);
        self.bindings = bindings;
        self.modifiers = mod_mask;
    }

    /// The grabbed keys, in order.
    pub fn bindings(&self) -> (bs: &Vec<Binding>)
        ensures
            bs@.map_values(|b: Binding| b@) == self.grabs(),
    {
        &self.bindings
    }

    /// The root window the keys are grabbed on.
    pub fn root(&self) -> (r: u32)
        ensures
            r == self.root_window(),
    {
        self.root
    }

    /// The action of the grab that the key press fires, if any.
    pub fn handle_keypress(&self, detail: u8, state: u16) -> (a: Option<&BindingAction>)
        ensures
            match self.matching(detail, state) {
                Some(i) => a matches Some(x) && i < self.grabs().len() && x@ == self.grabs()[i as int].action,
                None => a is None,
            },
    {
        let mut i: usize = 0;
        while i < self.bindings.len()
            invariant
                0 <= i <= self.bindings@.len(),
                forall|k: int| 0 <= k < i ==> !fires(#[trigger] self.grabs()[k], detail, state),
            decreases self.bindings@.len() - i,
        {
            let b = &self.bindings[i];
            assert(self.grabs()[i as int] == b@);
            if b.keycode == detail && (state & !(IGNORED_MODIFIERS & !b.mask)) == b.mask {
                proof {
                    lemma_first_match(self.grabs(), detail, state, i as int);
                }
                return Some(&b.action);
            }
            i = i + 1;
        }
        proof {
            lemma_first_match(self.grabs(), detail, state, i as int);
        }
        None
    }
}

/// An ignored modifier that a grab's mask does not name makes no difference
/// to whether the grab fires.
pub proof fn lemma_unnamed_ignored_modifier_no_difference(b: BindingView, keycode: u8, state: u16, extra: u16)
    requires
        extra & !IGNORED_MODIFIERS == 0,
        extra & b.mask == 0,
    ensures
        fires(b, keycode, state | extra) == fires(b, keycode, state),
{
    let m = b.mask;
    assert((state | extra) & !(IGNORED_MODIFIERS & !m) == state & !(IGNORED_MODIFIERS & !m)) by (bit_vector)
        requires
            extra & !IGNORED_MODIFIERS == 0,
            extra & m == 0,
    ;
}

proof fn lemma_first_match_extra(bs: Seq<BindingView>, keycode: u8, state: u16, extra: u16)
    requires
        extra & !IGNORED_MODIFIERS == 0,
        forall|k: int| 0 <= k < bs.len() ==> extra & (#[trigger] bs[k]).mask == 0,
    ensures
        first_match(bs, keycode, state | extra) == first_match(bs, keycode, state),
    decreases bs.len(),
{
    if bs.len() > 0 {
        lemma_unnamed_ignored_modifier_no_difference(bs[0], keycode, state, extra);
        assert forall|k: int| 0 <= k < bs.drop_first().len() implies extra & (#[trigger] bs.drop_first()[k]).mask == 0 by {
            assert(bs.drop_first()[k] == bs[k + 1]);
        }
        lemma_first_match_extra(bs.drop_first(), keycode, state, extra);
    }
}

/// Caps Lock, Num Lock and the other ignored modifiers make no difference to
/// which grab a key press fires, as long as no grab names them.
pub proof fn lemma_ignored_modifiers_make_no_difference(m: &BindingManager, detail: u8, state: u16, extra: u16)
    requires
        extra & !IGNORED_MODIFIERS == 0,
        forall|k: int| 0 <= k < m.grabs().len() ==> extra & (#[trigger] m.grabs()[k]).mask == 0,
    ensures
        m.matching(detail, state | extra) == m.matching(detail, state),
{
    lemma_first_match_extra(m.grabs(), detail, state, extra);
}

/// A grab whose mask names an ignored modifier (Mod5 as the modifier key, for
/// instance) fires when that modifier is held with its key.
pub proof fn lemma_named_modifier_fires(b: BindingView, state: u16)
    requires
        state == b.mask,
    ensures
        fires(b, b.keycode, state),
{
    let m = b.mask;
    assert(m & !(IGNORED_MODIFIERS & !m) == m) by (bit_vector);
}

} // verus!
