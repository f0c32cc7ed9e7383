use expiecustwm::x11::{
    atom_names, desktop_names_bytes, mod_string_to_mask, parse_color, property_words, string_to_keysym,
    wallpaper_pixel, Atoms, ATOM_COUNT, WORKSPACE_COUNT,
};

#[test]
fn parse_color_reads_hex() {
    assert_eq!(parse_color("#5294e2"), 0x5294e2);
    assert_eq!(parse_color("222222"), 0x222222);
    assert_eq!(parse_color("##FFffFF"), 0xffffff);
}

#[test]
fn parse_color_bad_lengths_give_default() {
    assert_eq!(parse_color("#fff"), 0x222222);
    assert_eq!(parse_color(""), 0x222222);
    assert_eq!(parse_color("#1234567"), 0x222222);
}

#[test]
fn parse_color_bad_components_are_zero() {
    assert_eq!(parse_color("#zz00ff"), 0x0000ff);
    assert_eq!(parse_color("#+f+f+f"), 0x0f0f0f);
    assert_eq!(parse_color("#-f0000"), 0x000000);
    assert_eq!(parse_color("#\u{e9}\u{e9}\u{e9}"), 0);
}

#[test]
fn color_round_trip() {
    for &(r, g, b) in &[(0u8, 0u8, 0u8), (0x52, 0x94, 0xe2), (255, 1, 16)] {
        let text = format!("#{:02x}{:02x}{:02x}", r, g, b);
        assert_eq!(parse_color(&text), (r as u32) << 16 | (g as u32) << 8 | b as u32);
    }
}

#[test]
fn wallpaper_pixel_sets_alpha() {
    assert_eq!(wallpaper_pixel("#1a2b3c"), 0xff1a2b3c);
    assert_eq!(wallpaper_pixel("nothex"), 0xff1a1a2e);
    assert_eq!(wallpaper_pixel("#100000000"), 0xff1a1a2e);
    assert_eq!(wallpaper_pixel("000000001"), 0xff000001);
}

#[test]
fn keysyms_of_named_keys() {
    assert_eq!(string_to_keysym("Tab"), 0xff09);
    assert_eq!(string_to_keysym("Return"), 0xff0d);
    assert_eq!(string_to_keysym("Alt"), 0xffe9);
    assert_eq!(string_to_keysym("Mod4"), 0xffeb);
    assert_eq!(string_to_keysym("Super"), 0xffeb);
    assert_eq!(string_to_keysym("F12"), 0xffc9);
    assert_eq!(string_to_keysym("XF86AudioMute"), 0x1008ff12);
    assert_eq!(string_to_keysym("space"), 0x20);
}

#[test]
fn keysyms_of_single_characters() {
    assert_eq!(string_to_keysym("j"), 'j' as u32);
    assert_eq!(string_to_keysym("1"), '1' as u32);
    assert_eq!(string_to_keysym("\u{e9}"), 0);
    assert_eq!(string_to_keysym("nosuchkey"), 0);
    assert_eq!(string_to_keysym(""), 0);
}

#[test]
fn modifier_masks() {
    assert_eq!(mod_string_to_mask("Shift"), 1);
    assert_eq!(mod_string_to_mask("Ctrl"), 4);
    assert_eq!(mod_string_to_mask("Control"), 4);
    assert_eq!(mod_string_to_mask("Alt"), 8);
    assert_eq!(mod_string_to_mask("Mod2"), 16);
    assert_eq!(mod_string_to_mask("Mod3"), 32);
    assert_eq!(mod_string_to_mask("Win"), 64);
    assert_eq!(mod_string_to_mask("Mod5"), 128);
    assert_eq!(mod_string_to_mask("Hyper"), 0);
}

#[test]
fn desktop_names_are_nul_terminated_numbers() {
    assert_eq!(desktop_names_bytes(WORKSPACE_COUNT), b"1\x002\x003\x004\x005\x00".to_vec());
    assert_eq!(desktop_names_bytes(0), Vec::<u8>::new());
    let twelve = desktop_names_bytes(12);
    assert!(twelve.ends_with(b"9\x0010\x0011\x0012\x00"));
}

#[test]
fn atoms_from_interned_ids() {
    let names = atom_names();
    assert_eq!(names.len(), ATOM_COUNT);
    assert_eq!(names[0], "WM_PROTOCOLS");
    assert_eq!(names[11], "_NET_SUPPORTED");
    assert_eq!(names[20], "_NET_WM_STRUT_PARTIAL");
    let ids: Vec<u32> = (100..121).collect();
    let a = Atoms::from_interned(&ids);
    assert_eq!(a.wm_protocols, 100);
    assert_eq!(a.net_wm_window_type_dock, 107);
    assert_eq!(a.net_supported, 111);
    assert_eq!(a.net_wm_strut_partial, 120);
    assert_eq!(a.ewmh_atoms, (111..121).collect::<Vec<u32>>());
}

#[test]
fn property_words_read_native_order() {
    let words = [7u32, 0xdeadbeef, 0];
    let bytes: Vec<u8> = words.iter().flat_map(|w| w.to_ne_bytes()).collect();
    assert_eq!(property_words(32, &bytes), words.to_vec());
    assert!(property_words(8, &bytes).is_empty());
    assert!(property_words(32, &[]).is_empty());
}
