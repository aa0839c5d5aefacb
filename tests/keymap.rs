use key_stream::hid_keycodes::{
    KBD_A, KBD_ENTER, KBD_JP_CLOSE_BRACKET, KBD_JP_COLON, KBD_MODIFIER_LEFT_ALT,
    KBD_MODIFIER_LEFT_CTRL, KBD_MODIFIER_LEFT_SHIFT, KBD_MODIFIER_LEFT_UI,
};
use key_stream::keymap::{
    asterisk, expect_combo_key, find_combo, pos_to_map_index, valid_key, Command, Keymap,
    ModifierKey, N_KEYS,
};

#[test]
fn test_pos_to_map_index() {
    assert_eq!(pos_to_map_index(0x11), 0);
    assert_eq!(pos_to_map_index(0x16), 5);
    assert_eq!(pos_to_map_index(0x46), 23);
    assert_eq!(pos_to_map_index(0x91), 24);
    assert_eq!(pos_to_map_index(0xa1), 30);
    assert_eq!(pos_to_map_index(0xc6), 47);
}

#[test]
fn valid_keys_round_trip_through_map_index() {
    let mut seen = [false; N_KEYS];
    for i in 0..N_KEYS {
        let p = valid_key(i);
        assert_eq!(pos_to_map_index(p), i);
        assert!(!seen[i]);
        seen[i] = true;
    }
    assert_eq!(valid_key(0), 0x11);
    assert_eq!(valid_key(23), 0x46);
    assert_eq!(valid_key(24), 0x91);
    assert_eq!(valid_key(47), 0xc6);
}

#[test]
fn modifier_codes() {
    assert_eq!(ModifierKey::CTRL1.code(), KBD_MODIFIER_LEFT_CTRL);
    assert_eq!(ModifierKey::SHIFT1.code(), KBD_MODIFIER_LEFT_SHIFT);
    assert_eq!(ModifierKey::ALT1.code(), KBD_MODIFIER_LEFT_ALT);
    assert_eq!(ModifierKey::UI1.code(), KBD_MODIFIER_LEFT_UI);
    assert_eq!(ModifierKey::MOD1.code(), 0);
    assert_eq!(ModifierKey::MOD2.code(), 0);
    assert_eq!(ModifierKey::MOD3.code(), 0);
}

#[test]
fn command_is_defined() {
    assert!(!Command::Nop.is_defined());
    assert!(Command::KeyPress { kc: KBD_A }.is_defined());
    assert!(Command::RequestReset.is_defined());
    assert!(asterisk().is_defined());
    assert_eq!(
        asterisk(),
        Command::ModifiedKey { mks: KBD_MODIFIER_LEFT_SHIFT, kc: KBD_JP_COLON }
    );
}

#[test]
fn combos_are_found_in_either_order() {
    let km = Keymap::new();
    assert!(expect_combo_key(&km.combos, 0xa5));
    assert!(expect_combo_key(&km.combos, 0xa2));
    assert!(!expect_combo_key(&km.combos, 0x22));
    assert_eq!(
        find_combo(&km.combos, 0xa5, 0xa6),
        Some(Command::KeyPress { kc: KBD_JP_CLOSE_BRACKET })
    );
    assert_eq!(
        find_combo(&km.combos, 0xa6, 0xa5),
        Some(Command::KeyPress { kc: KBD_JP_CLOSE_BRACKET })
    );
    assert_eq!(find_combo(&km.combos, 0xa3, 0xa2), Some(Command::KeyPress { kc: KBD_ENTER }));
    assert_eq!(find_combo(&km.combos, 0xa5, 0xa5), None);
    assert_eq!(find_combo(&km.combos, 0xa2, 0xa6), None);
}

#[test]
fn layer_lookup_prefers_mod1() {
    let km = Keymap::new();
    let idx = pos_to_map_index(0x22);
    assert_eq!(km.lookup(&[false, false, false], idx), Command::KeyPress { kc: KBD_A });
    assert_eq!(km.lookup(&[true, true, true], idx), km.mod1[idx]);
    assert_eq!(km.lookup(&[false, true, true], idx), km.mod2[idx]);
    assert_eq!(km.lookup(&[false, false, true], idx), km.mod3[idx]);
}
