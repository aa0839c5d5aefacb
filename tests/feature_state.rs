use key_stream::feature_state::FeatureState;
use key_stream::hid_keycodes::{
    KBD_A, KBD_B, KBD_C, KBD_D, KBD_E, KBD_F, KBD_G, KBD_JP_COLON, KBD_MODIFIER_LEFT_SHIFT,
    KBD_MODIFIER_LEFT_UI,
};
use key_stream::keymap::{asterisk, Command, ModifierKey};

#[test]
fn test_feature_state_pressed() {
    let a = Command::KeyPress { kc: KBD_A };

    let mut state = FeatureState::new();
    assert_eq!(state.make_key_report(), [0, 0, 0, 0, 0, 0, 0, 0]);
    state.press(&a);
    assert_eq!(state.make_key_report(), [0, 0, KBD_A, 0, 0, 0, 0, 0]);
    state.release(&a);
    assert_eq!(state.make_key_report(), [0, 0, 0, 0, 0, 0, 0, 0]);
}

#[test]
fn test_feature_state_pressed_multi_key() {
    let a = Command::KeyPress { kc: KBD_A };
    let b = Command::KeyPress { kc: KBD_B };

    let mut state = FeatureState::new();
    assert_eq!(state.make_key_report(), [0, 0, 0, 0, 0, 0, 0, 0]);

    state.press(&a);
    assert_eq!(state.make_key_report(), [0, 0, KBD_A, 0, 0, 0, 0, 0]);

    state.press(&a); // no change
    assert_eq!(state.make_key_report(), [0, 0, KBD_A, 0, 0, 0, 0, 0]);

    state.press(&b);
    assert_eq!(state.make_key_report(), [0, 0, KBD_A, KBD_B, 0, 0, 0, 0]);

    state.release(&a);
    assert_eq!(state.make_key_report(), [0, 0, KBD_B, 0, 0, 0, 0, 0]);

    state.release(&a); // no change
    assert_eq!(state.make_key_report(), [0, 0, KBD_B, 0, 0, 0, 0, 0]);

    state.release(&b);
    assert_eq!(state.make_key_report(), [0, 0, 0, 0, 0, 0, 0, 0]);
}

#[test]
fn test_feature_state_modified_key() {
    let shift = Command::PressModifier { mk: ModifierKey::SHIFT1 };
    let a = Command::KeyPress { kc: KBD_A };

    let mut state = FeatureState::new();
    state.press(&shift);
    state.press(&a);
    assert_eq!(
        state.make_key_report(),
        [KBD_MODIFIER_LEFT_SHIFT, 0, KBD_A, 0, 0, 0, 0, 0]
    );

    state.press(&asterisk());
    assert_eq!(
        state.make_key_report(),
        [KBD_MODIFIER_LEFT_SHIFT, 0, KBD_A, KBD_JP_COLON, 0, 0, 0, 0]
    );

    state.release(&asterisk());
    assert_eq!(
        state.make_key_report(),
        [KBD_MODIFIER_LEFT_SHIFT, 0, KBD_A, 0, 0, 0, 0, 0]
    );

    state.release(&a);
    assert_eq!(
        state.make_key_report(),
        [KBD_MODIFIER_LEFT_SHIFT, 0, 0, 0, 0, 0, 0, 0]
    );

    state.release(&shift);
    assert_eq!(state.make_key_report(), [0, 0, 0, 0, 0, 0, 0, 0]);
}

#[test]
fn test_feature_state_modified_key2() {
    let shift = Command::PressModifier { mk: ModifierKey::SHIFT1 };
    let a = Command::KeyPress { kc: KBD_A };

    let mut state = FeatureState::new();
    state.press(&shift);
    state.press(&a);
    assert_eq!(
        state.make_key_report(),
        [KBD_MODIFIER_LEFT_SHIFT, 0, KBD_A, 0, 0, 0, 0, 0]
    );

    state.press(&asterisk());
    assert_eq!(
        state.make_key_report(),
        [KBD_MODIFIER_LEFT_SHIFT, 0, KBD_A, KBD_JP_COLON, 0, 0, 0, 0]
    );

    state.release(&a);
    assert_eq!(
        state.make_key_report(),
        [KBD_MODIFIER_LEFT_SHIFT, 0, KBD_JP_COLON, 0, 0, 0, 0, 0]
    );

    state.release(&shift);
    assert_eq!(
        state.make_key_report(),
        [KBD_MODIFIER_LEFT_SHIFT, 0, KBD_JP_COLON, 0, 0, 0, 0, 0],
    );

    state.release(&asterisk());
    assert_eq!(state.make_key_report(), [0, 0, 0, 0, 0, 0, 0, 0]);
}

#[test]
fn test_feature_state_internal_mod() {
    let mod1 = Command::PressModifier { mk: ModifierKey::MOD1 };
    let mod2 = Command::PressModifier { mk: ModifierKey::MOD2 };

    let mut state = FeatureState::new();
    state.press(&mod1);
    assert_eq!(state.mods(), [true, false, false]);
    state.press(&mod2);
    assert_eq!(state.mods(), [true, true, false]);
    state.release(&mod1);
    assert_eq!(state.mods(), [false, true, false]);
    state.release(&mod2);
    assert_eq!(state.mods(), [false, false, false]);
}

#[test]
fn press_and_release_report_whether_the_report_changes() {
    let mut state = FeatureState::new();
    assert!(!state.press(&Command::Nop));
    assert!(!state.press(&Command::PressModifier { mk: ModifierKey::MOD3 }));
    assert_eq!(state.mods(), [false, false, true]);
    assert!(state.press(&Command::KeyPress { kc: KBD_A }));
    assert!(state.press(&Command::PressModifier { mk: ModifierKey::UI1 }));
    assert!(state.release(&Command::KeyPress { kc: KBD_B }));
    assert!(!state.release(&Command::PressModifier { mk: ModifierKey::MOD3 }));
    assert_eq!(state.mods(), [false, false, false]);
    assert_eq!(
        state.make_key_report(),
        [KBD_MODIFIER_LEFT_UI, 0, KBD_A, 0, 0, 0, 0, 0]
    );
}

#[test]
fn seventh_key_is_dropped() {
    let keys = [KBD_A, KBD_B, KBD_C, KBD_D, KBD_E, KBD_F, KBD_G];
    let mut state = FeatureState::new();
    for kc in keys.iter() {
        state.press(&Command::KeyPress { kc: *kc });
    }
    assert_eq!(
        state.make_key_report(),
        [0, 0, KBD_A, KBD_B, KBD_C, KBD_D, KBD_E, KBD_F]
    );
    // The dropped key was never active: releasing it changes nothing.
    state.release(&Command::KeyPress { kc: KBD_G });
    assert_eq!(
        state.make_key_report(),
        [0, 0, KBD_A, KBD_B, KBD_C, KBD_D, KBD_E, KBD_F]
    );
    // Releases in FIFO order keep the rest left-packed.
    state.release(&Command::KeyPress { kc: KBD_A });
    assert_eq!(state.make_key_report(), [0, 0, KBD_B, KBD_C, KBD_D, KBD_E, KBD_F, 0]);
    // A freed slot takes a new key at the end.
    state.press(&Command::KeyPress { kc: KBD_G });
    assert_eq!(
        state.make_key_report(),
        [0, 0, KBD_B, KBD_C, KBD_D, KBD_E, KBD_F, KBD_G]
    );
    // Releases in LIFO order.
    state.release(&Command::KeyPress { kc: KBD_G });
    assert_eq!(state.make_key_report(), [0, 0, KBD_B, KBD_C, KBD_D, KBD_E, KBD_F, 0]);
    state.release(&Command::KeyPress { kc: KBD_F });
    assert_eq!(state.make_key_report(), [0, 0, KBD_B, KBD_C, KBD_D, KBD_E, 0, 0]);
    // Release from the middle.
    state.release(&Command::KeyPress { kc: KBD_C });
    assert_eq!(state.make_key_report(), [0, 0, KBD_B, KBD_D, KBD_E, 0, 0, 0]);
}

#[test]
fn press_then_release_restores_the_report() {
    let mut state = FeatureState::new();
    state.press(&Command::KeyPress { kc: KBD_A });
    state.press(&Command::PressModifier { mk: ModifierKey::SHIFT1 });
    let before = state.make_key_report();
    state.press(&asterisk());
    state.release(&asterisk());
    assert_eq!(state.make_key_report(), before);
    assert_eq!(before, [KBD_MODIFIER_LEFT_SHIFT, 0, KBD_A, 0, 0, 0, 0, 0]);
}

#[test]
fn report_is_idempotent_and_reset_latches() {
    let mut state = FeatureState::new();
    state.press(&Command::KeyPress { kc: KBD_A });
    assert!(!state.requests_reset());
    let first = state.make_key_report();
    assert_eq!(state.make_key_report(), first);
    state.press(&Command::RequestReset);
    assert!(!state.requests_reset());
    assert_eq!(state.make_key_report(), [0, 0, KBD_A, 0, 0, 0, 0, 0]);
    assert!(state.requests_reset());
    state.release(&Command::RequestReset);
    state.make_key_report();
    assert!(state.requests_reset());
}

#[test]
fn combined_modifier_bits() {
    let mut state = FeatureState::new();
    state.press(&Command::ModifiedKey {
        mks: KBD_MODIFIER_LEFT_UI | KBD_MODIFIER_LEFT_SHIFT,
        kc: KBD_A,
    });
    assert_eq!(
        state.make_key_report(),
        [KBD_MODIFIER_LEFT_UI | KBD_MODIFIER_LEFT_SHIFT, 0, KBD_A, 0, 0, 0, 0, 0]
    );
}
