use secret_entry::settings::{
    hidden_settings, plan_hidden_input, restore_target, TermSettings, ECHONL_FLAG, ECHO_FLAG,
    ICANON_FLAG,
};

fn noisy_settings() -> TermSettings {
    // Every low bit set: echo on, canonical mode on, plus unrelated bits.
    TermSettings { lflag: 0xff, veof: 4, verase: 127, vkill: 21 }
}

#[test]
fn hidden_settings_hide_echo_keep_newline() {
    let orig = noisy_settings();
    let canonical = hidden_settings(&orig, false);
    assert_eq!(canonical.lflag & ECHO_FLAG, 0);
    assert_eq!(canonical.lflag & ECHONL_FLAG, ECHONL_FLAG);
    // Canonical mode stays on for the silent strategy.
    assert_eq!(canonical.lflag & ICANON_FLAG, ICANON_FLAG);
    assert_eq!(canonical.lflag, 0xff & !8 | 64);

    let raw = hidden_settings(&orig, true);
    assert_eq!(raw.lflag & ECHO_FLAG, 0);
    assert_eq!(raw.lflag & ECHONL_FLAG, ECHONL_FLAG);
    assert_eq!(raw.lflag & ICANON_FLAG, 0);
    assert_eq!(raw.lflag, (0xff & !8 | 64) & !2);
}

#[test]
fn hidden_settings_keep_control_codes() {
    let orig = noisy_settings();
    let hidden = hidden_settings(&orig, true);
    assert_eq!(hidden.veof, orig.veof);
    assert_eq!(hidden.verase, orig.verase);
    assert_eq!(hidden.vkill, orig.vkill);
}

#[test]
fn restore_returns_pristine_snapshot() {
    let orig = noisy_settings();
    for char_by_char in [false, true] {
        let change = plan_hidden_input(&orig, char_by_char);
        // The working copy differs, the snapshot does not.
        assert_ne!(change.active.lflag & ECHO_FLAG, ECHO_FLAG);
        let restored = restore_target(&change);
        assert_eq!(restored, orig);
        assert_eq!(restored.lflag, orig.lflag);
    }
}
