use godot_neovim::keys::{
    is_visual_mode, key_event_to_nvim_notation, key_event_to_nvim_string, nvim_key_defined_exec,
    KeyInput, KEY_BRACKETLEFT, KEY_ENTER, KEY_ESCAPE, KEY_F1, KEY_J, KEY_LEFT, KEY_R, KEY_SPACE,
    KEY_X,
};

fn key(keycode: u32, unicode: u32, ctrl: bool, alt: bool, shift: bool) -> KeyInput {
    KeyInput {
        keycode,
        unicode,
        ctrl,
        alt,
        shift,
        meta: false,
        command_or_control: ctrl,
        altgr_held: false,
    }
}

fn normal(k: KeyInput) -> Option<String> {
    assert!(nvim_key_defined_exec(&k));
    key_event_to_nvim_string(&k)
}

#[test]
fn normal_mode_strings() {
    assert_eq!(normal(key(KEY_J, 'j' as u32, false, false, false)), Some("j".to_string()));
    assert_eq!(normal(key(KEY_J, 'j' as u32, false, false, true)), Some("J".to_string()));
    assert_eq!(normal(key(KEY_ESCAPE, 0, false, false, false)), Some("<Esc>".to_string()));
    assert_eq!(normal(key(KEY_BRACKETLEFT, 0, true, false, false)), Some("<Esc>".to_string()));
    assert_eq!(normal(key(KEY_R, 'r' as u32, true, false, false)), Some("<C-r>".to_string()));
    assert_eq!(normal(key(KEY_ENTER, 0, false, true, false)), Some("<A-CR>".to_string()));
    assert_eq!(normal(key(KEY_SPACE, ' ' as u32, false, false, false)), Some(" ".to_string()));
    assert_eq!(normal(key(KEY_F1 + 4, 0, false, false, false)), Some("<F5>".to_string()));
    assert_eq!(normal(key(12345, 0, false, false, false)), None);
    // `<` with a modifier cannot be written.
    assert!(!nvim_key_defined_exec(&key(60, '<' as u32, true, false, false)));
}

#[test]
fn insert_mode_notation() {
    assert_eq!(key_event_to_nvim_notation(&key(KEY_ENTER, 0, false, false, false)), "<CR>");
    assert_eq!(key_event_to_nvim_notation(&key(KEY_ENTER, 0, false, false, true)), "<S-CR>");
    assert_eq!(key_event_to_nvim_notation(&key(KEY_LEFT, 0, true, false, false)), "<C-Left>");
    assert_eq!(key_event_to_nvim_notation(&key(KEY_ESCAPE, 0, false, false, false)), "");
    assert_eq!(key_event_to_nvim_notation(&key(KEY_SPACE, ' ' as u32, false, false, false)), " ");
    assert_eq!(key_event_to_nvim_notation(&key(KEY_X, 'X' as u32, true, false, true)), "<C-x>");
    assert_eq!(key_event_to_nvim_notation(&key(0, 'ä' as u32, false, true, false)), "<A-ä>");
    assert_eq!(key_event_to_nvim_notation(&key(KEY_X, 'x' as u32, true, true, false)), "<C-A-x>");
    assert_eq!(key_event_to_nvim_notation(&key(KEY_X, 'x' as u32, false, false, false)), "x");
}

#[test]
fn visual_modes() {
    for m in ["v", "V", "\u{16}", "^V", "CTRL-V"] {
        assert!(is_visual_mode(m), "{}", m);
    }
    for m in ["n", "i", "visual", "vV", ""] {
        assert!(!is_visual_mode(m), "{}", m);
    }
}
