use godot_neovim::dispatch::{
    handle_pending_char_op, handle_pending_mark_op, process_key_event, Effect, InputState,
    KeyEffect, KeyOutcome, KeyState,
};
use godot_neovim::keys::{KeyInput, KEY_BRACKETLEFT, KEY_ESCAPE, KEY_F, KEY_SHIFT, KEY_SLASH};

fn cv(s: &str) -> Vec<char> {
    s.chars().collect()
}

fn st(v: &[char]) -> String {
    v.iter().collect()
}

fn key(keycode: u32, unicode: u32, ctrl: bool, shift: bool) -> KeyInput {
    KeyInput {
        keycode,
        unicode,
        ctrl,
        alt: false,
        shift,
        meta: false,
        command_or_control: ctrl,
        altgr_held: false,
    }
}

fn ch(c: char) -> KeyInput {
    key(c.to_ascii_uppercase() as u32, c as u32, false, c.is_ascii_uppercase())
}

fn state(mode: &str) -> InputState {
    KeyState {
        mode: cv(mode),
        last_key: vec![],
        count: vec![],
        selected_register: None,
        pending_char_op: None,
        pending_mark_op: None,
        pending_macro_op: None,
        recording_macro: None,
        playing_macro: false,
        macro_buffer: vec![],
        visual_mode_type: 'v',
    }
}

fn describe(e: &Effect) -> String {
    match e {
        KeyEffect::SendKeys(k) => format!("send {}", st(k)),
        KeyEffect::ToggleComment => "toggle-comment".to_string(),
        KeyEffect::RestartKeyTimer => "restart-timer".to_string(),
        KeyEffect::FindChar(c, f, t) => format!("find {} {} {}", c, f, t),
        KeyEffect::SetMark(c) => format!("set-mark {}", c),
        KeyEffect::JumpToMarkLine(c) => format!("mark-line {}", c),
        _ => "other".to_string(),
    }
}

fn outcome(o: &KeyOutcome<Vec<char>>) -> String {
    match o {
        KeyOutcome::Handled => "handled".to_string(),
        KeyOutcome::Dispatch(k) => format!("dispatch {}", st(k)),
        KeyOutcome::PassThrough => "pass".to_string(),
        KeyOutcome::Forward(k) => format!("forward {}", st(k)),
        KeyOutcome::Undefined => "undefined".to_string(),
    }
}

fn press(s: &mut InputState, k: KeyInput) -> (Vec<String>, String) {
    let r = process_key_event(s, &k);
    (r.effects.iter().map(describe).collect(), outcome(&r.outcome))
}

#[test]
fn keys_for_the_keymap_and_the_editor() {
    let mut s = state("n");
    assert_eq!(press(&mut s, key(KEY_F, 'f' as u32, true, false)), (vec![], "dispatch <C-f>".to_string()));
    assert_eq!(press(&mut s, key(KEY_SLASH, '/' as u32, true, false)), (vec!["toggle-comment".to_string()], "pass".to_string()));
    assert_eq!(press(&mut s, ch('/')).1, "dispatch /");
    assert_eq!(press(&mut s, ch('n')).1, "dispatch n");
    assert_eq!(press(&mut s, ch('N')).1, "dispatch N");
    assert_eq!(press(&mut s, ch('u')).1, "dispatch u");
}

#[test]
fn keys_for_neovim() {
    let mut s = state("n");
    assert_eq!(press(&mut s, ch('j')), (vec![], "forward j".to_string()));
    assert_eq!(press(&mut s, ch('V')).1, "forward V");
    assert_eq!(s.visual_mode_type, 'V');
    assert_eq!(press(&mut s, key(53, '5' as u32, false, false)), (vec!["send 5".to_string(), "restart-timer".to_string()], "handled".to_string()));
    assert_eq!(s.count, cv("5"));
    // >> and << wait for their second key.
    let mut s = state("n");
    assert_eq!(press(&mut s, key(46, '>' as u32, false, true)), (vec![], "handled".to_string()));
    assert_eq!(st(&s.last_key), ">");
    assert_eq!(press(&mut s, key(46, '>' as u32, false, true)), (vec!["send >>".to_string()], "handled".to_string()));
    assert!(s.last_key.is_empty());
    assert_eq!(press(&mut s, key(44, '<' as u32, false, true)).0, Vec::<String>::new());
    assert_eq!(press(&mut s, key(44, '<' as u32, false, true)).0, vec!["send <LT><LT>"]);
    assert_eq!(press(&mut s, key(KEY_BRACKETLEFT, '[' as u32, false, false)).0, Vec::<String>::new());
    assert_eq!(press(&mut s, key(KEY_BRACKETLEFT, '[' as u32, false, false)).0, vec!["send [["]);
    // While recording, forwarded keys are kept.
    let mut s = state("n");
    s.recording_macro = Some('q');
    let _ = press(&mut s, ch('w'));
    assert_eq!(s.macro_buffer, vec![cv("w")]);
}

#[test]
fn pending_operations() {
    let mut s = state("n");
    s.pending_char_op = Some('f');
    let r = handle_pending_char_op(&mut s, &ch('x'));
    assert!(r.consumed);
    assert_eq!(r.effects.iter().map(describe).collect::<Vec<_>>(), vec!["find x true false", "send fx"]);
    assert_eq!(s.pending_char_op, None);
    // A lone modifier leaves the operation waiting.
    s.pending_char_op = Some('t');
    let r = handle_pending_char_op(&mut s, &key(KEY_SHIFT, 0, false, true));
    assert!(!r.consumed);
    assert_eq!(s.pending_char_op, Some('t'));
    // Escape cancels it and goes on to normal handling.
    let r = handle_pending_char_op(&mut s, &key(KEY_ESCAPE, 0, false, false));
    assert!(!r.consumed);
    assert_eq!(s.pending_char_op, None);

    s.pending_mark_op = Some('m');
    let r = handle_pending_mark_op(&mut s, &ch('a'));
    assert!(r.consumed);
    assert_eq!(r.effects.iter().map(describe).collect::<Vec<_>>(), vec!["set-mark a"]);
    s.pending_mark_op = Some('\'');
    let r = handle_pending_mark_op(&mut s, &ch('b'));
    assert_eq!(r.effects.iter().map(describe).collect::<Vec<_>>(), vec!["mark-line b"]);
    // Only a-z name marks.
    s.pending_mark_op = Some('m');
    let r = handle_pending_mark_op(&mut s, &ch('A'));
    assert!(!r.consumed);
    assert_eq!(s.pending_mark_op, None);
}
