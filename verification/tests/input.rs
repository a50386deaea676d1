use godot_neovim::cmdline::{
    command_history_down, command_history_up, execute_command, handle_command_mode_input,
    has_line_range, open_command_line, parse_ex_command, repeat_last_ex_command, CommandKeyOutcome,
    CommandLine, ExCommand,
};
use godot_neovim::dispatch::{InputState, KeyState};
use godot_neovim::input::input;
use godot_neovim::keys::{
    KeyInput, KEY_BACKSPACE, KEY_COMMA, KEY_DOWN, KEY_ENTER, KEY_ESCAPE, KEY_F, KEY_SEMICOLON,
    KEY_UP, KEY_X,
};
use godot_neovim::modes::{
    handle_insert_mode_input, handle_replace_mode_input, handle_search_mode_input, SearchKeyOutcome,
};
use godot_neovim::normal::{handle_normal_mode_input, EditorCommand, NormalEffect, NormalOutcome};

fn cv(s: &str) -> Vec<char> {
    s.chars().collect()
}

fn st(v: &[char]) -> String {
    v.iter().collect()
}

fn key(keycode: u32, unicode: u32, ctrl: bool, shift: bool) -> KeyInput {
    KeyInput {
        keycode,
        unicode,
        ctrl,
        alt: false,
        shift,
        meta: false,
        command_or_control: ctrl,
        altgr_held: false,
    }
}

fn ch(c: char) -> KeyInput {
    key(c.to_ascii_uppercase() as u32, c as u32, false, c.is_ascii_uppercase())
}

fn state(mode: &str) -> InputState {
    KeyState {
        mode: cv(mode),
        last_key: vec![],
        count: vec![],
        selected_register: None,
        pending_char_op: None,
        pending_mark_op: None,
        pending_macro_op: None,
        recording_macro: None,
        playing_macro: false,
        macro_buffer: vec![],
        visual_mode_type: 'v',
    }
}

fn describe(e: &NormalEffect<Vec<char>, Vec<Vec<char>>>) -> String {
    match e {
        NormalEffect::SendKeys(k) => format!("send {}", st(k)),
        NormalEffect::SendClearingPrefix(k) => format!("send-clear {}", st(k)),
        NormalEffect::SendInsertKeys(k) => format!("insert {}", st(k)),
        NormalEffect::StoreMacro(r, b) => format!("store {} {}", r, b.len()),
        NormalEffect::Run(c) => format!("run {:?}", c),
    }
}

fn effects(r: &godot_neovim::normal::NResolution) -> Vec<String> {
    r.effects.iter().map(describe).collect()
}

fn handled(r: &godot_neovim::normal::NResolution) -> bool {
    matches!(r.outcome, NormalOutcome::Handled)
}

#[test]
fn normal_mode_keys() {
    let mut s = state("n");
    let r = handle_normal_mode_input(&mut s, &ch('x'));
    assert!(handled(&r));
    assert_eq!(effects(&r), vec!["send x"]);

    let r = handle_normal_mode_input(&mut s, &ch('X'));
    assert_eq!(effects(&r), vec!["send X"]);

    // f waits for its character.
    let r = handle_normal_mode_input(&mut s, &ch('f'));
    assert!(handled(&r));
    assert!(r.effects.is_empty());
    assert_eq!(s.pending_char_op, Some('f'));

    let mut s = state("n");
    let r = handle_normal_mode_input(&mut s, &key(KEY_SEMICOLON, ';' as u32, false, false));
    assert_eq!(effects(&r), vec!["run RepeatFindChar(true)", "send ;"]);
    let r = handle_normal_mode_input(&mut s, &key(KEY_COMMA, ',' as u32, false, false));
    assert_eq!(effects(&r), vec!["run RepeatFindChar(false)", "send ,"]);

    // A count is sent digit by digit and kept.
    let r = handle_normal_mode_input(&mut s, &key(51, '3' as u32, false, false));
    assert_eq!(effects(&r), vec!["send 3", "run RestartKeyTimer"]);
    assert_eq!(s.count, cv("3"));

    let mut s = state("n");
    let r = handle_normal_mode_input(&mut s, &key(KEY_F, 'f' as u32, true, false));
    assert_eq!(effects(&r), vec!["run CancelPendingOperator", "send <C-f>"]);
    let r = handle_normal_mode_input(&mut s, &key(KEY_X, 'x' as u32, true, false));
    assert_eq!(effects(&r), vec!["run IncrementNumber(false)"]);
    let r = handle_normal_mode_input(&mut s, &key(53, '%' as u32, false, true));
    assert_eq!(effects(&r), vec!["run JumpToMatchingBracket", "send %"]);
    assert!(EditorCommand::JumpToMatchingBracket == EditorCommand::JumpToMatchingBracket);
}

#[test]
fn recording_keeps_keys() {
    let mut s = state("n");
    s.recording_macro = Some('q');
    let r = handle_normal_mode_input(&mut s, &key(53, '%' as u32, false, true));
    assert!(handled(&r));
    assert_eq!(s.macro_buffer, vec![cv("%")]);
}

#[test]
fn insert_and_replace_mode_keys() {
    let mut s = state("i");
    let r = handle_insert_mode_input(&mut s, &key(KEY_ESCAPE, 0, false, false));
    assert_eq!(effects(&r), vec!["run SendEscape"]);
    // Plain typing stays with the editor.
    let r = handle_insert_mode_input(&mut s, &ch('a'));
    assert!(matches!(r.outcome, NormalOutcome::Unsent));
    assert!(r.effects.is_empty());
    // While recording, typed keys are kept.
    s.recording_macro = Some('q');
    let _ = handle_insert_mode_input(&mut s, &ch('a'));
    let _ = handle_insert_mode_input(&mut s, &key(KEY_ENTER, 0, false, false));
    assert_eq!(s.macro_buffer, vec![cv("a"), cv("<CR>")]);

    let s = state("R");
    let r = handle_replace_mode_input(&s, &ch('z'), 5, 2);
    assert_eq!(effects(&r), vec!["run DeleteCharForward"]);
    assert!(matches!(r.outcome, NormalOutcome::Unsent));
    let r = handle_replace_mode_input(&s, &ch('z'), 5, 5);
    assert!(r.effects.is_empty());
    let r = handle_replace_mode_input(&s, &key(KEY_ESCAPE, 0, false, false), 5, 5);
    assert_eq!(effects(&r), vec!["run SendEscape"]);
}

#[test]
fn search_line_keys() {
    let mut b = cv("/");
    assert!(matches!(handle_search_mode_input(&mut b, &ch('a')), SearchKeyOutcome::Redraw));
    assert_eq!(b, cv("/a"));
    assert!(matches!(handle_search_mode_input(&mut b, &key(KEY_BACKSPACE, 0, false, false)), SearchKeyOutcome::Redraw));
    assert_eq!(b, cv("/"));
    // The `/` itself stays.
    assert!(matches!(handle_search_mode_input(&mut b, &key(KEY_BACKSPACE, 0, false, false)), SearchKeyOutcome::Unchanged));
    assert!(matches!(handle_search_mode_input(&mut b, &key(KEY_ENTER, 0, false, false)), SearchKeyOutcome::Execute));
    assert!(matches!(handle_search_mode_input(&mut b, &key(KEY_ESCAPE, 0, false, false)), SearchKeyOutcome::Close));
}

#[test]
fn ex_commands() {
    let p = |s: &str| parse_ex_command(&cv(s));
    assert!(matches!(p("w"), ExCommand::Save));
    assert!(matches!(p("q!"), ExCommand::CloseDiscard));
    assert!(matches!(p("wq"), ExCommand::SaveAndClose));
    assert!(matches!(p("xa"), ExCommand::SaveAllAndCloseAll));
    assert!(matches!(p("e!"), ExCommand::Reload));
    assert!(matches!(p("42"), ExCommand::GotoLine(42)));
    assert!(matches!(p("+3"), ExCommand::GotoLine(3)));
    assert!(matches!(p("1,5d"), ExCommand::ForwardToNeovim(ref c) if st(c) == "1,5d"));
    assert!(matches!(p("reg"), ExCommand::ShowRegisters));
    assert!(matches!(p("e scenes/a.gd"), ExCommand::Edit(ref f) if st(f) == "scenes/a.gd"));
    assert!(matches!(p("%s/a/b/g"), ExCommand::ForwardToNeovim(_)));
    assert!(matches!(p("sort"), ExCommand::ForwardToNeovim(_)));
    assert!(matches!(p("bd"), ExCommand::Close));
    assert!(matches!(p("ls"), ExCommand::ListBuffers));
    assert!(matches!(p("Explore"), ExCommand::ForwardToNeovim(_)));
    assert!(matches!(p("frobnicate"), ExCommand::Unknown(ref c) if st(c) == "frobnicate"));
    assert!(has_line_range(&cv(".,$d")));
    assert!(has_line_range(&cv("'a,'bd")));
    assert!(!has_line_range(&cv("w")));
}

#[test]
fn command_line_typing_and_history() {
    let mut s = state("n");
    let mut cl = CommandLine::new();
    open_command_line(&mut s, &mut cl);
    assert!(cl.active);
    assert_eq!(cl.buffer, cv(":"));
    for c in "wq".chars() {
        assert!(matches!(handle_command_mode_input(&mut cl, &ch(c)), CommandKeyOutcome::Redraw));
    }
    assert_eq!(cl.buffer, cv(":wq"));
    let r = handle_command_mode_input(&mut cl, &key(KEY_ENTER, 0, false, false));
    assert!(matches!(r, CommandKeyOutcome::Executed(ExCommand::SaveAndClose)));
    assert!(!cl.active);
    assert_eq!(cl.history, vec![cv("wq")]);

    // Running the same command again records it once.
    open_command_line(&mut s, &mut cl);
    cl.buffer = cv(":wq");
    assert!(matches!(execute_command(&mut cl), ExCommand::SaveAndClose));
    assert_eq!(cl.history.len(), 1);
    open_command_line(&mut s, &mut cl);
    cl.buffer = cv(":  ls ");
    assert!(matches!(execute_command(&mut cl), ExCommand::ListBuffers));
    assert_eq!(cl.history, vec![cv("wq"), cv("ls")]);

    // Up, up, down, down brings back what was typed.
    open_command_line(&mut s, &mut cl);
    cl.buffer = cv(":e");
    assert!(command_history_up(&mut cl));
    assert_eq!(cl.buffer, cv(":ls"));
    assert!(command_history_up(&mut cl));
    assert_eq!(cl.buffer, cv(":wq"));
    assert!(!command_history_up(&mut cl));
    assert!(command_history_down(&mut cl));
    assert_eq!(cl.buffer, cv(":ls"));
    assert!(command_history_down(&mut cl));
    assert_eq!(cl.buffer, cv(":e"));
    assert!(!command_history_down(&mut cl));
    assert!(matches!(handle_command_mode_input(&mut cl, &key(KEY_UP, 0, false, false)), CommandKeyOutcome::Redraw));
    assert!(matches!(handle_command_mode_input(&mut cl, &key(KEY_DOWN, 0, false, false)), CommandKeyOutcome::Redraw));
    assert!(matches!(handle_command_mode_input(&mut cl, &key(KEY_ESCAPE, 0, false, false)), CommandKeyOutcome::Closed));
    assert!(!cl.active);

    // @: runs the newest command again.
    assert!(matches!(repeat_last_ex_command(&mut cl), Some(ExCommand::ListBuffers)));
    let mut empty = CommandLine::new();
    assert!(repeat_last_ex_command(&mut empty).is_none());
}

#[test]
fn editor_side_vim_keys() {
    let mut s = state("n");
    let r = input(&mut s, &ch('x'), false, false);
    assert_eq!(effects(&r), vec!["run DeleteCharForward"]);
    let r = input(&mut s, &ch('X'), false, false);
    assert_eq!(effects(&r), vec!["run DeleteCharBackward"]);
    let r = input(&mut s, &ch('a'), true, false);
    assert_eq!(effects(&r), vec!["run CommandLineKey"]);
    // q{a} starts recording, q stops it.
    let _ = input(&mut s, &ch('q'), false, false);
    assert_eq!(s.pending_macro_op, Some('q'));
    let _ = input(&mut s, &ch('a'), false, false);
    assert_eq!(s.recording_macro, Some('a'));
    let r = input(&mut s, &ch('q'), false, false);
    assert!(r.effects.is_empty());
    assert_eq!(s.recording_macro, None);
    // @@ replays the last macro.
    let _ = input(&mut s, &key(50, '@' as u32, false, true), false, false);
    let r = input(&mut s, &key(50, '@' as u32, false, true), false, false);
    assert_eq!(effects(&r), vec!["run ReplayLastMacro"]);
    // m{a} sets a mark; Escape cancels a pending mark.
    let _ = input(&mut s, &ch('m'), false, false);
    let r = input(&mut s, &ch('a'), false, false);
    assert_eq!(effects(&r), vec!["run SetMark('a')"]);
    let _ = input(&mut s, &ch('m'), false, false);
    let r = input(&mut s, &key(KEY_ESCAPE, 0, false, false), false, false);
    assert!(r.effects.is_empty());
    assert_eq!(s.pending_mark_op, None);
}
