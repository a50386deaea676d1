//! Key events and their Neovim notation.
//!
//! A key press is held as plain values: the editor's key code (Godot's
//! `Key` numbering), the Unicode value it produced and the modifiers.

use crate::chars::{ascii_lower, ascii_lower_char, ascii_upper, ascii_upper_char, chars_of,
    is_lower, is_lower_char, string_of};
use vstd::prelude::*;

verus! {

pub const KEY_SPACE: u32 = 32;
pub const KEY_COMMA: u32 = 44;
pub const KEY_SLASH: u32 = 47;
pub const KEY_SEMICOLON: u32 = 59;
pub const KEY_A: u32 = 65;
pub const KEY_B: u32 = 66;
pub const KEY_C: u32 = 67;
pub const KEY_D: u32 = 68;
pub const KEY_E: u32 = 69;
pub const KEY_F: u32 = 70;
pub const KEY_G: u32 = 71;
pub const KEY_H: u32 = 72;
pub const KEY_I: u32 = 73;
pub const KEY_J: u32 = 74;
pub const KEY_K: u32 = 75;
pub const KEY_L: u32 = 76;
pub const KEY_M: u32 = 77;
pub const KEY_N: u32 = 78;
pub const KEY_O: u32 = 79;
pub const KEY_P: u32 = 80;
pub const KEY_Q: u32 = 81;
pub const KEY_R: u32 = 82;
pub const KEY_S: u32 = 83;
pub const KEY_T: u32 = 84;
pub const KEY_U: u32 = 85;
pub const KEY_V: u32 = 86;
pub const KEY_X: u32 = 88;
pub const KEY_Y: u32 = 89;
pub const KEY_Z: u32 = 90;
pub const KEY_BRACKETLEFT: u32 = 91;
pub const KEY_BRACKETRIGHT: u32 = 93;
pub const KEY_ESCAPE: u32 = 4194305;
pub const KEY_TAB: u32 = 4194306;
pub const KEY_BACKSPACE: u32 = 4194308;
pub const KEY_ENTER: u32 = 4194309;
pub const KEY_DELETE: u32 = 4194312;
pub const KEY_HOME: u32 = 4194317;
pub const KEY_END: u32 = 4194318;
pub const KEY_LEFT: u32 = 4194319;
pub const KEY_UP: u32 = 4194320;
pub const KEY_RIGHT: u32 = 4194321;
pub const KEY_DOWN: u32 = 4194322;
pub const KEY_PAGEUP: u32 = 4194323;
pub const KEY_PAGEDOWN: u32 = 4194324;
pub const KEY_SHIFT: u32 = 4194325;
pub const KEY_CTRL: u32 = 4194326;
pub const KEY_META: u32 = 4194327;
pub const KEY_ALT: u32 = 4194328;
pub const KEY_CAPSLOCK: u32 = 4194329;
pub const KEY_NUMLOCK: u32 = 4194330;
pub const KEY_F1: u32 = 4194332;
pub const KEY_F12: u32 = 4194343;

/// One key press.
pub struct KeyInput {
    /// Godot key code (`Key` enum value).
    pub keycode: u32,
    /// Unicode value produced by the key (0 when none).
    pub unicode: u32,
    pub ctrl: bool,
    pub alt: bool,
    pub shift: bool,
    pub meta: bool,
    /// Ctrl, or Cmd on macOS.
    pub command_or_control: bool,
    /// Both Ctrl and Alt are held down at the moment of the press (AltGr).
    pub altgr_held: bool,
}

/// `u` is a Unicode scalar value.
pub open spec fn is_scalar(u: u32) -> bool {
    u < 0xD800 || (0xE000 <= u && u <= 0x10FFFF)
}

/// Converts a code point to a `char` (std `char::from_u32`): `Some` exactly
/// for Unicode scalar values, holding the character with that value.
#[verifier::external_body]
pub(crate) fn char_from_u32(u: u32) -> (r: Option<char>)
    ensures
        is_scalar(u) ==> r == Some(u as char),
        !is_scalar(u) ==> r is None,
{
    char::from_u32(u)
}

/// The character of a key press, as `char::from_u32(unicode)`.
pub open spec fn unicode_char(k: KeyInput) -> Option<char> {
    if is_scalar(k.unicode) {
        Some(k.unicode as char)
    } else {
        None
    }
}

pub fn key_char(k: &KeyInput) -> (r: Option<char>)
    ensures
        r == unicode_char(*k),
{
    char_from_u32(k.unicode)
}

/// Modes that count as visual: `v`, `V` and the three spellings of
/// blockwise visual.
pub open spec fn is_visual_mode_spec(mode: Seq<char>) -> bool {
    mode == "v"@ || mode == "V"@ || mode == "\x16"@ || mode == "^V"@ || mode == "CTRL-V"@
}

pub fn is_visual_mode(mode: &str) -> (b: bool)
    ensures
        b == is_visual_mode_spec(mode@),
{
    let m = chars_of(mode);
    crate::chars::eq_str(&m, "v") || crate::chars::eq_str(&m, "V") || crate::chars::eq_str(
        &m,
        "\x16",
    ) || crate::chars::eq_str(&m, "^V") || crate::chars::eq_str(&m, "CTRL-V")
}

/// Neovim names of the special keys understood in normal mode.
pub open spec fn special_key_name(code: u32) -> Option<Seq<char>> {
    if code == KEY_ESCAPE {
        Some("<Esc>"@)
    } else if code == KEY_ENTER {
        Some("<CR>"@)
    } else if code == KEY_TAB {
        Some("<Tab>"@)
    } else if code == KEY_BACKSPACE {
        Some("<BS>"@)
    } else if code == KEY_DELETE {
        Some("<Del>"@)
    } else if code == KEY_UP {
        Some("<Up>"@)
    } else if code == KEY_DOWN {
        Some("<Down>"@)
    } else if code == KEY_LEFT {
        Some("<Left>"@)
    } else if code == KEY_RIGHT {
        Some("<Right>"@)
    } else if code == KEY_HOME {
        Some("<Home>"@)
    } else if code == KEY_END {
        Some("<End>"@)
    } else if code == KEY_PAGEUP {
        Some("<PageUp>"@)
    } else if code == KEY_PAGEDOWN {
        Some("<PageDown>"@)
    } else if code == KEY_F1 {
        Some("<F1>"@)
    } else if code == KEY_F1 + 1 {
        Some("<F2>"@)
    } else if code == KEY_F1 + 2 {
        Some("<F3>"@)
    } else if code == KEY_F1 + 3 {
        Some("<F4>"@)
    } else if code == KEY_F1 + 4 {
        Some("<F5>"@)
    } else if code == KEY_F1 + 5 {
        Some("<F6>"@)
    } else if code == KEY_F1 + 6 {
        Some("<F7>"@)
    } else if code == KEY_F1 + 7 {
        Some("<F8>"@)
    } else if code == KEY_F1 + 8 {
        Some("<F9>"@)
    } else if code == KEY_F1 + 9 {
        Some("<F10>"@)
    } else if code == KEY_F1 + 10 {
        Some("<F11>"@)
    } else if code == KEY_F12 {
        Some("<F12>"@)
    } else {
        None
    }
}

/// Godot's key codes (the `Key` enum of `@GlobalScope`) of the keys with
/// a name in Neovim's key notation, and that name.
pub open spec fn godot_key_names() -> Seq<(u32, Seq<char>)> {
    seq![
        (4194305u32, "<Esc>"@),
        (4194309u32, "<CR>"@),
        (4194306u32, "<Tab>"@),
        (4194308u32, "<BS>"@),
        (4194312u32, "<Del>"@),
        (4194320u32, "<Up>"@),
        (4194322u32, "<Down>"@),
        (4194319u32, "<Left>"@),
        (4194321u32, "<Right>"@),
        (4194317u32, "<Home>"@),
        (4194318u32, "<End>"@),
        (4194323u32, "<PageUp>"@),
        (4194324u32, "<PageDown>"@),
        (4194332u32, "<F1>"@),
        (4194333u32, "<F2>"@),
        (4194334u32, "<F3>"@),
        (4194335u32, "<F4>"@),
        (4194336u32, "<F5>"@),
        (4194337u32, "<F6>"@),
        (4194338u32, "<F7>"@),
        (4194339u32, "<F8>"@),
        (4194340u32, "<F9>"@),
        (4194341u32, "<F10>"@),
        (4194342u32, "<F11>"@),
        (4194343u32, "<F12>"@),
    ]
}

/// A key with a Neovim name, pressed without Ctrl or Alt, is sent as the
/// name of that very key: `Up` as `<Up>`, `Down` as `<Down>`, `F5` as
/// `<F5>`, whatever else the press carries.
pub proof fn law_named_keys_keep_their_name(i: int, k: KeyInput)
    requires
        0 <= i < godot_key_names().len(),
        k.keycode == godot_key_names()[i].0,
        !k.ctrl,
        !k.alt,
    ensures
        nvim_key_string(k) == Some(godot_key_names()[i].1),
{
}

fn special_key_name_exec(code: u32) -> (r: Option<&'static str>)
    ensures
        r matches Some(s) ==> special_key_name(code) == Some(s@),
        r is None ==> special_key_name(code) is None,
{
    if code == KEY_ESCAPE {
        Some("<Esc>")
    } else if code == KEY_ENTER {
        Some("<CR>")
    } else if code == KEY_TAB {
        Some("<Tab>")
    } else if code == KEY_BACKSPACE {
        Some("<BS>")
    } else if code == KEY_DELETE {
        Some("<Del>")
    } else if code == KEY_UP {
        Some("<Up>")
    } else if code == KEY_DOWN {
        Some("<Down>")
    } else if code == KEY_LEFT {
        Some("<Left>")
    } else if code == KEY_RIGHT {
        Some("<Right>")
    } else if code == KEY_HOME {
        Some("<Home>")
    } else if code == KEY_END {
        Some("<End>")
    } else if code == KEY_PAGEUP {
        Some("<PageUp>")
    } else if code == KEY_PAGEDOWN {
        Some("<PageDown>")
    } else if code == KEY_F1 {
        Some("<F1>")
    } else if code == KEY_F1 + 1 {
        Some("<F2>")
    } else if code == KEY_F1 + 2 {
        Some("<F3>")
    } else if code == KEY_F1 + 3 {
        Some("<F4>")
    } else if code == KEY_F1 + 4 {
        Some("<F5>")
    } else if code == KEY_F1 + 5 {
        Some("<F6>")
    } else if code == KEY_F1 + 6 {
        Some("<F7>")
    } else if code == KEY_F1 + 7 {
        Some("<F8>")
    } else if code == KEY_F1 + 8 {
        Some("<F9>")
    } else if code == KEY_F1 + 9 {
        Some("<F10>")
    } else if code == KEY_F1 + 10 {
        Some("<F11>")
    } else if code == KEY_F12 {
        Some("<F12>")
    } else {
        None
    }
}

/// The key itself, before modifiers are applied, in normal-mode notation.
pub open spec fn base_key_string(k: KeyInput) -> Option<Seq<char>> {
    if k.keycode == KEY_SPACE {
        Some(" "@)
    } else if special_key_name(k.keycode) is Some {
        special_key_name(k.keycode)
    } else if k.unicode > 0 {
        match unicode_char(k) {
            None => None,
            Some(c) => if k.shift && is_lower(c) {
                Some(seq![ascii_upper(c)])
            } else {
                Some(seq![c])
            },
        }
    } else {
        None
    }
}

/// `s` takes one byte in UTF-8.
pub open spec fn is_one_byte(s: Seq<char>) -> bool {
    s.len() == 1 && (s[0] as u32) < 128
}

/// Modifier letters for normal-mode notation.
pub open spec fn modifier_letters(k: KeyInput, base: Seq<char>) -> Seq<char> {
    (if k.ctrl { seq!['C'] } else { Seq::empty() }) + (if k.alt { seq!['A'] } else {
        Seq::empty()
    }) + (if k.shift && is_one_byte(base) { seq!['S'] } else { Seq::empty() })
}

/// A key press in the notation Neovim's `nvim_input` expects, or `None`
/// when the key produces nothing.
pub open spec fn nvim_key_string(k: KeyInput) -> Option<Seq<char>> {
    if k.ctrl && k.keycode == KEY_BRACKETLEFT {
        Some("<Esc>"@)
    } else {
        match base_key_string(k) {
            None => None,
            Some(base) => if k.ctrl || k.alt {
                let mods = modifier_letters(k, base);
                if base[0] == '<' {
                    Some(seq!['<'] + mods + seq!['-'] + base.subrange(1, base.len() - 1) + seq![
                        '>',
                    ])
                } else {
                    Some(seq!['<'] + mods + seq!['-'] + base + seq!['>'])
                }
            } else {
                Some(base)
            },
        }
    }
}

/// The key string can be built: a modified key whose base is `<` alone
/// has no inner name to wrap.
pub open spec fn nvim_key_string_defined(k: KeyInput) -> bool {
    !(k.ctrl && k.keycode == KEY_BRACKETLEFT) && (k.ctrl || k.alt) ==> match base_key_string(
        k,
    ) {
        Some(base) => base != seq!['<'],
        None => true,
    }
}

fn base_key_exec(k: &KeyInput) -> (r: Option<Vec<char>>)
    ensures
        r matches Some(v) ==> base_key_string(*k) == Some(v@),
        r is None ==> base_key_string(*k) is None,
{
    if k.keycode == KEY_SPACE {
        return Some(chars_of(" "));
    }
    match special_key_name_exec(k.keycode) {
        Some(s) => {
            return Some(chars_of(s));
        },
        None => {},
    }
    if k.unicode > 0 {
        match key_char(k) {
            None => None,
            Some(c) => {
                let mut v: Vec<char> = Vec::new();
                if k.shift && is_lower_char(c) {
                    v.push(ascii_upper_char(c));
                } else {
                    v.push(c);
                }
                assert(v@ =~= seq![if k.shift && is_lower(c) { ascii_upper(c) } else { c }]);
                Some(v)
            },
        }
    } else {
        None
    }
}

fn push_all(v: &mut Vec<char>, w: &Vec<char>, from: usize, to: usize)
    requires
        from <= to <= w.len(),
    ensures
        final(v)@ == old(v)@ + w@.subrange(from as int, to as int),
{
    let mut i = from;
    while i < to
        invariant
            from <= i <= to <= w.len(),
            v@ == old(v)@ + w@.subrange(from as int, i as int),
        decreases to - i,
    {
        v.push(w[i]);
        i = i + 1;
        assert(v@ =~= old(v)@ + w@.subrange(from as int, i as int));
    }
}

/// Whether [`key_event_to_nvim_string`] can be called on this key.
pub fn nvim_key_defined_exec(k: &KeyInput) -> (b: bool)
    ensures
        b == nvim_key_string_defined(*k),
{
    if !(k.ctrl && k.keycode == KEY_BRACKETLEFT) && (k.ctrl || k.alt) {
        match base_key_exec(k) {
            Some(b) => {
                let is_lt = b.len() == 1 && b[0] == '<';
                assert(is_lt == (b@ == seq!['<'])) by {
                    if b@ == seq!['<'] {
                        assert(b@[0] == '<');
                    }
                    if is_lt {
                        assert(b@ =~= seq!['<']);
                    }
                }
                !is_lt
            },
            None => true,
        }
    } else {
        true
    }
}

/// Convert a key press to Neovim notation for normal and visual mode.
pub fn key_event_to_nvim_string(k: &KeyInput) -> (r: Option<String>)
    requires
        nvim_key_string_defined(*k),
    ensures
        r matches Some(s) ==> nvim_key_string(*k) == Some(s@),
        r is None ==> nvim_key_string(*k) is None,
{
    if k.ctrl && k.keycode == KEY_BRACKETLEFT {
        return Some(String::from_str("<Esc>"));
    }
    let base = match base_key_exec(k) {
        None => {
            return None;
        },
        Some(b) => b,
    };
    proof {
        reveal_strlit(" ");
    }
    assert(base@.len() > 0) by {
        if special_key_name(k.keycode) is Some {
            reveal_strlit("<Esc>");
            reveal_strlit("<CR>");
            reveal_strlit("<Tab>");
            reveal_strlit("<BS>");
            reveal_strlit("<Del>");
            reveal_strlit("<Up>");
            reveal_strlit("<Down>");
            reveal_strlit("<Left>");
            reveal_strlit("<Right>");
            reveal_strlit("<Home>");
            reveal_strlit("<End>");
            reveal_strlit("<PageUp>");
            reveal_strlit("<PageDown>");
            reveal_strlit("<F1>");
            reveal_strlit("<F2>");
            reveal_strlit("<F3>");
            reveal_strlit("<F4>");
            reveal_strlit("<F5>");
            reveal_strlit("<F6>");
            reveal_strlit("<F7>");
            reveal_strlit("<F8>");
            reveal_strlit("<F9>");
            reveal_strlit("<F10>");
            reveal_strlit("<F11>");
            reveal_strlit("<F12>");
        }
    }
    if k.ctrl || k.alt {
        let mut out: Vec<char> = Vec::new();
        out.push('<');
        if k.ctrl {
            out.push('C');
        }
        if k.alt {
            out.push('A');
        }
        if k.shift && base.len() == 1 && (base[0] as u32) < 128 {
            out.push('S');
        }
        let ghost mods = modifier_letters(*k, base@);
        assert(out@ =~= seq!['<'] + mods);
        out.push('-');
        if base[0] == '<' {
            assert(base@ != seq!['<']);
            assert(base@.len() >= 2) by {
                if base@.len() == 1 {
                    assert(base@ =~= seq!['<']);
                }
            }
            push_all(&mut out, &base, 1, base.len() - 1);
        } else {
            push_all(&mut out, &base, 0, base.len());
            assert(base@.subrange(0, base@.len() as int) =~= base@);
        }
        out.push('>');
        proof {
            if base@[0] == '<' {
                assert(out@ =~= seq!['<'] + mods + seq!['-'] + base@.subrange(1, base@.len() - 1)
                    + seq!['>']);
            } else {
                assert(out@ =~= seq!['<'] + mods + seq!['-'] + base@ + seq!['>']);
            }
        }
        Some(string_of(&out))
    } else {
        Some(string_of(&base))
    }
}

/// Neovim names of the special keys understood in insert mode.
pub open spec fn insert_special_name(code: u32) -> Option<Seq<char>> {
    if code == KEY_ESCAPE || code == KEY_SPACE {
        None
    } else {
        special_key_name(code)
    }
}

/// A key press in Neovim notation for insert mode.
pub open spec fn nvim_notation(k: KeyInput) -> Seq<char> {
    match insert_special_name(k.keycode) {
        Some(name) => if k.ctrl || k.alt || k.shift {
            seq!['<'] + (if k.ctrl { "C-"@ } else { Seq::empty() }) + (if k.alt { "A-"@ } else {
                Seq::empty()
            }) + (if k.shift { "S-"@ } else { Seq::empty() }) + name.subrange(1, name.len() - 1)
                + seq!['>']
        } else {
            name
        },
        None => if k.unicode > 0 && unicode_char(k) is Some {
            let c = unicode_char(k)->0;
            if k.ctrl && !k.alt && ('a' <= ascii_lower(c) <= 'z') {
                "<C-"@ + seq![ascii_lower(c)] + seq!['>']
            } else if k.alt && !k.ctrl {
                "<A-"@ + seq![c] + seq!['>']
            } else if k.ctrl && k.alt {
                "<C-A-"@ + seq![c] + seq!['>']
            } else {
                seq![c]
            }
        } else {
            Seq::empty()
        },
    }
}

fn push_str(v: &mut Vec<char>, s: &str)
    ensures
        final(v)@ == old(v)@ + s@,
{
    let w = chars_of(s);
    push_all(v, &w, 0, w.len());
    assert(w@.subrange(0, w@.len() as int) =~= w@);
}

/// Convert a key press to Neovim notation for insert mode.
pub fn key_event_to_nvim_notation(k: &KeyInput) -> (r: String)
    ensures
        r@ == nvim_notation(*k),
{
    let special = if k.keycode == KEY_ESCAPE || k.keycode == KEY_SPACE {
        None
    } else {
        special_key_name_exec(k.keycode)
    };
    match special {
        Some(name) => {
            let nv = chars_of(name);
            if k.ctrl || k.alt || k.shift {
                assert(nv@.len() >= 2) by {
                    reveal_strlit("<CR>");
                    reveal_strlit("<Tab>");
                    reveal_strlit("<BS>");
                    reveal_strlit("<Del>");
                    reveal_strlit("<Up>");
                    reveal_strlit("<Down>");
                    reveal_strlit("<Left>");
                    reveal_strlit("<Right>");
                    reveal_strlit("<Home>");
                    reveal_strlit("<End>");
                    reveal_strlit("<PageUp>");
                    reveal_strlit("<PageDown>");
                    reveal_strlit("<F1>");
                    reveal_strlit("<F2>");
                    reveal_strlit("<F3>");
                    reveal_strlit("<F4>");
                    reveal_strlit("<F5>");
                    reveal_strlit("<F6>");
                    reveal_strlit("<F7>");
                    reveal_strlit("<F8>");
                    reveal_strlit("<F9>");
                    reveal_strlit("<F10>");
                    reveal_strlit("<F11>");
                    reveal_strlit("<F12>");
                }
                let mut out: Vec<char> = Vec::new();
                out.push('<');
                if k.ctrl {
                    push_str(&mut out, "C-");
                }
                if k.alt {
                    push_str(&mut out, "A-");
                }
                if k.shift {
                    push_str(&mut out, "S-");
                }
                push_all(&mut out, &nv, 1, nv.len() - 1);
                out.push('>');
                assert(out@ =~= nvim_notation(*k));
                string_of(&out)
            } else {
                string_of(&nv)
            }
        },
        None => {
            if k.unicode > 0 {
                match key_char(k) {
                    Some(c) => {
                        let base = ascii_lower_char(c);
                        let mut out: Vec<char> = Vec::new();
                        if k.ctrl && !k.alt && 'a' <= base && base <= 'z' {
                            push_str(&mut out, "<C-");
                            out.push(base);
                            out.push('>');
                        } else if k.alt && !k.ctrl {
                            push_str(&mut out, "<A-");
                            out.push(c);
                            out.push('>');
                        } else if k.ctrl && k.alt {
                            push_str(&mut out, "<C-A-");
                            out.push(c);
                            out.push('>');
                        } else {
                            out.push(c);
                        }
                        assert(out@ =~= nvim_notation(*k));
                        string_of(&out)
                    },
                    None => String::new(),
                }
            } else {
                String::new()
            }
        },
    }
}

} // verus!
