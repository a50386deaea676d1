use godot_neovim::help::{
    cmd_help, extract_class_from_defined_in, hover_text, match_class_member,
    match_func_class_method, match_signal_class_member, open_documentation, parse_hover_for_help,
    to_pascal_case, DocLookup, HelpMemberType, HoverTextOf,
};

fn cv(s: &str) -> Vec<char> {
    s.chars().collect()
}

fn st(v: &[char]) -> String {
    v.iter().collect()
}

#[test]
fn member_patterns() {
    let (t, c, m) = match_class_member(&cv("var Node2D.position : Vector2")).unwrap();
    assert_eq!((t, st(&c), st(&m)), (HelpMemberType::Property, "Node2D".to_string(), "position".to_string()));
    let (t, c, m) = match_class_member(&cv("doc\n  const Input.MOUSE_MODE_VISIBLE = 0")).unwrap();
    assert_eq!((t, st(&c), st(&m)), (HelpMemberType::Constant, "Input".to_string(), "MOUSE_MODE_VISIBLE".to_string()));
    assert!(match_class_member(&cv("var x = 1")).is_none());
    let (c, m) = match_func_class_method(&cv("func Node.add_child(node: Node) -> void")).unwrap();
    assert_eq!((st(&c), st(&m)), ("Node".to_string(), "add_child".to_string()));
    assert!(match_func_class_method(&cv("func get_name() -> String")).is_none());
    let (c, m) = match_signal_class_member(&cv("signal Button.pressed()")).unwrap();
    assert_eq!((st(&c), st(&m)), ("Button".to_string(), "pressed".to_string()));
}

#[test]
fn class_names() {
    assert_eq!(st(&to_pascal_case(&cv("player_controller"))), "PlayerController");
    assert_eq!(st(&to_pascal_case(&cv("character_body_2d"))), "CharacterBody2d");
    assert_eq!(st(&to_pascal_case(&cv("__a"))), "A");
    assert_eq!(st(&to_pascal_case(&cv("élan_x"))), "ÉlanX");
    assert_eq!(
        extract_class_from_defined_in(&cv("func f()\nDefined in [res://scripts/player_controller.gd](file:///p)")).map(|c| st(&c)),
        Some("PlayerController".to_string())
    );
    assert_eq!(extract_class_from_defined_in(&cv("returns a Vector2")).map(|c| st(&c)), Some("Vector2".to_string()));
    // The list is tried in order, so a longer name may give a shorter one.
    assert_eq!(extract_class_from_defined_in(&cv("a Node2D")).map(|c| st(&c)), Some("Node".to_string()));
    assert_eq!(extract_class_from_defined_in(&cv("nothing here")), None);
}

#[test]
fn hover_to_help() {
    let q = parse_hover_for_help(&cv("<Native> class Sprite2D\nDraws a texture"), &cv("Sprite2D")).unwrap();
    assert_eq!(st(&q.class_name), "Sprite2D");
    assert!(q.member_name.is_none());
    assert_eq!(q.member_type, HelpMemberType::Class);
    let q = parse_hover_for_help(&cv("func get_name() -> String\nDefined in [node.gd]"), &cv("get_name")).unwrap();
    assert_eq!(st(&q.class_name), "Node");
    assert_eq!(q.member_name.map(|m| st(&m)), Some("get_name".to_string()));
    assert_eq!(q.member_type, HelpMemberType::Method);
    let q = parse_hover_for_help(&cv("signal Area2D.body_entered(body: Node2D)"), &cv("x")).unwrap();
    assert_eq!(q.member_type, HelpMemberType::Signal);
    assert_eq!(st(&q.class_name), "Area2D");
    assert!(parse_hover_for_help(&cv("just text"), &cv("x")).is_none());
    assert_eq!(st(&hover_text(&HoverTextOf::Array(vec![cv("a"), cv("b")]))), "a\nb");
    assert_eq!(st(&hover_text(&HoverTextOf::Markup(cv("m")))), "m");
    let h = cmd_help();
    assert_eq!(st(&h.class_name), "GodotNeovim");
    assert_eq!(h.member_type, HelpMemberType::Class);
}

#[test]
fn documentation_lookup() {
    let l = cv("var x = Vector2(1, 2)");
    match open_documentation(&l, 9) {
        DocLookup::Class(q) => assert_eq!(st(&q.class_name), "Vector2"),
        _ => panic!("class expected"),
    }
    match open_documentation(&l, 4) {
        DocLookup::Hover(w) => assert_eq!(st(&w), "x"),
        _ => panic!("hover expected"),
    }
    // On a blank right after a word, that word is taken.
    match open_documentation(&l, 3) {
        DocLookup::Hover(w) => assert_eq!(st(&w), "var"),
        _ => panic!("hover expected"),
    }
    assert!(matches!(open_documentation(&l, 100), DocLookup::NoWord));
    assert!(matches!(open_documentation(&cv("a  b"), 2), DocLookup::NoWord));
    // Non-ASCII letters are word characters.
    match open_documentation(&cv("été"), 1) {
        DocLookup::Hover(w) => assert_eq!(st(&w), "été"),
        _ => panic!("hover expected"),
    }
}
