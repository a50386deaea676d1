use godot_neovim::filetype::detect_filetype;

#[test]
fn test_detect_filetype() {
    assert_eq!(detect_filetype("res://player.gd"), "gdscript");
    assert_eq!(detect_filetype("res://shaders/water.gdshader"), "gdshader");
    assert_eq!(detect_filetype("res://README.md"), "markdown");
    assert_eq!(detect_filetype("res://data.json"), "json");
    assert_eq!(detect_filetype("res://config.cfg"), "dosini");
    assert_eq!(detect_filetype("res://unknown.xyz"), "text");
}

#[test]
fn detect_filetype_ignores_case_and_uses_last_dot() {
    assert_eq!(detect_filetype("res://a.b/Player.GD"), "gdscript");
    assert_eq!(detect_filetype("notes.tar.YML"), "yaml");
    assert_eq!(detect_filetype("a.shader"), "gdshader");
    assert_eq!(detect_filetype("a.ini"), "dosini");
    assert_eq!(detect_filetype("a.toml"), "toml");
    assert_eq!(detect_filetype("a.xml"), "xml");
    assert_eq!(detect_filetype("a.log"), "text");
    assert_eq!(detect_filetype("a.cs"), "cs");
    assert_eq!(detect_filetype("a.txt"), "text");
}

#[test]
fn detect_filetype_without_extension() {
    assert_eq!(detect_filetype("Makefile"), "text");
    assert_eq!(detect_filetype("gd"), "gdscript");
    assert_eq!(detect_filetype("dir.json/"), "text");
    assert_eq!(detect_filetype(""), "text");
}
