use godot_neovim::uri::{
    definition_file, definition_target, edit_path, go_to_file_under_cursor, open_url_under_cursor,
    path_to_file_uri, uri_to_file_path, url_decode, DefinitionTarget,
};

fn cv(s: &str) -> Vec<char> {
    s.chars().collect()
}

fn st(v: Vec<char>) -> String {
    v.into_iter().collect()
}

#[test]
fn percent_decoding() {
    assert_eq!(st(url_decode(&cv("a%20b"))), "a b");
    assert_eq!(st(url_decode(&cv("%41%42c"))), "ABc");
    assert_eq!(st(url_decode(&cv("100%"))), "100%");
    assert_eq!(st(url_decode(&cv("%zz"))), "%zz");
    assert_eq!(st(url_decode(&cv("%2"))), "%2");
}

#[test]
fn uris_and_paths() {
    assert_eq!(st(uri_to_file_path(&cv("file:///home/u/a.gd"))), "/home/u/a.gd");
    assert_eq!(st(uri_to_file_path(&cv("file:///C:/proj/a%20b.gd"))), "C:/proj/a b.gd");
    assert_eq!(st(uri_to_file_path(&cv("file://x/y.gd"))), "x/y.gd");
    assert_eq!(st(uri_to_file_path(&cv("/plain/path"))), "/plain/path");
    assert_eq!(st(path_to_file_uri(&cv("/home/u/a.gd"))), "file:///home/u/a.gd");
    assert_eq!(st(path_to_file_uri(&cv("C:\\proj\\a.gd"))), "file:///C:/proj/a.gd");
    // A Unix path comes back from its URI.
    let p = cv("/srv/game/main.gd");
    assert_eq!(uri_to_file_path(&path_to_file_uri(&p)), p);
}

#[test]
fn definition_targets() {
    match definition_target(&cv("file:///p/a.gd"), 4, 2, &cv("res://a.gd"), &cv("/p/a.gd")) {
        DefinitionTarget::SameFile(l, c) => assert_eq!((l, c), (4, 2)),
        _ => panic!("same file expected"),
    }
    match definition_target(&cv("file:///C:/p/b.gd"), 0, 0, &cv("res://a.gd"), &cv("C:/p/a.gd")) {
        DefinitionTarget::OtherFile(p) => assert_eq!(st(p), "C:/p/b.gd"),
        _ => panic!("other file expected"),
    }
    assert_eq!(st(definition_file(&cv("res://b.gd"), &cv("/p/b.gd"))), "res://b.gd");
    assert_eq!(st(definition_file(&cv("/p/b.gd"), &cv("/p/b.gd"))), "/p/b.gd");
}

#[test]
fn paths_and_urls_under_cursor() {
    let l = cv("load(\"res://scenes/main.tscn\")");
    assert_eq!(go_to_file_under_cursor(&l, 10).map(st), Some("res://scenes/main.tscn".to_string()));
    // On the parenthesis the run before it is taken.
    assert_eq!(go_to_file_under_cursor(&l, 4).map(st), Some("load".to_string()));
    assert_eq!(go_to_file_under_cursor(&cv("( )"), 1), None);
    assert_eq!(go_to_file_under_cursor(&cv("ab"), 2), None);
    let l = cv("see https://godotengine.org/docs for more");
    assert_eq!(open_url_under_cursor(&l, 8).map(st), Some("https://godotengine.org/docs".to_string()));
    let l = cv("visit example.com now");
    assert_eq!(open_url_under_cursor(&l, 8).map(st), Some("https://example.com".to_string()));
    let l = cv("a .hidden b");
    assert_eq!(open_url_under_cursor(&l, 3), None);
    let l = cv("word");
    assert_eq!(open_url_under_cursor(&l, 1), None);
    assert_eq!(open_url_under_cursor(&l, 9), None);
}

#[test]
fn edit_paths() {
    assert_eq!(edit_path(""), None);
    assert_eq!(edit_path("res://a.gd"), Some("res://a.gd".to_string()));
    assert_eq!(edit_path("scripts/a.gd"), Some("res://scripts/a.gd".to_string()));
}
