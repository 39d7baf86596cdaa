use raylib_plain::naming::{
    fix_reserved_keyword, function_name, is_reserved_keyword, parameter_name,
};

#[test]
fn box_and_type_get_an_underscore() {
    assert_eq!(fix_reserved_keyword("box"), "box_");
    assert_eq!(fix_reserved_keyword("type"), "type_");
}

#[test]
fn other_names_stay() {
    assert_eq!(fix_reserved_keyword("width"), "width");
    assert_eq!(fix_reserved_keyword("file_name"), "file_name");
    assert_eq!(fix_reserved_keyword(""), "");
    assert_eq!(fix_reserved_keyword("Type"), "Type");
    assert_eq!(fix_reserved_keyword("box_"), "box_");
    assert_eq!(fix_reserved_keyword("boxes"), "boxes");
}

#[test]
fn every_reserved_word_gets_an_underscore() {
    for word in ["as", "fn", "ref", "self", "Self", "match", "loop", "in", "yield", "try", "gen"] {
        assert!(is_reserved_keyword(word));
        assert_eq!(fix_reserved_keyword(word), format!("{}_", word));
    }
    assert!(!is_reserved_keyword("union"));
    assert!(!is_reserved_keyword("font"));
}

#[test]
fn function_names_are_in_snake_case() {
    assert_eq!(function_name("InitWindow"), "init_window");
    assert_eq!(function_name("GetScreenWidth"), "get_screen_width");
    assert_eq!(function_name("IsKeyDown"), "is_key_down");
    assert_eq!(function_name("already_snake"), "already_snake");
}

#[test]
fn parameter_names_are_in_snake_case_and_not_reserved() {
    assert_eq!(parameter_name("fileName"), "file_name");
    assert_eq!(parameter_name("posX"), "pos_x");
    assert_eq!(parameter_name("box"), "box_");
    assert_eq!(parameter_name("type"), "type_");
    assert_eq!(parameter_name("Type"), "type_");
    assert_eq!(parameter_name("text"), "text");
}
