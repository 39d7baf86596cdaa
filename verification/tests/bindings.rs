use raylib_plain::bindings::{
    normalize_line_endings, postprocess_bindings, ADDITIONAL_RAW_LINE_COMMENT,
};

#[test]
fn every_line_ending_becomes_crlf() {
    assert_eq!(normalize_line_endings("a\nb"), "a\r\nb");
    assert_eq!(normalize_line_endings("a\rb"), "a\r\nb");
    assert_eq!(normalize_line_endings("a\r\nb"), "a\r\nb");
    assert_eq!(normalize_line_endings("a\n\rb"), "a\r\n\r\nb");
    assert_eq!(normalize_line_endings("a\r\r\nb"), "a\r\n\r\nb");
    assert_eq!(normalize_line_endings("\n\n"), "\r\n\r\n");
    assert_eq!(normalize_line_endings("\r"), "\r\n");
}

#[test]
fn text_without_line_endings_is_unchanged() {
    assert_eq!(normalize_line_endings(""), "");
    assert_eq!(normalize_line_endings("pub enum é"), "pub enum é");
}

#[test]
fn normalizing_twice_changes_nothing_more() {
    for s in ["a\nb\rc\r\nd", "\r\r\n\n", "x", "\n\r"] {
        let once = normalize_line_endings(s);
        assert_eq!(normalize_line_endings(&once), once);
    }
}

#[test]
fn marker_becomes_the_import_and_enums_get_the_derive() {
    let raw = format!(
        "#![allow(non_snake_case)]\n{}\n#[repr(u32)]\n#[derive(Debug, Copy, Clone)]\npub enum Key {{\n    A = 0,\n}}\n",
        ADDITIONAL_RAW_LINE_COMMENT
    );
    assert_eq!(
        postprocess_bindings(&raw, true),
        "#![allow(non_snake_case)]\r\nuse strum_macros::EnumIter;\r\n#[repr(u32)]\r\n\
         #[derive(Debug, Copy, Clone, EnumIter)]\r\npub enum Key {\r\n    A = 0,\r\n}\r\n"
    );
}

#[test]
fn every_enum_gets_the_derive() {
    let raw = "#[derive(Clone)]\npub enum A {}\n#[derive(Copy)]\npub enum B {}\n#[derive(Eq)]\npub struct C;\n";
    assert_eq!(
        postprocess_bindings(raw, true),
        "#[derive(Clone, EnumIter)]\r\npub enum A {}\r\n#[derive(Copy, EnumIter)]\r\npub enum B {}\r\n\
         #[derive(Eq)]\r\npub struct C;\r\n"
    );
}

#[test]
fn only_the_first_marker_becomes_the_import() {
    let raw = format!("{0}\n{0}\n{0}\n", ADDITIONAL_RAW_LINE_COMMENT);
    assert_eq!(
        postprocess_bindings(&raw, true),
        format!("use strum_macros::EnumIter;\r\n\r\n{}\r\n", ADDITIONAL_RAW_LINE_COMMENT)
    );
}

#[test]
fn without_the_derive_the_marker_is_taken_out() {
    let raw = format!("a\n{}\n#[derive(Clone)]\npub enum A {{}}\n", ADDITIONAL_RAW_LINE_COMMENT);
    assert_eq!(
        postprocess_bindings(&raw, false),
        "a\r\n\r\n#[derive(Clone)]\r\npub enum A {}\r\n"
    );
}

#[test]
fn bindings_without_marker_or_enum_only_change_their_line_endings() {
    assert_eq!(postprocess_bindings("pub struct A;\n", true), "pub struct A;\r\n");
    assert_eq!(postprocess_bindings("", true), "");
}

#[test]
fn postprocessing_agrees_with_std() {
    let raw = format!(
        "x)]\npub enum )]\r\npub enum {}pub enum\r{}\n)]\npub enum é",
        ADDITIONAL_RAW_LINE_COMMENT, ADDITIONAL_RAW_LINE_COMMENT
    );
    let normalized = normalize_line_endings(&raw);
    let expected = normalized
        .replacen(ADDITIONAL_RAW_LINE_COMMENT, "use strum_macros::EnumIter;", 1)
        .replace(")]\r\npub enum ", ", EnumIter)]\r\npub enum ")
        .replacen(ADDITIONAL_RAW_LINE_COMMENT, "", 1);
    assert_eq!(postprocess_bindings(&raw, true), expected);
}
