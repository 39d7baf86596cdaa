use raylib_plain::text::{chars_of, contains, join, same_text, split};

#[test]
fn split_cuts_at_every_separator() {
    assert_eq!(split("const char *", ' '), vec!["const", "char", "*"]);
    assert_eq!(split("a,b,c", ','), vec!["a", "b", "c"]);
}

#[test]
fn split_of_empty_text_is_one_empty_piece() {
    assert_eq!(split("", ' '), vec![""]);
}

#[test]
fn split_keeps_empty_pieces() {
    assert_eq!(split("a  b", ' '), vec!["a", "", "b"]);
    assert_eq!(split(" a ", ' '), vec!["", "a", ""]);
    assert_eq!(split(",,,", ','), vec!["", "", "", ""]);
}

#[test]
fn split_counts_characters_not_bytes() {
    assert_eq!(split("é,ü,ß", ','), vec!["é", "ü", "ß"]);
}

#[test]
fn split_agrees_with_std() {
    for s in ["", " ", "a", "a b", " a  b ", "int * const", "x,y"] {
        let expected: Vec<&str> = s.split(' ').collect();
        assert_eq!(split(s, ' '), expected);
    }
}

#[test]
fn join_puts_the_separator_between_neighbours() {
    let pieces = vec!["a".to_string(), "b".to_string(), "c".to_string()];
    assert_eq!(join(&pieces, ", "), "a, b, c");
    assert_eq!(join(&vec!["only".to_string()], ", "), "only");
    assert_eq!(join(&vec![], ", "), "");
    assert_eq!(join(&vec![String::new(), String::new()], "-"), "-");
}

#[test]
fn join_undoes_split() {
    for s in ["", " ", "unsigned int", " a  b ", "const char *"] {
        let pieces: Vec<String> = split(s, ' ').iter().map(|p| p.to_string()).collect();
        assert_eq!(join(&pieces, " "), s);
    }
}

#[test]
fn contains_finds_a_run_of_characters() {
    assert!(contains("const char *", "const"));
    assert!(contains("char * const", "const"));
    assert!(contains("myconstant", "const"));
    assert!(!contains("cons t", "const"));
    assert!(!contains("cons", "const"));
    assert!(!contains("", "const"));
    assert!(contains("", ""));
    assert!(contains("abc", ""));
    assert!(contains("été", "té"));
}

#[test]
fn same_text_compares_characters() {
    assert!(same_text("void", "void"));
    assert!(!same_text("void", "void "));
    assert!(!same_text("", "a"));
    assert!(same_text("", ""));
}

#[test]
fn chars_of_lists_the_characters() {
    assert_eq!(chars_of("a*é"), vec!['a', '*', 'é']);
    assert_eq!(chars_of(""), Vec::<char>::new());
}
