use raylib_plain::api::{ApiDescription, Define};
use raylib_plain::define::{
    color_channels, color_constants, generate_define, is_emittable, ColorConstant,
};

fn define(name: &str, kind: &str, value: &str) -> Define {
    Define { name: name.to_string(), kind: kind.to_string(), value: value.to_string() }
}

fn api(defines: Vec<Define>) -> ApiDescription {
    ApiDescription { defines, functions: vec![], structs: vec![], aliases: vec![], callbacks: vec![] }
}

#[test]
fn channels_are_what_stands_between_the_commas() {
    assert_eq!(color_channels("245,245,245,255"), vec!["245", "245", "245", "255"]);
    assert_eq!(
        color_channels("\"CLITERAL(Color){ 245, 245, 245, 255 }\""),
        vec!["245", "245", "245", "255"]
    );
}

#[test]
fn channels_of_a_value_without_digits() {
    assert_eq!(color_channels(""), vec![""]);
    assert_eq!(color_channels("none"), vec![""]);
    assert_eq!(color_channels("a,b"), vec!["", ""]);
}

#[test]
fn everything_but_digits_and_commas_is_dropped() {
    assert_eq!(color_channels("1 2\t3\n4,(5);６"), vec!["1234", "5"]);
    assert_eq!(color_channels("-1,+2,3.5,0x10"), vec!["1", "2", "35", "010"]);
}

#[test]
fn raywhite_has_its_four_channels_in_order() {
    let d = define("RAYWHITE", "COLOR", "\"CLITERAL(Color){ 245, 245, 245, 255 }\"");
    assert!(d.is_color());
    let c = d.color_constant().unwrap();
    assert_eq!(
        c,
        ColorConstant {
            name: "RAYWHITE".to_string(),
            r: "245".to_string(),
            g: "245".to_string(),
            b: "245".to_string(),
            a: "255".to_string(),
        }
    );
    assert_eq!(c.render(), "pub const RAYWHITE:Color = Color {r:245, g:245, b:245, a:255};");
}

#[test]
fn channels_keep_their_order() {
    let d = define("GOLD", "COLOR", "CLITERAL(Color){ 255, 203, 0, 255 }");
    let c = d.color_constant().unwrap();
    assert_eq!((c.r.as_str(), c.g.as_str(), c.b.as_str(), c.a.as_str()), ("255", "203", "0", "255"));
}

#[test]
fn fewer_than_four_groups_give_no_constant() {
    assert_eq!(define("BAD", "COLOR", "1, 2, 3").color_constant(), None);
    assert_eq!(define("BAD", "COLOR", "").color_constant(), None);
    assert!(!is_emittable(&vec![define("BAD", "COLOR", "1, 2, 3")]));
}

#[test]
fn groups_behind_the_fourth_are_not_looked_at() {
    let c = define("MANY", "COLOR", "1,2,3,4,5").color_constant().unwrap();
    assert_eq!(c.render(), "pub const MANY:Color = Color {r:1, g:2, b:3, a:4};");
}

#[test]
fn other_digits_in_the_value_shift_the_channels() {
    let c = define("ODD", "COLOR", "Color4{ 10, 20, 30, 40 }").color_constant().unwrap();
    assert_eq!(c.render(), "pub const ODD:Color = Color {r:410, g:20, b:30, a:40};");
}

#[test]
fn defines_of_another_kind_are_passed_over() {
    let defines = vec![
        define("RAYLIB_VERSION", "STRING", "\"5.0\""),
        define("PI", "FLOAT", "3.14159265358979323846"),
        define("LIGHTGRAY", "COLOR", "CLITERAL(Color){ 200, 200, 200, 255 }"),
        define("color", "color", "1,2,3,4"),
    ];
    assert!(is_emittable(&defines));
    let constants = color_constants(&defines);
    assert_eq!(constants.len(), 1);
    assert_eq!(constants[0].name, "LIGHTGRAY");
}

#[test]
fn a_malformed_define_of_another_kind_does_not_matter() {
    assert!(is_emittable(&vec![define("PI", "FLOAT", "3")]));
    assert!(is_emittable(&vec![]));
}

#[test]
fn source_file_of_two_colours() {
    let description = api(vec![
        define("LIGHTGRAY", "COLOR", "CLITERAL(Color){ 200, 200, 200, 255 }"),
        define("DEG2RAD", "FLOAT_MATH", "(PI/180.0f)"),
        define("RAYWHITE", "COLOR", "CLITERAL(Color){ 245, 245, 245, 255 }"),
    ]);
    assert_eq!(
        generate_define(&description, "demo"),
        "/* automatically generated by demo */\n\
         use raylib_rs_plain_sys as rl;\n\
         pub use rl::Color;\n\
         pub const LIGHTGRAY:Color = Color {r:200, g:200, b:200, a:255};\n\
         pub const RAYWHITE:Color = Color {r:245, g:245, b:245, a:255};\n"
    );
}

#[test]
fn source_file_without_colours_is_the_preamble() {
    assert_eq!(
        generate_define(&api(vec![]), "demo"),
        "/* automatically generated by demo */\nuse raylib_rs_plain_sys as rl;\npub use rl::Color;\n"
    );
}

#[test]
fn generating_the_constants_twice_gives_the_same_text() {
    let description = api(vec![define("BLANK", "COLOR", "CLITERAL(Color){ 0, 0, 0, 0 }")]);
    assert_eq!(
        generate_define(&description, "demo"),
        generate_define(&description.clone(), "demo")
    );
}
