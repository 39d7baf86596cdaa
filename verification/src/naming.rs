//! Names in the generated source: snake case for functions and parameters,
//! and a way round the reserved words of Rust.

use vstd::prelude::*;
use convert_case::{Case, Casing};
use crate::text::same_text;

verus! {

/// The snake-case form of a name, as the `convert_case` crate computes it:
/// the name is cut into words at spaces, underscores, hyphens, at a change
/// from lower to upper case, between letters and digits and before the last
/// capital of an acronym; empty words are left out, and the others are put in
/// lower case and written with underscores between them.
pub uninterp spec fn snake_case(name: Seq<char>) -> Seq<char>;

/// `convert_case::Casing::to_case` with `Case::Snake`.  The result is a
/// function of the name alone; the contract gives it the name `snake_case`
/// and says nothing else of it.
#[verifier::external_body]
fn to_snake_case(name: &str) -> (out: String)
    ensures
        out@ == snake_case(name@),
{
    name.to_case(Case::Snake)
}

/// The reserved words of Rust: the strict keywords and the words reserved for
/// later use.  None of them can name a parameter.
pub open spec fn reserved_words() -> Seq<Seq<char>> {
    seq![
        "as"@, "break"@, "const"@, "continue"@, "crate"@, "else"@, "enum"@, "extern"@,
        "false"@, "fn"@, "for"@, "if"@, "impl"@, "in"@, "let"@, "loop"@,
        "match"@, "mod"@, "move"@, "mut"@, "pub"@, "ref"@, "return"@, "self"@,
        "Self"@, "static"@, "struct"@, "super"@, "trait"@, "true"@, "type"@, "unsafe"@,
        "use"@, "where"@, "while"@, "async"@, "await"@, "dyn"@, "abstract"@, "become"@,
        "box"@, "do"@, "final"@, "macro"@, "override"@, "priv"@, "typeof"@, "unsized"@,
        "virtual"@, "yield"@, "try"@, "gen"@,
    ]
}

/// Whether a name is a reserved word of Rust.
pub open spec fn is_reserved(name: Seq<char>) -> bool {
    reserved_words().contains(name)
}

/// A name that can stand as an identifier: a reserved word gets an
/// underscore behind it, any other name stays as it is.
pub open spec fn fixed_keyword(name: Seq<char>) -> Seq<char> {
    if is_reserved(name) {
        name + "_"@
    } else {
        name
    }
}

/// The name of a C function in the generated source.
pub open spec fn function_ident(name: Seq<char>) -> Seq<char> {
    snake_case(name)
}

/// The name of a C parameter in the generated source: its snake-case form,
/// moved out of the way of the reserved words.
pub open spec fn param_ident(name: Seq<char>) -> Seq<char> {
    fixed_keyword(snake_case(name))
}

/// The reserved words as a list.
fn reserved_word_list() -> (words: Vec<&'static str>)
    ensures
        words.deep_view() == reserved_words(),
{
    let words = vec![
        "as", "break", "const", "continue", "crate", "else", "enum", "extern",
        "false", "fn", "for", "if", "impl", "in", "let", "loop",
        "match", "mod", "move", "mut", "pub", "ref", "return", "self",
        "Self", "static", "struct", "super", "trait", "true", "type", "unsafe",
        "use", "where", "while", "async", "await", "dyn", "abstract", "become",
        "box", "do", "final", "macro", "override", "priv", "typeof", "unsized",
        "virtual", "yield", "try", "gen",
    ];
    assert(words.deep_view() =~= reserved_words());
    words
}

/// Tells whether a name is a reserved word of Rust.
pub fn is_reserved_keyword(name: &str) -> (reserved: bool)
    ensures
        reserved == is_reserved(name@),
{
    let words = reserved_word_list();
    let mut i: usize = 0;
    while i < words.len()
        invariant
            i <= words.len(),
            words.deep_view() == reserved_words(),
            forall|j: int| 0 <= j < i ==> reserved_words()[j] != name@,
        decreases words.len() - i,
    {
        assert(words.deep_view()[i as int] == words[i as int]@);
        if same_text(words[i], name) {
            return true;
        }
        i += 1;
    }
    false
}

/// Moves a name out of the way of the reserved words: `box` becomes `box_`,
/// `type` becomes `type_`, and so for every reserved word; any other name
/// comes back unchanged.
pub fn fix_reserved_keyword(name: &str) -> (out: String)
    ensures
        out@ == fixed_keyword(name@),
{
    let mut out = name.to_owned();
    if is_reserved_keyword(name) {
        out.append("_");
    }
    out
}

/// The name of a C function in the generated source.
pub fn function_name(name: &str) -> (out: String)
    ensures
        out@ == function_ident(name@),
{
    to_snake_case(name)
}

/// The name of a C parameter in the generated source.
pub fn parameter_name(name: &str) -> (out: String)
    ensures
        out@ == param_ident(name@),
{
    let snake = to_snake_case(name);
    fix_reserved_keyword(snake.as_str())
}

/// `box` and `type` are reserved words: as names they become `box_` and
/// `type_`.
pub proof fn lemma_box_and_type_are_fixed()
    ensures
        fixed_keyword("box"@) == "box_"@,
        fixed_keyword("type"@) == "type_"@,
{
    reveal_strlit("box");
    reveal_strlit("box_");
    reveal_strlit("type");
    reveal_strlit("type_");
    reveal_strlit("_");
    assert(reserved_words()[40] == "box"@);
    assert(reserved_words()[30] == "type"@);
    assert("box"@ + "_"@ =~= "box_"@);
    assert("type"@ + "_"@ =~= "type_"@);
}

/// A parameter whose snake-case name is `box` or `type` is called `box_` or
/// `type_` in the generated source.
pub proof fn lemma_reserved_parameter_names(name: Seq<char>)
    ensures
        snake_case(name) == "box"@ ==> param_ident(name) == "box_"@,
        snake_case(name) == "type"@ ==> param_ident(name) == "type_"@,
{
    lemma_box_and_type_are_fixed();
}

} // verus!
