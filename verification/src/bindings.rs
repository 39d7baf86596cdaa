//! Finishing the raw bindings that a bindings generator has written for the
//! C header: one form of line ending throughout, and a derive for iterating
//! over the variants on every enum.

use vstd::prelude::*;
use crate::text::{regex_replace_all, replace_all, replace_first, replaced_all, replaced_first, with_crlf};

verus! {

/// The line that the raw bindings carry where further imports belong.
pub const ADDITIONAL_RAW_LINE_COMMENT: &'static str = "// ------------ Additional raw_line";

/// The finished bindings.  Line endings come first.  With `use_strum`, the
/// first marker line becomes the import of the derive, and the derive list in
/// front of every enum gets the derive as its last entry.  A marker line that
/// is still there is then taken out, once.
pub open spec fn postprocessed(content: Seq<char>, use_strum: bool) -> Seq<char> {
    let normalized = with_crlf(content);
    let derived = if use_strum {
        replaced_all(
            replaced_first(
                normalized,
                ADDITIONAL_RAW_LINE_COMMENT@,
                "use strum_macros::EnumIter;"@,
            ),
            ")]\r\npub enum "@,
            ", EnumIter)]\r\npub enum "@,
        )
    } else {
        normalized
    };
    replaced_first(derived, ADDITIONAL_RAW_LINE_COMMENT@, ""@)
}

/// Writes every line ending as a carriage return and a line feed.
pub fn normalize_line_endings(content: &str) -> (out: String)
    ensures
        out@ == with_crlf(content@),
{
    regex_replace_all("\r\n|\r|\n", content, "\r\n")
}

/// Finishes raw bindings: normalizes the line endings, adds the derive for
/// iterating over enum variants where `use_strum` asks for it, and takes the
/// marker line out.
pub fn postprocess_bindings(content: &str, use_strum: bool) -> (out: String)
    ensures
        out@ == postprocessed(content@, use_strum),
{
    proof {
        reveal_strlit("// ------------ Additional raw_line");
        reveal_strlit(")]\r\npub enum ");
    }
    let mut text = normalize_line_endings(content);
    if use_strum {
        text = replace_first(text.as_str(), ADDITIONAL_RAW_LINE_COMMENT, "use strum_macros::EnumIter;");
        text = replace_all(text.as_str(), ")]\r\npub enum ", ", EnumIter)]\r\npub enum ");
    }
    replace_first(text.as_str(), ADDITIONAL_RAW_LINE_COMMENT, "")
}

/// Normalizing line endings is stable: a text whose line endings have been
/// normalized comes back unchanged when they are normalized again.
pub proof fn lemma_normalizing_is_stable(s: Seq<char>)
    ensures
        with_crlf(with_crlf(s)) == with_crlf(s),
    decreases s.len(),
{
    let ending = seq!['\r', '\n'];
    if s.len() == 0 {
    } else if (s.len() > 1 && s[0] == '\r' && s[1] == '\n') || s[0] == '\r' || s[0] == '\n' {
        let rest = if s.len() > 1 && s[0] == '\r' && s[1] == '\n' {
            s.skip(2)
        } else {
            s.skip(1)
        };
        lemma_normalizing_is_stable(rest);
        assert((ending + with_crlf(rest)).skip(2) =~= with_crlf(rest));
    } else {
        lemma_normalizing_is_stable(s.skip(1));
        assert((seq![s[0]] + with_crlf(s.skip(1))).skip(1) =~= with_crlf(s.skip(1)));
    }
}

} // verus!
