//! Sequences of characters: splitting on a separator, joining with one,
//! looking for one text inside another, and replacing what a pattern matches.

use vstd::prelude::*;
use regex::Regex;

verus! {

/// The pieces of `s` that lie between occurrences of `sep`.  There is always
/// at least one piece; two separators in a row enclose an empty piece.
pub open spec fn split_on(s: Seq<char>, sep: char) -> Seq<Seq<char>>
    decreases s.len(),
{
    if s.len() == 0 {
        seq![Seq::<char>::empty()]
    } else {
        let before = split_on(s.drop_last(), sep);
        if s.last() == sep {
            before.push(Seq::<char>::empty())
        } else {
            before.drop_last().push(before.last().push(s.last()))
        }
    }
}

/// The pieces written one after another with `sep` between neighbours.
pub open spec fn joined(pieces: Seq<Seq<char>>, sep: Seq<char>) -> Seq<char>
    decreases pieces.len(),
{
    if pieces.len() == 0 {
        Seq::<char>::empty()
    } else if pieces.len() == 1 {
        pieces[0]
    } else {
        joined(pieces.drop_last(), sep) + sep + pieces.last()
    }
}

/// `needle` stands somewhere in `hay` as a contiguous run of characters.
pub open spec fn occurs_in(needle: Seq<char>, hay: Seq<char>) -> bool {
    exists|at: int| occurs_at(needle, hay, at)
}

/// `needle` stands in `hay` at offset `at`.
pub open spec fn occurs_at(needle: Seq<char>, hay: Seq<char>, at: int) -> bool {
    0 <= at && at + needle.len() <= hay.len() && hay.subrange(at, at + needle.len()) == needle
}

/// A digit or a comma.
pub open spec fn is_digit_or_comma(c: char) -> bool {
    c == '0' || c == '1' || c == '2' || c == '3' || c == '4' || c == '5' || c == '6' || c == '7'
        || c == '8' || c == '9' || c == ','
}

/// A text with everything but digits and commas dropped.
pub open spec fn digits_and_commas(s: Seq<char>) -> Seq<char> {
    s.filter(|c: char| is_digit_or_comma(c))
}

/// A text with every line ending written as a carriage return and a line
/// feed.  A line ending is a carriage return with a line feed behind it, or
/// either of the two alone.
pub open spec fn with_crlf(s: Seq<char>) -> Seq<char>
    decreases s.len(),
{
    if s.len() == 0 {
        s
    } else if s.len() > 1 && s[0] == '\r' && s[1] == '\n' {
        seq!['\r', '\n'] + with_crlf(s.skip(2))
    } else if s[0] == '\r' || s[0] == '\n' {
        seq!['\r', '\n'] + with_crlf(s.skip(1))
    } else {
        seq![s[0]] + with_crlf(s.skip(1))
    }
}

/// A text with the first occurrence of `from` replaced by `to`; the text
/// itself where `from` does not occur.
pub open spec fn replaced_first(s: Seq<char>, from: Seq<char>, to: Seq<char>) -> Seq<char>
    recommends
        from.len() > 0,
    decreases s.len(),
{
    if from.len() == 0 || s.len() < from.len() {
        s
    } else if s.subrange(0, from.len() as int) == from {
        to + s.skip(from.len() as int)
    } else {
        seq![s[0]] + replaced_first(s.skip(1), from, to)
    }
}

/// A text with every occurrence of `from` replaced by `to`.  Occurrences are
/// taken from left to right, and one that starts inside an earlier one does
/// not count.
pub open spec fn replaced_all(s: Seq<char>, from: Seq<char>, to: Seq<char>) -> Seq<char>
    recommends
        from.len() > 0,
    decreases s.len(),
{
    if from.len() == 0 || s.len() < from.len() {
        s
    } else if s.subrange(0, from.len() as int) == from {
        to + replaced_all(s.skip(from.len() as int), from, to)
    } else {
        seq![s[0]] + replaced_all(s.skip(1), from, to)
    }
}

/// A split never comes back empty.
pub proof fn lemma_split_on_nonempty(s: Seq<char>, sep: char)
    ensures
        split_on(s, sep).len() >= 1,
    decreases s.len(),
{
    if s.len() > 0 {
        lemma_split_on_nonempty(s.drop_last(), sep);
    }
}

/// Joining the pieces of a split with the separator gives the text back.
pub proof fn lemma_split_then_join(s: Seq<char>, sep: char)
    ensures
        joined(split_on(s, sep), seq![sep]) == s,
    decreases s.len(),
{
    if s.len() > 0 {
        let rest = s.drop_last();
        let before = split_on(rest, sep);
        let pieces = split_on(s, sep);
        lemma_split_then_join(rest, sep);
        lemma_split_on_nonempty(rest, sep);
        assert(rest.push(s.last()) =~= s);
        if s.last() == sep {
            assert(pieces.drop_last() =~= before);
            assert(joined(pieces, seq![sep]) =~= rest.push(sep));
        } else {
            assert(pieces.drop_last() =~= before.drop_last());
            assert(joined(pieces, seq![sep]) =~= rest.push(s.last()));
        }
    }
}

/// No piece of a split holds the separator.
pub proof fn lemma_pieces_hold_no_separator(s: Seq<char>, sep: char)
    ensures
        forall|k: int, j: int|
            0 <= k < split_on(s, sep).len() && 0 <= j < split_on(s, sep)[k].len() ==> (
            #[trigger] split_on(s, sep)[k][j]) != sep,
    decreases s.len(),
{
    if s.len() > 0 {
        lemma_pieces_hold_no_separator(s.drop_last(), sep);
        lemma_split_on_nonempty(s.drop_last(), sep);
    }
}

/// A text without the separator is its own single piece.
pub proof fn lemma_split_without_separator(s: Seq<char>, sep: char)
    requires
        forall|i: int| 0 <= i < s.len() ==> s[i] != sep,
    ensures
        split_on(s, sep) == seq![s],
    decreases s.len(),
{
    if s.len() > 0 {
        lemma_split_without_separator(s.drop_last(), sep);
        assert(s.drop_last().push(s.last()) =~= s);
        assert(split_on(s, sep) =~= seq![s]);
    } else {
        assert(s =~= Seq::<char>::empty());
    }
}

/// A separator between two texts cuts them apart: the pieces of the whole are
/// the pieces of the first followed by the pieces of the second.
pub proof fn lemma_split_at_separator(a: Seq<char>, b: Seq<char>, sep: char)
    ensures
        split_on(a + seq![sep] + b, sep) == split_on(a, sep) + split_on(b, sep),
    decreases b.len(),
{
    let whole = a + seq![sep] + b;
    if b.len() == 0 {
        assert(whole.drop_last() =~= a);
        assert(split_on(b, sep) =~= seq![Seq::<char>::empty()]);
        assert(split_on(whole, sep) =~= split_on(a, sep) + split_on(b, sep));
    } else {
        let rest = b.drop_last();
        lemma_split_at_separator(a, rest, sep);
        lemma_split_on_nonempty(rest, sep);
        assert(whole.drop_last() =~= a + seq![sep] + rest);
        assert(whole.last() == b.last());
        assert(split_on(whole, sep) =~= split_on(a, sep) + split_on(b, sep));
    }
}

/// An occurrence in a text is an occurrence in the text with one more
/// character behind it.
proof fn lemma_occurs_in_longer(needle: Seq<char>, hay: Seq<char>, c: char)
    requires
        occurs_in(needle, hay),
    ensures
        occurs_in(needle, hay.push(c)),
{
    let at = choose|at: int| occurs_at(needle, hay, at);
    assert(hay.push(c).subrange(at, at + needle.len()) =~= hay.subrange(at, at + needle.len()));
    assert(occurs_at(needle, hay.push(c), at));
}

/// Every piece of a split stands in the text, and the last piece ends it.
pub proof fn lemma_pieces_occur(s: Seq<char>, sep: char)
    ensures
        forall|k: int| 0 <= k < split_on(s, sep).len() ==> occurs_in(#[trigger] split_on(s, sep)[k], s),
        occurs_at(split_on(s, sep).last(), s, s.len() - split_on(s, sep).last().len()),
    decreases s.len(),
{
    let pieces = split_on(s, sep);
    if s.len() == 0 {
        assert(s.subrange(0, 0) =~= Seq::<char>::empty());
        assert(occurs_at(pieces[0], s, 0));
    } else {
        let rest = s.drop_last();
        let before = split_on(rest, sep);
        lemma_pieces_occur(rest, sep);
        lemma_split_on_nonempty(rest, sep);
        assert(rest.push(s.last()) =~= s);
        let start = rest.len() - before.last().len();
        if s.last() == sep {
            assert(s.subrange(s.len() as int, s.len() as int) =~= Seq::<char>::empty());
        } else {
            assert(s.subrange(start, s.len() as int) =~= rest.subrange(start, rest.len() as int).push(
                s.last(),
            ));
        }
        assert(occurs_at(pieces.last(), s, s.len() - pieces.last().len()));
        assert forall|k: int| 0 <= k < pieces.len() implies occurs_in(#[trigger] pieces[k], s) by {
            if k < pieces.len() - 1 {
                assert(pieces[k] == before[k]);
                lemma_occurs_in_longer(before[k], rest, s.last());
            }
        }
    }
}

/// `regex::Regex::new` on `pattern`, then `Regex::replace_all` on `text`.
/// The contract covers the two patterns that the library uses, both well
/// formed, so that compiling them does not fail.  The first is the class of
/// all characters but `0` to `9` and the comma, replaced by nothing: every
/// match is one such character, so `text` comes back without them.  The
/// second is a carriage return and a line feed, or a carriage return, or a
/// line feed, tried in that order at each place, replaced by a carriage return
/// and a line feed.
#[verifier::external_body]
pub(crate) fn regex_replace_all(pattern: &str, text: &str, replacement: &str) -> (out: String)
    requires
        (pattern@ == "[^0-9,]"@ && replacement@ == ""@) || (pattern@ == "\r\n|\r|\n"@
            && replacement@ == "\r\n"@),
    ensures
        pattern@ == "[^0-9,]"@ ==> out@ == digits_and_commas(text@),
        pattern@ == "\r\n|\r|\n"@ ==> out@ == with_crlf(text@),
{
    Regex::new(pattern).unwrap().replace_all(text, replacement).into_owned()
}

/// Where `from` occurs at `at` and nowhere before, replacing the first
/// occurrence keeps what stands before `at` and what stands behind the
/// occurrence, with `to` between them.
proof fn lemma_replaced_first_found(s: Seq<char>, from: Seq<char>, to: Seq<char>, at: int)
    requires
        from.len() > 0,
        occurs_at(from, s, at),
        forall|j: int| 0 <= j < at ==> !occurs_at(from, s, j),
    ensures
        replaced_first(s, from, to) == s.subrange(0, at) + to + s.subrange(
            at + from.len(),
            s.len() as int,
        ),
    decreases at,
{
    let n = from.len() as int;
    if at == 0 {
        assert(s.skip(n) =~= s.subrange(n, s.len() as int));
        assert(s.subrange(0, 0) + to + s.subrange(n, s.len() as int) =~= to + s.skip(n));
    } else {
        let rest = s.skip(1);
        assert(!occurs_at(from, s, 0));
        assert(rest.subrange(at - 1, at - 1 + n) =~= s.subrange(at, at + n));
        assert forall|j: int| 0 <= j < at - 1 implies !occurs_at(from, rest, j) by {
            if j + n <= rest.len() {
                assert(rest.subrange(j, j + n) =~= s.subrange(j + 1, j + 1 + n));
            }
            assert(!occurs_at(from, s, j + 1));
        }
        lemma_replaced_first_found(rest, from, to, at - 1);
        assert(seq![s[0]] + (rest.subrange(0, at - 1) + to + rest.subrange(
            at - 1 + n,
            rest.len() as int,
        )) =~= s.subrange(0, at) + to + s.subrange(at + n, s.len() as int));
    }
}

/// Where `from` does not occur, replacing its first occurrence changes nothing.
proof fn lemma_replaced_first_absent(s: Seq<char>, from: Seq<char>, to: Seq<char>)
    requires
        from.len() > 0,
        forall|j: int| !occurs_at(from, s, j),
    ensures
        replaced_first(s, from, to) == s,
    decreases s.len(),
{
    let n = from.len() as int;
    if s.len() >= n {
        let rest = s.skip(1);
        assert(!occurs_at(from, s, 0));
        assert forall|j: int| !occurs_at(from, rest, j) by {
            if 0 <= j && j + n <= rest.len() {
                assert(rest.subrange(j, j + n) =~= s.subrange(j + 1, j + 1 + n));
            }
            assert(!occurs_at(from, s, j + 1));
        }
        lemma_replaced_first_absent(rest, from, to);
        assert(seq![s[0]] + rest =~= s);
    }
}

/// The characters of a string slice, one per element.
pub fn chars_of(s: &str) -> (out: Vec<char>)
    ensures
        out@ == s@,
{
    broadcast use vstd::string::group_string_axioms;

    let mut out: Vec<char> = Vec::new();
    for c in it: s.chars()
        invariant
            it.seq() == s@,
            out@ == s@.take(it.index() as int),
    {
        out.push(c);
        assert(out@ =~= s@.take(it.index() + 1));
    }
    assert(s@.take(s@.len() as int) =~= s@);
    out
}

/// Whether two string slices hold the same characters.
pub fn same_text(a: &str, b: &str) -> (same: bool)
    ensures
        same == (a@ == b@),
{
    a.to_owned() == b.to_owned()
}

/// Cuts `s` at every `sep`, as `str::split` does for a single character.
pub fn split<'a>(s: &'a str, sep: char) -> (pieces: Vec<&'a str>)
    ensures
        pieces.deep_view() == split_on(s@, sep),
{
    let chars = chars_of(s);
    let n = chars.len();
    let mut pieces: Vec<&'a str> = Vec::new();
    let mut start: usize = 0;
    let mut i: usize = 0;
    proof {
        assert(s@.take(0) =~= Seq::<char>::empty());
        assert(pieces.deep_view().push(s@.subrange(0, 0)) =~= seq![Seq::<char>::empty()]);
    }
    while i < n
        invariant
            chars@ == s@,
            n == chars.len(),
            start <= i <= n,
            pieces.deep_view().push(s@.subrange(start as int, i as int)) == split_on(
                s@.take(i as int),
                sep,
            ),
        decreases n - i,
    {
        let ghost before = split_on(s@.take(i as int), sep);
        let ghost done = pieces.deep_view();
        proof {
            assert(s@.take(i + 1).drop_last() =~= s@.take(i as int));
            assert(s@.take(i + 1).last() == s@[i as int]);
            assert(before.drop_last() =~= done);
            assert(before.last() == s@.subrange(start as int, i as int));
        }
        if chars[i] == sep {
            pieces.push(s.substring_char(start, i));
            start = i + 1;
            proof {
                assert(pieces.deep_view() =~= before);
                assert(s@.subrange(start as int, i + 1) =~= Seq::<char>::empty());
            }
        } else {
            proof {
                assert(s@.subrange(start as int, i + 1) =~= s@.subrange(start as int, i as int).push(
                    s@[i as int],
                ));
            }
        }
        i += 1;
    }
    pieces.push(s.substring_char(start, n));
    proof {
        assert(s@.take(n as int) =~= s@);
        assert(pieces.deep_view() =~= split_on(s@, sep));
    }
    pieces
}

/// Writes the pieces one after another with `sep` between neighbours, as
/// `join` does on a slice of strings.
pub fn join(pieces: &Vec<String>, sep: &str) -> (out: String)
    ensures
        out@ == joined(pieces.deep_view(), sep@),
{
    let ghost all = pieces.deep_view();
    let mut out = String::new();
    let mut i: usize = 0;
    while i < pieces.len()
        invariant
            i <= pieces.len(),
            all == pieces.deep_view(),
            out@ == joined(all.take(i as int), sep@),
        decreases pieces.len() - i,
    {
        proof {
            assert(all.take(i + 1).drop_last() =~= all.take(i as int));
            assert(all.take(i + 1).last() == pieces[i as int]@);
        }
        if i > 0 {
            out.append(sep);
        }
        out.append(pieces[i].as_str());
        i += 1;
    }
    proof {
        assert(all.take(pieces.len() as int) =~= all);
    }
    out
}

/// Whether `needle` stands in `hay` at offset `at`.
fn matches_at(hay: &Vec<char>, needle: &Vec<char>, at: usize) -> (found: bool)
    requires
        at + needle.len() <= hay.len(),
    ensures
        found == occurs_at(needle@, hay@, at as int),
{
    let mut k: usize = 0;
    while k < needle.len()
        invariant
            k <= needle.len(),
            at + needle.len() <= hay.len(),
            hay@.subrange(at as int, at + k) == needle@.take(k as int),
        decreases needle.len() - k,
    {
        if hay[at + k] != needle[k] {
            proof {
                assert(hay@.subrange(at as int, at + needle.len())[k as int] == hay[at + k]);
            }
            return false;
        }
        proof {
            assert(hay@.subrange(at as int, at + k + 1) =~= hay@.subrange(at as int, at + k).push(
                hay[at + k],
            ));
            assert(needle@.take(k + 1) =~= needle@.take(k as int).push(needle[k as int]));
        }
        k += 1;
    }
    proof {
        assert(needle@.take(needle.len() as int) =~= needle@);
    }
    true
}

/// Whether `needle` stands somewhere in `hay`, as `str::contains` tells for a
/// string pattern.
pub fn contains(hay: &str, needle: &str) -> (found: bool)
    ensures
        found == occurs_in(needle@, hay@),
{
    let hay_chars = chars_of(hay);
    let needle_chars = chars_of(needle);
    if needle_chars.len() > hay_chars.len() {
        return false;
    }
    let last: usize = hay_chars.len() - needle_chars.len();
    let mut at: usize = 0;
    loop
        invariant
            hay_chars@ == hay@,
            needle_chars@ == needle@,
            last + needle_chars.len() == hay_chars.len(),
            at <= last,
            forall|j: int| 0 <= j < at ==> !occurs_at(needle@, hay@, j),
        decreases last - at,
    {
        if matches_at(&hay_chars, &needle_chars, at) {
            return true;
        }
        if at == last {
            return false;
        }
        at += 1;
    }
}

/// Replaces the first occurrence of `from` by `to`, as `str::replacen` does
/// with a count of one.
pub(crate) fn replace_first(text: &str, from: &str, to: &str) -> (out: String)
    requires
        from@.len() > 0,
    ensures
        out@ == replaced_first(text@, from@, to@),
{
    let hay = chars_of(text);
    let needle = chars_of(from);
    if needle.len() > hay.len() {
        return text.to_owned();
    }
    let last: usize = hay.len() - needle.len();
    let mut at: usize = 0;
    loop
        invariant
            hay@ == text@,
            needle@ == from@,
            from@.len() > 0,
            last + needle.len() == hay.len(),
            at <= last,
            forall|j: int| 0 <= j < at ==> !occurs_at(from@, text@, j),
        decreases last - at,
    {
        if matches_at(&hay, &needle, at) {
            let mut out = text.substring_char(0, at).to_owned();
            out.append(to);
            out.append(text.substring_char(at + needle.len(), hay.len()));
            proof {
                lemma_replaced_first_found(text@, from@, to@, at as int);
            }
            return out;
        }
        if at == last {
            proof {
                lemma_replaced_first_absent(text@, from@, to@);
            }
            return text.to_owned();
        }
        at += 1;
    }
}

/// Replaces every occurrence of `from` by `to`, as `str::replace` does.
pub(crate) fn replace_all(text: &str, from: &str, to: &str) -> (out: String)
    requires
        from@.len() > 0,
    ensures
        out@ == replaced_all(text@, from@, to@),
{
    let hay = chars_of(text);
    let needle = chars_of(from);
    let n = needle.len();
    let len = hay.len();
    let mut out = String::new();
    let mut kept: usize = 0;
    let mut i: usize = 0;
    proof {
        assert(text@.skip(0) =~= text@);
        assert(out@ + text@.subrange(0, 0) + replaced_all(text@, from@, to@) =~= replaced_all(
            text@,
            from@,
            to@,
        ));
    }
    while len - i >= n
        invariant
            hay@ == text@,
            needle@ == from@,
            n == needle.len(),
            len == hay.len(),
            n > 0,
            kept <= i <= len,
            replaced_all(text@, from@, to@) == out@ + text@.subrange(kept as int, i as int)
                + replaced_all(text@.skip(i as int), from@, to@),
        decreases len - i,
    {
        let ghost rest = text@.skip(i as int);
        let ghost before = out@ + text@.subrange(kept as int, i as int);
        proof {
            assert(rest.subrange(0, n as int) =~= text@.subrange(i as int, i + n));
        }
        if matches_at(&hay, &needle, i) {
            out.append(text.substring_char(kept, i));
            out.append(to);
            i += n;
            kept = i;
            proof {
                assert(rest.skip(n as int) =~= text@.skip(i as int));
                assert(text@.subrange(kept as int, i as int) =~= Seq::<char>::empty());
                assert(out@ + text@.subrange(kept as int, i as int) + replaced_all(
                    text@.skip(i as int),
                    from@,
                    to@,
                ) =~= before + replaced_all(rest, from@, to@));
            }
        } else {
            i += 1;
            proof {
                assert(rest.skip(1) =~= text@.skip(i as int));
                assert(text@.subrange(kept as int, i as int) =~= text@.subrange(
                    kept as int,
                    i - 1,
                ).push(rest[0]));
                assert(out@ + text@.subrange(kept as int, i as int) + replaced_all(
                    text@.skip(i as int),
                    from@,
                    to@,
                ) =~= before + replaced_all(rest, from@, to@));
            }
        }
    }
    out.append(text.substring_char(kept, len));
    proof {
        assert(text@.subrange(kept as int, i as int) + text@.skip(i as int) =~= text@.subrange(
            kept as int,
            len as int,
        ));
    }
    out
}

} // verus!
