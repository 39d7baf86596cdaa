//! Translation of a C type, written as text, into the Rust type that stands
//! for it in a foreign-function signature.
//!
//! A C type is a run of tokens separated by single spaces: `const`, the
//! words of a base type, and tokens that carry asterisks.  The translation is
//! a prefix of pointer and `const` qualifiers followed by a base type.

use vstd::prelude::*;
use crate::text::{
    chars_of, contains, join, joined, lemma_pieces_occur, lemma_split_at_separator,
    lemma_split_on_nonempty, lemma_split_then_join, lemma_split_without_separator, occurs_at,
    occurs_in, same_text, split, split_on,
};

verus! {

/// One qualifier in front of a translated base type.
#[derive(Clone, Copy, Debug, PartialEq, Eq)]
pub enum Qualifier {
    /// A pointer to a mutable target, written `*mut `.
    MutPointer,
    /// A bare asterisk, written `*`.  It is what an asterisk becomes in a type
    /// that mentions `const`; a `Const` behind it makes the pair read `*const `.
    Pointer,
    /// The word `const`, written `const `.
    Const,
}

/// The text of one qualifier.
pub open spec fn qualifier_text(q: Qualifier) -> Seq<char> {
    match q {
        Qualifier::MutPointer => "*mut "@,
        Qualifier::Pointer => "*"@,
        Qualifier::Const => "const "@,
    }
}

/// The text of a run of qualifiers, outermost first.
pub open spec fn prefix_text(prefix: Seq<Qualifier>) -> Seq<char>
    decreases prefix.len(),
{
    if prefix.len() == 0 {
        Seq::<char>::empty()
    } else {
        prefix_text(prefix.drop_last()) + qualifier_text(prefix.last())
    }
}

/// How many asterisks a token holds.
pub open spec fn asterisks(token: Seq<char>) -> nat
    decreases token.len(),
{
    if token.len() == 0 {
        0
    } else {
        asterisks(token.drop_last()) + if token.last() == '*' {
            1nat
        } else {
            0nat
        }
    }
}

/// What an asterisk becomes when nothing exempts it: a bare pointer in a type
/// that mentions `const`, a mutable pointer otherwise.
pub open spec fn later_pointer(has_const: bool) -> Qualifier {
    if has_const {
        Qualifier::Pointer
    } else {
        Qualifier::MutPointer
    }
}

/// What the first asterisk of a token becomes.  In a token of more than one
/// character it is a mutable pointer whatever the type says of `const`; a
/// token that is a lone asterisk gets no such exemption.
pub open spec fn first_pointer(token_len: nat, has_const: bool) -> Qualifier {
    if token_len > 1 {
        Qualifier::MutPointer
    } else {
        later_pointer(has_const)
    }
}

/// `n` pointers: `first` once, then `later`.
pub open spec fn pointer_run(n: nat, first: Qualifier, later: Qualifier) -> Seq<Qualifier> {
    Seq::new(
        n,
        |i: int|
            if i == 0 {
                first
            } else {
                later
            },
    )
}

/// The qualifiers that one token contributes: one pointer per asterisk.
pub open spec fn token_qualifiers(token: Seq<char>, has_const: bool) -> Seq<Qualifier> {
    pointer_run(asterisks(token), first_pointer(token.len(), has_const), later_pointer(has_const))
}

/// The qualifier prefix of a run of tokens.  Tokens are read left to right; the
/// pointers of a token go in front of everything found so far, a `const`
/// token goes behind it.
pub open spec fn prefix_of(tokens: Seq<Seq<char>>, has_const: bool) -> Seq<Qualifier>
    decreases tokens.len(),
{
    if tokens.len() == 0 {
        Seq::<Qualifier>::empty()
    } else {
        let found = prefix_of(tokens.drop_last(), has_const);
        let token = tokens.last();
        if asterisks(token) > 0 {
            token_qualifiers(token, has_const) + found
        } else if token == "const"@ {
            found.push(Qualifier::Const)
        } else {
            found
        }
    }
}

/// A token that is part of the base type: no asterisk in it, and not `const`.
pub open spec fn is_base_token(token: Seq<char>) -> bool {
    asterisks(token) == 0 && token != "const"@
}

/// The tokens that make up the base type, in their order.
pub open spec fn base_tokens(tokens: Seq<Seq<char>>) -> Seq<Seq<char>> {
    tokens.filter(|token: Seq<char>| is_base_token(token))
}

/// The C name of the base type: its tokens with single spaces between them.
pub open spec fn base_key(c_type: Seq<char>) -> Seq<char> {
    joined(base_tokens(split_on(c_type, ' ')), seq![' '])
}

/// The Rust name of a C base type.  The primitive types of C have names of
/// their own; any other name stands for itself.
pub open spec fn substituted(key: Seq<char>) -> Seq<char> {
    if key == "unsigned char"@ {
        "c_uchar"@
    } else if key == "unsigned int"@ {
        "c_uint"@
    } else if key == "int"@ {
        "c_int"@
    } else if key == "long"@ {
        "c_long"@
    } else if key == "float"@ {
        "f32"@
    } else if key == "double"@ {
        "f64"@
    } else if key == "void"@ {
        "c_void"@
    } else if key == "char"@ {
        "c_char"@
    } else {
        key
    }
}

/// A translated type as a value: the qualifiers, outermost first, and the
/// Rust name of the base type.
pub struct TranslatedTypeView {
    pub prefix: Seq<Qualifier>,
    pub base: Seq<char>,
}

/// The translation of a C type.
pub open spec fn translated(c_type: Seq<char>) -> TranslatedTypeView {
    TranslatedTypeView {
        prefix: prefix_of(split_on(c_type, ' '), occurs_in("const"@, c_type)),
        base: substituted(base_key(c_type)),
    }
}

/// The text of a translated type: the qualifiers, then the base type.
pub open spec fn rendered(t: TranslatedTypeView) -> Seq<char> {
    prefix_text(t.prefix) + t.base
}

/// The Rust type, as text, that stands for a C type.
pub open spec fn rs_type(c_type: Seq<char>) -> Seq<char> {
    rendered(translated(c_type))
}

/// What follows the parameter list of a function that returns `c_type`:
/// nothing for `void`, an arrow and the translated type otherwise.
pub open spec fn rs_return_type(c_type: Seq<char>) -> Seq<char> {
    if c_type == "void"@ {
        Seq::<char>::empty()
    } else {
        " -> "@ + rs_type(c_type)
    }
}

/// A translated type: the qualifiers, outermost first, and the Rust name of
/// the base type.
#[derive(Clone, Debug, PartialEq, Eq)]
pub struct TranslatedType {
    pub prefix: Vec<Qualifier>,
    pub base: String,
}

impl View for TranslatedType {
    type V = TranslatedTypeView;

    open spec fn view(&self) -> TranslatedTypeView {
        TranslatedTypeView { prefix: self.prefix@, base: self.base@ }
    }
}

/// Looks a base type up in the table of C primitive types.
pub fn substitute(key: &str) -> (out: String)
    ensures
        out@ == substituted(key@),
{
    if same_text(key, "unsigned char") {
        "c_uchar".to_owned()
    } else if same_text(key, "unsigned int") {
        "c_uint".to_owned()
    } else if same_text(key, "int") {
        "c_int".to_owned()
    } else if same_text(key, "long") {
        "c_long".to_owned()
    } else if same_text(key, "float") {
        "f32".to_owned()
    } else if same_text(key, "double") {
        "f64".to_owned()
    } else if same_text(key, "void") {
        "c_void".to_owned()
    } else if same_text(key, "char") {
        "c_char".to_owned()
    } else {
        key.to_owned()
    }
}

/// The pointers of one token, given whether the whole type mentions `const`.
pub fn token_pointers(token: &str, has_const: bool) -> (out: Vec<Qualifier>)
    ensures
        out@ == token_qualifiers(token@, has_const),
{
    let chars = chars_of(token);
    let later = if has_const {
        Qualifier::Pointer
    } else {
        Qualifier::MutPointer
    };
    let first = if chars.len() > 1 {
        Qualifier::MutPointer
    } else {
        later
    };
    let mut out: Vec<Qualifier> = Vec::new();
    let mut i: usize = 0;
    while i < chars.len()
        invariant
            i <= chars.len(),
            chars@ == token@,
            later == later_pointer(has_const),
            first == first_pointer(token@.len(), has_const),
            out@ == pointer_run(asterisks(token@.take(i as int)), first, later),
        decreases chars.len() - i,
    {
        proof {
            assert(token@.take(i + 1).drop_last() =~= token@.take(i as int));
        }
        if chars[i] == '*' {
            if out.len() == 0 {
                out.push(first);
            } else {
                out.push(later);
            }
            proof {
                assert(out@ =~= pointer_run(asterisks(token@.take(i + 1)), first, later));
            }
        }
        i += 1;
    }
    proof {
        assert(token@.take(chars.len() as int) =~= token@);
    }
    out
}

/// Translates a C type.  The text is cut at single spaces.  A token that
/// holds asterisks gives one pointer for each, in front of what the earlier
/// tokens gave; the token `const` gives a `const` behind it; the other tokens,
/// joined by spaces again, name the base type, which is looked up in the table
/// of primitive types.  No text is refused.
pub fn translate(c_type: &str) -> (out: TranslatedType)
    ensures
        out@ == translated(c_type@),
{
    let has_const = contains(c_type, "const");
    let tokens = split(c_type, ' ');
    let ghost all = tokens.deep_view();
    let mut prefix: Vec<Qualifier> = Vec::new();
    let mut base: Vec<String> = Vec::new();
    let mut k: usize = 0;
    while k < tokens.len()
        invariant
            k <= tokens.len(),
            all == tokens.deep_view(),
            prefix@ == prefix_of(all.take(k as int), has_const),
            base.deep_view() == base_tokens(all.take(k as int)),
        decreases tokens.len() - k,
    {
        let token = tokens[k];
        proof {
            assert(all.take(k + 1).drop_last() =~= all.take(k as int));
            assert(all.take(k + 1).last() == token@);
            reveal(Seq::filter);
        }
        let mut pointers = token_pointers(token, has_const);
        if pointers.len() > 0 {
            pointers.append(&mut prefix);
            prefix = pointers;
        } else if same_text(token, "const") {
            prefix.push(Qualifier::Const);
        } else {
            let ghost before = base.deep_view();
            base.push(token.to_owned());
            proof {
                assert(base.deep_view() =~= before.push(token@));
            }
        }
        k += 1;
    }
    proof {
        assert(all.take(tokens.len() as int) =~= all);
        reveal_strlit(" ");
        assert(" "@ =~= seq![' ']);
    }
    let key = join(&base, " ");
    TranslatedType { prefix, base: substitute(key.as_str()) }
}

impl TranslatedType {
    /// Writes the type out: the qualifiers, then the base type.
    pub fn render(&self) -> (out: String)
        ensures
            out@ == rendered(self@),
    {
        let mut out = String::new();
        let mut i: usize = 0;
        while i < self.prefix.len()
            invariant
                i <= self.prefix.len(),
                out@ == prefix_text(self.prefix@.take(i as int)),
            decreases self.prefix.len() - i,
        {
            proof {
                assert(self.prefix@.take(i + 1).drop_last() =~= self.prefix@.take(i as int));
            }
            match self.prefix[i] {
                Qualifier::MutPointer => out.append("*mut "),
                Qualifier::Pointer => out.append("*"),
                Qualifier::Const => out.append("const "),
            }
            i += 1;
        }
        proof {
            assert(self.prefix@.take(self.prefix.len() as int) =~= self.prefix@);
        }
        out.append(self.base.as_str());
        out
    }
}

/// The Rust type that stands for a C type in a foreign-function signature:
/// the translation of the type, written out.
pub fn c_to_rs_type(c_type: &str) -> (out: String)
    ensures
        out@ == rs_type(c_type@),
{
    translate(c_type).render()
}

/// What follows the parameter list of a function that returns `c_type`:
/// nothing for `void`, an arrow and the translated type otherwise.
pub fn c_to_rs_return_type(c_type: &str) -> (out: String)
    ensures
        out@ == rs_return_type(c_type@),
{
    if same_text(c_type, "void") {
        return String::new();
    }
    let mut out = " -> ".to_owned();
    out.append(c_to_rs_type(c_type).as_str());
    out
}

/// Whether a qualifier is a pointer, of either sort.
pub open spec fn is_pointer(q: Qualifier) -> bool {
    q != Qualifier::Const
}

/// How many pointers a prefix holds.
pub open spec fn pointers_in(prefix: Seq<Qualifier>) -> nat
    decreases prefix.len(),
{
    if prefix.len() == 0 {
        0
    } else {
        pointers_in(prefix.drop_last()) + if is_pointer(prefix.last()) {
            1nat
        } else {
            0nat
        }
    }
}

/// How many asterisks a run of tokens holds.
pub open spec fn asterisks_in_all(tokens: Seq<Seq<char>>) -> nat
    decreases tokens.len(),
{
    if tokens.len() == 0 {
        0
    } else {
        asterisks_in_all(tokens.drop_last()) + asterisks(tokens.last())
    }
}

/// A C type that is the name of a base type and nothing else: it holds no
/// asterisk, and none of its tokens is `const`.
pub open spec fn is_base_name(c_type: Seq<char>) -> bool {
    asterisks(c_type) == 0 && !split_on(c_type, ' ').contains("const"@)
}

/// A C type that holds no asterisk and does not mention `const` anywhere,
/// not even inside a longer word.
pub open spec fn is_plain(c_type: Seq<char>) -> bool {
    asterisks(c_type) == 0 && !occurs_in("const"@, c_type)
}

/// A text counts no asterisk exactly if none of its characters is one.
pub proof fn lemma_no_asterisk(t: Seq<char>)
    ensures
        asterisks(t) == 0 <==> forall|j: int| 0 <= j < t.len() ==> t[j] != '*',
    decreases t.len(),
{
    if t.len() > 0 {
        lemma_no_asterisk(t.drop_last());
        if asterisks(t) == 0 {
            assert forall|j: int| 0 <= j < t.len() implies t[j] != '*' by {
                if j < t.len() - 1 {
                    assert(t.drop_last()[j] == t[j]);
                }
            }
        }
        if forall|j: int| 0 <= j < t.len() ==> t[j] != '*' {
            assert forall|j: int| 0 <= j < t.drop_last().len() implies t.drop_last()[j] != '*' by {
                assert(t.drop_last()[j] == t[j]);
            }
        }
    }
}

/// What the last token adds to a prefix.
proof fn lemma_prefix_of_push(tokens: Seq<Seq<char>>, token: Seq<char>, has_const: bool)
    ensures
        prefix_of(tokens.push(token), has_const) == (if asterisks(token) > 0 {
            token_qualifiers(token, has_const) + prefix_of(tokens, has_const)
        } else if token == "const"@ {
            prefix_of(tokens, has_const).push(Qualifier::Const)
        } else {
            prefix_of(tokens, has_const)
        }),
{
    assert(tokens.push(token).drop_last() =~= tokens);
}

/// What the last token adds to the base tokens.
proof fn lemma_base_tokens_push(tokens: Seq<Seq<char>>, token: Seq<char>)
    ensures
        base_tokens(tokens.push(token)) == (if is_base_token(token) {
            base_tokens(tokens).push(token)
        } else {
            base_tokens(tokens)
        }),
{
    reveal(Seq::filter);
    assert(tokens.push(token).drop_last() =~= tokens);
}

/// The base tokens of two runs of tokens, one behind the other.
proof fn lemma_base_tokens_concat(a: Seq<Seq<char>>, b: Seq<Seq<char>>)
    ensures
        base_tokens(a + b) == base_tokens(a) + base_tokens(b),
    decreases b.len(),
{
    if b.len() == 0 {
        reveal(Seq::filter);
        assert(a + b =~= a);
        assert(base_tokens(b) =~= Seq::<Seq<char>>::empty());
        assert(base_tokens(a) + base_tokens(b) =~= base_tokens(a));
    } else {
        lemma_base_tokens_concat(a, b.drop_last());
        lemma_base_tokens_push(a + b.drop_last(), b.last());
        lemma_base_tokens_push(b.drop_last(), b.last());
        assert((a + b.drop_last()).push(b.last()) =~= a + b);
        assert(b.drop_last().push(b.last()) =~= b);
        assert(base_tokens(a + b) =~= base_tokens(a) + base_tokens(b));
    }
}

/// Base tokens leave the prefix as it is and are all kept for the base type.
proof fn lemma_base_tokens_only(head: Seq<Seq<char>>, tail: Seq<Seq<char>>, has_const: bool)
    requires
        forall|k: int| 0 <= k < tail.len() ==> is_base_token(#[trigger] tail[k]),
    ensures
        prefix_of(head + tail, has_const) == prefix_of(head, has_const),
        base_tokens(tail) == tail,
    decreases tail.len(),
{
    if tail.len() == 0 {
        reveal(Seq::filter);
        assert(head + tail =~= head);
    } else {
        let rest = tail.drop_last();
        assert forall|k: int| 0 <= k < rest.len() implies is_base_token(#[trigger] rest[k]) by {
            assert(rest[k] == tail[k]);
        }
        lemma_base_tokens_only(head, rest, has_const);
        lemma_prefix_of_push(head + rest, tail.last(), has_const);
        lemma_base_tokens_push(rest, tail.last());
        assert((head + rest).push(tail.last()) =~= head + tail);
        assert(rest.push(tail.last()) =~= tail);
    }
}

/// The tokens of the name of a base type are all base tokens.
proof fn lemma_base_name_tokens(c_type: Seq<char>)
    requires
        is_base_name(c_type),
    ensures
        forall|k: int|
            0 <= k < split_on(c_type, ' ').len() ==> is_base_token(#[trigger] split_on(c_type, ' ')[k]),
{
    let tokens = split_on(c_type, ' ');
    lemma_pieces_occur(c_type, ' ');
    lemma_no_asterisk(c_type);
    assert forall|k: int| 0 <= k < tokens.len() implies is_base_token(#[trigger] tokens[k]) by {
        let token = tokens[k];
        assert(occurs_in(token, c_type));
        let at = choose|at: int| occurs_at(token, c_type, at);
        assert forall|j: int| 0 <= j < token.len() implies token[j] != '*' by {
            assert(c_type.subrange(at, at + token.len())[j] == c_type[at + j]);
        }
        lemma_no_asterisk(token);
        assert(tokens.contains(token));
    }
}

/// A type that does not mention `const` anywhere has no token `const`: a
/// plain type is the name of a base type.
pub proof fn lemma_plain_is_base_name(c_type: Seq<char>)
    requires
        is_plain(c_type),
    ensures
        is_base_name(c_type),
{
    let tokens = split_on(c_type, ' ');
    lemma_pieces_occur(c_type, ' ');
    if tokens.contains("const"@) {
        let k = choose|k: int| 0 <= k < tokens.len() && tokens[k] == "const"@;
        assert(occurs_in(tokens[k], c_type));
    }
}

/// The word `const`, character by character.
proof fn lemma_const_word()
    ensures
        "const"@ == seq!['c', 'o', 'n', 's', 't'],
        asterisks("const"@) == 0,
        split_on("const"@, ' ') == seq!["const"@],
{
    reveal_strlit("const");
    assert("const"@ =~= seq!['c', 'o', 'n', 's', 't']);
    lemma_no_asterisk("const"@);
    lemma_split_without_separator("const"@, ' ');
}

/// A type with no asterisk and no `const` translates to its base type alone:
/// no qualifier stands in front, and the base type is the whole text looked up
/// in the table of primitive types.
pub proof fn lemma_base_name_alone(c_type: Seq<char>)
    requires
        is_base_name(c_type),
    ensures
        translated(c_type) == (TranslatedTypeView {
            prefix: Seq::<Qualifier>::empty(),
            base: substituted(c_type),
        }),
        rs_type(c_type) == substituted(c_type),
{
    let tokens = split_on(c_type, ' ');
    let has_const = occurs_in("const"@, c_type);
    lemma_base_name_tokens(c_type);
    lemma_base_tokens_only(Seq::<Seq<char>>::empty(), tokens, has_const);
    assert(Seq::<Seq<char>>::empty() + tokens =~= tokens);
    lemma_split_then_join(c_type, ' ');
    assert(prefix_text(Seq::<Qualifier>::empty()) + substituted(c_type) =~= substituted(c_type));
}

/// The pointers of two prefixes, one behind the other.
proof fn lemma_pointers_in_concat(a: Seq<Qualifier>, b: Seq<Qualifier>)
    ensures
        pointers_in(a + b) == pointers_in(a) + pointers_in(b),
    decreases b.len(),
{
    if b.len() == 0 {
        assert(a + b =~= a);
    } else {
        lemma_pointers_in_concat(a, b.drop_last());
        assert((a + b).drop_last() =~= a + b.drop_last());
    }
}

/// A run of `n` pointers holds `n` pointers.
proof fn lemma_pointers_in_run(n: nat, first: Qualifier, later: Qualifier)
    requires
        is_pointer(first),
        is_pointer(later),
    ensures
        pointers_in(pointer_run(n, first, later)) == n,
    decreases n,
{
    if n > 0 {
        lemma_pointers_in_run((n - 1) as nat, first, later);
        assert(pointer_run(n, first, later).drop_last() =~= pointer_run(
            (n - 1) as nat,
            first,
            later,
        ));
    }
}

/// The tokens of a type hold the asterisks of the type between them.
proof fn lemma_asterisks_of_tokens(s: Seq<char>)
    ensures
        asterisks_in_all(split_on(s, ' ')) == asterisks(s),
    decreases s.len(),
{
    let none = Seq::<char>::empty();
    if s.len() == 0 {
        assert(seq![none].drop_last() =~= Seq::<Seq<char>>::empty());
        assert(asterisks_in_all(seq![none].drop_last()) == 0);
    } else {
        let before = split_on(s.drop_last(), ' ');
        lemma_asterisks_of_tokens(s.drop_last());
        lemma_split_on_nonempty(s.drop_last(), ' ');
        if s.last() == ' ' {
            assert(before.push(none).drop_last() =~= before);
        } else {
            let grown = before.last().push(s.last());
            assert(before.drop_last().push(grown).drop_last() =~= before.drop_last());
            assert(grown.drop_last() =~= before.last());
        }
    }
}

/// A prefix holds one pointer for every asterisk of its tokens.
proof fn lemma_pointers_of_tokens(tokens: Seq<Seq<char>>, has_const: bool)
    ensures
        pointers_in(prefix_of(tokens, has_const)) == asterisks_in_all(tokens),
    decreases tokens.len(),
{
    if tokens.len() > 0 {
        let found = prefix_of(tokens.drop_last(), has_const);
        let token = tokens.last();
        lemma_pointers_of_tokens(tokens.drop_last(), has_const);
        if asterisks(token) > 0 {
            lemma_pointers_in_concat(token_qualifiers(token, has_const), found);
            lemma_pointers_in_run(
                asterisks(token),
                first_pointer(token.len(), has_const),
                later_pointer(has_const),
            );
        } else if token == "const"@ {
            assert(found.push(Qualifier::Const).drop_last() =~= found);
        }
    }
}

/// Every asterisk of a C type becomes exactly one pointer of its translation.
pub proof fn lemma_one_pointer_per_asterisk(c_type: Seq<char>)
    ensures
        pointers_in(translated(c_type).prefix) == asterisks(c_type),
{
    lemma_asterisks_of_tokens(c_type);
    lemma_pointers_of_tokens(split_on(c_type, ' '), occurs_in("const"@, c_type));
}

/// The tokens made of one and of two asterisks: what they count, how they
/// split, and the pointers they become.
proof fn lemma_star_tokens(has_const: bool)
    ensures
        asterisks(seq!['*']) == 1,
        asterisks(seq!['*', '*']) == 2,
        split_on(seq!['*'], ' ') == seq![seq!['*']],
        split_on(seq!['*', '*'], ' ') == seq![seq!['*', '*']],
        token_qualifiers(seq!['*'], has_const) == seq![later_pointer(has_const)],
        token_qualifiers(seq!['*', '*'], has_const) == seq![
            Qualifier::MutPointer,
            later_pointer(has_const),
        ],
{
    let one = seq!['*'];
    let two = seq!['*', '*'];
    assert(one.drop_last() =~= Seq::<char>::empty());
    assert(two.drop_last() =~= one);
    assert(asterisks(one.drop_last()) == 0);
    assert(asterisks(one) == 1);
    assert(asterisks(two) == 2);
    lemma_split_without_separator(one, ' ');
    lemma_split_without_separator(two, ' ');
    assert(token_qualifiers(one, has_const) =~= seq![later_pointer(has_const)]);
    assert(token_qualifiers(two, has_const) =~= seq![
        Qualifier::MutPointer,
        later_pointer(has_const),
    ]);
}

/// The text of the two prefixes that the laws below speak of.
proof fn lemma_prefix_texts()
    ensures
        prefix_text(seq![Qualifier::Pointer, Qualifier::Const]) == "*const "@,
        prefix_text(seq![Qualifier::MutPointer, Qualifier::MutPointer]) == "*mut *mut "@,
{
    reveal_strlit("*");
    reveal_strlit("const ");
    reveal_strlit("*const ");
    reveal_strlit("*mut ");
    reveal_strlit("*mut *mut ");
    let none = Seq::<Qualifier>::empty();
    assert(prefix_text(none) =~= Seq::<char>::empty());
    let a = seq![Qualifier::Pointer, Qualifier::Const];
    assert(a.drop_last() =~= seq![Qualifier::Pointer]);
    assert(seq![Qualifier::Pointer].drop_last() =~= none);
    assert(prefix_text(seq![Qualifier::Pointer]) =~= "*"@);
    assert(prefix_text(a) =~= "*const "@);
    let b = seq![Qualifier::MutPointer, Qualifier::MutPointer];
    assert(b.drop_last() =~= seq![Qualifier::MutPointer]);
    assert(seq![Qualifier::MutPointer].drop_last() =~= none);
    assert(prefix_text(seq![Qualifier::MutPointer]) =~= "*mut "@);
    assert(prefix_text(b) =~= "*mut *mut "@);
}

/// The tokens of `const T *`, and that the type mentions `const`.
proof fn lemma_const_pointer_tokens(t: Seq<char>)
    ensures
        split_on("const "@ + t + " *"@, ' ') == (seq!["const"@] + split_on(t, ' ')).push(seq!['*']),
        occurs_in("const"@, "const "@ + t + " *"@),
{
    let c_type = "const "@ + t + " *"@;
    let star = seq!['*'];
    reveal_strlit("const ");
    reveal_strlit(" *");
    lemma_const_word();
    lemma_star_tokens(true);
    assert(c_type =~= "const"@ + seq![' '] + (t + seq![' '] + star));
    lemma_split_at_separator("const"@, t + seq![' '] + star, ' ');
    lemma_split_at_separator(t, star, ' ');
    assert(split_on(c_type, ' ') =~= (seq!["const"@] + split_on(t, ' ')).push(star));
    assert(c_type.subrange(0, 5) =~= "const"@);
    assert(occurs_at("const"@, c_type, 0));
}

/// The tokens of `T **`.
proof fn lemma_double_pointer_tokens(t: Seq<char>)
    ensures
        split_on(t + " **"@, ' ') == split_on(t, ' ').push(seq!['*', '*']),
{
    let stars = seq!['*', '*'];
    reveal_strlit(" **");
    lemma_star_tokens(false);
    assert(t + " **"@ =~= t + seq![' '] + stars);
    lemma_split_at_separator(t, stars, ' ');
    assert(split_on(t + " **"@, ' ') =~= split_on(t, ' ').push(stars));
}

/// A type of the form `const T *`, where `T` is the name of a base type,
/// translates to one pointer to a constant `T`: the prefix is a bare pointer
/// and a `const`, which read `*const `, and the base type is `T` looked up in
/// the table.
pub proof fn lemma_const_pointer(t: Seq<char>)
    requires
        is_base_name(t),
    ensures
        translated("const "@ + t + " *"@) == (TranslatedTypeView {
            prefix: seq![Qualifier::Pointer, Qualifier::Const],
            base: substituted(t),
        }),
        rs_type("const "@ + t + " *"@) == "*const "@ + substituted(t),
{
    let star = seq!['*'];
    let word = seq!["const"@];
    let none = Seq::<Seq<char>>::empty();
    let inner = split_on(t, ' ');
    lemma_const_pointer_tokens(t);
    lemma_const_word();
    lemma_star_tokens(true);
    lemma_base_name_tokens(t);

    lemma_prefix_of_push(word + inner, star, true);
    lemma_base_tokens_only(word, inner, true);
    assert(word =~= none.push("const"@));
    lemma_prefix_of_push(none, "const"@, true);
    assert(prefix_of((word + inner).push(star), true) =~= seq![
        Qualifier::Pointer,
        Qualifier::Const,
    ]);

    lemma_base_tokens_push(word + inner, star);
    lemma_base_tokens_concat(word, inner);
    lemma_base_tokens_push(none, "const"@);
    lemma_base_tokens_only(none, none, true);
    assert(base_tokens((word + inner).push(star)) =~= inner);
    lemma_split_then_join(t, ' ');
    lemma_prefix_texts();
}

/// A type of the form `T **` that mentions `const` nowhere, where `T` holds
/// no asterisk, translates to two mutable pointers in front of `T` looked up
/// in the table.
pub proof fn lemma_double_pointer(t: Seq<char>)
    requires
        asterisks(t) == 0,
        !occurs_in("const"@, t + " **"@),
    ensures
        translated(t + " **"@) == (TranslatedTypeView {
            prefix: seq![Qualifier::MutPointer, Qualifier::MutPointer],
            base: substituted(t),
        }),
        rs_type(t + " **"@) == "*mut *mut "@ + substituted(t),
{
    let stars = seq!['*', '*'];
    let none = Seq::<Seq<char>>::empty();
    let inner = split_on(t, ' ');
    if occurs_in("const"@, t) {
        let at = choose|at: int| occurs_at("const"@, t, at);
        assert((t + " **"@).subrange(at, at + "const"@.len()) =~= t.subrange(
            at,
            at + "const"@.len(),
        ));
        assert(occurs_at("const"@, t + " **"@, at));
    }
    lemma_double_pointer_tokens(t);
    lemma_star_tokens(false);
    lemma_plain_is_base_name(t);
    lemma_base_name_tokens(t);

    lemma_prefix_of_push(inner, stars, false);
    lemma_base_tokens_only(none, inner, false);
    assert(none + inner =~= inner);
    assert(prefix_of(inner.push(stars), false) =~= seq![
        Qualifier::MutPointer,
        Qualifier::MutPointer,
    ]);

    lemma_base_tokens_push(inner, stars);
    lemma_split_then_join(t, ' ');
    lemma_prefix_texts();
}

} // verus!
