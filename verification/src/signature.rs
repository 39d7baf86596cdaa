//! The Rust function that forwards to one C function: its name, its
//! parameter list, its return type and its body; and the source file that
//! holds one such function for every function of an interface.

use vstd::prelude::*;
use crate::api::{ApiDescription, ApiDescriptionView, Function, FunctionView, Param, ParamView, params_view};
use crate::ctype::{c_to_rs_return_type, c_to_rs_type, rs_return_type, rs_type};
use crate::naming::{function_ident, function_name, param_ident, parameter_name};
use crate::text::{join, joined, same_text};

verus! {

/// The marker of a C variable-length parameter list: a parameter named `args`
/// of type `...`.  Rust cannot forward it.
pub open spec fn is_variadic(p: ParamView) -> bool {
    p.name == "args"@ && p.c_type == "..."@
}

/// The parameters that the generated function has: all but the variadic
/// marker, in their order.
pub open spec fn retained(params: Seq<ParamView>) -> Seq<ParamView> {
    params.filter(|p: ParamView| !is_variadic(p))
}

/// One parameter in the generated signature: its name, a colon, its type.
pub open spec fn param_decl(p: ParamView) -> Seq<char> {
    param_ident(p.name) + ":"@ + rs_type(p.c_type)
}

/// The parameters of the generated signature.
pub open spec fn param_decls(params: Seq<ParamView>) -> Seq<Seq<char>> {
    retained(params).map_values(|p: ParamView| param_decl(p))
}

/// The arguments that the generated body hands to the C function.
pub open spec fn forwarded(params: Seq<ParamView>) -> Seq<Seq<char>> {
    retained(params).map_values(|p: ParamView| param_ident(p.name))
}

/// The parameter list of the generated signature, as text.
pub open spec fn arg_list(params: Option<Seq<ParamView>>) -> Seq<char> {
    match params {
        Some(list) => joined(param_decls(list), ", "@),
        None => Seq::<char>::empty(),
    }
}

/// The argument list of the forwarding call, as text.
pub open spec fn call_args(params: Option<Seq<ParamView>>) -> Seq<char> {
    match params {
        Some(list) => joined(forwarded(list), ", "@),
        None => Seq::<char>::empty(),
    }
}

/// The forwarding call: the C function under its own name, in an unsafe block.
pub open spec fn call_text(f: FunctionView) -> Seq<char> {
    "unsafe { rl::"@ + f.name + "("@ + call_args(f.params) + ") };"@
}

/// The body of the generated function, given the text of its return type:
/// the forwarding call, returned where there is a return type.
pub open spec fn function_body(f: FunctionView, return_type: Seq<char>) -> Seq<char> {
    if return_type.len() > 0 {
        "return "@ + call_text(f)
    } else {
        call_text(f)
    }
}

/// The doc comment of the generated function: the description, word for word.
pub open spec fn doc_comment(f: FunctionView) -> Seq<char> {
    "/** "@ + f.description + " */\n"@
}

/// The parts of one generated function.
pub struct GeneratedSignatureView {
    pub comment: Seq<char>,
    pub name: Seq<char>,
    pub params: Seq<char>,
    pub return_type: Seq<char>,
    pub body: Seq<char>,
}

/// The generated function for `f`.
pub open spec fn signature_of(f: FunctionView) -> GeneratedSignatureView {
    GeneratedSignatureView {
        comment: doc_comment(f),
        name: function_ident(f.name),
        params: arg_list(f.params),
        return_type: rs_return_type(f.return_type),
        body: function_body(f, rs_return_type(f.return_type)),
    }
}

/// The source text of one generated function, with the empty line behind it.
pub open spec fn item_text(g: GeneratedSignatureView) -> Seq<char> {
    g.comment + "pub fn "@ + g.name + "("@ + g.params + ")"@ + g.return_type + " { "@ + g.body
        + " }\n"@ + "\n"@
}

/// The source text of the functions `fs`, in their order.
pub open spec fn items_text(fs: Seq<FunctionView>) -> Seq<char>
    decreases fs.len(),
{
    if fs.len() == 0 {
        Seq::<char>::empty()
    } else {
        items_text(fs.drop_last()) + item_text(signature_of(fs.last()))
    }
}

/// The line that re-exports one type of the C interface.
pub open spec fn use_line(name: Seq<char>) -> Seq<char> {
    "pub use rl::"@ + name + ";"@
}

/// The imports that every generated file starts with.
pub open spec fn fixed_imports() -> Seq<Seq<char>> {
    seq![
        "use raylib_rs_plain_sys as rl;"@,
        "use ::std::os::raw::c_int;"@,
        "use ::std::os::raw::c_uint;"@,
        "use ::std::os::raw::c_long;"@,
        "use ::std::os::raw::c_void;"@,
        "use ::std::os::raw::c_uchar;"@,
        "use ::std::os::raw::c_char;"@,
        "\n"@,
    ]
}

/// The header lines of the generated file: the fixed imports, a re-export for
/// every struct, alias and callback in that order, and a closing line break.
pub open spec fn header_lines(api: ApiDescriptionView) -> Seq<Seq<char>> {
    fixed_imports() + api.structs.map_values(|name: Seq<char>| use_line(name))
        + api.aliases.map_values(|name: Seq<char>| use_line(name)) + api.callbacks.map_values(
        |name: Seq<char>| use_line(name),
    ) + seq!["\n"@]
}

/// The comment that opens a generated file and names the package that made it.
pub open spec fn banner(package: Seq<char>) -> Seq<char> {
    "/* automatically generated by "@ + package + " */\n"@
}

/// The whole source file of forwarding functions.
pub open spec fn function_source(api: ApiDescriptionView, package: Seq<char>) -> Seq<char> {
    banner(package)
        + "#![allow(clippy::not_unsafe_ptr_arg_deref, clippy::too_many_arguments)]\n"@ + joined(
        header_lines(api),
        "\n"@,
    ) + items_text(api.functions)
}

/// Tells whether a parameter is the variadic marker.
pub fn is_variadic_param(p: &Param) -> (variadic: bool)
    ensures
        variadic == is_variadic(p@),
{
    same_text(p.name.as_str(), "args") && same_text(p.c_type.as_str(), "...")
}

/// The parameter list of the generated signature: every parameter but the
/// variadic marker, as `name:type`, with `, ` between neighbours.
pub fn generate_arg(params: &Option<Vec<Param>>) -> (out: String)
    ensures
        out@ == arg_list(params_view(*params)),
{
    match params {
        None => String::new(),
        Some(list) => {
            let ghost all = list.deep_view();
            let mut decls: Vec<String> = Vec::new();
            let mut i: usize = 0;
            while i < list.len()
                invariant
                    i <= list.len(),
                    all == list.deep_view(),
                    decls.deep_view() == param_decls(all.take(i as int)),
                decreases list.len() - i,
            {
                let p = &list[i];
                let ghost before = decls.deep_view();
                proof {
                    assert(all.take(i + 1).drop_last() =~= all.take(i as int));
                    assert(all.take(i + 1).last() == p@);
                    reveal(Seq::filter);
                }
                if !is_variadic_param(p) {
                    let mut decl = parameter_name(p.name.as_str());
                    decl.append(":");
                    decl.append(c_to_rs_type(p.c_type.as_str()).as_str());
                    decls.push(decl);
                    proof {
                        assert(decls.deep_view() =~= before.push(param_decl(p@)));
                        assert(param_decls(all.take(i + 1)) =~= before.push(param_decl(p@)));
                    }
                }
                i += 1;
            }
            proof {
                assert(all.take(list.len() as int) =~= all);
            }
            join(&decls, ", ")
        },
    }
}

/// The argument list of the forwarding call: the name of every parameter but
/// the variadic marker, with `, ` between neighbours.
pub fn generate_call_args(params: &Option<Vec<Param>>) -> (out: String)
    ensures
        out@ == call_args(params_view(*params)),
{
    match params {
        None => String::new(),
        Some(list) => {
            let ghost all = list.deep_view();
            let mut names: Vec<String> = Vec::new();
            let mut i: usize = 0;
            while i < list.len()
                invariant
                    i <= list.len(),
                    all == list.deep_view(),
                    names.deep_view() == forwarded(all.take(i as int)),
                decreases list.len() - i,
            {
                let p = &list[i];
                let ghost before = names.deep_view();
                proof {
                    assert(all.take(i + 1).drop_last() =~= all.take(i as int));
                    assert(all.take(i + 1).last() == p@);
                    reveal(Seq::filter);
                }
                if !is_variadic_param(p) {
                    names.push(parameter_name(p.name.as_str()));
                    proof {
                        assert(names.deep_view() =~= before.push(param_ident(p@.name)));
                        assert(forwarded(all.take(i + 1)) =~= before.push(param_ident(p@.name)));
                    }
                }
                i += 1;
            }
            proof {
                assert(all.take(list.len() as int) =~= all);
            }
            join(&names, ", ")
        },
    }
}

/// The body of the generated function, given the text of its return type:
/// a call of the C function under its own name with the retained parameters
/// in their order, in an unsafe block, and returned where `return_type` is
/// not empty.
pub fn generate_function_body(function: &Function, return_type: &str) -> (out: String)
    ensures
        out@ == function_body(function@, return_type@),
{
    let mut out = String::new();
    if !return_type.is_empty() {
        out.append("return ");
    }
    out.append("unsafe { rl::");
    out.append(function.name.as_str());
    out.append("(");
    out.append(generate_call_args(&function.params).as_str());
    out.append(") };");
    proof {
        assert(out@ =~= function_body(function@, return_type@));
    }
    out
}

/// The parts of one generated function.
#[derive(Clone, Debug, PartialEq, Eq)]
pub struct GeneratedSignature {
    /// The doc comment, with its line break.
    pub comment: String,
    /// The function's name in snake case.
    pub name: String,
    /// The parameter list, without its brackets.
    pub params: String,
    /// What follows the parameter list: empty, or an arrow and a type.
    pub return_type: String,
    /// The body, without its braces.
    pub body: String,
}

impl View for GeneratedSignature {
    type V = GeneratedSignatureView;

    open spec fn view(&self) -> GeneratedSignatureView {
        GeneratedSignatureView {
            comment: self.comment@,
            name: self.name@,
            params: self.params@,
            return_type: self.return_type@,
            body: self.body@,
        }
    }
}

impl GeneratedSignature {
    /// Writes the function out: the comment, the signature, the body in
    /// braces, and an empty line.
    pub fn render(&self) -> (out: String)
        ensures
            out@ == item_text(self@),
    {
        let mut out = self.comment.clone();
        out.append("pub fn ");
        out.append(self.name.as_str());
        out.append("(");
        out.append(self.params.as_str());
        out.append(")");
        out.append(self.return_type.as_str());
        out.append(" { ");
        out.append(self.body.as_str());
        out.append(" }\n");
        out.append("\n");
        proof {
            assert(out@ =~= item_text(self@));
        }
        out
    }
}

/// The generated function for one C function: the description as a doc
/// comment, the name in snake case, the retained parameters with their
/// translated types, the translated return type, and the forwarding body.
pub fn generate_signature(function: &Function) -> (out: GeneratedSignature)
    ensures
        out@ == signature_of(function@),
{
    let mut comment = "/** ".to_owned();
    comment.append(function.description.as_str());
    comment.append(" */\n");
    let return_type = c_to_rs_return_type(function.return_type.as_str());
    let body = generate_function_body(function, return_type.as_str());
    proof {
        assert(comment@ =~= doc_comment(function@));
    }
    GeneratedSignature {
        comment,
        name: function_name(function.name.as_str()),
        params: generate_arg(&function.params),
        return_type,
        body,
    }
}

/// The line that re-exports one type of the C interface.
fn generate_use_line(name: &str) -> (out: String)
    ensures
        out@ == use_line(name@),
{
    let mut out = "pub use rl::".to_owned();
    out.append(name);
    out.append(";");
    out
}

/// The header lines of the generated file: the fixed imports, a re-export for
/// every struct, every alias and every callback, and a closing line break.
pub fn generate_header(api: &ApiDescription) -> (out: Vec<String>)
    ensures
        out.deep_view() == header_lines(api@),
{
    let mut out: Vec<String> = vec![
        "use raylib_rs_plain_sys as rl;".to_owned(),
        "use ::std::os::raw::c_int;".to_owned(),
        "use ::std::os::raw::c_uint;".to_owned(),
        "use ::std::os::raw::c_long;".to_owned(),
        "use ::std::os::raw::c_void;".to_owned(),
        "use ::std::os::raw::c_uchar;".to_owned(),
        "use ::std::os::raw::c_char;".to_owned(),
        "\n".to_owned(),
    ];
    let ghost structs = api@.structs.map_values(|name: Seq<char>| use_line(name));
    let ghost aliases = api@.aliases.map_values(|name: Seq<char>| use_line(name));
    let ghost callbacks = api@.callbacks.map_values(|name: Seq<char>| use_line(name));
    proof {
        assert(out.deep_view() =~= fixed_imports());
    }
    let mut i: usize = 0;
    while i < api.structs.len()
        invariant
            i <= api.structs.len(),
            structs == api@.structs.map_values(|name: Seq<char>| use_line(name)),
            out.deep_view() == fixed_imports() + structs.take(i as int),
        decreases api.structs.len() - i,
    {
        let ghost before = out.deep_view();
        out.push(generate_use_line(api.structs[i].name.as_str()));
        proof {
            assert(out.deep_view() =~= before.push(use_line(api.structs[i as int]@)));
            assert(structs.take(i + 1) =~= structs.take(i as int).push(structs[i as int]));
            assert(out.deep_view() =~= fixed_imports() + structs.take(i + 1));
        }
        i += 1;
    }
    proof {
        assert(structs.take(api.structs.len() as int) =~= structs);
    }
    let mut i: usize = 0;
    while i < api.aliases.len()
        invariant
            i <= api.aliases.len(),
            aliases == api@.aliases.map_values(|name: Seq<char>| use_line(name)),
            out.deep_view() == fixed_imports() + structs + aliases.take(i as int),
        decreases api.aliases.len() - i,
    {
        let ghost before = out.deep_view();
        out.push(generate_use_line(api.aliases[i].name.as_str()));
        proof {
            assert(out.deep_view() =~= before.push(use_line(api.aliases[i as int]@)));
            assert(aliases.take(i + 1) =~= aliases.take(i as int).push(aliases[i as int]));
            assert(out.deep_view() =~= fixed_imports() + structs + aliases.take(i + 1));
        }
        i += 1;
    }
    proof {
        assert(aliases.take(api.aliases.len() as int) =~= aliases);
    }
    let mut i: usize = 0;
    while i < api.callbacks.len()
        invariant
            i <= api.callbacks.len(),
            callbacks == api@.callbacks.map_values(|name: Seq<char>| use_line(name)),
            out.deep_view() == fixed_imports() + structs + aliases + callbacks.take(i as int),
        decreases api.callbacks.len() - i,
    {
        let ghost before = out.deep_view();
        out.push(generate_use_line(api.callbacks[i].name.as_str()));
        proof {
            assert(out.deep_view() =~= before.push(use_line(api.callbacks[i as int]@)));
            assert(callbacks.take(i + 1) =~= callbacks.take(i as int).push(callbacks[i as int]));
            assert(out.deep_view() =~= fixed_imports() + structs + aliases + callbacks.take(i + 1));
        }
        i += 1;
    }
    let ghost before = out.deep_view();
    out.push("\n".to_owned());
    proof {
        assert(callbacks.take(api.callbacks.len() as int) =~= callbacks);
        assert(out.deep_view() =~= before.push("\n"@));
        assert(out.deep_view() =~= header_lines(api@));
    }
    out
}

/// The source file of forwarding functions for a whole interface: a comment
/// that names `package`, a lint attribute, the header lines with line breaks
/// between them, and one function for every function of the interface, in the
/// order of the description.
pub fn generate_function(api: &ApiDescription, package: &str) -> (out: String)
    ensures
        out@ == function_source(api@, package@),
{
    let mut out = "/* automatically generated by ".to_owned();
    out.append(package);
    out.append(" */\n");
    out.append("#![allow(clippy::not_unsafe_ptr_arg_deref, clippy::too_many_arguments)]\n");
    out.append(join(&generate_header(api), "\n").as_str());
    let ghost head = out@;
    let ghost fs = api@.functions;
    proof {
        assert(head =~= banner(package@)
            + "#![allow(clippy::not_unsafe_ptr_arg_deref, clippy::too_many_arguments)]\n"@ + joined(
            header_lines(api@),
            "\n"@,
        ));
    }
    let mut i: usize = 0;
    while i < api.functions.len()
        invariant
            i <= api.functions.len(),
            fs == api.functions.deep_view(),
            out@ == head + items_text(fs.take(i as int)),
        decreases api.functions.len() - i,
    {
        proof {
            assert(fs.take(i + 1).drop_last() =~= fs.take(i as int));
            assert(fs.take(i + 1).last() == api.functions[i as int]@);
        }
        out.append(generate_signature(&api.functions[i]).render().as_str());
        proof {
            assert(out@ =~= head + items_text(fs.take(i + 1)));
        }
        i += 1;
    }
    proof {
        assert(fs.take(api.functions.len() as int) =~= fs);
    }
    out
}

/// The variadic marker at the end of a parameter list leaves no trace: the
/// generated signature and the forwarding call are those of the list without
/// it.
pub proof fn lemma_trailing_variadic_is_dropped(params: Seq<ParamView>, marker: ParamView)
    requires
        is_variadic(marker),
    ensures
        param_decls(params.push(marker)) == param_decls(params),
        forwarded(params.push(marker)) == forwarded(params),
        arg_list(Some(params.push(marker))) == arg_list(Some(params)),
        call_args(Some(params.push(marker))) == call_args(Some(params)),
{
    reveal(Seq::filter);
    assert(params.push(marker).drop_last() =~= params);
}

/// The generated signature and the forwarding call agree: the call hands over
/// as many arguments as the signature has parameters, none of them is the
/// variadic marker, and each argument is the name that the signature gives to
/// the parameter in the same place.
pub proof fn lemma_signature_and_call_agree(params: Seq<ParamView>)
    ensures
        param_decls(params).len() == forwarded(params).len(),
        forall|i: int|
            0 <= i < retained(params).len() ==> !is_variadic(#[trigger] retained(params)[i]),
        forall|i: int|
            0 <= i < forwarded(params).len() ==> #[trigger] param_decls(params)[i] == forwarded(
                params,
            )[i] + ":"@ + rs_type(retained(params)[i].c_type),
{
    let keep = |p: ParamView| !is_variadic(p);
    assert forall|i: int| 0 <= i < retained(params).len() implies !is_variadic(
        #[trigger] retained(params)[i],
    ) by {
        params.lemma_filter_pred(keep, i);
    }
}

/// A function that returns `void` gets no return type and a body that is the
/// forwarding call alone; any other function gets an arrow with the
/// translated type and a body that returns the call.
pub proof fn lemma_return_type_and_body(f: FunctionView)
    ensures
        f.return_type == "void"@ ==> signature_of(f).return_type == Seq::<char>::empty()
            && signature_of(f).body == call_text(f),
        f.return_type != "void"@ ==> signature_of(f).return_type == " -> "@ + rs_type(
            f.return_type,
        ) && signature_of(f).body == "return "@ + call_text(f),
{
    reveal_strlit(" -> ");
}

} // verus!
