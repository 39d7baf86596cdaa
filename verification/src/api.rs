//! The description of a C interface that the generator reads: its functions,
//! its defines and the names of its structs, aliases and callbacks.
//!
//! Each type has a view that holds the same data as sequences of characters;
//! the generator's contracts are stated over these views.

use vstd::prelude::*;

verus! {

/// One parameter of a C function.
#[derive(Clone, Debug, PartialEq, Eq)]
pub struct Param {
    /// The parameter's name as the C header spells it.
    pub name: String,
    /// The parameter's C type, as text.
    pub c_type: String,
}

pub struct ParamView {
    pub name: Seq<char>,
    pub c_type: Seq<char>,
}

impl View for Param {
    type V = ParamView;

    open spec fn view(&self) -> ParamView {
        ParamView { name: self.name@, c_type: self.c_type@ }
    }
}

impl DeepView for Param {
    type V = ParamView;

    open spec fn deep_view(&self) -> ParamView {
        self@
    }
}

/// One C function.
#[derive(Clone, Debug, PartialEq, Eq)]
pub struct Function {
    /// The symbol's name as the C header spells it.
    pub name: String,
    /// What the function does, in words.
    pub description: String,
    /// The C type that the function returns, as text; `void` for none.
    pub return_type: String,
    /// The parameters in their order.  `None` stands for a function that is
    /// described without a parameter list, and renders as an empty list does.
    pub params: Option<Vec<Param>>,
}

pub struct FunctionView {
    pub name: Seq<char>,
    pub description: Seq<char>,
    pub return_type: Seq<char>,
    pub params: Option<Seq<ParamView>>,
}

/// The view of an optional parameter list.
pub open spec fn params_view(params: Option<Vec<Param>>) -> Option<Seq<ParamView>> {
    match params {
        Some(list) => Some(list.deep_view()),
        None => None,
    }
}

impl View for Function {
    type V = FunctionView;

    open spec fn view(&self) -> FunctionView {
        FunctionView {
            name: self.name@,
            description: self.description@,
            return_type: self.return_type@,
            params: params_view(self.params),
        }
    }
}

impl DeepView for Function {
    type V = FunctionView;

    open spec fn deep_view(&self) -> FunctionView {
        self@
    }
}

/// One symbolic define.
#[derive(Clone, Debug, PartialEq, Eq)]
pub struct Define {
    /// The define's name.
    pub name: String,
    /// The tag that says what sort of define it is; `COLOR` marks a colour.
    pub kind: String,
    /// The define's value, written out as text.
    pub value: String,
}

pub struct DefineView {
    pub name: Seq<char>,
    pub kind: Seq<char>,
    pub value: Seq<char>,
}

impl View for Define {
    type V = DefineView;

    open spec fn view(&self) -> DefineView {
        DefineView { name: self.name@, kind: self.kind@, value: self.value@ }
    }
}

impl DeepView for Define {
    type V = DefineView;

    open spec fn deep_view(&self) -> DefineView {
        self@
    }
}

/// The name of a struct of the C interface.
#[derive(Clone, Debug, PartialEq, Eq)]
pub struct StructRef {
    pub name: String,
}

impl View for StructRef {
    type V = Seq<char>;

    open spec fn view(&self) -> Seq<char> {
        self.name@
    }
}

impl DeepView for StructRef {
    type V = Seq<char>;

    open spec fn deep_view(&self) -> Seq<char> {
        self@
    }
}

/// The name of a type alias of the C interface.
#[derive(Clone, Debug, PartialEq, Eq)]
pub struct AliasRef {
    pub name: String,
}

impl View for AliasRef {
    type V = Seq<char>;

    open spec fn view(&self) -> Seq<char> {
        self.name@
    }
}

impl DeepView for AliasRef {
    type V = Seq<char>;

    open spec fn deep_view(&self) -> Seq<char> {
        self@
    }
}

/// The name of a callback type of the C interface.
#[derive(Clone, Debug, PartialEq, Eq)]
pub struct CallbackRef {
    pub name: String,
}

impl View for CallbackRef {
    type V = Seq<char>;

    open spec fn view(&self) -> Seq<char> {
        self.name@
    }
}

impl DeepView for CallbackRef {
    type V = Seq<char>;

    open spec fn deep_view(&self) -> Seq<char> {
        self@
    }
}

/// A whole C interface.  The order of each list is the order of the output.
#[derive(Clone, Debug, PartialEq, Eq)]
pub struct ApiDescription {
    pub defines: Vec<Define>,
    pub functions: Vec<Function>,
    pub structs: Vec<StructRef>,
    pub aliases: Vec<AliasRef>,
    pub callbacks: Vec<CallbackRef>,
}

pub struct ApiDescriptionView {
    pub defines: Seq<DefineView>,
    pub functions: Seq<FunctionView>,
    pub structs: Seq<Seq<char>>,
    pub aliases: Seq<Seq<char>>,
    pub callbacks: Seq<Seq<char>>,
}

impl View for ApiDescription {
    type V = ApiDescriptionView;

    open spec fn view(&self) -> ApiDescriptionView {
        ApiDescriptionView {
            defines: self.defines.deep_view(),
            functions: self.functions.deep_view(),
            structs: self.structs.deep_view(),
            aliases: self.aliases.deep_view(),
            callbacks: self.callbacks.deep_view(),
        }
    }
}

} // verus!
