//! Constants for the colour defines of an interface.
//!
//! A colour define carries its four channels somewhere in its value, which is
//! loosely structured text.  The channels are found by dropping every
//! character that is neither a digit nor a comma and cutting what is left at
//! the commas.  Nothing tells a channel from any other number in the value:
//! a value that holds more digits than those of its channels gives other
//! channels than it means.

use vstd::prelude::*;
use crate::api::{ApiDescription, ApiDescriptionView, Define, DefineView};
use crate::signature::{banner, function_source};
use crate::text::{digits_and_commas, regex_replace_all, same_text, split, split_on};

verus! {

/// The digit groups of a value: what stands between the commas once
/// everything but digits and commas is dropped.
pub open spec fn channels(value: Seq<char>) -> Seq<Seq<char>> {
    split_on(digits_and_commas(value), ',')
}

/// Whether a define is tagged as a colour.
pub open spec fn is_color(d: DefineView) -> bool {
    d.kind == "COLOR"@
}

/// Whether a value holds the four digit groups that a colour needs.  Groups
/// behind the fourth are not looked at.
pub open spec fn has_four_channels(value: Seq<char>) -> bool {
    channels(value).len() >= 4
}

/// Whether every colour among the defines holds its four digit groups.
pub open spec fn emittable(defines: Seq<DefineView>) -> bool {
    forall|i: int| 0 <= i < defines.len() && is_color(#[trigger] defines[i]) ==> has_four_channels(
        defines[i].value,
    )
}

/// A colour constant as a value: its name and its channels as they are written.
pub struct ColorConstantView {
    pub name: Seq<char>,
    pub r: Seq<char>,
    pub g: Seq<char>,
    pub b: Seq<char>,
    pub a: Seq<char>,
}

/// The constant for a colour define: named after the define, with the first
/// four digit groups of the value as red, green, blue and alpha.
pub open spec fn constant_of(d: DefineView) -> ColorConstantView {
    let groups = channels(d.value);
    ColorConstantView { name: d.name, r: groups[0], g: groups[1], b: groups[2], a: groups[3] }
}

/// The constants for the colours among `defines`, in their order.
pub open spec fn constants_of(defines: Seq<DefineView>) -> Seq<ColorConstantView> {
    defines.filter(|d: DefineView| is_color(d)).map_values(|d: DefineView| constant_of(d))
}

/// The declaration of one colour constant.
pub open spec fn constant_text(c: ColorConstantView) -> Seq<char> {
    "pub const "@ + c.name + ":Color = Color {r:"@ + c.r + ", g:"@ + c.g + ", b:"@ + c.b + ", a:"@
        + c.a + "};"@
}

/// The declarations of the constants `cs`, one to a line.
pub open spec fn constants_text(cs: Seq<ColorConstantView>) -> Seq<char>
    decreases cs.len(),
{
    if cs.len() == 0 {
        Seq::<char>::empty()
    } else {
        constants_text(cs.drop_last()) + constant_text(cs.last()) + "\n"@
    }
}

/// The whole source file of colour constants.
pub open spec fn define_source(api: ApiDescriptionView, package: Seq<char>) -> Seq<char> {
    banner(package) + "use raylib_rs_plain_sys as rl;\n"@ + "pub use rl::Color;\n"@
        + constants_text(constants_of(api.defines))
}

/// The digit groups of a value.
pub fn color_channels(value: &str) -> (out: Vec<String>)
    ensures
        out.deep_view() == channels(value@),
{
    let kept = regex_replace_all("[^0-9,]", value, "");
    let groups = split(kept.as_str(), ',');
    let mut out: Vec<String> = Vec::new();
    let mut i: usize = 0;
    while i < groups.len()
        invariant
            i <= groups.len(),
            groups.deep_view() == channels(value@),
            out.deep_view() == groups.deep_view().take(i as int),
        decreases groups.len() - i,
    {
        let ghost before = out.deep_view();
        out.push(groups[i].to_owned());
        proof {
            assert(out.deep_view() =~= before.push(groups[i as int]@));
            assert(groups.deep_view().take(i + 1) =~= before.push(groups[i as int]@));
        }
        i += 1;
    }
    proof {
        assert(groups.deep_view().take(groups.len() as int) =~= groups.deep_view());
    }
    out
}

/// A colour constant: its name and its four channels as they are written.
#[derive(Clone, Debug, PartialEq, Eq)]
pub struct ColorConstant {
    pub name: String,
    pub r: String,
    pub g: String,
    pub b: String,
    pub a: String,
}

impl View for ColorConstant {
    type V = ColorConstantView;

    open spec fn view(&self) -> ColorConstantView {
        ColorConstantView { name: self.name@, r: self.r@, g: self.g@, b: self.b@, a: self.a@ }
    }
}

impl DeepView for ColorConstant {
    type V = ColorConstantView;

    open spec fn deep_view(&self) -> ColorConstantView {
        self@
    }
}

impl ColorConstant {
    /// Writes the declaration out.
    pub fn render(&self) -> (out: String)
        ensures
            out@ == constant_text(self@),
    {
        let mut out = "pub const ".to_owned();
        out.append(self.name.as_str());
        out.append(":Color = Color {r:");
        out.append(self.r.as_str());
        out.append(", g:");
        out.append(self.g.as_str());
        out.append(", b:");
        out.append(self.b.as_str());
        out.append(", a:");
        out.append(self.a.as_str());
        out.append("};");
        proof {
            assert(out@ =~= constant_text(self@));
        }
        out
    }
}

impl Define {
    /// Whether the define is tagged as a colour.
    pub fn is_color(&self) -> (color: bool)
        ensures
            color == is_color(self@),
    {
        same_text(self.kind.as_str(), "COLOR")
    }

    /// The constant for this define, if its value holds four digit groups.
    pub fn color_constant(&self) -> (out: Option<ColorConstant>)
        ensures
            out is Some == has_four_channels(self@.value),
            out matches Some(c) ==> c@ == constant_of(self@),
    {
        let groups = color_channels(self.value.as_str());
        if groups.len() < 4 {
            return None;
        }
        proof {
            let all = groups.deep_view();
            assert(all[0] == groups[0]@ && all[1] == groups[1]@ && all[2] == groups[2]@ && all[3]
                == groups[3]@);
        }
        Some(
            ColorConstant {
                name: self.name.clone(),
                r: groups[0].clone(),
                g: groups[1].clone(),
                b: groups[2].clone(),
                a: groups[3].clone(),
            },
        )
    }
}

/// Whether every colour among the defines holds its four digit groups, so
/// that a constant can be written for each.
pub fn is_emittable(defines: &Vec<Define>) -> (ok: bool)
    ensures
        ok == emittable(defines.deep_view()),
{
    let ghost all = defines.deep_view();
    let mut i: usize = 0;
    while i < defines.len()
        invariant
            i <= defines.len(),
            all == defines.deep_view(),
            forall|j: int| 0 <= j < i && is_color(#[trigger] all[j]) ==> has_four_channels(all[j].value),
        decreases defines.len() - i,
    {
        assert(all[i as int] == defines[i as int]@);
        if defines[i].is_color() && defines[i].color_constant().is_none() {
            return false;
        }
        i += 1;
    }
    true
}

/// The constants for the colours among `defines`, in the order of the
/// defines.  A define of another kind gives none.
pub fn color_constants(defines: &Vec<Define>) -> (out: Vec<ColorConstant>)
    requires
        emittable(defines.deep_view()),
    ensures
        out.deep_view() == constants_of(defines.deep_view()),
{
    let ghost all = defines.deep_view();
    let mut out: Vec<ColorConstant> = Vec::new();
    let mut i: usize = 0;
    while i < defines.len()
        invariant
            i <= defines.len(),
            all == defines.deep_view(),
            emittable(all),
            out.deep_view() == constants_of(all.take(i as int)),
        decreases defines.len() - i,
    {
        let ghost before = out.deep_view();
        proof {
            assert(all.take(i + 1).drop_last() =~= all.take(i as int));
            assert(all.take(i + 1).last() == defines[i as int]@);
            assert(all[i as int] == defines[i as int]@);
            reveal(Seq::filter);
        }
        if defines[i].is_color() {
            match defines[i].color_constant() {
                Some(c) => {
                    out.push(c);
                    proof {
                        assert(out.deep_view() =~= before.push(constant_of(defines[i as int]@)));
                        assert(constants_of(all.take(i + 1)) =~= before.push(
                            constant_of(defines[i as int]@),
                        ));
                    }
                },
                None => {
                    proof {
                        assert(false);
                    }
                },
            }
        }
        i += 1;
    }
    proof {
        assert(all.take(defines.len() as int) =~= all);
    }
    out
}

/// The source file of colour constants for a whole interface: a comment that
/// names `package`, two imports, and one constant to a line for every colour
/// define, in the order of the description.
pub fn generate_define(api: &ApiDescription, package: &str) -> (out: String)
    requires
        emittable(api@.defines),
    ensures
        out@ == define_source(api@, package@),
{
    let mut out = "/* automatically generated by ".to_owned();
    out.append(package);
    out.append(" */\n");
    out.append("use raylib_rs_plain_sys as rl;\n");
    out.append("pub use rl::Color;\n");
    let constants = color_constants(&api.defines);
    let ghost head = out@;
    let ghost cs = constants.deep_view();
    proof {
        assert(head =~= banner(package@) + "use raylib_rs_plain_sys as rl;\n"@
            + "pub use rl::Color;\n"@);
    }
    let mut i: usize = 0;
    while i < constants.len()
        invariant
            i <= constants.len(),
            cs == constants.deep_view(),
            out@ == head + constants_text(cs.take(i as int)),
        decreases constants.len() - i,
    {
        proof {
            assert(cs.take(i + 1).drop_last() =~= cs.take(i as int));
            assert(cs.take(i + 1).last() == constants[i as int]@);
        }
        out.append(constants[i].render().as_str());
        out.append("\n");
        proof {
            assert(out@ =~= head + constants_text(cs.take(i + 1)));
        }
        i += 1;
    }
    proof {
        assert(cs.take(constants.len() as int) =~= cs);
    }
    out
}

/// Generating again from a description that has not changed, for the same
/// package, gives the same two source files, character for character: each
/// file is a function of what the description holds and of the package's name,
/// and of nothing else.
pub proof fn lemma_generation_is_repeatable(
    first: ApiDescription,
    second: ApiDescription,
    package: Seq<char>,
)
    requires
        first@ == second@,
    ensures
        function_source(first@, package) == function_source(second@, package),
        define_source(first@, package) == define_source(second@, package),
{
}

} // verus!
