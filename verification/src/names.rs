//! What goes by the name of Anthropic's coding CLI.
//!
//! The name, `brand`, is a value that the program is given.  The command, the platform, the
//! directory of settings and the names of the models all follow from it.

use vstd::prelude::*;
use vstd::string::*;

verus! {

/// The long name of the coding CLI, with a dash.
pub open spec fn dashed(brand: Seq<char>) -> Seq<char> {
    brand + "-code"@
}

/// The long name of the coding CLI, with an underscore.
pub open spec fn underscored(brand: Seq<char>) -> Seq<char> {
    brand + "_code"@
}

/// What the names of the models start with.
pub open spec fn model_prefix(brand: Seq<char>) -> Seq<char> {
    brand + "-"@
}

/// The directory in which the coding CLI keeps its settings.
pub open spec fn settings_dir(brand: Seq<char>) -> Seq<char> {
    "."@ + brand
}

/// The coding CLIs that are supported, as messages list them.
pub open spec fn cli_names(brand: Seq<char>) -> Seq<char> {
    brand + ", codex, gemini"@
}

fn followed(brand: &str, rest: &str) -> (r: String)
    ensures
        r@ == brand@ + rest@,
{
    let mut out = brand.to_owned();
    out.append(rest);
    out
}

/// The long name of the coding CLI, with a dash.
pub fn with_dash(brand: &str) -> (r: String)
    ensures
        r@ == dashed(brand@),
{
    followed(brand, "-code")
}

/// The long name of the coding CLI, with an underscore.
pub fn with_underscore(brand: &str) -> (r: String)
    ensures
        r@ == underscored(brand@),
{
    followed(brand, "_code")
}

/// What the names of the models start with.
pub fn prefix_of_models(brand: &str) -> (r: String)
    ensures
        r@ == model_prefix(brand@),
{
    followed(brand, "-")
}

/// The directory in which the coding CLI keeps its settings.
pub fn dir_of_settings(brand: &str) -> (r: String)
    ensures
        r@ == settings_dir(brand@),
{
    followed(".", brand)
}

/// The coding CLIs that are supported, as messages list them.
pub fn list_of_clis(brand: &str) -> (r: String)
    ensures
        r@ == cli_names(brand@),
{
    followed(brand, ", codex, gemini")
}

} // verus!
