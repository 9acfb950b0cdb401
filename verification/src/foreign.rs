//! The trusted boundary around the outside crates: the declaration-syntax
//! parser and the pascal-case conversion. Everything below is believed, not
//! proved; each item's doc comment names the outside function it relies on.

use vstd::prelude::*;

use crate::model::{LvArg, LvFunc, LvType};
use quote::ToTokens;
use syn::{FnArg, ForeignItem, Item, ReturnType};

verus! {

/// The declarations that the parser finds in a block of source text: `None`
/// when the text is malformed, otherwise every function of every foreign
/// block, in order. The outcome is a function of the input text alone.
pub uninterp spec fn parsed_decls(code: Seq<char>) -> Option<Seq<crate::model::FuncModel>>;

/// The pascal-case form of a name, a function of its characters alone.
pub uninterp spec fn pascal_of(s: Seq<char>) -> Seq<char>;

/// Whether a string is one plain (non-raw, non-keyword) identifier, a fact of
/// its characters alone.
pub uninterp spec fn accepts_ident(s: Seq<char>) -> bool;

#[verifier::external_type_specification]
#[verifier::external_body]
pub struct ExFnArg(syn::FnArg);

#[verifier::external_type_specification]
#[verifier::external_body]
pub struct ExReturnType(syn::ReturnType);

/// Part of the parse boundary below: relies on syn's token printing to spell
/// a typed parameter's name and type as token text; untyped (variadic)
/// parameters are dropped. Believed only through `parse_foreign_fns`, whose
/// contract covers the whole boundary.
#[verifier::external_body]
fn arg_model_of(a: FnArg) -> (r: Option<LvArg>)
{
    match a {
        FnArg::Typed(p) => Some(LvArg::new(
            p.pat.to_token_stream().to_string(),
            LvType::new(p.ty.to_token_stream().to_string()),
        )),
        _ => None,
    }
}

/// Part of the parse boundary below: relies on syn's token printing to spell
/// a declaration's return type, `None` for a void declaration. Believed only
/// through `parse_foreign_fns`, whose contract covers the whole boundary.
#[verifier::external_body]
fn ret_model_of(o: ReturnType) -> (r: Option<LvType>)
{
    match o {
        ReturnType::Default => None,
        ReturnType::Type(_, t) => Some(LvType::new(t.to_token_stream().to_string())),
    }
}

/// Relies on syn's `parse_str` for `syn::File`: the text is parsed as a
/// source file (`None` on malformed input), and each function declared in a
/// foreign block is taken in order, its name, typed parameters and return
/// type spelled as token text, exactly as the declaration loader needs them.
#[verifier::external_body]
pub(crate) fn parse_foreign_fns(code: &str) -> (r: Option<Vec<LvFunc>>)
    ensures
        match r {
            Some(v) => parsed_decls(code@) == Some(v@.map_values(|f: LvFunc| f@)),
            None => parsed_decls(code@) is None,
        },
{
    let ast = syn::parse_str::<syn::File>(code).ok()?;
    Some(ast.items.into_iter().filter_map(|i| match i {
        Item::ForeignMod(m) => Some(m.items),
        _ => None,
    }).flatten().filter_map(|i| match i {
        ForeignItem::Fn(f) => Some(f),
        _ => None,
    }).map(|f| LvFunc::new(
        f.sig.ident.to_string(),
        f.sig.inputs.into_iter().filter_map(arg_model_of).collect(),
        ret_model_of(f.sig.output),
    )).collect())
}

#[verifier::external_type_specification]
#[verifier::external_body]
pub struct ExSynType(syn::Type);

impl LvType {
    /// Relies on syn's token printing: the spelling held is the parsed
    /// type's token text. A convenience entry point for callers that already
    /// hold a parsed type; the verified pipeline takes the same spelling
    /// through `parse_foreign_fns`.
    #[verifier::external_body]
    pub fn from(r_type: Box<syn::Type>) -> (r: Self) {
        Self::new(r_type.to_token_stream().to_string())
    }
}

/// Relies on inflector's `to_pascal_case`: the capitalized-camel form of a
/// name, depending on the input characters alone.
#[verifier::external_body]
pub(crate) fn to_pascal(s: &str) -> (r: String)
    ensures
        r@ == pascal_of(s@),
{
    inflector::cases::pascalcase::to_pascal_case(s)
}

/// Relies on syn's `parse_str` for `syn::Ident`, which accepts exactly the
/// plain identifiers and refuses keywords, so that reserved argument names
/// can be spelled in raw form in the generated code.
#[verifier::external_body]
pub(crate) fn is_plain_ident(s: &str) -> (r: bool)
    ensures
        r == accepts_ident(s@),
{
    syn::parse_str::<syn::Ident>(s).is_ok()
}

} // verus!
