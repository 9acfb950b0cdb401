//! Generates high-level widget wrapper source from a batch of low-level
//! foreign-function declarations, by inferring a widget object model from
//! naming conventions and translating each qualifying declaration into a
//! method of its widget's wrapper type.

pub mod codegen;
pub mod emit;
pub mod extract;
pub mod foreign;
pub mod model;
pub mod strutil;

pub use codegen::CodeGen;
pub use model::{LvArg, LvFunc, LvType, LvWidget};

use vstd::prelude::*;

verus! {

/// A local, recoverable signal: the construct at hand cannot be generated
/// and is omitted from the output, without aborting its siblings.
#[derive(Debug, Copy, Clone, PartialEq, Eq, Structural)]
pub enum WrapperError {
    Skip,
}

pub type WrapperResult<T> = Result<T, WrapperError>;

/// A fatal failure of the whole run: the input text does not conform to
/// declaration syntax, so no partial output is produced for it.
#[derive(Debug, Copy, Clone, PartialEq, Eq, Structural)]
pub enum CodeGenError {
    ParseFailure,
}

pub type CGResult<T> = Result<T, CodeGenError>;

/// A construct that can be turned into generated wrapper source, in the
/// context of the construct that owns it.
pub trait Rusty {
    type Parent;

    fn code(&self, parent: &Self::Parent) -> WrapperResult<String>;
}

/// The prefix that every tracked native declaration carries.
pub fn lib_prefix() -> (r: &'static str)
    ensures
        r@ == spec_lib_prefix(),
{
    proof {
        reveal_strlit("lv_");
    }
    "lv_"
}

/// The tracked library's naming prefix, as a sequence of characters.
pub open spec fn spec_lib_prefix() -> Seq<char> {
    seq!['l', 'v', '_']
}

} // verus!
