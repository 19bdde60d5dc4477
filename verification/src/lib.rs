//! A pre-flight conformance gate for compiled binary modules: after an
//! external structural validator accepts the raw bytes, a single forward
//! pass over the module's sections builds a module type model (signature
//! table, function table with import origins, export table), and that model
//! is reconciled against an interface grammar of declared function
//! signatures. The result is all-or-nothing: success, or the first precise
//! diagnostic.

pub mod conformance;
pub mod diag;
pub mod extract;
pub mod laws;
pub mod model;
pub mod trusted;

pub use model::Error;
pub use model::Func;
pub use model::FuncIndex;
pub use model::FuncSignature;
pub use model::InterfaceGrammar;
pub use model::ModuleType;
pub use model::TypeIndex;
pub use model::ValueType;

use vstd::prelude::*;

use crate::conformance::check_interface;
use crate::conformance::spec_check;
use crate::extract::extract_module;
use crate::extract::spec_extract;
use crate::model::ErrView;
use crate::model::SigView;
use crate::trusted::check_structure;
use crate::trusted::structure_error;

verus! {

/// The verdict of the whole validation on a grammar and a byte buffer: the
/// structural gate's fault if it reports one, otherwise the extractor's
/// first diagnostic, otherwise the conformance checker's verdict.
pub open spec fn spec_validate(g: Seq<(Seq<char>, SigView)>, b: Seq<u8>) -> Result<(), ErrView> {
    match structure_error(b) {
        Some((msg, off)) => Err(ErrView::WasmValidation(msg, off as int)),
        None => match spec_extract(b) {
            Err(e) => Err(e),
            Ok(m) => spec_check(g, m),
        },
    }
}

/// Validate a compiled module against an interface grammar: run the
/// external structural gate over the raw bytes, then extract the module
/// type model in one pass over the sections, then reconcile the model
/// against the grammar. Any failure anywhere aborts the whole call with
/// that failure's error; there is no partial success.
pub fn validate(interface: &InterfaceGrammar, module_contents: &[u8]) -> (r: Result<(), Error>)
    ensures
        match r {
            Ok(_) => spec_validate(interface@, module_contents@) == Ok::<(), ErrView>(()),
            Err(e) => spec_validate(interface@, module_contents@) == Err::<(), ErrView>(e@),
        },
{
    match check_structure(module_contents) {
        Some(fault) => Err(Error::WasmValidation(fault.0, fault.1)),
        None => match extract_module(module_contents) {
            Err(e) => Err(e),
            Ok(m) => check_interface(interface, &m),
        },
    }
}

} // verus!
