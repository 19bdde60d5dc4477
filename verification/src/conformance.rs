//! The interface conformance checker: every function the grammar declares
//! must be exported by the module under the same name, with exactly the
//! signature the grammar expects; the first failing declaration decides
//! the result. Exports the grammar says nothing about are permitted.

use vstd::prelude::*;

use crate::diag::func_index_err;
use crate::diag::msg_func_index;
use crate::diag::msg_type_index;
use crate::diag::type_index_err;
use crate::model::Error;
use crate::model::ErrView;
use crate::model::InterfaceGrammar;
use crate::model::ModuleType;
use crate::model::ModuleTypeView;
use crate::model::SigView;

verus! {

/// The checker's verdict on the declarations from position `i` on: the
/// first declaration whose name is not exported, whose export cannot be
/// resolved through the tables, or whose resolved signature differs,
/// decides; otherwise the remaining declarations pass.
pub open spec fn spec_check_from(
    g: Seq<(Seq<char>, SigView)>,
    m: ModuleTypeView,
    i: int,
) -> Result<(), ErrView>
    decreases g.len() - i,
{
    if i < 0 || i >= g.len() {
        Ok(())
    } else {
        let name = g[i].0;
        let want = g[i].1;
        if !m.exports.contains_key(name) {
            Err(ErrView::MissingExport(name))
        } else if m.exports[name].0 >= m.funcs.len() {
            Err(ErrView::WasmValidation(msg_func_index(), 0))
        } else {
            let f = m.funcs[m.exports[name].0 as int];
            if f.ty.0 >= m.types.len() {
                Err(ErrView::WasmValidation(msg_type_index(), 0))
            } else {
                let have = m.types[f.ty.0 as int];
                if have == want {
                    spec_check_from(g, m, i + 1)
                } else {
                    Err(ErrView::SignatureMismatch(name, want, have))
                }
            }
        }
    }
}

/// The checker's verdict on a whole grammar against a model.
pub open spec fn spec_check(g: Seq<(Seq<char>, SigView)>, m: ModuleTypeView) -> Result<
    (),
    ErrView,
> {
    spec_check_from(g, m, 0)
}

/// Reconcile the module type model against the interface grammar: for each
/// declared name in declaration order, resolve it through the export table,
/// the function table and the signature table, and compare the signature
/// structurally against the declared one.
#[verifier::loop_isolation(false)]
pub fn check_interface(interface: &InterfaceGrammar, module: &ModuleType) -> (r: Result<
    (),
    Error,
>)
    ensures
        match r {
            Ok(_) => spec_check(interface@, module@) == Ok::<(), ErrView>(()),
            Err(e) => spec_check(interface@, module@) == Err::<(), ErrView>(e@),
        },
{
    let mut i: usize = 0;
    while i < interface.entries.len()
        invariant
            i <= interface.entries.len(),
            spec_check_from(interface@, module@, 0) == spec_check_from(
                interface@,
                module@,
                i as int,
            ),
        decreases interface.entries.len() - i,
    {
        let name: &String = &interface.entries[i].0;
        let want: &crate::model::FuncSignature = &interface.entries[i].1;
        match module.lookup_export(name) {
            None => {
                return Err(Error::MissingExport(name.clone()));
            },
            Some(fi) => {
                if (fi.0 as usize) >= module.funcs.len() {
                    return Err(func_index_err());
                }
                let f: &crate::model::Func = &module.funcs[fi.0 as usize];
                if (f.ty.0 as usize) >= module.types.len() {
                    return Err(type_index_err());
                }
                let have: &crate::model::FuncSignature = &module.types[f.ty.0 as usize];
                if !(have == want) {
                    return Err(
                        Error::SignatureMismatch(name.clone(), want.clone(), have.clone()),
                    );
                }
            },
        }
        i = i + 1;
    }
    Ok(())
}

} // verus!
