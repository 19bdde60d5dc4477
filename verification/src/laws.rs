//! Laws of the validator, stated and proved over the spec-level grammar
//! and model: the structural gate's precedence, the order of function
//! index assignment, the rejection of non-function imports wherever they
//! stand, the overwrite semantics of the export table, the inertness of
//! non-function exports, and the structurality of signature equality.

use vstd::prelude::*;

use crate::extract::header_ok;
use crate::extract::spec_export_entries;
use crate::extract::spec_extract;
use crate::extract::spec_function_entries;
use crate::extract::spec_import_entries;
use crate::extract::spec_leb_u32;
use crate::extract::spec_name;
use crate::extract::spec_section_content;
use crate::extract::spec_sections;
use crate::extract::spec_type_entries;
use crate::model::ErrView;
use crate::model::FuncIndex;
use crate::model::FuncView;
use crate::model::ModuleTypeView;
use crate::model::SigView;
use crate::model::TypeIndex;
use crate::model::empty_model;
use crate::trusted::structure_error;

verus! {

/// Law: structural gate precedence. Whenever the external structural
/// validator faults on a byte buffer, the whole validation's verdict is
/// that fault, wrapped, whatever the grammar declares: no extraction and
/// no conformance checking contribute to the result.
pub proof fn lemma_structural_gate_precedence(g: Seq<(Seq<char>, SigView)>, b: Seq<u8>)
    requires
        structure_error(b) is Some,
    ensures
        crate::spec_validate(g, b) == Err::<(), ErrView>(
            ErrView::WasmValidation(
                structure_error(b)->Some_0.0,
                structure_error(b)->Some_0.1 as int,
            ),
        ),
{
}

/// Law: signature equality is structural. Two signature views are equal
/// exactly when their parameter sequences and their return sequences agree
/// element-wise, however the signatures were constructed.
pub proof fn lemma_signature_equality_structural(a: SigView, b: SigView)
    ensures
        (a == b) <==> (a.params =~= b.params && a.returns =~= b.returns),
{
    if a.params =~= b.params && a.returns =~= b.returns {
        assert(a.params == b.params);
        assert(a.returns == b.returns);
        assert(a == (SigView { params: a.params, returns: a.returns }));
        assert(b == (SigView { params: a.params, returns: a.returns }));
    }
}

/// Law: export overwrite. Binding a name and then binding it again leaves
/// the export table exactly as if only the later binding had happened: the
/// table holds the later function index.
pub proof fn lemma_export_overwrite(
    exports: Map<Seq<char>, FuncIndex>,
    name: Seq<char>,
    first: FuncIndex,
    second: FuncIndex,
)
    ensures
        exports.insert(name, first).insert(name, second) == exports.insert(name, second),
        exports.insert(name, first).insert(name, second)[name] == second,
{
    assert(exports.insert(name, first).insert(name, second) =~= exports.insert(name, second));
}

/// In the function table, the imported entries stand before all locally
/// defined ones: wherever an entry has an origin, so does every earlier
/// entry.
pub open spec fn imports_first(funcs: Seq<FuncView>) -> bool {
    forall|i: int, j: int|
        0 <= i < j < funcs.len() && funcs[j].import is Some ==> funcs[i].import is Some
}

/// Whether some entry of the table is locally defined.
pub open spec fn has_local(funcs: Seq<FuncView>) -> bool {
    exists|i: int| 0 <= i < funcs.len() && funcs[i].import is None
}

/// The section layout hypothesis of the container format: walking the
/// frames from `pos`, no import section stands after a function section
/// (and none at all once `seen_local` holds). Frames that do not parse are
/// covered by the walk's own error handling and impose nothing here.
pub open spec fn import_sections_first(b: Seq<u8>, pos: int, seen_local: bool) -> bool
    decreases b.len() - pos,
{
    if pos >= b.len() {
        true
    } else {
        let id = b[pos];
        match spec_leb_u32(b, pos + 1, b.len() as int) {
            None => true,
            Some((size, c)) => {
                let start = pos + 1 + c;
                let end = start + (size as int);
                if end > b.len() {
                    true
                } else {
                    (id == 2 ==> !seen_local) && import_sections_first(b, end, seen_local || id
                        == 3)
                }
            },
        }
    }
}

/// The type section touches neither the function table nor the exports.
proof fn lemma_type_entries_frame(b: Seq<u8>, pos: int, end: int, n: nat, m: ModuleTypeView)
    ensures
        spec_type_entries(b, pos, end, n, m) matches Ok(res) ==> res.0.funcs == m.funcs
            && res.0.exports == m.exports,
    decreases n,
{
    if n == 0 {
    } else if pos >= end {
    } else if b[pos] != 0x60 {
    } else {
        match spec_leb_u32(b, pos + 1, end) {
            None => {},
            Some((np, c1)) => {
                match crate::extract::spec_valtypes(b, pos + 1 + c1, end, np as nat, Seq::empty()) {
                    Err(_) => {},
                    Ok((params, p2)) => {
                        match spec_leb_u32(b, p2, end) {
                            None => {},
                            Some((nr, c2)) => {
                                match crate::extract::spec_valtypes(
                                    b,
                                    p2 + c2,
                                    end,
                                    nr as nat,
                                    Seq::empty(),
                                ) {
                                    Err(_) => {},
                                    Ok((rets, p3)) => {
                                        lemma_type_entries_frame(
                                            b,
                                            p3,
                                            end,
                                            (n - 1) as nat,
                                            ModuleTypeView {
                                                types: m.types.push(
                                                    SigView { params, returns: rets },
                                                ),
                                                funcs: m.funcs,
                                                exports: m.exports,
                                            },
                                        );
                                    },
                                }
                            },
                        }
                    },
                }
            },
        }
    }
}

/// The export section never touches the function table or the signature
/// table.
proof fn lemma_export_entries_frame(b: Seq<u8>, pos: int, end: int, n: nat, m: ModuleTypeView)
    ensures
        spec_export_entries(b, pos, end, n, m) matches Ok(res) ==> res.0.funcs == m.funcs
            && res.0.types == m.types,
    decreases n,
{
    if n == 0 {
    } else {
        match spec_name(b, pos, end) {
            Err(_) => {},
            Ok((name, p1)) => {
                if p1 < end && b[p1] <= 3 {
                    match spec_leb_u32(b, p1 + 1, end) {
                        None => {},
                        Some((idx, c)) => {
                            let m2 = if b[p1] == 0 {
                                ModuleTypeView {
                                    types: m.types,
                                    funcs: m.funcs,
                                    exports: m.exports.insert(name, FuncIndex(idx)),
                                }
                            } else {
                                m
                            };
                            lemma_export_entries_frame(b, p1 + 1 + c, end, (n - 1) as nat, m2);
                        },
                    }
                }
            },
        }
    }
}

/// Import entries only append to the function table, in entry order, and
/// everything they append carries an origin.
pub proof fn lemma_import_entries_extend(b: Seq<u8>, pos: int, end: int, n: nat, m: ModuleTypeView)
    ensures
        spec_import_entries(b, pos, end, n, m) matches Ok(res) ==> res.0.types == m.types
            && res.0.exports == m.exports && res.0.funcs.len() >= m.funcs.len()
            && res.0.funcs.subrange(0, m.funcs.len() as int) == m.funcs && (forall|k: int|
            m.funcs.len() <= k < res.0.funcs.len() ==> res.0.funcs[k].import is Some),
    decreases n,
{
    if n == 0 {
        match spec_import_entries(b, pos, end, n, m) {
            Err(_) => {},
            Ok(res) => {
                assert(res.0.funcs.subrange(0, m.funcs.len() as int) =~= m.funcs);
            },
        }
    } else {
        match spec_name(b, pos, end) {
            Err(_) => {},
            Ok((ns, p1)) => {
                match spec_name(b, p1, end) {
                    Err(_) => {},
                    Ok((field, p2)) => {
                        if p2 < end && b[p2] == 0 {
                            match spec_leb_u32(b, p2 + 1, end) {
                                None => {},
                                Some((ti, c)) => {
                                    let entry = FuncView {
                                        ty: TypeIndex(ti),
                                        import: Some((ns, field)),
                                    };
                                    let m2 = ModuleTypeView {
                                        types: m.types,
                                        funcs: m.funcs.push(entry),
                                        exports: m.exports,
                                    };
                                    lemma_import_entries_extend(
                                        b,
                                        p2 + 1 + c,
                                        end,
                                        (n - 1) as nat,
                                        m2,
                                    );
                                    match spec_import_entries(b, pos, end, n, m) {
                                        Err(_) => {},
                                        Ok(res) => {
                                            let pre = res.0.funcs.subrange(
                                                0,
                                                m2.funcs.len() as int,
                                            );
                                            assert(pre == m2.funcs);
                                            assert(res.0.funcs.subrange(
                                                0,
                                                m.funcs.len() as int,
                                            ) =~= m.funcs);
                                            assert forall|k: int|
                                                m.funcs.len() <= k < res.0.funcs.len()
                                                    implies res.0.funcs[k].import is Some by {
                                                if k == m.funcs.len() {
                                                    assert(res.0.funcs[k] == pre[k]);
                                                    assert(pre[k] == m2.funcs[k]);
                                                    assert(m2.funcs[k] == entry);
                                                }
                                            }
                                        },
                                    }
                                },
                            }
                        }
                    },
                }
            },
        }
    }
}

/// Function-section entries only append to the function table, in entry
/// order, and everything they append is origin-free.
pub proof fn lemma_function_entries_extend(b: Seq<u8>, pos: int, end: int, n: nat, m: ModuleTypeView)
    ensures
        spec_function_entries(b, pos, end, n, m) matches Ok(res) ==> res.0.types == m.types
            && res.0.exports == m.exports && res.0.funcs.len() >= m.funcs.len()
            && res.0.funcs.subrange(0, m.funcs.len() as int) == m.funcs && (forall|k: int|
            m.funcs.len() <= k < res.0.funcs.len() ==> res.0.funcs[k].import is None),
    decreases n,
{
    if n == 0 {
        match spec_function_entries(b, pos, end, n, m) {
            Err(_) => {},
            Ok(res) => {
                assert(res.0.funcs.subrange(0, m.funcs.len() as int) =~= m.funcs);
            },
        }
    } else {
        match spec_leb_u32(b, pos, end) {
            None => {},
            Some((ti, c)) => {
                let entry = FuncView { ty: TypeIndex(ti), import: None };
                let m2 = ModuleTypeView {
                    types: m.types,
                    funcs: m.funcs.push(entry),
                    exports: m.exports,
                };
                lemma_function_entries_extend(b, pos + c, end, (n - 1) as nat, m2);
                match spec_function_entries(b, pos, end, n, m) {
                    Err(_) => {},
                    Ok(res) => {
                        let pre = res.0.funcs.subrange(0, m2.funcs.len() as int);
                        assert(pre == m2.funcs);
                        assert(res.0.funcs.subrange(0, m.funcs.len() as int) =~= m.funcs);
                        assert forall|k: int|
                            m.funcs.len() <= k < res.0.funcs.len()
                                implies res.0.funcs[k].import is None by {
                            if k == m.funcs.len() {
                                assert(res.0.funcs[k] == pre[k]);
                                assert(pre[k] == m2.funcs[k]);
                                assert(m2.funcs[k] == entry);
                            }
                        }
                    },
                }
            },
        }
    }
}

/// One section's contribution keeps the function table partitioned: a type
/// or export section leaves it alone; an import section, reached only
/// while no local function has been recorded, appends origins; a function
/// section appends origin-free entries at the end.
proof fn lemma_section_content_partition(
    b: Seq<u8>,
    id: u8,
    start: int,
    end: int,
    m: ModuleTypeView,
    seen_local: bool,
)
    requires
        imports_first(m.funcs),
        has_local(m.funcs) ==> seen_local,
        id == 2 ==> !seen_local,
    ensures
        spec_section_content(b, id, start, end, m) matches Ok(m2) ==> imports_first(m2.funcs)
            && (has_local(m2.funcs) ==> (seen_local || id == 3)),
{
    if id == 1 || id == 2 || id == 3 || id == 7 {
        match spec_leb_u32(b, start, end) {
            None => {},
            Some((n, c)) => {
                if id == 1 {
                    lemma_type_entries_frame(b, start + c, end, n as nat, m);
                } else if id == 2 {
                    lemma_import_entries_extend(b, start + c, end, n as nat, m);
                    match spec_section_content(b, id, start, end, m) {
                        Err(_) => {},
                        Ok(m2) => {
                            assert forall|i: int, j: int|
                                0 <= i < j < m2.funcs.len() && m2.funcs[j].import is Some
                                    implies m2.funcs[i].import is Some by {
                                if i < m.funcs.len() {
                                    if m.funcs[i].import is None {
                                        assert(has_local(m.funcs));
                                    }
                                    assert(m2.funcs[i] == m.funcs.subrange(
                                        0,
                                        m.funcs.len() as int,
                                    )[i]);
                                }
                            }
                            assert(!has_local(m2.funcs)) by {
                                if exists|i: int|
                                    0 <= i < m2.funcs.len() && m2.funcs[i].import is None {
                                    let i = choose|i: int|
                                        0 <= i < m2.funcs.len() && m2.funcs[i].import is None;
                                    if i < m.funcs.len() {
                                        assert(m2.funcs[i] == m.funcs.subrange(
                                            0,
                                            m.funcs.len() as int,
                                        )[i]);
                                        assert(has_local(m.funcs));
                                    }
                                }
                            }
                        },
                    }
                } else if id == 3 {
                    lemma_function_entries_extend(b, start + c, end, n as nat, m);
                    match spec_section_content(b, id, start, end, m) {
                        Err(_) => {},
                        Ok(m2) => {
                            assert forall|i: int, j: int|
                                0 <= i < j < m2.funcs.len() && m2.funcs[j].import is Some
                                    implies m2.funcs[i].import is Some by {
                                assert(j < m.funcs.len());
                                assert(m2.funcs[j] == m.funcs.subrange(
                                    0,
                                    m.funcs.len() as int,
                                )[j]);
                                assert(m2.funcs[i] == m.funcs.subrange(
                                    0,
                                    m.funcs.len() as int,
                                )[i]);
                            }
                        },
                    }
                } else {
                    lemma_export_entries_frame(b, start + c, end, n as nat, m);
                }
            },
        }
    }
}

/// The walk from `pos` keeps the function table partitioned, provided no
/// import section stands after a function section in what remains.
proof fn lemma_walk_imports_first(b: Seq<u8>, pos: int, m: ModuleTypeView, seen_local: bool)
    requires
        imports_first(m.funcs),
        has_local(m.funcs) ==> seen_local,
        import_sections_first(b, pos, seen_local),
    ensures
        spec_sections(b, pos, m) matches Ok(m2) ==> imports_first(m2.funcs),
    decreases b.len() - pos,
{
    if pos >= b.len() {
    } else {
        let id = b[pos];
        match spec_leb_u32(b, pos + 1, b.len() as int) {
            None => {},
            Some((size, c)) => {
                let start = pos + 1 + c;
                let end = start + (size as int);
                if end <= b.len() {
                    match spec_section_content(b, id, start, end, m) {
                        Err(_) => {},
                        Ok(m2) => {
                            lemma_section_content_partition(b, id, start, end, m, seen_local);
                            lemma_walk_imports_first(b, end, m2, seen_local || id == 3);
                        },
                    }
                }
            },
        }
    }
}

/// Law: index assignment order. For a module whose import sections all
/// stand before its function sections — the layout the container format
/// fixes for well-formed modules — extraction assigns the low function
/// indices to the imported functions, in import order, and the following
/// indices to the locally defined ones, in declaration order: in the
/// extracted table every entry with an origin precedes every entry
/// without one.
pub proof fn lemma_index_assignment_order(b: Seq<u8>)
    requires
        import_sections_first(b, 8, false),
    ensures
        spec_extract(b) matches Ok(m) ==> imports_first(m.funcs),
{
    if header_ok(b) {
        lemma_walk_imports_first(b, 8, empty_model(), false);
    }
}

/// The table splits at `nn`: every entry before it is imported, every
/// entry from it on is locally defined.
pub open spec fn split_at(funcs: Seq<FuncView>, nn: int) -> bool {
    0 <= nn <= funcs.len() && (forall|i: int| 0 <= i < nn ==> funcs[i].import is Some) && (forall|
        i: int,
    | nn <= i < funcs.len() ==> funcs[i].import is None)
}

/// A partitioned function table splits at one point: some index `nn` has
/// every imported entry before it and every locally defined entry from it
/// on, so a table of N imports and M locals has the imports at indices
/// 0 .. N-1 and the locals at N .. N+M-1.
pub proof fn lemma_imports_first_split(funcs: Seq<FuncView>)
    requires
        imports_first(funcs),
    ensures
        exists|nn: int| split_at(funcs, nn),
    decreases funcs.len(),
{
    if funcs.len() == 0 {
        assert(split_at(funcs, 0));
    } else if funcs.last().import is Some {
        let nn: int = funcs.len() as int;
        assert forall|i: int| 0 <= i < nn implies funcs[i].import is Some by {
            if i < funcs.len() - 1 {
                assert(funcs[funcs.len() - 1].import is Some);
            }
        }
        assert(split_at(funcs, nn));
    } else {
        let prefix = funcs.drop_last();
        assert(imports_first(prefix)) by {
            assert forall|i: int, j: int|
                0 <= i < j < prefix.len() && prefix[j].import is Some
                    implies prefix[i].import is Some by {
                assert(prefix[j] == funcs[j]);
                assert(prefix[i] == funcs[i]);
            }
        }
        lemma_imports_first_split(prefix);
        let nn = choose|nn: int| split_at(prefix, nn);
        assert forall|i: int| 0 <= i < nn implies funcs[i].import is Some by {
            assert(funcs[i] == prefix[i]);
        }
        assert forall|i: int| nn <= i < funcs.len() implies funcs[i].import is None by {
            if i < prefix.len() {
                assert(funcs[i] == prefix[i]);
            }
        }
        assert(split_at(funcs, nn));
    }
}

/// Splitting an import-entry walk: walking `n` entries is walking the
/// first `j` and then, from where they end, the remaining `n - j`.
proof fn lemma_import_entries_split(b: Seq<u8>, pos: int, end: int, j: nat, n: nat, m: ModuleTypeView)
    requires
        j <= n,
    ensures
        spec_import_entries(b, pos, end, n, m) == match spec_import_entries(b, pos, end, j, m) {
            Err(e) => Err(e),
            Ok(res) => spec_import_entries(b, res.1, end, (n - j) as nat, res.0),
        },
    decreases j,
{
    if j == 0 {
    } else {
        match spec_name(b, pos, end) {
            Err(_) => {},
            Ok((ns, p1)) => {
                match spec_name(b, p1, end) {
                    Err(_) => {},
                    Ok((field, p2)) => {
                        if p2 < end && b[p2] == 0 {
                            match spec_leb_u32(b, p2 + 1, end) {
                                None => {},
                                Some((ti, c)) => {
                                    let m2 = ModuleTypeView {
                                        types: m.types,
                                        funcs: m.funcs.push(
                                            FuncView { ty: TypeIndex(ti), import: Some((ns, field)) },
                                        ),
                                        exports: m.exports,
                                    };
                                    lemma_import_entries_split(
                                        b,
                                        p2 + 1 + c,
                                        end,
                                        (j - 1) as nat,
                                        (n - 1) as nat,
                                        m2,
                                    );
                                },
                            }
                        }
                    },
                }
            },
        }
    }
}

/// Law: unsupported imports. Wherever a memory, table or global import
/// stands among the import entries — after any number of well-formed
/// entries — the walk's verdict is the unsupported-feature error naming
/// that import's kind, namespace and field, whatever else the section
/// holds.
pub proof fn lemma_unsupported_import_rejected(
    b: Seq<u8>,
    pos: int,
    end: int,
    j: nat,
    n: nat,
    m: ModuleTypeView,
    reached: ModuleTypeView,
    p: int,
    ns: Seq<char>,
    field: Seq<char>,
    p1: int,
    p2: int,
)
    requires
        j < n,
        spec_import_entries(b, pos, end, j, m) == Ok::<(ModuleTypeView, int), ErrView>((reached, p)),
        spec_name(b, p, end) == Ok::<(Seq<char>, int), ErrView>((ns, p1)),
        spec_name(b, p1, end) == Ok::<(Seq<char>, int), ErrView>((field, p2)),
        p2 < end,
        1 <= b[p2] <= 3,
    ensures
        b[p2] == 1 ==> spec_import_entries(b, pos, end, n, m) == Err::<
            (ModuleTypeView, int),
            ErrView,
        >(ErrView::Unsupported("table import "@ + ns + ":"@ + field)),
        b[p2] == 2 ==> spec_import_entries(b, pos, end, n, m) == Err::<
            (ModuleTypeView, int),
            ErrView,
        >(ErrView::Unsupported("memory import "@ + ns + ":"@ + field)),
        b[p2] == 3 ==> spec_import_entries(b, pos, end, n, m) == Err::<
            (ModuleTypeView, int),
            ErrView,
        >(ErrView::Unsupported("global import "@ + ns + ":"@ + field)),
{
    lemma_import_entries_split(b, pos, end, j, n, m);
}

/// Law: a non-function export is inert. An export entry of memory, table
/// or global kind contributes nothing to the model and raises no error of
/// its own: the walk continues past it with the model unchanged.
pub proof fn lemma_nonfunction_export_inert(
    b: Seq<u8>,
    pos: int,
    end: int,
    n: nat,
    m: ModuleTypeView,
    name: Seq<char>,
    p1: int,
)
    requires
        n >= 1,
        spec_name(b, pos, end) == Ok::<(Seq<char>, int), ErrView>((name, p1)),
        p1 < end,
        1 <= b[p1] <= 3,
    ensures
        spec_export_entries(b, pos, end, n, m) == match spec_leb_u32(b, p1 + 1, end) {
            None => Err(ErrView::WasmValidation(crate::diag::msg_bad_integer(), p1 + 1)),
            Some((idx, c)) => spec_export_entries(b, p1 + 1 + c, end, (n - 1) as nat, m),
        },
{
}

} // verus!
