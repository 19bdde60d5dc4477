//! The module type extractor: one forward pass over the binary module's
//! sections, dispatching on section kind, that builds the module type
//! model. The byte-level grammar of the sections the model draws from is
//! stated as spec functions, and every executable parser is proved to
//! return exactly what the grammar says.

use vstd::prelude::*;
use vstd::slice::slice_index_get;
use vstd::slice::slice_subrange;
use vstd::slice::slice_to_vec;
use vstd::utf8::decode_utf8;
use vstd::utf8::valid_utf8;

use crate::diag::bad_export_kind_err;
use crate::diag::bad_header_err;
use crate::diag::bad_import_kind_err;
use crate::diag::bad_integer_err;
use crate::diag::bad_name_err;
use crate::diag::bad_valtype_err;
use crate::diag::eof_section_err;
use crate::diag::msg_bad_export_kind;
use crate::diag::msg_bad_header;
use crate::diag::msg_bad_import_kind;
use crate::diag::msg_bad_integer;
use crate::diag::msg_bad_name;
use crate::diag::msg_bad_valtype;
use crate::diag::msg_eof_section;
use crate::diag::msg_section_size;
use crate::diag::msg_truncated_name;
use crate::diag::msg_truncated_section;
use crate::diag::msg_type_entry;
use crate::diag::section_size_err;
use crate::diag::truncated_name_err;
use crate::diag::truncated_section_err;
use crate::diag::type_entry_err;
use crate::model::Error;
use crate::model::ErrView;
use crate::model::Func;
use crate::model::FuncIndex;
use crate::model::FuncSignature;
use crate::model::FuncView;
use crate::model::ModuleType;
use crate::model::ModuleTypeView;
use crate::model::SigView;
use crate::model::TypeIndex;
use crate::model::ValueType;
use crate::model::empty_model;
use crate::trusted::string_from_utf8;
use crate::trusted::concat4;

verus! {

// ----------------------------------------------------------------------
// LEB128-encoded u32 integers
// ----------------------------------------------------------------------

/// The largest value an unsigned LEB128 encoding of `left` bytes can carry,
/// plus one.
pub open spec fn leb_cap(left: nat) -> nat
    decreases left,
{
    if left == 0 {
        1
    } else {
        128 * leb_cap((left - 1) as nat)
    }
}

proof fn lemma_leb_cap_vals()
    ensures
        leb_cap(0) == 1,
        leb_cap(1) == 128,
        leb_cap(2) == 0x4000,
        leb_cap(3) == 0x200000,
        leb_cap(4) == 0x10000000,
        leb_cap(5) == 0x800000000,
{
    assert(leb_cap(0) == 1);
    assert(leb_cap(1) == 128);
    assert(leb_cap(2) == 0x4000);
    assert(leb_cap(3) == 0x200000);
    assert(leb_cap(4) == 0x10000000);
    assert(leb_cap(5) == 0x800000000);
}

/// An unsigned LEB128 integer at `pos`, reading at most `left` more bytes
/// and never past `end`: the decoded value and the number of bytes
/// consumed.
pub open spec fn spec_leb_rec(b: Seq<u8>, pos: int, end: int, left: nat) -> Option<(nat, nat)>
    decreases left,
{
    if left == 0 || pos < 0 || pos >= end || end > b.len() {
        None
    } else {
        let byte = b[pos];
        if byte < 0x80 {
            Some(((byte as nat), 1nat))
        } else {
            match spec_leb_rec(b, pos + 1, end, (left - 1) as nat) {
                None => None,
                Some((v, c)) => Some((((byte - 0x80) as nat) + 128 * v, (c + 1) as nat)),
            }
        }
    }
}

/// An unsigned LEB128-encoded u32 at `pos`: at most 5 bytes, and the value
/// must fit in 32 bits.
pub open spec fn spec_leb_u32(b: Seq<u8>, pos: int, end: int) -> Option<(u32, nat)> {
    match spec_leb_rec(b, pos, end, 5) {
        None => None,
        Some((v, c)) => if v < 0x100000000 {
            Some(((v as u32), c))
        } else {
            None
        },
    }
}

fn leb_rec(b: &[u8], pos: usize, end: usize, left: u8) -> (r: Option<(u64, usize)>)
    requires
        pos <= end,
        end <= b@.len(),
        left <= 5,
    ensures
        match r {
            Some(vc) => spec_leb_rec(b@, pos as int, end as int, left as nat) == Some(
                ((vc.0 as nat), (vc.1 as nat)),
            ) && 1 <= vc.1 <= left && pos + vc.1 <= end && (vc.0 as nat) < leb_cap(left as nat),
            None => spec_leb_rec(b@, pos as int, end as int, left as nat) is None,
        },
    decreases left,
{
    if left == 0 || pos >= end {
        return None;
    }
    let byte: u8 = *slice_index_get(b, pos);
    if byte < 0x80 {
        proof {
            lemma_leb_cap_vals();
            lemma_leb_cap_monotone((left - 1) as nat);
        }
        Some((byte as u64, 1))
    } else {
        match leb_rec(b, pos + 1, end, left - 1) {
            None => None,
            Some((v, c)) => {
                proof {
                    lemma_leb_cap_vals();
                    lemma_leb_cap_monotone((left - 1) as nat);
                }
                let value: u64 = (byte - 0x80) as u64 + 128u64 * v;
                Some((value, c + 1))
            },
        }
    }
}

/// `leb_cap` only grows with the byte budget, and stays below 2^35 for
/// budgets up to 5.
proof fn lemma_leb_cap_monotone(n: nat)
    requires
        n <= 5,
    ensures
        1 <= leb_cap(n),
        leb_cap(n) <= 0x800000000,
    decreases n,
{
    lemma_leb_cap_vals();
    if n == 0 {
    } else if n == 1 {
    } else if n == 2 {
    } else if n == 3 {
    } else if n == 4 {
    } else {
        assert(n == 5);
    }
}

fn leb_u32(b: &[u8], pos: usize, end: usize) -> (r: Option<(u32, usize)>)
    requires
        pos <= end,
        end <= b@.len(),
    ensures
        match r {
            Some(vc) => spec_leb_u32(b@, pos as int, end as int) == Some((vc.0, (vc.1 as nat)))
                && 1 <= vc.1 && pos + vc.1 <= end,
            None => spec_leb_u32(b@, pos as int, end as int) is None,
        },
{
    match leb_rec(b, pos, end, 5) {
        None => None,
        Some((v, c)) => if v < 0x100000000u64 {
            Some((v as u32, c))
        } else {
            None
        },
    }
}

// ----------------------------------------------------------------------
// Value types and value-type lists
// ----------------------------------------------------------------------

/// The value type a single byte encodes, if any.
pub open spec fn spec_valtype(x: u8) -> Option<ValueType> {
    if x == 0x7F {
        Some(ValueType::I32)
    } else if x == 0x7E {
        Some(ValueType::I64)
    } else if x == 0x7D {
        Some(ValueType::F32)
    } else if x == 0x7C {
        Some(ValueType::F64)
    } else {
        None
    }
}

fn valtype_of(x: u8) -> (r: Option<ValueType>)
    ensures
        r == spec_valtype(x),
{
    if x == 0x7F {
        Some(ValueType::I32)
    } else if x == 0x7E {
        Some(ValueType::I64)
    } else if x == 0x7D {
        Some(ValueType::F32)
    } else if x == 0x7C {
        Some(ValueType::F64)
    } else {
        None
    }
}

/// `n` value-type bytes starting at `pos`, appended to `acc`: the collected
/// types and the position after them.
pub open spec fn spec_valtypes(
    b: Seq<u8>,
    pos: int,
    end: int,
    n: nat,
    acc: Seq<ValueType>,
) -> Result<(Seq<ValueType>, int), ErrView>
    decreases n,
{
    if n == 0 {
        Ok((acc, pos))
    } else if pos >= end {
        Err(ErrView::WasmValidation(msg_eof_section(), pos))
    } else {
        match spec_valtype(b[pos]) {
            None => Err(ErrView::WasmValidation(msg_bad_valtype(), pos)),
            Some(v) => spec_valtypes(b, pos + 1, end, (n - 1) as nat, acc.push(v)),
        }
    }
}

#[verifier::loop_isolation(false)]
fn parse_valtypes(b: &[u8], pos: usize, end: usize, n: u32) -> (r: Result<
    (Vec<ValueType>, usize),
    Error,
>)
    requires
        pos <= end,
        end <= b@.len(),
    ensures
        match r {
            Ok(vp) => spec_valtypes(b@, pos as int, end as int, n as nat, Seq::empty()) == Ok::<
                _,
                ErrView,
            >((vp.0@, vp.1 as int)) && pos <= vp.1 <= end,
            Err(e) => spec_valtypes(b@, pos as int, end as int, n as nat, Seq::empty()) == Err::<
                (Seq<ValueType>, int),
                _,
            >(e@),
        },
{
    let mut out: Vec<ValueType> = Vec::new();
    let mut p: usize = pos;
    let mut i: u32 = 0;
    while i < n
        invariant
            pos <= p <= end,
            end <= b@.len(),
            i <= n,
            spec_valtypes(b@, pos as int, end as int, n as nat, Seq::empty()) == spec_valtypes(
                b@,
                p as int,
                end as int,
                (n - i) as nat,
                out@,
            ),
        decreases n - i,
    {
        if p >= end {
            return Err(eof_section_err(p));
        }
        let byte: u8 = *slice_index_get(b, p);
        match valtype_of(byte) {
            None => {
                return Err(bad_valtype_err(p));
            },
            Some(v) => {
                out.push(v);
                p = p + 1;
                i = i + 1;
            },
        }
    }
    Ok((out, p))
}

// ----------------------------------------------------------------------
// Names
// ----------------------------------------------------------------------

/// A length-prefixed UTF-8 name at `pos`: the decoded characters and the
/// position after the name.
pub open spec fn spec_name(b: Seq<u8>, pos: int, end: int) -> Result<(Seq<char>, int), ErrView> {
    match spec_leb_u32(b, pos, end) {
        None => Err(ErrView::WasmValidation(msg_bad_integer(), pos)),
        Some((n, c)) => {
            let start = pos + c;
            if start + (n as int) > end {
                Err(ErrView::WasmValidation(msg_truncated_name(), pos))
            } else {
                let bytes = b.subrange(start, start + (n as int));
                if valid_utf8(bytes) {
                    Ok((decode_utf8(bytes), start + (n as int)))
                } else {
                    Err(ErrView::WasmValidation(msg_bad_name(), pos))
                }
            }
        },
    }
}

fn parse_name(b: &[u8], pos: usize, end: usize) -> (r: Result<(String, usize), Error>)
    requires
        pos <= end,
        end <= b@.len(),
    ensures
        match r {
            Ok(sp) => spec_name(b@, pos as int, end as int) == Ok::<_, ErrView>((
                sp.0@,
                sp.1 as int,
            )) && pos < sp.1 <= end,
            Err(e) => spec_name(b@, pos as int, end as int) == Err::<(Seq<char>, int), _>(e@),
        },
{
    match leb_u32(b, pos, end) {
        None => Err(bad_integer_err(pos)),
        Some((n, c)) => {
            let start: usize = pos + c;
            if (n as usize) > end - start {
                Err(truncated_name_err(pos))
            } else {
                let stop: usize = start + (n as usize);
                let bytes: Vec<u8> = slice_to_vec(slice_subrange(b, start, stop));
                match string_from_utf8(bytes) {
                    Some(s) => Ok((s, stop)),
                    None => Err(bad_name_err(pos)),
                }
            }
        },
    }
}

/// An import that is not a function import is outside the supported
/// surface; the diagnostic names the import's kind, namespace and field.
fn import_unsupported_err(prefix: &str, ns: &String, field: &String) -> (e: Error)
    ensures
        e@ == ErrView::Unsupported(prefix@ + ns@ + ":"@ + field@),
{
    Error::Unsupported(concat4(prefix, ns.as_str(), ":", field.as_str()))
}

// ----------------------------------------------------------------------
// Type section: each entry must be a function form (parameter list and
// return list); any other form is unsupported. Each accepted entry appends
// one signature to the signature table.
// ----------------------------------------------------------------------

pub open spec fn spec_type_entries(
    b: Seq<u8>,
    pos: int,
    end: int,
    n: nat,
    m: ModuleTypeView,
) -> Result<(ModuleTypeView, int), ErrView>
    decreases n,
{
    if n == 0 {
        Ok((m, pos))
    } else if pos >= end {
        Err(ErrView::WasmValidation(msg_eof_section(), pos))
    } else if b[pos] != 0x60 {
        Err(ErrView::Unsupported(msg_type_entry()))
    } else {
        match spec_leb_u32(b, pos + 1, end) {
            None => Err(ErrView::WasmValidation(msg_bad_integer(), pos + 1)),
            Some((np, c1)) => match spec_valtypes(b, pos + 1 + c1, end, np as nat, Seq::empty()) {
                Err(e) => Err(e),
                Ok((params, p2)) => match spec_leb_u32(b, p2, end) {
                    None => Err(ErrView::WasmValidation(msg_bad_integer(), p2)),
                    Some((nr, c2)) => match spec_valtypes(
                        b,
                        p2 + c2,
                        end,
                        nr as nat,
                        Seq::empty(),
                    ) {
                        Err(e) => Err(e),
                        Ok((rets, p3)) => spec_type_entries(
                            b,
                            p3,
                            end,
                            (n - 1) as nat,
                            ModuleTypeView {
                                types: m.types.push(SigView { params, returns: rets }),
                                funcs: m.funcs,
                                exports: m.exports,
                            },
                        ),
                    },
                },
            },
        }
    }
}

pub open spec fn spec_type_section(b: Seq<u8>, start: int, end: int, m: ModuleTypeView) -> Result<
    ModuleTypeView,
    ErrView,
> {
    match spec_leb_u32(b, start, end) {
        None => Err(ErrView::WasmValidation(msg_bad_integer(), start)),
        Some((n, c)) => match spec_type_entries(b, start + c, end, n as nat, m) {
            Err(e) => Err(e),
            Ok((m2, p)) => if p == end {
                Ok(m2)
            } else {
                Err(ErrView::WasmValidation(msg_section_size(), p))
            },
        },
    }
}

#[verifier::loop_isolation(false)]
fn parse_type_section(b: &[u8], start: usize, end: usize, m: &mut ModuleType) -> (r: Result<
    (),
    Error,
>)
    requires
        start <= end,
        end <= b@.len(),
    ensures
        match r {
            Ok(_) => spec_type_section(b@, start as int, end as int, old(m)@) == Ok::<
                _,
                ErrView,
            >(final(m)@),
            Err(e) => spec_type_section(b@, start as int, end as int, old(m)@) == Err::<
                ModuleTypeView,
                _,
            >(e@),
        },
{
    match leb_u32(b, start, end) {
        None => Err(bad_integer_err(start)),
        Some((n, c)) => {
            let mut p: usize = start + c;
            let mut i: u32 = 0;
            while i < n
                invariant
                    p <= end,
                    end <= b@.len(),
                    i <= n,
                    spec_type_entries(b@, (start + c) as int, end as int, n as nat, old(m)@)
                        == spec_type_entries(b@, p as int, end as int, (n - i) as nat, m@),
                decreases n - i,
            {
                if p >= end {
                    return Err(eof_section_err(p));
                }
                let form: u8 = *slice_index_get(b, p);
                if form != 0x60 {
                    return Err(type_entry_err());
                }
                match leb_u32(b, p + 1, end) {
                    None => {
                        return Err(bad_integer_err(p + 1));
                    },
                    Some((np, c1)) => {
                        match parse_valtypes(b, p + 1 + c1, end, np) {
                            Err(e) => {
                                return Err(e);
                            },
                            Ok((params, p2)) => {
                                match leb_u32(b, p2, end) {
                                    None => {
                                        return Err(bad_integer_err(p2));
                                    },
                                    Some((nr, c2)) => {
                                        match parse_valtypes(b, p2 + c2, end, nr) {
                                            Err(e) => {
                                                return Err(e);
                                            },
                                            Ok((rets, p3)) => {
                                                let ghost prev = m@;
                                                let ghost gsig = SigView {
                                                    params: params@,
                                                    returns: rets@,
                                                };
                                                m.types.push(
                                                    FuncSignature { params, returns: rets },
                                                );
                                                proof {
                                                    assert(m@.types =~= prev.types.push(gsig));
                                                    assert(m@ == (ModuleTypeView {
                                                        types: prev.types.push(gsig),
                                                        funcs: prev.funcs,
                                                        exports: prev.exports,
                                                    }));
                                                }
                                                p = p3;
                                                i = i + 1;
                                            },
                                        }
                                    },
                                }
                            },
                        }
                    },
                }
            }
            if p == end {
                Ok(())
            } else {
                Err(section_size_err(p))
            }
        },
    }
}

// ----------------------------------------------------------------------
// Import section: a function import appends a function table entry whose
// origin is the (namespace, field) pair; a memory, table or global import
// is rejected as unsupported, naming the import.
// ----------------------------------------------------------------------

pub open spec fn spec_import_entries(
    b: Seq<u8>,
    pos: int,
    end: int,
    n: nat,
    m: ModuleTypeView,
) -> Result<(ModuleTypeView, int), ErrView>
    decreases n,
{
    if n == 0 {
        Ok((m, pos))
    } else {
        match spec_name(b, pos, end) {
            Err(e) => Err(e),
            Ok((ns, p1)) => match spec_name(b, p1, end) {
                Err(e) => Err(e),
                Ok((field, p2)) => if p2 >= end {
                    Err(ErrView::WasmValidation(msg_eof_section(), p2))
                } else {
                    let kind = b[p2];
                    if kind == 0 {
                        match spec_leb_u32(b, p2 + 1, end) {
                            None => Err(ErrView::WasmValidation(msg_bad_integer(), p2 + 1)),
                            Some((ti, c)) => spec_import_entries(
                                b,
                                p2 + 1 + c,
                                end,
                                (n - 1) as nat,
                                ModuleTypeView {
                                    types: m.types,
                                    funcs: m.funcs.push(
                                        FuncView { ty: TypeIndex(ti), import: Some((ns, field)) },
                                    ),
                                    exports: m.exports,
                                },
                            ),
                        }
                    } else if kind == 1 {
                        Err(ErrView::Unsupported("table import "@ + ns + ":"@ + field))
                    } else if kind == 2 {
                        Err(ErrView::Unsupported("memory import "@ + ns + ":"@ + field))
                    } else if kind == 3 {
                        Err(ErrView::Unsupported("global import "@ + ns + ":"@ + field))
                    } else {
                        Err(ErrView::WasmValidation(msg_bad_import_kind(), p2))
                    }
                },
            },
        }
    }
}

pub open spec fn spec_import_section(
    b: Seq<u8>,
    start: int,
    end: int,
    m: ModuleTypeView,
) -> Result<ModuleTypeView, ErrView> {
    match spec_leb_u32(b, start, end) {
        None => Err(ErrView::WasmValidation(msg_bad_integer(), start)),
        Some((n, c)) => match spec_import_entries(b, start + c, end, n as nat, m) {
            Err(e) => Err(e),
            Ok((m2, p)) => if p == end {
                Ok(m2)
            } else {
                Err(ErrView::WasmValidation(msg_section_size(), p))
            },
        },
    }
}

#[verifier::loop_isolation(false)]
fn parse_import_section(b: &[u8], start: usize, end: usize, m: &mut ModuleType) -> (r: Result<
    (),
    Error,
>)
    requires
        start <= end,
        end <= b@.len(),
    ensures
        match r {
            Ok(_) => spec_import_section(b@, start as int, end as int, old(m)@) == Ok::<
                _,
                ErrView,
            >(final(m)@),
            Err(e) => spec_import_section(b@, start as int, end as int, old(m)@) == Err::<
                ModuleTypeView,
                _,
            >(e@),
        },
{
    match leb_u32(b, start, end) {
        None => Err(bad_integer_err(start)),
        Some((n, c)) => {
            let mut p: usize = start + c;
            let mut i: u32 = 0;
            while i < n
                invariant
                    p <= end,
                    end <= b@.len(),
                    i <= n,
                    spec_import_entries(b@, (start + c) as int, end as int, n as nat, old(m)@)
                        == spec_import_entries(b@, p as int, end as int, (n - i) as nat, m@),
                decreases n - i,
            {
                match parse_name(b, p, end) {
                    Err(e) => {
                        return Err(e);
                    },
                    Ok((ns, p1)) => {
                        match parse_name(b, p1, end) {
                            Err(e) => {
                                return Err(e);
                            },
                            Ok((field, p2)) => {
                                if p2 >= end {
                                    return Err(eof_section_err(p2));
                                }
                                let kind: u8 = *slice_index_get(b, p2);
                                if kind == 0 {
                                    match leb_u32(b, p2 + 1, end) {
                                        None => {
                                            return Err(bad_integer_err(p2 + 1));
                                        },
                                        Some((ti, c1)) => {
                                            let ghost prev = m@;
                                            let ghost gentry = FuncView {
                                                ty: TypeIndex(ti),
                                                import: Some((ns@, field@)),
                                            };
                                            m.funcs.push(
                                                Func {
                                                    ty: TypeIndex(ti),
                                                    import: Some((ns, field)),
                                                },
                                            );
                                            proof {
                                                assert(m@.funcs =~= prev.funcs.push(gentry));
                                                assert(m@ == (ModuleTypeView {
                                                    types: prev.types,
                                                    funcs: prev.funcs.push(gentry),
                                                    exports: prev.exports,
                                                }));
                                            }
                                            p = p2 + 1 + c1;
                                            i = i + 1;
                                        },
                                    }
                                } else if kind == 1 {
                                    return Err(
                                        import_unsupported_err("table import ", &ns, &field),
                                    );
                                } else if kind == 2 {
                                    return Err(
                                        import_unsupported_err("memory import ", &ns, &field),
                                    );
                                } else if kind == 3 {
                                    return Err(
                                        import_unsupported_err("global import ", &ns, &field),
                                    );
                                } else {
                                    return Err(bad_import_kind_err(p2));
                                }
                            },
                        }
                    },
                }
            }
            if p == end {
                Ok(())
            } else {
                Err(section_size_err(p))
            }
        },
    }
}

// ----------------------------------------------------------------------
// Export section: a function export binds a name to a function index,
// where a later binding of the same name wins; exports of any other kind
// are observed and discarded.
// ----------------------------------------------------------------------

pub open spec fn spec_export_entries(
    b: Seq<u8>,
    pos: int,
    end: int,
    n: nat,
    m: ModuleTypeView,
) -> Result<(ModuleTypeView, int), ErrView>
    decreases n,
{
    if n == 0 {
        Ok((m, pos))
    } else {
        match spec_name(b, pos, end) {
            Err(e) => Err(e),
            Ok((name, p1)) => if p1 >= end {
                Err(ErrView::WasmValidation(msg_eof_section(), p1))
            } else {
                let kind = b[p1];
                if kind > 3 {
                    Err(ErrView::WasmValidation(msg_bad_export_kind(), p1))
                } else {
                    match spec_leb_u32(b, p1 + 1, end) {
                        None => Err(ErrView::WasmValidation(msg_bad_integer(), p1 + 1)),
                        Some((idx, c)) => {
                            let m2 = if kind == 0 {
                                ModuleTypeView {
                                    types: m.types,
                                    funcs: m.funcs,
                                    exports: m.exports.insert(name, FuncIndex(idx)),
                                }
                            } else {
                                m
                            };
                            spec_export_entries(b, p1 + 1 + c, end, (n - 1) as nat, m2)
                        },
                    }
                }
            },
        }
    }
}

pub open spec fn spec_export_section(
    b: Seq<u8>,
    start: int,
    end: int,
    m: ModuleTypeView,
) -> Result<ModuleTypeView, ErrView> {
    match spec_leb_u32(b, start, end) {
        None => Err(ErrView::WasmValidation(msg_bad_integer(), start)),
        Some((n, c)) => match spec_export_entries(b, start + c, end, n as nat, m) {
            Err(e) => Err(e),
            Ok((m2, p)) => if p == end {
                Ok(m2)
            } else {
                Err(ErrView::WasmValidation(msg_section_size(), p))
            },
        },
    }
}

#[verifier::loop_isolation(false)]
fn parse_export_section(b: &[u8], start: usize, end: usize, m: &mut ModuleType) -> (r: Result<
    (),
    Error,
>)
    requires
        start <= end,
        end <= b@.len(),
    ensures
        match r {
            Ok(_) => spec_export_section(b@, start as int, end as int, old(m)@) == Ok::<
                _,
                ErrView,
            >(final(m)@),
            Err(e) => spec_export_section(b@, start as int, end as int, old(m)@) == Err::<
                ModuleTypeView,
                _,
            >(e@),
        },
{
    match leb_u32(b, start, end) {
        None => Err(bad_integer_err(start)),
        Some((n, c)) => {
            let mut p: usize = start + c;
            let mut i: u32 = 0;
            while i < n
                invariant
                    p <= end,
                    end <= b@.len(),
                    i <= n,
                    spec_export_entries(b@, (start + c) as int, end as int, n as nat, old(m)@)
                        == spec_export_entries(b@, p as int, end as int, (n - i) as nat, m@),
                decreases n - i,
            {
                match parse_name(b, p, end) {
                    Err(e) => {
                        return Err(e);
                    },
                    Ok((name, p1)) => {
                        if p1 >= end {
                            return Err(eof_section_err(p1));
                        }
                        let kind: u8 = *slice_index_get(b, p1);
                        if kind > 3 {
                            return Err(bad_export_kind_err(p1));
                        }
                        match leb_u32(b, p1 + 1, end) {
                            None => {
                                return Err(bad_integer_err(p1 + 1));
                            },
                            Some((idx, c1)) => {
                                if kind == 0 {
                                    m.insert_export(name, FuncIndex(idx));
                                }
                                p = p1 + 1 + c1;
                                i = i + 1;
                            },
                        }
                    },
                }
            }
            if p == end {
                Ok(())
            } else {
                Err(section_size_err(p))
            }
        },
    }
}

// ----------------------------------------------------------------------
// Function section: each entry declares a locally defined function by its
// type index; the entry appends a function table entry with no origin.
// ----------------------------------------------------------------------

pub open spec fn spec_function_entries(
    b: Seq<u8>,
    pos: int,
    end: int,
    n: nat,
    m: ModuleTypeView,
) -> Result<(ModuleTypeView, int), ErrView>
    decreases n,
{
    if n == 0 {
        Ok((m, pos))
    } else {
        match spec_leb_u32(b, pos, end) {
            None => Err(ErrView::WasmValidation(msg_bad_integer(), pos)),
            Some((ti, c)) => spec_function_entries(
                b,
                pos + c,
                end,
                (n - 1) as nat,
                ModuleTypeView {
                    types: m.types,
                    funcs: m.funcs.push(FuncView { ty: TypeIndex(ti), import: None }),
                    exports: m.exports,
                },
            ),
        }
    }
}

pub open spec fn spec_function_section(
    b: Seq<u8>,
    start: int,
    end: int,
    m: ModuleTypeView,
) -> Result<ModuleTypeView, ErrView> {
    match spec_leb_u32(b, start, end) {
        None => Err(ErrView::WasmValidation(msg_bad_integer(), start)),
        Some((n, c)) => match spec_function_entries(b, start + c, end, n as nat, m) {
            Err(e) => Err(e),
            Ok((m2, p)) => if p == end {
                Ok(m2)
            } else {
                Err(ErrView::WasmValidation(msg_section_size(), p))
            },
        },
    }
}

#[verifier::loop_isolation(false)]
fn parse_function_section(b: &[u8], start: usize, end: usize, m: &mut ModuleType) -> (r: Result<
    (),
    Error,
>)
    requires
        start <= end,
        end <= b@.len(),
    ensures
        match r {
            Ok(_) => spec_function_section(b@, start as int, end as int, old(m)@) == Ok::<
                _,
                ErrView,
            >(final(m)@),
            Err(e) => spec_function_section(b@, start as int, end as int, old(m)@) == Err::<
                ModuleTypeView,
                _,
            >(e@),
        },
{
    match leb_u32(b, start, end) {
        None => Err(bad_integer_err(start)),
        Some((n, c)) => {
            let mut p: usize = start + c;
            let mut i: u32 = 0;
            while i < n
                invariant
                    p <= end,
                    end <= b@.len(),
                    i <= n,
                    spec_function_entries(b@, (start + c) as int, end as int, n as nat, old(m)@)
                        == spec_function_entries(b@, p as int, end as int, (n - i) as nat, m@),
                decreases n - i,
            {
                match leb_u32(b, p, end) {
                    None => {
                        return Err(bad_integer_err(p));
                    },
                    Some((ti, c1)) => {
                        let ghost prev = m@;
                        let ghost gentry = FuncView { ty: TypeIndex(ti), import: None };
                        m.funcs.push(Func { ty: TypeIndex(ti), import: None });
                        proof {
                            assert(m@.funcs =~= prev.funcs.push(gentry));
                            assert(m@ == (ModuleTypeView {
                                types: prev.types,
                                funcs: prev.funcs.push(gentry),
                                exports: prev.exports,
                            }));
                        }
                        p = p + c1;
                        i = i + 1;
                    },
                }
            }
            if p == end {
                Ok(())
            } else {
                Err(section_size_err(p))
            }
        },
    }
}

// ----------------------------------------------------------------------
// The section walk
// ----------------------------------------------------------------------

/// What one section of the given kind contributes to the model. Kinds the
/// type model does not draw from are ignored entirely.
pub open spec fn spec_section_content(
    b: Seq<u8>,
    id: u8,
    start: int,
    end: int,
    m: ModuleTypeView,
) -> Result<ModuleTypeView, ErrView> {
    if id == 1 {
        spec_type_section(b, start, end, m)
    } else if id == 2 {
        spec_import_section(b, start, end, m)
    } else if id == 3 {
        spec_function_section(b, start, end, m)
    } else if id == 7 {
        spec_export_section(b, start, end, m)
    } else {
        Ok(m)
    }
}

/// The walk over the module's sections from `pos` to the end of the
/// buffer, dispatching purely on section kind, threading the model
/// through.
pub open spec fn spec_sections(b: Seq<u8>, pos: int, m: ModuleTypeView) -> Result<
    ModuleTypeView,
    ErrView,
>
    decreases b.len() - pos,
{
    if pos >= b.len() {
        Ok(m)
    } else {
        let id = b[pos];
        match spec_leb_u32(b, pos + 1, b.len() as int) {
            None => Err(ErrView::WasmValidation(msg_bad_integer(), pos + 1)),
            Some((size, c)) => {
                let start = pos + 1 + c;
                let end = start + (size as int);
                if end > b.len() {
                    Err(ErrView::WasmValidation(msg_truncated_section(), pos))
                } else {
                    match spec_section_content(b, id, start, end, m) {
                        Err(e) => Err(e),
                        Ok(m2) => spec_sections(b, end, m2),
                    }
                }
            },
        }
    }
}

/// The fixed eight-byte preamble: magic bytes and version 1.
pub open spec fn header_ok(b: Seq<u8>) -> bool {
    b.len() >= 8 && b[0] == 0x00u8 && b[1] == 0x61u8 && b[2] == 0x73u8 && b[3] == 0x6du8 && b[4]
        == 0x01u8 && b[5] == 0x00u8 && b[6] == 0x00u8 && b[7] == 0x00u8
}

/// The whole extraction: the module type model a byte buffer denotes, or
/// the first diagnostic of the walk.
pub open spec fn spec_extract(b: Seq<u8>) -> Result<ModuleTypeView, ErrView> {
    if !header_ok(b) {
        Err(ErrView::WasmValidation(msg_bad_header(), 0))
    } else {
        spec_sections(b, 8, empty_model())
    }
}

/// One forward pass over the module's sections, in the order they appear,
/// building the module type model: signatures from the type section,
/// imported then locally defined functions into the function table, and
/// function exports into the export table.
#[verifier::loop_isolation(false)]
#[verifier::rlimit(60)]
pub fn extract_module(module_contents: &[u8]) -> (r: Result<ModuleType, Error>)
    ensures
        match r {
            Ok(m) => spec_extract(module_contents@) == Ok::<ModuleTypeView, ErrView>(m@),
            Err(e) => spec_extract(module_contents@) == Err::<ModuleTypeView, ErrView>(e@),
        },
{
    let b = module_contents;
    let len: usize = b.len();
    if len < 8 || *slice_index_get(b, 0) != 0x00 || *slice_index_get(b, 1) != 0x61
        || *slice_index_get(b, 2) != 0x73 || *slice_index_get(b, 3) != 0x6d || *slice_index_get(
        b,
        4,
    ) != 0x01 || *slice_index_get(b, 5) != 0x00 || *slice_index_get(b, 6) != 0x00
        || *slice_index_get(b, 7) != 0x00 {
        return Err(bad_header_err());
    }
    let mut m = ModuleType::new();
    let mut pos: usize = 8;
    while pos < len
        invariant
            8 <= pos <= len,
            len == b@.len(),
            header_ok(b@),
            spec_sections(b@, 8, empty_model()) == spec_sections(b@, pos as int, m@),
        decreases len - pos,
    {
        let id: u8 = *slice_index_get(b, pos);
        match leb_u32(b, pos + 1, len) {
            None => {
                return Err(bad_integer_err(pos + 1));
            },
            Some((size, c)) => {
                let start: usize = pos + 1 + c;
                if (size as usize) > len - start {
                    return Err(truncated_section_err(pos));
                }
                let end: usize = start + (size as usize);
                let ghost prev = m@;
                let res: Result<(), Error> = if id == 1 {
                    parse_type_section(b, start, end, &mut m)
                } else if id == 2 {
                    parse_import_section(b, start, end, &mut m)
                } else if id == 3 {
                    parse_function_section(b, start, end, &mut m)
                } else if id == 7 {
                    parse_export_section(b, start, end, &mut m)
                } else {
                    Ok(())
                };
                match res {
                    Err(e) => {
                        proof {
                            assert(spec_section_content(b@, id, start as int, end as int, prev)
                                == Err::<ModuleTypeView, ErrView>(e@));
                        }
                        return Err(e);
                    },
                    Ok(_) => {
                        proof {
                            assert(spec_section_content(b@, id, start as int, end as int, prev)
                                == Ok::<ModuleTypeView, ErrView>(m@));
                        }
                        pos = end;
                    },
                }
            },
        }
    }
    Ok(m)
}

} // verus!
