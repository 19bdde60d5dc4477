//! The module type model: value types, function signatures, the function
//! table with origin tracking, and the export name table, together with the
//! interface grammar that the model is checked against and the error type
//! that every stage of validation reports through.

use vstd::prelude::*;

verus! {

/// A primitive value type of the module's type system: an opaque tag from a
/// small closed set. Equality is exact tag match; there is no coercion.
#[derive(Clone, Copy, PartialEq, Eq, Structural, Debug)]
pub enum ValueType {
    I32,
    I64,
    F32,
    F64,
}

/// A zero-based index into the signature table, assigned monotonically in
/// the order signatures are declared in the type section. A distinct newtype
/// keeps type indices and function indices from being mixed up.
#[derive(Clone, Copy, PartialEq, Eq, Structural, Debug)]
pub struct TypeIndex(pub u32);

/// A zero-based index into the function table. Imported functions take the
/// low indices in import order; locally defined functions follow in
/// declaration order.
#[derive(Clone, Copy, PartialEq, Eq, Structural, Debug)]
pub struct FuncIndex(pub u32);

/// An ordered sequence of parameter types and an ordered sequence of return
/// types. Two signatures are equal exactly when both sequences agree
/// element-wise, in order and in length.
#[derive(Debug)]
pub struct FuncSignature {
    pub params: Vec<ValueType>,
    pub returns: Vec<ValueType>,
}

/// The mathematical shape of a `FuncSignature`.
pub struct SigView {
    pub params: Seq<ValueType>,
    pub returns: Seq<ValueType>,
}

impl View for FuncSignature {
    type V = SigView;

    open spec fn view(&self) -> SigView {
        SigView { params: self.params@, returns: self.returns@ }
    }
}

/// A function table entry: the signature it refers to, and the
/// (namespace, field) origin pair, present exactly when the function is
/// imported.
#[derive(Debug)]
pub struct Func {
    pub ty: TypeIndex,
    pub import: Option<(String, String)>,
}

/// The mathematical shape of a `Func`.
pub struct FuncView {
    pub ty: TypeIndex,
    pub import: Option<(Seq<char>, Seq<char>)>,
}

impl View for Func {
    type V = FuncView;

    open spec fn view(&self) -> FuncView {
        FuncView {
            ty: self.ty,
            import: match self.import {
                Some((ref ns, ref field)) => Some((ns@, field@)),
                None => None,
            },
        }
    }
}

/// Everything the validator reports through. The structural kind carries the
/// diagnostic message and the byte offset it refers to; the unsupported kind
/// names exactly which construct lies outside the supported surface; the two
/// conformance kinds name the offending function, and for a mismatch carry
/// the declared (expected) and the module's (actual) signature.
#[derive(Debug)]
pub enum Error {
    WasmValidation(String, usize),
    Unsupported(String),
    MissingExport(String),
    SignatureMismatch(String, FuncSignature, FuncSignature),
}

/// The mathematical shape of an `Error`.
pub enum ErrView {
    WasmValidation(Seq<char>, int),
    Unsupported(Seq<char>),
    MissingExport(Seq<char>),
    SignatureMismatch(Seq<char>, SigView, SigView),
}

impl View for Error {
    type V = ErrView;

    open spec fn view(&self) -> ErrView {
        match self {
            Error::WasmValidation(msg, off) => ErrView::WasmValidation(msg@, *off as int),
            Error::Unsupported(msg) => ErrView::Unsupported(msg@),
            Error::MissingExport(name) => ErrView::MissingExport(name@),
            Error::SignatureMismatch(name, want, have) => ErrView::SignatureMismatch(
                name@,
                want@,
                have@,
            ),
        }
    }
}

/// The export table as a mapping: a later binding of the same name
/// overwrites an earlier one, so the table is the left-to-right fold of
/// inserts over the recorded bindings.
pub open spec fn export_map(entries: Seq<(Seq<char>, FuncIndex)>) -> Map<Seq<char>, FuncIndex>
    decreases entries.len(),
{
    if entries.len() == 0 {
        Map::empty()
    } else {
        export_map(entries.drop_last()).insert(entries.last().0, entries.last().1)
    }
}

/// The mathematical shape of a `ModuleType`: the ordered signature table,
/// the ordered function table, and the export mapping.
pub struct ModuleTypeView {
    pub types: Seq<SigView>,
    pub funcs: Seq<FuncView>,
    pub exports: Map<Seq<char>, FuncIndex>,
}

/// The module type model: signature table, function table, export table.
/// Built once per validation by the extractor and read by the conformance
/// checker. Only function exports are recorded; the bindings are kept in the
/// order they were seen and the view folds them into a mapping in which the
/// last binding of a name wins.
#[derive(Debug)]
pub struct ModuleType {
    pub types: Vec<FuncSignature>,
    pub funcs: Vec<Func>,
    pub exports: Vec<(String, FuncIndex)>,
}

impl View for ModuleType {
    type V = ModuleTypeView;

    open spec fn view(&self) -> ModuleTypeView {
        ModuleTypeView {
            types: self.types@.map_values(|t: FuncSignature| t@),
            funcs: self.funcs@.map_values(|f: Func| f@),
            exports: export_map(
                self.exports@.map_values(|e: (String, FuncIndex)| (e.0@, e.1)),
            ),
        }
    }
}

/// The empty model that a fresh extraction starts from.
pub open spec fn empty_model() -> ModuleTypeView {
    ModuleTypeView { types: Seq::empty(), funcs: Seq::empty(), exports: Map::empty() }
}

impl ModuleType {
    /// A fresh, empty model.
    pub fn new() -> (m: ModuleType)
        ensures
            m@ == empty_model(),
    {
        let m = ModuleType { types: Vec::new(), funcs: Vec::new(), exports: Vec::new() };
        proof {
            assert(m@.types =~= empty_model().types);
            assert(m@.funcs =~= empty_model().funcs);
            assert(m@.exports =~= empty_model().exports);
        }
        m
    }

    /// Record a function export. A later export of the same name overwrites
    /// an earlier one.
    pub fn insert_export(&mut self, name: String, index: FuncIndex)
        ensures
            final(self)@ == (ModuleTypeView { exports: old(self)@.exports.insert(name@, index), ..old(self)@ }),
    {
        let ghost before = self.exports@.map_values(|e: (String, FuncIndex)| (e.0@, e.1));
        let ghost gname = name@;
        self.exports.push((name, index));
        proof {
            let after = self.exports@.map_values(|e: (String, FuncIndex)| (e.0@, e.1));
            assert(after.drop_last() =~= before);
            assert(after.last() == (gname, index));
            assert(self@.types =~= old(self)@.types);
            assert(self@.funcs =~= old(self)@.funcs);
        }
    }

    /// Look a name up in the export table: the function index bound last,
    /// or nothing if no function export bears the name.
    pub fn lookup_export(&self, name: &String) -> (r: Option<FuncIndex>)
        ensures
            r == if self@.exports.contains_key(name@) {
                Some(self@.exports[name@])
            } else {
                Option::<FuncIndex>::None
            },
    {
        let ghost entries = self.exports@.map_values(|e: (String, FuncIndex)| (e.0@, e.1));
        let mut i: usize = self.exports.len();
        while i > 0
            invariant
                i <= self.exports.len(),
                entries == self.exports@.map_values(|e: (String, FuncIndex)| (e.0@, e.1)),
                forall|j: int| i <= j < entries.len() ==> entries[j].0 != name@,
            decreases i,
        {
            i = i - 1;
            if self.exports[i].0 == *name {
                proof {
                    lemma_export_map_found(entries, name@, i as int);
                }
                return Some(self.exports[i].1);
            }
        }
        proof {
            lemma_export_map_absent(entries, name@);
        }
        None
    }
}

/// If an entry at position `i` bears `name` and no later entry does, the
/// export mapping binds `name` to that entry's index.
proof fn lemma_export_map_found(entries: Seq<(Seq<char>, FuncIndex)>, name: Seq<char>, i: int)
    requires
        0 <= i < entries.len(),
        entries[i].0 == name,
        forall|j: int| i < j < entries.len() ==> entries[j].0 != name,
    ensures
        export_map(entries).contains_key(name),
        export_map(entries)[name] == entries[i].1,
    decreases entries.len(),
{
    if i == entries.len() - 1 {
    } else {
        lemma_export_map_found(entries.drop_last(), name, i);
    }
}

/// If no entry bears `name`, the export mapping has no binding for it.
proof fn lemma_export_map_absent(entries: Seq<(Seq<char>, FuncIndex)>, name: Seq<char>)
    requires
        forall|j: int| 0 <= j < entries.len() ==> entries[j].0 != name,
    ensures
        !export_map(entries).contains_key(name),
    decreases entries.len(),
{
    if entries.len() > 0 {
        lemma_export_map_absent(entries.drop_last(), name);
    }
}

/// The interface grammar, consumed read-only: the declared function names,
/// each with the signature the interface expects of it, in declaration
/// order. The checker walks the declarations in this order and reports the
/// first failure.
#[derive(Debug)]
pub struct InterfaceGrammar {
    pub entries: Vec<(String, FuncSignature)>,
}

impl View for InterfaceGrammar {
    type V = Seq<(Seq<char>, SigView)>;

    open spec fn view(&self) -> Seq<(Seq<char>, SigView)> {
        self.entries@.map_values(|e: (String, FuncSignature)| (e.0@, e.1@))
    }
}

impl InterfaceGrammar {
    /// A grammar declaring nothing.
    pub fn new() -> (g: InterfaceGrammar)
        ensures
            g@ == Seq::<(Seq<char>, SigView)>::empty(),
    {
        let g = InterfaceGrammar { entries: Vec::new() };
        proof {
            assert(g@ =~= Seq::<(Seq<char>, SigView)>::empty());
        }
        g
    }

    /// Declare one function: the grammar gains (name, signature) at the end.
    pub fn declare(&mut self, name: String, sig: FuncSignature)
        ensures
            final(self)@ == old(self)@.push((name@, sig@)),
    {
        let ghost gname = name@;
        let ghost gsig = sig@;
        self.entries.push((name, sig));
        proof {
            assert(self@ =~= old(self)@.push((gname, gsig)));
        }
    }
}

/// Element-wise equality of two value-type sequences.
pub fn valtypes_eq(a: &Vec<ValueType>, b: &Vec<ValueType>) -> (r: bool)
    ensures
        r == (a@ == b@),
{
    if a.len() != b.len() {
        return false;
    }
    let mut i: usize = 0;
    while i < a.len()
        invariant
            i <= a.len(),
            a@.len() == b@.len(),
            forall|j: int| 0 <= j < i ==> a@[j] == b@[j],
        decreases a.len() - i,
    {
        if a[i] != b[i] {
            return false;
        }
        i = i + 1;
    }
    proof {
        assert(a@ =~= b@);
    }
    true
}

/// An owned copy of a value-type sequence.
pub fn clone_valtypes(v: &Vec<ValueType>) -> (r: Vec<ValueType>)
    ensures
        r@ == v@,
{
    let mut out: Vec<ValueType> = Vec::new();
    let mut i: usize = 0;
    while i < v.len()
        invariant
            i <= v.len(),
            out@ =~= v@.subrange(0, i as int),
        decreases v.len() - i,
    {
        out.push(v[i]);
        i = i + 1;
    }
    proof {
        assert(out@ =~= v@);
    }
    out
}

impl Clone for FuncSignature {
    /// Cloning preserves both sequences.
    fn clone(&self) -> (r: Self)
        ensures
            r@ == self@,
    {
        FuncSignature { params: clone_valtypes(&self.params), returns: clone_valtypes(&self.returns) }
    }
}

impl PartialEq for FuncSignature {
    /// Signature equality is structural: both ordered sequences agree.
    fn eq(&self, other: &Self) -> (r: bool) {
        valtypes_eq(&self.params, &other.params) && valtypes_eq(&self.returns, &other.returns)
    }
}

impl vstd::std_specs::cmp::PartialEqSpecImpl for FuncSignature {
    open spec fn obeys_eq_spec() -> bool {
        true
    }

    open spec fn eq_spec(&self, other: &Self) -> bool {
        self@ == other@
    }
}

impl Eq for FuncSignature {}

} // verus!
