use lucet_validate::Error;
use lucet_validate::FuncIndex;
use lucet_validate::FuncSignature;
use lucet_validate::InterfaceGrammar;
use lucet_validate::ValueType;
use lucet_validate::extract::extract_module;
use lucet_validate::validate;

fn header() -> Vec<u8> {
    vec![0x00, 0x61, 0x73, 0x6D, 0x01, 0x00, 0x00, 0x00]
}

fn section(id: u8, content: &[u8]) -> Vec<u8> {
    assert!(content.len() < 0x80);
    let mut out = vec![id, content.len() as u8];
    out.extend_from_slice(content);
    out
}

fn sig(params: Vec<ValueType>, returns: Vec<ValueType>) -> FuncSignature {
    FuncSignature { params, returns }
}

/// A module with one type (i32) -> (i32), one local function of that type,
/// exported as "double", with a matching code section.
fn double_module() -> Vec<u8> {
    let mut m = header();
    m.extend(section(1, &[0x01, 0x60, 0x01, 0x7F, 0x01, 0x7F]));
    m.extend(section(3, &[0x01, 0x00]));
    m.extend(section(
        7,
        &[0x01, 0x06, b'd', b'o', b'u', b'b', b'l', b'e', 0x00, 0x00],
    ));
    m.extend(section(10, &[0x01, 0x04, 0x00, 0x20, 0x00, 0x0B]));
    m
}

#[test]
fn scenario_matching_export_succeeds() {
    let mut g = InterfaceGrammar::new();
    g.declare(
        "double".to_string(),
        sig(vec![ValueType::I32], vec![ValueType::I32]),
    );
    assert!(validate(&g, &double_module()).is_ok());
}

#[test]
fn scenario_mismatched_signature_fails() {
    let mut g = InterfaceGrammar::new();
    g.declare(
        "double".to_string(),
        sig(vec![ValueType::I64], vec![ValueType::I32]),
    );
    match validate(&g, &double_module()) {
        Err(Error::SignatureMismatch(name, want, have)) => {
            assert_eq!(name, "double");
            assert_eq!(want.params, vec![ValueType::I64]);
            assert_eq!(want.returns, vec![ValueType::I32]);
            assert_eq!(have.params, vec![ValueType::I32]);
            assert_eq!(have.returns, vec![ValueType::I32]);
        }
        other => panic!("expected a signature mismatch, got {:?}", other.is_ok()),
    }
}

#[test]
fn missing_export_is_reported() {
    let mut g = InterfaceGrammar::new();
    g.declare("absent".to_string(), sig(vec![], vec![]));
    match validate(&g, &double_module()) {
        Err(Error::MissingExport(name)) => assert_eq!(name, "absent"),
        _ => panic!("expected a missing export"),
    }
}

/// A module importing a function env:abort of type () -> () and a memory
/// env:mem: the memory import is rejected, naming it, although the
/// function import beside it is valid.
#[test]
fn scenario_memory_import_rejected() {
    let mut m = header();
    m.extend(section(1, &[0x01, 0x60, 0x00, 0x00]));
    m.extend(section(
        2,
        &[
            0x02, // two imports
            0x03, b'e', b'n', b'v', 0x05, b'a', b'b', b'o', b'r', b't', 0x00, 0x00,
            0x03, b'e', b'n', b'v', 0x03, b'm', b'e', b'm', 0x02, 0x00, 0x01,
        ],
    ));
    let g = InterfaceGrammar::new();
    match validate(&g, &m) {
        Err(Error::Unsupported(what)) => assert_eq!(what, "memory import env:mem"),
        _ => panic!("expected an unsupported memory import"),
    }
}

#[test]
fn table_import_rejected() {
    let mut m = header();
    m.extend(section(1, &[0x01, 0x60, 0x00, 0x00]));
    m.extend(section(
        2,
        &[0x01, 0x03, b'e', b'n', b'v', 0x03, b't', b'b', b'l', 0x01, 0x70, 0x00, 0x01],
    ));
    match extract_module(&m) {
        Err(Error::Unsupported(what)) => assert_eq!(what, "table import env:tbl"),
        _ => panic!("expected an unsupported table import"),
    }
}

#[test]
fn global_import_rejected() {
    let mut m = header();
    m.extend(section(1, &[0x01, 0x60, 0x00, 0x00]));
    m.extend(section(
        2,
        &[0x01, 0x03, b'e', b'n', b'v', 0x01, b'g', 0x03, 0x7F, 0x00],
    ));
    match extract_module(&m) {
        Err(Error::Unsupported(what)) => assert_eq!(what, "global import env:g"),
        _ => panic!("expected an unsupported global import"),
    }
}

/// A type section entry that is not a function form is unsupported, before
/// any import, export or function section is examined.
#[test]
fn scenario_nonfunction_type_entry_rejected() {
    let mut m = header();
    m.extend(section(1, &[0x01, 0x5F, 0x00]));
    m.extend(section(3, &[0x01, 0x00]));
    match extract_module(&m) {
        Err(Error::Unsupported(what)) => assert_eq!(what, "type section entry"),
        _ => panic!("expected an unsupported type entry"),
    }
}

/// Structural gate precedence: bytes that are no module at all never reach
/// extraction and come back as the wrapped structural error.
#[test]
fn garbage_fails_structurally() {
    let g = InterfaceGrammar::new();
    match validate(&g, &[0x01, 0x02, 0x03]) {
        Err(Error::WasmValidation(_, _)) => {}
        _ => panic!("expected a structural error"),
    }
}

#[test]
fn empty_module_passes_empty_grammar() {
    let g = InterfaceGrammar::new();
    assert!(validate(&g, &header()).is_ok());
}

/// Index assignment order: two imported functions take indices 0 and 1 in
/// import order, two local functions take 2 and 3 in declaration order.
#[test]
fn function_indices_imports_then_locals() {
    let mut m = header();
    m.extend(section(
        1,
        &[0x02, 0x60, 0x00, 0x00, 0x60, 0x01, 0x7F, 0x01, 0x7F],
    ));
    m.extend(section(
        2,
        &[
            0x02,
            0x03, b'e', b'n', b'v', 0x02, b'f', b'0', 0x00, 0x00,
            0x03, b'e', b'n', b'v', 0x02, b'f', b'1', 0x00, 0x01,
        ],
    ));
    m.extend(section(3, &[0x02, 0x00, 0x01]));
    m.extend(section(
        10,
        &[0x02, 0x02, 0x00, 0x0B, 0x04, 0x00, 0x20, 0x00, 0x0B],
    ));
    let g = InterfaceGrammar::new();
    assert!(validate(&g, &m).is_ok());
    let model = extract_module(&m).unwrap();
    assert_eq!(model.funcs.len(), 4);
    assert_eq!(model.types.len(), 2);
    let origins: Vec<Option<(String, String)>> =
        model.funcs.iter().map(|f| f.import.clone()).collect();
    assert_eq!(
        origins[0],
        Some(("env".to_string(), "f0".to_string()))
    );
    assert_eq!(
        origins[1],
        Some(("env".to_string(), "f1".to_string()))
    );
    assert_eq!(origins[2], None);
    assert_eq!(origins[3], None);
    assert_eq!(model.funcs[0].ty.0, 0);
    assert_eq!(model.funcs[1].ty.0, 1);
    assert_eq!(model.funcs[2].ty.0, 0);
    assert_eq!(model.funcs[3].ty.0, 1);
}

/// Export overwrite: of two function exports sharing a name, the later one
/// wins.
#[test]
fn later_export_of_same_name_wins() {
    let mut m = header();
    m.extend(section(
        7,
        &[0x02, 0x01, b'f', 0x00, 0x00, 0x01, b'f', 0x00, 0x01],
    ));
    let model = extract_module(&m).unwrap();
    assert_eq!(
        model.lookup_export(&"f".to_string()),
        Some(FuncIndex(1))
    );
}

/// A non-function export is inert: a module exporting only a memory has an
/// empty export table and is not itself an error.
#[test]
fn scenario_memory_export_is_inert() {
    let mut m = header();
    m.extend(section(5, &[0x01, 0x00, 0x01]));
    m.extend(section(7, &[0x01, 0x03, b'm', b'e', b'm', 0x02, 0x00]));
    let g = InterfaceGrammar::new();
    assert!(validate(&g, &m).is_ok());
    let model = extract_module(&m).unwrap();
    assert_eq!(model.exports.len(), 0);
    assert_eq!(model.lookup_export(&"mem".to_string()), None);
}

/// Signature equality is structural: independently constructed equal
/// sequences compare equal; a differing type, order or arity does not.
#[test]
fn signature_equality_is_structural() {
    let a = sig(vec![ValueType::I32, ValueType::F64], vec![ValueType::I64]);
    let b = sig(vec![ValueType::I32, ValueType::F64], vec![ValueType::I64]);
    assert_eq!(a, b);
    let reordered = sig(vec![ValueType::F64, ValueType::I32], vec![ValueType::I64]);
    assert_ne!(a, reordered);
    let shorter = sig(vec![ValueType::I32], vec![ValueType::I64]);
    assert_ne!(a, shorter);
    let other_return = sig(vec![ValueType::I32, ValueType::F64], vec![ValueType::F32]);
    assert_ne!(a, other_return);
}

/// A non-minimal LEB128 section size decodes to the same value.
#[test]
fn nonminimal_leb_size_accepted() {
    let mut m = header();
    m.push(7);
    m.extend_from_slice(&[0x89, 0x00]); // 9, in two bytes
    m.extend_from_slice(&[0x02, 0x01, b'f', 0x00, 0x00, 0x01, b'f', 0x00, 0x01]);
    let model = extract_module(&m).unwrap();
    assert_eq!(model.lookup_export(&"f".to_string()), Some(FuncIndex(1)));
}

#[test]
fn truncated_section_reported() {
    let mut m = header();
    m.extend_from_slice(&[0x01, 0x7F]);
    match extract_module(&m) {
        Err(Error::WasmValidation(msg, off)) => {
            assert_eq!(msg, "truncated section");
            assert_eq!(off, 8);
        }
        _ => panic!("expected a truncated section"),
    }
}

#[test]
fn overlong_integer_reported() {
    let mut m = header();
    m.extend_from_slice(&[0x01, 0x80, 0x80, 0x80, 0x80, 0x80]);
    match extract_module(&m) {
        Err(Error::WasmValidation(msg, off)) => {
            assert_eq!(msg, "invalid integer encoding");
            assert_eq!(off, 9);
        }
        _ => panic!("expected a bad integer"),
    }
}

#[test]
fn section_size_mismatch_reported() {
    let mut m = header();
    m.extend(section(1, &[0x01, 0x60, 0x00, 0x00, 0xAA, 0xBB, 0xCC]));
    match extract_module(&m) {
        Err(Error::WasmValidation(msg, off)) => {
            assert_eq!(msg, "section size mismatch");
            assert_eq!(off, 14);
        }
        _ => panic!("expected a section size mismatch"),
    }
}

#[test]
fn bad_header_reported() {
    match extract_module(&[0x00, 0x61, 0x73, 0x6D, 0x02, 0x00, 0x00, 0x00]) {
        Err(Error::WasmValidation(msg, off)) => {
            assert_eq!(msg, "invalid module header");
            assert_eq!(off, 0);
        }
        _ => panic!("expected a header error"),
    }
}

/// A non-ASCII export name survives decoding intact.
#[test]
fn unicode_export_name_decoded() {
    let mut m = header();
    // one export: name "dúo" (4 bytes of UTF-8), function kind, index 0
    m.extend(section(
        7,
        &[0x01, 0x04, 0x64, 0xC3, 0xBA, 0x6F, 0x00, 0x00],
    ));
    let model = extract_module(&m).unwrap();
    assert_eq!(
        model.lookup_export(&"d\u{fa}o".to_string()),
        Some(FuncIndex(0))
    );
}

#[test]
fn invalid_utf8_name_reported() {
    let mut m = header();
    m.extend(section(7, &[0x01, 0x01, 0xFF, 0x00, 0x00]));
    match extract_module(&m) {
        Err(Error::WasmValidation(msg, off)) => {
            assert_eq!(msg, "invalid name encoding");
            assert_eq!(off, 11);
        }
        _ => panic!("expected a name encoding error"),
    }
}

/// Exports the grammar does not declare are permitted.
#[test]
fn extra_exports_are_permitted() {
    let g = InterfaceGrammar::new();
    assert!(validate(&g, &double_module()).is_ok());
}

/// Unknown section kinds are ignored entirely: a custom section does not
/// disturb the model.
#[test]
fn custom_section_ignored() {
    let mut m = header();
    m.extend(section(0, &[0x04, b'n', b'a', b'm', b'e', 0xDE, 0xAD]));
    m.extend(section(
        7,
        &[0x01, 0x01, b'f', 0x00, 0x00],
    ));
    let model = extract_module(&m).unwrap();
    assert_eq!(model.lookup_export(&"f".to_string()), Some(FuncIndex(0)));
}
