//! The narrow trusted surface: wrappers whose contracts Verus believes
//! without reading the bodies. Each wrapper makes exactly one call into code
//! outside the verified library.

use vstd::prelude::*;

verus! {

/// The outcome of the external structural validator on a byte buffer: the
/// diagnostic message and offset of the first structural fault, or nothing
/// when the buffer is a well-formed module. The outcome is a function of
/// the bytes alone.
pub uninterp spec fn structure_error(bytes: Seq<u8>) -> Option<(Seq<char>, nat)>;

/// Relies on wasmparser's validator, run with the baseline feature set and
/// no extensions: it accepts or rejects deterministically on the bytes
/// alone, and on rejection reports a message and the byte offset at fault.
#[verifier::external_body]
pub(crate) fn check_structure(bytes: &[u8]) -> (r: Option<(String, usize)>)
    ensures
        r matches Some(fault) ==> structure_error(bytes@) == Some((fault.0@, fault.1 as nat)),
        r is None <==> structure_error(bytes@) is None,
{
    let mut validator = wasmparser::Validator::new_with_features(wasmparser::WasmFeatures::WASM1);
    match validator.validate_all(bytes) {
        Ok(_) => None,
        Err(e) => Some((e.message().to_string(), e.offset() as usize)),
    }
}

/// Relies on String::from_utf8: it succeeds exactly on valid UTF-8 input,
/// and then carries the decoding of those bytes.
#[verifier::external_body]
pub(crate) fn string_from_utf8(bytes: Vec<u8>) -> (r: Option<String>)
    ensures
        r matches Some(s) ==> vstd::utf8::valid_utf8(bytes@) && s@ == vstd::utf8::decode_utf8(
            bytes@,
        ),
        r is None <==> !vstd::utf8::valid_utf8(bytes@),
{
    String::from_utf8(bytes).ok()
}

/// Relies on std's format!: formatting string slices back to back
/// concatenates them.
#[verifier::external_body]
pub(crate) fn concat4(a: &str, b: &str, c: &str, d: &str) -> (r: String)
    ensures
        r@ == a@ + b@ + c@ + d@,
{
    format!("{}{}{}{}", a, b, c, d)
}

} // verus!
