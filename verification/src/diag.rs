//! The diagnostic catalogue: one spec-level message per way a section walk
//! can fail, and for each an executable constructor whose result is pinned
//! to that message and offset.

use vstd::prelude::*;

use crate::model::Error;
use crate::model::ErrView;

verus! {

pub open spec fn msg_bad_header() -> Seq<char> {
    "invalid module header"@
}

pub open spec fn msg_bad_integer() -> Seq<char> {
    "invalid integer encoding"@
}

pub open spec fn msg_truncated_section() -> Seq<char> {
    "truncated section"@
}

pub open spec fn msg_section_size() -> Seq<char> {
    "section size mismatch"@
}

pub open spec fn msg_eof_section() -> Seq<char> {
    "unexpected end of section"@
}

pub open spec fn msg_bad_valtype() -> Seq<char> {
    "invalid value type"@
}

pub open spec fn msg_truncated_name() -> Seq<char> {
    "truncated name"@
}

pub open spec fn msg_bad_name() -> Seq<char> {
    "invalid name encoding"@
}

pub open spec fn msg_bad_import_kind() -> Seq<char> {
    "invalid import kind"@
}

pub open spec fn msg_bad_export_kind() -> Seq<char> {
    "invalid export kind"@
}

pub open spec fn msg_type_entry() -> Seq<char> {
    "type section entry"@
}

pub open spec fn msg_func_index() -> Seq<char> {
    "function index out of range"@
}

pub open spec fn msg_type_index() -> Seq<char> {
    "type index out of range"@
}

pub(crate) fn bad_header_err() -> (e: Error)
    ensures
        e@ == ErrView::WasmValidation(msg_bad_header(), 0),
{
    Error::WasmValidation("invalid module header".to_owned(), 0)
}

pub(crate) fn bad_integer_err(off: usize) -> (e: Error)
    ensures
        e@ == ErrView::WasmValidation(msg_bad_integer(), off as int),
{
    Error::WasmValidation("invalid integer encoding".to_owned(), off)
}

pub(crate) fn truncated_section_err(off: usize) -> (e: Error)
    ensures
        e@ == ErrView::WasmValidation(msg_truncated_section(), off as int),
{
    Error::WasmValidation("truncated section".to_owned(), off)
}

pub(crate) fn section_size_err(off: usize) -> (e: Error)
    ensures
        e@ == ErrView::WasmValidation(msg_section_size(), off as int),
{
    Error::WasmValidation("section size mismatch".to_owned(), off)
}

pub(crate) fn eof_section_err(off: usize) -> (e: Error)
    ensures
        e@ == ErrView::WasmValidation(msg_eof_section(), off as int),
{
    Error::WasmValidation("unexpected end of section".to_owned(), off)
}

pub(crate) fn bad_valtype_err(off: usize) -> (e: Error)
    ensures
        e@ == ErrView::WasmValidation(msg_bad_valtype(), off as int),
{
    Error::WasmValidation("invalid value type".to_owned(), off)
}

pub(crate) fn truncated_name_err(off: usize) -> (e: Error)
    ensures
        e@ == ErrView::WasmValidation(msg_truncated_name(), off as int),
{
    Error::WasmValidation("truncated name".to_owned(), off)
}

pub(crate) fn bad_name_err(off: usize) -> (e: Error)
    ensures
        e@ == ErrView::WasmValidation(msg_bad_name(), off as int),
{
    Error::WasmValidation("invalid name encoding".to_owned(), off)
}

pub(crate) fn bad_import_kind_err(off: usize) -> (e: Error)
    ensures
        e@ == ErrView::WasmValidation(msg_bad_import_kind(), off as int),
{
    Error::WasmValidation("invalid import kind".to_owned(), off)
}

pub(crate) fn bad_export_kind_err(off: usize) -> (e: Error)
    ensures
        e@ == ErrView::WasmValidation(msg_bad_export_kind(), off as int),
{
    Error::WasmValidation("invalid export kind".to_owned(), off)
}

pub(crate) fn type_entry_err() -> (e: Error)
    ensures
        e@ == ErrView::Unsupported(msg_type_entry()),
{
    Error::Unsupported("type section entry".to_owned())
}

pub(crate) fn func_index_err() -> (e: Error)
    ensures
        e@ == ErrView::WasmValidation(msg_func_index(), 0),
{
    Error::WasmValidation("function index out of range".to_owned(), 0)
}

pub(crate) fn type_index_err() -> (e: Error)
    ensures
        e@ == ErrView::WasmValidation(msg_type_index(), 0),
{
    Error::WasmValidation("type index out of range".to_owned(), 0)
}

} // verus!
