//! The operating system's I/O error as a part of the errors of this library.
use vstd::prelude::*;

use crate::text::{joined, sentence};

verus! {

/// `std::io::Error`, carried unopened through the library's errors. Nothing is
/// claimed of what is inside.
#[verifier::external_type_specification]
#[verifier::external_body]
pub struct ExIoError(std::io::Error);

/// Compares the results of `std::io::Error::kind` on two errors. Nothing is
/// claimed of the answer: the kind of an error is a fact of the machine that
/// reported it.
#[verifier::external_body]
pub(crate) fn same_io_error_kind(left: &std::io::Error, right: &std::io::Error) -> (same: bool) {
    left.kind() == right.kind()
}

/// Reads the operating system's error number by `std::io::Error::raw_os_error`.
/// Nothing is claimed of it: the number is a fact of the machine that reported it.
#[verifier::external_body]
pub(crate) fn io_error_os_code(error: &std::io::Error) -> (code: Option<i32>) {
    error.raw_os_error()
}

/// Renders an error by its `Display`. Nothing is claimed of the words: they come
/// from the operating system.
#[verifier::external_body]
pub(crate) fn io_error_text(error: &std::io::Error) -> (text: String) {
    format!("{}", error)
}

/// Whether two reports of the operating system are the same: of one kind, and with
/// the same error number where there is one.
pub fn same_io_report(same_kind: bool, left_code: Option<i32>, right_code: Option<i32>) -> (same:
    bool)
    ensures
        same == (same_kind && left_code == right_code),
{
    if !same_kind {
        return false;
    }
    match (left_code, right_code) {
        (None, None) => true,
        (Some(left_code), Some(right_code)) => left_code == right_code,
        (None, Some(_)) | (Some(_), None) => false,
    }
}

/// Whether two errors are of the same kind and carry the same error number.
pub(crate) fn same_io_error(left: &std::io::Error, right: &std::io::Error) -> (same: bool) {
    same_io_report(
        same_io_error_kind(left, right),
        io_error_os_code(left),
        io_error_os_code(right),
    )
}

/// A sentence on the failure of `stage`, which the operating system describes by
/// `words`.
pub fn failure_message(stage: &String, words: &String) -> (message: String)
    ensures
        message@ == stage@ + " failed: "@ + words@,
{
    let start: String = joined(stage.as_str(), &sentence(" failed: "));
    joined(start.as_str(), words)
}

} // verus!
