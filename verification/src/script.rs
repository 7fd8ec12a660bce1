//! Reading what a script left behind.
//!
//! A script that ran to a good end answers on its standard output, in
//! UTF-8; the white space around the answer is not part of it. A script
//! that failed explains itself on its standard error, which is taken byte
//! by byte.

use crate::selector::{answer_view, Answer, ExtractionError, ExtractionErrorView, Reading};
use std::string::FromUtf8Error;
use vstd::prelude::*;
use vstd::utf8::{decode_utf8, valid_utf8};

verus! {

/// `std::string::FromUtf8Error`, the error of `String::from_utf8`.
#[verifier::external_type_specification]
#[verifier::external_body]
pub struct ExFromUtf8Error(FromUtf8Error);

/// What `str::trim` leaves of a text: the text without the white space at
/// its two ends.
pub uninterp spec fn trimmed(text: Seq<char>) -> Seq<char>;

/// `str::trim`. Nothing is claimed of which characters count as white
/// space: the result has a name, `trimmed`.
#[verifier::external_body]
fn trim(text: &str) -> (inner: &str)
    ensures
        inner@ == trimmed(text@),
{
    text.trim()
}

/// `String::from_utf8`: the bytes as a string where they are UTF-8, an
/// error where they are not.
#[verifier::external_body]
fn string_from_utf8(bytes: Vec<u8>) -> (decoded: Result<String, FromUtf8Error>)
    ensures
        decoded is Ok <==> valid_utf8(bytes@),
        decoded matches Ok(text) ==> text@ == decode_utf8(bytes@),
{
    String::from_utf8(bytes)
}

/// `String::push`: the character is put at the end.
#[verifier::external_body]
fn push_char(text: &mut String, c: char)
    ensures
        final(text)@ == old(text)@.push(c),
{
    text.push(c)
}

/// Each byte as the character of that number.
pub open spec fn byte_chars(bytes: Seq<u8>) -> Seq<char> {
    Seq::new(bytes.len(), |i: int| bytes[i] as char)
}

/// What a script answered.
pub open spec fn script_answer(succeeded: bool, stdout: Seq<u8>, stderr: Seq<u8>) -> Answer {
    if !succeeded {
        Err(ExtractionErrorView::ScriptExecution(byte_chars(stderr)))
    } else if valid_utf8(stdout) {
        Ok(trimmed(decode_utf8(stdout)))
    } else {
        Err(ExtractionErrorView::Decode)
    }
}

/// The bytes, each as the character of that number.
pub fn decode_bytes(bytes: &Vec<u8>) -> (text: String)
    ensures
        text@ == byte_chars(bytes@),
{
    let mut text = String::new();
    let mut at: usize = 0;
    while at < bytes.len()
        invariant
            at <= bytes.len(),
            text@ == byte_chars(bytes@.take(at as int)),
        decreases bytes.len() - at,
    {
        push_char(&mut text, bytes[at] as char);
        at = at + 1;
        assert(text@ =~= byte_chars(bytes@.take(at as int)));
    }
    assert(bytes@.take(at as int) =~= bytes@);
    text
}

/// Turns what a script left behind into the answer of a method.
///
/// `succeeded` tells whether the script ended with status zero. If it did,
/// the answer is its standard output without the white space around it, or
/// `Decode` where the output is not UTF-8. If it did not, the answer is
/// `ScriptExecution` with its standard error.
pub fn script_reading(succeeded: bool, stdout: Vec<u8>, stderr: Vec<u8>) -> (reading: Reading)
    ensures
        answer_view(reading) == script_answer(succeeded, stdout@, stderr@),
{
    if succeeded {
        match string_from_utf8(stdout) {
            Ok(content) => Ok(trim(content.as_str()).to_owned()),
            Err(_) => Err(ExtractionError::Decode),
        }
    } else {
        Err(ExtractionError::ScriptExecution(decode_bytes(&stderr)))
    }
}

} // verus!
