//! What the exit status of a finished fetch means.
use vstd::prelude::*;

use crate::error::TranslateError;
use crate::response::{body_result, translation_from_body};
use crate::text::push_char;
use crate::url::{hex_char, hex_digit};
use vstd::utf8::{decode_utf8, valid_utf8};
use std::string::FromUtf8Error;

verus! {

/// The error of `String::from_utf8`, carried through without looking inside.
#[verifier::external_type_specification]
#[verifier::external_body]
pub struct ExFromUtf8Error(FromUtf8Error);

/// Relies on `String::from_utf8`: it succeeds exactly on valid UTF-8 and
/// then holds the characters that the bytes encode.
#[verifier::external_body]
fn utf8_string(bytes: Vec<u8>) -> (r: Result<String, FromUtf8Error>)
    ensures
        r is Ok <==> valid_utf8(bytes@),
        r matches Ok(s) ==> s@ == decode_utf8(bytes@),
{
    String::from_utf8(bytes)
}

/// The decimal digits of `n`, most significant first, without leading zeros.
pub open spec fn decimal(n: nat) -> Seq<char>
    decreases n,
{
    if n < 10 {
        seq![hex_char(n as u8)]
    } else {
        decimal(n / 10) + seq![hex_char((n % 10) as u8)]
    }
}

/// An integer written in decimal, with a leading `-` when negative.
pub open spec fn int_text(n: int) -> Seq<char> {
    if n < 0 {
        seq!['-'] + decimal((-n) as nat)
    } else {
        decimal(n as nat)
    }
}

/// An optional exit code as it is shown for debugging: `Some(<n>)` or `None`.
pub open spec fn code_text(code: Option<i32>) -> Seq<char> {
    match code {
        Some(c) => seq!['S', 'o', 'm', 'e', '('] + int_text(c as int) + seq![')'],
        None => seq!['N', 'o', 'n', 'e'],
    }
}

/// The message of a fetch that exited unsuccessfully with `code`.
pub open spec fn exit_message(code: Option<i32>) -> Seq<char> {
    "curl exited with: "@ + code_text(code)
}

fn push_decimal(out: &mut String, n: u32)
    ensures
        final(out)@ == old(out)@ + decimal(n as nat),
    decreases n,
{
    if n >= 10 {
        push_decimal(out, n / 10);
    }
    push_char(out, hex_digit((n % 10) as u8));
}

/// Judges the exit status of the fetch: success gives `Ok(())`, failure
/// gives `CommandFailed` with a message that shows the exit code.
pub fn check_exit(success: bool, code: Option<i32>) -> (r: Result<(), TranslateError>)
    ensures
        success ==> r is Ok,
        !success ==> r is Err && r->Err_0 is CommandFailed && r->Err_0->CommandFailed_0@
            == exit_message(code),
{
    if success {
        return Ok(());
    }
    let mut m = String::from_str("curl exited with: ");
    match code {
        Some(c) => {
            push_char(&mut m, 'S');
            push_char(&mut m, 'o');
            push_char(&mut m, 'm');
            push_char(&mut m, 'e');
            push_char(&mut m, '(');
            if c < 0 {
                push_char(&mut m, '-');
                push_decimal(&mut m, (0 - (c as i64)) as u32);
            } else {
                push_decimal(&mut m, c as u32);
            }
            push_char(&mut m, ')');
        },
        None => {
            push_char(&mut m, 'N');
            push_char(&mut m, 'o');
            push_char(&mut m, 'n');
            push_char(&mut m, 'e');
        },
    }
    assert(m@ =~= exit_message(code));
    Err(TranslateError::CommandFailed(m))
}

/// Decodes a response body: valid UTF-8 gives the text it encodes, any
/// other byte sequence gives `Utf8Error`.
pub fn decode_body(bytes: Vec<u8>) -> (r: Result<String, TranslateError>)
    ensures
        r is Ok <==> valid_utf8(bytes@),
        r matches Ok(s) ==> s@ == decode_utf8(bytes@),
        r matches Err(e) ==> e is Utf8Error,
{
    match utf8_string(bytes) {
        Ok(s) => Ok(s),
        Err(e) => Err(TranslateError::Utf8Error(e.to_string())),
    }
}

/// The outcome of a finished fetch, from its exit status and what it wrote:
/// an unsuccessful exit gives `CommandFailed`, output that is not UTF-8
/// gives `Utf8Error`, and a decoded body is interpreted for its translation.
pub fn fetch_result(success: bool, code: Option<i32>, output: Vec<u8>) -> (r: Result<
    String,
    TranslateError,
>)
    ensures
        !success ==> r is Err && r->Err_0 is CommandFailed && r->Err_0->CommandFailed_0@
            == exit_message(code),
        success && !valid_utf8(output@) ==> r is Err && r->Err_0 is Utf8Error,
        success && valid_utf8(output@) ==> body_result(decode_utf8(output@), r),
{
    match check_exit(success, code) {
        Err(e) => Err(e),
        Ok(()) => match decode_body(output) {
            Err(e) => Err(e),
            Ok(body) => translation_from_body(body.as_str()),
        },
    }
}

} // verus!
