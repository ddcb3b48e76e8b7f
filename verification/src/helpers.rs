//! Tool results and confirmation gates.
use vstd::prelude::*;
use crate::json::Json;

verus! {

/// What a tool returns to the MCP client: text, marked as an error or not.
pub struct ToolResult {
    pub is_error: bool,
    pub text: String,
}

pub fn ok(text: String) -> (r: ToolResult)
    ensures
        !r.is_error,
        r.text == text,
{
    ToolResult { is_error: false, text }
}

pub fn err_text(text: String) -> (r: ToolResult)
    ensures
        r.is_error,
        r.text == text,
{
    ToolResult { is_error: true, text }
}

/// An error result carrying the message of a failure.
pub fn err(e: String) -> (r: ToolResult)
    ensures
        r.is_error,
        r.text@ == e@,
{
    ToolResult { is_error: true, text: e }
}

/// Map an API result through a formatter.
pub fn map_fmt<F: FnOnce(&Json) -> String>(result: Result<Json, String>, fmt: F) -> (r: ToolResult)
    requires
        result matches Ok(v) ==> call_requires(fmt, (&v,)),
    ensures
        match result {
            Ok(v) => !r.is_error && call_ensures(fmt, (&v,), r.text),
            Err(e) => r.is_error && r.text@ == e@,
        },
{
    match result {
        Ok(v) => ok(fmt(&v)),
        Err(e) => err(e),
    }
}

/// Refuse unless `got == expected`.
pub fn require_confirm(got: &str, expected: &str, refuse_message: &str) -> (r: Result<(), ToolResult>)
    ensures
        r is Ok <==> got@ == expected@,
        r matches Err(e) ==> e.is_error && e.text@ == refuse_message@,
{
    if crate::text::str_equal(got, expected) {
        Ok(())
    } else {
        Err(err_text(String::from_str(refuse_message)))
    }
}

} // verus!
