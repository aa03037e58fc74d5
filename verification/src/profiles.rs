//! Reusable chat profiles: the rules for their names, descriptions and prompts.
use vstd::prelude::*;

use crate::error::{MooseError, Result};
use crate::text::{
    any_ctrl, any_invalid_text_char, chars_of, has_ctrl, has_invalid_text_char,
    string_from_range, trim, trim_bounds, utf8_len, utf8_len_at_most,
};

verus! {

pub const GENERAL_PROFILE_ID: &'static str = "builtin-general";

pub const MAX_PROFILE_NAME_LENGTH: usize = 48;

pub const MAX_PROFILE_DESCRIPTION_LENGTH: usize = 160;

pub const MAX_SYSTEM_PROMPT_LENGTH: usize = 12000;

/// The trimmed text fits in `max_length` bytes, has no control character, and
/// is non-empty unless empty text is allowed.
pub open spec fn text_ok(s: Seq<char>, max_length: nat, allow_empty: bool) -> bool {
    let t = trim(s);
    (allow_empty || t.len() > 0) && utf8_len(t) <= max_length && !has_ctrl(t)
}

/// A system prompt is the trimmed text: at most 12000 bytes, and free of control
/// characters other than newline, carriage return and tab. It may be empty.
pub open spec fn system_prompt_ok(s: Seq<char>) -> bool {
    let t = trim(s);
    utf8_len(t) <= 12000 && !has_invalid_text_char(t)
}

/// The trimmed text when it is acceptable.
pub fn validate_text(value: &str, max_length: usize, allow_empty: bool) -> (r: Option<String>)
    ensures
        r is Some <==> text_ok(value@, max_length as nat, allow_empty),
        r matches Some(s) ==> s@ == trim(value@),
{
    let v = chars_of(value);
    let (a, b) = trim_bounds(v.as_slice());
    let t = string_from_range(v.as_slice(), a, b);
    let tv = chars_of(t.as_str());
    if (!allow_empty && tv.len() == 0) || !utf8_len_at_most(tv.as_slice(), max_length) || any_ctrl(
        tv.as_slice(),
    ) {
        return None;
    }
    Some(t)
}

pub fn validate_profile_name(value: &str) -> (r: Result<String>)
    ensures
        r is Ok <==> text_ok(value@, 48, false),
        r matches Ok(s) ==> s@ == trim(value@),
        r matches Err(e) ==> e == MooseError::InvalidProfileName,
{
    match validate_text(value, MAX_PROFILE_NAME_LENGTH, false) {
        Some(s) => Ok(s),
        None => Err(MooseError::InvalidProfileName),
    }
}

pub fn validate_profile_description(value: &str) -> (r: Result<String>)
    ensures
        r is Ok <==> text_ok(value@, 160, false),
        r matches Ok(s) ==> s@ == trim(value@),
        r matches Err(e) ==> e == MooseError::InvalidProfileDescription,
{
    match validate_text(value, MAX_PROFILE_DESCRIPTION_LENGTH, false) {
        Some(s) => Ok(s),
        None => Err(MooseError::InvalidProfileDescription),
    }
}

pub fn validate_system_prompt(value: &str) -> (r: Result<String>)
    ensures
        r is Ok <==> system_prompt_ok(value@),
        r matches Ok(s) ==> s@ == trim(value@),
        r matches Err(e) ==> e == MooseError::InvalidSystemPrompt,
{
    let v = chars_of(value);
    let (a, b) = trim_bounds(v.as_slice());
    let t = string_from_range(v.as_slice(), a, b);
    let tv = chars_of(t.as_str());
    if !utf8_len_at_most(tv.as_slice(), MAX_SYSTEM_PROMPT_LENGTH) || any_invalid_text_char(
        tv.as_slice(),
    ) {
        return Err(MooseError::InvalidSystemPrompt);
    }
    Ok(t)
}

} // verus!
