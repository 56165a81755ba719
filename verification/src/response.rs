use vstd::prelude::*;

use crate::errors::ResponseError;
use crate::json::spec_arr_first;
use crate::json::spec_obj_member;
use crate::json::spec_parse_string;
use crate::json::spec_parse_value;
use crate::json::spec_skip_ws;
use crate::json::MAX_NESTING_DEPTH;
use crate::json::arr_first;
use crate::json::obj_member;
use crate::json::parse_string_body;
use crate::json::parse_value;
use crate::json::skip_ws;
use crate::text::str_chars;
use crate::text::string_from_chars;

verus! {

/// The body is one well-formed document, nested no deeper than the bound,
/// with nothing but whitespace around it.
pub open spec fn spec_body_wf(s: Seq<char>) -> bool {
    match spec_parse_value(s, spec_skip_ws(s, 0), MAX_NESTING_DEPTH) {
        Some(e) => spec_skip_ws(s, e) == s.len(),
        None => false,
    }
}

/// The text at the content path choices[0].message.content, when the body
/// holds an object whose "choices" member is a non-empty array whose first
/// element carries a "message" object with a string "content" member.
pub open spec fn spec_content_path(s: Seq<char>) -> Option<Seq<char>> {
    let i = spec_skip_ws(s, 0);
    match spec_obj_member(s, i, "choices"@) {
        None => None,
        Some(a) => match spec_arr_first(s, a) {
            None => None,
            Some(e0) => match spec_obj_member(s, e0, "message"@) {
                None => None,
                Some(m) => match spec_obj_member(s, m, "content"@) {
                    None => None,
                    Some(cv) => if cv < s.len() && s[cv] == '"' {
                        match spec_parse_string(s, cv + 1) {
                            Some(p) => Some(p.0),
                            None => None,
                        }
                    } else {
                        None
                    },
                },
            },
        },
    }
}

/// Extracts the answer from the raw response body: a body that does not
/// parse fails with Parse and carries the raw body for diagnostics; a body
/// without a string at the content path fails with Shape; otherwise the
/// string at the path is the result.
pub fn extract_content(body: &String) -> (r: Result<String, ResponseError>)
    ensures
        !spec_body_wf(body@) ==> (r matches Err(e) && (e matches ResponseError::Parse(raw)
            && raw@ == body@)),
        spec_body_wf(body@) ==> match spec_content_path(body@) {
            Some(v) => r matches Ok(out) && out@ == v,
            None => r matches Err(e) && e is Shape,
        },
{
    let s = str_chars(body.as_str());
    let n = s.len();
    let start = skip_ws(&s, 0);
    let valid = match parse_value(&s, start, MAX_NESTING_DEPTH) {
        Some(e) => skip_ws(&s, e) == n,
        None => false,
    };
    if !valid {
        return Err(ResponseError::Parse(body.clone()));
    }
    let key_choices = str_chars("choices");
    let key_message = str_chars("message");
    let key_content = str_chars("content");
    let a = match obj_member(&s, start, &key_choices) {
        Some(a) => a,
        None => {
            return Err(ResponseError::Shape);
        },
    };
    let e0 = match arr_first(&s, a) {
        Some(e0) => e0,
        None => {
            return Err(ResponseError::Shape);
        },
    };
    let m = match obj_member(&s, e0, &key_message) {
        Some(m) => m,
        None => {
            return Err(ResponseError::Shape);
        },
    };
    let cv = match obj_member(&s, m, &key_content) {
        Some(cv) => cv,
        None => {
            return Err(ResponseError::Shape);
        },
    };
    if cv < n && s[cv] == '"' {
        match parse_string_body(&s, cv + 1) {
            Some(p) => Ok(string_from_chars(&p.0)),
            None => Err(ResponseError::Shape),
        }
    } else {
        Err(ResponseError::Shape)
    }
}

} // verus!
