use vstd::prelude::*;
use vstd::string::*;
use crate::json::{has_key, member_value, parse_doc, parse_json, value_of, Doc};
use crate::painless::{DocError, DocRole};
use crate::runner::is_success;

verus! {

/// How an administration request (create an index, store a script, index a
/// document) ended, when it did not succeed.
pub enum AdminError {
    /// The index to create is there already.
    IndexAlreadyExists,
    /// The cluster refused the request; the body of its answer.
    Failed(String),
}

/// The member `key` of the JSON object `text`, as the text of its value.
pub open spec fn member_of(text: Seq<char>, key: Seq<char>) -> Option<Seq<char>> {
    match parse_doc(text) {
        Some(d) => match d.members {
            Some(m) => if has_key(m, key) {
                Some(value_of(m, key))
            } else {
                None
            },
            None => None,
        },
        None => None,
    }
}

/// The body reports an index that exists already: its `error.type` is
/// `resource_already_exists_exception`.
pub open spec fn reports_existing_index(body: Seq<char>) -> bool {
    match member_of(body, "error"@) {
        Some(err) => member_of(err, "type"@) == Some("\"resource_already_exists_exception\""@),
        None => false,
    }
}

/// Parses `text` and looks up member `key`.
fn lookup(text: &String, key: &str) -> (r: Option<String>)
    ensures
        match member_of(text@, key@) {
            Some(v) => r matches Some(s) && s@ == v,
            None => r is None,
        },
{
    match parse_json(text.as_str()) {
        Some(d) => member_value(&d, &String::from_str(key)),
        None => None,
    }
}

/// What an administration request came to, from the status and body of the
/// cluster's answer.
pub fn reply_result(status: u16, body: &String) -> (r: Result<(), AdminError>)
    ensures
        if is_success(status) {
            r is Ok
        } else if reports_existing_index(body@) {
            r matches Err(AdminError::IndexAlreadyExists)
        } else {
            r matches Err(AdminError::Failed(m)) && m@ == body@
        },
{
    if 200 <= status && status < 300 {
        return Ok(());
    }
    let kind = match lookup(body, "error") {
        Some(err) => lookup(&err, "type"),
        None => None,
    };
    let known = String::from_str("\"resource_already_exists_exception\"");
    proof {
        reveal_strlit("\"resource_already_exists_exception\"");
    }
    match kind {
        Some(k) => {
            if k == known {
                Err(AdminError::IndexAlreadyExists)
            } else {
                Err(AdminError::Failed(body.clone()))
            }
        },
        None => Err(AdminError::Failed(body.clone())),
    }
}

/// Checks an index mapping before anything is sent: it must be a JSON object.
pub fn check_mapping(text: &String) -> (r: Result<Doc, DocError>)
    ensures
        match parse_doc(text@) {
            Some(d) => if d.members is Some {
                r matches Ok(m) && m@ == d && m.wf()
            } else {
                r matches Err(DocError::InvalidDocument(DocRole::Mapping))
            },
            None => r matches Err(DocError::InvalidDocument(DocRole::Mapping)),
        },
{
    match parse_json(text.as_str()) {
        Some(d) => {
            if d.members.is_some() {
                Ok(d)
            } else {
                Err(DocError::InvalidDocument(DocRole::Mapping))
            }
        },
        None => Err(DocError::InvalidDocument(DocRole::Mapping)),
    }
}

} // verus!
