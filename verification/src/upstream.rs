//! How the answers of substituters to narinfo and NAR requests are read.
use vstd::prelude::*;

use crate::http_api::{narinfo_suffix, NarStreamResult, STATUS_NOT_FOUND, STATUS_OK};
use crate::nar::NarInfoQueryOutcome;
use crate::nar_file_name::valid_nar_file_name;
use crate::nar_info_data::{rewritten_content, url_field_file, NarInfoData};
use crate::store_path_hash::StorePathHash;
use crate::text::{chars_of, is_ws, string_from_chars};
use crate::url::{dir_form, lemma_dir_form_valid, Url};

verus! {

/// HTTP 206.
pub const STATUS_PARTIAL_CONTENT: u16 = 206;

/// HTTP 403.
pub const STATUS_FORBIDDEN: u16 = 403;

/// Where a substituter serves the narinfo of a store path:
/// `<hash>.narinfo` under the substituter's URL taken as a directory.
pub fn nar_info_url(substituter: &Url, hash: &StorePathHash) -> (r: Url)
    ensures
        r@ == dir_form(substituter@) + hash@ + narinfo_suffix(),
{
    let mut name = chars_of(hash.value());
    name.push('.');
    name.push('n');
    name.push('a');
    name.push('r');
    name.push('i');
    name.push('n');
    name.push('f');
    name.push('o');
    let relative = string_from_chars(&name);
    let dir = substituter.as_dir();
    proof {
        assert forall|i: int| 0 <= i < relative@.len() implies !is_ws(#[trigger] relative@[i]) by {
            if i < hash@.len() {
            }
        }
        lemma_dir_form_valid(substituter@);
    }
    let url = dir.join(relative.as_str());
    proof {
        assert(dir_form(substituter@) + hash@ + narinfo_suffix() =~= dir_form(substituter@) + (hash@
            + narinfo_suffix()));
    }
    url.unwrap()
}

/// What a substituter's answer to a narinfo request means.
#[derive(Debug, Clone, Copy, PartialEq, Eq, Structural, Hash)]
pub enum NarInfoAnswer {
    /// 200: the body is the narinfo.
    Found,
    /// 404: the substituter does not have it.
    NotFound,
    /// Any other status: the request failed.
    Failed,
}

/// Reads the status of a narinfo answer: 200 is found, 404 is not found,
/// anything else is a failure.
pub fn classify_nar_info_answer(status: u16) -> (r: NarInfoAnswer)
    ensures
        status == STATUS_OK ==> r == NarInfoAnswer::Found,
        status == STATUS_NOT_FOUND ==> r == NarInfoAnswer::NotFound,
        status != STATUS_OK && status != STATUS_NOT_FOUND ==> r == NarInfoAnswer::Failed,
{
    if status == STATUS_OK {
        NarInfoAnswer::Found
    } else if status == STATUS_NOT_FOUND {
        NarInfoAnswer::NotFound
    } else {
        NarInfoAnswer::Failed
    }
}

/// The outcome of a narinfo that arrived after `latency` milliseconds: found
/// with the narinfo read from `body` (see [`NarInfoData::new`]), or `None`
/// when the body is not a usable narinfo.
pub fn found_nar_info(body: String, latency: u64) -> (r: Option<NarInfoQueryOutcome>)
    ensures
        r is Some <==> (url_field_file(body@) matches Some(f) && valid_nar_file_name(f)),
        r matches Some(o) ==> (o matches NarInfoQueryOutcome::Found { original_data, latency: l }
            && l == latency && original_data@ == (
            rewritten_content(body@, url_field_file(body@)->0),
            url_field_file(body@)->0,
        )),
{
    match NarInfoData::new(body) {
        Ok(data) => Some(NarInfoQueryOutcome::Found { original_data: data, latency }),
        Err(_) => None,
    }
}

/// What a substituter's answer to a NAR request means.
#[derive(Debug, Clone, Copy, PartialEq, Eq, Structural, Hash)]
pub enum NarAnswer {
    /// 200: stream the body to the client.
    Serve,
    /// 404 or 403: the substituter does not have the file.
    Missing,
    /// Any other status: this substituter is passed over.
    Unusable,
}

/// Reads the status of a NAR answer: 200 is served, 404 and 403 mean the
/// file is missing, anything else passes the substituter over.
pub fn classify_nar_answer(status: u16) -> (r: NarAnswer)
    ensures
        status == STATUS_OK ==> r == NarAnswer::Serve,
        status == STATUS_NOT_FOUND || status == STATUS_FORBIDDEN ==> r == NarAnswer::Missing,
        status != STATUS_OK && status != STATUS_NOT_FOUND && status != STATUS_FORBIDDEN ==> r
            == NarAnswer::Unusable,
{
    if status == STATUS_OK {
        NarAnswer::Serve
    } else if status == STATUS_NOT_FOUND || status == STATUS_FORBIDDEN {
        NarAnswer::Missing
    } else {
        NarAnswer::Unusable
    }
}

/// The result of asking `asked` locations for a NAR file when none served
/// it: not found when every one of them said the file is missing (also when
/// there was none to ask), a failure otherwise.
pub fn unserved_nar_result(missing: usize, asked: usize) -> (r: NarStreamResult)
    ensures
        missing == asked ==> r == NarStreamResult::NotFound,
        missing != asked ==> r == NarStreamResult::Failed,
{
    if missing == asked {
        NarStreamResult::NotFound
    } else {
        NarStreamResult::Failed
    }
}

/// Whether an answer to a byte-range request serves the range: only 206
/// does.
pub fn serves_range(status: u16) -> (r: bool)
    ensures
        r == (status == STATUS_PARTIAL_CONTENT),
{
    status == STATUS_PARTIAL_CONTENT
}

} // verus!
