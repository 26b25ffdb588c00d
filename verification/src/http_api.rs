//! What the HTTP endpoints of the proxy answer: which request paths they
//! accept, which status each outcome gets, and the bodies and headers they
//! build.
use vstd::prelude::*;

use crate::nar::ResolveNarInfoError;
use crate::nar_file_name::{valid_nar_file_name, NarFileName};
use crate::store_path_hash::{valid_store_path_hash, StorePathHash};
use crate::substituter::{Priority, SubstituterMeta};
use crate::text::{chars_of, decimal, has_suffix, push_decimal, string_from_chars, vec_append, vec_slice};

verus! {

/// The characters of `".narinfo"`.
pub open spec fn narinfo_suffix() -> Seq<char> {
    seq!['.', 'n', 'a', 'r', 'i', 'n', 'f', 'o']
}

/// HTTP 200.
pub const STATUS_OK: u16 = 200;

/// HTTP 400.
pub const STATUS_BAD_REQUEST: u16 = 400;

/// HTTP 404.
pub const STATUS_NOT_FOUND: u16 = 404;

/// HTTP 502.
pub const STATUS_BAD_GATEWAY: u16 = 502;

/// Why a request path does not name a narinfo.
#[derive(Debug, Clone, Copy, PartialEq, Eq, Structural, Hash)]
pub enum NarInfoPathError {
    /// The path does not end with `.narinfo`: answered 404.
    NotNarInfo,
    /// The part before `.narinfo` is not a store path hash: answered 400.
    InvalidHash,
}

/// The store path hash a `<hash>.narinfo` request names.
pub fn parse_nar_info_path(filename: &str) -> (r: Result<StorePathHash, NarInfoPathError>)
    ensures
        !has_suffix(filename@, narinfo_suffix()) ==> r == Err::<StorePathHash, _>(
            NarInfoPathError::NotNarInfo,
        ),
        has_suffix(filename@, narinfo_suffix()) ==> {
            let hash = filename@.take(filename@.len() - 8);
            &&& valid_store_path_hash(hash) ==> (r matches Ok(h) && h@ == hash)
            &&& !valid_store_path_hash(hash) ==> r == Err::<StorePathHash, _>(
                NarInfoPathError::InvalidHash,
            )
        },
{
    let v = chars_of(filename);
    let suffix = vec!['.', 'n', 'a', 'r', 'i', 'n', 'f', 'o'];
    if v.len() < suffix.len() {
        return Err(NarInfoPathError::NotNarInfo);
    }
    let start = v.len() - suffix.len();
    let mut i: usize = 0;
    while i < suffix.len()
        invariant
            v@ == filename@,
            suffix@ == narinfo_suffix(),
            start == v.len() - 8,
            i <= 8,
            forall|k: int| 0 <= k < i ==> v@[start + k] == suffix@[k],
        decreases 8 - i,
    {
        if v[start + i] != suffix[i] {
            return Err(NarInfoPathError::NotNarInfo);
        }
        i = i + 1;
    }
    assert(v@.skip(start as int) =~= narinfo_suffix());
    let hash = vec_slice(&v, 0, start);
    match StorePathHash::from_chars(&hash) {
        Ok(h) => Ok(h),
        Err(_) => Err(NarInfoPathError::InvalidHash),
    }
}

/// The status of a narinfo request that failed: 404 when no substituter
/// has it, 502 when it could not be fetched.
pub fn nar_info_error_status(err: ResolveNarInfoError) -> (r: u16)
    ensures
        err == ResolveNarInfoError::NotFound ==> r == STATUS_NOT_FOUND,
        err == ResolveNarInfoError::Fetch ==> r == STATUS_BAD_GATEWAY,
{
    match err {
        ResolveNarInfoError::NotFound => STATUS_NOT_FOUND,
        ResolveNarInfoError::Fetch => STATUS_BAD_GATEWAY,
    }
}

/// What became of a NAR request, for its status.
#[derive(Debug, Clone, Copy, PartialEq, Eq, Structural, Hash)]
pub enum NarStreamResult {
    /// A substituter streams the file.
    Found,
    /// No substituter has it.
    NotFound,
    /// It could not be fetched.
    Failed,
}

/// The NAR file a `/nar/<file>` request names, or `None` (answered 400).
pub fn parse_nar_path(path: String) -> (r: Option<NarFileName>)
    ensures
        r matches Some(n) ==> n@ == path@,
        r is Some <==> valid_nar_file_name(path@),
{
    match NarFileName::new(path) {
        Ok(n) => Some(n),
        Err(_) => None,
    }
}

/// The status of a NAR request: 200 while streaming, 404 when no substituter
/// has it, 502 when it could not be fetched.
pub fn nar_stream_status(result: NarStreamResult) -> (r: u16)
    ensures
        result == NarStreamResult::Found ==> r == STATUS_OK,
        result == NarStreamResult::NotFound ==> r == STATUS_NOT_FOUND,
        result == NarStreamResult::Failed ==> r == STATUS_BAD_GATEWAY,
{
    match result {
        NarStreamResult::Found => STATUS_OK,
        NarStreamResult::NotFound => STATUS_NOT_FOUND,
        NarStreamResult::Failed => STATUS_BAD_GATEWAY,
    }
}

/// The characters of `"application/x-nix-nar"`.
pub open spec fn nar_content_type() -> Seq<char> {
    seq![
        'a', 'p', 'p', 'l', 'i', 'c', 'a', 't', 'i', 'o', 'n', '/', 'x', '-', 'n', 'i', 'x', '-',
        'n', 'a', 'r',
    ]
}

/// The body of the answer that lists the substituters requests may go to.
#[derive(Debug, PartialEq, Eq, Hash)]
pub struct AvailableSubstitutersResponse {
    pub substituters: Vec<SubstituterMeta>,
}

/// Headers passed on from the substituter that serves a NAR file.
#[derive(Debug, PartialEq, Eq, Hash)]
pub struct NarStreamHeaders {
    pub content_length: Option<u64>,
    pub content_type: Option<String>,
    pub content_encoding: Option<String>,
}

/// The `Content-Type` of a streamed NAR: the substituter's, or
/// `application/x-nix-nar` when it sent none.
pub fn response_content_type(headers: &NarStreamHeaders) -> (r: String)
    ensures
        match headers.content_type {
            Some(t) => r@ == t@,
            None => r@ == nar_content_type(),
        },
{
    match &headers.content_type {
        Some(t) => t.clone(),
        None => {
            let v = vec![
                'a', 'p', 'p', 'l', 'i', 'c', 'a', 't', 'i', 'o', 'n', '/', 'x', '-', 'n', 'i', 'x',
                '-', 'n', 'a', 'r',
            ];
            string_from_chars(&v)
        },
    }
}

/// The body of `/nix-cache-info`:
/// `StoreDir: <dir>\nWantMassQuery: <0|1>\nPriority: <priority>\n`.
pub open spec fn nix_cache_info_spec(store_dir: Seq<char>, want_mass_query: bool, priority: u32) -> Seq<
    char,
> {
    seq!['S', 't', 'o', 'r', 'e', 'D', 'i', 'r', ':', ' '] + store_dir + seq![
        '\n',
        'W',
        'a',
        'n',
        't',
        'M',
        'a',
        's',
        's',
        'Q',
        'u',
        'e',
        'r',
        'y',
        ':',
        ' ',
        if want_mass_query {
            '1'
        } else {
            '0'
        },
        '\n',
    ] + seq!['P', 'r', 'i', 'o', 'r', 'i', 't', 'y', ':', ' '] + decimal(priority as nat) + seq![
        '\n',
    ]
}

/// The body of `/nix-cache-info` (see [`nix_cache_info_spec`]).
pub fn nix_cache_info_body(store_dir: &str, want_mass_query: bool, priority: Priority) -> (r: String)
    ensures
        r@ == nix_cache_info_spec(store_dir@, want_mass_query, priority@),
{
    let mut out = vec!['S', 't', 'o', 'r', 'e', 'D', 'i', 'r', ':', ' '];
    let dir = chars_of(store_dir);
    vec_append(&mut out, &dir);
    let middle = vec![
        '\n',
        'W',
        'a',
        'n',
        't',
        'M',
        'a',
        's',
        's',
        'Q',
        'u',
        'e',
        'r',
        'y',
        ':',
        ' ',
        if want_mass_query {
            '1'
        } else {
            '0'
        },
        '\n',
        'P',
        'r',
        'i',
        'o',
        'r',
        'i',
        't',
        'y',
        ':',
        ' ',
    ];
    vec_append(&mut out, &middle);
    push_decimal(&mut out, priority.value() as u64);
    out.push('\n');
    string_from_chars(&out)
}

} // verus!
