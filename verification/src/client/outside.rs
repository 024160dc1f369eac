//! The calls this library makes into `reqwest`, `serde_json` and
//! `parse_link_header`. Each item here is trusted: Verus takes its contract
//! as given.

use vstd::prelude::*;

verus! {

/// `reqwest::Client`, the HTTP client a `RestClient` sends its requests with.
/// Verus sees nothing inside it; the library only carries it.
#[verifier::external_type_specification]
#[verifier::external_body]
pub struct ExHttpClient(reqwest::Client);

/// Calls `reqwest::Client::builder().build()`, mapping an error to `None`.
/// `reqwest` documents that building fails when no TLS backend can be set up
/// or the system resolver configuration cannot be loaded; nothing is stated of
/// when that happens, nor of the client built.
#[verifier::external_body]
pub(crate) fn build_http_client() -> Option<reqwest::Client> {
    match reqwest::Client::builder().build() {
        Ok(client) => Some(client),
        Err(_) => None,
    }
}

/// Calls `<reqwest::Client as Clone>::clone`: a handle to the same
/// connection pool. Nothing is stated of the handle.
#[verifier::external_body]
pub(crate) fn clone_http_client(client: &reqwest::Client) -> reqwest::Client {
    client.clone()
}

/// What `serde_json` reads from `text` as the string member `key` of a JSON
/// object: `Some(s)` when `text` parses as one JSON value, that value is an
/// object, and its member `key` is the string `s`; `None` otherwise.
pub uninterp spec fn spec_json_str_field(text: Seq<char>, key: Seq<char>) -> Option<Seq<char>>;

/// Parses `text` with `serde_json::from_str::<serde_json::Value>`, looks `key`
/// up with `Value::get` and reads the member with `Value::as_str`. The
/// contract only names the result: it is `spec_json_str_field` of the text and
/// the key.
#[verifier::external_body]
pub(crate) fn json_str_field(text: &str, key: &str) -> (r: Option<String>)
    ensures
        match r {
            Some(s) => spec_json_str_field(text@, key@) == Some(s@),
            None => spec_json_str_field(text@, key@) is None,
        },
{
    match serde_json::from_str::<serde_json::Value>(text) {
        Ok(value) => match value.get(key) {
            Some(member) => member.as_str().map(str::to_owned),
            None => None,
        },
        Err(_) => None,
    }
}

/// The raw URI that `parse_link_header::parse_with_rel` gives for the relation
/// `rel` in the HTTP `Link` header `header` (the last such link, as the parser
/// keeps one link per relation); `None` when the header does not parse or has
/// no link with that relation.
pub uninterp spec fn spec_rel_link_uri(header: Seq<char>, rel: Seq<char>) -> Option<Seq<char>>;

/// Parses `header` with `parse_link_header::parse_with_rel` and takes the
/// `raw_uri` of the link whose `rel` is `rel`. The contract only names the
/// result: it is `spec_rel_link_uri` of the header and the relation.
#[verifier::external_body]
pub(crate) fn rel_link_uri(header: &str, rel: &str) -> (r: Option<String>)
    ensures
        match r {
            Some(s) => spec_rel_link_uri(header@, rel@) == Some(s@),
            None => spec_rel_link_uri(header@, rel@) is None,
        },
{
    match parse_link_header::parse_with_rel(header) {
        Ok(mut links) => links.remove(rel).map(|link| link.raw_uri),
        Err(_) => None,
    }
}

} // verus!
