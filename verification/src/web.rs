//! Addresses: what of a text is an address, and what its parts are.

use vstd::prelude::*;

use crate::text::{has_prefix, opt_text, same_text, starts_with};

verus! {

/// The scheme of an address and its host, if it has one. None where the text is no address.
pub uninterp spec fn parsed_url(text: Seq<char>) -> Option<(Seq<char>, Option<Seq<char>>)>;

/// The address that `rel` names when it is met at the address `base`.
pub uninterp spec fn joined_url(base: Seq<char>, rel: Seq<char>) -> Option<Seq<char>>;

/// The parts of an address.
#[derive(Debug)]
pub struct Address {
    pub scheme: String,
    pub host: Option<String>,
}

/// The parts of an address as texts.
pub open spec fn address_parts(a: Option<Address>) -> Option<(Seq<char>, Option<Seq<char>>)> {
    match a {
        Some(a) => Some((a.scheme@, opt_text(a.host))),
        None => None,
    }
}

/// `Url::parse` reads an absolute address; `Url::scheme` and `Url::host_str` give its parts. The
/// empty text is no address.
#[verifier::external_body]
pub(crate) fn parse_address(text: &str) -> (r: Option<Address>)
    ensures
        address_parts(r) == parsed_url(text@),
        text@.len() == 0 ==> r is None,
{
    let u = url::Url::parse(text).ok()?;
    Some(Address { scheme: u.scheme().to_owned(), host: u.host_str().map(|h| h.to_owned()) })
}

/// `Url::join` reads an address that is met at another. There is none where the other is not an
/// address itself.
#[verifier::external_body]
pub(crate) fn join_address(base: &str, rel: &str) -> (r: Option<String>)
    ensures
        opt_text(r) == joined_url(base@, rel@),
        parsed_url(base@) is None ==> r is None,
{
    let u = url::Url::parse(base).ok()?.join(rel).ok()?;
    Some(u.as_str().to_owned())
}

/// Whether the scheme is one of the web.
pub open spec fn web_scheme(scheme: Seq<char>) -> bool {
    scheme == "http"@ || scheme == "https"@
}

/// Whether the scheme is one of the web.
pub fn is_web_scheme(scheme: &str) -> (r: bool)
    ensures
        r == web_scheme(scheme@),
{
    same_text(scheme, "http") || same_text(scheme, "https")
}

/// Whether the text is an address of the web.
pub open spec fn web_address(text: Seq<char>) -> bool {
    parsed_url(text) matches Some((scheme, _)) && web_scheme(scheme)
}

/// Whether the text is an address of the web.
pub fn is_web_address(text: &str) -> (r: bool)
    ensures
        r == web_address(text@),
{
    match parse_address(text) {
        Some(a) => is_web_scheme(a.scheme.as_str()),
        None => false,
    }
}

/// Whether the text begins as an address of the web does.
pub open spec fn looks_like_web(text: Seq<char>) -> bool {
    starts_with(text, "http://"@) || starts_with(text, "https://"@)
}

/// Whether the text begins as an address of the web does.
pub fn begins_like_web(text: &str) -> (r: bool)
    ensures
        r == looks_like_web(text@),
{
    has_prefix(text, "http://") || has_prefix(text, "https://")
}

} // verus!
