//! URLs, as the `url` crate takes them apart and puts them together.
//!
//! Nothing here is proved: the contracts name what the crate returns.
use crate::text::{option_text, split_once};
use url::ParseError as UrlError;
use vstd::prelude::*;

verus! {

/// `ParseError` of the `url` crate, carried as it comes.
#[verifier::external_type_specification]
#[verifier::external_body]
pub struct ExUrlError(UrlError);

/// The parts of a URL that the link codecs read.
pub struct UrlParts {
    /// The host, where it is a domain name.
    pub domain: Option<String>,
    /// The path.
    pub path: String,
    /// The key and value pairs of the query string, in order, percent-decoded.
    pub query: Vec<(String, String)>,
    /// What follows the first `#`, where there is one.
    pub fragment: Option<String>,
}

/// The parts of a URL as plain sequences.
pub struct UrlPartsView {
    pub domain: Option<Seq<char>>,
    pub path: Seq<char>,
    pub query: Seq<(Seq<char>, Seq<char>)>,
    pub fragment: Option<Seq<char>>,
}

/// The views of a sequence of pairs of strings.
pub open spec fn pairs_view(pairs: Seq<(String, String)>) -> Seq<(Seq<char>, Seq<char>)> {
    Seq::new(pairs.len(), |i: int| (pairs[i].0@, pairs[i].1@))
}

impl View for UrlParts {
    type V = UrlPartsView;

    open spec fn view(&self) -> UrlPartsView {
        UrlPartsView {
            domain: option_text(self.domain),
            path: self.path@,
            query: pairs_view(self.query@),
            fragment: option_text(self.fragment),
        }
    }
}

/// The parts of the URL that `text` spells, if it spells one.
pub uninterp spec fn url_parts(text: Seq<char>) -> Option<UrlPartsView>;

/// The text of the URL `base` with `query` as its query string, if `base`
/// spells a URL.
pub uninterp spec fn url_with_query(base: Seq<char>, query: Seq<char>) -> Option<Seq<char>>;

/// A character that a query string carries as it stands, and that means
/// nothing in one: an ASCII letter, a digit, `-` or `_`.
pub open spec fn is_plain(c: char) -> bool {
    ||| 'A' <= c <= 'Z'
    ||| 'a' <= c <= 'z'
    ||| '0' <= c <= '9'
    ||| c == '-'
    ||| c == '_'
}

/// A query string of one pair, written with plain characters and `=`.
pub open spec fn is_plain_query(query: Seq<char>) -> bool {
    &&& query.len() > 0
    &&& forall|i: int| 0 <= i < query.len() ==> is_plain(#[trigger] query[i]) || query[i] == '='
}

/// The pair of such a query string: what stands before its first `=` and
/// what stands after it.
pub open spec fn plain_pair(query: Seq<char>) -> (Seq<char>, Seq<char>) {
    match split_once(query, '=') {
        Some(pair) => pair,
        None => (query, Seq::empty()),
    }
}

/// `Url::parse` of the `url` crate, then `set_query` and `to_string`. The
/// contract names the text and says nothing of the error. It claims one
/// thing more: from a link made with a plain query string of one pair,
/// `Url::parse` and `query_pairs` read that pair again, and no other. A base
/// with a fragment is left out: the crate panics on one where the query is
/// longer than four gigabytes.
#[verifier::external_body]
pub(crate) fn with_query(base: &str, query: &str) -> (r: Result<String, UrlError>)
    requires
        !base@.contains('#'),
    ensures
        match r {
            Ok(link) => url_with_query(base@, query@) == Some(link@) && (is_plain_query(query@)
                ==> (url_parts(link@) matches Some(parts) && parts.query == seq![
                plain_pair(query@),
            ])),
            Err(_) => url_with_query(base@, query@) is None,
        },
{
    let mut u = url::Url::parse(base)?;
    u.set_query(Some(query));
    Ok(u.to_string())
}

/// `Url::parse` of the `url` crate, followed by its accessors `domain`,
/// `path`, `query_pairs` and `fragment`, each copied into an owned value.
/// The contract names the parts and says nothing of the error.
#[verifier::external_body]
pub(crate) fn split_url(text: &str) -> (r: Result<UrlParts, UrlError>)
    ensures
        match r {
            Ok(parts) => url_parts(text@) == Some(parts@),
            Err(_) => url_parts(text@) is None,
        },
{
    let u = url::Url::parse(text)?;
    Ok(UrlParts {
        domain: u.domain().map(|d| d.to_owned()),
        path: u.path().to_owned(),
        query: u.query_pairs().map(|(k, v)| (k.into_owned(), v.into_owned())).collect(),
        fragment: u.fragment().map(|f| f.to_owned()),
    })
}

} // verus!
