//! The parts of a URL that a target is made of, read with `url`.

use crate::storage::models::optional_text;
use vstd::prelude::*;

verus! {

/// The scheme, host and port of a URL. The port is `None` where the URL names
/// none, or names the one that its scheme implies.
#[derive(Clone, Debug, PartialEq, Eq)]
pub struct UrlParts {
    pub scheme: String,
    pub host: Option<String>,
    pub port: Option<u16>,
}

pub struct UrlPartsView {
    pub scheme: Seq<char>,
    pub host: Option<Seq<char>>,
    pub port: Option<u16>,
}

impl View for UrlParts {
    type V = UrlPartsView;

    open spec fn view(&self) -> UrlPartsView {
        UrlPartsView { scheme: self.scheme@, host: optional_text(self.host), port: self.port }
    }
}

/// The parts that `url` reads from `text` as an absolute URL; `None` where it
/// reads none.
pub uninterp spec fn url_parts(text: Seq<char>) -> Option<UrlPartsView>;

/// Calls `url::Url::parse` and takes from the URL what `Url::scheme`,
/// `Url::host_str` and `Url::port` return. Assumed: what comes back depends
/// on the text alone.
#[verifier::external_body]
pub(crate) fn read_url(text: &str) -> (parts: Option<UrlParts>)
    ensures
        match parts {
            Some(p) => url_parts(text@) == Some(p@),
            None => url_parts(text@) is None,
        },
{
    match url::Url::parse(text) {
        Ok(read) => Some(
            UrlParts {
                scheme: read.scheme().to_owned(),
                host: read.host_str().map(str::to_owned),
                port: read.port(),
            },
        ),
        Err(_) => None,
    }
}

} // verus!
