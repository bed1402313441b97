//! Links, and what the `url` crate makes of a link line.

use crate::error::{Fault, WritePostMarkdownError};
use vstd::prelude::*;

verus! {

/// `url::ParseError`, carried through unread.
#[verifier::external_type_specification]
#[verifier::external_body]
pub struct ExParseError(url::ParseError);

/// What this library reads of a parsed URL.
#[derive(Debug)]
pub struct ParsedUrl {
    /// The URL as the parser writes it back.
    pub serialization: String,
    /// The host, where the URL has one and it is a domain name.
    pub domain: Option<String>,
}

/// The view of a `ParsedUrl`.
pub struct ParsedUrlView {
    pub serialization: Seq<char>,
    pub domain: Option<Seq<char>>,
}

impl View for ParsedUrl {
    type V = ParsedUrlView;

    open spec fn view(&self) -> ParsedUrlView {
        ParsedUrlView {
            serialization: self.serialization@,
            domain: match self.domain {
                Some(d) => Some(d@),
                None => None,
            },
        }
    }
}

/// One link of an entry: the text shown and the address it leads to.
#[derive(Debug)]
pub struct Link {
    pub display_label: String,
    pub url: String,
}

/// The view of a `Link`.
pub struct LinkView {
    pub display_label: Seq<char>,
    pub url: Seq<char>,
}

impl View for Link {
    type V = LinkView;

    open spec fn view(&self) -> LinkView {
        LinkView { display_label: self.display_label@, url: self.url@ }
    }
}

/// The views of a sequence of links.
pub open spec fn link_views(links: Seq<Link>) -> Seq<LinkView> {
    links.map_values(|l: Link| l@)
}

/// What `url::Url::parse` makes of `input`: the serialization and the domain
/// of the URL that it returns, or `None` where it returns an error.
pub uninterp spec fn url_parse(input: Seq<char>) -> Option<ParsedUrlView>;

/// The view of what the parser handed back: the URL, or nothing.
pub open spec fn parsed_view(parsed: Result<ParsedUrl, url::ParseError>) -> Option<ParsedUrlView> {
    match parsed {
        Ok(u) => Some(u@),
        Err(_) => None,
    }
}

/// Calls `url::Url::parse` on `input`. The contract gives the outcome a name
/// and claims nothing else of it: on success the result holds what
/// `Url::domain` and the conversion of the `Url` into a `String` return for the
/// parsed URL; on failure it is the parser's error.
#[verifier::external_body]
pub(crate) fn parse_url(input: &str) -> (r: Result<ParsedUrl, url::ParseError>)
    ensures
        parsed_view(r) == url_parse(input@),
{
    match url::Url::parse(input) {
        Ok(u) => Ok(ParsedUrl { domain: u.domain().map(String::from), serialization: String::from(u) }),
        Err(e) => Err(e),
    }
}

/// The link that a parsed URL stands for: labelled by its domain, leading to
/// its serialization.
pub open spec fn resolved(parsed: Option<ParsedUrlView>) -> Result<LinkView, Fault> {
    match parsed {
        None => Err(Fault::Parse),
        Some(u) => match u.domain {
            None => Err(Fault::Domain),
            Some(d) => Ok(LinkView { display_label: d, url: u.serialization }),
        },
    }
}

/// The view of the outcome of `resolve`.
pub open spec fn resolution_view(r: Result<Link, WritePostMarkdownError>) -> Result<
    LinkView,
    Fault,
> {
    match r {
        Ok(l) => Ok(l@),
        Err(e) => Err(e.fault()),
    }
}

/// Turns what the parser handed back into a link, or into the reason why
/// there is none.
pub fn resolve(parsed: Result<ParsedUrl, url::ParseError>) -> (r: Result<
    Link,
    WritePostMarkdownError,
>)
    ensures
        resolution_view(r) == resolved(parsed_view(parsed)),
{
    match parsed {
        Err(e) => Err(WritePostMarkdownError::Parse(e)),
        Ok(u) => match u.domain {
            None => Err(WritePostMarkdownError::Domain),
            Some(d) => Ok(Link { display_label: d, url: u.serialization }),
        },
    }
}

} // verus!
