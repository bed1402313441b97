//! Why composing a post can fail.

use vstd::prelude::*;

verus! {

/// The kind of a failure, without the detail that came with it.
pub enum Fault {
    /// A link line is not an absolute URL.
    Parse,
    /// A link line is a URL without a domain name.
    Domain,
}

/// A link line that cannot be turned into a link. One such line fails the
/// whole post.
#[derive(Debug)]
pub enum WritePostMarkdownError {
    /// The line did not parse as an absolute URL; the parser's reason is kept.
    Parse(url::ParseError),
    /// The line parsed, but its host is missing or is not a domain name.
    Domain,
}

impl WritePostMarkdownError {
    /// The kind of this failure.
    pub open spec fn fault(self) -> Fault {
        match self {
            WritePostMarkdownError::Parse(_) => Fault::Parse,
            WritePostMarkdownError::Domain => Fault::Domain,
        }
    }
}

} // verus!
