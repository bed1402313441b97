//! From a comment body to an entry of the schedule.
//!
//! The first non-empty line of a comment is the title of a topic, and each
//! non-empty line after it is a link. Two ways of reading the links exist and
//! the caller picks one: see `Mode`.

use crate::error::{Fault, WritePostMarkdownError};
use crate::link::{
    link_views, parse_url, parsed_view, resolve, resolved, resolution_view, url_parse, Link,
    LinkView, ParsedUrlView,
};
use crate::text::{
    chars_of, is_blank, lemma_blank_has_no_lines, line_bounds, nonempty_lines, trim_bounds,
    trimmed, views,
};
use vstd::prelude::*;

verus! {

/// How the link lines of a comment are read.
#[derive(Clone, Copy, Debug, PartialEq, Eq, Structural)]
pub enum Mode {
    /// Only the line after the title counts. It is kept as written and is not
    /// examined; further lines are ignored.
    Simple,
    /// Every line after the title is a link and must be an absolute URL with
    /// a domain name. The first is the headline link, kept as written; each
    /// further one is labelled by its domain and leads to the URL as the
    /// parser writes it back.
    MultiLink,
}

/// A comment cut into its lines: the title and the link lines, each trimmed.
#[derive(Debug)]
pub struct Outline {
    pub title: String,
    pub link_lines: Vec<String>,
}

/// The view of an `Outline`.
pub struct OutlineView {
    pub title: Seq<char>,
    pub link_lines: Seq<Seq<char>>,
}

impl View for Outline {
    type V = OutlineView;

    open spec fn view(&self) -> OutlineView {
        OutlineView { title: self.title@, link_lines: views(self.link_lines@) }
    }
}

/// One topic of the schedule. The first link is the headline link, which the
/// title leads to; the others are listed under it.
#[derive(Debug)]
pub struct ParsedEntry {
    pub title: String,
    pub links: Vec<Link>,
}

/// The view of a `ParsedEntry`.
pub struct EntryView {
    pub title: Seq<char>,
    pub links: Seq<LinkView>,
}

impl View for ParsedEntry {
    type V = EntryView;

    open spec fn view(&self) -> EntryView {
        EntryView { title: self.title@, links: link_views(self.links@) }
    }
}

/// The outline of a comment body: none where it has no non-empty line.
pub open spec fn outline_of(body: Seq<char>) -> Option<OutlineView> {
    let lines = nonempty_lines(body);
    if lines.len() == 0 {
        None
    } else {
        Some(
            OutlineView {
                title: trimmed(lines[0]),
                link_lines: lines.skip(1).map_values(|line: Seq<char>| trimmed(line)),
            },
        )
    }
}

/// The link for one line in `Mode::MultiLink`, given what the parser made of
/// it. The line must resolve; the headline link then shows the title and
/// leads to the line as written.
pub open spec fn link_of(
    title: Seq<char>,
    text: Seq<char>,
    parsed: Option<ParsedUrlView>,
    headline: bool,
) -> Result<LinkView, Fault> {
    match resolved(parsed) {
        Err(f) => Err(f),
        Ok(l) => Ok(
            if headline {
                LinkView { display_label: title, url: text }
            } else {
                l
            },
        ),
    }
}

/// The links for the lines `texts` in `Mode::MultiLink`, where `parsed[k]` is
/// what the parser made of `texts[k]`. The first line that does not resolve
/// decides the failure.
pub open spec fn links_of(
    title: Seq<char>,
    texts: Seq<Seq<char>>,
    parsed: Seq<Option<ParsedUrlView>>,
) -> Result<Seq<LinkView>, Fault>
    decreases texts.len(),
{
    if texts.len() == 0 {
        Ok(Seq::empty())
    } else {
        match links_of(title, texts.drop_last(), parsed.drop_last()) {
            Err(f) => Err(f),
            Ok(links) => match link_of(title, texts.last(), parsed.last(), texts.len() == 1) {
                Err(f) => Err(f),
                Ok(l) => Ok(links.push(l)),
            },
        }
    }
}

/// The entry that an outline stands for, where `parsed[k]` is what the parser
/// made of its link line `k`. In `Mode::Simple` nothing is parsed and `parsed`
/// is not read.
pub open spec fn entry_of(o: OutlineView, parsed: Seq<Option<ParsedUrlView>>, mode: Mode) -> Result<
    EntryView,
    Fault,
> {
    match mode {
        Mode::Simple => Ok(
            EntryView {
                title: o.title,
                links: if o.link_lines.len() == 0 {
                    Seq::empty()
                } else {
                    seq![LinkView { display_label: o.title, url: o.link_lines[0] }]
                },
            },
        ),
        Mode::MultiLink => match links_of(o.title, o.link_lines, parsed) {
            Err(f) => Err(f),
            Ok(links) => Ok(EntryView { title: o.title, links }),
        },
    }
}

/// What the parser makes of each of `texts`.
pub open spec fn url_parse_all(texts: Seq<Seq<char>>) -> Seq<Option<ParsedUrlView>> {
    texts.map_values(|text: Seq<char>| url_parse(text))
}

/// What `parse` returns for `body`: no entry for a body without a non-empty
/// line; else the entry of its outline, or the failure of its first bad link.
pub open spec fn parse_spec(body: Seq<char>, mode: Mode) -> Result<Option<EntryView>, Fault> {
    match outline_of(body) {
        None => Ok(None),
        Some(o) => match entry_of(o, url_parse_all(o.link_lines), mode) {
            Err(f) => Err(f),
            Ok(e) => Ok(Some(e)),
        },
    }
}

/// The view of an optional outline.
pub open spec fn outline_view(o: Option<Outline>) -> Option<OutlineView> {
    match o {
        Some(o) => Some(o@),
        None => None,
    }
}

/// The view of the outcome of `parse`.
pub open spec fn parse_view(r: Result<Option<ParsedEntry>, WritePostMarkdownError>) -> Result<
    Option<EntryView>,
    Fault,
> {
    match r {
        Ok(Some(e)) => Ok(Some(e@)),
        Ok(None) => Ok(None),
        Err(e) => Err(e.fault()),
    }
}

/// Cuts a comment body into its title and its link lines.
pub fn outline(body: &str) -> (r: Option<Outline>)
    ensures
        outline_view(r) == outline_of(body@),
{
    let v = chars_of(body);
    let bounds = line_bounds(&v);
    if bounds.len() == 0 {
        return None;
    }
    let ghost lines = nonempty_lines(body@);
    let (a, b) = trim_bounds(&v, bounds[0].0, bounds[0].1);
    let title = body.substring_char(a, b).to_owned();
    let mut link_lines: Vec<String> = Vec::new();
    let mut k: usize = 1;
    while k < bounds.len()
        invariant
            1 <= k <= bounds@.len() == lines.len(),
            v@ == body@,
            lines == nonempty_lines(body@),
            forall|j: int|
                0 <= j < bounds@.len() ==> (#[trigger] bounds@[j]).0 < bounds@[j].1 <= v@.len()
                    && v@.subrange(bounds@[j].0 as int, bounds@[j].1 as int) == lines[j],
            link_lines@.len() == k - 1,
            forall|j: int| 0 <= j < k - 1 ==> (#[trigger] link_lines@[j])@ == trimmed(lines[j + 1]),
        decreases bounds@.len() - k,
    {
        let (a, b) = trim_bounds(&v, bounds[k].0, bounds[k].1);
        link_lines.push(body.substring_char(a, b).to_owned());
        k = k + 1;
    }
    let o = Outline { title, link_lines };
    assert(o@.link_lines =~= outline_of(body@)->0.link_lines);
    Some(o)
}

/// A body of empty lines alone gives no entry, in either mode.
pub proof fn lemma_blank_body_has_no_entry(body: Seq<char>, mode: Mode)
    requires
        is_blank(body),
    ensures
        parse_spec(body, mode) == Ok::<Option<EntryView>, Fault>(None),
{
    lemma_blank_has_no_lines(body);
}

/// A failure among the first `k` lines is the failure of all of them.
pub proof fn lemma_links_of_prefix_failure(
    title: Seq<char>,
    texts: Seq<Seq<char>>,
    parsed: Seq<Option<ParsedUrlView>>,
    k: int,
)
    requires
        0 <= k <= texts.len() == parsed.len(),
        links_of(title, texts.take(k), parsed.take(k)) is Err,
    ensures
        links_of(title, texts, parsed) == links_of(title, texts.take(k), parsed.take(k)),
    decreases texts.len(),
{
    if k == texts.len() {
        assert(texts.take(k) == texts);
        assert(parsed.take(k) == parsed);
    } else {
        assert(texts.drop_last().take(k) == texts.take(k));
        assert(parsed.drop_last().take(k) == parsed.take(k));
        lemma_links_of_prefix_failure(title, texts.drop_last(), parsed.drop_last(), k);
    }
}

/// Where every line resolves there is a link for each line, in the lines'
/// order: first the headline link, which shows the title and leads to the
/// line as written, then each further line as it resolved.
pub proof fn lemma_links_of_resolved_lines(
    title: Seq<char>,
    texts: Seq<Seq<char>>,
    parsed: Seq<Option<ParsedUrlView>>,
)
    requires
        texts.len() == parsed.len(),
        forall|k: int| 0 <= k < parsed.len() ==> resolved(#[trigger] parsed[k]) is Ok,
    ensures
        links_of(title, texts, parsed) is Ok,
        links_of(title, texts, parsed)->Ok_0.len() == texts.len(),
        texts.len() > 0 ==> links_of(title, texts, parsed)->Ok_0[0] == (LinkView {
            display_label: title,
            url: texts[0],
        }),
        forall|k: int|
            1 <= k < texts.len() ==> links_of(title, texts, parsed)->Ok_0[k] == resolved(
                #[trigger] parsed[k],
            )->Ok_0,
    decreases texts.len(),
{
    if texts.len() > 0 {
        let n = texts.len() - 1;
        assert(resolved(parsed[n]) is Ok);
        assert forall|k: int| 0 <= k < n implies resolved(#[trigger] parsed.drop_last()[k]) is Ok by {
            assert(parsed.drop_last()[k] == parsed[k]);
        }
        lemma_links_of_resolved_lines(title, texts.drop_last(), parsed.drop_last());
        let before = links_of(title, texts.drop_last(), parsed.drop_last())->Ok_0;
        assert forall|k: int| 1 <= k < texts.len() implies links_of(title, texts, parsed)->Ok_0[k]
            == resolved(#[trigger] parsed[k])->Ok_0 by {
            if k < n {
                assert(before[k] == resolved(parsed.drop_last()[k])->Ok_0);
            }
        }
    }
}

/// One line that does not resolve leaves no links at all.
pub proof fn lemma_bad_link_fails(
    title: Seq<char>,
    texts: Seq<Seq<char>>,
    parsed: Seq<Option<ParsedUrlView>>,
    k: int,
)
    requires
        0 <= k < texts.len() == parsed.len(),
        resolved(parsed[k]) is Err,
    ensures
        links_of(title, texts, parsed) is Err,
    decreases texts.len(),
{
    if k < texts.len() - 1 {
        lemma_bad_link_fails(title, texts.drop_last(), parsed.drop_last(), k);
    }
}

/// The first line that does not resolve decides the failure.
pub proof fn lemma_first_bad_link_decides(
    title: Seq<char>,
    texts: Seq<Seq<char>>,
    parsed: Seq<Option<ParsedUrlView>>,
    k: int,
)
    requires
        0 <= k < texts.len() == parsed.len(),
        resolved(parsed[k]) is Err,
        forall|j: int| 0 <= j < k ==> resolved(#[trigger] parsed[j]) is Ok,
    ensures
        links_of(title, texts, parsed) == Err::<Seq<LinkView>, Fault>(resolved(parsed[k])->Err_0),
{
    let head = texts.take(k + 1);
    let found = parsed.take(k + 1);
    assert(head.drop_last() == texts.take(k));
    assert(found.drop_last() == parsed.take(k));
    assert forall|j: int| 0 <= j < k implies resolved(#[trigger] parsed.take(k)[j]) is Ok by {
        assert(parsed.take(k)[j] == parsed[j]);
    }
    lemma_links_of_resolved_lines(title, texts.take(k), parsed.take(k));
    assert(found.last() == parsed[k]);
    lemma_links_of_prefix_failure(title, texts, parsed, k + 1);
}

/// The link for one line in `Mode::MultiLink`, given what the parser made of
/// the line.
pub fn link_for(
    title: &str,
    text: String,
    parsed: Result<crate::link::ParsedUrl, url::ParseError>,
    headline: bool,
) -> (r: Result<Link, WritePostMarkdownError>)
    ensures
        resolution_view(r) == link_of(title@, text@, parsed_view(parsed), headline),
{
    match resolve(parsed) {
        Err(e) => Err(e),
        Ok(l) => if headline {
            Ok(Link { display_label: title.to_owned(), url: text })
        } else {
            Ok(l)
        },
    }
}

/// Reads a comment body as an entry of the schedule.
///
/// Returns no entry for a body without a non-empty line. In
/// `Mode::MultiLink` the first link line that is not an absolute URL with a
/// domain name fails the call.
pub fn parse(body: &str, mode: Mode) -> (r: Result<Option<ParsedEntry>, WritePostMarkdownError>)
    ensures
        parse_view(r) == parse_spec(body@, mode),
{
    let o = match outline(body) {
        None => {
            return Ok(None);
        },
        Some(o) => o,
    };
    let ghost texts = o@.link_lines;
    let ghost parsed = url_parse_all(texts);
    let mut links: Vec<Link> = Vec::new();
    match mode {
        Mode::Simple => {
            if o.link_lines.len() > 0 {
                links.push(Link { display_label: o.title.clone(), url: o.link_lines[0].clone() });
            }
            assert(link_views(links@) =~= entry_of(o@, parsed, mode)->Ok_0.links);
        },
        Mode::MultiLink => {
            let n = o.link_lines.len();
            let mut k: usize = 0;
            assert(texts.take(0).len() == 0);
            assert(link_views(links@) == Seq::<LinkView>::empty());
            while k < n
                invariant
                    k <= n == texts.len() == parsed.len(),
                    mode == Mode::MultiLink,
                    outline_of(body@) == Some(o@),
                    texts == o@.link_lines,
                    n == o.link_lines@.len(),
                    parsed == url_parse_all(texts),
                    links_of(o.title@, texts.take(k as int), parsed.take(k as int)) == Ok::<
                        Seq<LinkView>,
                        Fault,
                    >(link_views(links@)),
                decreases n - k,
            {
                let text = o.link_lines[k].clone();
                let found = parse_url(text.as_str());
                proof {
                    assert(texts.take(k + 1).drop_last() == texts.take(k as int));
                    assert(parsed.take(k + 1).drop_last() == parsed.take(k as int));
                    assert(texts.take(k + 1).last() == text@);
                    assert(parsed.take(k + 1).last() == parsed_view(found));
                }
                match link_for(o.title.as_str(), text, found, k == 0) {
                    Err(e) => {
                        proof {
                            lemma_links_of_prefix_failure(o.title@, texts, parsed, k + 1);
                        }
                        return Err(e);
                    },
                    Ok(l) => {
                        proof {
                            assert(link_views(links@.push(l)) == link_views(links@).push(l@));
                        }
                        links.push(l);
                    },
                }
                k = k + 1;
            }
            assert(texts.take(n as int) == texts);
            assert(parsed.take(n as int) == parsed);
        },
    }
    Ok(Some(ParsedEntry { title: o.title, links }))
}

} // verus!
