//! A whole post: from the comments as they were fetched to the Markdown and
//! the name of the file that takes it.

use crate::config::Env;
use crate::entry::{
    lemma_blank_body_has_no_entry, parse, parse_spec, parse_view, EntryView, Mode, ParsedEntry,
};
use crate::error::{Fault, WritePostMarkdownError};
use crate::github::Comment;
use crate::render::{entry_views, render, render_spec, MeetupMetadata, MetadataView};
use crate::text::{decimal, format_decimal, is_blank};
use vstd::prelude::*;

verus! {

/// What a run is asked to announce.
#[derive(Debug)]
pub struct WritePostMarkdownParams {
    pub meetup_date: String,
    pub meetup_number: u16,
    pub meetup_link: String,
    pub comments: Vec<Comment>,
}

/// A finished post.
#[derive(Debug)]
pub struct RenderedPost {
    /// The name of the file that takes the post.
    pub file_name: String,
    /// The Markdown, whole.
    pub markdown: String,
}

/// The name of the file for the meetup of `date` with the number `number`.
pub open spec fn file_name(date: Seq<char>, number: nat) -> Seq<char> {
    date + "-socratic-seminar-"@ + decimal(number) + ".md"@
}

/// The bodies of a sequence of comments.
pub open spec fn bodies(comments: Seq<Comment>) -> Seq<Seq<char>> {
    comments.map_values(|c: Comment| c.body@)
}

/// What reading a comment came to: an entry, none, or a failure.
pub type Outcome = Result<Option<EntryView>, Fault>;

/// The entries among `outcomes`, in their order: a comment without an entry
/// is passed over, and the first failure is the failure of the whole.
pub open spec fn gathered(outcomes: Seq<Outcome>) -> Result<Seq<EntryView>, Fault>
    decreases outcomes.len(),
{
    if outcomes.len() == 0 {
        Ok(Seq::empty())
    } else {
        match gathered(outcomes.drop_last()) {
            Err(f) => Err(f),
            Ok(entries) => match outcomes.last() {
                Err(f) => Err(f),
                Ok(None) => Ok(entries),
                Ok(Some(e)) => Ok(entries.push(e)),
            },
        }
    }
}

/// What `parse` makes of each of `bodies`.
pub open spec fn parse_all(bodies: Seq<Seq<char>>, mode: Mode) -> Seq<Outcome> {
    bodies.map_values(|body: Seq<char>| parse_spec(body, mode))
}

/// The entries of the comment bodies `bodies`, in their order, or the failure
/// of the first body with a bad link.
pub open spec fn entries_of(bodies: Seq<Seq<char>>, mode: Mode) -> Result<Seq<EntryView>, Fault> {
    gathered(parse_all(bodies, mode))
}

/// What the settings and the request say of the meetup.
pub open spec fn metadata_of(env: Env, p: WritePostMarkdownParams) -> MetadataView {
    MetadataView {
        number: p.meetup_number as nat,
        date: p.meetup_date@,
        link: p.meetup_link@,
        group_name: env.meetup_name@,
        group_chat_link: env.meetup_chat_link@,
    }
}

/// The view of the outcome of `collect_entries`.
pub open spec fn entries_view(r: Result<Vec<ParsedEntry>, WritePostMarkdownError>) -> Result<
    Seq<EntryView>,
    Fault,
> {
    match r {
        Ok(entries) => Ok(entry_views(entries@)),
        Err(e) => Err(e.fault()),
    }
}

/// A comment of empty lines alone leaves the entries as they are: nothing
/// of it is rendered.
pub proof fn lemma_blank_comment_adds_nothing(before: Seq<Seq<char>>, body: Seq<char>, mode: Mode)
    requires
        is_blank(body),
    ensures
        entries_of(before.push(body), mode) == entries_of(before, mode),
{
    lemma_blank_body_has_no_entry(body, mode);
    assert(parse_all(before.push(body), mode).drop_last() == parse_all(before, mode));
}

/// A failure among the first `k` outcomes is the failure of all of them.
pub proof fn lemma_gathered_prefix_failure(outcomes: Seq<Outcome>, k: int)
    requires
        0 <= k <= outcomes.len(),
        gathered(outcomes.take(k)) is Err,
    ensures
        gathered(outcomes) == gathered(outcomes.take(k)),
    decreases outcomes.len(),
{
    if k == outcomes.len() {
        assert(outcomes.take(k) == outcomes);
    } else {
        assert(outcomes.drop_last().take(k) == outcomes.take(k));
        lemma_gathered_prefix_failure(outcomes.drop_last(), k);
    }
}

/// One comment that fails leaves no entries at all, so nothing is rendered
/// and nothing can be written.
pub proof fn lemma_one_failure_fails_all(outcomes: Seq<Outcome>, k: int)
    requires
        0 <= k < outcomes.len(),
        outcomes[k] is Err,
    ensures
        gathered(outcomes) is Err,
    decreases outcomes.len(),
{
    if k < outcomes.len() - 1 {
        lemma_one_failure_fails_all(outcomes.drop_last(), k);
    }
}

/// Entries are gathered in the comments' order: those of two runs of
/// comments, one after the other, are those of the first run followed by
/// those of the second.
pub proof fn lemma_gathered_concat(first: Seq<Outcome>, second: Seq<Outcome>)
    requires
        gathered(first) is Ok,
        gathered(second) is Ok,
    ensures
        gathered(first + second) == Ok::<Seq<EntryView>, Fault>(
            gathered(first)->Ok_0 + gathered(second)->Ok_0,
        ),
    decreases second.len(),
{
    if second.len() == 0 {
        assert(first + second == first);
        assert(gathered(first)->Ok_0 + gathered(second)->Ok_0 == gathered(first)->Ok_0);
    } else {
        assert((first + second).drop_last() == first + second.drop_last());
        lemma_gathered_concat(first, second.drop_last());
        let a = gathered(first)->Ok_0;
        let b = gathered(second.drop_last())->Ok_0;
        match second.last() {
            Ok(Some(e)) => {
                assert((a + b).push(e) == a + b.push(e));
            },
            _ => {},
        }
    }
}

/// Writes the name of the file for the meetup of `date` with the number
/// `number`.
pub fn post_file_name(date: &str, number: u16) -> (r: String)
    ensures
        r@ == file_name(date@, number as nat),
{
    let mut r = String::new();
    r.append(date);
    r.append("-socratic-seminar-");
    r.append(format_decimal(number as u64).as_str());
    r.append(".md");
    r
}

/// Reads every comment as an entry, in the comments' order.
pub fn collect_entries(comments: &Vec<Comment>, mode: Mode) -> (r: Result<
    Vec<ParsedEntry>,
    WritePostMarkdownError,
>)
    ensures
        entries_view(r) == entries_of(bodies(comments@), mode),
{
    let ghost all = parse_all(bodies(comments@), mode);
    let mut entries: Vec<ParsedEntry> = Vec::new();
    let n = comments.len();
    let mut i: usize = 0;
    assert(all.take(0).len() == 0);
    assert(entry_views(entries@) == Seq::<EntryView>::empty());
    while i < n
        invariant
            i <= n == comments@.len() == all.len(),
            all == parse_all(bodies(comments@), mode),
            gathered(all.take(i as int)) == Ok::<Seq<EntryView>, Fault>(entry_views(entries@)),
        decreases n - i,
    {
        let parsed = parse(comments[i].body.as_str(), mode);
        proof {
            assert(all.take(i + 1).drop_last() == all.take(i as int));
            assert(all.take(i + 1).last() == parse_view(parsed));
        }
        match parsed {
            Err(e) => {
                proof {
                    lemma_gathered_prefix_failure(all, i + 1);
                }
                return Err(e);
            },
            Ok(None) => {},
            Ok(Some(e)) => {
                proof {
                    assert(entry_views(entries@.push(e)) == entry_views(entries@).push(e@));
                }
                entries.push(e);
            },
        }
        i = i + 1;
    }
    assert(all.take(n as int) == all);
    Ok(entries)
}

/// Composes the post for the comments in `p`: every comment is read, and
/// only where all of them can be is anything rendered. On a bad link there
/// is no post, not even part of one.
pub fn render_post(env: &Env, p: &WritePostMarkdownParams, mode: Mode) -> (r: Result<
    RenderedPost,
    WritePostMarkdownError,
>)
    ensures
        match r {
            Ok(post) => {
                &&& entries_of(bodies(p.comments@), mode) matches Ok(entries)
                &&& post.markdown@ == render_spec(metadata_of(*env, *p), entries)
                &&& post.file_name@ == file_name(p.meetup_date@, p.meetup_number as nat)
            },
            Err(e) => entries_of(bodies(p.comments@), mode) == Err::<Seq<EntryView>, Fault>(
                e.fault(),
            ),
        },
{
    let entries = match collect_entries(&p.comments, mode) {
        Err(e) => {
            return Err(e);
        },
        Ok(entries) => entries,
    };
    let metadata = MeetupMetadata {
        number: p.meetup_number,
        date: p.meetup_date.clone(),
        link: p.meetup_link.clone(),
        group_name: env.meetup_name.clone(),
        group_chat_link: env.meetup_chat_link.clone(),
    };
    Ok(
        RenderedPost {
            file_name: post_file_name(p.meetup_date.as_str(), p.meetup_number),
            markdown: render(&metadata, &entries),
        },
    )
}

} // verus!
