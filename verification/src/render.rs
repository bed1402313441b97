//! The Markdown of a post: a fixed header, then the schedule.

use crate::entry::{
    entry_of, lemma_links_of_resolved_lines, outline_of, EntryView, Mode, ParsedEntry,
};
use crate::link::{resolved, Link, LinkView, ParsedUrlView};
use crate::text::{decimal, format_decimal, nonempty_lines, trimmed};
use vstd::prelude::*;
use vstd::seq_lib::lemma_flatten_concat;

verus! {

/// The header up to the meetup's number.
pub const HEADER_OPENING: &'static str =
    "---\nlayout: post\ntype: socratic\ntitle: \"Seminário Socrático ";

/// The header between the meetup's number and its link.
pub const HEADER_MEETUP: &'static str = "\"\nmeetup: ";

/// The header between the meetup's link and the group's name.
pub const HEADER_NOTICES: &'static str =
    "\n---\n\n## Avisos\n\n- Entrem no grupo do Whatsapp [";

/// The header between the group's name and the link of its chat.
pub const HEADER_CHAT: &'static str = "](";

/// The header after the link of the group's chat, down to the heading of the
/// schedule.
pub const HEADER_CLOSING: &'static str =
    ")!\n- Respeite a privacidade dos participantes.\n- Os meetups nunca são gravados. Queremos todos a vontade para participar e discutir os assuntos programados, de forma anônima se assim o desejarem.\n\n## Agradecimentos\n\n- Agradecemos à Vinteum pela casa, comidas e bebidas.\n\n## Cronograma\n";

/// What a post says of the meetup itself.
#[derive(Clone, Debug)]
pub struct MeetupMetadata {
    pub number: u16,
    /// Free text; it is used as it stands.
    pub date: String,
    pub link: String,
    pub group_name: String,
    pub group_chat_link: String,
}

/// The view of a `MeetupMetadata`.
pub struct MetadataView {
    pub number: nat,
    pub date: Seq<char>,
    pub link: Seq<char>,
    pub group_name: Seq<char>,
    pub group_chat_link: Seq<char>,
}

impl View for MeetupMetadata {
    type V = MetadataView;

    open spec fn view(&self) -> MetadataView {
        MetadataView {
            number: self.number as nat,
            date: self.date@,
            link: self.link@,
            group_name: self.group_name@,
            group_chat_link: self.group_chat_link@,
        }
    }
}

/// The header of a post: front matter, notices, thanks, and the heading of
/// the schedule followed by an empty line.
pub open spec fn header(m: MetadataView) -> Seq<char> {
    HEADER_OPENING@ + decimal(m.number) + HEADER_MEETUP@ + m.link + HEADER_NOTICES@ + m.group_name
        + HEADER_CHAT@ + m.group_chat_link + HEADER_CLOSING@ + "\n"@
}

/// Writes the header of a post.
pub fn render_header(m: &MeetupMetadata) -> (r: String)
    ensures
        r@ == header(m@),
{
    let mut r = String::new();
    r.append(HEADER_OPENING);
    r.append(format_decimal(m.number as u64).as_str());
    r.append(HEADER_MEETUP);
    r.append(m.link.as_str());
    r.append(HEADER_NOTICES);
    r.append(m.group_name.as_str());
    r.append(HEADER_CHAT);
    r.append(m.group_chat_link.as_str());
    r.append(HEADER_CLOSING);
    r.append("\n");
    r
}

/// The top-level bullet of an entry: its title, leading to its headline link.
pub open spec fn bullet(title: Seq<char>, url: Seq<char>) -> Seq<char> {
    "* ["@ + title + "]("@ + url + ")\n"@
}

/// The bullet of a further link, nested under the entry by four spaces.
pub open spec fn sub_bullet(label: Seq<char>, url: Seq<char>) -> Seq<char> {
    "    - ["@ + label + "]("@ + url + ")\n"@
}

/// The lines of one entry: its bullet, then one nested bullet for each link
/// after the first, in their order. An entry without a link has nothing to
/// lead to and gives no line.
pub open spec fn entry_lines(e: EntryView) -> Seq<Seq<char>> {
    if e.links.len() == 0 {
        Seq::empty()
    } else {
        seq![bullet(e.title, e.links[0].url)] + e.links.skip(1).map_values(
            |l: LinkView| sub_bullet(l.display_label, l.url),
        )
    }
}

/// The lines of the schedule: those of each entry, in the entries' order.
pub open spec fn schedule_lines(entries: Seq<EntryView>) -> Seq<Seq<char>>
    decreases entries.len(),
{
    if entries.len() == 0 {
        Seq::empty()
    } else {
        schedule_lines(entries.drop_last()) + entry_lines(entries.last())
    }
}

/// The whole document: the header, then every line of the schedule.
pub open spec fn render_spec(m: MetadataView, entries: Seq<EntryView>) -> Seq<char> {
    header(m) + schedule_lines(entries).flatten()
}

/// The views of a sequence of entries.
pub open spec fn entry_views(entries: Seq<ParsedEntry>) -> Seq<EntryView> {
    entries.map_values(|e: ParsedEntry| e@)
}

/// The schedule keeps the entries' order: the lines of two runs of entries,
/// one after the other, are the lines of the first run followed by those of
/// the second.
pub proof fn lemma_schedule_lines_concat(first: Seq<EntryView>, second: Seq<EntryView>)
    ensures
        schedule_lines(first + second) == schedule_lines(first) + schedule_lines(second),
    decreases second.len(),
{
    if second.len() == 0 {
        assert(first + second == first);
    } else {
        assert((first + second).drop_last() == first + second.drop_last());
        lemma_schedule_lines_concat(first, second.drop_last());
    }
}

/// A comment with a title and link lines that all resolve renders as one
/// top-level bullet and one nested bullet for each link line after the
/// first, in the lines' order, each under the domain of its URL. Here
/// `parsed[k]` is what the parser made of link line `k`.
pub proof fn lemma_resolved_comment_renders_nested(
    body: Seq<char>,
    parsed: Seq<Option<ParsedUrlView>>,
    m: MetadataView,
)
    requires
        nonempty_lines(body).len() >= 2,
        parsed.len() == nonempty_lines(body).len() - 1,
        forall|k: int| 0 <= k < parsed.len() ==> resolved(#[trigger] parsed[k]) is Ok,
    ensures
        outline_of(body) is Some,
        entry_of(outline_of(body)->0, parsed, Mode::MultiLink) is Ok,
        ({
            let lines = nonempty_lines(body);
            let e = entry_of(outline_of(body)->0, parsed, Mode::MultiLink)->Ok_0;
            let out = entry_lines(e);
            &&& out.len() == parsed.len()
            &&& out[0] == bullet(trimmed(lines[0]), trimmed(lines[1]))
            &&& forall|k: int|
                1 <= k < out.len() ==> #[trigger] out[k] == sub_bullet(
                    parsed[k]->0.domain->0,
                    parsed[k]->0.serialization,
                )
            &&& render_spec(m, seq![e]) == header(m) + out.flatten()
        }),
{
    let o = outline_of(body)->0;
    lemma_links_of_resolved_lines(o.title, o.link_lines, parsed);
    let e = entry_of(o, parsed, Mode::MultiLink)->Ok_0;
    let out = entry_lines(e);
    assert forall|k: int| 1 <= k < out.len() implies #[trigger] out[k] == sub_bullet(
        parsed[k]->0.domain->0,
        parsed[k]->0.serialization,
    ) by {
        assert(e.links[k] == resolved(parsed[k])->Ok_0);
        assert(e.links.skip(1)[k - 1] == e.links[k]);
    }
    assert(schedule_lines(seq![e]) == out) by {
        reveal_with_fuel(schedule_lines, 2);
    }
}

/// Rendering is a function of what its inputs hold: two results of `render`
/// for metadata and entries with the same views are the same text.
pub proof fn lemma_render_deterministic(
    metadata1: MeetupMetadata,
    entries1: Vec<ParsedEntry>,
    text1: String,
    metadata2: MeetupMetadata,
    entries2: Vec<ParsedEntry>,
    text2: String,
)
    requires
        metadata1@ == metadata2@,
        entry_views(entries1@) == entry_views(entries2@),
        text1@ == render_spec(metadata1@, entry_views(entries1@)),
        text2@ == render_spec(metadata2@, entry_views(entries2@)),
    ensures
        text1@ == text2@,
{
}

/// Appends the top-level bullet of an entry to `out`.
fn push_bullet(out: &mut String, title: &str, url: &str)
    ensures
        final(out)@ == old(out)@ + bullet(title@, url@),
{
    out.append("* [");
    out.append(title);
    out.append("](");
    out.append(url);
    out.append(")\n");
    assert(out@ == old(out)@ + bullet(title@, url@));
}

/// Appends the nested bullet of a link to `out`.
fn push_sub_bullet(out: &mut String, link: &Link)
    ensures
        final(out)@ == old(out)@ + sub_bullet(link@.display_label, link@.url),
{
    out.append("    - [");
    out.append(link.display_label.as_str());
    out.append("](");
    out.append(link.url.as_str());
    out.append(")\n");
    assert(out@ == old(out)@ + sub_bullet(link@.display_label, link@.url));
}

/// Appends the lines of one entry to `out`.
fn push_entry(out: &mut String, e: &ParsedEntry)
    ensures
        final(out)@ == old(out)@ + entry_lines(e@).flatten(),
{
    let n = e.links.len();
    if n == 0 {
        assert(out@ == old(out)@ + Seq::<Seq<char>>::empty().flatten());
        return ;
    }
    let ghost lines = entry_lines(e@);
    push_bullet(out, e.title.as_str(), e.links[0].url.as_str());
    proof {
        lines.take(1).lemma_flatten_one_element();
    }
    let mut k: usize = 1;
    while k < n
        invariant
            1 <= k <= n == e.links@.len() == lines.len(),
            lines == entry_lines(e@),
            out@ == old(out)@ + lines.take(k as int).flatten(),
        decreases n - k,
    {
        push_sub_bullet(out, &e.links[k]);
        proof {
            assert(lines.take(k + 1) == lines.take(k as int).push(lines[k as int]));
            lines.take(k as int).lemma_flatten_push(lines[k as int]);
        }
        k = k + 1;
    }
    assert(lines.take(n as int) == lines);
}

/// Writes the Markdown of a post: the header for `metadata`, then the entries
/// in the order given, none left out and none moved.
pub fn render(metadata: &MeetupMetadata, entries: &Vec<ParsedEntry>) -> (r: String)
    ensures
        r@ == render_spec(metadata@, entry_views(entries@)),
{
    let mut r = render_header(metadata);
    let ghost all = entry_views(entries@);
    let n = entries.len();
    let mut i: usize = 0;
    assert(all.take(0).len() == 0);
    while i < n
        invariant
            i <= n == entries@.len() == all.len(),
            all == entry_views(entries@),
            r@ == header(metadata@) + schedule_lines(all.take(i as int)).flatten(),
        decreases n - i,
    {
        push_entry(&mut r, &entries[i]);
        proof {
            assert(all.take(i + 1).drop_last() == all.take(i as int));
            assert(all.take(i + 1).last() == entries@[i as int]@);
            lemma_flatten_concat(schedule_lines(all.take(i as int)), entry_lines(all[i as int]));
        }
        i = i + 1;
    }
    assert(all.take(n as int) == all);
    r
}

} // verus!
