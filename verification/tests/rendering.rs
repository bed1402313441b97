use socratic_post::config::Env;
use socratic_post::entry::{parse, Mode, ParsedEntry};
use socratic_post::error::WritePostMarkdownError;
use socratic_post::github::Comment;
use socratic_post::link::Link;
use socratic_post::post::{collect_entries, post_file_name, render_post, WritePostMarkdownParams};
use socratic_post::render::{render, render_header, MeetupMetadata};

const HEADER_12: &str = "---\nlayout: post\ntype: socratic\ntitle: \"Seminário Socrático 12\"\nmeetup: https://meet.example/x\n---\n\n## Avisos\n\n- Entrem no grupo do Whatsapp [Grupo](https://chat.example/g)!\n- Respeite a privacidade dos participantes.\n- Os meetups nunca são gravados. Queremos todos a vontade para participar e discutir os assuntos programados, de forma anônima se assim o desejarem.\n\n## Agradecimentos\n\n- Agradecemos à Vinteum pela casa, comidas e bebidas.\n\n## Cronograma\n\n";

fn metadata() -> MeetupMetadata {
    MeetupMetadata {
        number: 12,
        date: "2024-05-01".to_string(),
        link: "https://meet.example/x".to_string(),
        group_name: "Grupo".to_string(),
        group_chat_link: "https://chat.example/g".to_string(),
    }
}

fn env() -> Env {
    Env {
        meetup_name: "Grupo".to_string(),
        meetup_chat_link: "https://chat.example/g".to_string(),
        gh_api_project_name: "announcer".to_string(),
        gh_api_token: "SECRET-REDACTED".to_string(),
        repo_org: "org".to_string(),
        repo_name: "repo".to_string(),
    }
}

fn params(bodies: &[&str]) -> WritePostMarkdownParams {
    WritePostMarkdownParams {
        meetup_date: "2024-05-01".to_string(),
        meetup_number: 12,
        meetup_link: "https://meet.example/x".to_string(),
        comments: bodies.iter().map(|b| Comment { body: b.to_string() }).collect(),
    }
}

fn link(label: &str, url: &str) -> Link {
    Link { display_label: label.to_string(), url: url.to_string() }
}

#[test]
fn header_exact_text() {
    assert_eq!(render_header(&metadata()), HEADER_12);
}

#[test]
fn header_ends_with_an_empty_line() {
    assert!(render_header(&metadata()).ends_with("## Cronograma\n\n"));
}

#[test]
fn render_without_entries_is_the_header() {
    assert_eq!(render(&metadata(), &Vec::new()), HEADER_12);
}

#[test]
fn schnorr_example_renders_bullet_and_nested_bullet() {
    let body =
        "Talk: Schnorr signatures\r\nhttps://example.com/talk\r\nhttps://docs.example.org/spec";
    let post = render_post(&env(), &params(&[body]), Mode::MultiLink).unwrap();
    let expected = format!(
        "{}{}",
        HEADER_12,
        "* [Talk: Schnorr signatures](https://example.com/talk)\n    - [docs.example.org](https://docs.example.org/spec)\n"
    );
    assert_eq!(post.markdown, expected);
    assert_eq!(post.file_name, "2024-05-01-socratic-seminar-12.md");
}

#[test]
fn blank_comment_contributes_no_line() {
    let post = render_post(&env(), &params(&["\r\n\r\n"]), Mode::MultiLink).unwrap();
    assert_eq!(post.markdown, HEADER_12);
    let with = render_post(
        &env(),
        &params(&["A\r\nhttps://a.example/", "\r\n\r\n", "B\r\nhttps://b.example/"]),
        Mode::MultiLink,
    )
    .unwrap();
    let without = render_post(
        &env(),
        &params(&["A\r\nhttps://a.example/", "B\r\nhttps://b.example/"]),
        Mode::MultiLink,
    )
    .unwrap();
    assert_eq!(with.markdown, without.markdown);
}

#[test]
fn n_links_give_one_bullet_and_n_minus_one_nested() {
    let body = "T\r\nhttps://a.example/1\r\nhttps://b.example/2\r\nhttps://c.example/3\r\nhttps://d.example/4";
    let e = parse(body, Mode::MultiLink).unwrap().unwrap();
    let out = render(&metadata(), &vec![e]);
    let schedule = &out[HEADER_12.len()..];
    let lines: Vec<&str> = schedule.lines().collect();
    assert_eq!(
        lines,
        vec![
            "* [T](https://a.example/1)",
            "    - [b.example](https://b.example/2)",
            "    - [c.example](https://c.example/3)",
            "    - [d.example](https://d.example/4)",
        ]
    );
    assert!(schedule.ends_with('\n'));
}

#[test]
fn entry_without_links_renders_nothing() {
    let e = ParsedEntry { title: "Lonely".to_string(), links: Vec::new() };
    assert_eq!(render(&metadata(), &vec![e]), HEADER_12);
    let post = render_post(&env(), &params(&["Lonely"]), Mode::MultiLink).unwrap();
    assert_eq!(post.markdown, HEADER_12);
}

#[test]
fn render_uses_the_title_for_the_bullet() {
    let e = ParsedEntry {
        title: "Title".to_string(),
        links: vec![link("unused", "https://a.example/"), link("b", "https://b.example/")],
    };
    let out = render(&metadata(), &vec![e]);
    assert_eq!(&out[HEADER_12.len()..], "* [Title](https://a.example/)\n    - [b](https://b.example/)\n");
}

#[test]
fn entries_keep_the_order_of_the_comments() {
    let bodies = ["B\r\nhttps://b.example/", "A\r\nhttps://a.example/", "B\r\nhttps://b.example/"];
    let post = render_post(&env(), &params(&bodies), Mode::MultiLink).unwrap();
    assert_eq!(
        &post.markdown[HEADER_12.len()..],
        "* [B](https://b.example/)\n* [A](https://a.example/)\n* [B](https://b.example/)\n"
    );
}

#[test]
fn render_is_deterministic() {
    let bodies = ["A\r\nhttps://a.example/\r\nhttps://x.example/y", "B\r\nhttps://b.example/"];
    let one = render_post(&env(), &params(&bodies), Mode::MultiLink).unwrap();
    let two = render_post(&env(), &params(&bodies), Mode::MultiLink).unwrap();
    assert_eq!(one.markdown.as_bytes(), two.markdown.as_bytes());
    assert_eq!(one.file_name, two.file_name);
}

#[test]
fn a_bad_link_leaves_no_post() {
    let bodies = ["A\r\nhttps://a.example/", "B\r\nhttps://b.example/\r\nnot a url"];
    let r = render_post(&env(), &params(&bodies), Mode::MultiLink);
    assert!(matches!(r, Err(WritePostMarkdownError::Parse(_))));
    let r = render_post(&env(), &params(&["B\r\nhttps://b.example/\r\nhttps://[::1]/"]), Mode::MultiLink);
    assert!(matches!(r, Err(WritePostMarkdownError::Domain)));
}

#[test]
fn the_first_bad_comment_decides_the_error() {
    let bodies = ["A\r\nhttps://10.0.0.1/", "B\r\nnot a url"];
    let r = collect_entries(&params(&bodies).comments, Mode::MultiLink);
    assert!(matches!(r, Err(WritePostMarkdownError::Domain)));
}

#[test]
fn simple_mode_never_fails_and_renders_one_bullet() {
    let bodies = ["A\r\nnot a url\r\nignored", "\r\n", "B"];
    let post = render_post(&env(), &params(&bodies), Mode::Simple).unwrap();
    assert_eq!(&post.markdown[HEADER_12.len()..], "* [A](not a url)\n");
}

#[test]
fn collect_entries_skips_comments_without_entry() {
    let bodies = ["", "A\r\nhttps://a.example/", "\r\n"];
    let entries = collect_entries(&params(&bodies).comments, Mode::MultiLink).unwrap();
    assert_eq!(entries.len(), 1);
    assert_eq!(entries[0].title, "A");
}

#[test]
fn file_name_exact_values() {
    assert_eq!(post_file_name("2024-05-01", 12), "2024-05-01-socratic-seminar-12.md");
    assert_eq!(post_file_name("", 0), "-socratic-seminar-0.md");
    assert_eq!(post_file_name("1 de maio", 65535), "1 de maio-socratic-seminar-65535.md");
}

#[test]
fn header_takes_every_field_as_it_stands() {
    let m = MeetupMetadata {
        number: 0,
        date: "unused".to_string(),
        link: "L".to_string(),
        group_name: "N".to_string(),
        group_chat_link: "C".to_string(),
    };
    let h = render_header(&m);
    assert!(h.starts_with("---\nlayout: post\ntype: socratic\ntitle: \"Seminário Socrático 0\"\nmeetup: L\n---\n\n## Avisos\n\n- Entrem no grupo do Whatsapp [N](C)!\n"));
    assert!(!h.contains("unused"));
}
