use socratic_post::config::{ConfigKey, Env};
use socratic_post::github::{
    advance, begin, issue_address, Comment, FetchAction, FetchEvent, FetchState, GetCommentsError,
    GetIssueResponse, ACCEPT_VALUE, API_URL,
};

fn env_with(project: &str, token: &str) -> Env {
    Env {
        meetup_name: "Grupo".to_string(),
        meetup_chat_link: "https://chat.example/g".to_string(),
        gh_api_project_name: project.to_string(),
        gh_api_token: token.to_string(),
        repo_org: "org".to_string(),
        repo_name: "repo".to_string(),
    }
}

fn transport_error() -> reqwest::Error {
    reqwest::blocking::Client::new().get("not a url").send().unwrap_err()
}

#[test]
fn issue_address_exact_value() {
    assert_eq!(
        issue_address(&env_with("a", "b"), 42),
        "https://api.github.com/repos/org/repo/issues/42"
    );
    assert_eq!(
        issue_address(&env_with("a", "b"), 0),
        "https://api.github.com/repos/org/repo/issues/0"
    );
}

#[test]
fn constants_exact_values() {
    assert_eq!(API_URL, "https://api.github.com");
    assert_eq!(ACCEPT_VALUE, "application/vnd.github+json");
}

#[test]
fn begin_asks_for_the_issue() {
    let (headers, state, action) = begin(&env_with("announcer", "Bearer abc"), 7).unwrap();
    assert_eq!(headers.user_agent, "announcer");
    assert_eq!(headers.authorization, "Bearer abc");
    assert_eq!(headers.accept, "application/vnd.github+json");
    assert_eq!(state, FetchState::IssueRequested);
    match action {
        FetchAction::Get(url) => assert_eq!(url, "https://api.github.com/repos/org/repo/issues/7"),
        other => panic!("{:?}", other),
    }
}

#[test]
fn begin_refuses_a_name_that_is_no_header_value() {
    for bad in ["two\nlines", "bell\u{7}", "del\u{7f}", "\r"] {
        let r = begin(&env_with(bad, "token"), 1);
        assert!(matches!(r, Err(GetCommentsError::InvalidHeader(_))), "{:?}", bad);
    }
}

#[test]
fn begin_refuses_a_token_that_is_no_header_value() {
    let r = begin(&env_with("announcer", "to\u{0}ken"), 1);
    assert!(matches!(r, Err(GetCommentsError::InvalidHeader(_))));
}

#[test]
fn begin_accepts_tabs_and_characters_outside_ascii() {
    for good in ["", "a\tb", "Seminário", "\u{80}", "~ !"] {
        assert!(begin(&env_with(good, good), 1).is_ok(), "{:?}", good);
    }
}

#[test]
fn header_rule_agrees_with_the_header_type_on_every_char() {
    let mut n: u32 = 0;
    while n <= 0x10ffff {
        if let Some(c) = char::from_u32(n) {
            let text = c.to_string();
            let expected = reqwest::header::HeaderValue::from_str(&text).is_ok();
            assert_eq!(begin(&env_with(&text, "t"), 1).is_ok(), expected, "U+{:04X}", n);
            n += if n < 0x400 { 1 } else { 0x101 };
        } else {
            n += 1;
        }
    }
}

#[test]
fn status_200_goes_on_to_decoding() {
    let r = advance(FetchState::IssueRequested, FetchEvent::Status(200)).unwrap();
    assert_eq!(r.0, FetchState::IssueAccepted);
    assert!(matches!(r.1, FetchAction::DecodeIssue));
    let r = advance(FetchState::CommentsRequested, FetchEvent::Status(200)).unwrap();
    assert_eq!(r.0, FetchState::CommentsAccepted);
    assert!(matches!(r.1, FetchAction::DecodeComments));
}

#[test]
fn any_other_status_is_not_ok() {
    for state in [FetchState::IssueRequested, FetchState::CommentsRequested] {
        for code in [0u16, 199, 201, 204, 301, 404, 500, 65535] {
            let r = advance(state, FetchEvent::Status(code)).unwrap();
            assert_eq!(r.0, FetchState::Closed);
            assert!(matches!(r.1, FetchAction::Abort(GetCommentsError::NotOk)), "{}", code);
        }
    }
}

#[test]
fn the_issue_names_where_the_comments_are() {
    let issue = GetIssueResponse { comments_url: "https://api.example/c".to_string() };
    let r = advance(FetchState::IssueAccepted, FetchEvent::Issue(issue)).unwrap();
    assert_eq!(r.0, FetchState::CommentsRequested);
    match r.1 {
        FetchAction::Get(url) => assert_eq!(url, "https://api.example/c"),
        other => panic!("{:?}", other),
    }
}

#[test]
fn the_comments_are_delivered_in_order() {
    let comments =
        vec![Comment { body: "b".to_string() }, Comment { body: "a".to_string() }];
    let r = advance(FetchState::CommentsAccepted, FetchEvent::Comments(comments)).unwrap();
    assert_eq!(r.0, FetchState::Closed);
    match r.1 {
        FetchAction::Deliver(c) => {
            let bodies: Vec<&str> = c.iter().map(|c| c.body.as_str()).collect();
            assert_eq!(bodies, vec!["b", "a"]);
        }
        other => panic!("{:?}", other),
    }
}

#[test]
fn a_failure_aborts_from_every_open_state() {
    for state in [
        FetchState::IssueRequested,
        FetchState::IssueAccepted,
        FetchState::CommentsRequested,
        FetchState::CommentsAccepted,
    ] {
        let r = advance(state, FetchEvent::Failed(transport_error())).unwrap();
        assert_eq!(r.0, FetchState::Closed);
        assert!(matches!(r.1, FetchAction::Abort(GetCommentsError::Reqwest(_))));
    }
}

#[test]
fn an_event_that_answers_nothing_gives_no_step() {
    assert!(advance(FetchState::Closed, FetchEvent::Status(200)).is_none());
    assert!(advance(FetchState::Closed, FetchEvent::Failed(transport_error())).is_none());
    assert!(advance(FetchState::IssueRequested, FetchEvent::Comments(Vec::new())).is_none());
    assert!(advance(FetchState::IssueAccepted, FetchEvent::Status(200)).is_none());
    assert!(advance(FetchState::CommentsAccepted, FetchEvent::Status(200)).is_none());
    let issue = GetIssueResponse { comments_url: String::new() };
    assert!(advance(FetchState::CommentsRequested, FetchEvent::Issue(issue)).is_none());
}

#[test]
fn a_whole_fetch_runs_through_five_steps() {
    let (_, mut state, mut action) = begin(&env_with("announcer", "token"), 3).unwrap();
    let mut seen = Vec::new();
    loop {
        let event = match action {
            FetchAction::Get(url) => {
                seen.push(url);
                FetchEvent::Status(200)
            }
            FetchAction::DecodeIssue => FetchEvent::Issue(GetIssueResponse {
                comments_url: "https://api.example/c".to_string(),
            }),
            FetchAction::DecodeComments => {
                FetchEvent::Comments(vec![Comment { body: "T\r\nhttps://a.example/".to_string() }])
            }
            FetchAction::Deliver(c) => {
                assert_eq!(c.len(), 1);
                break;
            }
            FetchAction::Abort(e) => panic!("{:?}", e),
        };
        let next = advance(state, event).unwrap();
        state = next.0;
        action = next.1;
    }
    assert_eq!(state, FetchState::Closed);
    assert_eq!(seen, vec!["https://api.github.com/repos/org/repo/issues/3", "https://api.example/c"]);
}

#[test]
fn settings_need_all_six_values() {
    let s = |t: &str| Some(t.to_string());
    let env = Env::from_values(s("a"), s("b"), s("c"), s("d"), s("e"), s("f")).unwrap();
    assert_eq!(env.meetup_name, "a");
    assert_eq!(env.meetup_chat_link, "b");
    assert_eq!(env.gh_api_project_name, "c");
    assert_eq!(env.gh_api_token, "d");
    assert_eq!(env.repo_org, "e");
    assert_eq!(env.repo_name, "f");
}

#[test]
fn the_first_missing_setting_is_named() {
    let s = |t: &str| Some(t.to_string());
    let e = |r: Result<Env, ConfigKey>| r.unwrap_err();
    assert_eq!(e(Env::from_values(None, None, None, None, None, None)), ConfigKey::MeetupName);
    assert_eq!(e(Env::from_values(s("a"), None, s("c"), None, s("e"), s("f"))), ConfigKey::MeetupChatLink);
    assert_eq!(e(Env::from_values(s("a"), s("b"), None, s("d"), s("e"), None)), ConfigKey::GhApiProjectName);
    assert_eq!(e(Env::from_values(s("a"), s("b"), s("c"), None, None, None)), ConfigKey::GhApiToken);
    assert_eq!(e(Env::from_values(s("a"), s("b"), s("c"), s("d"), None, s("f"))), ConfigKey::RepoOrg);
    assert_eq!(e(Env::from_values(s("a"), s("b"), s("c"), s("d"), s("e"), None)), ConfigKey::RepoName);
}

#[test]
fn setting_names_and_messages_exact() {
    assert_eq!(ConfigKey::MeetupName.name(), "MEETUP_NAME");
    assert_eq!(ConfigKey::MeetupChatLink.name(), "MEETUP_CHAT_LINK");
    assert_eq!(ConfigKey::GhApiProjectName.name(), "GH_API_PROJECT_NAME");
    assert_eq!(ConfigKey::GhApiToken.name(), "GH_API_TOKEN");
    assert_eq!(ConfigKey::RepoOrg.name(), "REPO_ORG");
    assert_eq!(ConfigKey::RepoName.name(), "REPO_NAME");
    assert_eq!(ConfigKey::RepoOrg.missing(), "REPO_ORG environment variable not set");
}
