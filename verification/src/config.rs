//! The settings that a run needs, and what is missing where one is absent.

use vstd::prelude::*;

verus! {

/// One of the settings that a run cannot do without.
#[derive(Clone, Copy, Debug, PartialEq, Eq, Structural)]
pub enum ConfigKey {
    MeetupName,
    MeetupChatLink,
    GhApiProjectName,
    GhApiToken,
    RepoOrg,
    RepoName,
}

/// The name of the environment variable that holds the setting `key`.
pub open spec fn variable_name(key: ConfigKey) -> Seq<char> {
    match key {
        ConfigKey::MeetupName => "MEETUP_NAME"@,
        ConfigKey::MeetupChatLink => "MEETUP_CHAT_LINK"@,
        ConfigKey::GhApiProjectName => "GH_API_PROJECT_NAME"@,
        ConfigKey::GhApiToken => "GH_API_TOKEN"@,
        ConfigKey::RepoOrg => "REPO_ORG"@,
        ConfigKey::RepoName => "REPO_NAME"@,
    }
}

/// What is said when the setting `key` is absent.
pub open spec fn missing_message(key: ConfigKey) -> Seq<char> {
    variable_name(key) + " environment variable not set"@
}

impl ConfigKey {
    /// The name of the environment variable that holds this setting.
    pub fn name(self) -> (r: &'static str)
        ensures
            r@ == variable_name(self),
    {
        match self {
            ConfigKey::MeetupName => "MEETUP_NAME",
            ConfigKey::MeetupChatLink => "MEETUP_CHAT_LINK",
            ConfigKey::GhApiProjectName => "GH_API_PROJECT_NAME",
            ConfigKey::GhApiToken => "GH_API_TOKEN",
            ConfigKey::RepoOrg => "REPO_ORG",
            ConfigKey::RepoName => "REPO_NAME",
        }
    }

    /// What to say when this setting is absent.
    pub fn missing(self) -> (r: String)
        ensures
            r@ == missing_message(self),
    {
        let mut r = String::new();
        r.append(self.name());
        r.append(" environment variable not set");
        r
    }
}

/// The settings of a run: who meets, and where the topics are collected.
#[derive(Clone, Debug)]
pub struct Env {
    pub meetup_name: String,
    pub meetup_chat_link: String,
    pub gh_api_project_name: String,
    pub gh_api_token: String,
    pub repo_org: String,
    pub repo_name: String,
}

/// The view of an optional string.
pub open spec fn optional_view(s: Option<String>) -> Option<Seq<char>> {
    match s {
        Some(s) => Some(s@),
        None => None,
    }
}

/// The first of the six settings that is absent, in the order in which `Env`
/// lists them; none where all are present.
pub open spec fn first_missing(
    meetup_name: Option<Seq<char>>,
    meetup_chat_link: Option<Seq<char>>,
    gh_api_project_name: Option<Seq<char>>,
    gh_api_token: Option<Seq<char>>,
    repo_org: Option<Seq<char>>,
    repo_name: Option<Seq<char>>,
) -> Option<ConfigKey> {
    if meetup_name is None {
        Some(ConfigKey::MeetupName)
    } else if meetup_chat_link is None {
        Some(ConfigKey::MeetupChatLink)
    } else if gh_api_project_name is None {
        Some(ConfigKey::GhApiProjectName)
    } else if gh_api_token is None {
        Some(ConfigKey::GhApiToken)
    } else if repo_org is None {
        Some(ConfigKey::RepoOrg)
    } else if repo_name is None {
        Some(ConfigKey::RepoName)
    } else {
        None
    }
}

impl Env {
    /// The settings from the six values as they were looked up. Where one is
    /// absent there are no settings, and the first absent one is named.
    pub fn from_values(
        meetup_name: Option<String>,
        meetup_chat_link: Option<String>,
        gh_api_project_name: Option<String>,
        gh_api_token: Option<String>,
        repo_org: Option<String>,
        repo_name: Option<String>,
    ) -> (r: Result<Env, ConfigKey>)
        ensures
            r is Ok <==> first_missing(
                optional_view(meetup_name),
                optional_view(meetup_chat_link),
                optional_view(gh_api_project_name),
                optional_view(gh_api_token),
                optional_view(repo_org),
                optional_view(repo_name),
            ) is None,
            match r {
                Ok(env) => {
                    &&& meetup_name == Some(env.meetup_name)
                    &&& meetup_chat_link == Some(env.meetup_chat_link)
                    &&& gh_api_project_name == Some(env.gh_api_project_name)
                    &&& gh_api_token == Some(env.gh_api_token)
                    &&& repo_org == Some(env.repo_org)
                    &&& repo_name == Some(env.repo_name)
                },
                Err(key) => first_missing(
                    optional_view(meetup_name),
                    optional_view(meetup_chat_link),
                    optional_view(gh_api_project_name),
                    optional_view(gh_api_token),
                    optional_view(repo_org),
                    optional_view(repo_name),
                ) == Some(key),
            },
    {
        let meetup_name = match meetup_name {
            Some(v) => v,
            None => {
                return Err(ConfigKey::MeetupName);
            },
        };
        let meetup_chat_link = match meetup_chat_link {
            Some(v) => v,
            None => {
                return Err(ConfigKey::MeetupChatLink);
            },
        };
        let gh_api_project_name = match gh_api_project_name {
            Some(v) => v,
            None => {
                return Err(ConfigKey::GhApiProjectName);
            },
        };
        let gh_api_token = match gh_api_token {
            Some(v) => v,
            None => {
                return Err(ConfigKey::GhApiToken);
            },
        };
        let repo_org = match repo_org {
            Some(v) => v,
            None => {
                return Err(ConfigKey::RepoOrg);
            },
        };
        let repo_name = match repo_name {
            Some(v) => v,
            None => {
                return Err(ConfigKey::RepoName);
            },
        };
        Ok(Env { meetup_name, meetup_chat_link, gh_api_project_name, gh_api_token, repo_org, repo_name })
    }
}

} // verus!
