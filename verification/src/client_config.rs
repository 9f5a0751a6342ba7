//! The Bird client's local configuration and the status shown on its
//! onboarding screen.
//!
//! Non-sensitive values (Nest URL, username, Bird id and name) are kept in a
//! JSON file in the OS configuration folder; tokens live in the OS credential
//! store. Reading and writing the file is the caller's work.
use vstd::prelude::*;

use crate::ids::{uuid_text, uuid_to_string};
use crate::text::str_eq;

verus! {

broadcast use vstd::string::group_string_axioms;

/// Name of the client's folder inside the OS configuration folder.
pub const APP_NAME: &'static str = "nest-bird";

/// File name of the configuration file.
pub const CONFIG_FILE: &'static str = "config.json";

/// User-facing application configuration persisted to disk.
#[derive(Debug)]
pub struct AppConfig {
    /// Base URL of the Nest server.
    pub nest_url: String,
    /// Human-readable name of this Bird device.
    pub bird_name: String,
    /// Platform reported when the device registers.
    pub platform: String,
    /// Username of the signed-in Flock.
    pub flock_username: Option<String>,
    /// Id of this Bird once registered with the Nest.
    pub bird_id: Option<u128>,
}

/// The platform text reported for an operating system name
/// (`std::env::consts::OS`).
pub open spec fn platform_text_of_os(os: Seq<char>) -> Seq<char> {
    if os == "windows"@ {
        "windows"@
    } else if os == "linux"@ {
        "linux"@
    } else if os == "macos"@ {
        "macos"@
    } else {
        "other"@
    }
}

/// The device name from the machine's host name when it is known and not
/// empty.
pub open spec fn bird_name_from(host: Option<String>) -> Seq<char> {
    match host {
        Some(h) => if h@.len() > 0 {
            h@
        } else {
            "Unknown Bird"@
        },
        None => "Unknown Bird"@,
    }
}

/// Default Nest URL: the server on this machine.
pub fn default_nest_url() -> (u: String)
    ensures
        u@ == "http://127.0.0.1:8140"@,
{
    "http://127.0.0.1:8140".to_string()
}

/// Default device name, from the host name the caller read
/// (`COMPUTERNAME` on Windows, `HOSTNAME` elsewhere).
pub fn default_bird_name(host: Option<String>) -> (n: String)
    ensures
        n@ == bird_name_from(host),
{
    match host {
        Some(h) => if h.as_str().is_empty() {
            "Unknown Bird".to_string()
        } else {
            h
        },
        None => "Unknown Bird".to_string(),
    }
}

/// Default platform text for the operating system the Bird runs on.
pub fn default_platform(os: &str) -> (p: String)
    ensures
        p@ == platform_text_of_os(os@),
{
    if str_eq(os, "windows") {
        "windows".to_string()
    } else if str_eq(os, "linux") {
        "linux".to_string()
    } else if str_eq(os, "macos") {
        "macos".to_string()
    } else {
        "other".to_string()
    }
}

impl AppConfig {
    /// The configuration of a first run.
    pub fn first_run(host: Option<String>, os: &str) -> (c: Self)
        ensures
            c.nest_url@ == "http://127.0.0.1:8140"@,
            c.bird_name@ == bird_name_from(host),
            c.platform@ == platform_text_of_os(os@),
            c.flock_username is None,
            c.bird_id is None,
    {
        AppConfig {
            nest_url: default_nest_url(),
            bird_name: default_bird_name(host),
            platform: default_platform(os),
            flock_username: None,
            bird_id: None,
        }
    }

    /// The configuration after signing in as `username`; a known Bird id is
    /// recorded too.
    pub fn signed_in(self, username: String, bird_id: Option<u128>) -> (c: Self)
        ensures
            c.nest_url == self.nest_url,
            c.bird_name == self.bird_name,
            c.platform == self.platform,
            c.flock_username == Some(username),
            c.bird_id == match bird_id {
                Some(id) => Some(id),
                None => self.bird_id,
            },
    {
        let mut c = self;
        c.flock_username = Some(username);
        match bird_id {
            Some(id) => {
                c.bird_id = Some(id);
            },
            None => {},
        }
        c
    }

    /// The configuration after this device registered as a Bird.
    pub fn registered(self, bird_id: u128, bird_name: String) -> (c: Self)
        ensures
            c.nest_url == self.nest_url,
            c.bird_name == bird_name,
            c.platform == self.platform,
            c.flock_username == self.flock_username,
            c.bird_id == Some(bird_id),
    {
        let mut c = self;
        c.bird_id = Some(bird_id);
        c.bird_name = bird_name;
        c
    }

    /// The configuration after signing out: no user, no Bird id.
    pub fn signed_out(self) -> (c: Self)
        ensures
            c.nest_url == self.nest_url,
            c.bird_name == self.bird_name,
            c.platform == self.platform,
            c.flock_username is None,
            c.bird_id is None,
    {
        AppConfig {
            nest_url: self.nest_url,
            bird_name: self.bird_name,
            platform: self.platform,
            flock_username: None,
            bird_id: None,
        }
    }
}

/// Where the configuration file lives.
pub struct ConfigStore {
    path: String,
}

impl ConfigStore {
    /// A store for the file at `path`.
    pub fn new(path: String) -> (s: Self)
        ensures
            s.path_spec() == path@,
    {
        ConfigStore { path }
    }

    pub closed spec fn path_spec(&self) -> Seq<char> {
        self.path@
    }

    /// Path to the on-disk configuration file.
    pub fn path(&self) -> (p: &str)
        ensures
            p@ == self.path_spec(),
    {
        self.path.as_str()
    }
}

/// Application status shown on the onboarding screen.
#[derive(Debug)]
pub struct StatusResponse {
    pub nest_url: String,
    pub bird_name: String,
    pub platform: String,
    pub authenticated: bool,
    pub flock_username: Option<String>,
    pub bird_id: Option<String>,
}

/// The status for a configuration; `authenticated` tells whether a signed-in
/// Nest client is held.
pub fn status_response(config: AppConfig, authenticated: bool) -> (s: StatusResponse)
    ensures
        s.nest_url == config.nest_url,
        s.bird_name == config.bird_name,
        s.platform == config.platform,
        s.authenticated == authenticated,
        s.flock_username == config.flock_username,
        match config.bird_id {
            Some(id) => s.bird_id matches Some(t) && t@ == uuid_text(id),
            None => s.bird_id is None,
        },
{
    let bird_id = match config.bird_id {
        Some(id) => Some(uuid_to_string(id)),
        None => None,
    };
    StatusResponse {
        nest_url: config.nest_url,
        bird_name: config.bird_name,
        platform: config.platform,
        authenticated,
        flock_username: config.flock_username,
        bird_id,
    }
}

} // verus!
