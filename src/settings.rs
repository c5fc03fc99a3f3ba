//! The bridge's address and the API user name, and how they are chosen
//! among a configuration file and the environment.
use vstd::prelude::*;

verus! {

/// The bridge's address and the user name the API is called with.
#[derive(Debug, Clone, Default)]
pub struct Hue {
    ip: String,
    username: String,
}

/// Configuration: the bridge to talk to, and whether to debug.
#[derive(Debug, Clone, Default)]
pub struct Settings {
    debug: bool,
    hue: Hue,
}

/// The value that the text of a `DEBUG` variable gives: "true" or "false",
/// anything else is false.
pub open spec fn debug_flag(t: Seq<char>) -> bool {
    t == "true"@
}

impl Settings {
    pub fn new(debug: bool, ip: String, username: String) -> (r: Settings)
        ensures
            r.debug_spec() == debug,
            r.ip_text() == ip@,
            r.username_text() == username@,
    {
        Settings { debug, hue: Hue { ip, username } }
    }

    pub closed spec fn ip_text(&self) -> Seq<char> {
        self.hue.ip@
    }

    pub closed spec fn username_text(&self) -> Seq<char> {
        self.hue.username@
    }

    pub closed spec fn debug_spec(&self) -> bool {
        self.debug
    }

    /// The settings that apply, given those read from a configuration file
    /// and the environment's `HUE_IP`, `HUE_USERNAME` and `DEBUG`: the
    /// address and the user name come from the environment when both are
    /// set there, else from the file; `DEBUG`, when set, decides the debug
    /// flag. None when the address or the user name ends up empty.
    pub fn resolve(
        file: Settings,
        env_ip: Option<String>,
        env_username: Option<String>,
        env_debug: Option<String>,
    ) -> (r: Option<Settings>)
        ensures
            ({
                let from_env = env_ip is Some && env_username is Some;
                let ip = if from_env { env_ip->0@ } else { file.ip_text() };
                let username = if from_env { env_username->0@ } else { file.username_text() };
                let debug = match env_debug {
                    Some(d) => debug_flag(d@),
                    None => file.debug_spec(),
                };
                if ip.len() == 0 || username.len() == 0 {
                    r is None
                } else {
                    r is Some && r->0.ip_text() == ip && r->0.username_text() == username
                        && r->0.debug_spec() == debug
                }
            }),
    {
        let mut s = file;
        match (env_ip, env_username) {
            (Some(ip), Some(username)) => {
                s.hue.ip = ip;
                s.hue.username = username;
            },
            _ => {},
        }
        if let Some(d) = env_debug {
            s.debug = d == "true".to_owned();
        }
        if s.hue.ip.unicode_len() == 0 || s.hue.username.unicode_len() == 0 {
            None
        } else {
            Some(s)
        }
    }

    /// The address of the bridge.
    pub fn ip(&self) -> (r: &str)
        ensures
            r@ == self.ip_text(),
    {
        self.hue.ip.as_str()
    }

    /// The user name the API is called with.
    pub fn username(&self) -> (r: &str)
        ensures
            r@ == self.username_text(),
    {
        self.hue.username.as_str()
    }

    /// Whether debugging is on.
    pub fn debug(&self) -> (r: bool)
        ensures
            r == self.debug_spec(),
    {
        self.debug
    }

    /// The URL of an API call: `https://{ip}/api/{username}/{suffix}`.
    pub fn rest_call_url(&self, suffix: &str) -> (r: String)
        ensures
            r@ == "https://"@ + self.ip_text() + "/api/"@ + self.username_text() + "/"@ + suffix@,
    {
        let mut out = "https://".to_owned();
        out.append(self.hue.ip.as_str());
        out.append("/api/");
        out.append(self.hue.username.as_str());
        out.append("/");
        out.append(suffix);
        out
    }
}

} // verus!
