//! The service's configuration: its fields, its defaults, and how it is read
//! from environment variables and checked when read from a file.
use vstd::prelude::*;
use crate::numbers::{parse_u16, parse_unsigned_spec};
use crate::text::{lowercase, str_eq, str_to_chars, to_lowercase};

verus! {

/// How much the service logs.
#[derive(Debug, Clone, Copy, PartialEq, Eq, Structural)]
pub enum LogLevel {
    Off,
    Error,
    Warn,
    Info,
    Debug,
    Trace,
}

/// The configuration of the service.
#[derive(Debug, Clone)]
pub struct Config {
    pub username: String,
    pub password: String,
    pub bind_ip: String,
    pub bind_port: u16,
    pub log_level: LogLevel,
    pub tmdb_token: Option<String>,
    pub ygg_domain: Option<String>,
    pub turbo_enabled: Option<bool>,
    pub scrappey_api_key: Option<String>,
}

impl Default for Config {
    /// The configuration written to a new configuration file: placeholder
    /// credentials, listening on `0.0.0.0:8715`, logging at debug level.
    fn default() -> (c: Config)
        ensures
            c.username@ == "your_ygg_username"@,
            c.password@ == "your_ygg_password"@,
            c.bind_ip@ == "0.0.0.0"@,
            c.bind_port == 8715,
            c.log_level == LogLevel::Debug,
            c.tmdb_token is None && c.ygg_domain is None,
            c.turbo_enabled is None && c.scrappey_api_key is None,
    {
        Config {
            username: String::from_str("your_ygg_username"),
            password: String::from_str("your_ygg_password"),
            bind_ip: String::from_str("0.0.0.0"),
            bind_port: 8715,
            log_level: LogLevel::Debug,
            tmdb_token: None,
            ygg_domain: None,
            turbo_enabled: None,
            scrappey_api_key: None,
        }
    }
}

/// The lowercase name of a log level, as configuration files write it.
pub open spec fn level_name(l: LogLevel) -> Seq<char> {
    match l {
        LogLevel::Off => "off"@,
        LogLevel::Error => "error"@,
        LogLevel::Warn => "warn"@,
        LogLevel::Info => "info"@,
        LogLevel::Debug => "debug"@,
        LogLevel::Trace => "trace"@,
    }
}

impl LogLevel {
    /// The lowercase name of this level.
    pub fn as_str(&self) -> (r: &'static str)
        ensures
            r@ == level_name(*self),
    {
        match self {
            LogLevel::Off => "off",
            LogLevel::Error => "error",
            LogLevel::Warn => "warn",
            LogLevel::Info => "info",
            LogLevel::Debug => "debug",
            LogLevel::Trace => "trace",
        }
    }
}

/// The ASCII lowercase of a character.
pub open spec fn ascii_lower(c: char) -> char {
    if 'A' <= c <= 'Z' {
        ((c as u32) + 32) as char
    } else {
        c
    }
}

/// Whether two texts are equal when ASCII letters are compared without case.
pub open spec fn eq_ignore_ascii_case(a: Seq<char>, b: Seq<char>) -> bool {
    a.len() == b.len() && forall|i: int| 0 <= i < a.len() ==> ascii_lower(#[trigger] a[i]) == ascii_lower(b[i])
}

/// The level that `log::LevelFilter::from_str` reads: the level whose name
/// equals the text up to ASCII case.
pub open spec fn level_from_name_ignoring_case(s: Seq<char>) -> Option<LogLevel> {
    if eq_ignore_ascii_case(s, "off"@) {
        Some(LogLevel::Off)
    } else if eq_ignore_ascii_case(s, "error"@) {
        Some(LogLevel::Error)
    } else if eq_ignore_ascii_case(s, "warn"@) {
        Some(LogLevel::Warn)
    } else if eq_ignore_ascii_case(s, "info"@) {
        Some(LogLevel::Info)
    } else if eq_ignore_ascii_case(s, "debug"@) {
        Some(LogLevel::Debug)
    } else if eq_ignore_ascii_case(s, "trace"@) {
        Some(LogLevel::Trace)
    } else {
        None
    }
}

fn char_ascii_lower(c: char) -> (r: char)
    ensures
        r == ascii_lower(c),
{
    if 'A' <= c && c <= 'Z' {
        ((c as u32) + 32) as u8 as char
    } else {
        c
    }
}

fn eq_ignore_case(a: &[char], b: &str) -> (r: bool)
    ensures
        r == eq_ignore_ascii_case(a@, b@),
{
    let bv = str_to_chars(b);
    if a.len() != bv.len() {
        return false;
    }
    let mut i: usize = 0;
    while i < a.len()
        invariant
            a@.len() == bv@.len(),
            bv@ == b@,
            i <= a@.len(),
            forall|k: int| 0 <= k < i ==> ascii_lower(#[trigger] a@[k]) == ascii_lower(bv@[k]),
        decreases a@.len() - i,
    {
        if char_ascii_lower(a[i]) != char_ascii_lower(bv[i]) {
            return false;
        }
        i = i + 1;
    }
    true
}

/// Reads a log level whatever its ASCII case (as `log::LevelFilter::from_str` does).
pub fn parse_log_level(s: &str) -> (r: Option<LogLevel>)
    ensures
        r == level_from_name_ignoring_case(s@),
{
    let v = str_to_chars(s);
    if eq_ignore_case(&v, "off") {
        Some(LogLevel::Off)
    } else if eq_ignore_case(&v, "error") {
        Some(LogLevel::Error)
    } else if eq_ignore_case(&v, "warn") {
        Some(LogLevel::Warn)
    } else if eq_ignore_case(&v, "info") {
        Some(LogLevel::Info)
    } else if eq_ignore_case(&v, "debug") {
        Some(LogLevel::Debug)
    } else if eq_ignore_case(&v, "trace") {
        Some(LogLevel::Trace)
    } else {
        None
    }
}

/// The level that a configuration file names: its lowercase form must be one of
/// the level names.
pub open spec fn level_from_config_name(s: Seq<char>) -> Option<LogLevel> {
    let l = lowercase(s);
    if l == "off"@ {
        Some(LogLevel::Off)
    } else if l == "error"@ {
        Some(LogLevel::Error)
    } else if l == "warn"@ {
        Some(LogLevel::Warn)
    } else if l == "info"@ {
        Some(LogLevel::Info)
    } else if l == "debug"@ {
        Some(LogLevel::Debug)
    } else if l == "trace"@ {
        Some(LogLevel::Trace)
    } else {
        None
    }
}

/// Reads the log level of a configuration file (refused with `Niveau de log
/// invalide` when it is not a level).
pub fn level_from_config(s: &str) -> (r: Result<LogLevel, String>)
    ensures
        match level_from_config_name(s@) {
            Some(l) => r == Ok::<LogLevel, String>(l),
            None => r is Err && r->Err_0@ == "Niveau de log invalide"@,
        },
{
    let l = to_lowercase(s);
    let t = l.as_str();
    if str_eq(t, "off") {
        Ok(LogLevel::Off)
    } else if str_eq(t, "error") {
        Ok(LogLevel::Error)
    } else if str_eq(t, "warn") {
        Ok(LogLevel::Warn)
    } else if str_eq(t, "info") {
        Ok(LogLevel::Info)
    } else if str_eq(t, "debug") {
        Ok(LogLevel::Debug)
    } else if str_eq(t, "trace") {
        Ok(LogLevel::Trace)
    } else {
        Err(String::from_str("Niveau de log invalide"))
    }
}

/// The values of the environment variables that configure the service (`None`
/// for an unset one).
#[derive(Debug, Clone, Default)]
pub struct EnvVars {
    pub ygg_username: Option<String>,
    pub ygg_password: Option<String>,
    pub bind_ip: Option<String>,
    pub bind_port: Option<String>,
    pub log_level: Option<String>,
    pub turbo_enabled: Option<String>,
    pub tmdb_token: Option<String>,
    pub ygg_domain: Option<String>,
    pub scrappey_api_key: Option<String>,
}

/// Builds the configuration from environment variables: the credentials are
/// needed; the address defaults to `0.0.0.0`, the port to `8715` (and must be a
/// `u16`), the log level to `debug` (and must name a level); turbo mode is on
/// when the variable is `true`.
pub fn config_from_env(vars: EnvVars) -> (r: Result<Config, String>)
    ensures
        vars.ygg_username is None ==> r is Err && r->Err_0@ == "YGG_USERNAME env var is undefined"@,
        vars.ygg_username is Some && vars.ygg_password is None ==> r is Err && r->Err_0@
            == "YGG_PASSWORD env var is undefined"@,
        ({
            let port_text = match vars.bind_port {
                Some(p) => p@,
                None => "8715"@,
            };
            let level_text = match vars.log_level {
                Some(l) => l@,
                None => "debug"@,
            };
            vars.ygg_username is Some && vars.ygg_password is Some ==> match parse_unsigned_spec(
                port_text,
                u16::MAX as nat,
            ) {
                None => r is Err && r->Err_0@ == "BIND_PORT must be a valid number between 1 and 65535"@,
                Some(port) => match level_from_name_ignoring_case(level_text) {
                    None => r is Err && r->Err_0@
                        == "LOG_LEVEL must be a valid log level (off, error, warn, info, debug, trace)"@,
                    Some(level) => r is Ok && ({
                        let c = r->Ok_0;
                        &&& c.username@ == vars.ygg_username->Some_0@
                        &&& c.password@ == vars.ygg_password->Some_0@
                        &&& c.bind_ip@ == match vars.bind_ip {
                            Some(i) => i@,
                            None => "0.0.0.0"@,
                        }
                        &&& c.bind_port == port
                        &&& c.log_level == level
                        &&& c.turbo_enabled == match vars.turbo_enabled {
                            Some(t) => Some(t@ == "true"@),
                            None => None::<bool>,
                        }
                        &&& c.tmdb_token == vars.tmdb_token
                        &&& c.ygg_domain == vars.ygg_domain
                        &&& c.scrappey_api_key == vars.scrappey_api_key
                    }),
                },
            }
        }),
{
    let username = match vars.ygg_username {
        Some(u) => u,
        None => {
            return Err(String::from_str("YGG_USERNAME env var is undefined"));
        },
    };
    let password = match vars.ygg_password {
        Some(p) => p,
        None => {
            return Err(String::from_str("YGG_PASSWORD env var is undefined"));
        },
    };
    let bind_ip = match vars.bind_ip {
        Some(i) => i,
        None => String::from_str("0.0.0.0"),
    };
    let port_text = match vars.bind_port {
        Some(p) => p,
        None => String::from_str("8715"),
    };
    let bind_port = match parse_u16(port_text.as_str()) {
        Some(p) => p,
        None => {
            return Err(String::from_str("BIND_PORT must be a valid number between 1 and 65535"));
        },
    };
    let level_text = match vars.log_level {
        Some(l) => l,
        None => String::from_str("debug"),
    };
    let log_level = match parse_log_level(level_text.as_str()) {
        Some(l) => l,
        None => {
            return Err(
                String::from_str(
                    "LOG_LEVEL must be a valid log level (off, error, warn, info, debug, trace)",
                ),
            );
        },
    };
    let turbo_enabled = match vars.turbo_enabled {
        Some(t) => Some(str_eq(t.as_str(), "true")),
        None => None,
    };
    Ok(Config {
        username,
        password,
        bind_ip,
        bind_port,
        log_level,
        tmdb_token: vars.tmdb_token,
        ygg_domain: vars.ygg_domain,
        turbo_enabled,
        scrappey_api_key: vars.scrappey_api_key,
    })
}

/// Checks a configuration read from the configuration file: it is refused while
/// it still holds the placeholder username or password.
pub fn check_file_config(config: Config) -> (r: Result<Config, String>)
    ensures
        config.username@ == "your_ygg_username"@ || config.password@ == "your_ygg_password"@
            ==> r is Err && r->Err_0@ == "Please set a valid YGG_USERNAME and YGG_PASSWORD in config.json."@,
        !(config.username@ == "your_ygg_username"@ || config.password@ == "your_ygg_password"@)
            ==> r is Ok && r->Ok_0 == config,
{
    if str_eq(config.username.as_str(), "your_ygg_username") || str_eq(
        config.password.as_str(),
        "your_ygg_password",
    ) {
        return Err(
            String::from_str("Please set a valid YGG_USERNAME and YGG_PASSWORD in config.json."),
        );
    }
    Ok(config)
}

/// Reading back the name of a log level gives the level.
pub proof fn lemma_level_name_roundtrip(l: LogLevel)
    ensures
        level_from_name_ignoring_case(level_name(l)) == Some(l),
{
    reveal_strlit("off");
    reveal_strlit("error");
    reveal_strlit("warn");
    reveal_strlit("info");
    reveal_strlit("debug");
    reveal_strlit("trace");
    let n = level_name(l);
    assert(eq_ignore_ascii_case(n, n));
    assert("off"@[0] == 'o' && "error"@[0] == 'e' && "warn"@[0] == 'w');
    assert("info"@[0] == 'i' && "debug"@[0] == 'd' && "trace"@[0] == 't');
    assert(ascii_lower('o') == 'o' && ascii_lower('e') == 'e' && ascii_lower('w') == 'w');
    assert(ascii_lower('i') == 'i' && ascii_lower('d') == 'd' && ascii_lower('t') == 't');
}

} // verus!
