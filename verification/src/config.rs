//! Configuration: profiles from the config file, overridden by the
//! environment.
use vstd::prelude::*;

use crate::alias::{lookup_alias, pair_views};
use crate::repo::{split_on, split_on_exec};
use crate::text::{chars_of, eq_chars, extend_chars, extend_str, join, string_of, vviews};
use crate::url_parts::{parse_url, url_components, url_error_text, UrlParts};

verus! {

/// One server profile of the config file.
#[derive(Debug, Clone, Default)]
pub struct ConfigProfile {
    pub url: Option<String>,
    pub token: Option<String>,
}

/// The contents of `config.toml`: the `[default]` profile, the named
/// `[servers.NAME]` profiles and the `[aliases]` table.
#[derive(Debug, Clone, Default)]
pub struct ConfigFile {
    pub default: ConfigProfile,
    pub servers: Vec<(String, ConfigProfile)>,
    pub aliases: Vec<(String, String)>,
}

/// The environment variables that take part in configuration.
#[derive(Debug, Clone, Default)]
pub struct ConfigEnv {
    /// `GITEA_SERVER`: selects a named server profile.
    pub server: Option<String>,
    /// `GITEA_URL`: overrides the profile's URL.
    pub url: Option<String>,
    /// `GITEA_TOKEN`: overrides the profile's token.
    pub token: Option<String>,
}

/// The resolved configuration.
pub struct Config {
    pub url: UrlParts,
    pub token: String,
}

/// Why no configuration could be resolved.
pub enum ConfigError {
    /// `GITEA_SERVER` names no profile; holds the name and the names known.
    ServerNotFound(String, Vec<String>),
    /// Neither `GITEA_URL` nor the profile gives a URL.
    NoUrl,
    /// Neither `GITEA_TOKEN` nor the profile gives a token.
    NoToken,
    /// The URL does not parse; holds the URL text.
    InvalidUrl(String),
}

/// An optional string as an optional view.
pub open spec fn opt_view(o: Option<String>) -> Option<Seq<char>> {
    match o {
        Some(s) => Some(s@),
        None => None,
    }
}

/// The view of a profile.
pub open spec fn profile_view(p: ConfigProfile) -> (Option<Seq<char>>, Option<Seq<char>>) {
    (opt_view(p.url), opt_view(p.token))
}

/// The first server profile called `name`.
pub open spec fn lookup_server(servers: Seq<(String, ConfigProfile)>, name: Seq<char>) -> Option<
    ConfigProfile,
>
    decreases servers.len(),
{
    if servers.len() == 0 {
        None
    } else if servers[0].0@ == name {
        Some(servers[0].1)
    } else {
        lookup_server(servers.drop_first(), name)
    }
}

/// The first present value.
pub open spec fn first_of(a: Option<Seq<char>>, b: Option<Seq<char>>) -> Option<Seq<char>> {
    match a {
        Some(x) => Some(x),
        None => b,
    }
}

/// The outcome of configuration, as views: the profile is the named server
/// when `GITEA_SERVER` is set, else `[default]`; `GITEA_URL` and
/// `GITEA_TOKEN` override its values; the URL must parse.
pub enum ConfigOutcome {
    ServerNotFound(Seq<char>),
    NoUrl,
    NoToken,
    InvalidUrl(Seq<char>),
    Loaded(Seq<char>, Seq<char>),
}

/// The outcome of `Config::load` for this file and environment; `Loaded`
/// carries the URL text and the token.
pub open spec fn load_outcome(file: ConfigFile, env: ConfigEnv) -> ConfigOutcome {
    let profile = match env.server {
        Some(name) => lookup_server(file.servers@, name@),
        None => Some(file.default),
    };
    match profile {
        None => ConfigOutcome::ServerNotFound(opt_view(env.server)->Some_0),
        Some(p) => match first_of(opt_view(env.url), opt_view(p.url)) {
            None => ConfigOutcome::NoUrl,
            Some(u) => match first_of(opt_view(env.token), opt_view(p.token)) {
                None => ConfigOutcome::NoToken,
                Some(t) => if url_components(u) is None {
                    ConfigOutcome::InvalidUrl(u)
                } else {
                    ConfigOutcome::Loaded(u, t)
                },
            },
        },
    }
}

/// `GITEA_TOKEN`, when set, is the token of every configuration that loads,
/// whatever the file and `GITEA_URL` hold, and loading never fails for want
/// of a token; `GITEA_URL`, when set, is likewise the URL of every
/// configuration that loads, and loading never fails for want of a URL.
pub proof fn lemma_env_values_win(file: ConfigFile, env: ConfigEnv)
    ensures
        env.token matches Some(t) ==> ({
            &&& !(load_outcome(file, env) is NoToken)
            &&& (load_outcome(file, env) matches ConfigOutcome::Loaded(_, tok) ==> tok == t@)
        }),
        env.url matches Some(u) ==> ({
            &&& !(load_outcome(file, env) is NoUrl)
            &&& (load_outcome(file, env) matches ConfigOutcome::Loaded(url, _) ==> url == u@)
        }),
{
}

/// `GITEA_URL` and `GITEA_TOKEN` win over the config file: with both set
/// (and no `GITEA_SERVER`), the configuration is theirs whatever the file
/// holds, provided the URL parses.
pub proof fn lemma_env_overrides_file(file: ConfigFile, env: ConfigEnv)
    requires
        env.server is None,
        env.url is Some,
        env.token is Some,
        url_components(env.url->Some_0@) is Some,
    ensures
        load_outcome(file, env) == ConfigOutcome::Loaded(env.url->Some_0@, env.token->Some_0@),
{
}

/// The names of the server profiles, in order.
pub open spec fn server_names(servers: Seq<(String, ConfigProfile)>) -> Seq<Seq<char>> {
    servers.map_values(|p: (String, ConfigProfile)| p.0@)
}

/// Looks up the server profile called `name`.
fn find_server(servers: &Vec<(String, ConfigProfile)>, name: &str) -> (r: Option<ConfigProfile>)
    ensures
        match lookup_server(servers@, name@) {
            Some(p) => r matches Some(q) && profile_view(q) == profile_view(p),
            None => r is None,
        },
{
    let m = chars_of(name);
    let mut i: usize = 0;
    assert(servers@.skip(0) =~= servers@);
    while i < servers.len()
        invariant
            i <= servers.len(),
            m@ == name@,
            lookup_server(servers@, name@) == lookup_server(servers@.skip(i as int), name@),
        decreases servers.len() - i,
    {
        assert(servers@.skip(i as int).drop_first() =~= servers@.skip(i + 1));
        let n = chars_of(servers[i].0.as_str());
        if eq_chars(&n, &m) {
            let p = clone_profile(&servers[i].1);
            return Some(p);
        }
        i += 1;
    }
    None
}

/// A copy of an optional string.
pub fn clone_opt(o: &Option<String>) -> (r: Option<String>)
    ensures
        opt_view(r) == opt_view(*o),
{
    match o {
        Some(s) => Some(s.clone()),
        None => None,
    }
}

/// A copy of a profile.
pub fn clone_profile(p: &ConfigProfile) -> (r: ConfigProfile)
    ensures
        profile_view(r) == profile_view(*p),
{
    ConfigProfile { url: clone_opt(&p.url), token: clone_opt(&p.token) }
}

/// The names of the server profiles.
fn names_of(servers: &Vec<(String, ConfigProfile)>) -> (r: Vec<String>)
    ensures
        r@.map_values(|s: String| s@) == server_names(servers@),
{
    let mut r: Vec<String> = Vec::new();
    let mut i: usize = 0;
    while i < servers.len()
        invariant
            i <= servers.len(),
            r@.map_values(|s: String| s@) == server_names(servers@.take(i as int)),
        decreases servers.len() - i,
    {
        let ghost before = r@.map_values(|s: String| s@);
        r.push(servers[i].0.clone());
        assert(r@.map_values(|s: String| s@) =~= before.push(servers@[i as int].0@));
        assert(server_names(servers@.take(i + 1)) =~= server_names(servers@.take(i as int)).push(
            servers@[i as int].0@,
        ));
        i += 1;
    }
    assert(servers@.take(servers.len() as int) =~= servers@);
    r
}

impl Config {
    /// Load the configuration from the config file and the environment.
    ///
    /// `GITEA_SERVER` selects a named server from `[servers.NAME]`, else the
    /// `[default]` section is used; within the selected profile `GITEA_URL`
    /// and `GITEA_TOKEN` override the file values.
    pub fn load(file: &ConfigFile, env: &ConfigEnv) -> (r: Result<Config, ConfigError>)
        ensures
            match load_outcome(*file, *env) {
                ConfigOutcome::ServerNotFound(n) => r matches Err(
                    ConfigError::ServerNotFound(name, known),
                ) && name@ == n && known@.map_values(|s: String| s@) == server_names(
                    file.servers@,
                ),
                ConfigOutcome::NoUrl => r matches Err(ConfigError::NoUrl),
                ConfigOutcome::NoToken => r matches Err(ConfigError::NoToken),
                ConfigOutcome::InvalidUrl(u) => r matches Err(ConfigError::InvalidUrl(s)) && s@
                    == u,
                ConfigOutcome::Loaded(u, t) => r matches Ok(c) && url_components(u) == Some(
                    c.url.components(),
                ) && c.token@ == t,
            },
    {
        let profile = match &env.server {
            Some(name) => match find_server(&file.servers, name.as_str()) {
                Some(p) => p,
                None => {
                    return Err(ConfigError::ServerNotFound(name.clone(), names_of(&file.servers)));
                },
            },
            None => clone_profile(&file.default),
        };
        let url_str = match &env.url {
            Some(u) => u.clone(),
            None => match profile.url {
                Some(u) => u,
                None => {
                    return Err(ConfigError::NoUrl);
                },
            },
        };
        let token = match &env.token {
            Some(t) => t.clone(),
            None => match profile.token {
                Some(t) => t,
                None => {
                    return Err(ConfigError::NoToken);
                },
            },
        };
        match parse_url(url_str.as_str()) {
            Ok(url) => Ok(Config { url, token }),
            Err(_) => Err(ConfigError::InvalidUrl(url_str)),
        }
    }
}

/// The text that `str`'s `Debug` writes for `s`: `s` in double quotes,
/// with quotes, backslashes and characters that do not print escaped.
pub uninterp spec fn str_debug_text(s: Seq<char>) -> Seq<char>;

/// A character of the printable ASCII range other than the quotes and the
/// backslash: `Debug` writes it as it is.
pub open spec fn debug_plain(c: char) -> bool {
    ' ' <= c && c <= '~' && c != '"' && c != '\\' && c != '\''
}

/// Writes `s` with `str`'s `Debug` (`format!("{:?}", s)`); the documented
/// escapes leave printable ASCII other than quotes and backslashes as it is.
#[verifier::external_body]
fn str_debug(s: &str) -> (r: String)
    ensures
        r@ == str_debug_text(s@),
        (forall|k: int| 0 <= k < s@.len() ==> debug_plain(#[trigger] s@[k])) ==> r@ == "\""@
            + s@ + "\""@,
{
    format!("{:?}", s)
}

impl ConfigError {
    /// The message shown to the user.
    pub open spec fn message_spec(&self) -> Seq<char> {
        match self {
            ConfigError::ServerNotFound(n, known) => "Server '"@ + n@
                + "' not found in config. Available: ["@ + join(
                known@.map_values(|s: String| str_debug_text(s@)),
                ", "@,
            ) + "]"@,
            ConfigError::NoUrl =>
                "No Gitea URL configured. Set GITEA_URL or add url to ~/.config/gt/config.toml"@,
            ConfigError::NoToken =>
                "No Gitea token configured. Set GITEA_TOKEN or add token to ~/.config/gt/config.toml"@,
            ConfigError::InvalidUrl(u) => "Invalid URL: "@ + u@,
        }
    }

    /// The message shown to the user.
    pub fn message(&self) -> (r: String)
        ensures
            r@ == self.message_spec(),
    {
        match self {
            ConfigError::ServerNotFound(n, known) => {
                let mut v = chars_of("Server '");
                extend_str(&mut v, n.as_str());
                extend_str(&mut v, "' not found in config. Available: [");
                let ghost quoted = known@.map_values(|s: String| str_debug_text(s@));
                let mut i: usize = 0;
                let ghost base = v@;
                assert(quoted.take(0) =~= Seq::<Seq<char>>::empty());
                assert(base + join(quoted.take(0), ", "@) =~= base);
                while i < known.len()
                    invariant
                        i <= known.len(),
                        quoted == known@.map_values(|s: String| str_debug_text(s@)),
                        v@ == base + join(quoted.take(i as int), ", "@),
                    decreases known.len() - i,
                {
                    let ghost before = v@;
                    if i > 0 {
                        extend_str(&mut v, ", ");
                    }
                    extend_str(&mut v, str_debug(known[i].as_str()).as_str());
                    assert(quoted.take(i + 1).drop_last() =~= quoted.take(i as int));
                    assert(quoted.take(i + 1).last() == str_debug_text(known@[i as int]@));
                    assert(v@ =~= base + join(quoted.take(i + 1), ", "@));
                    i += 1;
                }
                assert(quoted.take(known.len() as int) =~= quoted);
                extend_str(&mut v, "]");
                string_of(&v)
            },
            ConfigError::NoUrl => string_of(
                &chars_of(
                    "No Gitea URL configured. Set GITEA_URL or add url to ~/.config/gt/config.toml",
                ),
            ),
            ConfigError::NoToken => string_of(
                &chars_of(
                    "No Gitea token configured. Set GITEA_TOKEN or add token to ~/.config/gt/config.toml",
                ),
            ),
            ConfigError::InvalidUrl(u) => {
                let mut v = chars_of("Invalid URL: ");
                extend_str(&mut v, u.as_str());
                string_of(&v)
            },
        }
    }
}

/// Load aliases from the config file. Returns an empty list if there is no
/// config file or it has no aliases.
pub fn load_aliases(file: Option<&ConfigFile>) -> (r: Vec<(String, String)>)
    ensures
        match file {
            Some(f) => pair_views(r@) == pair_views(f.aliases@),
            None => r@.len() == 0,
        },
{
    match file {
        Some(f) => {
            let mut r: Vec<(String, String)> = Vec::new();
            let mut i: usize = 0;
            while i < f.aliases.len()
                invariant
                    i <= f.aliases.len(),
                    pair_views(r@) == pair_views(f.aliases@.take(i as int)),
                decreases f.aliases.len() - i,
            {
                let ghost before = pair_views(r@);
                let p = (f.aliases[i].0.clone(), f.aliases[i].1.clone());
                r.push(p);
                assert(pair_views(r@) =~= before.push((f.aliases@[i as int].0@, f.aliases@[i as int].1@)));
                assert(pair_views(f.aliases@.take(i + 1)) =~= pair_views(f.aliases@.take(i as int)).push(
                    (f.aliases@[i as int].0@, f.aliases@[i as int].1@),
                ));
                i += 1;
            }
            assert(f.aliases@.take(f.aliases.len() as int) =~= f.aliases@);
            r
        },
        None => Vec::new(),
    }
}

/// The file that `gt auth login` writes for this URL and token.
pub open spec fn login_content_spec(url: Seq<char>, token: Seq<char>) -> Seq<char> {
    "[default]\nurl = \""@ + url + "\"\ntoken = \""@ + token + "\"\n"@
}

/// Why a login is refused.
pub enum LoginError {
    /// URL or token is empty.
    Missing,
    /// The URL does not parse; holds the URL text.
    InvalidUrl(String),
}

/// Checks the login inputs and gives the config file to write: both must be
/// non-empty and the URL must parse.
pub fn login_config_content(url: &str, token: &str) -> (r: Result<String, LoginError>)
    ensures
        url@.len() == 0 || token@.len() == 0 ==> r matches Err(LoginError::Missing),
        url@.len() > 0 && token@.len() > 0 && url_components(url@) is None ==> (r matches Err(
            LoginError::InvalidUrl(u),
        ) && u@ == url_error_text(url@)),
        url@.len() > 0 && token@.len() > 0 && url_components(url@) is Some ==> (r matches Ok(c)
            && c@ == login_content_spec(url@, token@)),
{
    let u = chars_of(url);
    let t = chars_of(token);
    if u.len() == 0 || t.len() == 0 {
        return Err(LoginError::Missing);
    }
    match parse_url(url) {
        Err(e) => {
            return Err(LoginError::InvalidUrl(e));
        },
        Ok(_) => {},
    }
    let mut v = chars_of("[default]\nurl = \"");
    extend_chars(&mut v, &u);
    extend_str(&mut v, "\"\ntoken = \"");
    extend_chars(&mut v, &t);
    extend_str(&mut v, "\"\n");
    Ok(string_of(&v))
}

/// A key of `gt config get/set`: `key` or `section.key`.
pub enum ConfigKey {
    Top(String),
    Section(String, String),
}

/// The key `k` split at its dots, as `gt config set` accepts it: one part or
/// two.
pub open spec fn config_key_spec(k: Seq<char>) -> Option<(Seq<char>, Option<Seq<char>>)> {
    let parts = split_on(k, '.');
    if parts.len() == 1 {
        Some((parts[0], None))
    } else if parts.len() == 2 {
        Some((parts[0], Some(parts[1])))
    } else {
        None
    }
}

/// Splits a config key for `gt config set`; `None` when it has more than one
/// dot ("Key must be 'key' or 'section.key' format").
pub fn parse_config_key(key: &str) -> (r: Option<ConfigKey>)
    ensures
        match config_key_spec(key@) {
            None => r is None,
            Some((a, None)) => r matches Some(ConfigKey::Top(x)) && x@ == a,
            Some((a, Some(b))) => r matches Some(ConfigKey::Section(x, y)) && x@ == a && y@ == b,
        },
{
    let k = chars_of(key);
    let parts = split_on_exec(&k, '.');
    if parts.len() == 1 {
        Some(ConfigKey::Top(string_of(&parts[0])))
    } else if parts.len() == 2 {
        Some(ConfigKey::Section(string_of(&parts[0]), string_of(&parts[1])))
    } else {
        None
    }
}

/// The path of table keys that `gt config get` follows: the key split at
/// every dot.
pub fn config_key_path(key: &str) -> (r: Vec<String>)
    ensures
        r@.map_values(|s: String| s@) == split_on(key@, '.'),
{
    let k = chars_of(key);
    let parts = split_on_exec(&k, '.');
    let mut r: Vec<String> = Vec::new();
    let mut i: usize = 0;
    while i < parts.len()
        invariant
            i <= parts.len(),
            vviews(parts@) == split_on(key@, '.'),
            r@.map_values(|s: String| s@) == vviews(parts@).take(i as int),
        decreases parts.len() - i,
    {
        let ghost before = r@.map_values(|s: String| s@);
        r.push(string_of(&parts[i]));
        assert(r@.map_values(|s: String| s@) =~= before.push(parts@[i as int]@));
        assert(vviews(parts@).take(i + 1) =~= vviews(parts@).take(i as int).push(parts@[i as int]@));
        i += 1;
    }
    assert(vviews(parts@).take(parts.len() as int) =~= vviews(parts@));
    r
}

} // verus!
