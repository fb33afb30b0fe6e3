use vstd::prelude::*;
use vstd::string::StrSliceExecFns;
use crate::policy::CacheControl;

verus! {

/// The port served when neither the file nor the environment names one.
pub const DEFAULT_PORT: u16 = 8089;

pub open spec fn default_asset_policy() -> Seq<char> {
    "public, max-age=31536000, immutable"@
}

pub open spec fn default_html_policy() -> Seq<char> {
    "no-cache, must-revalidate"@
}

pub open spec fn default_static_dir() -> Seq<char> {
    "."@
}

/// The settings of a running server, as plain values.
pub struct ConfigView {
    pub port: Option<u16>,
    pub static_dir: Option<Seq<char>>,
    pub cache_control: Seq<char>,
    pub html_cache_control: Seq<char>,
}

pub open spec fn default_config() -> ConfigView {
    ConfigView {
        port: Some(DEFAULT_PORT),
        static_dir: Some(default_static_dir()),
        cache_control: default_asset_policy(),
        html_cache_control: default_html_policy(),
    }
}

pub open spec fn text_of(s: Option<String>) -> Option<Seq<char>> {
    match s {
        Some(t) => Some(t@),
        None => None,
    }
}

pub open spec fn is_digit(c: char) -> bool {
    '0' <= c && c <= '9'
}

/// The number that a run of decimal digits spells.
pub open spec fn digits_value(s: Seq<char>) -> int
    decreases s.len(),
{
    if s.len() == 0 {
        0
    } else {
        digits_value(s.drop_last()) * 10 + (s.last() as int - '0' as int)
    }
}

/// The digits of a port number, after an optional leading `+`.
pub open spec fn port_digits(s: Seq<char>) -> Seq<char> {
    if s.len() > 0 && s[0] == '+' {
        s.drop_first()
    } else {
        s
    }
}

/// The port that a text names, as `u16`'s `FromStr` reads it: an optional
/// `+`, then one or more decimal digits, with a value that fits in 16 bits.
pub open spec fn port_of_text(s: Seq<char>) -> Option<u16> {
    let d = port_digits(s);
    if d.len() > 0 && (forall|i: int| 0 <= i < d.len() ==> is_digit(#[trigger] d[i]))
        && digits_value(d) <= 65535 {
        Some(digits_value(d) as u16)
    } else {
        None
    }
}

/// The settings after the environment's overrides: a `PORT` that reads as a
/// port replaces the port, and a `STATIC_DIR` replaces the directory.
pub open spec fn with_env(
    base: ConfigView,
    env_port: Option<Seq<char>>,
    env_static_dir: Option<Seq<char>>,
) -> ConfigView {
    ConfigView {
        port: match env_port {
            Some(s) => match port_of_text(s) {
                Some(p) => Some(p),
                None => base.port,
            },
            None => base.port,
        },
        static_dir: match env_static_dir {
            Some(d) => Some(d),
            None => base.static_dir,
        },
        ..base
    }
}

/// The port that the server binds: the configured one, else the default.
pub open spec fn port_served(c: ConfigView) -> u16 {
    match c.port {
        Some(p) => p,
        None => DEFAULT_PORT,
    }
}

/// The settings of a server.
pub struct Config {
    pub port: Option<u16>,
    pub static_dir: Option<String>,
    pub cache_control: String,
    pub html_cache_control: String,
}

impl View for Config {
    type V = ConfigView;

    open spec fn view(&self) -> ConfigView {
        ConfigView {
            port: self.port,
            static_dir: text_of(self.static_dir),
            cache_control: self.cache_control@,
            html_cache_control: self.html_cache_control@,
        }
    }
}

/// What became of the configuration file.
pub enum ConfigFile {
    /// No file could be read.
    Absent,
    /// The file was read but could not be parsed.
    Malformed,
    /// The file's settings, with defaults for the fields that it leaves out.
    Parsed(Config),
}

/// The settings that a configuration file contributes: its own, or the defaults.
pub open spec fn file_settings(f: ConfigFile) -> ConfigView {
    match f {
        ConfigFile::Parsed(c) => c@,
        _ => default_config(),
    }
}

/// The asset policy used where the file names none.
pub fn default_cache_control() -> (r: String)
    ensures
        r@ == default_asset_policy(),
{
    "public, max-age=31536000, immutable".to_string()
}

/// The document policy used where the file names none.
pub fn default_html_cache_control() -> (r: String)
    ensures
        r@ == default_html_policy(),
{
    "no-cache, must-revalidate".to_string()
}

impl Default for Config {
    fn default() -> (r: Config)
        ensures
            r@ == default_config(),
    {
        Config {
            port: Some(DEFAULT_PORT),
            static_dir: Some(".".to_string()),
            cache_control: default_cache_control(),
            html_cache_control: default_html_cache_control(),
        }
    }
}

impl Config {
    /// The settings that a file gives: its port and directory as written,
    /// and the default policy for each policy field that it leaves out.
    pub fn from_file_fields(
        port: Option<u16>,
        static_dir: Option<String>,
        cache_control: Option<String>,
        html_cache_control: Option<String>,
    ) -> (r: Config)
        ensures
            r.port == port,
            r@.static_dir == text_of(static_dir),
            r.cache_control@ == match cache_control {
                Some(s) => s@,
                None => default_asset_policy(),
            },
            r.html_cache_control@ == match html_cache_control {
                Some(s) => s@,
                None => default_html_policy(),
            },
    {
        let cache_control = match cache_control {
            Some(s) => s,
            None => default_cache_control(),
        };
        let html_cache_control = match html_cache_control {
            Some(s) => s,
            None => default_html_cache_control(),
        };
        Config { port, static_dir, cache_control, html_cache_control }
    }

    /// The port to bind.
    pub fn port_or_default(&self) -> (r: u16)
        ensures
            r == port_served(self@),
    {
        match self.port {
            Some(p) => p,
            None => DEFAULT_PORT,
        }
    }

    /// The directory to serve: the configured one, else the working directory.
    pub fn static_dir_or_default(&self) -> (r: String)
        ensures
            r@ == match self@.static_dir {
                Some(d) => d,
                None => default_static_dir(),
            },
    {
        match &self.static_dir {
            Some(d) => d.clone(),
            None => ".".to_string(),
        }
    }

    /// The two cache policies that the pipeline applies.
    pub fn cache_policies(&self) -> (r: CacheControl)
        ensures
            r.static_cache@ == self.cache_control@,
            r.html_cache@ == self.html_cache_control@,
    {
        CacheControl::new(self.cache_control.clone(), self.html_cache_control.clone())
    }
}

proof fn lemma_digits_value_push(s: Seq<char>, c: char)
    ensures
        digits_value(s.push(c)) == digits_value(s) * 10 + (c as int - '0' as int),
{
    assert(s.push(c).drop_last() =~= s);
}

/// Reads a port number as `u16`'s `FromStr` does.
pub fn parse_port(s: &str) -> (r: Option<u16>)
    ensures
        r == port_of_text(s@),
{
    let n = s.unicode_len();
    let mut start: usize = 0;
    if n > 0 && s.get_char(0) == '+' {
        start = 1;
    }
    let ghost d = port_digits(s@);
    assert(d =~= s@.subrange(start as int, n as int));
    if start == n {
        return None;
    }
    let mut value: u32 = 0;
    let mut too_big = false;
    let mut i: usize = start;
    while i < n
        invariant
            n == s@.len(),
            start <= i <= n,
            d =~= s@.subrange(start as int, n as int),
            d == port_digits(s@),
            forall|k: int| start <= k < i ==> is_digit(#[trigger] s@[k]),
            !too_big ==> value == digits_value(s@.subrange(start as int, i as int)),
            !too_big ==> value <= 65535,
            too_big ==> digits_value(s@.subrange(start as int, i as int)) > 65535,
        decreases n - i,
    {
        let c = s.get_char(i);
        if c < '0' || c > '9' {
            assert(!is_digit(d[i - start]));
            assert(!(forall|k: int| 0 <= k < d.len() ==> is_digit(#[trigger] d[k])));
            return None;
        }
        proof {
            assert(s@.subrange(start as int, i + 1) =~= s@.subrange(start as int, i as int).push(c));
            lemma_digits_value_push(s@.subrange(start as int, i as int), c);
        }
        if !too_big {
            let next: u32 = value * 10 + (c as u32 - '0' as u32);
            if next > 65535 {
                too_big = true;
            } else {
                value = next;
            }
        }
        i = i + 1;
    }
    assert(s@.subrange(start as int, i as int) =~= d);
    if too_big {
        None
    } else {
        Some(value as u16)
    }
}

/// Resolves the settings: the file's over the defaults, the environment's over both.
/// A missing or malformed file gives the defaults, and no input makes this fail.
pub fn resolve_config(
    file: ConfigFile,
    env_port: Option<String>,
    env_static_dir: Option<String>,
) -> (r: Config)
    ensures
        r@ == with_env(file_settings(file), text_of(env_port), text_of(env_static_dir)),
{
    let mut config = match file {
        ConfigFile::Parsed(c) => c,
        _ => Config::default(),
    };
    if let Some(text) = env_port {
        if let Some(p) = parse_port(text.as_str()) {
            config.port = Some(p);
        }
    }
    if let Some(dir) = env_static_dir {
        config.static_dir = Some(dir);
    }
    config
}

/// Port precedence: `PORT=9000` in the environment wins over any port that the
/// file names; without it the file's port wins; with neither, or with no
/// usable file, the server binds the default port.
pub proof fn lemma_port_precedence(file: ConfigFile, env_static_dir: Option<Seq<char>>)
    ensures
        port_served(with_env(file_settings(file), Some("9000"@), env_static_dir)) == 9000,
        match file {
            ConfigFile::Parsed(c) => match c.port {
                Some(p) => port_served(with_env(file_settings(file), None, env_static_dir)) == p,
                None => port_served(with_env(file_settings(file), None, env_static_dir))
                    == DEFAULT_PORT,
            },
            _ => port_served(with_env(file_settings(file), None, env_static_dir)) == DEFAULT_PORT,
        },
{
    reveal_strlit("9000");
    let t = "9000"@;
    assert(port_digits(t) == t);
    assert(t.drop_last().drop_last().drop_last().drop_last() =~= Seq::<char>::empty());
    reveal_with_fuel(digits_value, 5);
    assert(digits_value(t) == 9000);
    assert(forall|i: int| 0 <= i < t.len() ==> is_digit(#[trigger] t[i]));
    assert(port_of_text(t) == Some(9000u16));
}

/// A malformed file, with no environment overrides, gives exactly the defaults.
pub proof fn lemma_malformed_file_gives_defaults()
    ensures
        with_env(file_settings(ConfigFile::Malformed), None, None) == default_config(),
{
}

} // verus!
