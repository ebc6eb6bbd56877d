//! The configuration: its shape, defaults, validity rules, redaction and
//! where it lives on disk.
use vstd::prelude::*;

use crate::network;
use crate::text;
use crate::text::trim_str;
use crate::url;
use crate::url::parse_url;

verus! {

#[derive(Debug, Clone)]
pub struct AppConfig {
    pub auth: AuthConfig,
    pub detect: DetectConfig,
    pub daemon: DaemonConfig,
    pub campus: CampusConfig,
}

#[derive(Debug, Clone)]
pub struct AuthConfig {
    pub username: String,
    pub password: String,
    pub portal_url: String,
}

#[derive(Debug, Clone)]
pub struct DetectConfig {
    pub probe_url: String,
    pub request_timeout_secs: u64,
}

#[derive(Debug, Clone)]
pub struct DaemonConfig {
    pub online_check_interval_secs: u64,
    pub offline_check_interval_secs: u64,
}

#[derive(Debug, Clone)]
pub struct CampusConfig {
    pub ipv4_cidrs: Vec<String>,
    pub gateway_hosts: Vec<String>,
}

pub const DEFAULT_PORTAL_URL: &'static str = "http://172.18.3.3/0.htm";

pub const DEFAULT_PROBE_URL: &'static str = "http://www.baidu.com/";

pub const DEFAULT_REQUEST_TIMEOUT_SECS: u64 = 8;

pub const DEFAULT_ONLINE_CHECK_INTERVAL_SECS: u64 = 300;

pub const DEFAULT_OFFLINE_CHECK_INTERVAL_SECS: u64 = 15;

pub const DEFAULT_GATEWAY_PRIMARY: &'static str = "172.18.3.3";

pub const DEFAULT_GATEWAY_SECONDARY: &'static str = "172.18.2.2";

impl CampusConfig {
    /// No CIDRs, and the two default campus gateways.
    pub open spec fn is_default(&self) -> bool {
        &&& self.ipv4_cidrs@.len() == 0
        &&& text::strings_view(self.gateway_hosts@) == seq![
            DEFAULT_GATEWAY_PRIMARY@,
            DEFAULT_GATEWAY_SECONDARY@,
        ]
    }
}

impl Default for CampusConfig {
    fn default() -> (r: Self)
        ensures
            r.is_default(),
    {
        let mut gateway_hosts: Vec<String> = Vec::new();
        gateway_hosts.push(String::from_str(DEFAULT_GATEWAY_PRIMARY));
        gateway_hosts.push(String::from_str(DEFAULT_GATEWAY_SECONDARY));
        let r = CampusConfig { ipv4_cidrs: Vec::new(), gateway_hosts };
        assert(text::strings_view(r.gateway_hosts@) =~= seq![
            DEFAULT_GATEWAY_PRIMARY@,
            DEFAULT_GATEWAY_SECONDARY@,
        ]);
        r
    }
}

impl AppConfig {
    /// Empty credentials, the default portal and probe URLs, timings and
    /// campus settings.
    pub open spec fn is_default(&self) -> bool {
        &&& self.auth.username@.len() == 0
        &&& self.auth.password@.len() == 0
        &&& self.auth.portal_url@ == DEFAULT_PORTAL_URL@
        &&& self.detect.probe_url@ == DEFAULT_PROBE_URL@
        &&& self.detect.request_timeout_secs == DEFAULT_REQUEST_TIMEOUT_SECS
        &&& self.daemon.online_check_interval_secs == DEFAULT_ONLINE_CHECK_INTERVAL_SECS
        &&& self.daemon.offline_check_interval_secs == DEFAULT_OFFLINE_CHECK_INTERVAL_SECS
        &&& self.campus.is_default()
    }
}

impl Default for AppConfig {
    fn default() -> (r: Self)
        ensures
            r.is_default(),
    {
        AppConfig {
            auth: AuthConfig {
                username: String::new(),
                password: String::new(),
                portal_url: String::from_str(DEFAULT_PORTAL_URL),
            },
            detect: DetectConfig {
                probe_url: String::from_str(DEFAULT_PROBE_URL),
                request_timeout_secs: DEFAULT_REQUEST_TIMEOUT_SECS,
            },
            daemon: DaemonConfig {
                online_check_interval_secs: DEFAULT_ONLINE_CHECK_INTERVAL_SECS,
                offline_check_interval_secs: DEFAULT_OFFLINE_CHECK_INTERVAL_SECS,
            },
            campus: CampusConfig::default(),
        }
    }
}

// ---------------------------------------------------------------------------
// Validation
// ---------------------------------------------------------------------------

/// Why a configuration is refused.
#[derive(Debug, Clone, PartialEq, Eq)]
pub enum ConfigError {
    EmptyUsername,
    EmptyPassword,
    InvalidPortalUrl,
    InvalidProbeUrl,
    ZeroRequestTimeout,
    ZeroOnlineInterval,
    ZeroOfflineInterval,
    InvalidCidr(String),
    NoGateways,
    EmptyGateway,
}

/// The same reasons, with text as character sequences.
pub enum ConfigFault {
    EmptyUsername,
    EmptyPassword,
    InvalidPortalUrl,
    InvalidProbeUrl,
    ZeroRequestTimeout,
    ZeroOnlineInterval,
    ZeroOfflineInterval,
    InvalidCidr(Seq<char>),
    NoGateways,
    EmptyGateway,
}

impl View for ConfigError {
    type V = ConfigFault;

    open spec fn view(&self) -> ConfigFault {
        match self {
            ConfigError::EmptyUsername => ConfigFault::EmptyUsername,
            ConfigError::EmptyPassword => ConfigFault::EmptyPassword,
            ConfigError::InvalidPortalUrl => ConfigFault::InvalidPortalUrl,
            ConfigError::InvalidProbeUrl => ConfigFault::InvalidProbeUrl,
            ConfigError::ZeroRequestTimeout => ConfigFault::ZeroRequestTimeout,
            ConfigError::ZeroOnlineInterval => ConfigFault::ZeroOnlineInterval,
            ConfigError::ZeroOfflineInterval => ConfigFault::ZeroOfflineInterval,
            ConfigError::InvalidCidr(c) => ConfigFault::InvalidCidr(c@),
            ConfigError::NoGateways => ConfigFault::NoGateways,
            ConfigError::EmptyGateway => ConfigFault::EmptyGateway,
        }
    }
}

/// The message shown for each reason.
pub open spec fn fault_message(f: ConfigFault) -> Seq<char> {
    match f {
        ConfigFault::EmptyUsername => "username must not be empty"@,
        ConfigFault::EmptyPassword => "password must not be empty"@,
        ConfigFault::InvalidPortalUrl => "portal_url must be a valid absolute URL"@,
        ConfigFault::InvalidProbeUrl => "probe_url must be a valid absolute URL"@,
        ConfigFault::ZeroRequestTimeout => "request_timeout_secs must be greater than zero"@,
        ConfigFault::ZeroOnlineInterval => "online_check_interval_secs must be greater than zero"@,
        ConfigFault::ZeroOfflineInterval => "offline_check_interval_secs must be greater than zero"@,
        ConfigFault::InvalidCidr(c) => "invalid campus IPv4 CIDR: "@ + c,
        ConfigFault::NoGateways => "campus.gateway_hosts must not be empty"@,
        ConfigFault::EmptyGateway => "campus.gateway_hosts must not contain empty values"@,
    }
}

impl ConfigError {
    /// The text of the error.
    pub fn message(&self) -> (m: String)
        ensures
            m@ == fault_message(self@),
    {
        match self {
            ConfigError::EmptyUsername => String::from_str("username must not be empty"),
            ConfigError::EmptyPassword => String::from_str("password must not be empty"),
            ConfigError::InvalidPortalUrl => String::from_str(
                "portal_url must be a valid absolute URL",
            ),
            ConfigError::InvalidProbeUrl => String::from_str(
                "probe_url must be a valid absolute URL",
            ),
            ConfigError::ZeroRequestTimeout => String::from_str(
                "request_timeout_secs must be greater than zero",
            ),
            ConfigError::ZeroOnlineInterval => String::from_str(
                "online_check_interval_secs must be greater than zero",
            ),
            ConfigError::ZeroOfflineInterval => String::from_str(
                "offline_check_interval_secs must be greater than zero",
            ),
            ConfigError::InvalidCidr(c) => {
                let mut m = String::from_str("invalid campus IPv4 CIDR: ");
                m.append(c.as_str());
                m
            },
            ConfigError::NoGateways => String::from_str("campus.gateway_hosts must not be empty"),
            ConfigError::EmptyGateway => String::from_str(
                "campus.gateway_hosts must not contain empty values",
            ),
        }
    }
}

/// Some gateway host is empty or only whitespace.
pub open spec fn has_blank_gateway(gateways: Seq<Seq<char>>) -> bool {
    exists|i: int| 0 <= i < gateways.len() && text::is_blank(#[trigger] gateways[i])
}

/// A configuration as a mathematical value.
pub struct ConfigView {
    pub username: Seq<char>,
    pub password: Seq<char>,
    pub portal_url: Seq<char>,
    pub probe_url: Seq<char>,
    pub request_timeout_secs: u64,
    pub online_check_interval_secs: u64,
    pub offline_check_interval_secs: u64,
    pub ipv4_cidrs: Seq<Seq<char>>,
    pub gateway_hosts: Seq<Seq<char>>,
}

impl View for AppConfig {
    type V = ConfigView;

    open spec fn view(&self) -> ConfigView {
        ConfigView {
            username: self.auth.username@,
            password: self.auth.password@,
            portal_url: self.auth.portal_url@,
            probe_url: self.detect.probe_url@,
            request_timeout_secs: self.detect.request_timeout_secs,
            online_check_interval_secs: self.daemon.online_check_interval_secs,
            offline_check_interval_secs: self.daemon.offline_check_interval_secs,
            ipv4_cidrs: text::strings_view(self.campus.ipv4_cidrs@),
            gateway_hosts: text::strings_view(self.campus.gateway_hosts@),
        }
    }
}

/// The first rule that `c` breaks, in the order the rules are checked;
/// nothing when the configuration is valid.
pub open spec fn config_fault(c: ConfigView) -> Option<ConfigFault> {
    if text::is_blank(c.username) {
        Some(ConfigFault::EmptyUsername)
    } else if c.password.len() == 0 {
        Some(ConfigFault::EmptyPassword)
    } else if !url::is_valid_url(c.portal_url) {
        Some(ConfigFault::InvalidPortalUrl)
    } else if !url::is_valid_url(c.probe_url) {
        Some(ConfigFault::InvalidProbeUrl)
    } else if c.request_timeout_secs == 0 {
        Some(ConfigFault::ZeroRequestTimeout)
    } else if c.online_check_interval_secs == 0 {
        Some(ConfigFault::ZeroOnlineInterval)
    } else if c.offline_check_interval_secs == 0 {
        Some(ConfigFault::ZeroOfflineInterval)
    } else if network::first_invalid_cidr(c.ipv4_cidrs) is Some {
        Some(ConfigFault::InvalidCidr(c.ipv4_cidrs[network::first_invalid_cidr(c.ipv4_cidrs)->0]))
    } else if c.gateway_hosts.len() == 0 {
        Some(ConfigFault::NoGateways)
    } else if has_blank_gateway(c.gateway_hosts) {
        Some(ConfigFault::EmptyGateway)
    } else {
        None
    }
}

fn is_blank_str(s: &str) -> (b: bool)
    ensures
        b == text::is_blank(s@),
{
    trim_str(s).len() == 0
}

impl AppConfig {
    /// Checks every rule of a usable configuration, and reports the first
    /// one broken.
    pub fn validate(&self) -> (r: Result<(), ConfigError>)
        ensures
            r is Ok <==> config_fault(self@) is None,
            r matches Err(e) ==> config_fault(self@) == Some(e@),
    {
        if is_blank_str(self.auth.username.as_str()) {
            return Err(ConfigError::EmptyUsername);
        }
        if self.auth.password.as_str().unicode_len() == 0 {
            return Err(ConfigError::EmptyPassword);
        }
        if parse_url(self.auth.portal_url.as_str()).is_none() {
            return Err(ConfigError::InvalidPortalUrl);
        }
        if parse_url(self.detect.probe_url.as_str()).is_none() {
            return Err(ConfigError::InvalidProbeUrl);
        }
        if self.detect.request_timeout_secs == 0 {
            return Err(ConfigError::ZeroRequestTimeout);
        }
        if self.daemon.online_check_interval_secs == 0 {
            return Err(ConfigError::ZeroOnlineInterval);
        }
        if self.daemon.offline_check_interval_secs == 0 {
            return Err(ConfigError::ZeroOfflineInterval);
        }
        match crate::network::parse_ipv4_cidrs(&self.campus.ipv4_cidrs) {
            Err(e) => {
                proof {
                    let cidrs = text::strings_view(self.campus.ipv4_cidrs@);
                    crate::network::lemma_first_invalid_cidr_some(cidrs);
                    let k = network::first_invalid_cidr(cidrs)->0;
                    assert(cidrs[k] == self.campus.ipv4_cidrs@[k]@);
                }
                return Err(e);
            },
            Ok(_) => {},
        }
        let gateways = &self.campus.gateway_hosts;
        if gateways.len() == 0 {
            return Err(ConfigError::NoGateways);
        }
        let ghost gv = text::strings_view(gateways@);
        let mut i: usize = 0;
        #[verifier::loop_isolation(false)]
        while i < gateways.len()
            invariant
                i <= gateways@.len(),
                gv == text::strings_view(gateways@),
                forall|k: int| 0 <= k < i ==> !text::is_blank(#[trigger] gv[k]),
            decreases gateways@.len() - i,
        {
            if is_blank_str(gateways[i].as_str()) {
                assert(text::is_blank(gv[i as int]));
                return Err(ConfigError::EmptyGateway);
            }
            i = i + 1;
        }
        Ok(())
    }
}

// ---------------------------------------------------------------------------
// Redaction
// ---------------------------------------------------------------------------

/// The text that stands for a non-empty password when the config is shown.
pub const REDACTED_PASSWORD: &'static str = "***redacted***";

fn copy_strings(v: &Vec<String>) -> (r: Vec<String>)
    ensures
        r@ == v@,
{
    let mut r: Vec<String> = Vec::new();
    let mut i: usize = 0;
    while i < v.len()
        invariant
            i <= v@.len(),
            r@ == v@.subrange(0, i as int),
        decreases v@.len() - i,
    {
        r.push(v[i].clone());
        i = i + 1;
        assert(r@ =~= v@.subrange(0, i as int));
    }
    assert(v@.subrange(0, v@.len() as int) =~= v@);
    r
}

impl AppConfig {
    /// A copy with a non-empty password replaced by `***redacted***`; an
    /// empty password stays empty. Everything else is kept.
    pub fn redacted(&self) -> (r: AppConfig)
        ensures
            r.auth.password@ == (if self.auth.password@.len() == 0 {
                Seq::<char>::empty()
            } else {
                REDACTED_PASSWORD@
            }),
            r@ == (ConfigView { password: r.auth.password@, ..self@ }),
    {
        let password = if self.auth.password.as_str().unicode_len() == 0 {
            String::new()
        } else {
            String::from_str(REDACTED_PASSWORD)
        };
        AppConfig {
            auth: AuthConfig {
                username: self.auth.username.clone(),
                password,
                portal_url: self.auth.portal_url.clone(),
            },
            detect: DetectConfig {
                probe_url: self.detect.probe_url.clone(),
                request_timeout_secs: self.detect.request_timeout_secs,
            },
            daemon: DaemonConfig {
                online_check_interval_secs: self.daemon.online_check_interval_secs,
                offline_check_interval_secs: self.daemon.offline_check_interval_secs,
            },
            campus: CampusConfig {
                ipv4_cidrs: copy_strings(&self.campus.ipv4_cidrs),
                gateway_hosts: copy_strings(&self.campus.gateway_hosts),
            },
        }
    }
}

// ---------------------------------------------------------------------------
// Paths
// ---------------------------------------------------------------------------

/// Why a platform directory could not be found.
#[derive(Debug, Clone, Copy, PartialEq, Eq, Structural)]
pub enum PathError {
    NoConfigDir,
    NoHomeDir,
}

impl PathError {
    pub open spec fn text(&self) -> Seq<char> {
        match self {
            PathError::NoConfigDir => "could not resolve a platform config directory"@,
            PathError::NoHomeDir => "could not resolve the current user home path"@,
        }
    }

    pub fn message(&self) -> (m: String)
        ensures
            m@ == self.text(),
    {
        match self {
            PathError::NoConfigDir => String::from_str(
                "could not resolve a platform config directory",
            ),
            PathError::NoHomeDir => String::from_str("could not resolve the current user home path"),
        }
    }
}

/// A character that ends a path component when `sep` is the platform's
/// separator: `/` always, and the separator itself.
pub open spec fn is_separator(c: char, sep: char) -> bool {
    c == '/' || c == sep
}

/// `name` appended to `base` as one more path component, with `sep`
/// between them unless `base` is empty or already ends with a separator.
pub open spec fn path_join(base: Seq<char>, name: Seq<char>, sep: char) -> Seq<char> {
    if base.len() == 0 || is_separator(base.last(), sep) {
        base + name
    } else {
        base + seq![sep] + name
    }
}

/// Appends a relative path component, written after `sep` where one is
/// needed.
pub fn join_path(base: &str, name: &str, sep: char) -> (r: String)
    ensures
        r@ == path_join(base@, name@, sep),
{
    let mut v = crate::text::chars_of(base);
    let n = v.len();
    if n > 0 && v[n - 1] != '/' && v[n - 1] != sep {
        v.push(sep);
    }
    crate::text::extend_str(&mut v, name);
    crate::text::string_of(&v)
}

/// The path separators that platforms use: `/` (Unix) and `\` (Windows).
pub open spec fn is_platform_separator(c: char) -> bool {
    c == '/' || c == '\\'
}

/// Reads `std::path::MAIN_SEPARATOR`, the separator of path components on
/// this platform, which std documents as `/` on Unix and `\` on Windows.
/// Which one it is depends on the machine, so only that it is one of the
/// two is claimed.
#[verifier::external_body]
fn platform_separator() -> (c: char)
    ensures
        is_platform_separator(c),
{
    std::path::MAIN_SEPARATOR
}

/// Calls `directories::BaseDirs::new` and reads `config_dir`, as text (a
/// name that is not valid UTF-8 is converted lossily, since the library
/// holds paths as text). The answer depends on the user's environment, so
/// nothing is claimed of it.
#[verifier::external_body]
fn platform_config_dir() -> Option<String> {
    match directories::BaseDirs::new() {
        Some(dirs) => Some(dirs.config_dir().to_string_lossy().into_owned()),
        None => None,
    }
}

/// The tool's own directory under a platform config directory.
pub open spec fn app_dir_in(config_dir: Seq<char>, sep: char) -> Seq<char> {
    path_join(config_dir, "campus-network"@, sep)
}

/// The config file under a platform config directory.
pub open spec fn config_file_in(config_dir: Seq<char>, sep: char) -> Seq<char> {
    path_join(app_dir_in(config_dir, sep), "config.toml"@, sep)
}

/// The daemon log under a platform config directory.
pub open spec fn log_file_in(config_dir: Seq<char>, sep: char) -> Seq<char> {
    path_join(app_dir_in(config_dir, sep), "daemon.log"@, sep)
}

impl AppConfig {
    /// The config file's path under the given platform config directory,
    /// components separated by `sep`.
    pub fn config_path_in(config_dir: &str, sep: char) -> (r: String)
        ensures
            r@ == config_file_in(config_dir@, sep),
    {
        let dir = join_path(config_dir, "campus-network", sep);
        join_path(dir.as_str(), "config.toml", sep)
    }

    /// The daemon log's path under the given platform config directory,
    /// components separated by `sep`.
    pub fn log_path_in(config_dir: &str, sep: char) -> (r: String)
        ensures
            r@ == log_file_in(config_dir@, sep),
    {
        let dir = join_path(config_dir, "campus-network", sep);
        join_path(dir.as_str(), "daemon.log", sep)
    }

    /// `campus-network/config.toml` under this user's config directory,
    /// written with the platform's separator.
    pub fn config_path() -> (r: Result<String, PathError>)
        ensures
            r matches Ok(p) ==> exists|d: Seq<char>, sep: char|
                is_platform_separator(sep) && p@ == config_file_in(d, sep),
            r matches Err(e) ==> e == PathError::NoConfigDir,
    {
        match platform_config_dir() {
            Some(dir) => Ok(Self::config_path_in(dir.as_str(), platform_separator())),
            None => Err(PathError::NoConfigDir),
        }
    }

    /// `campus-network/daemon.log` under this user's config directory,
    /// written with the platform's separator.
    pub fn log_path() -> (r: Result<String, PathError>)
        ensures
            r matches Ok(p) ==> exists|d: Seq<char>, sep: char|
                is_platform_separator(sep) && p@ == log_file_in(d, sep),
            r matches Err(e) ==> e == PathError::NoConfigDir,
    {
        match platform_config_dir() {
            Some(dir) => Ok(Self::log_path_in(dir.as_str(), platform_separator())),
            None => Err(PathError::NoConfigDir),
        }
    }
}

// ---------------------------------------------------------------------------
// Loading
// ---------------------------------------------------------------------------

/// What went wrong before a configuration could be checked: the file could
/// not be read, or its text is not a configuration. Each carries the
/// underlying error's text.
#[derive(Debug, Clone, PartialEq, Eq)]
pub enum LoadFailure {
    Read(String),
    Parse(String),
}

/// Why loading the configuration failed.
#[derive(Debug, Clone, PartialEq, Eq)]
pub enum LoadError {
    /// The file does not exist (only `load_required` asks).
    NotFound(String),
    /// The file at this path could not be read, for the given cause.
    Read(String, String),
    /// The file at this path is not a configuration, for the given cause.
    Parse(String, String),
    /// The file parsed, but the configuration breaks a rule.
    Invalid(ConfigError),
}

impl LoadError {
    /// The headline of the error; the cause of a read or parse error is
    /// kept apart in the variant.
    pub fn message(&self) -> (m: String)
        ensures
            match self {
                LoadError::NotFound(p) => m@ == "config not found at "@ + p@
                    + "; run without arguments to open the setup wizard"@,
                LoadError::Read(p, _) => m@ == "failed to read config file "@ + p@,
                LoadError::Parse(p, _) => m@ == "failed to parse config file "@ + p@,
                LoadError::Invalid(e) => m@ == fault_message(e@),
            },
    {
        match self {
            LoadError::NotFound(p) => {
                let mut m = String::from_str("config not found at ");
                m.append(p.as_str());
                m.append("; run without arguments to open the setup wizard");
                m
            },
            LoadError::Read(p, _) => {
                let mut m = String::from_str("failed to read config file ");
                m.append(p.as_str());
                m
            },
            LoadError::Parse(p, _) => {
                let mut m = String::from_str("failed to parse config file ");
                m.append(p.as_str());
                m
            },
            LoadError::Invalid(e) => e.message(),
        }
    }
}

/// What loading the file at `path` gives, from what reading and parsing it
/// gave: the configuration when it is valid, else the matching error.
pub open spec fn load_outcome(
    path: Seq<char>,
    read: Result<AppConfig, LoadFailure>,
    r: Result<AppConfig, LoadError>,
) -> bool {
    match read {
        Err(LoadFailure::Read(cause)) => (r matches Err(LoadError::Read(p, c)) && p@ == path
            && c@ == cause@),
        Err(LoadFailure::Parse(cause)) => (r matches Err(LoadError::Parse(p, c)) && p@ == path
            && c@ == cause@),
        Ok(config) => match config_fault(config@) {
            Some(f) => (r matches Err(LoadError::Invalid(e)) && e@ == f),
            None => (r matches Ok(c) && c@ == config@),
        },
    }
}

impl AppConfig {
    /// Loads the configuration at `path` (the config file's path) from the
    /// result of reading and parsing it; a configuration that parsed is
    /// checked before it is handed out.
    pub fn load(path: &str, read: Result<AppConfig, LoadFailure>) -> (r: Result<
        AppConfig,
        LoadError,
    >)
        ensures
            load_outcome(path@, read, r),
    {
        match read {
            Err(LoadFailure::Read(cause)) => Err(LoadError::Read(String::from_str(path), cause)),
            Err(LoadFailure::Parse(cause)) => Err(LoadError::Parse(String::from_str(path), cause)),
            Ok(config) => match config.validate() {
                Ok(()) => Ok(config),
                Err(e) => Err(LoadError::Invalid(e)),
            },
        }
    }

    /// As `load`, but a missing file (`read` is `None`: the file does not
    /// exist, so it was not read) is an error that points to the setup
    /// wizard.
    pub fn load_required(path: &str, read: Option<Result<AppConfig, LoadFailure>>) -> (r: Result<
        AppConfig,
        LoadError,
    >)
        ensures
            match read {
                None => (r matches Err(LoadError::NotFound(p)) && p@ == path@),
                Some(read) => load_outcome(path@, read, r),
            },
    {
        match read {
            None => Err(LoadError::NotFound(String::from_str(path))),
            Some(read) => Self::load(path, read),
        }
    }
}

} // verus!

verus! {

// ---------------------------------------------------------------------------
// Updates from the command line
// ---------------------------------------------------------------------------

/// The values given to `config set`; absent ones keep their current value.
#[derive(Debug, Clone)]
pub struct ConfigUpdates {
    pub username: Option<String>,
    pub password: Option<String>,
    pub portal_url: Option<String>,
    pub probe_url: Option<String>,
    pub online_check_interval_secs: Option<u64>,
    pub request_timeout_secs: Option<u64>,
    pub campus_cidrs: Option<Vec<String>>,
    pub campus_gateways: Option<Vec<String>>,
}

/// Why `config set` refuses.
#[derive(Debug, Clone, PartialEq, Eq)]
pub enum UpdateError {
    NoValues,
    Invalid(ConfigError),
}

impl UpdateError {
    pub fn message(&self) -> (m: String)
        ensures
            match self {
                UpdateError::NoValues => m@ == NO_VALUES_MESSAGE@,
                UpdateError::Invalid(e) => m@ == fault_message(e@),
            },
    {
        match self {
            UpdateError::NoValues => String::from_str(NO_VALUES_MESSAGE),
            UpdateError::Invalid(e) => e.message(),
        }
    }
}

pub const NO_VALUES_MESSAGE: &'static str = "no values provided; use --username/--password/--portal-url/--probe-url/--campus-cidrs/--campus-gateways";

pub open spec fn pick_text(new: Option<String>, current: Seq<char>) -> Seq<char> {
    match new {
        Some(s) => s@,
        None => current,
    }
}

pub open spec fn pick_number(new: Option<u64>, current: u64) -> u64 {
    match new {
        Some(n) => n,
        None => current,
    }
}

pub open spec fn pick_list(new: Option<Vec<String>>, current: Seq<Seq<char>>) -> Seq<Seq<char>> {
    match new {
        Some(v) => text::strings_view(v@),
        None => current,
    }
}

/// `c` with every given value put in place.
pub open spec fn updated_config(c: ConfigView, u: ConfigUpdates) -> ConfigView {
    ConfigView {
        username: pick_text(u.username, c.username),
        password: pick_text(u.password, c.password),
        portal_url: pick_text(u.portal_url, c.portal_url),
        probe_url: pick_text(u.probe_url, c.probe_url),
        online_check_interval_secs: pick_number(
            u.online_check_interval_secs,
            c.online_check_interval_secs,
        ),
        request_timeout_secs: pick_number(u.request_timeout_secs, c.request_timeout_secs),
        ipv4_cidrs: pick_list(u.campus_cidrs, c.ipv4_cidrs),
        gateway_hosts: pick_list(u.campus_gateways, c.gateway_hosts),
        ..c
    }
}

/// Some value was given.
pub open spec fn has_updates(u: ConfigUpdates) -> bool {
    ||| u.username is Some
    ||| u.password is Some
    ||| u.portal_url is Some
    ||| u.probe_url is Some
    ||| u.online_check_interval_secs is Some
    ||| u.request_timeout_secs is Some
    ||| u.campus_cidrs is Some
    ||| u.campus_gateways is Some
}

/// `config set`: puts the given values into the configuration; refuses
/// when none is given, or when the result is not a valid configuration.
pub fn apply_config_updates(config: AppConfig, updates: ConfigUpdates) -> (r: Result<
    AppConfig,
    UpdateError,
>)
    ensures
        !has_updates(updates) ==> (r matches Err(e) && e is NoValues),
        has_updates(updates) ==> match config_fault(updated_config(config@, updates)) {
            Some(f) => (r matches Err(e) && e matches UpdateError::Invalid(ce) && ce@ == f),
            None => (r matches Ok(c) && c@ == updated_config(config@, updates)),
        },
{
    let ghost u = updates;
    let mut config = config;
    let mut changed = false;
    let ConfigUpdates {
        username,
        password,
        portal_url,
        probe_url,
        online_check_interval_secs,
        request_timeout_secs,
        campus_cidrs,
        campus_gateways,
    } = updates;
    if let Some(v) = username {
        config.auth.username = v;
        changed = true;
    }
    if let Some(v) = password {
        config.auth.password = v;
        changed = true;
    }
    if let Some(v) = portal_url {
        config.auth.portal_url = v;
        changed = true;
    }
    if let Some(v) = probe_url {
        config.detect.probe_url = v;
        changed = true;
    }
    if let Some(v) = online_check_interval_secs {
        config.daemon.online_check_interval_secs = v;
        changed = true;
    }
    if let Some(v) = request_timeout_secs {
        config.detect.request_timeout_secs = v;
        changed = true;
    }
    if let Some(v) = campus_cidrs {
        config.campus.ipv4_cidrs = v;
        changed = true;
    }
    if let Some(v) = campus_gateways {
        config.campus.gateway_hosts = v;
        changed = true;
    }
    if !changed {
        return Err(UpdateError::NoValues);
    }
    match config.validate() {
        Ok(()) => Ok(config),
        Err(e) => Err(UpdateError::Invalid(e)),
    }
}


/// `config set` puts each given value into its own field and leaves every
/// other field as it was.
pub proof fn lemma_updates_land_in_their_fields(c: ConfigView, u: ConfigUpdates)
    ensures
        ({
            let r = updated_config(c, u);
            &&& r.username == (match u.username {
                Some(v) => v@,
                None => c.username,
            })
            &&& r.password == (match u.password {
                Some(v) => v@,
                None => c.password,
            })
            &&& r.portal_url == (match u.portal_url {
                Some(v) => v@,
                None => c.portal_url,
            })
            &&& r.probe_url == (match u.probe_url {
                Some(v) => v@,
                None => c.probe_url,
            })
            &&& r.online_check_interval_secs == (match u.online_check_interval_secs {
                Some(v) => v,
                None => c.online_check_interval_secs,
            })
            &&& r.request_timeout_secs == (match u.request_timeout_secs {
                Some(v) => v,
                None => c.request_timeout_secs,
            })
            &&& r.ipv4_cidrs == (match u.campus_cidrs {
                Some(v) => text::strings_view(v@),
                None => c.ipv4_cidrs,
            })
            &&& r.gateway_hosts == (match u.campus_gateways {
                Some(v) => text::strings_view(v@),
                None => c.gateway_hosts,
            })
            &&& r.offline_check_interval_secs == c.offline_check_interval_secs
        }),
{
}


/// A configuration is valid exactly when the user name is not blank, the
/// password is not empty, both URLs parse, the timeout and both intervals
/// are positive, every CIDR parses, and there is at least one gateway and
/// none is blank.
pub proof fn lemma_valid_means_every_rule(c: ConfigView)
    ensures
        config_fault(c) is None <==> {
            &&& !text::is_blank(c.username)
            &&& c.password.len() > 0
            &&& url::is_valid_url(c.portal_url)
            &&& url::is_valid_url(c.probe_url)
            &&& c.request_timeout_secs > 0
            &&& c.online_check_interval_secs > 0
            &&& c.offline_check_interval_secs > 0
            &&& forall|i: int|
                0 <= i < c.ipv4_cidrs.len() ==> network::parsed_cidr(#[trigger] c.ipv4_cidrs[i]) is Some
            &&& c.gateway_hosts.len() > 0
            &&& forall|i: int|
                0 <= i < c.gateway_hosts.len() ==> !text::is_blank(#[trigger] c.gateway_hosts[i])
        },
{
    if network::first_invalid_cidr(c.ipv4_cidrs) is Some {
        network::lemma_first_invalid_cidr_some(c.ipv4_cidrs);
    } else {
        network::lemma_first_invalid_cidr_none(c.ipv4_cidrs);
    }
    if has_blank_gateway(c.gateway_hosts) {
        let i = choose|i: int| 0 <= i < c.gateway_hosts.len() && text::is_blank(#[trigger] c.gateway_hosts[i]);
        assert(text::is_blank(c.gateway_hosts[i]));
    }
}

} // verus!
