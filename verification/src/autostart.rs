//! Autostart entries: where the per-user startup file goes and what it
//! says, for a systemd user service (Linux) and a launch agent (macOS).
use vstd::prelude::*;

use crate::config::{PathError, join_path};
use crate::text;
use crate::text::{chars_of, extend_str, string_of};

verus! {

pub const LINUX_SERVICE_NAME: &'static str = "campus-network-autologin.service";

pub const MACOS_AGENT_ID: &'static str = "com.campus-network-autologin";

/// Calls `directories::BaseDirs::new` and reads `home_dir`, as text (a name
/// that is not valid UTF-8 is converted lossily, since the library holds
/// paths as text). The answer depends on the user's environment, so nothing
/// is claimed of it.
#[verifier::external_body]
fn platform_home_dir() -> Option<String> {
    match directories::BaseDirs::new() {
        Some(dirs) => Some(dirs.home_dir().to_string_lossy().into_owned()),
        None => None,
    }
}

/// `~/.config/systemd/user/campus-network-autologin.service` under `home`
/// (a Linux path, so components are separated by `/`).
pub open spec fn service_path_in(home: Seq<char>) -> Seq<char> {
    let config = crate::config::path_join(home, ".config"@, '/');
    let systemd = crate::config::path_join(config, "systemd"@, '/');
    let user = crate::config::path_join(systemd, "user"@, '/');
    crate::config::path_join(user, LINUX_SERVICE_NAME@, '/')
}

/// `~/Library/LaunchAgents/com.campus-network-autologin.plist` under `home`
/// (a macOS path, so components are separated by `/`).
pub open spec fn launch_agent_path_in(home: Seq<char>) -> Seq<char> {
    let library = crate::config::path_join(home, "Library"@, '/');
    let agents = crate::config::path_join(library, "LaunchAgents"@, '/');
    crate::config::path_join(agents, MACOS_AGENT_ID@ + ".plist"@, '/')
}

/// The systemd user service file's path under a home directory.
pub fn autostart_path_in(home: &str) -> (r: String)
    ensures
        r@ == service_path_in(home@),
{
    let a = join_path(home, ".config", '/');
    let b = join_path(a.as_str(), "systemd", '/');
    let c = join_path(b.as_str(), "user", '/');
    join_path(c.as_str(), LINUX_SERVICE_NAME, '/')
}

/// The launch agent's path under a home directory.
pub fn launch_agent_path(home: &str) -> (r: String)
    ensures
        r@ == launch_agent_path_in(home@),
{
    let a = join_path(home, "Library", '/');
    let b = join_path(a.as_str(), "LaunchAgents", '/');
    let mut name = String::from_str(MACOS_AGENT_ID);
    name.append(".plist");
    join_path(b.as_str(), name.as_str(), '/')
}

/// Where this user's autostart service file goes.
pub fn platform_autostart_path() -> (r: Result<String, PathError>)
    ensures
        r matches Ok(p) ==> exists|h: Seq<char>| p@ == service_path_in(h),
        r matches Err(e) ==> e == PathError::NoHomeDir,
{
    match platform_home_dir() {
        Some(home) => Ok(autostart_path_in(home.as_str())),
        None => Err(PathError::NoHomeDir),
    }
}

/// Where this user's launch agent file goes, on macOS.
pub fn platform_launch_agent_path() -> (r: Result<String, PathError>)
    ensures
        r matches Ok(p) ==> exists|h: Seq<char>| p@ == launch_agent_path_in(h),
        r matches Err(e) ==> e == PathError::NoHomeDir,
{
    match platform_home_dir() {
        Some(home) => Ok(launch_agent_path(home.as_str())),
        None => Err(PathError::NoHomeDir),
    }
}

/// The autostart file's path, as the `autostart path` command shows it.
pub fn show_autostart_path() -> (r: Result<String, PathError>)
    ensures
        r matches Ok(p) ==> exists|h: Seq<char>| p@ == service_path_in(h),
        r matches Err(e) ==> e == PathError::NoHomeDir,
{
    platform_autostart_path()
}

// ---------------------------------------------------------------------------
// File contents
// ---------------------------------------------------------------------------

/// `s` with every `"` written as `\"`.
pub open spec fn escape_quotes(s: Seq<char>) -> Seq<char>
    decreases s.len(),
{
    if s.len() == 0 {
        Seq::empty()
    } else {
        escape_quotes(s.drop_last()) + if s.last() == '"' {
            seq!['\\', '"']
        } else {
            seq![s.last()]
        }
    }
}

/// The XML entity for a character that needs one, else the character.
pub open spec fn xml_escape_char(c: char) -> Seq<char> {
    if c == '&' {
        "&amp;"@
    } else if c == '<' {
        "&lt;"@
    } else if c == '>' {
        "&gt;"@
    } else if c == '"' {
        "&quot;"@
    } else if c == '\'' {
        "&apos;"@
    } else {
        seq![c]
    }
}

/// `s` with `&`, `<`, `>`, `"` and `'` written as XML entities.
pub open spec fn xml_escaped(s: Seq<char>) -> Seq<char>
    decreases s.len(),
{
    if s.len() == 0 {
        Seq::empty()
    } else {
        xml_escaped(s.drop_last()) + xml_escape_char(s.last())
    }
}

/// Escapes the double quotes of an executable path for `ExecStart=`.
pub fn escape_double_quotes(s: &str) -> (r: String)
    ensures
        r@ == escape_quotes(s@),
{
    let v = chars_of(s);
    let mut out: Vec<char> = Vec::new();
    let mut i: usize = 0;
    while i < v.len()
        invariant
            i <= v@.len(),
            out@ == escape_quotes(v@.subrange(0, i as int)),
        decreases v@.len() - i,
    {
        proof {
            assert(v@.subrange(0, i + 1).drop_last() =~= v@.subrange(0, i as int));
        }
        let c = v[i];
        if c == '"' {
            out.push('\\');
            out.push('"');
            assert(out@ =~= escape_quotes(v@.subrange(0, i as int)) + seq!['\\', '"']);
        } else {
            out.push(c);
            assert(out@ =~= escape_quotes(v@.subrange(0, i as int)) + seq![c]);
        }
        i = i + 1;
    }
    assert(v@.subrange(0, v@.len() as int) =~= v@);
    string_of(&out)
}

/// Escapes the characters that XML gives a meaning to.
pub fn xml_escape(input: &str) -> (r: String)
    ensures
        r@ == xml_escaped(input@),
{
    proof {
        reveal_strlit("&amp;");
        reveal_strlit("&lt;");
        reveal_strlit("&gt;");
        reveal_strlit("&quot;");
        reveal_strlit("&apos;");
    }
    let v = chars_of(input);
    let mut out: Vec<char> = Vec::new();
    let mut i: usize = 0;
    while i < v.len()
        invariant
            i <= v@.len(),
            out@ == xml_escaped(v@.subrange(0, i as int)),
        decreases v@.len() - i,
    {
        proof {
            assert(v@.subrange(0, i + 1).drop_last() =~= v@.subrange(0, i as int));
        }
        let c = v[i];
        if c == '&' {
            extend_str(&mut out, "&amp;");
        } else if c == '<' {
            extend_str(&mut out, "&lt;");
        } else if c == '>' {
            extend_str(&mut out, "&gt;");
        } else if c == '"' {
            extend_str(&mut out, "&quot;");
        } else if c == '\'' {
            extend_str(&mut out, "&apos;");
        } else {
            out.push(c);
            assert(out@ =~= xml_escaped(v@.subrange(0, i as int)) + seq![c]);
        }
        i = i + 1;
    }
    assert(v@.subrange(0, v@.len() as int) =~= v@);
    string_of(&out)
}

/// What XML escaping leaves cannot open a tag, close one, or end an
/// attribute value: none of `<`, `>`, `"`, `'` remains.
pub proof fn lemma_xml_escaped_is_inert(s: Seq<char>)
    ensures
        forall|i: int|
            0 <= i < xml_escaped(s).len() ==> {
                let c = #[trigger] xml_escaped(s)[i];
                c != '<' && c != '>' && c != '"' && c != '\''
            },
    decreases s.len(),
{
    reveal_strlit("&amp;");
    reveal_strlit("&lt;");
    reveal_strlit("&gt;");
    reveal_strlit("&quot;");
    reveal_strlit("&apos;");
    if s.len() > 0 {
        lemma_xml_escaped_is_inert(s.drop_last());
        let prev = xml_escaped(s.drop_last());
        let tail = xml_escape_char(s.last());
        assert forall|i: int| 0 <= i < xml_escaped(s).len() implies {
            let c = #[trigger] xml_escaped(s)[i];
            c != '<' && c != '>' && c != '"' && c != '\''
        } by {
            if i < prev.len() {
                assert(xml_escaped(s)[i] == prev[i]);
            } else {
                assert(xml_escaped(s)[i] == tail[i - prev.len()]);
            }
        }
    }
}

pub const SERVICE_HEAD: &'static str = "[Unit]\nDescription=Campus network auto-login\nAfter=network-online.target\nWants=network-online.target\n\n[Service]\nType=simple\nExecStart=\"";

pub const SERVICE_TAIL: &'static str = "\" run\nRestart=always\nRestartSec=10\n\n[Install]\nWantedBy=default.target\n";

pub const PLIST_HEAD: &'static str = "<?xml version=\"1.0\" encoding=\"UTF-8\"?>\n<!DOCTYPE plist PUBLIC \"-//Apple//DTD PLIST 1.0//EN\" \"http://www.apple.com/DTDs/PropertyList-1.0.dtd\">\n<plist version=\"1.0\">\n<dict>\n  <key>Label</key>\n  <string>com.campus-network-autologin</string>\n  <key>ProgramArguments</key>\n  <array>\n    <string>";

pub const PLIST_TAIL: &'static str = "</string>\n    <string>run</string>\n  </array>\n  <key>RunAtLoad</key>\n  <true/>\n  <key>KeepAlive</key>\n  <true/>\n</dict>\n</plist>\n";

/// The systemd user service that runs `<exe> run` at login.
pub open spec fn service_unit(exe: Seq<char>) -> Seq<char> {
    SERVICE_HEAD@ + escape_quotes(exe) + SERVICE_TAIL@
}

/// The launch agent property list that runs `<exe> run` at login.
pub open spec fn launch_agent_plist(exe: Seq<char>) -> Seq<char> {
    PLIST_HEAD@ + xml_escaped(exe) + PLIST_TAIL@
}

/// The systemd user service file for the given executable path.
pub fn platform_autostart_content(exe_path: &str) -> (r: String)
    ensures
        r@ == service_unit(exe_path@),
{
    let mut r = String::from_str(SERVICE_HEAD);
    let exec = escape_double_quotes(exe_path);
    r.append(exec.as_str());
    r.append(SERVICE_TAIL);
    r
}

/// The launch agent file for the given executable path.
pub fn launch_agent_content(exe_path: &str) -> (r: String)
    ensures
        r@ == launch_agent_plist(exe_path@),
{
    let mut r = String::from_str(PLIST_HEAD);
    let exec = xml_escape(exe_path);
    r.append(exec.as_str());
    r.append(PLIST_TAIL);
    r
}

// ---------------------------------------------------------------------------
// Install and remove
// ---------------------------------------------------------------------------

/// A file to write: where, and what.
#[derive(Debug, Clone)]
pub struct AutostartFile {
    pub path: String,
    pub content: String,
}

/// The service file to install for the given executable: this user's
/// service path, and the unit that runs it.
pub fn install_autostart(exe_path: &str) -> (r: Result<AutostartFile, PathError>)
    ensures
        r matches Ok(f) ==> (exists|h: Seq<char>| f.path@ == service_path_in(h)) && f.content@
            == service_unit(exe_path@),
        r matches Err(e) ==> e == PathError::NoHomeDir,
{
    let path = platform_autostart_path()?;
    Ok(AutostartFile { path, content: platform_autostart_content(exe_path) })
}

/// The launch agent to install for the given executable, on macOS: this
/// user's launch agent path, and the property list that runs it.
pub fn install_launch_agent(exe_path: &str) -> (r: Result<AutostartFile, PathError>)
    ensures
        r matches Ok(f) ==> (exists|h: Seq<char>| f.path@ == launch_agent_path_in(h))
            && f.content@ == launch_agent_plist(exe_path@),
        r matches Err(e) ==> e == PathError::NoHomeDir,
{
    let path = platform_launch_agent_path()?;
    Ok(AutostartFile { path, content: launch_agent_content(exe_path) })
}

/// Why autostart could not be removed.
#[derive(Debug, Clone, PartialEq, Eq)]
pub enum AutostartError {
    NotInstalled(String),
}

impl AutostartError {
    pub fn message(&self) -> (m: String)
        ensures
            match self {
                AutostartError::NotInstalled(p) => m@ == "autostart file does not exist: "@ + p@,
            },
    {
        match self {
            AutostartError::NotInstalled(p) => {
                let mut m = String::from_str("autostart file does not exist: ");
                m.append(p.as_str());
                m
            },
        }
    }
}

/// The file to delete to remove autostart: refused when it does not exist.
pub fn remove_autostart(path: String, exists: bool) -> (r: Result<String, AutostartError>)
    ensures
        exists ==> r == Ok::<String, AutostartError>(path),
        !exists ==> r == Err::<String, AutostartError>(AutostartError::NotInstalled(path)),
{
    if exists {
        Ok(path)
    } else {
        Err(AutostartError::NotInstalled(path))
    }
}

} // verus!
