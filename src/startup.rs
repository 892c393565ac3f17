//! Running the client at login, and the registry entries that make the system
//! hand a custom URI scheme to the client.

use vstd::prelude::*;
use crate::text::str_eq;

verus! {

/// A startup or configuration operation failed.
#[derive(Clone, Copy, Debug, PartialEq, Eq)]
pub enum StartupError {
    /// The platform cannot run the client at login.
    Unsupported,
    /// The platform refused the change.
    Failed,
    /// The configuration has no such key.
    UnknownKey,
    /// The value is not `true` or `false`.
    InvalidValue,
}

/// How a platform runs the client when the user logs in.
pub trait StartupBehaviour {
    /// Whether the platform can run the client at login.
    spec fn supported() -> bool;

    fn run_on_startup_supported() -> (r: bool)
        ensures
            r == Self::supported(),
    ;

    fn set_run_on_startup_enabled(run_on_startup: bool) -> Result<(), StartupError>;

    fn get_run_on_startup_enabled() -> Result<bool, StartupError>;
}

/// macOS: running at login is not offered.
pub struct MacOSStartupBehaviour;

impl StartupBehaviour for MacOSStartupBehaviour {
    open spec fn supported() -> bool {
        false
    }

    fn run_on_startup_supported() -> (r: bool) {
        false
    }

    fn set_run_on_startup_enabled(run_on_startup: bool) -> Result<(), StartupError> {
        Err(StartupError::Unsupported)
    }

    fn get_run_on_startup_enabled() -> Result<bool, StartupError> {
        Ok(false)
    }
}

/// The configuration key that tells whether running at login is supported.
pub const RUN_ON_STARTUP_SUPPORTED: &'static str = "RUN_ON_STARTUP_SUPPORTED";

/// The configuration key that turns running at login on or off.
pub const RUN_ON_STARTUP: &'static str = "RUN_ON_STARTUP";

/// The text of a flag.
pub open spec fn spec_bool_text(b: bool) -> Seq<char> {
    if b {
        "true"@
    } else {
        "false"@
    }
}

/// Writes a flag as `true` or `false`.
pub fn bool_text(b: bool) -> (r: String)
    ensures
        r@ == spec_bool_text(b),
{
    if b {
        String::from_str("true")
    } else {
        String::from_str("false")
    }
}

/// Reads a flag written as `true` or `false`.
pub fn parse_bool(s: &str) -> (r: Result<bool, StartupError>)
    ensures
        s@ == "true"@ ==> r == Ok::<bool, StartupError>(true),
        s@ == "false"@ ==> r == Ok::<bool, StartupError>(false),
        s@ != "true"@ && s@ != "false"@ ==> r == Err::<bool, StartupError>(
            StartupError::InvalidValue,
        ),
{
    proof {
        reveal_strlit("true");
        reveal_strlit("false");
        assert("true"@.len() != "false"@.len());
    }
    if str_eq(s, "true") {
        Ok(true)
    } else if str_eq(s, "false") {
        Ok(false)
    } else {
        Err(StartupError::InvalidValue)
    }
}

/// The configuration keys backed by a platform's startup behaviour.
#[derive(Clone, Copy, Debug, PartialEq, Eq)]
pub struct StartupConfig;

impl StartupConfig {
    /// The keys that can be set.
    pub fn supported_settable_keys(&self) -> (r: Vec<String>)
        ensures
            r@.len() == 1,
            r@[0]@ == RUN_ON_STARTUP@,
    {
        let mut v: Vec<String> = Vec::new();
        v.push(String::from_str(RUN_ON_STARTUP));
        v
    }

    /// Reads a key: whether running at login is supported, or whether it is on.
    pub fn get<B: StartupBehaviour>(&self, key: &str) -> (r: Result<String, StartupError>)
        ensures
            key@ == RUN_ON_STARTUP_SUPPORTED@ ==> r is Ok && r->Ok_0@ == spec_bool_text(
                B::supported(),
            ),
            key@ == RUN_ON_STARTUP@ ==> match r {
                Ok(t) => t@ == spec_bool_text(true) || t@ == spec_bool_text(false),
                Err(_) => true,
            },
            key@ != RUN_ON_STARTUP_SUPPORTED@ && key@ != RUN_ON_STARTUP@ ==> r == Err::<
                String,
                StartupError,
            >(StartupError::UnknownKey),
    {
        if str_eq(key, RUN_ON_STARTUP_SUPPORTED) {
            Ok(bool_text(B::run_on_startup_supported()))
        } else if str_eq(key, RUN_ON_STARTUP) {
            match B::get_run_on_startup_enabled() {
                Ok(b) => Ok(bool_text(b)),
                Err(e) => Err(e),
            }
        } else {
            Err(StartupError::UnknownKey)
        }
    }

    /// Sets a key: only running at login can be set, to `true` or `false`.
    pub fn set<B: StartupBehaviour>(&mut self, key: &str, value: &str) -> (r: Result<
        (),
        StartupError,
    >)
        ensures
            key@ != RUN_ON_STARTUP@ ==> r == Err::<(), StartupError>(StartupError::UnknownKey),
            key@ == RUN_ON_STARTUP@ && value@ != "true"@ && value@ != "false"@ ==> r == Err::<
                (),
                StartupError,
            >(StartupError::InvalidValue),
    {
        if str_eq(key, RUN_ON_STARTUP) {
            match parse_bool(value) {
                Ok(v) => B::set_run_on_startup_enabled(v),
                Err(e) => Err(e),
            }
        } else {
            Err(StartupError::UnknownKey)
        }
    }
}

/// Where per-user URI scheme handlers are registered.
pub const ROOT_KEY_PATH: &'static str = "Software\\Classes";

/// The registry key of a custom URI scheme.
pub fn custom_uri_scheme_key_path(custom_uri_scheme: &str) -> (r: String)
    ensures
        r@ == ROOT_KEY_PATH@ + "\\"@ + custom_uri_scheme@,
{
    let mut r = String::from_str(ROOT_KEY_PATH);
    r.append("\\");
    r.append(custom_uri_scheme);
    r
}

/// The default value of a custom URI scheme's key.
pub fn custom_uri_scheme_key_value_value(custom_uri_scheme: &str) -> (r: String)
    ensures
        r@ == "URL:"@ + custom_uri_scheme@,
{
    let mut r = String::from_str("URL:");
    r.append(custom_uri_scheme);
    r
}

/// The registry key under which the open command of a custom URI scheme lives.
pub fn command_key_path(custom_uri_scheme: &str) -> (r: String)
    ensures
        r@ == ROOT_KEY_PATH@ + "\\"@ + custom_uri_scheme@ + "\\"@ + "shell"@ + "\\"@ + "open"@,
{
    let mut r = custom_uri_scheme_key_path(custom_uri_scheme);
    r.append("\\");
    r.append("shell");
    r.append("\\");
    r.append("open");
    r
}

/// The registry key that holds the open command of a custom URI scheme.
pub fn command_subkey_path(custom_uri_scheme: &str) -> (r: String)
    ensures
        r@ == ROOT_KEY_PATH@ + "\\"@ + custom_uri_scheme@ + "\\"@ + "shell"@ + "\\"@ + "open"@
            + "\\"@ + "command"@,
{
    let mut r = command_key_path(custom_uri_scheme);
    r.append("\\");
    r.append("command");
    r
}

/// The command line that opens a URI of the custom scheme: the quoted redirect
/// parameter, the executable, and the quoted URI placeholder.
pub fn command_key_value_value(redirect_url_param: &str, current_exe: &str) -> (r: String)
    ensures
        r@ == "\""@ + redirect_url_param@ + "\" "@ + current_exe@ + " \"%1\""@,
{
    let mut r = String::from_str("\"");
    r.append(redirect_url_param);
    r.append("\" ");
    r.append(current_exe);
    r.append(" \"%1\"");
    r
}

} // verus!
