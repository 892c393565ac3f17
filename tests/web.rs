use verishda::startup::{
    command_key_path, command_key_value_value, custom_uri_scheme_key_path,
    custom_uri_scheme_key_value_value, MacOSStartupBehaviour, StartupConfig, StartupError,
};
use verishda::web::{to_logged_as_name, HandlerError, Scheme};

#[test]
fn scheme_precedence() {
    assert_eq!(Scheme::detect(Some("https".to_string()), Some("http".to_string())).0, "https");
    assert_eq!(Scheme::detect(None, Some("https".to_string())).0, "https");
    assert_eq!(Scheme::detect(None, None).0, "http");
}

#[test]
fn logged_as_name_joins_and_trims() {
    assert_eq!(to_logged_as_name(&Some("Ada".to_string()), &Some("Lovelace".to_string())), "Ada Lovelace");
    assert_eq!(to_logged_as_name(&None, &Some("Lovelace".to_string())), "Lovelace");
    assert_eq!(to_logged_as_name(&Some(" Ada ".to_string()), &None), "Ada");
    assert_eq!(to_logged_as_name(&None, &None), "");
}

#[test]
fn handler_error_is_internal() {
    let e = HandlerError::new("boom".to_string());
    assert_eq!(e.status(), 500);
    assert_eq!(e.to_string(), "boom");
}

#[test]
fn startup_config_on_macos() {
    let mut c = StartupConfig;
    assert_eq!(c.get::<MacOSStartupBehaviour>("RUN_ON_STARTUP_SUPPORTED"), Ok("false".to_string()));
    assert_eq!(c.get::<MacOSStartupBehaviour>("RUN_ON_STARTUP"), Ok("false".to_string()));
    assert_eq!(c.get::<MacOSStartupBehaviour>("OTHER"), Err(StartupError::UnknownKey));
    assert_eq!(c.set::<MacOSStartupBehaviour>("RUN_ON_STARTUP", "yes"), Err(StartupError::InvalidValue));
    assert_eq!(c.set::<MacOSStartupBehaviour>("RUN_ON_STARTUP", "true"), Err(StartupError::Unsupported));
    assert_eq!(c.set::<MacOSStartupBehaviour>("OTHER", "true"), Err(StartupError::UnknownKey));
    assert_eq!(c.supported_settable_keys(), vec!["RUN_ON_STARTUP".to_string()]);
}

#[test]
fn uri_scheme_registry_entries() {
    assert_eq!(custom_uri_scheme_key_path("verishda"), "Software\\Classes\\verishda");
    assert_eq!(custom_uri_scheme_key_value_value("verishda"), "URL:verishda");
    assert_eq!(command_key_path("verishda"), "Software\\Classes\\verishda\\shell\\open");
    assert_eq!(command_key_value_value("--redirect", "C:\\app.exe"), "\"--redirect\" C:\\app.exe \"%1\"");
}

#[test]
fn trim_strips_unicode_white_space() {
    assert_eq!(verishda::text::trim("\u{3000} a b \t\n"), "a b");
    assert_eq!(verishda::text::trim("   "), "");
    assert_eq!(verishda::text::trim("x"), "x");
    assert_eq!(to_logged_as_name(&Some("Ann".to_string()), &Some("Lee".to_string())), "Ann Lee");
}

#[test]
fn command_subkey_under_open() {
    assert_eq!(
        verishda::startup::command_subkey_path("verishda"),
        "Software\\Classes\\verishda\\shell\\open\\command"
    );
}
