//! Configuration: where the user's configuration lives relative to a home
//! directory, and the application preferences document that is persisted
//! there. Reading the home directory and touching the filesystem belong to
//! the surrounding application; this module only computes paths and the
//! exact document to write.

use vstd::prelude::*;
use crate::ctxjson::spec_jstr;
use crate::textesc::json_escape;

verus! {

/// Which theme mode the user asked for.
#[derive(Debug, Clone, Copy, PartialEq, Eq, Structural)]
pub enum ThemeModeSetting {
    System,
    Light,
    Dark,
}

impl Default for ThemeModeSetting {
    fn default() -> (r: Self)
        ensures
            r == ThemeModeSetting::System,
    {
        ThemeModeSetting::System
    }
}

/// The user's theme preferences.
#[derive(Debug, Clone, PartialEq)]
pub struct ThemePrefs {
    pub mode: ThemeModeSetting,
    pub light: Option<String>,
    pub dark: Option<String>,
}

impl Default for ThemePrefs {
    fn default() -> (r: Self)
        ensures
            r.mode == ThemeModeSetting::System,
            r.light is None,
            r.dark is None,
    {
        ThemePrefs { mode: ThemeModeSetting::System, light: None, dark: None }
    }
}

/// The whole persisted application configuration.
#[derive(Debug, Clone, PartialEq)]
pub struct AppConfig {
    pub theme: ThemePrefs,
}

impl Default for AppConfig {
    fn default() -> (r: Self)
        ensures
            r.theme.mode == ThemeModeSetting::System,
            r.theme.light is None,
            r.theme.dark is None,
    {
        AppConfig { theme: ThemePrefs::default() }
    }
}

/// The configuration root under a home directory.
pub open spec fn spec_config_root(home: Seq<char>) -> Seq<char> {
    home + "/.config/irgen"@
}

/// The user configuration root: `.config/irgen` under the home directory.
pub fn config_root(home: &str) -> (r: String)
    ensures
        r@ == spec_config_root(home@),
{
    let mut s = String::from_str(home);
    s.append("/.config/irgen");
    s
}

/// Where user theme files live.
pub fn themes_dir(home: &str) -> (r: String)
    ensures
        r@ == spec_config_root(home@) + "/themes"@,
{
    let mut s = config_root(home);
    s.append("/themes");
    s
}

/// Where user template files live.
pub fn templates_dir(home: &str) -> (r: String)
    ensures
        r@ == spec_config_root(home@) + "/templates"@,
{
    let mut s = config_root(home);
    s.append("/templates");
    s
}

/// Where the configuration file lives.
pub fn config_file_path(home: &str) -> (r: String)
    ensures
        r@ == spec_config_root(home@) + "/config.json"@,
{
    let mut s = config_root(home);
    s.append("/config.json");
    s
}

/// The token a theme mode is persisted as.
pub open spec fn spec_mode_token(m: ThemeModeSetting) -> Seq<char> {
    match m {
        ThemeModeSetting::System => "system"@,
        ThemeModeSetting::Light => "light"@,
        ThemeModeSetting::Dark => "dark"@,
    }
}

/// How an optional theme name is persisted.
pub open spec fn spec_opt_name(o: Option<String>) -> Seq<char> {
    match o {
        Some(s) => spec_jstr(s@),
        None => "null"@,
    }
}

/// The persisted text of the whole configuration.
pub open spec fn spec_app_config_json(c: AppConfig) -> Seq<char> {
    "{\n  \"theme\": {\n    \"mode\": \""@ + spec_mode_token(c.theme.mode)
        + "\",\n    \"light\": "@ + spec_opt_name(c.theme.light) + ",\n    \"dark\": "@
        + spec_opt_name(c.theme.dark) + "\n  }\n}\n"@
}

fn mode_token(m: ThemeModeSetting) -> (r: &'static str)
    ensures
        r@ == spec_mode_token(m),
{
    match m {
        ThemeModeSetting::System => "system",
        ThemeModeSetting::Light => "light",
        ThemeModeSetting::Dark => "dark",
    }
}

fn opt_name_json(o: &Option<String>) -> (r: String)
    ensures
        r@ == spec_opt_name(*o),
{
    match o {
        Some(s) => {
            let mut out = String::from_str("\"");
            let e = json_escape(s.as_str());
            out.append(e.as_str());
            out.append("\"");
            proof {
                assert(out@ =~= spec_jstr(s@));
            }
            out
        },
        None => String::from_str("null"),
    }
}

/// The exact configuration document to persist.
pub fn app_config_json(c: &AppConfig) -> (r: String)
    ensures
        r@ == spec_app_config_json(*c),
{
    let mut s = String::from_str("{\n  \"theme\": {\n    \"mode\": \"");
    s.append(mode_token(c.theme.mode));
    s.append("\",\n    \"light\": ");
    let l = opt_name_json(&c.theme.light);
    s.append(l.as_str());
    s.append(",\n    \"dark\": ");
    let d = opt_name_json(&c.theme.dark);
    s.append(d.as_str());
    s.append("\n  }\n}\n");
    proof {
        assert(s@ =~= spec_app_config_json(*c));
    }
    s
}

/// The configuration document that stores the given theme preferences; the
/// caller writes it to `config_file_path`.
pub fn save_theme_preferences(theme: ThemePrefs) -> (r: String)
    ensures
        r@ == spec_app_config_json(AppConfig { theme }),
{
    app_config_json(&AppConfig { theme })
}

} // verus!
