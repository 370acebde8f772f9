//! The settings of the application: those of the database tools, with their defaults, and
//! those of modules.

use vstd::prelude::*;
use vstd::string::*;
use crate::tree::Member;

verus! {

/// What the application's configuration says of the database tools.
#[derive(Debug)]
pub struct AppConfig {
    pub active_project_id: Option<String>,
    pub default_cli_path: Option<String>,
    pub default_database_host: Option<String>,
    pub default_local_db_port: Option<u16>,
}

impl Default for AppConfig {
    fn default() -> (r: Self)
        ensures
            r.active_project_id is None,
            r.default_cli_path is None,
            r.default_database_host is None,
            r.default_local_db_port is None,
    {
        AppConfig {
            active_project_id: None,
            default_cli_path: None,
            default_database_host: None,
            default_local_db_port: None,
        }
    }
}

/// What is kept of a module that is installed: its settings, and where it came from.
#[derive(Debug)]
pub struct InstalledModuleConfig {
    pub settings: Vec<Member>,
    pub source_url: Option<String>,
}

impl Default for InstalledModuleConfig {
    fn default() -> (r: Self)
        ensures
            r.settings@.len() == 0,
            r.source_url is None,
    {
        InstalledModuleConfig { settings: Vec::new(), source_url: None }
    }
}

/// The settings of a module within a project or a component.
#[derive(Debug)]
pub struct ScopedModuleConfig {
    pub settings: Vec<Member>,
}

impl Default for ScopedModuleConfig {
    fn default() -> (r: Self)
        ensures
            r.settings@.len() == 0,
    {
        ScopedModuleConfig { settings: Vec::new() }
    }
}

/// The settings that are in force.
#[derive(Debug)]
pub struct EffectiveDbSettings {
    pub cli_path: String,
    pub host: String,
    pub local_port: u16,
}

/// The text of the option, or the default where it is not set.
pub open spec fn text_or(o: Option<String>, default: Seq<char>) -> Seq<char> {
    match o {
        Some(s) => s@,
        None => default,
    }
}

/// The port of the option, or the default where it is not set.
pub open spec fn port_or_default(o: Option<u16>) -> u16 {
    match o {
        Some(p) => p,
        None => 33306,
    }
}

/// The path of the command line tool: `wp` unless the configuration names another.
pub fn resolve_cli_path(app: &AppConfig) -> (r: String)
    ensures
        r@ == text_or(app.default_cli_path, "wp"@),
{
    match &app.default_cli_path {
        Some(p) => p.clone(),
        None => String::from_str("wp"),
    }
}

/// The host of the database: `127.0.0.1` unless the configuration names another.
pub fn resolve_database_host(app: &AppConfig) -> (r: String)
    ensures
        r@ == text_or(app.default_database_host, "127.0.0.1"@),
{
    match &app.default_database_host {
        Some(h) => h.clone(),
        None => String::from_str("127.0.0.1"),
    }
}

/// The local port of a tunnel to the database: 33306 unless the configuration names another.
pub fn resolve_local_db_port(app: &AppConfig) -> (r: u16)
    ensures
        r == port_or_default(app.default_local_db_port),
{
    match app.default_local_db_port {
        Some(p) => p,
        None => 33306,
    }
}

/// The settings of the database tools that are in force.
pub fn resolve_db_settings(app: &AppConfig) -> (r: EffectiveDbSettings)
    ensures
        r.cli_path@ == text_or(app.default_cli_path, "wp"@),
        r.host@ == text_or(app.default_database_host, "127.0.0.1"@),
        r.local_port == port_or_default(app.default_local_db_port),
{
    EffectiveDbSettings {
        cli_path: resolve_cli_path(app),
        host: resolve_database_host(app),
        local_port: resolve_local_db_port(app),
    }
}

} // verus!
