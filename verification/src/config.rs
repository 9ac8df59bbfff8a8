//! Server and client configuration values, and the deterministic
//! paths derived from an app's name. Resolving the operating system's
//! base directories, creating directories and reading or writing
//! configuration files are the host program's work; the path
//! arithmetic on those base directories is here.

use vstd::prelude::*;

verus! {

/// A configuration failure.
#[derive(Clone, PartialEq, Eq, Debug)]
pub enum ConfigError {
    IoError(String),
    PortError(String),
    TomlError(String),
}

/// The gateway server's bind addresses.
pub struct ServerConfig {
    pub host: String,
    pub proxy_host: String,
    pub proxy_port: u16,
}

impl Default for ServerConfig {
    /// Listen on all interfaces, proxy on port 80.
    fn default() -> (r: ServerConfig)
        ensures
            r.host@ == "0.0.0.0"@,
            r.proxy_host@ == "0.0.0.0"@,
            r.proxy_port == 80,
    {
        ServerConfig {
            host: String::from_str("0.0.0.0"),
            proxy_host: String::from_str("0.0.0.0"),
            proxy_port: 80,
        }
    }
}

/// Where the command-line client reaches the administrative API.
pub struct ClientConfig {
    pub base_url: String,
}

impl Default for ClientConfig {
    /// The administrative router behind the gateway's reserved label.
    fn default() -> (r: ClientConfig)
        ensures
            r.base_url@ == "http://admin-api.localhost"@,
    {
        ClientConfig { base_url: String::from_str("http://admin-api.localhost") }
    }
}

/// The base directories every path is derived from. The host program
/// resolves them from the operating system once at startup; tests hand
/// in fixed ones.
pub struct Dirs {
    pub data_dir: String,
    pub config_dir: String,
}

impl Dirs {
    /// Base directories as resolved by the host program.
    pub fn new(data_dir: String, config_dir: String) -> (r: Dirs)
        ensures
            r.data_dir@ == data_dir@,
            r.config_dir@ == config_dir@,
    {
        Dirs { data_dir, config_dir }
    }
}

/// Point the path derivations at fixed test directories.
pub fn set_test_dirs(dirs: &mut Dirs, data_dir: String, config_dir: String)
    ensures
        final(dirs).data_dir@ == data_dir@,
        final(dirs).config_dir@ == config_dir@,
{
    dirs.data_dir = data_dir;
    dirs.config_dir = config_dir;
}

/// The directory one app's files live under.
pub open spec fn app_dir_of(data_dir: Seq<char>, app_name: Seq<char>) -> Seq<char> {
    data_dir + "/apps/"@ + app_name
}

/// The app's directory: `<data>/apps/<name>`.
pub fn get_app_dir(dirs: &Dirs, app_name: &str) -> (r: String)
    ensures
        r@ == app_dir_of(dirs.data_dir@, app_name@),
{
    let mut r = dirs.data_dir.clone();
    r.append("/apps/");
    r.append(app_name);
    proof {
        assert(r@ =~= app_dir_of(dirs.data_dir@, app_name@));
    }
    r
}

/// Where one app's log lines are appended.
pub open spec fn app_log_path_of(data_dir: Seq<char>, app_name: Seq<char>) -> Seq<char> {
    app_dir_of(data_dir, app_name) + "/"@ + app_name + ".log"@
}

/// The app's log file: `<data>/apps/<name>/<name>.log`.
pub fn get_app_log_path(dirs: &Dirs, app_name: &str) -> (r: String)
    ensures
        r@ == app_log_path_of(dirs.data_dir@, app_name@),
{
    let mut r = get_app_dir(dirs, app_name);
    r.append("/");
    r.append(app_name);
    r.append(".log");
    proof {
        assert(r@ =~= app_log_path_of(dirs.data_dir@, app_name@));
    }
    r
}

/// Where one app's deployed binary is written.
pub open spec fn app_binary_path_of(data_dir: Seq<char>, app_name: Seq<char>) -> Seq<char> {
    app_dir_of(data_dir, app_name) + "/app"@
}

/// The app's binary target: `<data>/apps/<name>/app`.
pub fn get_app_binary_path(dirs: &Dirs, app_name: &str) -> (r: String)
    ensures
        r@ == app_binary_path_of(dirs.data_dir@, app_name@),
{
    let mut r = get_app_dir(dirs, app_name);
    r.append("/app");
    proof {
        assert(r@ =~= app_binary_path_of(dirs.data_dir@, app_name@));
    }
    r
}

/// Where one app keeps its own data.
pub open spec fn app_data_dir_of(data_dir: Seq<char>, app_name: Seq<char>) -> Seq<char> {
    app_dir_of(data_dir, app_name) + "/data"@
}

/// The app's data directory: `<data>/apps/<name>/data`.
pub fn get_app_data_dir(dirs: &Dirs, app_name: &str) -> (r: String)
    ensures
        r@ == app_data_dir_of(dirs.data_dir@, app_name@),
{
    let mut r = get_app_dir(dirs, app_name);
    r.append("/data");
    proof {
        assert(r@ =~= app_data_dir_of(dirs.data_dir@, app_name@));
    }
    r
}

/// Where the store's database file lives.
pub open spec fn db_path_of(config_dir: Seq<char>) -> Seq<char> {
    config_dir + "/binarydrop.db"@
}

/// The database file: `<config>/binarydrop.db`.
pub fn get_db_path(dirs: &Dirs) -> (r: String)
    ensures
        r@ == db_path_of(dirs.config_dir@),
{
    let mut r = dirs.config_dir.clone();
    r.append("/binarydrop.db");
    proof {
        assert(r@ =~= db_path_of(dirs.config_dir@));
    }
    r
}

} // verus!
