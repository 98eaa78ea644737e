//! Start-up configuration.
use vstd::prelude::*;

verus! {

/// Where to listen, where to log, and the program to supervise.
#[derive(Clone, Debug)]
pub struct Config {
    pub listen: String,
    pub log_path: Option<String>,
    pub cmd: Option<Vec<String>>,
}

/// The address listened on when none is given.
pub open spec fn default_listen() -> Seq<char> {
    "0.0.0.0:9003"@
}

impl Config {
    /// Listens on `listen`, with no log and no program.
    pub fn new(listen: String) -> (r: Config)
        ensures
            r.listen == listen,
            r.log_path.is_none(),
            r.cmd.is_none(),
    {
        Config { listen, log_path: None, cmd: None }
    }

    /// Listens on the default address.
    pub fn default() -> (r: Config)
        ensures
            r.listen@ == default_listen(),
            r.log_path.is_none(),
            r.cmd.is_none(),
    {
        Config::new("0.0.0.0:9003".to_owned())
    }
}

/// The configuration from the parsed command-line options: the default address
/// where none is given.
pub fn load_config(listen: Option<String>, log: Option<String>, cmd: Option<Vec<String>>) -> (r: Config)
    ensures
        match listen {
            Some(l) => r.listen == l,
            None => r.listen@ == default_listen(),
        },
        r.log_path == log,
        r.cmd == cmd,
{
    let listen = match listen {
        Some(l) => l,
        None => "0.0.0.0:9003".to_owned(),
    };
    Config { listen, log_path: log, cmd }
}

} // verus!
