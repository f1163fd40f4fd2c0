//! Configuration and its defaults.

use vstd::prelude::*;
use crate::text::owned;

verus! {

/// `base` joined with the relative path `child` the way `std::path::Path::join`
/// does on Unix: a `/` goes between them unless `base` is empty or already
/// ends in `/`.
pub open spec fn path_join(base: Seq<char>, child: Seq<char>) -> Seq<char> {
    if base.len() > 0 && base.last() != '/' {
        base + seq!['/'] + child
    } else {
        base + child
    }
}

/// `base` joined with the relative path `child` (see `path_join`).
pub fn join_path(base: &str, child: &str) -> (r: String)
    ensures
        r@ == path_join(base@, child@),
{
    let n = base.unicode_len();
    let mut r = owned(base);
    if n > 0 && base.get_char(n - 1) != '/' {
        r.append("/");
        proof { reveal_strlit("/"); }
    }
    r.append(child);
    proof {
        if n > 0 && base@.last() != '/' {
            assert(r@ =~= base@ + seq!['/'] + child@);
        }
    }
    r
}

/// Zone B review is required unless deliberately switched off.
pub fn default_true() -> (r: bool)
    ensures
        r,
{
    true
}

/// The admin session inactivity timeout, 30 minutes.
pub fn default_admin_inactivity_timeout_secs() -> (r: u64)
    ensures
        r == 1800,
{
    1800
}

/// The default log level, `info`.
pub fn default_log_level() -> (r: String)
    ensures
        r@ == "info"@,
{
    owned("info")
}

/// The default data directory: `<home>/.alynxis` when a home directory is
/// known, else `./alynxis_data`.
pub fn resolve_default_data_dir(home: Option<&str>) -> (r: String)
    ensures
        match home {
            Some(h) => r@ == path_join(h@, ".alynxis"@),
            None => r@ == "./alynxis_data"@,
        },
{
    match home {
        Some(h) => join_path(h, ".alynxis"),
        None => owned("./alynxis_data"),
    }
}

/// The default config file: `<home>/.alynxis/alynxis.toml` when a home
/// directory is known, else `./alynxis_data/alynxis.toml`.
pub fn default_config_path(home: Option<&str>) -> (r: String)
    ensures
        match home {
            Some(h) => r@ == path_join(path_join(h@, ".alynxis"@), "alynxis.toml"@),
            None => r@ == "./alynxis_data/alynxis.toml"@,
        },
{
    match home {
        Some(h) => {
            let d = join_path(h, ".alynxis");
            join_path(d.as_str(), "alynxis.toml")
        },
        None => owned("./alynxis_data/alynxis.toml"),
    }
}

/// The configuration.
#[derive(Debug)]
pub struct Config {
    /// Zone B changes (core reasoning/learning rules) are queued for review
    /// before they take effect. Default true.
    pub require_zone_b_review: bool,
    /// Root directory of all persisted state.
    pub data_dir: String,
    /// How long an admin session stays valid without activity.
    pub admin_inactivity_timeout_secs: u64,
    /// `trace` | `debug` | `info` | `warn` | `error`.
    pub log_level: String,
}

impl Clone for Config {
    fn clone(&self) -> (r: Self)
        ensures
            r.require_zone_b_review == self.require_zone_b_review,
            r.data_dir@ == self.data_dir@,
            r.admin_inactivity_timeout_secs == self.admin_inactivity_timeout_secs,
            r.log_level@ == self.log_level@,
    {
        Config {
            require_zone_b_review: self.require_zone_b_review,
            data_dir: self.data_dir.clone(),
            admin_inactivity_timeout_secs: self.admin_inactivity_timeout_secs,
            log_level: self.log_level.clone(),
        }
    }
}

impl Config {
    /// The default configuration for a user whose home directory is `home`
    /// (if known): review required, data under the default data directory,
    /// a 1800-second admin timeout, log level `info`.
    pub fn default_with_home(home: Option<&str>) -> (r: Config)
        ensures
            r.require_zone_b_review,
            r.admin_inactivity_timeout_secs == 1800,
            r.log_level@ == "info"@,
            match home {
                Some(h) => r.data_dir@ == path_join(h@, ".alynxis"@),
                None => r.data_dir@ == "./alynxis_data"@,
            },
    {
        Config {
            require_zone_b_review: default_true(),
            data_dir: resolve_default_data_dir(home),
            admin_inactivity_timeout_secs: default_admin_inactivity_timeout_secs(),
            log_level: default_log_level(),
        }
    }

    /// The log directory, `<data_dir>/logs`.
    pub fn logs_dir(&self) -> (r: String)
        ensures
            r@ == path_join(self.data_dir@, "logs"@),
    {
        join_path(self.data_dir.as_str(), "logs")
    }

    /// The state directory, `<data_dir>/state`.
    pub fn state_dir(&self) -> (r: String)
        ensures
            r@ == path_join(self.data_dir@, "state"@),
    {
        join_path(self.data_dir.as_str(), "state")
    }
}

} // verus!
