//! What the process is configured with.
use vstd::prelude::*;

verus! {

/// Seconds between two polls of a source unless configured otherwise: a day.
pub const DEFAULT_UPDATE_INTERVAL: u64 = 86400;

/// Attempts per request unless configured otherwise.
pub const DEFAULT_CLIENT_RETRIES: i32 = 10;

/// Largest accepted request body in bytes unless configured otherwise.
pub const DEFAULT_MAX_POST_SIZE: usize = 1048576;

/// Port to listen on unless configured otherwise.
pub const DEFAULT_PORT: u16 = 8080;

/// The configuration of the process.
#[derive(Debug)]
pub struct Args {
    /// Directory to serve the pages' files from.
    pub asset_dir: Option<String>,
    /// Seconds between two polls of a source.
    pub update_interval: u64,
    /// Whether the sources are left unpolled.
    pub no_updates: bool,
    /// Attempts per request.
    pub client_retries: i32,
    /// Largest accepted request body in bytes.
    pub max_post_size: usize,
    /// Port to listen on.
    pub port: u16,
    /// Where the database lies.
    pub db_path: String,
}

impl Args {
    /// The configuration for the database at `db_path` with every other
    /// setting at its default.
    pub fn new(db_path: String) -> (args: Args)
        ensures
            args.asset_dir is None,
            args.update_interval == DEFAULT_UPDATE_INTERVAL,
            !args.no_updates,
            args.client_retries == DEFAULT_CLIENT_RETRIES,
            args.max_post_size == DEFAULT_MAX_POST_SIZE,
            args.port == DEFAULT_PORT,
            args.db_path@ == db_path@,
    {
        Args {
            asset_dir: None,
            update_interval: DEFAULT_UPDATE_INTERVAL,
            no_updates: false,
            client_retries: DEFAULT_CLIENT_RETRIES,
            max_post_size: DEFAULT_MAX_POST_SIZE,
            port: DEFAULT_PORT,
            db_path,
        }
    }

    /// The polling interval in the store's unit of time, whole seconds as
    /// `i64`: the configured interval, or the largest `i64` if that is less.
    pub fn poll_interval(&self) -> (seconds: i64)
        ensures
            seconds == if self.update_interval <= i64::MAX {
                self.update_interval as int
            } else {
                i64::MAX as int
            },
    {
        if self.update_interval <= i64::MAX as u64 {
            self.update_interval as i64
        } else {
            i64::MAX
        }
    }
}

} // verus!
