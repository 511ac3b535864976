//! The process-wide configuration, read from the variables of the environment.
//!
//! The variables themselves are handed in as pairs of name and value.

use crate::text::{lowercased, parse_u64, parsed_u64};
use vstd::prelude::*;

verus! {

/// Name of the variable with the connection string of the store. Required.
pub const DATABASE_URL: &'static str = "DATABASE_URL";

/// Name of the variable with the port of the HTTP listener.
pub const SERVER_PORT: &'static str = "SERVER_PORT";

/// Name of the variable with the upper bound of the connection pool.
pub const DATABASE_POOL_MAX_SIZE: &'static str = "DATABASE_POOL_MAX_SIZE";

/// Name of the variable with the cap of the flusher's buffer.
pub const BATCH_MAX_INSERT_SIZE: &'static str = "BATCH_MAX_INSERT_SIZE";

/// Name of the variable with the length of the flusher's window, in seconds.
pub const BATCH_INSERT_INTERVAL_SECS: &'static str = "BATCH_INSERT_INTERVAL_SECS";

/// Name of the variable that selects where logs go.
pub const LOGGER_OUTPUT: &'static str = "LOGGER_OUTPUT";

/// Port of the HTTP listener where none is configured.
pub const DEFAULT_SERVER_PORT: u16 = 80;

/// Upper bound of the connection pool where none is configured.
pub const DEFAULT_DATABASE_POOL_MAX_SIZE: u32 = 256;

/// Cap of the flusher's buffer where none is configured.
pub const DEFAULT_BATCH_MAX_INSERT_SIZE: usize = 256;

/// Length of the flusher's window, in seconds, where none is configured.
pub const DEFAULT_BATCH_INSERT_INTERVAL_SECS: u64 = 1;

/// Where logs go.
#[derive(Clone, Copy, Debug, PartialEq, Eq, Structural)]
pub enum LoggerOutput {
    Otel,
    Stdout,
}

/// Why the configuration cannot be used.
#[derive(Clone, Copy, Debug, PartialEq, Eq, Structural)]
pub enum EnvError {
    /// `DATABASE_URL` is not set.
    MissingDatabaseUrl,
    /// `SERVER_PORT` is set to something that is no port number.
    InvalidServerPort,
}

/// The configuration of the process.
#[derive(Clone, Debug, PartialEq, Eq)]
pub struct EnvironmentValues {
    pub database_url: String,
    pub server_port: u16,
    pub logger: Option<LoggerOutput>,
    pub db_pool_max_size: u32,
    pub batch_max_insert_size: usize,
    pub batch_max_wait_on_insert_channel: u64,
}

/// The logger that a lower-case name selects.
pub open spec fn logger_named(lowered: Seq<char>) -> Result<LoggerOutput, ()> {
    if lowered == "otel"@ {
        Ok(LoggerOutput::Otel)
    } else if lowered == "stdout"@ {
        Ok(LoggerOutput::Stdout)
    } else {
        Err(())
    }
}

/// The names and values of a list of variables.
pub open spec fn var_views(vars: Seq<(String, String)>) -> Seq<(Seq<char>, Seq<char>)> {
    Seq::new(vars.len(), |i: int| (vars[i].0@, vars[i].1@))
}

/// The value of the first variable called `name`, if there is one.
pub open spec fn value_of(vars: Seq<(Seq<char>, Seq<char>)>, name: Seq<char>) -> Option<
    Seq<char>,
>
    decreases vars.len(),
{
    if vars.len() == 0 {
        None
    } else if vars[0].0 == name {
        Some(vars[0].1)
    } else {
        value_of(vars.drop_first(), name)
    }
}

/// What a variable's value says as a number: `None` where the variable is not
/// set, `Some(None)` where its value is no number.
pub open spec fn number_of(value: Option<Seq<char>>) -> Option<Option<u64>> {
    match value {
        Some(text) => Some(parsed_u64(text)),
        None => None,
    }
}

/// The port for what `SERVER_PORT` says: the default where it is not set, and
/// `None` where it is set to anything but a number that fits a port.
pub open spec fn port_for(number: Option<Option<u64>>) -> Option<u16> {
    match number {
        None => Some(DEFAULT_SERVER_PORT),
        Some(Some(n)) => if n <= u16::MAX {
            Some(n as u16)
        } else {
            None
        },
        Some(None) => None,
    }
}

/// The setting for what a variable says: its number where that is one of at
/// most `max`, and else `default`.
pub open spec fn setting_for(number: Option<Option<u64>>, max: u64, default: u64) -> u64 {
    match number {
        Some(Some(n)) => if n <= max {
            n
        } else {
            default
        },
        _ => default,
    }
}

/// The logger for what `LOGGER_OUTPUT` says: none where it is not set or
/// names no logger.
pub open spec fn logger_for(value: Option<Seq<char>>) -> Option<LoggerOutput> {
    match value {
        Some(text) => match logger_named(lowercased(text)) {
            Ok(logger) => Some(logger),
            Err(_) => None,
        },
        None => None,
    }
}

/// The content of an `EnvironmentValues`.
pub struct EnvironmentView {
    pub database_url: Seq<char>,
    pub server_port: u16,
    pub logger: Option<LoggerOutput>,
    pub db_pool_max_size: u32,
    pub batch_max_insert_size: usize,
    pub batch_max_wait_on_insert_channel: u64,
}

impl View for EnvironmentValues {
    type V = EnvironmentView;

    open spec fn view(&self) -> EnvironmentView {
        EnvironmentView {
            database_url: self.database_url@,
            server_port: self.server_port,
            logger: self.logger,
            db_pool_max_size: self.db_pool_max_size,
            batch_max_insert_size: self.batch_max_insert_size,
            batch_max_wait_on_insert_channel: self.batch_max_wait_on_insert_channel,
        }
    }
}

/// The configuration that a list of variables gives.
pub open spec fn configured(vars: Seq<(Seq<char>, Seq<char>)>) -> Result<
    EnvironmentView,
    EnvError,
> {
    match value_of(vars, DATABASE_URL@) {
        None => Err(EnvError::MissingDatabaseUrl),
        Some(database_url) => match port_for(number_of(value_of(vars, SERVER_PORT@))) {
            None => Err(EnvError::InvalidServerPort),
            Some(server_port) => Ok(
                EnvironmentView {
                    database_url,
                    server_port,
                    logger: logger_for(value_of(vars, LOGGER_OUTPUT@)),
                    db_pool_max_size: setting_for(
                        number_of(value_of(vars, DATABASE_POOL_MAX_SIZE@)),
                        u32::MAX as u64,
                        DEFAULT_DATABASE_POOL_MAX_SIZE as u64,
                    ) as u32,
                    batch_max_insert_size: setting_for(
                        number_of(value_of(vars, BATCH_MAX_INSERT_SIZE@)),
                        usize::MAX as u64,
                        DEFAULT_BATCH_MAX_INSERT_SIZE as u64,
                    ) as usize,
                    batch_max_wait_on_insert_channel: setting_for(
                        number_of(value_of(vars, BATCH_INSERT_INTERVAL_SECS@)),
                        u64::MAX,
                        DEFAULT_BATCH_INSERT_INTERVAL_SECS,
                    ),
                },
            ),
        },
    }
}

/// The view of a configuration or of the reason why there is none.
pub open spec fn outcome_view(outcome: Result<EnvironmentValues, EnvError>) -> Result<
    EnvironmentView,
    EnvError,
> {
    match outcome {
        Ok(values) => Ok(values@),
        Err(e) => Err(e),
    }
}

impl LoggerOutput {
    /// The logger that an already lower-cased name selects.
    pub fn from_lowercase(lowered: &str) -> (logger: Result<LoggerOutput, ()>)
        ensures
            logger == logger_named(lowered@),
    {
        if *lowered == *"otel" {
            Ok(LoggerOutput::Otel)
        } else if *lowered == *"stdout" {
            Ok(LoggerOutput::Stdout)
        } else {
            Err(())
        }
    }

    /// The logger that a name selects, whatever the case of its letters.
    pub fn from_str(s: &str) -> (logger: Result<LoggerOutput, ()>)
        ensures
            logger == logger_named(lowercased(s@)),
    {
        let lowered = s.to_lowercase();
        LoggerOutput::from_lowercase(lowered.as_str())
    }
}

/// Finds the value of the first variable called `name`.
pub fn lookup_var<'a>(vars: &'a Vec<(String, String)>, name: &str) -> (value: Option<&'a String>)
    ensures
        match value {
            Some(text) => value_of(var_views(vars@), name@) == Some(text@),
            None => value_of(var_views(vars@), name@) is None,
        },
{
    let mut i: usize = 0;
    proof {
        assert(var_views(vars@).skip(0) == var_views(vars@));
    }
    while i < vars.len()
        invariant
            i <= vars.len(),
            value_of(var_views(vars@), name@) == value_of(var_views(vars@).skip(i as int), name@),
        decreases vars.len() - i,
    {
        let ghost rest = var_views(vars@).skip(i as int);
        proof {
            assert(rest[0] == (vars@[i as int].0@, vars@[i as int].1@));
            assert(rest.drop_first() == var_views(vars@).skip(i + 1));
        }
        if *vars[i].0.as_str() == *name {
            return Some(&vars[i].1);
        }
        i = i + 1;
    }
    proof {
        assert(var_views(vars@).skip(vars.len() as int).len() == 0);
    }
    None
}

/// The port for what `SERVER_PORT` says.
pub fn port_from(number: Option<Option<u64>>) -> (port: Option<u16>)
    ensures
        port == port_for(number),
{
    match number {
        None => Some(DEFAULT_SERVER_PORT),
        Some(Some(n)) => if n <= 0xffff {
            Some(n as u16)
        } else {
            None
        },
        Some(None) => None,
    }
}

/// The setting for what a variable says.
pub fn setting_from(number: Option<Option<u64>>, max: u64, default: u64) -> (setting: u64)
    ensures
        setting == setting_for(number, max, default),
{
    match number {
        Some(Some(n)) => if n <= max {
            n
        } else {
            default
        },
        _ => default,
    }
}

fn number_from(value: Option<&String>) -> (number: Option<Option<u64>>)
    ensures
        number == number_of(
            match value {
                Some(text) => Some(text@),
                None => None,
            },
        ),
{
    match value {
        Some(text) => Some(parse_u64(text.as_str())),
        None => None,
    }
}

impl EnvironmentValues {
    /// Reads the configuration from the variables of the environment.
    ///
    /// `DATABASE_URL` must be set. `SERVER_PORT` must be a port number where
    /// it is set. Every other setting falls back to its default where the
    /// variable is not set or cannot be read.
    pub fn init(vars: &Vec<(String, String)>) -> (outcome: Result<EnvironmentValues, EnvError>)
        ensures
            outcome_view(outcome) == configured(var_views(vars@)),
    {
        let database_url = match lookup_var(vars, DATABASE_URL) {
            Some(url) => url.clone(),
            None => { return Err(EnvError::MissingDatabaseUrl); },
        };
        let server_port = match port_from(number_from(lookup_var(vars, SERVER_PORT))) {
            Some(port) => port,
            None => { return Err(EnvError::InvalidServerPort); },
        };
        let logger = match lookup_var(vars, LOGGER_OUTPUT) {
            Some(name) => match LoggerOutput::from_str(name.as_str()) {
                Ok(logger) => Some(logger),
                Err(_) => None,
            },
            None => None,
        };
        let db_pool_max_size = setting_from(
            number_from(lookup_var(vars, DATABASE_POOL_MAX_SIZE)),
            u32::MAX as u64,
            DEFAULT_DATABASE_POOL_MAX_SIZE as u64,
        ) as u32;
        let batch_max_insert_size = setting_from(
            number_from(lookup_var(vars, BATCH_MAX_INSERT_SIZE)),
            usize::MAX as u64,
            DEFAULT_BATCH_MAX_INSERT_SIZE as u64,
        ) as usize;
        let batch_max_wait_on_insert_channel = setting_from(
            number_from(lookup_var(vars, BATCH_INSERT_INTERVAL_SECS)),
            u64::MAX,
            DEFAULT_BATCH_INSERT_INTERVAL_SECS,
        );
        Ok(
            EnvironmentValues {
                database_url,
                server_port,
                logger,
                db_pool_max_size,
                batch_max_insert_size,
                batch_max_wait_on_insert_channel,
            },
        )
    }
}

} // verus!
