//! The library's error type.
use vstd::prelude::*;
use crate::text::{copy_string, u64_to_decimal, to_decimal};

verus! {

/// Everything that can go wrong in account, configuration and launch handling.
#[derive(Debug, Clone)]
pub enum AppError {
    /// A file, directory or path could not be used.
    FileError(String),
    /// No account exists with this id.
    AccountNotFound(String),
    /// The configuration could not be read, or is not there yet.
    ConfigReadError(String),
    /// The configuration could not be written or was refused.
    ConfigWriteError(String),
    /// The Windows registry could not be read or written.
    RegistryError(String),
    /// A task ended in an unexpected way.
    Unknown(String),
    /// Waiting for the Battle.net login took longer than this many seconds.
    LoginTimeout(u64),
    /// The configured Battle.net client path is not usable.
    InvalidBnetPath(String),
    /// The configured game directory is not usable.
    InvalidGamePath(String),
    /// Waiting for the game process took longer than this many seconds.
    GameLaunchTimeout(u64),
}

/// The error is a `FileError` whose message is `msg`.
pub open spec fn is_file_error(e: AppError, msg: Seq<char>) -> bool {
    e matches AppError::FileError(m) && m@ == msg
}

/// The error is a `ConfigWriteError` whose message is `msg`.
pub open spec fn is_config_write_error(e: AppError, msg: Seq<char>) -> bool {
    e matches AppError::ConfigWriteError(m) && m@ == msg
}

/// The error is a `ConfigReadError` whose message is `msg`.
pub open spec fn is_config_read_error(e: AppError, msg: Seq<char>) -> bool {
    e matches AppError::ConfigReadError(m) && m@ == msg
}

/// The result is an error of kind `FileError` with message `msg`.
pub open spec fn fails_with_file_error<T>(r: Result<T, AppError>, msg: Seq<char>) -> bool {
    r matches Err(e) && is_file_error(e, msg)
}

/// The text an error is reported with: the message it carries, or for a
/// timeout the number of seconds waited.
pub open spec fn error_text(e: AppError) -> Seq<char> {
    match e {
        AppError::FileError(m) => m@,
        AppError::AccountNotFound(m) => m@,
        AppError::ConfigReadError(m) => m@,
        AppError::ConfigWriteError(m) => m@,
        AppError::RegistryError(m) => m@,
        AppError::Unknown(m) => m@,
        AppError::LoginTimeout(n) => to_decimal(n as nat),
        AppError::InvalidBnetPath(m) => m@,
        AppError::InvalidGamePath(m) => m@,
        AppError::GameLaunchTimeout(n) => to_decimal(n as nat),
    }
}

impl AppError {
    /// The text this error is reported with (see `error_text`).
    pub fn message(&self) -> (r: String)
        ensures
            r@ == error_text(*self),
    {
        match self {
            AppError::FileError(m) => copy_string(m.as_str()),
            AppError::AccountNotFound(m) => copy_string(m.as_str()),
            AppError::ConfigReadError(m) => copy_string(m.as_str()),
            AppError::ConfigWriteError(m) => copy_string(m.as_str()),
            AppError::RegistryError(m) => copy_string(m.as_str()),
            AppError::Unknown(m) => copy_string(m.as_str()),
            AppError::LoginTimeout(n) => u64_to_decimal(*n),
            AppError::InvalidBnetPath(m) => copy_string(m.as_str()),
            AppError::InvalidGamePath(m) => copy_string(m.as_str()),
            AppError::GameLaunchTimeout(n) => u64_to_decimal(*n),
        }
    }
}

} // verus!
