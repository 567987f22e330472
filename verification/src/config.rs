//! The configuration that the process starts from.

use crate::paths::PathKind;
use vstd::prelude::*;

verus! {

/// Why the process cannot start.
#[derive(Debug, Clone, Copy, PartialEq, Eq, Structural)]
pub enum ConfigurationError {
    /// The base directory is not set.
    Unset,
    /// Nothing exists at the base directory's path.
    Missing,
    /// The path of the base directory names something else.
    NotADirectory,
}

impl ConfigurationError {
    /// The text that the process stops with.
    pub fn message(&self) -> (text: String)
        ensures
            text@ == match *self {
                ConfigurationError::Unset => "FILES_BASE_PATH env var not set or unable to be read"@,
                ConfigurationError::Missing => "Files base path doesn't exist!"@,
                ConfigurationError::NotADirectory => "Files base path is not a directory"@,
            },
    {
        match self {
            ConfigurationError::Unset => String::from_str(
                "FILES_BASE_PATH env var not set or unable to be read",
            ),
            ConfigurationError::Missing => String::from_str("Files base path doesn't exist!"),
            ConfigurationError::NotADirectory => String::from_str(
                "Files base path is not a directory",
            ),
        }
    }
}

/// The configuration: the base directory that all browsing and watching is
/// confined to. It does not change after startup.
#[derive(Debug, Clone, PartialEq, Eq)]
pub struct Config {
    pub files_base_path: String,
}

impl Config {
    /// Builds the configuration from the setting of the base directory, as
    /// read from the environment, and from what the caller found at that
    /// path. The arguments of the process are accepted and not looked at.
    ///
    /// It succeeds exactly where the setting is there and names a directory.
    pub fn build(_args: &[String], setting: Option<String>, found: PathKind) -> (config: Result<
        Config,
        ConfigurationError,
    >)
        ensures
            match config {
                Ok(c) => setting == Some(c.files_base_path) && found == PathKind::Directory,
                Err(ConfigurationError::Unset) => setting is None,
                Err(ConfigurationError::Missing) => setting is Some && found == PathKind::Missing,
                Err(ConfigurationError::NotADirectory) => setting is Some && found
                    != PathKind::Missing && found != PathKind::Directory,
            },
    {
        let files_base_path = match setting {
            Some(path) => path,
            None => {
                return Err(ConfigurationError::Unset);
            },
        };
        match found {
            PathKind::Directory => Ok(Config { files_base_path }),
            PathKind::Missing => Err(ConfigurationError::Missing),
            _ => Err(ConfigurationError::NotADirectory),
        }
    }
}

} // verus!
