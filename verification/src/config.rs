//! The daemon's configuration, its defaults, and the check of the
//! `beans-serve` binary it names. Reading and parsing the file, and reading
//! the binary's metadata, are done by the caller.
use vstd::prelude::*;

verus! {

#[derive(Debug)]
pub struct Config {
    pub launcher_port: u16,
    pub lru_cap: usize,
    pub heartbeat_secs: u64,
    pub log_level: String,
    /// Absolute path to the `beans-serve` binary.
    pub beans_serve_path: String,
}

/// Default launcher port.
pub fn launcher_port() -> (r: u16)
    ensures
        r == 9000,
{
    9000
}

/// Default number of projects kept running.
pub fn lru_cap() -> (r: usize)
    ensures
        r == 8,
{
    8
}

/// Default heartbeat period, in seconds.
pub fn heartbeat_secs() -> (r: u64)
    ensures
        r == 15,
{
    15
}

/// Default log level.
pub fn log_level() -> (r: String)
    ensures
        r@ == "info"@,
{
    String::from_str("info")
}

/// What the file system says of the configured binary.
#[derive(Debug, Clone, Copy)]
pub struct FileMeta {
    pub is_file: bool,
    /// Unix permission bits.
    pub mode: u32,
}

/// Why the configured binary is unusable.
#[derive(Debug)]
pub enum ConfigError {
    Unreadable { path: String, cause: String },
    NotAFile { path: String },
    NotExecutable { path: String },
}

impl ConfigError {
    pub open spec fn spec_message(&self) -> Seq<char> {
        match self {
            ConfigError::Unreadable { path, cause } => "beans_serve_path "@ + path@ + " unreadable: "@ + cause@,
            ConfigError::NotAFile { path } => "beans_serve_path "@ + path@ + " is not a file"@,
            ConfigError::NotExecutable { path } => "beans_serve_path "@ + path@ + " is not executable"@,
        }
    }

    pub fn message(&self) -> (m: String)
        ensures
            m@ == self.spec_message(),
    {
        let mut m = String::from_str("beans_serve_path ");
        match self {
            ConfigError::Unreadable { path, cause } => {
                m.append(path.as_str());
                m.append(" unreadable: ");
                m.append(cause.as_str());
            },
            ConfigError::NotAFile { path } => {
                m.append(path.as_str());
                m.append(" is not a file");
            },
            ConfigError::NotExecutable { path } => {
                m.append(path.as_str());
                m.append(" is not executable");
            },
        }
        m
    }
}

/// No execute bit (owner, group or other) is set.
pub open spec fn no_exec_bit(mode: u32) -> bool {
    mode & 0o111u32 == 0
}

impl Config {
    /// Checks the configured binary given its metadata (or the error reading
    /// it): it must be a file with an execute bit set.
    pub fn validate(&self, meta: Result<FileMeta, String>) -> (r: Result<(), ConfigError>)
        ensures
            match meta {
                Err(cause) => r == Err::<(), ConfigError>(
                    ConfigError::Unreadable { path: self.beans_serve_path, cause },
                ),
                Ok(m) => if !m.is_file {
                    r == Err::<(), ConfigError>(ConfigError::NotAFile { path: self.beans_serve_path })
                } else if no_exec_bit(m.mode) {
                    r == Err::<(), ConfigError>(ConfigError::NotExecutable { path: self.beans_serve_path })
                } else {
                    r is Ok
                },
            },
    {
        match meta {
            Err(cause) => Err(ConfigError::Unreadable { path: self.beans_serve_path.clone(), cause }),
            Ok(m) => {
                if !m.is_file {
                    Err(ConfigError::NotAFile { path: self.beans_serve_path.clone() })
                } else if m.mode & 0o111u32 == 0 {
                    Err(ConfigError::NotExecutable { path: self.beans_serve_path.clone() })
                } else {
                    Ok(())
                }
            },
        }
    }
}

} // verus!
