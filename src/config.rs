use vstd::prelude::*;

verus! {

/// Settings of the syslog server.
#[derive(Debug, Clone)]
pub struct Config {
    pub server: ServerConfig,
    pub logging: LoggingConfig,
}

#[derive(Debug, Clone)]
pub struct ServerConfig {
    /// Address and port of the UDP socket, e.g. `0.0.0.0:514`.
    pub bind_addr: String,
}

#[derive(Debug, Clone)]
pub struct LoggingConfig {
    pub level: String,
    /// Size at which a log file is rotated, in megabytes.
    pub max_size_mb: u64,
    /// Number of rotated log files kept.
    pub keep_files: usize,
}

impl Config {
    /// The settings used when no configuration file exists.
    pub open spec fn is_default(&self) -> bool {
        &&& self.server.bind_addr@ == "0.0.0.0:514"@
        &&& self.logging.level@ == "info"@
        &&& self.logging.max_size_mb == 10
        &&& self.logging.keep_files == 7
    }
}

impl Default for Config {
    /// Listen on every interface at the syslog port, log at `info`, rotate at
    /// 10 MB and keep 7 files.
    fn default() -> (r: Config)
        ensures
            r.is_default(),
    {
        Config {
            server: ServerConfig { bind_addr: "0.0.0.0:514".to_owned() },
            logging: LoggingConfig { level: "info".to_owned(), max_size_mb: 10, keep_files: 7 },
        }
    }
}

/// Where the configuration file lives: under ProgramData on Windows, in the
/// working directory elsewhere.
pub fn get_config_path(windows: bool) -> (r: String)
    ensures
        r@ == if windows {
            "C:\\ProgramData\\vlt-syslogd\\config.toml"@
        } else {
            "config.toml"@
        },
{
    if windows {
        "C:\\ProgramData\\vlt-syslogd\\config.toml".to_owned()
    } else {
        "config.toml".to_owned()
    }
}

/// Where the log files go: under ProgramData on Windows, `logs` elsewhere.
pub fn get_log_dir(windows: bool) -> (r: String)
    ensures
        r@ == if windows {
            "C:\\ProgramData\\vlt-syslogd\\logs"@
        } else {
            "logs"@
        },
{
    if windows {
        "C:\\ProgramData\\vlt-syslogd\\logs".to_owned()
    } else {
        "logs".to_owned()
    }
}

} // verus!
