//! Loading a configuration from a rule file: which format its extension
//! names, the messages of each failure, and the overrides that environment
//! variables make. Reading the file, parsing it and reading the environment
//! are left to the caller.

use vstd::prelude::*;
use crate::config::flow::FlowControlConfig;
use crate::config::names::{
    spec_parse_cache_backend, spec_parse_metrics_backend, spec_parse_storage_type, CacheBackend,
    MetricsBackend, StorageType,
};
use crate::error::LimiteronError;
use crate::text::{concat_str, spec_to_lowercase, spec_trim, str_eq, to_lowercase, trim_str};

verus! {

/// The formats a rule file may be written in.
#[derive(Debug, Clone, Copy, PartialEq, Eq, Structural)]
pub enum ConfigFormat {
    Yaml,
    Toml,
    Json,
}

/// The format an extension names, compared in lower case.
pub open spec fn spec_format_for(ext: Seq<char>) -> Option<ConfigFormat> {
    let l = spec_to_lowercase(ext);
    if l == "yaml"@ || l == "yml"@ {
        Some(ConfigFormat::Yaml)
    } else if l == "toml"@ {
        Some(ConfigFormat::Toml)
    } else if l == "json"@ {
        Some(ConfigFormat::Json)
    } else {
        None
    }
}

/// The name of a format in messages.
pub open spec fn spec_format_label(f: ConfigFormat) -> Seq<char> {
    match f {
        ConfigFormat::Yaml => "YAML"@,
        ConfigFormat::Toml => "TOML"@,
        ConfigFormat::Json => "JSON"@,
    }
}

/// The override of one global setting read from the environment: nothing
/// when the variable is unset or blank.
pub open spec fn is_blank(v: Option<String>) -> bool {
    v is None || spec_trim(v->Some_0@).len() == 0
}

/// Loads rule files.
pub struct ConfigLoader;

impl ConfigLoader {
    /// The format of a file with the given extension (empty when it has
    /// none); other extensions are refused.
    pub fn format_for_extension(ext: &str) -> (r: Result<ConfigFormat, LimiteronError>)
        ensures
            match spec_format_for(ext@) {
                Some(f) => r == Ok::<ConfigFormat, LimiteronError>(f),
                None => r matches Err(LimiteronError::ConfigError(m)) && m@
                    == "Unsupported config file format: "@ + spec_to_lowercase(ext@)
                    + ". Supported: yaml, yml, toml, json"@,
            },
    {
        let l = to_lowercase(ext);
        let ls = l.as_str();
        if str_eq(ls, "yaml") || str_eq(ls, "yml") {
            Ok(ConfigFormat::Yaml)
        } else if str_eq(ls, "toml") {
            Ok(ConfigFormat::Toml)
        } else if str_eq(ls, "json") {
            Ok(ConfigFormat::Json)
        } else {
            let m = concat_str("Unsupported config file format: ", ls);
            Err(LimiteronError::ConfigError(concat_str(m.as_str(), ". Supported: yaml, yml, toml, json")))
        }
    }

    /// The error of a file that does not exist.
    pub fn not_found(path: &str) -> (r: LimiteronError)
        ensures
            r matches LimiteronError::ConfigError(m) && m@ == "Config file not found: "@ + path@,
    {
        LimiteronError::ConfigError(concat_str("Config file not found: ", path))
    }

    /// The error of a file that could not be read.
    pub fn read_failure(e: &str) -> (r: LimiteronError)
        ensures
            r matches LimiteronError::ConfigError(m) && m@ == "Failed to read config file: "@ + e@,
    {
        LimiteronError::ConfigError(concat_str("Failed to read config file: ", e))
    }

    /// The error of a file that could not be parsed in its format.
    pub fn parse_failure(format: ConfigFormat, e: &str) -> (r: LimiteronError)
        ensures
            r matches LimiteronError::ConfigError(m) && m@ == "Failed to parse "@
                + spec_format_label(format) + " config: "@ + e@,
    {
        let label = match format {
            ConfigFormat::Yaml => "YAML",
            ConfigFormat::Toml => "TOML",
            ConfigFormat::Json => "JSON",
        };
        let m = concat_str("Failed to parse ", label);
        let m = concat_str(m.as_str(), " config: ");
        LimiteronError::ConfigError(concat_str(m.as_str(), e))
    }

    /// Applies the overrides of the global storage, cache and metrics
    /// settings, given as the values of `LIMITERON_GLOBAL_STORAGE`,
    /// `LIMITERON_GLOBAL_CACHE` and `LIMITERON_GLOBAL_METRICS`. An unset or
    /// blank value changes nothing; the storage value is read as given, the
    /// other two trimmed; the first value that names nothing is refused.
    pub fn apply_env_overrides(
        config: FlowControlConfig,
        storage: Option<String>,
        cache: Option<String>,
        metrics: Option<String>,
    ) -> (r: Result<FlowControlConfig, LimiteronError>)
        ensures
            ({
                let st = if is_blank(storage) { Some(config.global.storage) } else {
                    spec_parse_storage_type(storage->Some_0@)
                };
                let ca = if is_blank(cache) { Some(config.global.cache) } else {
                    spec_parse_cache_backend(spec_trim(cache->Some_0@))
                };
                let me = if is_blank(metrics) { Some(config.global.metrics) } else {
                    spec_parse_metrics_backend(spec_trim(metrics->Some_0@))
                };
                if st is None {
                    r matches Err(LimiteronError::ConfigError(m)) && m@
                        == "Invalid LIMITERON_GLOBAL_STORAGE value: "@ + storage->Some_0@
                        + ". Valid: memory, postgresql, redis"@
                } else if ca is None {
                    r matches Err(LimiteronError::ConfigError(m)) && m@
                        == "Invalid LIMITERON_GLOBAL_CACHE value: "@ + cache->Some_0@
                        + ". Valid: memory, redis, none"@
                } else if me is None {
                    r matches Err(LimiteronError::ConfigError(m)) && m@
                        == "Invalid LIMITERON_GLOBAL_METRICS value: "@ + metrics->Some_0@
                        + ". Valid: prometheus, statsd, none"@
                } else {
                    r matches Ok(c) && c.version == config.version && c.rules == config.rules
                        && c.global.trusted_proxies == config.global.trusted_proxies
                        && c.global.storage == st->Some_0 && c.global.cache == ca->Some_0
                        && c.global.metrics == me->Some_0
                }
            }),
    {
        let mut config = config;
        if let Some(s) = &storage {
            if !trim_str(s.as_str()).as_str().is_empty() {
                match StorageType::parse(s.as_str()) {
                    Some(t) => config.global.storage = t,
                    None => {
                        let m = concat_str("Invalid LIMITERON_GLOBAL_STORAGE value: ", s.as_str());
                        return Err(LimiteronError::ConfigError(concat_str(m.as_str(), ". Valid: memory, postgresql, redis")));
                    },
                }
            }
        }
        if let Some(s) = &cache {
            let t = trim_str(s.as_str());
            if !t.as_str().is_empty() {
                match CacheBackend::parse(t.as_str()) {
                    Some(b) => config.global.cache = b,
                    None => {
                        let m = concat_str("Invalid LIMITERON_GLOBAL_CACHE value: ", s.as_str());
                        return Err(LimiteronError::ConfigError(concat_str(m.as_str(), ". Valid: memory, redis, none")));
                    },
                }
            }
        }
        if let Some(s) = &metrics {
            let t = trim_str(s.as_str());
            if !t.as_str().is_empty() {
                match MetricsBackend::parse(t.as_str()) {
                    Some(b) => config.global.metrics = b,
                    None => {
                        let m = concat_str("Invalid LIMITERON_GLOBAL_METRICS value: ", s.as_str());
                        return Err(LimiteronError::ConfigError(concat_str(m.as_str(), ". Valid: prometheus, statsd, none")));
                    },
                }
            }
        }
        Ok(config)
    }
}

} // verus!
