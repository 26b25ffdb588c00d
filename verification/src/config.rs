//! The settings of the proxy once read, with their defaults and the checks
//! and clamps applied to what the configuration file says.
use vstd::prelude::*;

use crate::substituter::{default_storage_url, Priority, SubstituterMeta};
use crate::text::chars_of;
use crate::url::Url;

verus! {

/// Port the proxy listens on by default.
pub const DEFAULT_PORT: u16 = 5496;

/// Priority of the proxy and of substituters by default.
pub const DEFAULT_PRIORITY: u32 = 40;

/// How the proxy talks to substituters.
#[derive(Debug, Clone, Copy, PartialEq, Eq, Structural, Hash)]
pub struct NetworkConfiguration {
    /// Seconds a narinfo request may take (at least 1).
    pub nar_info_timeout_secs: u64,
    /// Seconds a NAR request may take to answer (at least 1).
    pub nar_timeout_secs: u64,
    /// Requests that may run at once.
    pub max_concurrent_requests: usize,
    /// Milliseconds by which a slower answer may still win (at least 1).
    pub tolerance_msecs: u64,
    /// Whether a failed narinfo request counts as "not found".
    pub ignore_nar_info_error: bool,
}

/// At least one.
pub open spec fn at_least_one(v: u64) -> u64 {
    if v < 1 {
        1
    } else {
        v
    }
}

/// The network settings used when the configuration names none: 30 s
/// timeouts, 12 concurrent requests, 50 ms tolerance, errors not ignored.
pub open spec fn default_network_configuration() -> NetworkConfiguration {
    NetworkConfiguration {
        nar_info_timeout_secs: 30,
        nar_timeout_secs: 30,
        max_concurrent_requests: 12,
        tolerance_msecs: 50,
        ignore_nar_info_error: false,
    }
}

fn clamp_to_one(v: u64) -> (r: u64)
    ensures
        r == at_least_one(v),
{
    if v < 1 {
        1
    } else {
        v
    }
}

impl NetworkConfiguration {
    /// The network settings used when the configuration names none.
    pub fn default_settings() -> (r: NetworkConfiguration)
        ensures
            r == default_network_configuration(),
    {
        NetworkConfiguration {
            nar_info_timeout_secs: 30,
            nar_timeout_secs: 30,
            max_concurrent_requests: 12,
            tolerance_msecs: 50,
            ignore_nar_info_error: false,
        }
    }

    /// The settings with zero timeouts and a zero tolerance raised to 1.
    pub fn normalized(self) -> (r: NetworkConfiguration)
        ensures
            r == (NetworkConfiguration {
                nar_info_timeout_secs: at_least_one(self.nar_info_timeout_secs),
                nar_timeout_secs: at_least_one(self.nar_timeout_secs),
                tolerance_msecs: at_least_one(self.tolerance_msecs),
                ..self
            }),
    {
        NetworkConfiguration {
            nar_info_timeout_secs: clamp_to_one(self.nar_info_timeout_secs),
            nar_timeout_secs: clamp_to_one(self.nar_timeout_secs),
            tolerance_msecs: clamp_to_one(self.tolerance_msecs),
            ..self
        }
    }
}

/// How many lookups and locations are kept, and for how long.
#[derive(Debug, Clone, Copy, PartialEq, Eq, Structural, Hash)]
pub struct CacheConfiguration {
    pub nar_info_lookup_capacity: u64,
    pub nar_info_lookup_ttl_secs: u64,
    pub nar_location_capacity: u64,
    pub nar_location_ttl_secs: u64,
}

/// The cache settings used when the configuration names none: 4096 entries
/// kept for four hours, for lookups and for locations.
pub open spec fn default_cache_configuration() -> CacheConfiguration {
    CacheConfiguration {
        nar_info_lookup_capacity: 4096,
        nar_info_lookup_ttl_secs: 14400,
        nar_location_capacity: 4096,
        nar_location_ttl_secs: 14400,
    }
}

impl CacheConfiguration {
    /// The cache settings used when the configuration names none.
    pub fn default_settings() -> (r: CacheConfiguration)
        ensures
            r == default_cache_configuration(),
    {
        CacheConfiguration {
            nar_info_lookup_capacity: 4096,
            nar_info_lookup_ttl_secs: 14400,
            nar_location_capacity: 4096,
            nar_location_ttl_secs: 14400,
        }
    }
}

/// Why the configuration is refused.
#[derive(Debug, Clone, Copy, PartialEq, Eq, Structural, Hash)]
pub enum ConfigurationError {
    /// The store directory is not an absolute path.
    StoreDirNotAbsolute,
    /// A priority is zero.
    ZeroPriority,
    /// A URL is not an `http`/`https` URL with a host.
    InvalidUrl,
}

/// An absolute path: it starts with `/`.
pub open spec fn is_absolute_path(s: Seq<char>) -> bool {
    s.len() > 0 && s[0] == '/'
}

/// What `/nix-cache-info` announces.
#[derive(Debug, PartialEq, Eq, Hash)]
pub struct CacheInfoConfiguration {
    store_dir: String,
    want_mass_query: bool,
    priority: Priority,
}

impl View for CacheInfoConfiguration {
    /// The store directory, whether mass queries are wanted, the priority.
    type V = (Seq<char>, bool, u32);

    closed spec fn view(&self) -> (Seq<char>, bool, u32) {
        (self.store_dir@, self.want_mass_query, self.priority@)
    }
}

impl CacheInfoConfiguration {
    /// The announcement; the store directory must be an absolute path.
    pub fn new(store_dir: String, want_mass_query: bool, priority: Priority) -> (r: Result<
        CacheInfoConfiguration,
        ConfigurationError,
    >)
        ensures
            r matches Ok(c) ==> c@ == (store_dir@, want_mass_query, priority@),
            r is Err <==> !is_absolute_path(store_dir@),
            r is Err ==> r == Err::<CacheInfoConfiguration, _>(
                ConfigurationError::StoreDirNotAbsolute,
            ),
    {
        let v = chars_of(store_dir.as_str());
        if v.len() > 0 && v[0] == '/' {
            Ok(CacheInfoConfiguration { store_dir, want_mass_query, priority })
        } else {
            Err(ConfigurationError::StoreDirNotAbsolute)
        }
    }

    /// The store directory.
    pub fn store_dir(&self) -> (r: &String)
        ensures
            r@ == self@.0,
    {
        &self.store_dir
    }

    /// Whether clients may query many paths at once.
    pub fn want_mass_query(&self) -> (r: bool)
        ensures
            r == self@.1,
    {
        self.want_mass_query
    }

    /// The priority of the proxy as a substituter.
    pub fn priority(&self) -> (r: Priority)
        ensures
            r@ == self@.2,
    {
        self.priority
    }
}

/// A priority read from the configuration: 40 when none is given, and zero
/// refused.
pub fn configured_priority(value: Option<u32>) -> (r: Result<Priority, ConfigurationError>)
    ensures
        match value {
            None => r matches Ok(p) && p@ == DEFAULT_PRIORITY,
            Some(v) => if v == 0 {
                r == Err::<Priority, _>(ConfigurationError::ZeroPriority)
            } else {
                r matches Ok(p) && p@ == v
            },
        },
{
    let v = match value {
        None => DEFAULT_PRIORITY,
        Some(v) => v,
    };
    match Priority::new(v) {
        Ok(p) => Ok(p),
        Err(_) => Err(ConfigurationError::ZeroPriority),
    }
}

/// A substituter as the configuration names it: its URL, a storage URL when
/// its NAR files live elsewhere, and its priority.
pub fn substituter_meta_from_config(
    url: &str,
    storage_url: Option<&str>,
    priority: Option<u32>,
) -> (r: Result<SubstituterMeta, ConfigurationError>)
    ensures
        r matches Ok(m) ==> m@.url == url@ && m@.storage_url == match storage_url {
            Some(s) => s@,
            None => default_storage_url(url@),
        },
        r matches Ok(m) ==> m@.priority == match priority {
            Some(p) => p,
            None => DEFAULT_PRIORITY,
        },
        priority == Some(0u32) && crate::url::valid_url(url@) && (storage_url matches Some(s)
            ==> crate::url::valid_url(s@)) ==> r == Err::<SubstituterMeta, _>(
            ConfigurationError::ZeroPriority,
        ),
        !crate::url::valid_url(url@) || (storage_url matches Some(s) && !crate::url::valid_url(
            s@,
        )) ==> r == Err::<SubstituterMeta, _>(ConfigurationError::InvalidUrl),
        r is Ok <==> crate::url::valid_url(url@) && (storage_url matches Some(s)
            ==> crate::url::valid_url(s@)) && priority != Some(0u32),
{
    let u = match Url::new(url) {
        Ok(u) => u,
        Err(_) => return Err(ConfigurationError::InvalidUrl),
    };
    let storage = match storage_url {
        Some(s) => match Url::new(s) {
            Ok(s) => Some(s),
            Err(_) => return Err(ConfigurationError::InvalidUrl),
        },
        None => None,
    };
    let p = configured_priority(priority)?;
    let meta = SubstituterMeta::new(u, p);
    match storage {
        Some(s) => Ok(meta.with_storage_url(s)),
        None => Ok(meta),
    }
}

} // verus!
