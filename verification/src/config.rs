//! Trust configuration: where remote metadata and targets are served from,
//! and where the pinned root of trust and the local caches live under the
//! application's configuration directory. Directory creation is the caller's
//! I/O; this module fixes the layout.

use vstd::prelude::*;

use vstd::string::StringExecFns;

verus! {

/// What `url::Url::parse` yields for a given input: the normalized
/// serialization of the URL when the input parses, nothing otherwise.
pub uninterp spec fn url_parse(s: Seq<char>) -> Option<Seq<char>>;

/// Relies on url::Url::parse and url::Url::as_str: parsing depends on the
/// input string alone, and `as_str` returns the parsed URL's serialization.
#[verifier::external_body]
fn parse_url(s: &str) -> (r: Option<String>)
    ensures
        (r is Some) == (url_parse(s@) is Some),
        r is Some ==> r.unwrap()@ == url_parse(s@).unwrap(),
{
    match url::Url::parse(s) {
        Ok(u) => Some(u.as_str().to_string()),
        Err(_) => None,
    }
}

#[derive(Debug, Clone, PartialEq, Eq)]
pub enum ConfigError {
    /// A remote base location is not a well-formed URL.
    InvalidUrl,
    /// The metadata and targets base locations coincide; the trust protocol
    /// serves them from two distinct endpoints.
    IndistinctEndpoints,
}

/// Per-session trust configuration: the two remote base locations and the
/// three local paths (pinned root document, metadata cache, targets cache).
pub struct TufConfig {
    pub metadata_base_url: String,
    pub targets_base_url: String,
    pub root_path: String,
    pub datastore_path: String,
    pub targets_cache_dir: String,
}

impl TufConfig {
    /// The default configuration, reachable from the type for callers that
    /// hold no other name in scope.
    pub fn default_tuf_config(app_config_dir: &str) -> (r: Result<TufConfig, ConfigError>)
        ensures
            r is Ok <==> default_endpoints_ok(),
            match r {
                Ok(cfg) => default_config_ok(cfg, app_config_dir@),
                Err(e) => match e {
                    ConfigError::InvalidUrl => url_parse("https://updates.filesup.app/metadata/"@)
                        is None || url_parse("https://updates.filesup.app/targets/"@) is None,
                    ConfigError::IndistinctEndpoints => url_parse(
                        "https://updates.filesup.app/metadata/"@,
                    ) is Some && url_parse("https://updates.filesup.app/targets/"@) is Some
                        && url_parse("https://updates.filesup.app/metadata/"@).unwrap()
                        == url_parse("https://updates.filesup.app/targets/"@).unwrap(),
                },
            },
    {
        default_tuf_config(app_config_dir)
    }
}

/// The production endpoints parse and are two distinct locations.
pub open spec fn default_endpoints_ok() -> bool {
    &&& url_parse("https://updates.filesup.app/metadata/"@) is Some
    &&& url_parse("https://updates.filesup.app/targets/"@) is Some
    &&& url_parse("https://updates.filesup.app/metadata/"@).unwrap() != url_parse(
        "https://updates.filesup.app/targets/"@,
    ).unwrap()
}

/// What a successfully built default configuration holds: the local layout
/// and the two production endpoints, distinct from one another.
pub open spec fn default_config_ok(cfg: TufConfig, app_config_dir: Seq<char>) -> bool {
    &&& local_paths_ok(cfg, app_config_dir)
    &&& cfg.metadata_base_url@ == url_parse("https://updates.filesup.app/metadata/"@).unwrap()
    &&& cfg.targets_base_url@ == url_parse("https://updates.filesup.app/targets/"@).unwrap()
    &&& cfg.metadata_base_url@ != cfg.targets_base_url@
}

pub open spec fn spec_root_path(app_config_dir: Seq<char>) -> Seq<char> {
    app_config_dir + "/tuf/root.json"@
}

pub open spec fn spec_datastore_path(app_config_dir: Seq<char>) -> Seq<char> {
    app_config_dir + "/tuf/metadata-cache"@
}

pub open spec fn spec_targets_cache_dir(app_config_dir: Seq<char>) -> Seq<char> {
    app_config_dir + "/tuf/targets-cache"@
}

/// The local layout rooted at the application's configuration directory.
pub open spec fn local_paths_ok(cfg: TufConfig, app_config_dir: Seq<char>) -> bool {
    &&& cfg.root_path@ == spec_root_path(app_config_dir)
    &&& cfg.datastore_path@ == spec_datastore_path(app_config_dir)
    &&& cfg.targets_cache_dir@ == spec_targets_cache_dir(app_config_dir)
}

/// Build the default configuration under the given application configuration
/// directory: the production endpoints — checked to be two distinct
/// locations, as the trust protocol demands — and the local `tuf/` layout.
pub fn default_tuf_config(app_config_dir: &str) -> (r: Result<TufConfig, ConfigError>)
    ensures
        r is Ok <==> default_endpoints_ok(),
        match r {
            Ok(cfg) => default_config_ok(cfg, app_config_dir@),
            Err(e) => match e {
                ConfigError::InvalidUrl => url_parse("https://updates.filesup.app/metadata/"@)
                    is None || url_parse("https://updates.filesup.app/targets/"@) is None,
                ConfigError::IndistinctEndpoints => url_parse(
                    "https://updates.filesup.app/metadata/"@,
                ) is Some && url_parse("https://updates.filesup.app/targets/"@) is Some
                    && url_parse("https://updates.filesup.app/metadata/"@).unwrap() == url_parse(
                    "https://updates.filesup.app/targets/"@,
                ).unwrap(),
            },
        },
{
    let metadata_base_url = match parse_url("https://updates.filesup.app/metadata/") {
        Some(u) => u,
        None => {
            return Err(ConfigError::InvalidUrl);
        },
    };
    let targets_base_url = match parse_url("https://updates.filesup.app/targets/") {
        Some(u) => u,
        None => {
            return Err(ConfigError::InvalidUrl);
        },
    };
    if metadata_base_url == targets_base_url {
        return Err(ConfigError::IndistinctEndpoints);
    }
    let mut root_path = String::from_str(app_config_dir);
    root_path.append("/tuf/root.json");
    let mut datastore_path = String::from_str(app_config_dir);
    datastore_path.append("/tuf/metadata-cache");
    let mut targets_cache_dir = String::from_str(app_config_dir);
    targets_cache_dir.append("/tuf/targets-cache");
    Ok(
        TufConfig {
            metadata_base_url,
            targets_base_url,
            root_path,
            datastore_path,
            targets_cache_dir,
        },
    )
}

/// The default configuration with the remote endpoints replaced, for test or
/// development repositories. Only the endpoints move, and they must still be
/// two distinct locations; the local cache and root-of-trust paths stay what
/// the default layout fixes, so validation is relocated, never weakened.
pub fn with_custom_urls(app_config_dir: &str, metadata_url: &str, targets_url: &str) -> (r: Result<
    TufConfig,
    ConfigError,
>)
    ensures
        r is Ok <==> default_endpoints_ok() && url_parse(metadata_url@) is Some && url_parse(
            targets_url@,
        ) is Some && url_parse(metadata_url@).unwrap() != url_parse(targets_url@).unwrap(),
        match r {
            Ok(cfg) => {
                &&& local_paths_ok(cfg, app_config_dir@)
                &&& cfg.metadata_base_url@ == url_parse(metadata_url@).unwrap()
                &&& cfg.targets_base_url@ == url_parse(targets_url@).unwrap()
                &&& cfg.metadata_base_url@ != cfg.targets_base_url@
            },
            Err(e) => match e {
                ConfigError::InvalidUrl => url_parse("https://updates.filesup.app/metadata/"@)
                    is None || url_parse("https://updates.filesup.app/targets/"@) is None
                    || url_parse(metadata_url@) is None || url_parse(targets_url@) is None,
                ConfigError::IndistinctEndpoints => url_parse(metadata_url@) is Some && url_parse(
                    targets_url@,
                ) is Some && (url_parse(metadata_url@).unwrap() == url_parse(targets_url@).unwrap()
                    || (url_parse("https://updates.filesup.app/metadata/"@) is Some && url_parse(
                    "https://updates.filesup.app/targets/"@,
                ) is Some && url_parse("https://updates.filesup.app/metadata/"@).unwrap()
                    == url_parse("https://updates.filesup.app/targets/"@).unwrap())),
            },
        },
{
    let m = match parse_url(metadata_url) {
        Some(u) => u,
        None => {
            return Err(ConfigError::InvalidUrl);
        },
    };
    let t = match parse_url(targets_url) {
        Some(u) => u,
        None => {
            return Err(ConfigError::InvalidUrl);
        },
    };
    let mut cfg = match default_tuf_config(app_config_dir) {
        Ok(c) => c,
        Err(e) => {
            return Err(e);
        },
    };
    if m == t {
        return Err(ConfigError::IndistinctEndpoints);
    }
    cfg.metadata_base_url = m;
    cfg.targets_base_url = t;
    Ok(cfg)
}

} // verus!
