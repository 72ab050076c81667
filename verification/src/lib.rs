//! Self-update subsystem for a desktop application: release discovery over a
//! signed-metadata trust chain, verified bundle download, and staged,
//! rollback-capable installation into a side-by-side versioned layout.

pub mod apply;
pub mod config;
pub mod fetch;
pub mod manager;
pub mod order;
pub mod resolver;
pub mod state;
pub mod text;
pub mod trust;
pub mod version;

pub use apply::{apply_staged_update, ApplyResult};
pub use config::{default_tuf_config, with_custom_urls, TufConfig};
pub use fetch::save_target_to_cache;
pub use manager::{check_for_updates, download_update_bundle, DownloadResult, UpdateCheckResult};
pub use resolver::{find_latest_update_for_platform, UpdateDescriptor};
pub use state::{load_version_state, save_version_state, version_dir, VersionState};
pub use trust::{load_repository, Repository};
