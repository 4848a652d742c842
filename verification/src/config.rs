use vstd::prelude::*;

verus! {

/// Settings shared by every worker binary.
pub struct EnvVarConfigGeneral {
    pub database_url: String,
}

/// Where file bytes are kept: a local directory, or an object store.
pub struct StorageConfig {
    pub file_storage_location: String,
    pub temp_file_storage_location: String,
    pub s3_internal_url: String,
    pub s3_external_url: String,
    pub s3_bucket_name: String,
    pub s3_access_key: String,
    pub s3_secret_key: String,
}

/// Settings of the request-handling front end.
pub struct EnvVarConfigApi {
    pub use_s3: bool,
    pub s3_file_cache_duration_seconds: u32,
    pub disk_file_cache_duration_seconds: u32,
    pub general_config: EnvVarConfigGeneral,
    pub storage_config: StorageConfig,
    pub use_ipv6: bool,
}

/// Settings of the archival worker pool.
pub struct EnvVarConfigArchiver {
    pub use_s3: bool,
    pub general_config: EnvVarConfigGeneral,
    pub storage_config: StorageConfig,
    pub simulate_download: bool,
    pub simulated_download_duration_seconds: u64,
    pub archiver_thread_count: u16,
    pub archiver_archiving_timeout_seconds: i64,
    pub archiver_error_backoff_seconds: i64,
}

/// Settings of the discovery worker pool.
pub struct EnvVarConfigTracker {
    pub general_config: EnvVarConfigGeneral,
    pub tracker_thread_count: u16,
}

/// Settings of the migration/setup binary.
pub struct EnvVarConfigCommon {
    pub general_config: EnvVarConfigGeneral,
}

/// How long a file fetched through the object store may be cached: seven days.
pub fn s3_file_cache_duration_seconds_default() -> (r: u32)
    ensures
        r == 604800,
{
    60 * 60 * 24 * 7
}

/// How long a file served from disk may be cached: one year.
pub fn disk_file_cache_duration_seconds_default() -> (r: u32)
    ensures
        r == 31536000,
{
    60 * 60 * 24 * 365
}

} // verus!
