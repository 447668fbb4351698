//! Configuration: the settings and their defaults, and the paths derived
//! from them (with `~` expanded to the home directory).

use vstd::prelude::*;
use crate::text::{starts_with, str_eq, string_of};

verus! {

/// All settings.
#[derive(Debug, Clone)]
pub struct Config {
    pub storage: StorageConfig,
    pub quota: QuotaConfig,
    pub fuse: FuseConfig,
    pub crypto: CryptoConfig,
    pub share: ShareConfig,
    pub import: ImportConfig,
    pub logging: LoggingConfig,
    pub ipc: IpcConfig,
    pub watcher: WatcherConfig,
}

#[derive(Debug, Clone)]
pub struct StorageConfig {
    pub path: String,
    pub cache_size_mb: u64,
    pub max_chunk_size_kb: u64,
}

#[derive(Debug, Clone)]
pub struct QuotaConfig {
    pub max_storage_gb: u64,
    pub max_operations_per_minute: u64,
    pub burst_allowance: u64,
}

#[derive(Debug, Clone)]
pub struct FuseConfig {
    pub mount_point: String,
    pub readonly: bool,
    pub allow_other: bool,
}

#[derive(Debug, Clone)]
pub struct CryptoConfig {
    pub algorithm: String,
    pub key_derivation: String,
    pub keyring_service: String,
}

#[derive(Debug, Clone)]
pub struct ShareConfig {
    pub http_port: u16,
    pub max_concurrent_shares: u32,
    pub default_ttl_days: u32,
}

#[derive(Debug, Clone)]
pub struct ImportConfig {
    pub extract_exif: bool,
    pub extract_id3: bool,
    pub extract_text: bool,
    pub create_embeddings: bool,
}

#[derive(Debug, Clone)]
pub struct LoggingConfig {
    pub level: String,
    pub format: String,
    pub audit_log: String,
}

#[derive(Debug, Clone)]
pub struct IpcConfig {
    pub verbose: bool,
}

#[derive(Debug, Clone)]
pub struct WatcherConfig {
    pub enabled: bool,
    pub debounce_ms: u64,
    pub commit_message_template: String,
    pub watch_dir: String,
    pub ignored_patterns: Vec<String>,
}

impl Default for StorageConfig {
    fn default() -> (r: StorageConfig)
        ensures
            r.path@ == "~/.latticefs"@,
            r.cache_size_mb == 512,
            r.max_chunk_size_kb == 64,
    {
        StorageConfig { path: string_of("~/.latticefs"), cache_size_mb: 512, max_chunk_size_kb: 64 }
    }
}

impl Default for QuotaConfig {
    fn default() -> (r: QuotaConfig)
        ensures
            r.max_storage_gb == 100,
            r.max_operations_per_minute == 1000,
            r.burst_allowance == 100,
    {
        QuotaConfig { max_storage_gb: 100, max_operations_per_minute: 1000, burst_allowance: 100 }
    }
}

impl Default for FuseConfig {
    fn default() -> (r: FuseConfig)
        ensures
            r.mount_point@ == "~/Lattice"@,
            r.readonly,
            !r.allow_other,
    {
        FuseConfig { mount_point: string_of("~/Lattice"), readonly: true, allow_other: false }
    }
}

impl Default for CryptoConfig {
    fn default() -> (r: CryptoConfig)
        ensures
            r.algorithm@ == "aes-256-gcm"@,
            r.key_derivation@ == "argon2id"@,
            r.keyring_service@ == "latticefs"@,
    {
        CryptoConfig {
            algorithm: string_of("aes-256-gcm"),
            key_derivation: string_of("argon2id"),
            keyring_service: string_of("latticefs"),
        }
    }
}

impl Default for ShareConfig {
    fn default() -> (r: ShareConfig)
        ensures
            r.http_port == 8771,
            r.max_concurrent_shares == 10,
            r.default_ttl_days == 7,
    {
        ShareConfig { http_port: 8771, max_concurrent_shares: 10, default_ttl_days: 7 }
    }
}

impl Default for ImportConfig {
    fn default() -> (r: ImportConfig)
        ensures
            r.extract_exif && r.extract_id3 && r.extract_text && !r.create_embeddings,
    {
        ImportConfig { extract_exif: true, extract_id3: true, extract_text: true, create_embeddings: false }
    }
}

impl Default for LoggingConfig {
    fn default() -> (r: LoggingConfig)
        ensures
            r.level@ == "info"@,
            r.format@ == "json"@,
            r.audit_log@ == "~/.latticefs/logs/events.jsonl"@,
    {
        LoggingConfig {
            level: string_of("info"),
            format: string_of("json"),
            audit_log: string_of("~/.latticefs/logs/events.jsonl"),
        }
    }
}

impl Default for IpcConfig {
    fn default() -> (r: IpcConfig)
        ensures
            !r.verbose,
    {
        IpcConfig { verbose: false }
    }
}

/// The file patterns the watcher ignores by default.
pub open spec fn default_ignored_patterns() -> Seq<Seq<char>> {
    seq!["*.swp"@, "*.swo"@, "*~"@, ".DS_Store"@, "*.tmp"@, "*.bak"@, ".~lock.*"@]
}

impl Default for WatcherConfig {
    fn default() -> (r: WatcherConfig)
        ensures
            r.enabled,
            r.debounce_ms == 1000,
            r.commit_message_template@ == "Auto-saved from external editor at {timestamp}"@,
            r.watch_dir@ == "/tmp/latticefs-open"@,
            r.ignored_patterns@.map_values(|s: String| s@) == default_ignored_patterns(),
    {
        let ignored_patterns = vec![
            string_of("*.swp"),
            string_of("*.swo"),
            string_of("*~"),
            string_of(".DS_Store"),
            string_of("*.tmp"),
            string_of("*.bak"),
            string_of(".~lock.*"),
        ];
        assert(ignored_patterns@.map_values(|s: String| s@) =~= default_ignored_patterns());
        WatcherConfig {
            enabled: true,
            debounce_ms: 1000,
            commit_message_template: string_of("Auto-saved from external editor at {timestamp}"),
            watch_dir: string_of("/tmp/latticefs-open"),
            ignored_patterns,
        }
    }
}

/// Every setting of the defaults but the storage path.
pub open spec fn default_settings(r: Config) -> bool {
    &&& r.storage.cache_size_mb == 512
    &&& r.storage.max_chunk_size_kb == 64
    &&& r.quota.max_storage_gb == 100
    &&& r.quota.max_operations_per_minute == 1000
    &&& r.quota.burst_allowance == 100
    &&& r.fuse.mount_point@ == "~/Lattice"@
    &&& r.fuse.readonly && !r.fuse.allow_other
    &&& r.crypto.algorithm@ == "aes-256-gcm"@
    &&& r.crypto.key_derivation@ == "argon2id"@
    &&& r.crypto.keyring_service@ == "latticefs"@
    &&& r.share.http_port == 8771 && r.share.max_concurrent_shares == 10 && r.share.default_ttl_days == 7
    &&& r.import.extract_exif && r.import.extract_id3 && r.import.extract_text && !r.import.create_embeddings
    &&& r.logging.level@ == "info"@
    &&& r.logging.format@ == "json"@
    &&& r.logging.audit_log@ == "~/.latticefs/logs/events.jsonl"@
    &&& !r.ipc.verbose
    &&& r.watcher.enabled && r.watcher.debounce_ms == 1000
    &&& r.watcher.commit_message_template@ == "Auto-saved from external editor at {timestamp}"@
    &&& r.watcher.watch_dir@ == "/tmp/latticefs-open"@
    &&& r.watcher.ignored_patterns@.map_values(|s: String| s@) == default_ignored_patterns()
}

impl Default for Config {
    fn default() -> (r: Config)
        ensures
            r.storage.path@ == "~/.latticefs"@,
            default_settings(r),
    {
        Config {
            storage: StorageConfig::default(),
            quota: QuotaConfig::default(),
            fuse: FuseConfig::default(),
            crypto: CryptoConfig::default(),
            share: ShareConfig::default(),
            import: ImportConfig::default(),
            logging: LoggingConfig::default(),
            ipc: IpcConfig::default(),
            watcher: WatcherConfig::default(),
        }
    }
}

// ---- Paths ----

/// `Path::join` on Unix: an absolute `b` replaces `a`; otherwise `b` is
/// appended after a `/`, unless `a` is empty or already ends with one.
pub open spec fn path_join_spec(a: Seq<char>, b: Seq<char>) -> Seq<char> {
    if b.len() > 0 && b[0] == '/' {
        b
    } else if a.len() == 0 || a.last() == '/' {
        a + b
    } else {
        a + seq!['/'] + b
    }
}

/// `path` with a leading `~` (alone, or before `/`) replaced by `home`.
pub open spec fn expand_tilde_spec(path: Seq<char>, home: Seq<char>) -> Seq<char> {
    if path == "~"@ {
        home
    } else if "~/"@.is_prefix_of(path) {
        path_join_spec(home, path.skip(2))
    } else {
        path
    }
}

/// `dirs::home_dir()`, as text (`to_string_lossy`). It depends on the
/// environment and the user database, so nothing is claimed of it.
#[verifier::external_body]
fn home_dir_text() -> (r: Option<String>) {
    match dirs::home_dir() {
        Some(p) => Some(p.to_string_lossy().into_owned()),
        None => None,
    }
}

/// The home directory, or `.` when it cannot be found.
pub fn home_or_current() -> (r: String) {
    match home_dir_text() {
        Some(h) => h,
        None => string_of("."),
    }
}

/// Join two paths as `Path::join` does on Unix.
pub fn path_join(a: &str, b: &str) -> (r: String)
    ensures
        r@ == path_join_spec(a@, b@),
{
    let bn = b.unicode_len();
    if bn > 0 && b.get_char(0) == '/' {
        return string_of(b);
    }
    let an = a.unicode_len();
    let mut r = string_of(a);
    if an > 0 && a.get_char(an - 1) != '/' {
        r.append("/");
        proof {
            reveal_strlit("/");
            assert("/"@ =~= seq!['/']);
        }
    }
    r.append(b);
    r
}

/// Expand a leading `~` of `path` to `home`.
pub fn expand_tilde(path: &str, home: &str) -> (r: String)
    ensures
        r@ == expand_tilde_spec(path@, home@),
{
    if str_eq(path, "~") {
        return string_of(home);
    }
    if starts_with(path, "~/") {
        proof {
            reveal_strlit("~/");
        }
        let n = path.unicode_len();
        return path_join(home, path.substring_char(2, n));
    }
    string_of(path)
}

/// The default home of LatticeFS: `.latticefs` in the user's home directory.
pub fn default_home() -> (r: String)
    ensures
        exists|h: Seq<char>| r@ == path_join_spec(h, ".latticefs"@),
{
    let h = home_or_current();
    path_join(h.as_str(), ".latticefs")
}

/// The config file: `config.toml` in the LatticeFS home, which is the
/// override when one is given (the `LATTICE_HOME` setting), else the default.
pub fn config_path(home_override: Option<String>) -> (r: String)
    ensures
        home_override matches Some(h) ==> r@ == path_join_spec(h@, "config.toml"@),
        home_override is None ==> exists|h: Seq<char>| r@ == path_join_spec(path_join_spec(h, ".latticefs"@), "config.toml"@),
{
    let home = match home_override {
        Some(h) => h,
        None => default_home(),
    };
    path_join(home.as_str(), "config.toml")
}

impl Config {
    /// The defaults, with the storage path set to the override when one is
    /// given (the `LATTICE_HOME` setting).
    pub fn default_with_home(home_override: Option<String>) -> (r: Config)
        ensures
            home_override matches Some(h) ==> r.storage.path@ == h@,
            home_override is None ==> r.storage.path@ == "~/.latticefs"@,
            default_settings(r),
    {
        let mut cfg = Config::default();
        match home_override {
            Some(h) => {
                cfg.storage.path = h;
            },
            None => {},
        }
        cfg
    }

    /// The storage root, `~` expanded.
    pub fn storage_path(&self) -> (r: String)
        ensures
            exists|h: Seq<char>| r@ == expand_tilde_spec(self.storage.path@, h),
    {
        let home = home_or_current();
        expand_tilde(self.storage.path.as_str(), home.as_str())
    }

    /// The FUSE mount point, `~` expanded.
    pub fn mount_point(&self) -> (r: String)
        ensures
            exists|h: Seq<char>| r@ == expand_tilde_spec(self.fuse.mount_point@, h),
    {
        let home = home_or_current();
        expand_tilde(self.fuse.mount_point.as_str(), home.as_str())
    }

    /// The audit log, `~` expanded.
    pub fn audit_log_path(&self) -> (r: String)
        ensures
            exists|h: Seq<char>| r@ == expand_tilde_spec(self.logging.audit_log@, h),
    {
        let home = home_or_current();
        expand_tilde(self.logging.audit_log.as_str(), home.as_str())
    }

    /// The IPC socket: `latticefs.sock` in the storage root.
    pub fn socket_path(&self) -> (r: String)
        ensures
            exists|h: Seq<char>| r@ == path_join_spec(expand_tilde_spec(self.storage.path@, h), "latticefs.sock"@),
    {
        let root = self.storage_path();
        path_join(root.as_str(), "latticefs.sock")
    }

    /// The revocation log: `logs/revocations.jsonl` in the storage root.
    pub fn revocation_log_path(&self) -> (r: String)
        ensures
            exists|h: Seq<char>| r@ == path_join_spec(
                path_join_spec(expand_tilde_spec(self.storage.path@, h), "logs"@),
                "revocations.jsonl"@,
            ),
    {
        let root = self.storage_path();
        let logs = path_join(root.as_str(), "logs");
        path_join(logs.as_str(), "revocations.jsonl")
    }

    /// The watcher directory, `~` expanded.
    pub fn watch_dir(&self) -> (r: String)
        ensures
            exists|h: Seq<char>| r@ == expand_tilde_spec(self.watcher.watch_dir@, h),
    {
        let home = home_or_current();
        expand_tilde(self.watcher.watch_dir.as_str(), home.as_str())
    }

    /// The watcher daemon's PID file: `watchd.pid` in the storage root.
    pub fn watchd_pid_path(&self) -> (r: String)
        ensures
            exists|h: Seq<char>| r@ == path_join_spec(expand_tilde_spec(self.storage.path@, h), "watchd.pid"@),
    {
        let root = self.storage_path();
        path_join(root.as_str(), "watchd.pid")
    }

    /// The watcher registry file: `watcher_registry.json` in the storage root.
    pub fn watch_registry_path(&self) -> (r: String)
        ensures
            exists|h: Seq<char>| r@ == path_join_spec(
                expand_tilde_spec(self.storage.path@, h),
                "watcher_registry.json"@,
            ),
    {
        let root = self.storage_path();
        path_join(root.as_str(), "watcher_registry.json")
    }
}

/// A path without a leading `~` is left as it is, whatever the home is.
pub proof fn lemma_expand_plain(path: Seq<char>, home: Seq<char>)
    requires
        path.len() == 0 || path[0] != '~',
    ensures
        expand_tilde_spec(path, home) == path,
{
    reveal_strlit("~");
    reveal_strlit("~/");
    if path == "~"@ {
        assert(path[0] == '~');
    }
    if "~/"@.is_prefix_of(path) {
        assert(path[0] == "~/"@[0]);
    }
}

} // verus!
