//! The server's settings, their defaults, and the checks run on them at startup.

use vstd::prelude::*;

use crate::text::same_text;

verus! {

/// Config file layout this server reads.
pub const CONFIG_VERSION: u8 = 1;

/// Bytes in a mebibyte.
pub const MEBIBYTE: i64 = 1048576;

/// A number of bytes.
#[derive(Debug, Clone, Copy, PartialEq, Eq, Structural)]
pub struct ByteSize(pub i64);

impl ByteSize {
    /// A size of the given number of bytes.
    pub fn from_int(bytes: i64) -> (r: ByteSize)
        ensures
            r.0 == bytes,
    {
        ByteSize(bytes)
    }

    /// The number of bytes.
    pub fn to_int(self) -> (r: i64)
        ensures
            r == self.0,
    {
        self.0
    }
}

/// Every setting the server reads at startup.
pub struct Config {
    pub version: u8,
    pub info: Info,
    pub bind: Bind,
    pub storage: Storage,
    pub database: Database,
    pub logging: Logging,
    pub session: Session,
    pub sidecar: Sidecar,
    pub limits: Limits,
}

/// Where the listener binds, and its TLS material.
pub struct Bind {
    pub ip: String,
    pub port: u16,
    /// PEM certificate chain served to clients
    pub certificate: Option<String>,
    /// PEM private key for `certificate`
    pub key: Option<String>,
}

/// Where uploaded files are kept.
pub struct Storage {
    /// Directory holding uploaded files, sharded by hash
    pub files: String,
}

/// The database file and its connection pool.
pub struct Database {
    /// SQLite database file
    pub path: String,
    /// Most connections open at once
    pub max_connections: u32,
    /// Connections held open while unused
    pub min_connections: u32,
    /// Seconds a request waits for a free connection
    pub acquire_timeout_seconds: u64,
    /// Seconds an unused connection stays open, 0 to keep it open
    pub idle_timeout_seconds: u64,
    /// Seconds a statement waits for the write lock
    pub busy_timeout_seconds: u64,
    /// Times a broadcast retries reading who to send to, on top of the first try
    pub broadcast_retries: u32,
    /// Milliseconds waited between broadcast retries
    pub broadcast_retry_delay_ms: u64,
}

/// Where tracing output goes and how much of it.
pub struct Logging {
    /// File every tracing call is appended to, empty for stdout only
    pub file: String,
    /// Lowest level this server's own tracing calls are written at
    pub level: String,
}

/// How long sessions last.
pub struct Session {
    /// How long a session survives without activity
    pub lifetime_days: i64,
    /// Days that must elapse before an active session is extended again
    pub renew_after_days_elapsed: i64,
}

/// The shared secret the sidecar connects with.
pub struct Sidecar {
    /// Empty refuses every connection
    pub secret: String,
}

/// Sizes, counts and page lengths the server enforces.
pub struct Limits {
    pub username_min: usize,
    pub username_max: usize,
    pub display_name_min: usize,
    pub display_name_max: usize,
    pub profile_description_max: usize,
    pub room_name_max: usize,
    pub message_body_max: usize,
    pub password_min: usize,
    pub password_max: usize,
    pub file_bytes_max: ByteSize,
    pub attachments_per_message_max: usize,
    pub message_page: i64,
    pub room_page: i64,
    pub users_page: i64,
    pub message_buffer: usize,
}

/// What the server tells clients about itself.
pub struct Info {
    pub name: String,
    pub kind: String,
    pub description: String,
}

/// The first setting that fails the startup checks.
#[derive(Debug, Clone, Copy, PartialEq, Eq, Structural)]
pub enum ConfigError {
    /// `version` is not [`CONFIG_VERSION`]
    UnsupportedVersion { found: u8 },
    /// `bind.port` is 0
    PortZero,
    /// `bind.ip` is not an IPv4 or IPv6 address
    IpNotAddress,
    /// `bind.certificate` is set without `bind.key`
    KeyMissing,
    /// `bind.key` is set without `bind.certificate`
    CertificateMissing,
    /// `storage.files` is empty
    FilesUnset,
    /// `database.path` is empty
    DatabasePathUnset,
    /// `database.max_connections` is 0
    MaxConnectionsZero,
    /// `database.min_connections` is above `database.max_connections`
    MinConnectionsAboveMax,
    /// `session.lifetime_days` is below 1
    LifetimeTooShort,
    /// `session.renew_after_days_elapsed` is not below `session.lifetime_days`
    RenewNotBeforeLifetime,
    /// `limits.username_min` is 0 or above `limits.username_max`
    UsernameLimits,
    /// `limits.display_name_min` is 0 or above `limits.display_name_max`
    DisplayNameLimits,
    /// `limits.password_min` is 0 or above `limits.password_max`
    PasswordLimits,
    /// `limits.room_name_max` is 0
    RoomNameMaxZero,
    /// `limits.message_body_max` is 0
    MessageBodyMaxZero,
    /// `limits.file_bytes_max` is below one byte
    FileBytesMaxTooSmall,
    /// `limits.message_page` is below 1
    MessagePageTooSmall,
    /// `limits.room_page` is below 1
    RoomPageTooSmall,
    /// `limits.users_page` is below 1
    UsersPageTooSmall,
    /// `limits.message_buffer` is 0
    MessageBufferZero,
    /// `logging.level` is not one of trace, debug, info, warn, error
    UnknownLoggingLevel,
}

/// A setting that passes the checks but is worth a warning.
#[derive(Debug, Clone, Copy, PartialEq, Eq, Structural)]
pub enum ConfigWarning {
    /// `logging.file` is empty, so tracing goes to stdout only
    LogFileUnset,
    /// `info.name` is empty
    NoName,
    /// `info.kind` is empty
    NoKind,
    /// `info.description` is empty
    NoDescription,
}

/// The logging levels the server understands.
pub open spec fn known_level(level: Seq<char>) -> bool {
    level == "trace"@ || level == "debug"@ || level == "info"@ || level == "warn"@ || level == "error"@
}

/// The first check a config fails, in the order the checks run, or `None`
/// when it passes every one. `ip_is_address` is whether `bind.ip` parses as an
/// IP address.
pub open spec fn first_problem(c: &Config, ip_is_address: bool) -> Option<ConfigError> {
    let l = c.limits;
    if c.version != CONFIG_VERSION {
        Some(ConfigError::UnsupportedVersion { found: c.version })
    } else if c.bind.port == 0 {
        Some(ConfigError::PortZero)
    } else if !ip_is_address {
        Some(ConfigError::IpNotAddress)
    } else if c.bind.certificate is Some && c.bind.key is None {
        Some(ConfigError::KeyMissing)
    } else if c.bind.certificate is None && c.bind.key is Some {
        Some(ConfigError::CertificateMissing)
    } else if c.storage.files@.len() == 0 {
        Some(ConfigError::FilesUnset)
    } else if c.database.path@.len() == 0 {
        Some(ConfigError::DatabasePathUnset)
    } else if c.database.max_connections < 1 {
        Some(ConfigError::MaxConnectionsZero)
    } else if c.database.min_connections > c.database.max_connections {
        Some(ConfigError::MinConnectionsAboveMax)
    } else if c.session.lifetime_days < 1 {
        Some(ConfigError::LifetimeTooShort)
    } else if c.session.renew_after_days_elapsed >= c.session.lifetime_days {
        Some(ConfigError::RenewNotBeforeLifetime)
    } else if l.username_min < 1 || l.username_max < l.username_min {
        Some(ConfigError::UsernameLimits)
    } else if l.display_name_min < 1 || l.display_name_max < l.display_name_min {
        Some(ConfigError::DisplayNameLimits)
    } else if l.password_min < 1 || l.password_max < l.password_min {
        Some(ConfigError::PasswordLimits)
    } else if l.room_name_max < 1 {
        Some(ConfigError::RoomNameMaxZero)
    } else if l.message_body_max < 1 {
        Some(ConfigError::MessageBodyMaxZero)
    } else if l.file_bytes_max.0 <= 0 {
        Some(ConfigError::FileBytesMaxTooSmall)
    } else if l.message_page < 1 {
        Some(ConfigError::MessagePageTooSmall)
    } else if l.room_page < 1 {
        Some(ConfigError::RoomPageTooSmall)
    } else if l.users_page < 1 {
        Some(ConfigError::UsersPageTooSmall)
    } else if l.message_buffer < 1 {
        Some(ConfigError::MessageBufferZero)
    } else if !known_level(c.logging.level@) {
        Some(ConfigError::UnknownLoggingLevel)
    } else {
        None
    }
}

/// What a config that passes every check guarantees the rest of the server.
pub open spec fn sound(c: &Config) -> bool {
    &&& c.version == CONFIG_VERSION
    &&& c.bind.port > 0
    &&& (c.bind.certificate is Some <==> c.bind.key is Some)
    &&& c.storage.files@.len() > 0
    &&& c.database.path@.len() > 0
    &&& 1 <= c.database.max_connections
    &&& c.database.min_connections <= c.database.max_connections
    &&& 1 <= c.session.lifetime_days
    &&& c.session.renew_after_days_elapsed < c.session.lifetime_days
    &&& 1 <= c.limits.username_min <= c.limits.username_max
    &&& 1 <= c.limits.display_name_min <= c.limits.display_name_max
    &&& 1 <= c.limits.password_min <= c.limits.password_max
    &&& c.limits.room_name_max >= 1
    &&& c.limits.message_body_max >= 1
    &&& c.limits.file_bytes_max.0 >= 1
    &&& c.limits.message_page >= 1
    &&& c.limits.room_page >= 1
    &&& c.limits.users_page >= 1
    &&& c.limits.message_buffer >= 1
    &&& known_level(c.logging.level@)
}

impl Config {
    /// Checks that the loaded config holds usable values, rejecting the first
    /// invalid one.
    ///
    /// # Arguments
    ///
    /// * `ip_is_address` - Whether `bind.ip` parses as an IPv4 or IPv6 address.
    pub fn validate(&self, ip_is_address: bool) -> (r: Result<(), ConfigError>)
        ensures
            match first_problem(self, ip_is_address) {
                Some(e) => r == Err::<(), ConfigError>(e),
                None => r is Ok,
            },
            r is Ok ==> sound(self),
    {
        if self.version != CONFIG_VERSION {
            return Err(ConfigError::UnsupportedVersion { found: self.version });
        }
        if self.bind.port == 0 {
            return Err(ConfigError::PortZero);
        }
        if !ip_is_address {
            return Err(ConfigError::IpNotAddress);
        }
        match (&self.bind.certificate, &self.bind.key) {
            (Some(_), None) => return Err(ConfigError::KeyMissing),
            (None, Some(_)) => return Err(ConfigError::CertificateMissing),
            _ => {},
        }
        if self.storage.files.as_str().is_empty() {
            return Err(ConfigError::FilesUnset);
        }
        if self.database.path.as_str().is_empty() {
            return Err(ConfigError::DatabasePathUnset);
        }
        if self.database.max_connections < 1 {
            return Err(ConfigError::MaxConnectionsZero);
        }
        if self.database.min_connections > self.database.max_connections {
            return Err(ConfigError::MinConnectionsAboveMax);
        }
        if self.session.lifetime_days < 1 {
            return Err(ConfigError::LifetimeTooShort);
        }
        if self.session.renew_after_days_elapsed >= self.session.lifetime_days {
            return Err(ConfigError::RenewNotBeforeLifetime);
        }
        let l = &self.limits;
        if l.username_min < 1 || l.username_max < l.username_min {
            return Err(ConfigError::UsernameLimits);
        }
        if l.display_name_min < 1 || l.display_name_max < l.display_name_min {
            return Err(ConfigError::DisplayNameLimits);
        }
        if l.password_min < 1 || l.password_max < l.password_min {
            return Err(ConfigError::PasswordLimits);
        }
        if l.room_name_max < 1 {
            return Err(ConfigError::RoomNameMaxZero);
        }
        if l.message_body_max < 1 {
            return Err(ConfigError::MessageBodyMaxZero);
        }
        if l.file_bytes_max.to_int() <= 0 {
            return Err(ConfigError::FileBytesMaxTooSmall);
        }
        if l.message_page < 1 {
            return Err(ConfigError::MessagePageTooSmall);
        }
        if l.room_page < 1 {
            return Err(ConfigError::RoomPageTooSmall);
        }
        if l.users_page < 1 {
            return Err(ConfigError::UsersPageTooSmall);
        }
        if l.message_buffer < 1 {
            return Err(ConfigError::MessageBufferZero);
        }
        let level = self.logging.level.as_str();
        if !(same_text(level, "trace") || same_text(level, "debug") || same_text(level, "info")
            || same_text(level, "warn") || same_text(level, "error")) {
            return Err(ConfigError::UnknownLoggingLevel);
        }
        Ok(())
    }

    /// The settings a valid config may still hold that deserve a warning, in
    /// the order the server reports them.
    pub fn warnings(&self) -> (r: Vec<ConfigWarning>)
        ensures
            r@ == Seq::<ConfigWarning>::empty()
                + (if self.logging.file@.len() == 0 { seq![ConfigWarning::LogFileUnset] } else { Seq::empty() })
                + (if self.info.name@.len() == 0 { seq![ConfigWarning::NoName] } else { Seq::empty() })
                + (if self.info.kind@.len() == 0 { seq![ConfigWarning::NoKind] } else { Seq::empty() })
                + (if self.info.description@.len() == 0 { seq![ConfigWarning::NoDescription] } else { Seq::empty() }),
    {
        let mut found: Vec<ConfigWarning> = Vec::new();
        if self.logging.file.as_str().is_empty() {
            found.push(ConfigWarning::LogFileUnset);
        }
        let ghost a = found@;
        if self.info.name.as_str().is_empty() {
            found.push(ConfigWarning::NoName);
        }
        let ghost b = found@;
        if self.info.kind.as_str().is_empty() {
            found.push(ConfigWarning::NoKind);
        }
        let ghost c = found@;
        if self.info.description.as_str().is_empty() {
            found.push(ConfigWarning::NoDescription);
        }
        proof {
            let e = Seq::<ConfigWarning>::empty();
            assert(a =~= e + (if self.logging.file@.len() == 0 { seq![ConfigWarning::LogFileUnset] } else { Seq::empty() }));
        }
        assert(found@ =~= Seq::<ConfigWarning>::empty()
                + (if self.logging.file@.len() == 0 { seq![ConfigWarning::LogFileUnset] } else { Seq::empty() })
                + (if self.info.name@.len() == 0 { seq![ConfigWarning::NoName] } else { Seq::empty() })
                + (if self.info.kind@.len() == 0 { seq![ConfigWarning::NoKind] } else { Seq::empty() })
                + (if self.info.description@.len() == 0 { seq![ConfigWarning::NoDescription] } else { Seq::empty() }));
        found
    }

    /// Whether a certificate and key are configured for the listener.
    pub fn tls_configured(&self) -> (r: bool)
        ensures
            r == (self.bind.certificate is Some && self.bind.key is Some),
    {
        self.bind.certificate.is_some() && self.bind.key.is_some()
    }
}

impl Database {
    /// Seconds an unused connection stays open, or `None` to keep it open.
    pub fn idle_timeout(&self) -> (r: Option<u64>)
        ensures
            r == (if self.idle_timeout_seconds == 0 { None } else { Some(self.idle_timeout_seconds) }),
    {
        match self.idle_timeout_seconds {
            0 => None,
            seconds => Some(seconds),
        }
    }

    /// Milliseconds a broadcast waits between retries.
    pub fn broadcast_retry_delay(&self) -> (r: u64)
        ensures
            r == self.broadcast_retry_delay_ms,
    {
        self.broadcast_retry_delay_ms
    }
}

// Defaults //

impl Default for Bind {
    fn default() -> (r: Bind)
        ensures
            r.ip@ == "127.0.0.1"@,
            r.port == 3000,
            r.certificate is None,
            r.key is None,
    {
        Bind { ip: String::from_str("127.0.0.1"), port: 3000, certificate: None, key: None }
    }
}

impl Default for Storage {
    fn default() -> (r: Storage)
        ensures
            r.files@ == "files"@,
    {
        Storage { files: String::from_str("files") }
    }
}

impl Default for Database {
    fn default() -> (r: Database)
        ensures
            r.path@ == "chat.db"@,
            r.max_connections == 5,
            r.min_connections == 0,
            r.acquire_timeout_seconds == 30,
            r.idle_timeout_seconds == 600,
            r.busy_timeout_seconds == 5,
            r.broadcast_retries == 2,
            r.broadcast_retry_delay_ms == 100,
    {
        Database {
            path: String::from_str("chat.db"),
            max_connections: 5,
            min_connections: 0,
            acquire_timeout_seconds: 30,
            idle_timeout_seconds: 600,
            busy_timeout_seconds: 5,
            broadcast_retries: 2,
            broadcast_retry_delay_ms: 100,
        }
    }
}

impl Default for Logging {
    fn default() -> (r: Logging)
        ensures
            r.file@ == "xenon.log"@,
            r.level@ == "info"@,
    {
        Logging { file: String::from_str("xenon.log"), level: String::from_str("info") }
    }
}

impl Default for Session {
    fn default() -> (r: Session)
        ensures
            r.lifetime_days == 30,
            r.renew_after_days_elapsed == 1,
    {
        Session { lifetime_days: 30, renew_after_days_elapsed: 1 }
    }
}

impl Default for Sidecar {
    fn default() -> (r: Sidecar)
        ensures
            r.secret@.len() == 0,
    {
        Sidecar { secret: String::new() }
    }
}

impl Default for Limits {
    fn default() -> (r: Limits)
        ensures
            r.username_min == 2,
            r.username_max == 32,
            r.display_name_min == 1,
            r.display_name_max == 64,
            r.profile_description_max == 2000,
            r.room_name_max == 128,
            r.message_body_max == 8000,
            r.password_min == 8,
            r.password_max == 128,
            r.file_bytes_max.0 == 25 * MEBIBYTE,
            r.attachments_per_message_max == 10,
            r.message_page == 200,
            r.room_page == 200,
            r.users_page == 25,
            r.message_buffer == 32,
    {
        Limits {
            username_min: 2,
            username_max: 32,
            display_name_min: 1,
            display_name_max: 64,
            profile_description_max: 2000,
            room_name_max: 128,
            message_body_max: 8000,
            password_min: 8,
            password_max: 128,
            file_bytes_max: ByteSize::from_int(25 * MEBIBYTE),
            attachments_per_message_max: 10,
            message_page: 200,
            room_page: 200,
            users_page: 25,
            message_buffer: 32,
        }
    }
}

impl Default for Info {
    fn default() -> (r: Info)
        ensures
            r.name@ == "Xenon Server"@,
            r.kind@ == "Development"@,
            r.description@ == "My custom Xenon server"@,
    {
        Info {
            name: String::from_str("Xenon Server"),
            kind: String::from_str("Development"),
            description: String::from_str("My custom Xenon server"),
        }
    }
}

impl Default for Config {
    fn default() -> (r: Config)
        ensures
            r.version == CONFIG_VERSION,
            r.bind.ip@ == "127.0.0.1"@,
            r.bind.port == 3000,
            r.bind.certificate is None,
            r.bind.key is None,
            r.storage.files@ == "files"@,
            r.database.path@ == "chat.db"@,
            r.database.max_connections == 5,
            r.database.min_connections == 0,
            r.database.idle_timeout_seconds == 600,
            r.logging.level@ == "info"@,
            r.logging.file@ == "xenon.log"@,
            r.session.lifetime_days == 30,
            r.session.renew_after_days_elapsed == 1,
            r.sidecar.secret@.len() == 0,
            r.limits.username_min == 2,
            r.limits.username_max == 32,
            r.limits.display_name_min == 1,
            r.limits.display_name_max == 64,
            r.limits.room_name_max == 128,
            r.limits.message_body_max == 8000,
            r.limits.password_min == 8,
            r.limits.password_max == 128,
            r.limits.file_bytes_max.0 == 25 * MEBIBYTE,
            r.limits.attachments_per_message_max == 10,
            r.limits.message_page == 200,
            r.limits.room_page == 200,
            r.limits.users_page == 25,
            r.limits.message_buffer == 32,
            r.info.name@ == "Xenon Server"@,
    {
        Config {
            version: CONFIG_VERSION,
            info: Info::default(),
            bind: Bind::default(),
            storage: Storage::default(),
            database: Database::default(),
            logging: Logging::default(),
            session: Session::default(),
            sidecar: Sidecar::default(),
            limits: Limits::default(),
        }
    }
}

/// The defaults written on first run pass every startup check (their
/// `127.0.0.1` being an IP address).
pub proof fn law_defaults_valid(c: &Config)
    requires
        c.version == CONFIG_VERSION,
        c.bind.port == 3000,
        c.bind.certificate is None,
        c.bind.key is None,
        c.storage.files@ == "files"@,
        c.database.path@ == "chat.db"@,
        c.database.max_connections == 5,
        c.database.min_connections == 0,
        c.session.lifetime_days == 30,
        c.session.renew_after_days_elapsed == 1,
        c.limits.username_min == 2,
        c.limits.username_max == 32,
        c.limits.display_name_min == 1,
        c.limits.display_name_max == 64,
        c.limits.room_name_max == 128,
        c.limits.message_body_max == 8000,
        c.limits.password_min == 8,
        c.limits.password_max == 128,
        c.limits.file_bytes_max.0 == 25 * MEBIBYTE,
        c.limits.message_page == 200,
        c.limits.room_page == 200,
        c.limits.users_page == 25,
        c.limits.message_buffer == 32,
        c.logging.level@ == "info"@,
    ensures
        first_problem(c, true) is None,
{
    reveal_strlit("files");
    reveal_strlit("chat.db");
}

} // verus!
