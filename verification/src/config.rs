//! Server configuration and its defaults.
use vstd::prelude::*;
use crate::text::{from_chars, str_eq, to_chars};
use crate::paths::{path_is_name, same_path_as_name};

verus! {

pub struct Config {
    pub server: ServerConfig,
    pub library: LibraryConfig,
    pub covers: CoversConfig,
    pub database: DatabaseConfig,
    pub opds: OpdsConfig,
    pub scanner: ScannerConfig,
    pub web: WebConfig,
    pub upload: UploadConfig,
    pub reader: ReaderConfig,
    pub smtp: SmtpConfig,
}

pub struct ServerConfig {
    pub host: String,
    pub port: u16,
    pub log_level: String,
    /// HMAC secret for signing session cookies. If empty, a random key is generated at startup.
    pub session_secret: String,
    /// Session TTL in hours (default 24).
    pub session_ttl_hours: u64,
}

pub struct LibraryConfig {
    pub root_path: String,
    /// Legacy cover directory, kept for configurations older than the covers section.
    pub covers_path: Option<String>,
    pub cover_max_dimension_px: Option<u32>,
    pub cover_jpeg_quality: Option<u8>,
    pub book_extensions: Vec<String>,
    pub scan_zip: bool,
    pub zip_codepage: String,
    pub inpx_enable: bool,
}

pub struct DatabaseConfig {
    pub url: String,
}

pub struct OpdsConfig {
    pub title: String,
    pub subtitle: String,
    pub max_items: u32,
    pub split_items: u32,
    pub auth_required: bool,
    /// Legacy switch, kept for configurations older than the covers section.
    pub show_covers: Option<bool>,
    pub alphabet_menu: bool,
    pub hide_doubles: bool,
}

pub struct CoversConfig {
    pub covers_path: String,
    pub cover_max_dimension_px: u32,
    pub cover_jpeg_quality: u8,
    pub show_covers: bool,
}

pub struct ScannerConfig {
    /// Minutes to fire at (0..=59). Empty = every minute.
    pub schedule_minutes: Vec<u32>,
    /// Hours to fire at (0..=23). Empty = every hour.
    pub schedule_hours: Vec<u32>,
    /// Days of week to fire on (1=Mon..7=Sun, ISO). Empty = every day.
    pub schedule_day_of_week: Vec<u32>,
    pub delete_logical: bool,
    /// Compare mtime+size to skip unchanged archives.
    pub skip_unchanged: bool,
    /// Validate ZIP CRC integrity before processing.
    pub test_zip: bool,
    /// Verify each file extracts cleanly from archives.
    pub test_files: bool,
    /// Parallel scan threads (1 = sequential).
    pub workers_num: usize,
}

pub struct WebConfig {
    pub language: String,
    pub theme: String,
}

pub struct UploadConfig {
    /// Master switch for upload functionality.
    pub allow_upload: bool,
    /// Directory where uploaded books are stored before being moved to root_path.
    pub upload_path: String,
    /// Maximum upload file size in megabytes.
    pub max_upload_size_mb: u64,
}

pub struct ReaderConfig {
    /// Master switch for the embedded reader feature.
    pub enable: bool,
    /// Maximum number of reading positions stored per user.
    pub read_history_max: i64,
}

/// Outgoing mail settings.
pub struct SmtpConfig {
    pub host: String,
    pub port: u16,
    pub username: String,
    pub password: String,
    pub from: String,
    pub send_to: Vec<String>,
    pub starttls: bool,
}

impl Default for SmtpConfig {
    fn default() -> (c: SmtpConfig)
        ensures
            c.host@.len() == 0 && c.port == 0 && c.username@.len() == 0 && c.password@.len() == 0
                && c.from@.len() == 0 && c.send_to@.len() == 0 && !c.starttls,
    {
        SmtpConfig {
            host: String::new(),
            port: 0,
            username: String::new(),
            password: String::new(),
            from: String::new(),
            send_to: Vec::new(),
            starttls: false,
        }
    }
}

pub const DEFAULT_COVER_SCALE_TO: u32 = 600;

pub const DEFAULT_COVER_QUALITY: u8 = 85;

/// Validated cover image settings (max dimension and JPEG quality).
#[derive(Debug, Clone, Copy)]
pub struct CoverImageConfig {
    scale_to: u32,
    jpeg_quality: u8,
}

impl CoverImageConfig {
    pub closed spec fn spec_scale_to(&self) -> u32 {
        self.scale_to
    }

    pub closed spec fn spec_jpeg_quality(&self) -> u8 {
        self.jpeg_quality
    }

    /// A zero size means the default 600 px; a quality outside 1..=100 means 85.
    pub fn new(max_size: u32, quality: u8) -> (c: Self)
        ensures
            c.spec_scale_to() == if max_size == 0 {
                DEFAULT_COVER_SCALE_TO
            } else {
                max_size
            },
            c.spec_jpeg_quality() == if 1 <= quality <= 100 {
                quality
            } else {
                DEFAULT_COVER_QUALITY
            },
    {
        let scale_to = if max_size == 0 {
            DEFAULT_COVER_SCALE_TO
        } else {
            max_size
        };
        let jpeg_quality = if 1 <= quality && quality <= 100 {
            quality
        } else {
            DEFAULT_COVER_QUALITY
        };
        CoverImageConfig { scale_to, jpeg_quality }
    }

    /// From the covers section of the configuration.
    pub fn from_covers(cfg: &CoversConfig) -> (c: Self)
        ensures
            c.spec_scale_to() == if cfg.cover_max_dimension_px == 0 {
                DEFAULT_COVER_SCALE_TO
            } else {
                cfg.cover_max_dimension_px
            },
            c.spec_jpeg_quality() == if 1 <= cfg.cover_jpeg_quality <= 100 {
                cfg.cover_jpeg_quality
            } else {
                DEFAULT_COVER_QUALITY
            },
    {
        Self::new(cfg.cover_max_dimension_px, cfg.cover_jpeg_quality)
    }

    pub fn scale_to(&self) -> (r: u32)
        ensures
            r == self.spec_scale_to(),
    {
        self.scale_to
    }

    pub fn jpeg_quality(&self) -> (r: u8)
        ensures
            r == self.spec_jpeg_quality(),
    {
        self.jpeg_quality
    }
}

fn string_of(s: &str) -> (r: String)
    ensures
        r@ == s@,
{
    from_chars(to_chars(s).as_slice())
}

pub fn default_host() -> (r: String)
    ensures
        r@ == "0.0.0.0"@,
{
    string_of("0.0.0.0")
}

pub fn default_port() -> (r: u16)
    ensures
        r == 8081,
{
    8081
}

pub fn default_log_level() -> (r: String)
    ensures
        r@ == "info"@,
{
    string_of("info")
}

pub open spec fn default_book_extensions_spec() -> Seq<Seq<char>> {
    seq!["fb2"@, "epub"@, "mobi"@, "pdf"@, "djvu"@, "doc"@, "docx"@, "zip"@]
}

pub fn default_book_extensions() -> (r: Vec<String>)
    ensures
        r@.map_values(|s: String| s@) == default_book_extensions_spec(),
{
    let mut r: Vec<String> = Vec::new();
    r.push(string_of("fb2"));
    r.push(string_of("epub"));
    r.push(string_of("mobi"));
    r.push(string_of("pdf"));
    r.push(string_of("djvu"));
    r.push(string_of("doc"));
    r.push(string_of("docx"));
    r.push(string_of("zip"));
    proof {
        assert(r@.map_values(|s: String| s@) =~= default_book_extensions_spec());
    }
    r
}

pub fn default_true() -> (r: bool)
    ensures
        r,
{
    true
}

pub fn default_zip_codepage() -> (r: String)
    ensures
        r@ == "cp866"@,
{
    string_of("cp866")
}

pub fn default_db_url() -> (r: String)
    ensures
        r@ == "sqlite://ropds.db"@,
{
    string_of("sqlite://ropds.db")
}

pub fn default_opds_title() -> (r: String)
    ensures
        r@ == "ROPDS"@,
{
    string_of("ROPDS")
}

pub fn default_max_items() -> (r: u32)
    ensures
        r == 30,
{
    30
}

pub fn default_split_items() -> (r: u32)
    ensures
        r == 300,
{
    300
}

pub fn default_covers_path() -> (r: String)
    ensures
        r@ == "covers"@,
{
    string_of("covers")
}

pub fn default_cover_max_dimension_px() -> (r: u32)
    ensures
        r == 600,
{
    600
}

pub fn default_cover_jpeg_quality() -> (r: u8)
    ensures
        r == 85,
{
    85
}

pub fn default_schedule_minutes() -> (r: Vec<u32>)
    ensures
        r@ == seq![0u32],
{
    let r = vec![0u32];
    proof {
        assert(r@ =~= seq![0u32]);
    }
    r
}

pub fn default_schedule_hours() -> (r: Vec<u32>)
    ensures
        r@ == seq![0u32, 12u32],
{
    let r = vec![0u32, 12u32];
    proof {
        assert(r@ =~= seq![0u32, 12u32]);
    }
    r
}

pub fn default_session_ttl_hours() -> (r: u64)
    ensures
        r == 24,
{
    24
}

pub fn default_max_upload_size_mb() -> (r: u64)
    ensures
        r == 100,
{
    100
}

pub fn default_workers_num() -> (r: usize)
    ensures
        r == 1,
{
    1
}

pub fn default_read_history_max() -> (r: i64)
    ensures
        r == 100,
{
    100
}

pub fn default_language() -> (r: String)
    ensures
        r@ == "en"@,
{
    string_of("en")
}

pub fn default_theme() -> (r: String)
    ensures
        r@ == "light"@,
{
    string_of("light")
}

impl CoversConfig {
    /// The defaults of the covers section.
    pub fn defaults() -> (c: CoversConfig)
        ensures
            c.covers_path@ == "covers"@,
            c.cover_max_dimension_px == 600,
            c.cover_jpeg_quality == 85,
            c.show_covers,
    {
        CoversConfig {
            covers_path: default_covers_path(),
            cover_max_dimension_px: default_cover_max_dimension_px(),
            cover_jpeg_quality: default_cover_jpeg_quality(),
            show_covers: default_true(),
        }
    }
}

impl ReaderConfig {
    pub fn defaults() -> (c: ReaderConfig)
        ensures
            c.enable,
            c.read_history_max == 100,
    {
        ReaderConfig { enable: true, read_history_max: default_read_history_max() }
    }
}

impl WebConfig {
    pub fn defaults() -> (c: WebConfig)
        ensures
            c.language@ == "en"@,
            c.theme@ == "light"@,
    {
        WebConfig { language: default_language(), theme: default_theme() }
    }
}

/// The covers section after applying the legacy keys: each legacy value is
/// used only where the covers section still holds its default (for the
/// covers path, any spelling of the path `covers`, such as `covers/`).
pub open spec fn legacy_fallback_spec(old_cfg: Config, new_cfg: Config) -> bool {
    &&& new_cfg.covers.covers_path@ == (if same_path_as_name(old_cfg.covers.covers_path@, "covers"@)
        && old_cfg.library.covers_path is Some {
        old_cfg.library.covers_path->0@
    } else {
        old_cfg.covers.covers_path@
    })
    &&& new_cfg.covers.cover_max_dimension_px == (if old_cfg.covers.cover_max_dimension_px == 600
        && old_cfg.library.cover_max_dimension_px is Some {
        old_cfg.library.cover_max_dimension_px->0
    } else {
        old_cfg.covers.cover_max_dimension_px
    })
    &&& new_cfg.covers.cover_jpeg_quality == (if old_cfg.covers.cover_jpeg_quality == 85
        && old_cfg.library.cover_jpeg_quality is Some {
        old_cfg.library.cover_jpeg_quality->0
    } else {
        old_cfg.covers.cover_jpeg_quality
    })
    &&& new_cfg.covers.show_covers == (if old_cfg.covers.show_covers
        && old_cfg.opds.show_covers is Some {
        old_cfg.opds.show_covers->0
    } else {
        old_cfg.covers.show_covers
    })
    &&& new_cfg.server == old_cfg.server
    &&& new_cfg.library == old_cfg.library
    &&& new_cfg.database == old_cfg.database
    &&& new_cfg.opds == old_cfg.opds
    &&& new_cfg.scanner == old_cfg.scanner
    &&& new_cfg.web == old_cfg.web
    &&& new_cfg.upload == old_cfg.upload
    &&& new_cfg.reader == old_cfg.reader
    &&& new_cfg.smtp == old_cfg.smtp
}

impl Config {
    /// Fill the covers section from the legacy library/opds keys where it was left at its defaults.
    pub fn apply_legacy_cover_fallbacks(&mut self)
        ensures
            legacy_fallback_spec(*old(self), *final(self)),
    {
        if path_is_name(self.covers.covers_path.as_str(), "covers") {
            match &self.library.covers_path {
                Some(path) => {
                    self.covers.covers_path = string_of(path.as_str());
                },
                None => {},
            }
        }
        if self.covers.cover_max_dimension_px == 600 {
            match self.library.cover_max_dimension_px {
                Some(max_px) => {
                    self.covers.cover_max_dimension_px = max_px;
                },
                None => {},
            }
        }
        if self.covers.cover_jpeg_quality == 85 {
            match self.library.cover_jpeg_quality {
                Some(q) => {
                    self.covers.cover_jpeg_quality = q;
                },
                None => {},
            }
        }
        if self.covers.show_covers {
            match self.opds.show_covers {
                Some(show) => {
                    self.covers.show_covers = show;
                },
                None => {},
            }
        }
    }
}

/// Returns true if SMTP is configured (host + from + at least one recipient).
pub fn is_email_configured(cfg: &SmtpConfig) -> (r: bool)
    ensures
        r == (cfg.host@.len() > 0 && cfg.from@.len() > 0 && cfg.send_to@.len() > 0),
{
    cfg.host.as_str().unicode_len() > 0 && cfg.from.as_str().unicode_len() > 0 && cfg.send_to.len()
        > 0
}

} // verus!
