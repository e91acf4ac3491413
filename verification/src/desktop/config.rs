//! Application configuration: its sections, their defaults, and the edits
//! the application makes to it (device identity, pre-shared key, trusted
//! devices, per-service settings). Reading and writing the file is the
//! application's part.

use vstd::prelude::*;

use base64::Engine;

use crate::crypto::fill_random;
use crate::error::ProtocolError;
use crate::pb::{clone_bytes, DeviceId};
use crate::search::{first_where, lemma_first_where, lemma_first_where_extend, lemma_first_where_step};

verus! {

broadcast use vstd::string::group_string_axioms;

#[verifier::external_type_specification]
#[verifier::external_body]
pub struct ExJsonValue(serde_json::Value);

#[verifier::external_type_specification]
#[verifier::external_body]
pub struct ExDecodeError(base64::DecodeError);

/// The standard (padded) base64 text of `bytes`.
pub uninterp spec fn base64_standard_encode(bytes: Seq<u8>) -> Seq<char>;

/// The bytes that the standard base64 text `text` decodes to, if it is valid.
pub uninterp spec fn base64_standard_decode(text: Seq<char>) -> Option<Seq<u8>>;

/// The bytes carried by a successful decoding.
pub open spec fn decoded_bytes(r: Result<Vec<u8>, base64::DecodeError>) -> Option<Seq<u8>> {
    match r {
        Ok(v) => Some(v@),
        Err(_) => None,
    }
}

/// Encodes bytes as standard base64 with padding.
///
/// Trusted: calls `Engine::encode` on `base64::engine::general_purpose::STANDARD`.
/// The crate panics when the length of the text overflows `usize`, which
/// `requires` rules out. The text is named; decoding it gives the bytes back,
/// as the crate documents for one engine.
#[verifier::external_body]
pub(crate) fn base64_encode(bytes: &[u8]) -> (r: String)
    requires
        4 * ((bytes@.len() + 2) / 3) <= usize::MAX,
    ensures
        r@ == base64_standard_encode(bytes@),
        base64_standard_decode(r@) == Some(bytes@),
{
    base64::engine::general_purpose::STANDARD.encode(bytes)
}

/// Decodes standard base64 with padding.
///
/// Trusted: calls `Engine::decode` on `base64::engine::general_purpose::STANDARD`;
/// what it gives is named, and it refuses exactly the texts that name has no bytes for.
#[verifier::external_body]
pub(crate) fn base64_decode(text: &str) -> (r: Result<Vec<u8>, base64::DecodeError>)
    ensures
        decoded_bytes(r) == base64_standard_decode(text@),
{
    base64::engine::general_purpose::STANDARD.decode(text)
}

/// The message of a base64 decoding error.
///
/// Trusted: calls `ToString::to_string` on `base64::DecodeError` (its
/// `Display`); the text is not stated.
#[verifier::external_body]
fn decode_error_text(e: &base64::DecodeError) -> String {
    e.to_string()
}

/// An empty JSON object.
///
/// Trusted: builds `serde_json::Value::Object` from `serde_json::Map::new()`.
#[verifier::external_body]
fn empty_json_object() -> serde_json::Value {
    serde_json::Value::Object(serde_json::Map::new())
}

/// A copy of a JSON value.
///
/// Trusted: calls `Clone::clone` on `serde_json::Value`, whose derived
/// clone copies the value.
#[verifier::external_body]
fn clone_json(v: &serde_json::Value) -> (r: serde_json::Value)
    ensures
        r == *v,
{
    v.clone()
}

/// Whether the string `s` reads `lit`.
fn str_is(s: &str, lit: &str) -> (r: bool)
    ensures
        r == (s@ == lit@),
{
    s.to_owned() == lit.to_owned()
}

/// Bluetooth configuration.
#[derive(Debug)]
pub struct BluetoothConfig {
    pub adapter_id: Option<String>,
    pub service_uuid: String,
    pub device_name: String,
    pub auto_connect: bool,
    pub reconnect_interval_sec: u64,
    pub max_reconnect_attempts: u32,
}

impl Clone for BluetoothConfig {
    fn clone(&self) -> (r: Self)
        ensures
            r == *self,
    {
        BluetoothConfig {
            adapter_id: match &self.adapter_id { Some(s) => Some(s.clone()), None => None },
            service_uuid: self.service_uuid.clone(),
            device_name: self.device_name.clone(),
            auto_connect: self.auto_connect,
            reconnect_interval_sec: self.reconnect_interval_sec,
            max_reconnect_attempts: self.max_reconnect_attempts,
        }
    }
}

impl Default for BluetoothConfig {
    fn default() -> (r: Self)
        ensures
            r.adapter_id is None,
            r.service_uuid@ == "B7E5E0F0-1A2B-4C3D-8E9F-A0B1C2D3E4F5"@,
            r.device_name@ == "BPL Desktop"@,
            r.auto_connect,
            r.reconnect_interval_sec == 30,
            r.max_reconnect_attempts == 10,
    {
        BluetoothConfig {
            adapter_id: None,
            service_uuid: "B7E5E0F0-1A2B-4C3D-8E9F-A0B1C2D3E4F5".to_string(),
            device_name: "BPL Desktop".to_string(),
            auto_connect: true,
            reconnect_interval_sec: 30,
            max_reconnect_attempts: 10,
        }
    }
}

/// Database configuration.
#[derive(Debug)]
pub struct DatabaseConfig {
    pub path: String,
    pub max_connections: u32,
    pub backup_enabled: bool,
    pub backup_interval_hours: u32,
    pub backup_dir: Option<String>,
}

impl Clone for DatabaseConfig {
    fn clone(&self) -> (r: Self)
        ensures
            r == *self,
    {
        DatabaseConfig {
            path: self.path.clone(),
            max_connections: self.max_connections,
            backup_enabled: self.backup_enabled,
            backup_interval_hours: self.backup_interval_hours,
            backup_dir: match &self.backup_dir { Some(s) => Some(s.clone()), None => None },
        }
    }
}

impl Default for DatabaseConfig {
    fn default() -> (r: Self)
        ensures
            r.path@ == "bpl.db"@,
            r.max_connections == 5,
            r.backup_enabled,
            r.backup_interval_hours == 24,
            r.backup_dir is None,
    {
        DatabaseConfig {
            path: "bpl.db".to_string(),
            max_connections: 5,
            backup_enabled: true,
            backup_interval_hours: 24,
            backup_dir: None,
        }
    }
}

/// Logging configuration.
#[derive(Debug)]
pub struct LoggingConfig {
    pub level: String,
    /// `json`, `text` or `compact`.
    pub format: String,
    /// `stdout`, `file` or `both`.
    pub output: String,
    pub file_path: Option<String>,
    pub max_file_size_mb: u64,
    pub max_files: u32,
}

impl Clone for LoggingConfig {
    fn clone(&self) -> (r: Self)
        ensures
            r == *self,
    {
        LoggingConfig {
            level: self.level.clone(),
            format: self.format.clone(),
            output: self.output.clone(),
            file_path: match &self.file_path { Some(s) => Some(s.clone()), None => None },
            max_file_size_mb: self.max_file_size_mb,
            max_files: self.max_files,
        }
    }
}

impl Default for LoggingConfig {
    fn default() -> (r: Self)
        ensures
            r.level@ == "info"@,
            r.format@ == "json"@,
            r.output@ == "stdout"@,
            r.file_path is None,
            r.max_file_size_mb == 100,
            r.max_files == 10,
    {
        LoggingConfig {
            level: "info".to_string(),
            format: "json".to_string(),
            output: "stdout".to_string(),
            file_path: None,
            max_file_size_mb: 100,
            max_files: 10,
        }
    }
}

/// Security configuration.
#[derive(Debug)]
pub struct SecurityConfig {
    /// The pre-shared key in base64.
    pub psk: Option<String>,
    pub require_authentication: bool,
    pub session_timeout_sec: u64,
    pub max_failed_attempts: u32,
    pub lockout_duration_sec: u64,
}

impl Clone for SecurityConfig {
    fn clone(&self) -> (r: Self)
        ensures
            r == *self,
    {
        SecurityConfig {
            psk: match &self.psk { Some(s) => Some(s.clone()), None => None },
            require_authentication: self.require_authentication,
            session_timeout_sec: self.session_timeout_sec,
            max_failed_attempts: self.max_failed_attempts,
            lockout_duration_sec: self.lockout_duration_sec,
        }
    }
}

impl Default for SecurityConfig {
    fn default() -> (r: Self)
        ensures
            r.psk is None,
            r.require_authentication,
            r.session_timeout_sec == 3600,
            r.max_failed_attempts == 5,
            r.lockout_duration_sec == 300,
    {
        SecurityConfig {
            psk: None,
            require_authentication: true,
            session_timeout_sec: 3600,
            max_failed_attempts: 5,
            lockout_duration_sec: 300,
        }
    }
}

/// Settings of one service.
#[derive(Debug)]
pub struct ServiceSettings {
    pub enabled: bool,
    pub settings: serde_json::Value,
}

impl Clone for ServiceSettings {
    fn clone(&self) -> (r: Self)
        ensures
            r == *self,
    {
        ServiceSettings { enabled: self.enabled, settings: clone_json(&self.settings) }
    }
}

/// Settings of an enabled or disabled service with no settings.
fn default_settings(enabled: bool) -> (r: ServiceSettings)
    ensures
        r.enabled == enabled,
{
    ServiceSettings { enabled, settings: empty_json_object() }
}

/// Settings of every service.
#[derive(Debug)]
pub struct ServicesConfig {
    pub filesystem: ServiceSettings,
    pub sync: ServiceSettings,
    pub photo_backup: ServiceSettings,
    pub shell: ServiceSettings,
    pub media_control: ServiceSettings,
    pub phone_fs: ServiceSettings,
    pub proximity: ServiceSettings,
    pub file_stream: ServiceSettings,
    pub app_launcher: ServiceSettings,
    pub config: ServiceSettings,
}

impl Clone for ServicesConfig {
    fn clone(&self) -> (r: Self)
        ensures
            r == *self,
    {
        ServicesConfig {
            filesystem: self.filesystem.clone(),
            sync: self.sync.clone(),
            photo_backup: self.photo_backup.clone(),
            shell: self.shell.clone(),
            media_control: self.media_control.clone(),
            phone_fs: self.phone_fs.clone(),
            proximity: self.proximity.clone(),
            file_stream: self.file_stream.clone(),
            app_launcher: self.app_launcher.clone(),
            config: self.config.clone(),
        }
    }
}

impl Default for ServicesConfig {
    /// Every service enabled but photo backup, none with settings.
    fn default() -> (r: Self)
        ensures
            r.filesystem.enabled,
            r.sync.enabled,
            !r.photo_backup.enabled,
            r.shell.enabled,
            r.media_control.enabled,
            r.phone_fs.enabled,
            r.proximity.enabled,
            r.file_stream.enabled,
            r.app_launcher.enabled,
            r.config.enabled,
    {
        ServicesConfig {
            filesystem: default_settings(true),
            sync: default_settings(true),
            photo_backup: default_settings(false),
            shell: default_settings(true),
            media_control: default_settings(true),
            phone_fs: default_settings(true),
            proximity: default_settings(true),
            file_stream: default_settings(true),
            app_launcher: default_settings(true),
            config: default_settings(true),
        }
    }
}

/// A trusted device.
#[derive(Debug)]
pub struct TrustedDevice {
    /// The device identifier in base64.
    pub device_id: String,
    pub name: String,
    /// ISO 8601.
    pub paired_at: String,
    /// ISO 8601.
    pub last_seen: String,
    pub trusted: bool,
    /// A pre-shared key of this device, in base64.
    pub psk: Option<String>,
}

impl Clone for TrustedDevice {
    fn clone(&self) -> (r: Self)
        ensures
            r == *self,
    {
        TrustedDevice {
            device_id: self.device_id.clone(),
            name: self.name.clone(),
            paired_at: self.paired_at.clone(),
            last_seen: self.last_seen.clone(),
            trusted: self.trusted,
            psk: match &self.psk { Some(s) => Some(s.clone()), None => None },
        }
    }
}

/// Device identity and trusted devices.
#[derive(Debug)]
pub struct DeviceConfig {
    /// This device's identifier in base64.
    pub device_id: Option<String>,
    pub trusted_devices: Vec<TrustedDevice>,
}

/// Copies a list of trusted devices.
fn clone_devices(v: &Vec<TrustedDevice>) -> (r: Vec<TrustedDevice>)
    ensures
        r@ == v@,
{
    let mut r: Vec<TrustedDevice> = Vec::new();
    let mut i: usize = 0;
    while i < v.len()
        invariant
            i <= v@.len(),
            r@ == v@.take(i as int),
        decreases v@.len() - i,
    {
        r.push(v[i].clone());
        i = i + 1;
        assert(r@ =~= v@.take(i as int));
    }
    assert(v@.take(v@.len() as int) =~= v@);
    r
}

impl Clone for DeviceConfig {
    fn clone(&self) -> (r: Self)
        ensures
            r.device_id == self.device_id,
            r.trusted_devices@ == self.trusted_devices@,
    {
        DeviceConfig {
            device_id: match &self.device_id { Some(s) => Some(s.clone()), None => None },
            trusted_devices: clone_devices(&self.trusted_devices),
        }
    }
}

impl Default for DeviceConfig {
    fn default() -> (r: Self)
        ensures
            r.device_id is None,
            r.trusted_devices@.len() == 0,
    {
        DeviceConfig { device_id: None, trusted_devices: Vec::new() }
    }
}

/// The whole application configuration.
#[derive(Debug)]
pub struct AppConfig {
    pub bluetooth: BluetoothConfig,
    pub database: DatabaseConfig,
    pub logging: LoggingConfig,
    pub security: SecurityConfig,
    pub services: ServicesConfig,
    pub device: DeviceConfig,
}

/// `a` and `b` hold the same configuration.
pub open spec fn same_config(a: AppConfig, b: AppConfig) -> bool {
    &&& a.bluetooth == b.bluetooth
    &&& a.database == b.database
    &&& a.logging == b.logging
    &&& a.security == b.security
    &&& a.services == b.services
    &&& a.device.device_id == b.device.device_id
    &&& a.device.trusted_devices@ == b.device.trusted_devices@
}

impl Clone for AppConfig {
    fn clone(&self) -> (r: Self)
        ensures
            same_config(r, *self),
    {
        AppConfig {
            bluetooth: self.bluetooth.clone(),
            database: self.database.clone(),
            logging: self.logging.clone(),
            security: self.security.clone(),
            services: self.services.clone(),
            device: self.device.clone(),
        }
    }
}

impl Default for AppConfig {
    fn default() -> (r: Self)
        ensures
            r.bluetooth.adapter_id is None,
            r.bluetooth.device_name@ == "BPL Desktop"@,
            r.database.path@ == "bpl.db"@,
            r.logging.level@ == "info"@,
            r.security.psk is None,
            r.services.filesystem.enabled,
            !r.services.photo_backup.enabled,
            r.device.device_id is None,
            r.device.trusted_devices@.len() == 0,
    {
        AppConfig {
            bluetooth: BluetoothConfig::default(),
            database: DatabaseConfig::default(),
            logging: LoggingConfig::default(),
            security: SecurityConfig::default(),
            services: ServicesConfig::default(),
            device: DeviceConfig::default(),
        }
    }
}

/// An RFC 3339 time text in UTC as chrono writes it: at least a date,
/// `T`, a time to the second, and the offset `+00:00` at the end.
pub open spec fn utc_time_text(s: Seq<char>) -> bool {
    &&& s.len() >= 25
    &&& s.subrange(s.len() - 6, s.len() as int) == "+00:00"@
}

/// The current time as an RFC 3339 text.
///
/// Trusted: reads `std::time::SystemTime::now`, turns it into a
/// `chrono::DateTime<Utc>` with chrono's `From<SystemTime>` (which, unlike
/// `Utc::now`, also takes a clock set before 1970) and writes it with
/// `to_rfc3339`. Its writer puts at least four year digits, month, day, `T`,
/// hours, minutes and seconds, and for the zero offset of `Utc` ends with
/// `+00:00` (no `Z`); the reading itself is not stated. chrono gives up only
/// on a clock more than about 262,000 years from 1970, which this contract
/// leaves unsaid.
#[verifier::external_body]
fn utc_now_rfc3339() -> (r: String)
    ensures
        utc_time_text(r@),
{
    chrono::DateTime::<chrono::Utc>::from(std::time::SystemTime::now()).to_rfc3339()
}

/// The stored device identifier, when it decodes to 16 bytes.
pub open spec fn stored_device_id(c: AppConfig) -> Option<Seq<u8>> {
    match c.device.device_id {
        Some(s) => match base64_standard_decode(s@) {
            Some(b) => if b.len() == 16 { Some(b) } else { None },
            None => None,
        },
        None => None,
    }
}

/// The stored pre-shared key, when it decodes.
pub open spec fn stored_psk(c: AppConfig) -> Option<Seq<u8>> {
    match c.security.psk {
        Some(s) => base64_standard_decode(s@),
        None => None,
    }
}

/// `c` with only its device section changed to `device`.
pub open spec fn with_device(c: AppConfig, b: AppConfig) -> bool {
    &&& c.bluetooth == b.bluetooth
    &&& c.database == b.database
    &&& c.logging == b.logging
    &&& c.security == b.security
    &&& c.services == b.services
}

/// The trusted devices other than `device_id`, in order.
pub open spec fn without_device(s: Seq<TrustedDevice>, device_id: Seq<char>) -> Seq<TrustedDevice>
    decreases s.len(),
{
    if s.len() == 0 {
        s
    } else {
        let rest = without_device(s.drop_last(), device_id);
        if s.last().device_id@ != device_id {
            rest.push(s.last())
        } else {
            rest
        }
    }
}

/// Matches the trusted devices with identifier `device_id`.
pub open spec fn device_pred(s: Seq<TrustedDevice>, device_id: Seq<char>) -> spec_fn(int) -> bool {
    |i: int| s[i].device_id@ == device_id
}

/// Index of the first trusted device with identifier `device_id`, or -1.
pub open spec fn find_device(s: Seq<TrustedDevice>, device_id: Seq<char>) -> int {
    first_where(device_pred(s, device_id), s.len() as int)
}

/// The service whose settings `service` names, by its key in the configuration file.
pub open spec fn service_settings_of(services: ServicesConfig, service: Seq<char>) -> Option<ServiceSettings> {
    if service == "filesystem"@ { Some(services.filesystem) }
    else if service == "sync"@ { Some(services.sync) }
    else if service == "photo_backup"@ { Some(services.photo_backup) }
    else if service == "shell"@ { Some(services.shell) }
    else if service == "media_control"@ { Some(services.media_control) }
    else if service == "phone_fs"@ { Some(services.phone_fs) }
    else if service == "proximity"@ { Some(services.proximity) }
    else if service == "file_stream"@ { Some(services.file_stream) }
    else if service == "app_launcher"@ { Some(services.app_launcher) }
    else if service == "config"@ { Some(services.config) }
    else { None }
}

/// `services` with the settings of `service` replaced by `settings`.
pub open spec fn services_with(services: ServicesConfig, service: Seq<char>, settings: ServiceSettings) -> ServicesConfig {
    if service == "filesystem"@ { ServicesConfig { filesystem: settings, ..services } }
    else if service == "sync"@ { ServicesConfig { sync: settings, ..services } }
    else if service == "photo_backup"@ { ServicesConfig { photo_backup: settings, ..services } }
    else if service == "shell"@ { ServicesConfig { shell: settings, ..services } }
    else if service == "media_control"@ { ServicesConfig { media_control: settings, ..services } }
    else if service == "phone_fs"@ { ServicesConfig { phone_fs: settings, ..services } }
    else if service == "proximity"@ { ServicesConfig { proximity: settings, ..services } }
    else if service == "file_stream"@ { ServicesConfig { file_stream: settings, ..services } }
    else if service == "app_launcher"@ { ServicesConfig { app_launcher: settings, ..services } }
    else if service == "config"@ { ServicesConfig { config: settings, ..services } }
    else { services }
}

/// The configuration of the application and the file it lives in.
pub struct ConfigManager {
    config: AppConfig,
    config_path: String,
}

impl ConfigManager {
    /// The configuration held.
    pub closed spec fn config(&self) -> AppConfig {
        self.config
    }

    /// The file the configuration lives in.
    pub closed spec fn path(&self) -> Seq<char> {
        self.config_path@
    }

    /// A manager of `config`, kept in the file `config_path`.
    pub fn new(config: AppConfig, config_path: String) -> (r: Self)
        ensures
            r.config() == config,
            r.path() == config_path@,
    {
        ConfigManager { config, config_path }
    }

    /// The file the configuration lives in.
    pub fn config_path(&self) -> (r: &String)
        ensures
            r@ == self.path(),
    {
        &self.config_path
    }

    /// A copy of the configuration.
    pub fn get(&self) -> (r: AppConfig)
        ensures
            same_config(r, self.config()),
    {
        self.config.clone()
    }

    /// The configuration, for editing.
    pub fn get_mut(&mut self) -> (r: &mut AppConfig)
        ensures
            *r == old(self).config(),
            final(self).config() == *final(r),
            final(self).path() == old(self).path(),
    {
        &mut self.config
    }

    /// This device's identifier: the stored one when it decodes to 16 bytes,
    /// otherwise a fresh random one, which is stored in base64. A stored
    /// identifier that is not base64 is an error.
    pub fn get_or_create_device_id(&mut self) -> (r: Result<DeviceId, ProtocolError>)
        ensures
            final(self).path() == old(self).path(),
            r matches Ok(id) ==> stored_device_id(final(self).config()) == Some(id.value@),
            match stored_device_id(old(self).config()) {
                Some(b) => r matches Ok(id) && id.value@ == b && final(self).config() == old(self).config(),
                None => {
                    if old(self).config().device.device_id matches Some(s) && base64_standard_decode(s@) is None {
                        &&& r matches Err(ProtocolError::Config(m)) && m@.take(19) == "Invalid device ID: "@
                        &&& final(self).config() == old(self).config()
                    } else {
                        &&& r matches Ok(id) && id.value@.len() == 16 && stored_device_id(final(self).config()) == Some(id.value@)
                            && (final(self).config().device.device_id matches Some(t) && t@ == base64_standard_encode(id.value@))
                        &&& with_device(final(self).config(), old(self).config())
                        &&& final(self).config().device.trusted_devices == old(self).config().device.trusted_devices
                    }
                },
            },
    {
        match &self.config.device.device_id {
            Some(s) => {
                match base64_decode(s.as_str()) {
                    Ok(bytes) => {
                        if bytes.len() == 16 {
                            return Ok(DeviceId { value: bytes });
                        }
                    },
                    Err(e) => {
                        let mut m = "Invalid device ID: ".to_string();
                        let text = decode_error_text(&e);
                        m.append(text.as_str());
                        proof {
                            reveal_strlit("Invalid device ID: ");
                            assert(m@.take(19) =~= "Invalid device ID: "@);
                        }
                        return Err(ProtocolError::Config(m));
                    },
                }
            },
            None => {},
        }
        let mut bytes = [0u8; 16];
        fill_random(&mut bytes);
        let encoded = base64_encode(bytes.as_slice());
        self.config.device.device_id = Some(encoded);
        Ok(DeviceId { value: clone_bytes(bytes.as_slice()) })
    }

    /// The pre-shared key, when one is stored and decodes.
    pub fn get_psk(&self) -> (r: Option<Vec<u8>>)
        ensures
            match stored_psk(self.config()) {
                Some(b) => r matches Some(v) && v@ == b,
                None => r is None,
            },
    {
        match &self.config.security.psk {
            Some(s) => match base64_decode(s.as_str()) {
                Ok(v) => Some(v),
                Err(_) => None,
            },
            None => None,
        }
    }

    /// Stores `psk` in base64.
    pub fn set_psk(&mut self, psk: Vec<u8>)
        requires
            4 * ((psk@.len() + 2) / 3) <= usize::MAX,
        ensures
            stored_psk(final(self).config()) == Some(psk@),
            final(self).config().security.psk matches Some(t) && t@ == base64_standard_encode(psk@),
            final(self).config().bluetooth == old(self).config().bluetooth,
            final(self).config().database == old(self).config().database,
            final(self).config().logging == old(self).config().logging,
            final(self).config().services == old(self).config().services,
            final(self).config().device == old(self).config().device,
            final(self).config().security.require_authentication == old(self).config().security.require_authentication,
            final(self).path() == old(self).path(),
    {
        let encoded = base64_encode(psk.as_slice());
        let ghost e = encoded;
        self.config.security.psk = Some(encoded);
        proof {
            assert(e@ == base64_standard_encode(psk@));
        }
    }

    /// Trusts `device`: it replaces every entry with its identifier and goes last.
    pub fn add_trusted_device(&mut self, device: TrustedDevice)
        ensures
            final(self).config().device.trusted_devices@ == without_device(old(self).config().device.trusted_devices@, device.device_id@).push(device),
            final(self).config().device.device_id == old(self).config().device.device_id,
            with_device(final(self).config(), old(self).config()),
            final(self).path() == old(self).path(),
    {
        let id = device.device_id.clone();
        self.remove_trusted_device(id.as_str());
        self.config.device.trusted_devices.push(device);
    }

    /// Stops trusting the devices with identifier `device_id`.
    pub fn remove_trusted_device(&mut self, device_id: &str)
        ensures
            final(self).config().device.trusted_devices@ == without_device(old(self).config().device.trusted_devices@, device_id@),
            final(self).config().device.device_id == old(self).config().device.device_id,
            with_device(final(self).config(), old(self).config()),
            final(self).path() == old(self).path(),
    {
        let ghost s = self.config.device.trusted_devices@;
        let mut kept: Vec<TrustedDevice> = Vec::new();
        let mut i: usize = 0;
        while i < self.config.device.trusted_devices.len()
            invariant
                i <= s.len(),
                s == self.config.device.trusted_devices@,
                kept@ == without_device(s.take(i as int), device_id@),
            decreases s.len() - i,
        {
            let d = &self.config.device.trusted_devices[i];
            let keep = !str_is(d.device_id.as_str(), device_id);
            if keep {
                kept.push(d.clone());
            }
            proof {
                assert(s.take(i + 1).drop_last() =~= s.take(i as int));
            }
            i = i + 1;
        }
        assert(s.take(s.len() as int) =~= s);
        self.config.device.trusted_devices = kept;
    }

    /// Copies of the trusted devices.
    pub fn get_trusted_devices(&self) -> (r: Vec<TrustedDevice>)
        ensures
            r@ == self.config().device.trusted_devices@,
    {
        clone_devices(&self.config.device.trusted_devices)
    }

    /// A copy of the first trusted device with identifier `device_id`.
    pub fn get_trusted_device(&self, device_id: &str) -> (r: Option<TrustedDevice>)
        ensures
            ({
                let s = self.config().device.trusted_devices@;
                let i = find_device(s, device_id@);
                if i >= 0 { r == Some(s[i]) } else { r is None }
            }),
    {
        match self.device_position(device_id) {
            Some(i) => Some(self.config.device.trusted_devices[i].clone()),
            None => None,
        }
    }

    /// Index of the first trusted device with identifier `device_id`.
    fn device_position(&self, device_id: &str) -> (r: Option<usize>)
        ensures
            ({
                let s = self.config().device.trusted_devices@;
                match r {
                    Some(i) => i == find_device(s, device_id@) && i < s.len(),
                    None => find_device(s, device_id@) == -1,
                }
            }),
    {
        let ghost s = self.config.device.trusted_devices@;
        let ghost pred = device_pred(s, device_id@);
        let mut i: usize = 0;
        while i < self.config.device.trusted_devices.len()
            invariant
                i <= s.len(),
                s == self.config.device.trusted_devices@,
                pred == device_pred(s, device_id@),
                first_where(pred, i as int) == -1,
            decreases s.len() - i,
        {
            proof {
                lemma_first_where_step(pred, i as int);
            }
            if str_is(self.config.device.trusted_devices[i].device_id.as_str(), device_id) {
                proof {
                    assert(pred(i as int));
                    lemma_first_where_extend(pred, i as int + 1, s.len() as int);
                }
                return Some(i);
            }
            i = i + 1;
        }
        None
    }

    /// Records that the first trusted device with identifier `device_id` was seen at `now`.
    pub fn update_device_last_seen_at(&mut self, device_id: &str, now: String)
        ensures
            ({
                let s = old(self).config().device.trusted_devices@;
                let i = find_device(s, device_id@);
                final(self).config().device.trusted_devices@ == if i >= 0 {
                    s.update(i, TrustedDevice { last_seen: now, ..s[i] })
                } else {
                    s
                }
            }),
            final(self).config().device.device_id == old(self).config().device.device_id,
            with_device(final(self).config(), old(self).config()),
            final(self).path() == old(self).path(),
    {
        match self.device_position(device_id) {
            Some(i) => {
                let mut d = self.config.device.trusted_devices.remove(i);
                d.last_seen = now;
                self.config.device.trusted_devices.insert(i, d);
            },
            None => {},
        }
    }

    /// Records that the first trusted device with identifier `device_id` was
    /// seen now: its last-seen text becomes the current UTC time.
    pub fn update_device_last_seen(&mut self, device_id: &str)
        ensures
            ({
                let s = old(self).config().device.trusted_devices@;
                let i = find_device(s, device_id@);
                &&& final(self).config().device.trusted_devices@.len() == s.len()
                &&& forall|j: int| 0 <= j < s.len() && j != i ==> final(self).config().device.trusted_devices@[j] == s[j]
                &&& i >= 0 ==> ({
                    let d = final(self).config().device.trusted_devices@[i];
                    &&& d == (TrustedDevice { last_seen: d.last_seen, ..s[i] })
                    &&& utc_time_text(d.last_seen@)
                })
            }),
            final(self).config().device.device_id == old(self).config().device.device_id,
            with_device(final(self).config(), old(self).config()),
            final(self).path() == old(self).path(),
    {
        let ghost s = self.config.device.trusted_devices@;
        proof {
            lemma_first_where(device_pred(s, device_id@), s.len() as int);
        }
        let now = utc_now_rfc3339();
        self.update_device_last_seen_at(device_id, now);
    }

    /// A copy of the settings of `service`, or `None` for an unknown service.
    pub fn get_service_settings(&self, service: &str) -> (r: Option<ServiceSettings>)
        ensures
            r == service_settings_of(self.config().services, service@),
    {
        let services = &self.config.services;
        if str_is(service, "filesystem") { Some(services.filesystem.clone()) }
        else if str_is(service, "sync") { Some(services.sync.clone()) }
        else if str_is(service, "photo_backup") { Some(services.photo_backup.clone()) }
        else if str_is(service, "shell") { Some(services.shell.clone()) }
        else if str_is(service, "media_control") { Some(services.media_control.clone()) }
        else if str_is(service, "phone_fs") { Some(services.phone_fs.clone()) }
        else if str_is(service, "proximity") { Some(services.proximity.clone()) }
        else if str_is(service, "file_stream") { Some(services.file_stream.clone()) }
        else if str_is(service, "app_launcher") { Some(services.app_launcher.clone()) }
        else if str_is(service, "config") { Some(services.config.clone()) }
        else { None }
    }

    /// Replaces the settings of `service`; an unknown service is an error.
    pub fn update_service_settings(&mut self, service: &str, settings: ServiceSettings) -> (r: Result<(), ProtocolError>)
        ensures
            final(self).path() == old(self).path(),
            service_settings_of(old(self).config().services, service@) is Some ==> {
                &&& r is Ok
                &&& final(self).config().services == services_with(old(self).config().services, service@, settings)
            },
            service_settings_of(old(self).config().services, service@) is None ==> {
                &&& r matches Err(ProtocolError::Config(m)) && m@ == "Unknown service: "@ + service@
                &&& final(self).config().services == old(self).config().services
            },
            final(self).config().bluetooth == old(self).config().bluetooth,
            final(self).config().database == old(self).config().database,
            final(self).config().logging == old(self).config().logging,
            final(self).config().security == old(self).config().security,
            final(self).config().device == old(self).config().device,
    {
        if str_is(service, "filesystem") { self.config.services.filesystem = settings; }
        else if str_is(service, "sync") { self.config.services.sync = settings; }
        else if str_is(service, "photo_backup") { self.config.services.photo_backup = settings; }
        else if str_is(service, "shell") { self.config.services.shell = settings; }
        else if str_is(service, "media_control") { self.config.services.media_control = settings; }
        else if str_is(service, "phone_fs") { self.config.services.phone_fs = settings; }
        else if str_is(service, "proximity") { self.config.services.proximity = settings; }
        else if str_is(service, "file_stream") { self.config.services.file_stream = settings; }
        else if str_is(service, "app_launcher") { self.config.services.app_launcher = settings; }
        else if str_is(service, "config") { self.config.services.config = settings; }
        else {
            let mut m = "Unknown service: ".to_string();
            m.append(service);
            return Err(ProtocolError::Config(m));
        }
        Ok(())
    }
}

impl Default for ConfigManager {
    fn default() -> (r: Self)
        ensures
            r.config().device.device_id is None,
            r.config().security.psk is None,
            r.config().device.trusted_devices@.len() == 0,
            r.path() == Seq::<char>::empty(),
    {
        ConfigManager { config: AppConfig::default(), config_path: String::new() }
    }
}

/// Reads a pre-shared key given in base64; it must decode to exactly 32 bytes.
pub fn parse_psk(text: &str) -> (r: Result<Vec<u8>, ProtocolError>)
    ensures
        match base64_standard_decode(text@) {
            None => r matches Err(ProtocolError::Config(m)) && m@ == "Invalid base64 PSK"@,
            Some(b) => if b.len() == 32 {
                r matches Ok(v) && v@ == b
            } else {
                r matches Err(ProtocolError::Config(m)) && m@ == "PSK must be 32 bytes (base64 encoded)"@
            },
        },
{
    match base64_decode(text) {
        Ok(v) => {
            if v.len() == 32 {
                Ok(v)
            } else {
                Err(ProtocolError::Config("PSK must be 32 bytes (base64 encoded)".to_string()))
            }
        },
        Err(_) => Err(ProtocolError::Config("Invalid base64 PSK".to_string())),
    }
}

/// A fresh random 32-byte pre-shared key, in base64.
pub fn generate_psk() -> (r: String)
    ensures
        base64_standard_decode(r@) matches Some(b) && b.len() == 32,
{
    let mut psk = [0u8; 32];
    fill_random(&mut psk);
    base64_encode(psk.as_slice())
}

} // verus!
