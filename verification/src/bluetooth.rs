//! Bluetooth RFCOMM link: connection parameters, the state of clients,
//! servers and streams, and the buffering of received data. The radio calls
//! belong to the platform layer of the application.

use vstd::prelude::*;
use vstd::string::StringSliceAdditionalSpecFns;

use crate::error::ProtocolError;
use crate::frame::copy_range;
use crate::pb::{clone_bytes, DeviceId};
use vstd::utf8::encode_utf8;
use crate::search::{first_where, lemma_first_where_extend, lemma_first_where_step};

verus! {

broadcast use vstd::string::group_string_axioms;

/// RFCOMM service UUID of the serial port profile.
pub const BPL_RFCOMM_SERVICE_UUID: &'static str = "00001101-0000-1000-8000-00805F9B34FB";

/// UUID of the dedicated BPL service.
pub const BPL_CUSTOM_SERVICE_UUID: &'static str = "B7E5E0F0-1A2B-4C3D-8E9F-A0B1C2D3E4F5";

/// A Bluetooth device.
#[derive(Debug, Clone)]
pub struct BluetoothDevice {
    pub id: DeviceId,
    pub name: Option<String>,
    pub address: String,
    pub paired: bool,
    pub connected: bool,
    pub rssi: Option<i16>,
    pub device_class: Option<u32>,
    pub services: Vec<String>,
}

/// Parameters of a connection.
#[derive(Debug, Clone, Copy)]
pub struct ConnectionParams {
    pub mtu: u16,
    pub timeout_ms: u32,
    pub retry_count: u32,
    pub retry_delay_ms: u32,
}

impl Default for ConnectionParams {
    /// An MTU of 1024, a 10 s timeout and 3 retries 1 s apart.
    fn default() -> (r: Self)
        ensures
            r.mtu == 1024,
            r.timeout_ms == 10000,
            r.retry_count == 3,
            r.retry_delay_ms == 1000,
    {
        ConnectionParams { mtu: 1024, timeout_ms: 10000, retry_count: 3, retry_delay_ms: 1000 }
    }
}

/// Statistics of a stream.
#[derive(Debug, Clone, Copy)]
pub struct StreamStats {
    pub bytes_read: u64,
    pub bytes_written: u64,
    pub closed: bool,
}

impl Default for StreamStats {
    fn default() -> (r: Self)
        ensures
            r.bytes_read == 0,
            r.bytes_written == 0,
            !r.closed,
    {
        StreamStats { bytes_read: 0, bytes_written: 0, closed: false }
    }
}

/// Configuration of a stream.
#[derive(Debug, Clone, Copy)]
pub struct StreamConfig {
    pub read_timeout_ms: u32,
    pub write_timeout_ms: u32,
    pub buffer_size: usize,
}

impl Default for StreamConfig {
    /// 30 s timeouts and 8 KiB buffers.
    fn default() -> (r: Self)
        ensures
            r.read_timeout_ms == 30000,
            r.write_timeout_ms == 30000,
            r.buffer_size == 8192,
    {
        StreamConfig { read_timeout_ms: 30000, write_timeout_ms: 30000, buffer_size: 8192 }
    }
}

/// Configuration of a client.
#[derive(Debug, Clone)]
pub struct ClientConfig {
    pub service_uuid: String,
    pub connection_params: ConnectionParams,
}

impl Default for ClientConfig {
    /// The dedicated BPL service with the default connection parameters.
    fn default() -> (r: Self)
        ensures
            r.service_uuid@ == BPL_CUSTOM_SERVICE_UUID@,
            r.connection_params.timeout_ms == 10000,
            r.connection_params.mtu == 1024,
    {
        ClientConfig { service_uuid: BPL_CUSTOM_SERVICE_UUID.to_owned(), connection_params: ConnectionParams::default() }
    }
}

/// Configuration of a server.
#[derive(Debug, Clone)]
pub struct ServerConfig {
    pub service_uuid: String,
    pub connection_params: ConnectionParams,
}

impl Default for ServerConfig {
    /// The dedicated BPL service with the default connection parameters.
    fn default() -> (r: Self)
        ensures
            r.service_uuid@ == BPL_CUSTOM_SERVICE_UUID@,
            r.connection_params.timeout_ms == 10000,
            r.connection_params.mtu == 1024,
    {
        ServerConfig { service_uuid: BPL_CUSTOM_SERVICE_UUID.to_owned(), connection_params: ConnectionParams::default() }
    }
}

/// `needle` occurs in `hay` at `i`.
pub open spec fn occurs_at(hay: Seq<u8>, needle: Seq<u8>, i: int) -> bool {
    0 <= i && i + needle.len() <= hay.len() && hay.subrange(i, i + needle.len()) == needle
}

/// `needle` occurs somewhere in `hay`.
pub open spec fn contains_bytes(hay: Seq<u8>, needle: Seq<u8>) -> bool {
    exists|i: int| #[trigger] occurs_at(hay, needle, i)
}

/// Whether `needle` occurs in `hay`.
fn bytes_contain(hay: &[u8], needle: &[u8]) -> (r: bool)
    ensures
        r == contains_bytes(hay@, needle@),
{
    if needle.len() > hay.len() {
        proof {
            assert forall|i: int| !#[trigger] occurs_at(hay@, needle@, i) by {}
        }
        return false;
    }
    let last: usize = hay.len() - needle.len();
    let mut i: usize = 0;
    loop
        invariant
            last == hay.len() - needle.len(),
            i <= last,
            forall|k: int| 0 <= k < i ==> !#[trigger] occurs_at(hay@, needle@, k),
        decreases last - i,
    {
        let mut j: usize = 0;
        let mut same = true;
        while j < needle.len()
            invariant
                i <= last,
                last == hay.len() - needle.len(),
                j <= needle@.len(),
                same == (forall|m: int| 0 <= m < j ==> hay@[i + m] == needle@[m]),
            decreases needle@.len() - j,
        {
            if hay[i + j] != needle[j] {
                same = false;
            }
            j = j + 1;
        }
        if same {
            assert(hay@.subrange(i as int, i + needle@.len()) =~= needle@);
            assert(occurs_at(hay@, needle@, i as int));
            return true;
        }
        proof {
            if occurs_at(hay@, needle@, i as int) {
                assert forall|m: int| 0 <= m < needle@.len() implies hay@[i + m] == needle@[m] by {
                    assert(hay@.subrange(i as int, i + needle@.len())[m] == hay@[i + m]);
                }
            }
        }
        if i == last {
            proof {
                assert forall|k: int| !#[trigger] occurs_at(hay@, needle@, k) by {
                    if 0 <= k && k + needle@.len() <= hay@.len() {
                        assert(k <= i);
                    }
                }
            }
            return false;
        }
        i = i + 1;
    }
}

/// The text `String::from_utf8_lossy` makes of `bytes`.
pub uninterp spec fn utf8_lossy(bytes: Seq<u8>) -> Seq<char>;

/// The text of a device identifier's bytes, read as UTF-8 with every
/// invalid sequence replaced by U+FFFD.
///
/// Trusted: calls `String::from_utf8_lossy` and turns the result into an
/// owned `String`. The text depends on the bytes alone and is named; as std
/// documents, bytes that are the UTF-8 of a text give that text back.
#[verifier::external_body]
fn lossy_text(bytes: &[u8]) -> (r: String)
    ensures
        r@ == utf8_lossy(bytes@),
        forall|t: Seq<char>| bytes@ == encode_utf8(t) ==> r@ == t,
{
    String::from_utf8_lossy(bytes).into_owned()
}

/// Matches the service identifiers whose text contains the text of `device`
/// (its bytes read as lossy UTF-8).
pub open spec fn service_pred(ids: Seq<String>, device: Seq<u8>) -> spec_fn(int) -> bool {
    |i: int| contains_bytes(encode_utf8(ids[i]@), encode_utf8(utf8_lossy(device)))
}

/// Index of the first service identifier that mentions `device`, or -1.
pub open spec fn find_device_service(ids: Seq<String>, device: Seq<u8>) -> int {
    first_where(service_pred(ids, device), ids.len() as int)
}

/// The first of the RFCOMM services found whose identifier contains the
/// device identifier read as (lossy) UTF-8 text.
pub fn select_device_service(service_ids: &Vec<String>, device_id: &DeviceId) -> (r: Option<usize>)
    ensures
        match r {
            Some(i) => i == find_device_service(service_ids@, device_id.value@) && i < service_ids@.len(),
            None => find_device_service(service_ids@, device_id.value@) == -1,
        },
{
    let ghost pred = service_pred(service_ids@, device_id.value@);
    let text = lossy_text(device_id.value.as_slice());
    let mut i: usize = 0;
    while i < service_ids.len()
        invariant
            i <= service_ids@.len(),
            pred == service_pred(service_ids@, device_id.value@),
            text@ == utf8_lossy(device_id.value@),
            first_where(pred, i as int) == -1,
        decreases service_ids@.len() - i,
    {
        proof {
            lemma_first_where_step(pred, i as int);
        }
        if bytes_contain(service_ids[i].as_str().as_bytes(), text.as_str().as_bytes()) {
            proof {
                assert(pred(i as int));
                lemma_first_where_extend(pred, i as int + 1, service_ids@.len() as int);
            }
            return Some(i);
        }
        i = i + 1;
    }
    None
}

/// The connection state of an RFCOMM client.
#[derive(Debug)]
pub struct RfcommClientState {
    config: ClientConfig,
    connected: bool,
    remote_device_id: Option<DeviceId>,
}

impl RfcommClientState {
    /// Whether the client is connected.
    pub closed spec fn connected_value(&self) -> bool {
        self.connected
    }

    /// The device the client is connected to.
    pub closed spec fn remote(&self) -> Option<Seq<u8>> {
        match self.remote_device_id {
            Some(d) => Some(d.value@),
            None => None,
        }
    }

    /// The client's configuration.
    pub closed spec fn config_value(&self) -> ClientConfig {
        self.config
    }

    /// A client that is not connected.
    pub fn new(config: ClientConfig) -> (r: Result<Self, ProtocolError>)
        ensures
            r matches Ok(c) && !c.connected_value() && c.remote() is None && c.config_value() == config,
    {
        Ok(RfcommClientState { config, connected: false, remote_device_id: None })
    }

    /// Checks that a connection may start and reads the service UUID to
    /// connect to: a connected client refuses, and so does one whose
    /// configured UUID is not one.
    pub fn begin_connect(&self) -> (r: Result<u128, ProtocolError>)
        ensures
            self.connected_value() ==> (r matches Err(ProtocolError::Config(m)) && m@ == "Already connected"@),
            !self.connected_value() ==> match uuid_value(self.config_value().service_uuid@) {
                Some(v) => r == Ok::<u128, ProtocolError>(v),
                None => r matches Err(e) && config_error_with_prefix(e, "Invalid UUID: "@),
            },
    {
        if self.connected {
            return Err(ProtocolError::Config("Already connected".to_string()));
        }
        let parsed = parse_uuid(self.config.service_uuid.as_str());
        let r = uuid_or_config_error(parsed, "Invalid UUID: ");
        proof {
            if let Err(ProtocolError::Config(t)) = &r {
                assert(t@.subrange(0, "Invalid UUID: "@.len() as int) =~= "Invalid UUID: "@);
            }
        }
        r
    }

    /// Records that the client connected to `device_id`.
    pub fn complete_connect(&mut self, device_id: &DeviceId)
        ensures
            final(self).connected_value(),
            final(self).remote() == Some(device_id.value@),
            final(self).config_value() == old(self).config_value(),
    {
        self.remote_device_id = Some(device_id.clone());
        self.connected = true;
    }

    /// Records that the client disconnected.
    pub fn disconnect(&mut self) -> (r: Result<(), ProtocolError>)
        ensures
            r is Ok,
            !final(self).connected_value(),
            final(self).remote() is None,
            final(self).config_value() == old(self).config_value(),
    {
        self.connected = false;
        self.remote_device_id = None;
        Ok(())
    }

    /// Whether the client is connected.
    pub fn is_connected(&self) -> (r: bool)
        ensures
            r == self.connected_value(),
    {
        self.connected
    }

    /// The device the client is connected to.
    pub fn remote_device_id(&self) -> (r: Option<&DeviceId>)
        ensures
            match r {
                Some(d) => self.remote() == Some(d.value@),
                None => self.remote() is None,
            },
    {
        self.remote_device_id.as_ref()
    }

    /// The parameters of the client's connections.
    pub fn connection_params(&self) -> (r: &ConnectionParams)
        ensures
            *r == self.config_value().connection_params,
    {
        &self.config.connection_params
    }
}

/// The 128-bit value of the UUID that `text` spells, if it spells one.
pub uninterp spec fn uuid_value(text: Seq<char>) -> Option<u128>;

/// Parses a UUID in any of its text forms (simple, hyphenated, URN, braced).
///
/// Trusted: calls `uuid::Uuid::parse_str`, then `Uuid::as_u128`. The contract
/// claims that the outcome depends on the text alone, naming the value
/// `uuid_value`; of the error it hands back the crate's description, of
/// which nothing is claimed.
#[verifier::external_body]
fn parse_uuid(text: &str) -> (r: Result<u128, String>)
    ensures
        match r {
            Ok(v) => uuid_value(text@) == Some(v),
            Err(_) => uuid_value(text@) is None,
        },
{
    match uuid::Uuid::parse_str(text) {
        Ok(u) => Ok(u.as_u128()),
        Err(e) => Err(e.to_string()),
    }
}

/// The outcome of parsing a UUID as the link reports it: the value, or a
/// configuration error whose message is `context` followed by the parser's
/// description of what is wrong.
pub fn uuid_or_config_error(parsed: Result<u128, String>, context: &str) -> (r: Result<u128, ProtocolError>)
    ensures
        match parsed {
            Ok(v) => r == Ok::<u128, ProtocolError>(v),
            Err(m) => r matches Err(ProtocolError::Config(t)) && t@ == context@ + m@,
        },
{
    match parsed {
        Ok(v) => Ok(v),
        Err(m) => {
            let mut t = context.to_owned();
            t.append(m.as_str());
            Err(ProtocolError::Config(t))
        },
    }
}

/// Whether `m` is a configuration error whose message starts with `prefix`.
pub open spec fn config_error_with_prefix(e: ProtocolError, prefix: Seq<char>) -> bool {
    e matches ProtocolError::Config(m) && prefix.is_prefix_of(m@)
}

/// The running state of an RFCOMM server.
#[derive(Debug)]
pub struct RfcommServerState {
    config: ServerConfig,
    service_uuid: u128,
    running: bool,
}

impl RfcommServerState {
    /// Whether the server runs.
    pub closed spec fn running_value(&self) -> bool {
        self.running
    }

    /// The server's configuration.
    pub closed spec fn config_value(&self) -> ServerConfig {
        self.config
    }

    /// The UUID of the service the server offers.
    pub closed spec fn uuid(&self) -> u128 {
        self.service_uuid
    }

    /// A server that does not run yet; the configured service UUID must be one.
    pub fn new(config: ServerConfig) -> (r: Result<Self, ProtocolError>)
        ensures
            match uuid_value(config.service_uuid@) {
                Some(v) => r matches Ok(s) && !s.running_value() && s.config_value() == config && s.uuid() == v,
                None => r matches Err(e) && config_error_with_prefix(e, "Invalid service UUID: "@),
            },
    {
        let parsed = parse_uuid(config.service_uuid.as_str());
        match uuid_or_config_error(parsed, "Invalid service UUID: ") {
            Ok(service_uuid) => Ok(RfcommServerState { config, service_uuid, running: false }),
            Err(e) => {
                proof {
                    if let ProtocolError::Config(t) = &e {
                        assert(t@.subrange(0, "Invalid service UUID: "@.len() as int) =~= "Invalid service UUID: "@);
                    }
                }
                Err(e)
            },
        }
    }

    /// The UUID of the service the server offers.
    pub fn service_uuid(&self) -> (r: u128)
        ensures
            r == self.uuid(),
    {
        self.service_uuid
    }

    /// Checks that the server may start: a running server refuses.
    pub fn begin_start(&self) -> (r: Result<(), ProtocolError>)
        ensures
            self.running_value() ==> (r matches Err(ProtocolError::Config(m)) && m@ == "Server already running"@),
            !self.running_value() ==> r is Ok,
    {
        if self.running {
            return Err(ProtocolError::Config("Server already running".to_string()));
        }
        Ok(())
    }

    /// Records that the server started.
    pub fn complete_start(&mut self)
        ensures
            final(self).running_value(),
            final(self).config_value() == old(self).config_value(),
    {
        self.running = true;
    }

    /// Stops the server; whether it ran, that is whether the platform has anything to release.
    pub fn stop(&mut self) -> (r: bool)
        ensures
            r == old(self).running_value(),
            !final(self).running_value(),
            final(self).config_value() == old(self).config_value(),
    {
        let was = self.running;
        self.running = false;
        was
    }

    /// Whether the server runs.
    pub fn is_running(&self) -> (r: bool)
        ensures
            r == self.running_value(),
    {
        self.running
    }

    /// The server's configuration.
    pub fn config(&self) -> (r: &ServerConfig)
        ensures
            *r == self.config_value(),
    {
        &self.config
    }
}

/// The state of an RFCOMM stream: its configuration, the bytes received but
/// not yet delivered, and whether it is closed.
#[derive(Debug)]
pub struct RfcommStreamState {
    config: StreamConfig,
    read_buffer: Vec<u8>,
    write_buffer: Vec<u8>,
    closed: bool,
}

/// The error of an operation on a closed stream.
pub open spec fn stream_closed_error(e: ProtocolError) -> bool {
    e matches ProtocolError::Io(m) && m@ == "Stream closed"@
}

impl RfcommStreamState {
    /// Whether the stream is closed.
    pub closed spec fn closed_value(&self) -> bool {
        self.closed
    }

    /// The bytes received but not yet delivered.
    pub closed spec fn pending(&self) -> Seq<u8> {
        self.read_buffer@
    }

    /// The bytes waiting to be written.
    pub closed spec fn unsent(&self) -> Seq<u8> {
        self.write_buffer@
    }

    /// The stream's configuration.
    pub closed spec fn config_value(&self) -> StreamConfig {
        self.config
    }

    /// An open stream with the default configuration and empty buffers.
    pub fn new() -> (r: Self)
        ensures
            !r.closed_value(),
            r.pending().len() == 0,
            r.unsent().len() == 0,
            r.config_value().buffer_size == 8192,
            r.config_value().read_timeout_ms == 30000,
            r.config_value().write_timeout_ms == 30000,
    {
        RfcommStreamState { config: StreamConfig::default(), read_buffer: Vec::new(), write_buffer: Vec::new(), closed: false }
    }

    /// Whether the stream is closed.
    pub fn is_closed(&self) -> (r: bool)
        ensures
            r == self.closed_value(),
    {
        self.closed
    }

    /// Checks that the stream is open; reading, writing and flushing a closed stream fail.
    pub fn ensure_open(&self) -> (r: Result<(), ProtocolError>)
        ensures
            self.closed_value() ==> (r matches Err(e) && stream_closed_error(e)),
            !self.closed_value() ==> r is Ok,
    {
        if self.closed {
            return Err(ProtocolError::Io("Stream closed".to_string()));
        }
        Ok(())
    }

    /// Sets the read timeout.
    pub fn set_read_timeout(&mut self, timeout_ms: u32)
        ensures
            final(self).config_value() == (StreamConfig { read_timeout_ms: timeout_ms, ..old(self).config_value() }),
            final(self).closed_value() == old(self).closed_value(),
            final(self).pending() == old(self).pending(),
            final(self).unsent() == old(self).unsent(),
    {
        self.config.read_timeout_ms = timeout_ms;
    }

    /// Sets the write timeout.
    pub fn set_write_timeout(&mut self, timeout_ms: u32)
        ensures
            final(self).config_value() == (StreamConfig { write_timeout_ms: timeout_ms, ..old(self).config_value() }),
            final(self).closed_value() == old(self).closed_value(),
            final(self).pending() == old(self).pending(),
            final(self).unsent() == old(self).unsent(),
    {
        self.config.write_timeout_ms = timeout_ms;
    }

    /// How many bytes to ask the platform for when `remaining` bytes fit in the caller's buffer.
    pub fn load_target(&self, remaining: usize) -> (r: u32)
        requires
            remaining <= u32::MAX || self.config_value().buffer_size <= u32::MAX,
        ensures
            r == (if remaining < self.config_value().buffer_size { remaining } else { self.config_value().buffer_size }),
    {
        let n = if remaining < self.config.buffer_size { remaining } else { self.config.buffer_size };
        n as u32
    }

    /// A read of `loaded` bytes from the platform came back: none means the end
    /// of the stream, which closes it; otherwise the count is delivered.
    pub fn on_loaded(&mut self, loaded: u32) -> (r: usize)
        ensures
            r == loaded,
            final(self).closed_value() == (old(self).closed_value() || loaded == 0),
            final(self).pending() == old(self).pending(),
            final(self).unsent() == old(self).unsent(),
            final(self).config_value() == old(self).config_value(),
    {
        if loaded == 0 {
            self.closed = true;
        }
        loaded as usize
    }

    /// Delivers up to `capacity` bytes: those waiting first, and when none
    /// wait, those of `loaded`, keeping what does not fit for the next read.
    pub fn deliver(&mut self, capacity: usize, loaded: &[u8]) -> (r: Vec<u8>)
        ensures
            old(self).pending().len() > 0 ==> {
                let n = if capacity < old(self).pending().len() { capacity as int } else { old(self).pending().len() as int };
                &&& r@ == old(self).pending().take(n)
                &&& final(self).pending() == old(self).pending().skip(n)
            },
            old(self).pending().len() == 0 ==> {
                let n = if capacity < loaded@.len() { capacity as int } else { loaded@.len() as int };
                &&& r@ == loaded@.take(n)
                &&& final(self).pending() == loaded@.skip(n)
            },
            final(self).closed_value() == old(self).closed_value(),
            final(self).unsent() == old(self).unsent(),
            final(self).config_value() == old(self).config_value(),
    {
        if self.read_buffer.len() > 0 {
            let len: usize = if capacity < self.read_buffer.len() { capacity } else { self.read_buffer.len() };
            let out = copy_range(self.read_buffer.as_slice(), 0, len);
            let rest = copy_range(self.read_buffer.as_slice(), len, self.read_buffer.len());
            self.read_buffer = rest;
            return out;
        }
        let len: usize = if capacity < loaded.len() { capacity } else { loaded.len() };
        let out = copy_range(loaded, 0, len);
        let rest = copy_range(loaded, len, loaded.len());
        self.read_buffer = rest;
        out
    }

    /// Closes the stream; whether it was open, that is whether the platform socket is to be closed.
    pub fn close(&mut self) -> (r: bool)
        ensures
            r == !old(self).closed_value(),
            final(self).closed_value(),
            final(self).pending() == old(self).pending(),
            final(self).unsent() == old(self).unsent(),
            final(self).config_value() == old(self).config_value(),
    {
        let was_open = !self.closed;
        self.closed = true;
        was_open
    }

    /// Statistics: the bytes waiting in either buffer, and whether the stream is closed.
    pub fn stats(&self) -> (r: StreamStats)
        ensures
            r.bytes_read == self.pending().len(),
            r.bytes_written == self.unsent().len(),
            r.closed == self.closed_value(),
    {
        StreamStats { bytes_read: self.read_buffer.len() as u64, bytes_written: self.write_buffer.len() as u64, closed: self.closed }
    }
}

/// Delivery neither loses nor duplicates bytes: what is delivered, followed
/// by what still waits, is what waited, or what was loaded when nothing waited.
pub proof fn lemma_delivery_conserves(pending: Seq<u8>, loaded: Seq<u8>, capacity: nat)
    ensures
        pending.len() > 0 ==> ({
            let n = if capacity < pending.len() { capacity as int } else { pending.len() as int };
            pending.take(n) + pending.skip(n) == pending
        }),
        pending.len() == 0 ==> ({
            let n = if capacity < loaded.len() { capacity as int } else { loaded.len() as int };
            loaded.take(n) + loaded.skip(n) == loaded
        }),
{
    if pending.len() > 0 {
        let n = if capacity < pending.len() { capacity as int } else { pending.len() as int };
        assert(pending.take(n) + pending.skip(n) =~= pending);
    } else {
        let n = if capacity < loaded.len() { capacity as int } else { loaded.len() as int };
        assert(loaded.take(n) + loaded.skip(n) =~= loaded);
    }
}

/// A device as the platform lists it: identified by its platform identifier,
/// which is also its address, with nothing known of it but its name.
pub fn device_from_platform(platform_id: &str, name: &str, paired: bool) -> (r: BluetoothDevice)
    ensures
        r.id.value@ == platform_id.spec_bytes(),
        r.name matches Some(n) && n@ == name@,
        r.address@ == platform_id@,
        r.paired == paired,
        !r.connected,
        r.rssi is None,
        r.device_class is None,
        r.services@.len() == 0,
{
    BluetoothDevice {
        id: DeviceId { value: clone_bytes(platform_id.as_bytes()) },
        name: Some(name.to_owned()),
        address: platform_id.to_owned(),
        paired,
        connected: false,
        rssi: None,
        device_class: None,
        services: Vec::new(),
    }
}

/// The Windows platform.
#[derive(Debug)]
pub struct WindowsBluetooth {
    initialized: bool,
}

impl WindowsBluetooth {
    /// Whether the platform layer was set up.
    pub closed spec fn is_initialized(&self) -> bool {
        self.initialized
    }

    /// The platform layer, set up.
    pub fn new() -> (r: Result<Self, ProtocolError>)
        ensures
            r matches Ok(p) && p.is_initialized(),
    {
        Ok(WindowsBluetooth { initialized: true })
    }

    pub fn platform_name(&self) -> (r: &'static str)
        ensures
            r@ == "Windows"@,
    {
        "Windows"
    }
}

/// The Linux platform (BlueZ).
#[derive(Debug)]
pub struct LinuxBluetooth {
    initialized: bool,
}

impl LinuxBluetooth {
    /// Whether the platform layer was set up.
    pub closed spec fn is_initialized(&self) -> bool {
        self.initialized
    }

    /// The platform layer, set up.
    pub fn new() -> (r: Result<Self, ProtocolError>)
        ensures
            r matches Ok(p) && p.is_initialized(),
    {
        Ok(LinuxBluetooth { initialized: true })
    }

    pub fn platform_name(&self) -> (r: &'static str)
        ensures
            r@ == "Linux"@,
    {
        "Linux"
    }
}

/// The macOS platform (IOBluetooth).
#[derive(Debug)]
pub struct MacOSBluetooth {
    initialized: bool,
}

impl MacOSBluetooth {
    /// Whether the platform layer was set up.
    pub closed spec fn is_initialized(&self) -> bool {
        self.initialized
    }

    /// The platform layer, set up.
    pub fn new() -> (r: Result<Self, ProtocolError>)
        ensures
            r matches Ok(p) && p.is_initialized(),
    {
        Ok(MacOSBluetooth { initialized: true })
    }

    pub fn platform_name(&self) -> (r: &'static str)
        ensures
            r@ == "macOS"@,
    {
        "macOS"
    }
}

} // verus!
