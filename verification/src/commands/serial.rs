//! Serial sessions and the port lock table.
//!
//! A port is claimed either by a monitoring session or by a firmware upload.
//! `SerialState` holds both tables; its view is a `SerialModel`, and every
//! operation states the model after it as a function of the model before.

use crate::table::StringMap;
use crate::text::{
    concat2, concat3, contains_char, contains_seq, decimal, is_blank, str_contains, str_eq,
    str_is_blank, to_chars, to_decimal,
};
use vstd::prelude::*;

verus! {

/// One enumerated serial device.
#[derive(Debug, Clone)]
pub struct PortInfo {
    pub path: String,
    pub port_type: String,
    pub manufacturer: Option<String>,
    pub product: Option<String>,
    pub serial_number: Option<String>,
    pub vid: Option<u16>,
    pub pid: Option<u16>,
}

/// How a device is attached, with what a USB device says of itself.
#[derive(Debug, Clone)]
pub enum PortKind {
    Usb {
        manufacturer: Option<String>,
        product: Option<String>,
        serial_number: Option<String>,
        vid: u16,
        pid: u16,
    },
    Bluetooth,
    Pci,
    Unknown,
}

/// A device as the operating system reported it.
#[derive(Debug, Clone)]
pub struct DetectedPort {
    pub port_name: String,
    pub kind: PortKind,
}

/// What an enumeration of the serial devices gave: the devices, or why it failed.
pub type PortScan = Result<Vec<DetectedPort>, String>;

/// A notification about one session.
#[derive(Debug, Clone)]
pub enum SerialEvent {
    Data { connection_id: String, text: String },
    Error { connection_id: String, message: String },
    Closed { connection_id: String },
}

/// A serial event with its texts as sequences of characters.
pub enum SerialEventView {
    Data { connection_id: Seq<char>, text: Seq<char> },
    Error { connection_id: Seq<char>, message: Seq<char> },
    Closed { connection_id: Seq<char> },
}

impl View for SerialEvent {
    type V = SerialEventView;

    open spec fn view(&self) -> SerialEventView {
        match self {
            SerialEvent::Data { connection_id, text } => SerialEventView::Data {
                connection_id: connection_id@,
                text: text@,
            },
            SerialEvent::Error { connection_id, message } => SerialEventView::Error {
                connection_id: connection_id@,
                message: message@,
            },
            SerialEvent::Closed { connection_id } => SerialEventView::Closed {
                connection_id: connection_id@,
            },
        }
    }
}

/// An exclusive claim on a port: by the session named, or by an upload that began
/// at the given time (seconds since the Unix epoch).
#[derive(Debug, Clone, PartialEq)]
pub enum PortLock {
    Monitor(String),
    Upload(u64),
}

/// A lock with the session it names as a sequence of characters.
pub enum LockView {
    Monitor(Seq<char>),
    Upload(u64),
}

impl View for PortLock {
    type V = LockView;

    open spec fn view(&self) -> LockView {
        match self {
            PortLock::Monitor(id) => LockView::Monitor(id@),
            PortLock::Upload(at) => LockView::Upload(*at),
        }
    }
}

/// What `Ok(())` or the error's text says, as an optional message.
pub open spec fn rejection(r: Result<(), String>) -> Option<Seq<char>> {
    match r {
        Ok(_) => None,
        Err(e) => Some(e@),
    }
}

/// The label under which a kind of port is shown.
pub open spec fn kind_label(kind: PortKind) -> Seq<char> {
    match kind {
        PortKind::Usb { .. } => "USB"@,
        PortKind::Bluetooth => "Bluetooth"@,
        PortKind::Pci => "PCI"@,
        PortKind::Unknown => "Unknown"@,
    }
}

/// `info` is what is shown of `port`.
pub open spec fn describes(info: PortInfo, port: DetectedPort) -> bool {
    &&& info.path == port.port_name
    &&& info.port_type@ == kind_label(port.kind)
    &&& match port.kind {
        PortKind::Usb { manufacturer, product, serial_number, vid, pid } => {
            &&& info.manufacturer == manufacturer
            &&& info.product == product
            &&& info.serial_number == serial_number
            &&& info.vid == Some(vid)
            &&& info.pid == Some(pid)
        },
        _ => {
            &&& info.manufacturer is None
            &&& info.product is None
            &&& info.serial_number is None
            &&& info.vid is None
            &&& info.pid is None
        },
    }
}

/// What is shown of one detected port.
pub fn describe_port(port: &DetectedPort) -> (info: PortInfo)
    ensures
        describes(info, *port),
{
    let path = port.port_name.clone();
    match &port.kind {
        PortKind::Usb { manufacturer, product, serial_number, vid, pid } => PortInfo {
            path,
            port_type: String::from_str("USB"),
            manufacturer: manufacturer.clone(),
            product: product.clone(),
            serial_number: serial_number.clone(),
            vid: Some(*vid),
            pid: Some(*pid),
        },
        PortKind::Bluetooth => PortInfo {
            path,
            port_type: String::from_str("Bluetooth"),
            manufacturer: None,
            product: None,
            serial_number: None,
            vid: None,
            pid: None,
        },
        PortKind::Pci => PortInfo {
            path,
            port_type: String::from_str("PCI"),
            manufacturer: None,
            product: None,
            serial_number: None,
            vid: None,
            pid: None,
        },
        PortKind::Unknown => PortInfo {
            path,
            port_type: String::from_str("Unknown"),
            manufacturer: None,
            product: None,
            serial_number: None,
            vid: None,
            pid: None,
        },
    }
}

/// The catalog of serial devices, from what the enumeration gave.
pub fn list_serial_ports(scan: &PortScan) -> (r: Result<Vec<PortInfo>, String>)
    ensures
        match *scan {
            Ok(ports) => r is Ok && r->Ok_0@.len() == ports@.len() && forall|i: int|
                0 <= i < ports@.len() ==> describes(#[trigger] r->Ok_0@[i], ports@[i]),
            Err(e) => r is Err && r->Err_0@ == "Failed to list ports: "@ + e@,
        },
{
    match scan {
        Ok(ports) => {
            let mut infos: Vec<PortInfo> = Vec::new();
            let mut i: usize = 0;
            while i < ports.len()
                invariant
                    i <= ports@.len(),
                    infos@.len() == i,
                    forall|k: int| 0 <= k < i ==> describes(#[trigger] infos@[k], ports@[k]),
                decreases ports@.len() - i,
            {
                infos.push(describe_port(&ports[i]));
                i += 1;
            }
            Ok(infos)
        },
        Err(e) => Err(concat2("Failed to list ports: ", e.as_str())),
    }
}

/// The names of the devices of a scan.
pub open spec fn port_names(ports: Seq<DetectedPort>) -> Seq<Seq<char>> {
    ports.map_values(|p: DetectedPort| p.port_name@)
}

/// Whether `port_path` is the name of one of `ports`.
pub fn is_listed(ports: &Vec<DetectedPort>, port_path: &str) -> (b: bool)
    ensures
        b == port_names(ports@).contains(port_path@),
{
    let mut i: usize = 0;
    while i < ports.len()
        invariant
            i <= ports@.len(),
            forall|k: int| 0 <= k < i ==> port_names(ports@)[k] != port_path@,
        decreases ports@.len() - i,
    {
        if str_eq(ports[i].port_name.as_str(), port_path) {
            assert(port_names(ports@)[i as int] == port_path@);
            return true;
        }
        i += 1;
    }
    false
}

/// Why `path` is no port a session may use, if it is none.
pub open spec fn port_path_error(path: Seq<char>, scan: PortScan) -> Option<Seq<char>> {
    if is_blank(path) {
        Some("Port path cannot be empty"@)
    } else if path.contains('\0') || contains_seq(path, ".."@) {
        Some("Port path contains invalid characters"@)
    } else {
        match scan {
            Err(e) => Some("Failed to list ports: "@ + e@),
            Ok(ports) => if port_names(ports@).contains(path) {
                None
            } else {
                Some(
                    "Invalid serial port path: "@ + path
                        + ". Please refresh ports and select a valid device."@,
                )
            },
        }
    }
}

/// Accepts a port path only if it is well-formed and among the devices of `scan`.
pub fn validate_port_path(port_path: &str, scan: &PortScan) -> (r: Result<(), String>)
    ensures
        rejection(r) == port_path_error(port_path@, *scan),
{
    if str_is_blank(port_path) {
        return Err(String::from_str("Port path cannot be empty"));
    }
    let chars = to_chars(port_path);
    if contains_char(&chars, '\0') || str_contains(port_path, "..") {
        return Err(String::from_str("Port path contains invalid characters"));
    }
    match scan {
        Err(e) => Err(concat2("Failed to list ports: ", e.as_str())),
        Ok(ports) => {
            if is_listed(ports, port_path) {
                Ok(())
            } else {
                Err(
                    concat3(
                        "Invalid serial port path: ",
                        port_path,
                        ". Please refresh ports and select a valid device.",
                    ),
                )
            }
        },
    }
}

/// The standard rates a session may be opened with.
pub open spec fn is_valid_baud_rate(baud_rate: u32) -> bool {
    baud_rate == 300 || baud_rate == 1200 || baud_rate == 2400 || baud_rate == 4800
        || baud_rate == 9600 || baud_rate == 14400 || baud_rate == 19200 || baud_rate == 38400
        || baud_rate == 57600 || baud_rate == 115200 || baud_rate == 230400 || baud_rate
        == 460800 || baud_rate == 921600
}

/// Why `baud_rate` is refused, if it is.
pub open spec fn baud_rate_error(baud_rate: u32) -> Option<Seq<char>> {
    if is_valid_baud_rate(baud_rate) {
        None
    } else {
        Some(
            "Invalid baud rate: "@ + decimal(baud_rate as nat)
                + ". Valid rates: [300, 1200, 2400, 4800, 9600, 14400, 19200, 38400, 57600, 115200, 230400, 460800, 921600]"@,
        )
    }
}

/// Accepts a rate of the allow-list, and refuses any other with the list.
pub fn validate_baud_rate(baud_rate: u32) -> (r: Result<(), String>)
    ensures
        rejection(r) == baud_rate_error(baud_rate),
{
    if baud_rate == 300 || baud_rate == 1200 || baud_rate == 2400 || baud_rate == 4800
        || baud_rate == 9600 || baud_rate == 14400 || baud_rate == 19200 || baud_rate == 38400
        || baud_rate == 57600 || baud_rate == 115200 || baud_rate == 230400 || baud_rate
        == 460800 || baud_rate == 921600 {
        Ok(())
    } else {
        let shown = to_decimal(baud_rate as u64);
        Err(
            concat3(
                "Invalid baud rate: ",
                shown.as_str(),
                ". Valid rates: [300, 1200, 2400, 4800, 9600, 14400, 19200, 38400, 57600, 115200, 230400, 460800, 921600]",
            ),
        )
    }
}

/// The two tables reduced to what the operations decide on: which session is
/// open on which port, and which port is claimed by what.
pub struct SerialModel {
    /// Session identifier to port path.
    pub sessions: Map<Seq<char>, Seq<char>>,
    /// Port path to the claim on it.
    pub locks: Map<Seq<char>, LockView>,
}

impl SerialModel {
    /// No session, no lock.
    pub open spec fn empty() -> SerialModel {
        SerialModel { sessions: Map::empty(), locks: Map::empty() }
    }

    /// Some session is open on `port`.
    pub open spec fn has_session_on(self, port: Seq<char>) -> bool {
        exists|id: Seq<char>| self.sessions.contains_key(id) && #[trigger] self.sessions[id] == port
    }

    /// `port` is reserved for an upload.
    pub open spec fn upload_locked(self, port: Seq<char>) -> bool {
        self.locks.contains_key(port) && self.locks[port] is Upload
    }

    /// The session that the lock on `port` names, if it is a monitor lock.
    pub open spec fn monitor_on(self, port: Seq<char>) -> Option<Seq<char>> {
        if self.locks.contains_key(port) {
            match self.locks[port] {
                LockView::Monitor(id) => Some(id),
                LockView::Upload(_) => None,
            }
        } else {
            None
        }
    }

    /// Why no session may be opened on `port` at `baud_rate`, if none may.
    pub open spec fn open_error(self, port: Seq<char>, baud_rate: u32, scan: PortScan) -> Option<
        Seq<char>,
    > {
        if port_path_error(port, scan) is Some {
            port_path_error(port, scan)
        } else if baud_rate_error(baud_rate) is Some {
            baud_rate_error(baud_rate)
        } else if self.upload_locked(port) {
            Some("Port is currently locked for upload"@)
        } else if self.has_session_on(port) {
            Some("Port "@ + port + " is already open"@)
        } else {
            None
        }
    }

    /// The session `id` on `port` entered, then the monitor lock that names it.
    pub open spec fn register(self, id: Seq<char>, port: Seq<char>) -> SerialModel {
        SerialModel {
            sessions: self.sessions.insert(id, port),
            locks: self.locks.insert(port, LockView::Monitor(id)),
        }
    }

    /// The session `id` taken out of the table; the locks stay.
    pub open spec fn close(self, id: Seq<char>) -> SerialModel {
        SerialModel { sessions: self.sessions.remove(id), locks: self.locks }
    }

    /// Every monitor lock that names `id` removed.
    pub open spec fn purge(self, id: Seq<char>) -> SerialModel {
        SerialModel {
            sessions: self.sessions,
            locks: Map::new(
                |p: Seq<char>| self.locks.contains_key(p) && self.locks[p] != LockView::Monitor(id),
                |p: Seq<char>| self.locks[p],
            ),
        }
    }

    /// `port` claimed for an upload at `now`, whatever held it; the session that a
    /// monitor lock on it named is taken out of the table.
    pub open spec fn acquire(self, port: Seq<char>, now: u64) -> SerialModel {
        SerialModel {
            sessions: match self.monitor_on(port) {
                Some(id) => self.sessions.remove(id),
                None => self.sessions,
            },
            locks: self.locks.insert(port, LockView::Upload(now)),
        }
    }

    /// The lock on `port` removed if it is an upload lock.
    pub open spec fn release(self, port: Seq<char>) -> SerialModel {
        if self.upload_locked(port) {
            SerialModel { sessions: self.sessions, locks: self.locks.remove(port) }
        } else {
            self
        }
    }

    /// The lock on `port` names a session that is gone.
    pub open spec fn stale_on(self, port: Seq<char>) -> bool {
        self.monitor_on(port) matches Some(id) && !self.sessions.contains_key(id)
    }

    /// What a look at the lock on `port` leaves: a stale monitor lock is dropped.
    pub open spec fn observe(self, port: Seq<char>) -> SerialModel {
        if self.stale_on(port) {
            SerialModel { sessions: self.sessions, locks: self.locks.remove(port) }
        } else {
            self
        }
    }

    /// What is reported of the lock on `port`.
    pub open spec fn status(self, port: Seq<char>) -> Option<Seq<char>> {
        if !self.locks.contains_key(port) {
            None
        } else {
            match self.locks[port] {
                LockView::Upload(_) => Some("upload"@),
                LockView::Monitor(id) => if self.sessions.contains_key(id) {
                    Some("monitor:"@ + id)
                } else {
                    None
                },
            }
        }
    }
}

/// One open session: the port it was opened on and the application's handle to
/// its worker.
#[derive(Debug)]
pub struct SerialConnection<H> {
    pub port_path: String,
    pub link: H,
}

/// The table of open sessions and the table of port locks.
#[derive(Debug)]
pub struct SerialState<H> {
    connections: StringMap<SerialConnection<H>>,
    port_locks: StringMap<PortLock>,
}

impl<H> View for SerialState<H> {
    type V = SerialModel;

    closed spec fn view(&self) -> SerialModel {
        SerialModel {
            sessions: Map::new(
                |id: Seq<char>| self.connections@.contains_key(id),
                |id: Seq<char>| self.connections@[id].port_path@,
            ),
            locks: Map::new(
                |p: Seq<char>| self.port_locks@.contains_key(p),
                |p: Seq<char>| self.port_locks@[p]@,
            ),
        }
    }
}

impl<H> SerialState<H> {
    /// Neither table holds a key twice.
    pub closed spec fn wf(&self) -> bool {
        self.connections.wf() && self.port_locks.wf()
    }

    /// The worker handle of the session `id`.
    pub closed spec fn link(&self, id: Seq<char>) -> H {
        self.connections@[id].link
    }

    /// The identifiers of the open sessions, oldest first.
    pub closed spec fn session_order(&self) -> Seq<Seq<char>> {
        self.connections.order()
    }

    /// The sessions of the model are those of `session_order`, each once.
    pub proof fn lemma_session_order(&self)
        requires
            self.wf(),
        ensures
            self.session_order().no_duplicates(),
            forall|id: Seq<char>|
                self@.sessions.contains_key(id) <==> self.session_order().contains(id),
    {
        self.connections.lemma_order();
    }

    /// Empty tables.
    pub fn new() -> (state: Self)
        ensures
            state.wf(),
            state@ == SerialModel::empty(),
    {
        let state = SerialState { connections: StringMap::new(), port_locks: StringMap::new() };
        assert(state@.sessions =~= Map::empty());
        assert(state@.locks =~= Map::empty());
        state
    }

    fn session_on(&self, port_path: &str) -> (b: bool)
        requires
            self.wf(),
        ensures
            b == self@.has_session_on(port_path@),
    {
        let mut i: usize = 0;
        while i < self.connections.len()
            invariant
                self.wf(),
                i <= self.connections.order().len(),
                forall|k: int|
                    0 <= k < i ==> self.connections@[#[trigger] self.connections.order()[k]].port_path@
                        != port_path@,
            decreases self.connections.order().len() - i,
        {
            let conn = self.connections.value_at(i);
            if str_eq(conn.port_path.as_str(), port_path) {
                assert(self@.sessions.contains_key(self.connections.order()[i as int]));
                assert(self@.sessions[self.connections.order()[i as int]] == port_path@);
                return true;
            }
            i += 1;
        }
        proof {
            self.connections.lemma_order();
            assert forall|id: Seq<char>| self@.sessions.contains_key(id) implies #[trigger]
                self@.sessions[id] != port_path@ by {
                let k = self.connections.order().index_of(id);
                assert(self.connections.order().contains(id));
                assert(self.connections.order()[k] == id);
            }
        }
        false
    }

    fn lock_names(&self, connection_id: &str) -> (b: bool)
        requires
            self.wf(),
        ensures
            b == self@.names(connection_id@),
    {
        let mut i: usize = 0;
        while i < self.port_locks.len()
            invariant
                self.wf(),
                i <= self.port_locks.order().len(),
                forall|k: int|
                    0 <= k < i ==> self.port_locks@[#[trigger] self.port_locks.order()[k]]@
                        != LockView::Monitor(connection_id@),
            decreases self.port_locks.order().len() - i,
        {
            let named = match self.port_locks.value_at(i) {
                PortLock::Monitor(id) => str_eq(id.as_str(), connection_id),
                PortLock::Upload(_) => false,
            };
            if named {
                let ghost port = self.port_locks.order()[i as int];
                assert(self@.locks.contains_key(port) && self@.locks[port] == LockView::Monitor(
                    connection_id@,
                ));
                return true;
            }
            i += 1;
        }
        proof {
            self.port_locks.lemma_order();
            assert forall|p: Seq<char>| self@.locks.contains_key(p) implies #[trigger]
                self@.locks[p] != LockView::Monitor(connection_id@) by {
                let k = self.port_locks.order().index_of(p);
                assert(self.port_locks.order().contains(p));
                assert(self.port_locks.order()[k] == p);
            }
        }
        false
    }
}

impl<H> Default for SerialState<H> {
    fn default() -> (state: Self)
        ensures
            state.wf(),
            state@ == SerialModel::empty(),
    {
        SerialState::new()
    }
}

/// Every session of `after` has the worker handle that it has in `before`.
pub open spec fn links_kept<H>(before: SerialState<H>, after: SerialState<H>) -> bool {
    forall|id: Seq<char>|
        after@.sessions.contains_key(id) ==> #[trigger] after.link(id) == before.link(id)
}

/// What is said where the identifier drawn for a session is taken.
pub open spec fn identifier_taken() -> Seq<char> {
    "Session identifier is already in use"@
}

/// A fresh session identifier: a random UUID, as `uuid::Uuid::new_v4` makes it and
/// its `Display` writes it. Nothing is known of it but its length: the 36
/// characters of the hyphenated form.
#[verifier::external_body]
fn fresh_connection_id() -> (id: String)
    ensures
        id@.len() == 36,
{
    uuid::Uuid::new_v4().to_string()
}

/// Accepts `drawn` as the identifier of a new session if it is unused: no session
/// has it and no lock names it.
pub fn accept_connection_id<H>(state: &SerialState<H>, drawn: String) -> (r: Result<String, String>)
    requires
        state.wf(),
    ensures
        match r {
            Ok(id) => id == drawn && state@.is_unused(drawn@),
            Err(e) => !state@.is_unused(drawn@) && e@ == identifier_taken(),
        },
{
    if state.connections.contains_key(drawn.as_str()) || state.lock_names(drawn.as_str()) {
        Err(String::from_str("Session identifier is already in use"))
    } else {
        Ok(drawn)
    }
}

/// Decides whether a session may be opened on `port_path`, and names it.
///
/// The port is re-validated against `scan`, the rate against the allow-list; a
/// port that is reserved for an upload or already has a session is refused. The
/// identifier is drawn at random and accepted only if it is unused; where no
/// identifier of its length is in use, every draw is accepted. On `Ok` the
/// caller opens the transport and starts the worker; then, in one step, it
/// confirms with `confirm_open` and calls `register_session` with the identifier
/// returned.
pub fn open_serial<H>(state: &SerialState<H>, port_path: &str, baud_rate: u32, scan: &PortScan) -> (r:
    Result<String, String>)
    requires
        state.wf(),
    ensures
        match r {
            Ok(id) => state@.open_error(port_path@, baud_rate, *scan) is None && id@.len() == 36
                && state@.is_unused(id@),
            Err(e) => state@.open_error(port_path@, baud_rate, *scan) == Some(e@) || (state@.open_error(
                port_path@,
                baud_rate,
                *scan,
            ) is None && e@ == identifier_taken() && exists|id: Seq<char>|
                id.len() == 36 && !(#[trigger] state@.is_unused(id))),
        },
{
    match validate_port_path(port_path, scan) {
        Err(e) => {
            return Err(e);
        },
        Ok(_) => {},
    }
    match validate_baud_rate(baud_rate) {
        Err(e) => {
            return Err(e);
        },
        Ok(_) => {},
    }
    match state.port_locks.get(port_path) {
        Some(PortLock::Upload(_)) => {
            return Err(String::from_str("Port is currently locked for upload"));
        },
        _ => {},
    }
    if state.session_on(port_path) {
        return Err(concat3("Port ", port_path, " is already open"));
    }
    let drawn = fresh_connection_id();
    let ghost id = drawn@;
    let r = accept_connection_id(state, drawn);
    proof {
        if r is Err {
            assert(id.len() == 36 && !state@.is_unused(id));
        }
    }
    r
}

/// Decides once more, for the session `connection_id` that is about to be
/// registered on `port_path`, what `open_serial` decided of the tables: the port
/// may have been reserved or opened, or the identifier taken, since then.
pub fn confirm_open<H>(state: &SerialState<H>, port_path: &str, connection_id: &str) -> (r: Result<
    (),
    String,
>)
    requires
        state.wf(),
    ensures
        rejection(r) == state@.register_error(connection_id@, port_path@),
{
    match state.port_locks.get(port_path) {
        Some(PortLock::Upload(_)) => {
            return Err(String::from_str("Port is currently locked for upload"));
        },
        _ => {},
    }
    if state.session_on(port_path) {
        return Err(concat3("Port ", port_path, " is already open"));
    }
    if state.connections.contains_key(connection_id) || state.lock_names(connection_id) {
        return Err(String::from_str("Session identifier is already in use"));
    }
    Ok(())
}

/// Enters the session `connection_id` on `port_path`, then the monitor lock that
/// names it, so that the lock is never there before its session.
pub fn register_session<H>(
    state: &mut SerialState<H>,
    connection_id: String,
    port_path: String,
    link: H,
)
    requires
        old(state).wf(),
    ensures
        final(state).wf(),
        final(state)@ == old(state)@.register(connection_id@, port_path@),
        final(state).link(connection_id@) == link,
        forall|id: Seq<char>|
            id != connection_id@ && old(state)@.sessions.contains_key(id) ==> final(state).link(id)
                == old(state).link(id),
        old(state)@.sound() && old(state)@.register_error(connection_id@, port_path@) is None
            ==> final(state)@.sound(),
{
    proof {
        lemma_one_session_per_port(old(state)@, connection_id@, port_path@, 0);
        lemma_names_once(old(state)@, connection_id@, port_path@, 0);
    }
    let lock = PortLock::Monitor(connection_id.clone());
    let path = port_path.clone();
    state.connections.insert(connection_id, SerialConnection { port_path, link });
    state.port_locks.insert(path, lock);
    assert(state@.sessions =~= old(state)@.register(connection_id@, port_path@).sessions);
    assert(state@.locks =~= old(state)@.register(connection_id@, port_path@).locks);
}

/// The bytes to hand to the worker of `connection_id`, and the handle to reach it.
pub fn write_serial<'a, H>(state: &'a SerialState<H>, connection_id: &str, data: &str) -> (r: Result<
    (&'a H, Vec<u8>),
    String,
>)
    requires
        state.wf(),
    ensures
        match r {
            Ok((link, bytes)) => state@.sessions.contains_key(connection_id@) && *link
                == state.link(connection_id@) && bytes@ == vstd::utf8::encode_utf8(data@),
            Err(e) => !state@.sessions.contains_key(connection_id@) && e@
                == "Connection not found"@,
        },
{
    match state.connections.get(connection_id) {
        Some(conn) => Ok((&conn.link, data.as_bytes_vec())),
        None => Err(String::from_str("Connection not found")),
    }
}

/// The handle of the session `connection_id`, if it is open.
pub fn session_link<'a, H>(state: &'a SerialState<H>, connection_id: &str) -> (r: Option<&'a H>)
    requires
        state.wf(),
    ensures
        match r {
            Some(link) => state@.sessions.contains_key(connection_id@) && *link == state.link(
                connection_id@,
            ),
            None => !state@.sessions.contains_key(connection_id@),
        },
{
    match state.connections.get(connection_id) {
        Some(conn) => Some(&conn.link),
        None => None,
    }
}

/// The handle of the session that monitors `port_path`: the one that the lock on
/// the port names, if it is a monitor lock and the session is open.
pub fn monitor_link<'a, H>(state: &'a SerialState<H>, port_path: &str) -> (r: Option<&'a H>)
    requires
        state.wf(),
    ensures
        match r {
            Some(link) => state@.monitor_on(port_path@) matches Some(id)
                && state@.sessions.contains_key(id) && *link == state.link(id),
            None => state@.monitor_on(port_path@) matches Some(id)
                ==> !state@.sessions.contains_key(id),
        },
{
    match state.port_locks.get(port_path) {
        Some(PortLock::Monitor(id)) => match state.connections.get(id.as_str()) {
            Some(conn) => Some(&conn.link),
            None => None,
        },
        _ => None,
    }
}

/// Takes the session `connection_id` out of the table and hands it back.
///
/// The caller marks the session dead before this call, then signals shutdown to
/// the worker handed back, joins it, and calls `purge_monitor_lock`.
pub fn close_serial<H>(state: &mut SerialState<H>, connection_id: &str) -> (r: Option<
    SerialConnection<H>,
>)
    requires
        old(state).wf(),
    ensures
        final(state).wf(),
        final(state)@ == old(state)@.close(connection_id@),
        match r {
            Some(conn) => old(state)@.sessions.contains_key(connection_id@) && conn.port_path@
                == old(state)@.sessions[connection_id@] && conn.link == old(state).link(
                connection_id@,
            ),
            None => !old(state)@.sessions.contains_key(connection_id@),
        },
        links_kept(*old(state), *final(state)),
        old(state)@.sound() ==> final(state)@.sound(),
{
    proof {
        lemma_one_session_per_port(old(state)@, connection_id@, Seq::empty(), 0);
        lemma_names_once(old(state)@, connection_id@, Seq::empty(), 0);
    }
    let r = state.connections.remove(connection_id);
    assert(state@.sessions =~= old(state)@.close(connection_id@).sessions);
    assert(state@.locks =~= old(state)@.locks);
    r
}

/// Removes every monitor lock that names `connection_id`.
pub fn purge_monitor_lock<H>(state: &mut SerialState<H>, connection_id: &str)
    requires
        old(state).wf(),
    ensures
        final(state).wf(),
        final(state)@ == old(state)@.purge(connection_id@),
        links_kept(*old(state), *final(state)),
        old(state)@.sound() ==> final(state)@.sound(),
{
    proof {
        lemma_one_session_per_port(old(state)@, connection_id@, Seq::empty(), 0);
        lemma_names_once(old(state)@, connection_id@, Seq::empty(), 0);
    }
    let keys = state.port_locks.keys();
    let ghost before = state.port_locks@;
    let ghost target = LockView::Monitor(connection_id@);
    proof {
        state.port_locks.lemma_order();
    }
    let mut i: usize = 0;
    while i < keys.len()
        invariant
            i <= keys@.len(),
            state.port_locks.wf(),
            state.connections == old(state).connections,
            target == LockView::Monitor(connection_id@),
            forall|p: Seq<char>| #[trigger]
                before.contains_key(p) ==> crate::text::views(keys@).contains(p),
            forall|p: Seq<char>| #[trigger]
                state.port_locks@.contains_key(p) <==> before.contains_key(p) && !(before[p]@
                    == target && exists|k: int|
                    0 <= k < i && #[trigger] crate::text::views(keys@)[k] == p),
            forall|p: Seq<char>| #[trigger]
                state.port_locks@.contains_key(p) ==> state.port_locks@[p] == before[p],
        decreases keys@.len() - i,
    {
        let key = keys[i].as_str();
        assert(crate::text::views(keys@)[i as int] == key@);
        let names_it = match state.port_locks.get(key) {
            Some(PortLock::Monitor(id)) => str_eq(id.as_str(), connection_id),
            _ => false,
        };
        if names_it {
            state.port_locks.remove(key);
        }
        i += 1;
    }
    proof {
        assert forall|p: Seq<char>| #[trigger]
            state@.locks.contains_key(p) <==> old(state)@.purge(connection_id@).locks.contains_key(
                p,
            ) by {
            if before.contains_key(p) {
                let k = crate::text::views(keys@).index_of(p);
                assert(crate::text::views(keys@)[k] == p);
            }
        }
        assert(state@.locks =~= old(state)@.purge(connection_id@).locks);
        assert(state@.sessions =~= old(state)@.sessions);
    }
}

/// Claims `port_path` for an upload that begins at `now`.
///
/// The port is re-validated against `scan`. Whatever lock the port had is
/// replaced; the session that a monitor lock on it named leaves the table in the
/// same step and is handed back. The caller marks that session dead before this
/// call (`monitor_link` finds it), and shuts the worker handed back down and
/// joins it before going on.
pub fn acquire_port_for_upload<H>(
    state: &mut SerialState<H>,
    port_path: &str,
    scan: &PortScan,
    now: u64,
) -> (r: Result<Option<SerialConnection<H>>, String>)
    requires
        old(state).wf(),
    ensures
        final(state).wf(),
        match r {
            Ok(evicted) => {
                &&& port_path_error(port_path@, *scan) is None
                &&& final(state)@ == old(state)@.acquire(port_path@, now)
                &&& match evicted {
                    Some(conn) => old(state)@.monitor_on(port_path@) matches Some(id) && old(
                        state,
                    )@.sessions.contains_key(id) && conn.port_path@ == old(state)@.sessions[id]
                        && conn.link == old(state).link(id),
                    None => old(state)@.monitor_on(port_path@) matches Some(id) ==> !old(
                        state,
                    )@.sessions.contains_key(id),
                }
            },
            Err(e) => port_path_error(port_path@, *scan) == Some(e@) && final(state)@ == old(
                state,
            )@,
        },
        links_kept(*old(state), *final(state)),
        old(state)@.sound() ==> final(state)@.sound(),
{
    proof {
        lemma_one_session_per_port(old(state)@, Seq::empty(), port_path@, now);
        lemma_names_once(old(state)@, Seq::empty(), port_path@, now);
    }
    match validate_port_path(port_path, scan) {
        Err(e) => {
            return Err(e);
        },
        Ok(_) => {},
    }
    let conn_id: Option<String> = match state.port_locks.get(port_path) {
        Some(PortLock::Monitor(id)) => Some(id.clone()),
        _ => None,
    };
    state.port_locks.insert(String::from_str(port_path), PortLock::Upload(now));
    let evicted = match &conn_id {
        Some(id) => state.connections.remove(id.as_str()),
        None => None,
    };
    assert(state@.sessions =~= old(state)@.acquire(port_path@, now).sessions);
    assert(state@.locks =~= old(state)@.acquire(port_path@, now).locks);
    Ok(evicted)
}

/// Gives up the upload claim on `port_path`. A port that a monitor holds, or that
/// nothing holds, is left as it is.
pub fn release_upload_lock<H>(state: &mut SerialState<H>, port_path: &str) -> (r: Result<(), String>)
    requires
        old(state).wf(),
    ensures
        final(state).wf(),
        r is Ok,
        final(state)@ == old(state)@.release(port_path@),
        links_kept(*old(state), *final(state)),
        old(state)@.sound() ==> final(state)@.sound(),
{
    proof {
        lemma_one_session_per_port(old(state)@, Seq::empty(), port_path@, 0);
        lemma_names_once(old(state)@, Seq::empty(), port_path@, 0);
    }
    let held = match state.port_locks.get(port_path) {
        Some(PortLock::Upload(_)) => true,
        _ => false,
    };
    if held {
        state.port_locks.remove(port_path);
    }
    assert(state@.locks =~= old(state)@.release(port_path@).locks);
    assert(state@.sessions =~= old(state)@.release(port_path@).sessions);
    Ok(())
}

/// Reports the claim on `port_path`: `upload`, `monitor:` and the session, or
/// nothing. A monitor lock whose session is gone is dropped and reported as nothing.
pub fn get_port_lock_status<H>(state: &mut SerialState<H>, port_path: &str) -> (r: Result<
    Option<String>,
    String,
>)
    requires
        old(state).wf(),
    ensures
        final(state).wf(),
        final(state)@ == old(state)@.observe(port_path@),
        links_kept(*old(state), *final(state)),
        old(state)@.sound() ==> final(state)@.sound(),
        match r {
            Ok(Some(s)) => old(state)@.status(port_path@) == Some(s@),
            Ok(None) => old(state)@.status(port_path@) is None,
            Err(_) => false,
        },
{
    proof {
        lemma_one_session_per_port(old(state)@, Seq::empty(), port_path@, 0);
        lemma_names_once(old(state)@, Seq::empty(), port_path@, 0);
    }
    let report: Option<Option<String>> = match state.port_locks.get(port_path) {
        Some(PortLock::Monitor(id)) => {
            if state.connections.contains_key(id.as_str()) {
                Some(Some(concat2("monitor:", id.as_str())))
            } else {
                None
            }
        },
        Some(PortLock::Upload(_)) => Some(Some(String::from_str("upload"))),
        None => Some(None),
    };
    match report {
        Some(status) => {
            assert(state@ == old(state)@.observe(port_path@));
            Ok(status)
        },
        None => {
            state.port_locks.remove(port_path);
            assert(state@.locks =~= old(state)@.observe(port_path@).locks);
            assert(state@.sessions =~= old(state)@.observe(port_path@).sessions);
            Ok(None)
        },
    }
}

/// The identifiers of the open sessions.
pub fn list_serial_connections<H>(state: &SerialState<H>) -> (r: Result<Vec<String>, String>)
    ensures
        r is Ok,
        crate::text::views(r->Ok_0@) == state.session_order(),
{
    Ok(state.connections.keys())
}

/// A rate outside the allow-list is refused whatever the port and the tables.
pub proof fn lemma_open_rejects_unlisted_baud_rate(
    model: SerialModel,
    port: Seq<char>,
    baud_rate: u32,
    scan: PortScan,
)
    requires
        !is_valid_baud_rate(baud_rate),
    ensures
        model.open_error(port, baud_rate, scan) is Some,
{
}

/// A path that is not among the enumerated devices is refused, with a message
/// that names it, by the check that opening a session and claiming a port for an
/// upload both begin with.
pub proof fn lemma_unlisted_port_rejected(
    model: SerialModel,
    port: Seq<char>,
    baud_rate: u32,
    ports: Vec<DetectedPort>,
)
    requires
        !port_names(ports@).contains(port),
    ensures
        port_path_error(port, Ok(ports)) is Some,
        model.open_error(port, baud_rate, Ok(ports)) == port_path_error(port, Ok(ports)),
        !is_blank(port) && !port.contains('\0') && !contains_seq(port, ".."@) ==> port_path_error(
            port,
            Ok(ports),
        ) == Some(
            "Invalid serial port path: "@ + port
                + ". Please refresh ports and select a valid device."@,
        ),
{
}

/// Once a session is registered on a port, a second open of that port is refused.
pub proof fn lemma_second_open_rejected(
    model: SerialModel,
    id: Seq<char>,
    port: Seq<char>,
    baud_rate: u32,
    scan: PortScan,
)
    ensures
        model.register(id, port).has_session_on(port),
        model.register(id, port).open_error(port, baud_rate, scan) is Some,
{
    let after = model.register(id, port);
    assert(after.sessions.contains_key(id) && after.sessions[id] == port);
}

/// After a port is claimed for an upload, the session that monitored it is gone
/// from the table, no monitor lock is left on the port, and the port reports
/// `upload`.
pub proof fn lemma_acquire_evicts_monitor(model: SerialModel, port: Seq<char>, now: u64)
    ensures
        model.monitor_on(port) matches Some(id) ==> !model.acquire(port, now).sessions.contains_key(
            id,
        ),
        model.acquire(port, now).locks[port] == LockView::Upload(now),
        model.acquire(port, now).monitor_on(port) is None,
        model.acquire(port, now).status(port) == Some("upload"@),
        model.acquire(port, now).observe(port) == model.acquire(port, now),
{
}

/// Releasing the upload claim on a port that a monitor holds changes nothing.
pub proof fn lemma_release_keeps_monitor(model: SerialModel, port: Seq<char>)
    requires
        model.monitor_on(port) is Some,
    ensures
        model.release(port) == model,
{
}

/// Releasing after acquiring leaves the port unclaimed.
pub proof fn lemma_release_after_acquire(model: SerialModel, port: Seq<char>, now: u64)
    ensures
        !model.acquire(port, now).release(port).locks.contains_key(port),
        model.acquire(port, now).release(port).status(port) is None,
{
}

/// A registered session is reported as the monitor of its port, and closing and
/// purging it leaves the port unclaimed.
pub proof fn lemma_register_then_close(model: SerialModel, id: Seq<char>, port: Seq<char>)
    ensures
        model.register(id, port).status(port) == Some("monitor:"@ + id),
        !model.register(id, port).close(id).sessions.contains_key(id),
        model.register(id, port).close(id).status(port) is None,
        !model.register(id, port).close(id).purge(id).locks.contains_key(port),
{
}

/// A look at a port leaves no stale lock on it, and a second look changes nothing.
pub proof fn lemma_observe_heals(model: SerialModel, port: Seq<char>)
    ensures
        !model.observe(port).stale_on(port),
        model.observe(port).observe(port) == model.observe(port),
        model.observe(port).status(port) == model.status(port),
{
}

impl SerialModel {
    /// Some lock names the session `id`.
    pub open spec fn names(self, id: Seq<char>) -> bool {
        exists|p: Seq<char>|
            self.locks.contains_key(p) && #[trigger] self.locks[p] == LockView::Monitor(id)
    }

    /// `id` is free to name a new session: no session has it and no lock names it.
    pub open spec fn is_unused(self, id: Seq<char>) -> bool {
        !self.sessions.contains_key(id) && !self.names(id)
    }

    /// No session is named by the locks of two ports.
    pub open spec fn names_once(self) -> bool {
        forall|p: Seq<char>, q: Seq<char>|
            self.locks.contains_key(p) && self.locks.contains_key(q) && self.locks[p] is Monitor
                && #[trigger] self.locks[p] == #[trigger] self.locks[q] ==> p == q
    }

    /// Why the session `id` may not be registered on `port`, if it may not: the
    /// port is reserved for an upload or has a session, or the identifier is in
    /// use.
    pub open spec fn register_error(self, id: Seq<char>, port: Seq<char>) -> Option<Seq<char>> {
        if self.upload_locked(port) {
            Some("Port is currently locked for upload"@)
        } else if self.has_session_on(port) {
            Some("Port "@ + port + " is already open"@)
        } else if !self.is_unused(id) {
            Some(identifier_taken())
        } else {
            None
        }
    }

    /// The tables are as registering only what was confirmed leaves them: no
    /// port has two sessions, and no session is named by the locks of two ports.
    pub open spec fn sound(self) -> bool {
        self.one_session_per_port() && self.names_once()
    }

    /// No two sessions are open on one port.
    pub open spec fn one_session_per_port(self) -> bool {
        forall|a: Seq<char>, b: Seq<char>|
            self.sessions.contains_key(a) && self.sessions.contains_key(b) && a != b
                ==> #[trigger] self.sessions[a] != #[trigger] self.sessions[b]
    }
}

/// Where sessions are registered only on ports that were found free to open,
/// no port ever has two sessions: registering keeps it so, and so does every
/// other operation.
pub proof fn lemma_one_session_per_port(
    model: SerialModel,
    id: Seq<char>,
    port: Seq<char>,
    now: u64,
)
    ensures
        SerialModel::empty().one_session_per_port(),
        model.one_session_per_port() && !model.has_session_on(port) ==> model.register(
            id,
            port,
        ).one_session_per_port(),
        model.one_session_per_port() ==> model.close(id).one_session_per_port(),
        model.one_session_per_port() ==> model.purge(id).one_session_per_port(),
        model.one_session_per_port() ==> model.acquire(port, now).one_session_per_port(),
        model.one_session_per_port() ==> model.release(port).one_session_per_port(),
        model.one_session_per_port() ==> model.observe(port).one_session_per_port(),
{
    if model.one_session_per_port() && !model.has_session_on(port) {
        let after = model.register(id, port);
        assert forall|a: Seq<char>, b: Seq<char>|
            after.sessions.contains_key(a) && after.sessions.contains_key(b) && a
                != b implies #[trigger] after.sessions[a] != #[trigger] after.sessions[b] by {
            if a != id && b != id {
                assert(model.sessions[a] != model.sessions[b]);
            } else if a == id {
                assert(model.sessions.contains_key(b) && model.sessions[b] != port);
            } else {
                assert(model.sessions.contains_key(a) && model.sessions[a] != port);
            }
        }
    }
}

/// Where a session is registered only under an identifier that is unused, no
/// session is ever named by the locks of two ports: registering keeps it so, and
/// so does every other operation.
pub proof fn lemma_names_once(model: SerialModel, id: Seq<char>, port: Seq<char>, now: u64)
    ensures
        SerialModel::empty().names_once(),
        model.names_once() && model.is_unused(id) ==> model.register(id, port).names_once(),
        model.names_once() ==> model.close(id).names_once(),
        model.names_once() ==> model.purge(id).names_once(),
        model.names_once() ==> model.acquire(port, now).names_once(),
        model.names_once() ==> model.release(port).names_once(),
        model.names_once() ==> model.observe(port).names_once(),
{
    if model.names_once() {
        if model.is_unused(id) {
            let after = model.register(id, port);
            assert forall|p: Seq<char>, q: Seq<char>|
                after.locks.contains_key(p) && after.locks.contains_key(q) && after.locks[p] is Monitor
                    && #[trigger] after.locks[p] == #[trigger] after.locks[q] implies p == q by {
                if p != port && q != port {
                    assert(model.locks[p] == model.locks[q]);
                } else if p == port && q != port {
                    assert(model.locks.contains_key(q) && model.locks[q] == LockView::Monitor(id));
                } else if q == port && p != port {
                    assert(model.locks.contains_key(p) && model.locks[p] == LockView::Monitor(id));
                }
            }
        }
        let acquired = model.acquire(port, now);
        assert forall|p: Seq<char>, q: Seq<char>|
            acquired.locks.contains_key(p) && acquired.locks.contains_key(q)
                && acquired.locks[p] is Monitor && #[trigger] acquired.locks[p]
                == #[trigger] acquired.locks[q] implies p == q by {
            if p != port && q != port {
                assert(model.locks[p] == model.locks[q]);
            }
        }
        let purged = model.purge(id);
        assert forall|p: Seq<char>, q: Seq<char>|
            purged.locks.contains_key(p) && purged.locks.contains_key(q) && purged.locks[p] is Monitor
                && #[trigger] purged.locks[p] == #[trigger] purged.locks[q] implies p == q by {
            assert(model.locks[p] == model.locks[q]);
        }
        let released = model.release(port);
        assert forall|p: Seq<char>, q: Seq<char>|
            released.locks.contains_key(p) && released.locks.contains_key(q)
                && released.locks[p] is Monitor && #[trigger] released.locks[p]
                == #[trigger] released.locks[q] implies p == q by {
            assert(model.locks[p] == model.locks[q]);
        }
        let observed = model.observe(port);
        assert forall|p: Seq<char>, q: Seq<char>|
            observed.locks.contains_key(p) && observed.locks.contains_key(q)
                && observed.locks[p] is Monitor && #[trigger] observed.locks[p]
                == #[trigger] observed.locks[q] implies p == q by {
            assert(model.locks[p] == model.locks[q]);
        }
    }
}

/// After a port is claimed for an upload, no lock at all names the session that
/// monitored it.
pub proof fn lemma_acquire_purges_evicted(model: SerialModel, port: Seq<char>, now: u64)
    requires
        model.names_once(),
    ensures
        model.monitor_on(port) matches Some(id) ==> !model.acquire(port, now).names(id)
            && !model.acquire(port, now).sessions.contains_key(id),
{
    match model.monitor_on(port) {
        Some(id) => {
            let after = model.acquire(port, now);
            assert forall|q: Seq<char>| after.locks.contains_key(q) implies #[trigger]
                after.locks[q] != LockView::Monitor(id) by {
                if q != port && after.locks[q] == LockView::Monitor(id) {
                    assert(model.locks[q] == model.locks[port]);
                }
            }
        },
        None => {},
    }
}

} // verus!
