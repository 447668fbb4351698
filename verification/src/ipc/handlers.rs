//! What the IPC server decides: which handler a message goes to and what
//! it answers with, the error codes it reports, and the requests that
//! manage the watch registry.

use vstd::prelude::*;
use crate::error::LatticeError;
use crate::ipc::MessageType;
use crate::model::object::{uuid_parse, uuid_text, ObjectID};
use crate::text::string_of;
use crate::watcher::{WatchEntry, WatchRegistry};

verus! {

/// The error code of a message of a type the server does not serve.
pub const UNEXPECTED_MESSAGE_CODE: u32 = 1;

/// Who handles an incoming message.
#[derive(Debug, Clone, Copy, PartialEq, Eq, Structural)]
pub enum Handler {
    Share,
    Revoke,
    Fetch,
    Status,
    Shutdown,
    Sync,
    WatchRegister,
    WatchUnregister,
    WatchList,
    WatchStatus,
    /// A type the server does not serve; answered with an error.
    Unexpected,
}

/// The handler of each message type.
pub open spec fn handler_for(t: MessageType) -> Handler {
    match t {
        MessageType::ShareRequest => Handler::Share,
        MessageType::RevokeRequest => Handler::Revoke,
        MessageType::FetchRequest => Handler::Fetch,
        MessageType::StatusRequest => Handler::Status,
        MessageType::ShutdownRequest => Handler::Shutdown,
        MessageType::SyncEvent => Handler::Sync,
        MessageType::WatchRegisterRequest => Handler::WatchRegister,
        MessageType::WatchUnregisterRequest => Handler::WatchUnregister,
        MessageType::WatchListRequest => Handler::WatchList,
        MessageType::WatchStatusRequest => Handler::WatchStatus,
        _ => Handler::Unexpected,
    }
}

/// The type of the reply a handler sends (an unexpected message is
/// answered as a share response carrying an error).
pub open spec fn reply_type(h: Handler) -> MessageType {
    match h {
        Handler::Share => MessageType::ShareResponse,
        Handler::Revoke => MessageType::RevokeResponse,
        Handler::Fetch => MessageType::FetchResponse,
        Handler::Status => MessageType::StatusResponse,
        Handler::Shutdown => MessageType::ShutdownResponse,
        Handler::Sync => MessageType::SyncAck,
        Handler::WatchRegister => MessageType::WatchRegisterResponse,
        Handler::WatchUnregister => MessageType::WatchUnregisterResponse,
        Handler::WatchList => MessageType::WatchListResponse,
        Handler::WatchStatus => MessageType::WatchStatusResponse,
        Handler::Unexpected => MessageType::ShareResponse,
    }
}

/// The name of a message type (what `Debug` prints).
pub open spec fn message_type_name(t: MessageType) -> Seq<char> {
    match t {
        MessageType::Unknown => "Unknown"@,
        MessageType::ShareRequest => "ShareRequest"@,
        MessageType::ShareResponse => "ShareResponse"@,
        MessageType::RevokeRequest => "RevokeRequest"@,
        MessageType::RevokeResponse => "RevokeResponse"@,
        MessageType::FetchRequest => "FetchRequest"@,
        MessageType::FetchResponse => "FetchResponse"@,
        MessageType::SyncEvent => "SyncEvent"@,
        MessageType::SyncAck => "SyncAck"@,
        MessageType::StatusRequest => "StatusRequest"@,
        MessageType::StatusResponse => "StatusResponse"@,
        MessageType::ShutdownRequest => "ShutdownRequest"@,
        MessageType::ShutdownResponse => "ShutdownResponse"@,
        MessageType::WatchRegisterRequest => "WatchRegisterRequest"@,
        MessageType::WatchRegisterResponse => "WatchRegisterResponse"@,
        MessageType::WatchUnregisterRequest => "WatchUnregisterRequest"@,
        MessageType::WatchUnregisterResponse => "WatchUnregisterResponse"@,
        MessageType::WatchListRequest => "WatchListRequest"@,
        MessageType::WatchListResponse => "WatchListResponse"@,
        MessageType::WatchStatusRequest => "WatchStatusRequest"@,
        MessageType::WatchStatusResponse => "WatchStatusResponse"@,
        MessageType::Error => "Error"@,
    }
}

impl Handler {
    /// The handler of a message type.
    pub fn for_message(t: MessageType) -> (r: Handler)
        ensures
            r == handler_for(t),
    {
        match t {
            MessageType::ShareRequest => Handler::Share,
            MessageType::RevokeRequest => Handler::Revoke,
            MessageType::FetchRequest => Handler::Fetch,
            MessageType::StatusRequest => Handler::Status,
            MessageType::ShutdownRequest => Handler::Shutdown,
            MessageType::SyncEvent => Handler::Sync,
            MessageType::WatchRegisterRequest => Handler::WatchRegister,
            MessageType::WatchUnregisterRequest => Handler::WatchUnregister,
            MessageType::WatchListRequest => Handler::WatchList,
            MessageType::WatchStatusRequest => Handler::WatchStatus,
            _ => Handler::Unexpected,
        }
    }

    /// The type of the reply this handler sends.
    pub fn reply_type(&self) -> (r: MessageType)
        ensures
            r == reply_type(*self),
    {
        match self {
            Handler::Share => MessageType::ShareResponse,
            Handler::Revoke => MessageType::RevokeResponse,
            Handler::Fetch => MessageType::FetchResponse,
            Handler::Status => MessageType::StatusResponse,
            Handler::Shutdown => MessageType::ShutdownResponse,
            Handler::Sync => MessageType::SyncAck,
            Handler::WatchRegister => MessageType::WatchRegisterResponse,
            Handler::WatchUnregister => MessageType::WatchUnregisterResponse,
            Handler::WatchList => MessageType::WatchListResponse,
            Handler::WatchStatus => MessageType::WatchStatusResponse,
            Handler::Unexpected => MessageType::ShareResponse,
        }
    }

    /// Whether the connection ends after this reply: only a shutdown ends it.
    pub fn ends_connection(&self) -> (r: bool)
        ensures
            r == (*self == Handler::Shutdown),
    {
        match self {
            Handler::Shutdown => true,
            _ => false,
        }
    }
}

/// The message of the error sent for a type the server does not serve.
pub fn unexpected_message(t: MessageType) -> (r: String)
    ensures
        r@ == "Unexpected message type: "@ + message_type_name(t),
{
    let mut m = string_of("Unexpected message type: ");
    let name = match t {
        MessageType::Unknown => "Unknown",
        MessageType::ShareRequest => "ShareRequest",
        MessageType::ShareResponse => "ShareResponse",
        MessageType::RevokeRequest => "RevokeRequest",
        MessageType::RevokeResponse => "RevokeResponse",
        MessageType::FetchRequest => "FetchRequest",
        MessageType::FetchResponse => "FetchResponse",
        MessageType::SyncEvent => "SyncEvent",
        MessageType::SyncAck => "SyncAck",
        MessageType::StatusRequest => "StatusRequest",
        MessageType::StatusResponse => "StatusResponse",
        MessageType::ShutdownRequest => "ShutdownRequest",
        MessageType::ShutdownResponse => "ShutdownResponse",
        MessageType::WatchRegisterRequest => "WatchRegisterRequest",
        MessageType::WatchRegisterResponse => "WatchRegisterResponse",
        MessageType::WatchUnregisterRequest => "WatchUnregisterRequest",
        MessageType::WatchUnregisterResponse => "WatchUnregisterResponse",
        MessageType::WatchListRequest => "WatchListRequest",
        MessageType::WatchListResponse => "WatchListResponse",
        MessageType::WatchStatusRequest => "WatchStatusRequest",
        MessageType::WatchStatusResponse => "WatchStatusResponse",
        MessageType::Error => "Error",
    };
    m.append(name);
    m
}

/// The code an error is reported with: 2 for a missing object or version,
/// 3 for a missing permission, 4 for a capability that does not hold, 6 for
/// a quota or rate limit, 99 for anything else.
pub open spec fn error_code(e: LatticeError) -> u32 {
    match e {
        LatticeError::ObjectNotFound { .. } => 2,
        LatticeError::VersionNotFound { .. } => 2,
        LatticeError::Unauthorized { .. } => 3,
        LatticeError::CapabilityExpired => 4,
        LatticeError::CapabilityRevoked => 4,
        LatticeError::CapabilityNotYetValid => 4,
        LatticeError::InvalidSignature => 4,
        LatticeError::InvalidProofChain(_) => 4,
        LatticeError::InvalidAttenuation { .. } => 4,
        LatticeError::QuotaExceeded { .. } => 6,
        LatticeError::RateLimited { .. } => 6,
        _ => 99,
    }
}

/// The code an error is reported with (see `error_code`).
pub fn ipc_error_code(err: &LatticeError) -> (r: u32)
    ensures
        r == error_code(*err),
{
    match err {
        LatticeError::ObjectNotFound { .. } => 2,
        LatticeError::VersionNotFound { .. } => 2,
        LatticeError::Unauthorized { .. } => 3,
        LatticeError::CapabilityExpired => 4,
        LatticeError::CapabilityRevoked => 4,
        LatticeError::CapabilityNotYetValid => 4,
        LatticeError::InvalidSignature => 4,
        LatticeError::InvalidProofChain(_) => 4,
        LatticeError::InvalidAttenuation { .. } => 4,
        LatticeError::QuotaExceeded { .. } => 6,
        LatticeError::RateLimited { .. } => 6,
        _ => 99,
    }
}

// ---- The watch registry over IPC ----

/// What `uuid::Uuid::parse_str` reports of text that is not a UUID (its
/// error's `Display`).
pub uninterp spec fn uuid_error_text(s: Seq<char>) -> Seq<char>;

/// `uuid::Uuid::parse_str(s)`, with its error as text. Claimed: a UUID
/// exactly when the named parse gives one, and that UUID; else the named
/// error text.
#[verifier::external_body]
fn parse_uuid_reporting(s: &str) -> (r: Result<u128, String>)
    ensures
        match r {
            Ok(u) => uuid_parse(s@) == Some(u),
            Err(m) => uuid_parse(s@) is None && m@ == uuid_error_text(s@),
        },
{
    match uuid::Uuid::parse_str(s) {
        Ok(u) => Ok(u.as_u128()),
        Err(e) => Err(e.to_string()),
    }
}

/// A request to watch a file for an object.
pub struct WatchRegisterRequest {
    pub temp_path: String,
    pub object_id: String,
    pub actor_id: Vec<u8>,
    pub content_hash: Vec<u8>,
    pub display_name: String,
}

/// Whether a watch request succeeded, and what the server says.
pub struct WatchReply {
    pub success: bool,
    pub message: String,
}

/// A watched file as listed over IPC.
pub struct WatchedFileInfo {
    pub temp_path: String,
    pub object_id: String,
    pub display_name: String,
    pub registered_at: i64,
}

/// The state of the watcher as reported over IPC.
pub struct WatchStatusReply {
    pub running: bool,
    pub watched_count: u64,
    pub watch_dir: String,
    pub pid: u64,
}

/// Copy 32 bytes out of a list that has exactly 32.
fn to_array32(b: &Vec<u8>) -> (r: [u8; 32])
    requires
        b@.len() == 32,
    ensures
        r@ == b@,
{
    let mut out = [0u8; 32];
    let mut i: usize = 0;
    while i < 32
        invariant
            i <= 32,
            b@.len() == 32,
            forall|k: int| 0 <= k < i ==> out@[k] == b@[k],
        decreases 32 - i,
    {
        out[i] = b[i];
        i = i + 1;
    }
    assert(out@ =~= b@);
    out
}

/// The message of a refusal when the server runs without a watcher.
pub open spec fn not_enabled_text() -> Seq<char> {
    "Watcher not enabled on this server"@
}

/// Register a watch at `now` (microseconds since the epoch). Refused, in
/// this order: without a watcher; for an object identifier that is not a
/// UUID; for an actor identifier or a content hash that is not 32 bytes.
/// Else the file is watched (replacing any watch of the same path), with
/// the content hash as both the original and the last known hash.
pub fn handle_watch_register(registry: &mut Option<WatchRegistry>, request: WatchRegisterRequest, now: i64) -> (r: WatchReply)
    ensures
        match *old(registry) {
            None => !r.success && r.message@ == not_enabled_text() && *final(registry) == *old(registry),
            Some(reg) => match uuid_parse(request.object_id@) {
                None => !r.success && r.message@ == "Invalid object ID: "@ + uuid_error_text(request.object_id@)
                    && *final(registry) == *old(registry),
                Some(u) => if request.actor_id@.len() != 32 {
                    !r.success && r.message@ == "Invalid actor ID: expected 32 bytes"@ && *final(registry) == *old(registry)
                } else if request.content_hash@.len() != 32 {
                    !r.success && r.message@ == "Invalid content hash: expected 32 bytes"@ && *final(registry)
                        == *old(registry)
                } else {
                    &&& r.success
                    &&& r.message@ == "Registered "@ + request.temp_path@
                    &&& *final(registry) matches Some(nreg)
                    &&& exists|e: WatchEntry|
                        nreg.view() == reg.view().insert(request.temp_path@, e) && e.temp_path@ == request.temp_path@
                            && e.object_id == ObjectID(u) && e.actor_id@ == request.actor_id@ && e.original_hash@
                            == request.content_hash@ && e.last_known_hash@ == request.content_hash@
                            && e.display_name@ == request.display_name@ && e.registered_at == now
                },
            },
        },
{
    let reg = match registry {
        Some(reg) => reg,
        None => return WatchReply { success: false, message: string_of("Watcher not enabled on this server") },
    };
    let u = match parse_uuid_reporting(request.object_id.as_str()) {
        Ok(u) => u,
        Err(e) => {
            let mut m = string_of("Invalid object ID: ");
            m.append(e.as_str());
            return WatchReply { success: false, message: m };
        },
    };
    if request.actor_id.len() != 32 {
        return WatchReply { success: false, message: string_of("Invalid actor ID: expected 32 bytes") };
    }
    if request.content_hash.len() != 32 {
        return WatchReply { success: false, message: string_of("Invalid content hash: expected 32 bytes") };
    }
    let actor_id = to_array32(&request.actor_id);
    let hash = to_array32(&request.content_hash);
    let mut message = string_of("Registered ");
    message.append(request.temp_path.as_str());
    let entry = WatchEntry {
        temp_path: request.temp_path,
        object_id: ObjectID(u),
        actor_id,
        original_hash: hash,
        last_known_hash: hash,
        display_name: request.display_name,
        registered_at: now,
    };
    let ghost e = entry;
    reg.register(entry);
    WatchReply { success: true, message }
}

/// Stop watching a path: refused without a watcher; else whether it was
/// watched.
pub fn handle_watch_unregister(registry: &mut Option<WatchRegistry>, temp_path: &str) -> (r: WatchReply)
    ensures
        match *old(registry) {
            None => !r.success && r.message@ == not_enabled_text() && *final(registry) == *old(registry),
            Some(reg) => {
                &&& *final(registry) matches Some(nreg)
                &&& nreg.view() == reg.view().remove(temp_path@)
                &&& if reg.view().dom().contains(temp_path@) {
                    r.success && r.message@ == "Unregistered "@ + temp_path@
                } else {
                    !r.success && r.message@ == "File not registered: "@ + temp_path@
                }
            },
        },
{
    let reg = match registry {
        Some(reg) => reg,
        None => return WatchReply { success: false, message: string_of("Watcher not enabled on this server") },
    };
    match reg.unregister(temp_path) {
        Some(_) => {
            let mut m = string_of("Unregistered ");
            m.append(temp_path);
            WatchReply { success: true, message: m }
        },
        None => {
            let mut m = string_of("File not registered: ");
            m.append(temp_path);
            WatchReply { success: false, message: m }
        },
    }
}

/// How a watched entry is listed.
pub open spec fn listed_as(e: WatchEntry, f: WatchedFileInfo) -> bool {
    f.temp_path@ == e.temp_path@ && f.object_id@ == uuid_text(e.object_id.0) && f.display_name@ == e.display_name@
        && f.registered_at == e.registered_at
}

/// The watched files (none without a watcher), each once.
pub fn handle_watch_list(registry: &Option<WatchRegistry>) -> (r: Vec<WatchedFileInfo>)
    ensures
        match *registry {
            None => r@.len() == 0,
            Some(reg) => (forall|i: int|
                0 <= i < r@.len() ==> reg.view().dom().contains((#[trigger] r@[i]).temp_path@) && listed_as(
                    reg.view()[r@[i].temp_path@],
                    r@[i],
                )) && (forall|k: Seq<char>|
                #[trigger] reg.view().dom().contains(k) ==> exists|i: int| 0 <= i < r@.len() && r@[i].temp_path@ == k)
                && r@.map_values(|f: WatchedFileInfo| f.temp_path@).no_duplicates(),
        },
{
    let mut out: Vec<WatchedFileInfo> = Vec::new();
    let reg = match registry {
        Some(reg) => reg,
        None => return out,
    };
    let entries = reg.list();
    let mut i: usize = 0;
    while i < entries.len()
        invariant
            i <= entries@.len(),
            out@.len() == i,
            forall|j: int| 0 <= j < i ==> listed_as(entries@[j], #[trigger] out@[j]),
        decreases entries@.len() - i,
    {
        let e = &entries[i];
        let info = WatchedFileInfo {
            temp_path: string_of(e.temp_path.as_str()),
            object_id: e.object_id.to_string(),
            display_name: string_of(e.display_name.as_str()),
            registered_at: e.registered_at,
        };
        out.push(info);
        i = i + 1;
    }
    proof {
        assert forall|j: int| 0 <= j < out@.len() implies (#[trigger] out@[j]).temp_path@ == entries@[j].temp_path@ by {
            assert(listed_as(entries@[j], out@[j]));
        }
        let ps = out@.map_values(|f: WatchedFileInfo| f.temp_path@);
        assert forall|a: int, b: int| 0 <= a < b < ps.len() implies ps[a] != ps[b] by {
            assert(crate::watcher::entry_paths(entries@)[a] != crate::watcher::entry_paths(entries@)[b]);
        }
        assert forall|k: Seq<char>| #[trigger] reg.view().dom().contains(k) implies exists|j: int| 0 <= j < out@.len() && out@[j].temp_path@ == k by {
            let j = choose|j: int| 0 <= j < entries@.len() && entries@[j].temp_path@ == k;
            assert(out@[j].temp_path@ == k);
        }
    }
    out
}

/// The watcher's state: whether it runs, how many files it watches and in
/// which directory (0 and empty without a watcher), and the server's process.
pub fn handle_watch_status(registry: &Option<WatchRegistry>, watch_dir: &str, pid: u64) -> (r: WatchStatusReply)
    ensures
        r.running == registry is Some,
        r.pid == pid,
        match *registry {
            None => r.watched_count == 0 && r.watch_dir@.len() == 0,
            Some(reg) => r.watched_count == reg.view().dom().len() && r.watch_dir@ == watch_dir@,
        },
{
    match registry {
        Some(reg) => WatchStatusReply {
            running: true,
            watched_count: reg.count() as u64,
            watch_dir: string_of(watch_dir),
            pid,
        },
        None => WatchStatusReply { running: false, watched_count: 0, watch_dir: String::new(), pid },
    }
}

} // verus!
