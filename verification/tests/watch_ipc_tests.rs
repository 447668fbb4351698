use latticefs::error::LatticeError;
use latticefs::ipc::frame::{decode_header, encode_frame};
use latticefs::ipc::handlers::{
    handle_watch_list, handle_watch_register, handle_watch_status, handle_watch_unregister, ipc_error_code,
    unexpected_message, Handler, WatchRegisterRequest,
};
use latticefs::ipc::MessageType;
use latticefs::model::object::ObjectID;
use latticefs::watcher::{WatchEntry, WatchRegistry};

fn entry(path: &str, id: u128) -> WatchEntry {
    WatchEntry {
        temp_path: path.to_string(),
        object_id: ObjectID::from_uuid(id),
        actor_id: [1u8; 32],
        original_hash: [2u8; 32],
        last_known_hash: [2u8; 32],
        display_name: "doc".to_string(),
        registered_at: 5,
    }
}

#[test]
fn registry_keeps_one_entry_per_path() {
    let mut reg = WatchRegistry::new();
    assert_eq!(reg.count(), 0);
    reg.register(entry("/tmp/a", 1));
    reg.register(entry("/tmp/b", 1));
    reg.register(entry("/tmp/a", 2));
    assert_eq!(reg.count(), 2);
    assert_eq!(reg.get("/tmp/a").unwrap().object_id, ObjectID::from_uuid(2));
    assert!(reg.update_hash("/tmp/b", [9u8; 32]));
    assert!(!reg.update_hash("/tmp/none", [9u8; 32]));
    assert_eq!(reg.get("/tmp/b").unwrap().last_known_hash, [9u8; 32]);
    assert_eq!(reg.get("/tmp/b").unwrap().original_hash, [2u8; 32]);
    let removed = reg.unregister_by_object(&ObjectID::from_uuid(1));
    assert_eq!(removed.len(), 1);
    assert_eq!(removed[0].temp_path, "/tmp/b");
    assert_eq!(reg.list().len(), 1);
    assert!(reg.unregister("/tmp/a").is_some());
    assert!(reg.unregister("/tmp/a").is_none());
    assert_eq!(reg.count(), 0);
}

#[test]
fn frames_read_back() {
    let frame = encode_frame(MessageType::StatusRequest, b"hello");
    assert_eq!(&frame[..6], &[0, 0, 0, 7, 1, 45]);
    assert_eq!(&frame[6..], b"hello");
    let mut header = [0u8; 6];
    header.copy_from_slice(&frame[..6]);
    let (t, n) = decode_header(&header).unwrap();
    assert_eq!(t, MessageType::StatusRequest);
    assert_eq!(n, 5);
    match decode_header(&[0x10, 0, 0, 0, 0, 0]) {
        Err(LatticeError::Serialization(m)) => assert_eq!(m, "Message too large: 268435456"),
        _ => panic!("expected a size error"),
    }
    match decode_header(&[0, 0, 0, 2, 0, 7]) {
        Err(LatticeError::InvalidPredicate(m)) => assert_eq!(m, "Unknown message type: 7"),
        _ => panic!("expected a type error"),
    }
}

#[test]
fn handlers_and_error_codes() {
    assert_eq!(Handler::for_message(MessageType::WatchListRequest), Handler::WatchList);
    assert_eq!(Handler::for_message(MessageType::SyncAck), Handler::Unexpected);
    assert_eq!(Handler::WatchList.reply_type(), MessageType::WatchListResponse);
    assert!(Handler::Shutdown.ends_connection());
    assert!(!Handler::Status.ends_connection());
    assert_eq!(unexpected_message(MessageType::SyncAck), "Unexpected message type: SyncAck");
    assert_eq!(ipc_error_code(&LatticeError::CapabilityExpired), 4);
    assert_eq!(ipc_error_code(&LatticeError::Unauthorized { permission: "a".into(), object: "b".into() }), 3);
    assert_eq!(ipc_error_code(&LatticeError::ObjectNotFound { id: "x".into() }), 2);
    assert_eq!(ipc_error_code(&LatticeError::HashMismatch), 99);
}

fn request(path: &str, id: &str, actor: usize, hash: usize) -> WatchRegisterRequest {
    WatchRegisterRequest {
        temp_path: path.to_string(),
        object_id: id.to_string(),
        actor_id: vec![1u8; actor],
        content_hash: vec![2u8; hash],
        display_name: "doc".to_string(),
    }
}

#[test]
fn watch_requests_over_ipc() {
    let id = "01234567-89ab-cdef-0123-456789abcdef";
    let mut none: Option<WatchRegistry> = None;
    let r = handle_watch_register(&mut none, request("/tmp/x", id, 32, 32), 7);
    assert!(!r.success);
    assert_eq!(r.message, "Watcher not enabled on this server");
    assert_eq!(handle_watch_list(&none).len(), 0);
    assert!(!handle_watch_status(&none, "/w", 3).running);

    let mut reg = Some(WatchRegistry::new());
    let r = handle_watch_register(&mut reg, request("/tmp/x", "nope", 32, 32), 7);
    assert!(!r.success);
    assert!(r.message.starts_with("Invalid object ID: "));
    let r = handle_watch_register(&mut reg, request("/tmp/x", id, 31, 32), 7);
    assert_eq!(r.message, "Invalid actor ID: expected 32 bytes");
    let r = handle_watch_register(&mut reg, request("/tmp/x", id, 32, 3), 7);
    assert!(!r.success);
    let r = handle_watch_register(&mut reg, request("/tmp/x", id, 32, 32), 7);
    assert!(r.success);
    let listed = handle_watch_list(&reg);
    assert_eq!(listed.len(), 1);
    assert_eq!(listed[0].temp_path, "/tmp/x");
    assert_eq!(listed[0].object_id, id);
    assert_eq!(listed[0].registered_at, 7);
    let status = handle_watch_status(&reg, "/w", 3);
    assert!(status.running);
    assert_eq!(status.watched_count, 1);
    assert_eq!(status.watch_dir, "/w");
    assert_eq!(status.pid, 3);
    let r = handle_watch_unregister(&mut reg, "/tmp/x");
    assert!(r.success);
    assert_eq!(r.message, "Unregistered /tmp/x");
    let r = handle_watch_unregister(&mut reg, "/tmp/x");
    assert!(!r.success);
    assert_eq!(r.message, "File not registered: /tmp/x");
}
