use kv_store::client::Client;
use kv_store::error::StoreError;
use kv_store::replication::{check_reply, MonitorAction, Operation, ReplicationManager, Role};
use kv_store::store::KeyValueStore;

#[test]
fn operation_text_forms() {
    let put = Operation::Put("k".to_string(), "v w".to_string());
    assert_eq!(put.to_string(), "PUT k v w");
    let delete = Operation::Delete("k".to_string());
    assert_eq!(delete.to_string(), "DELETE k");
}

#[test]
fn operation_round_trips() {
    let put = Operation::Put("key".to_string(), "a multi word value".to_string());
    match Operation::from_string(&put.to_string()) {
        Some(Operation::Put(k, v)) => {
            assert_eq!(k, "key");
            assert_eq!(v, "a multi word value");
        }
        other => panic!("unexpected {:?}", other),
    }
    let delete = Operation::Delete("key".to_string());
    match Operation::from_string(&delete.to_string()) {
        Some(Operation::Delete(k)) => assert_eq!(k, "key"),
        other => panic!("unexpected {:?}", other),
    }
}

#[test]
fn malformed_operations_are_refused() {
    assert!(Operation::from_string("").is_none());
    assert!(Operation::from_string("PUT k").is_none());
    assert!(Operation::from_string("DELETE").is_none());
    assert!(Operation::from_string("DELETE a b").is_none());
    assert!(Operation::from_string("Delete a").is_none());
    assert!(Operation::from_string("GET a").is_none());
}

#[test]
fn role_invariant_holds() {
    let mut rm = ReplicationManager::new(0);
    let mut store = KeyValueStore::new();
    let op = Operation::Put("a".to_string(), "b".to_string());
    assert!(matches!(rm.add_backup("x".to_string()), Err(StoreError::ReplicationError(_))));
    assert!(matches!(rm.replicate_operation(&op), Err(StoreError::ReplicationError(_))));
    assert!(matches!(rm.apply_operation(&mut store, "PUT a b"), Err(StoreError::ReplicationError(_))));
    assert!(matches!(rm.promote_to_primary(), Err(StoreError::ReplicationError(_))));

    rm.start_primary().unwrap();
    assert!(matches!(rm.apply_operation(&mut store, "PUT a b"), Err(StoreError::ReplicationError(_))));
    assert_eq!(store.get("a"), None);
    rm.add_backup("x".to_string()).unwrap();
    rm.add_backup("y".to_string()).unwrap();
    rm.add_backup("x".to_string()).unwrap();
    assert_eq!(rm.get_backups(), vec!["x".to_string(), "y".to_string()]);
    let msgs = rm.replicate_operation(&op).unwrap();
    assert_eq!(msgs.len(), 2);
    assert_eq!(msgs[1].address, "y");
    assert_eq!(msgs[1].command, "REPLICATE PUT a b");

    let mut backup = ReplicationManager::new(0);
    backup.start_backup("p".to_string(), 0).unwrap();
    assert!(matches!(backup.add_backup("x".to_string()), Err(StoreError::ReplicationError(_))));
    assert!(matches!(backup.replicate_operation(&op), Err(StoreError::ReplicationError(_))));
    backup.apply_operation(&mut store, "PUT a b c").unwrap();
    assert_eq!(store.get("a"), Some("b c".to_string()));
    backup.apply_operation(&mut store, "DELETE a").unwrap();
    assert_eq!(store.get("a"), None);
    assert!(matches!(backup.apply_operation(&mut store, "PUT a"), Err(StoreError::ReplicationError(_))));
}

#[test]
fn failover_triggers_once() {
    let mut rm = ReplicationManager::new(0);
    rm.start_backup("p".to_string(), 100).unwrap();
    assert_eq!(rm.monitor_tick(50), MonitorAction::Wait);
    assert_eq!(rm.monitor_tick(5100), MonitorAction::Wait);
    rm.receive_heartbeat(5000).unwrap();
    assert_eq!(rm.monitor_tick(10_000), MonitorAction::Wait);
    assert_eq!(rm.monitor_tick(10_001), MonitorAction::Promoted);
    assert_eq!(rm.get_role(), Role::Primary);
    assert_eq!(rm.monitor_tick(20_000), MonitorAction::Stop);
    assert_eq!(rm.get_role(), Role::Primary);
    rm.receive_heartbeat(30_000).unwrap();
    assert_eq!(rm.get_role(), Role::Primary);
}

#[test]
fn role_equality() {
    assert_eq!(Role::Backup("a".to_string()), Role::Backup("a".to_string()));
    assert_ne!(Role::Backup("a".to_string()), Role::Backup("b".to_string()));
    assert_ne!(Role::Primary, Role::Standalone);
}

#[test]
fn peer_replies() {
    assert!(check_reply("OK").is_ok());
    assert_eq!(
        check_reply("NULL"),
        Err(StoreError::ReplicationError("Unexpected response: NULL".to_string()))
    );
}

#[test]
fn error_texts() {
    assert_eq!(StoreError::IoError("refused".to_string()).to_string(), "I/O error: refused");
    assert_eq!(
        StoreError::SerializationError("bad".to_string()).to_string(),
        "Serialization error: bad"
    );
    assert_eq!(
        StoreError::ReplicationError("role".to_string()).to_string(),
        "Replication error: role"
    );
}

#[test]
fn client_reads_replies() {
    let client = Client::new("127.0.0.1:7890".to_string());
    assert_eq!(client.address(), "127.0.0.1:7890");
    assert_eq!(Client::read_get_reply("network_value".to_string()), Some("network_value".to_string()));
    assert_eq!(Client::read_get_reply("Key not found".to_string()), None);
    assert_eq!(Client::read_get_reply("NULL".to_string()), None);
    assert!(Client::read_put_reply("OK".to_string()).is_ok());
    assert_eq!(
        Client::read_put_reply("Error: Usage: PUT <key> <value>".to_string()),
        Err(StoreError::SerializationError("Error: Usage: PUT <key> <value>".to_string()))
    );
    assert!(Client::read_delete_reply("OK"));
    assert!(!Client::read_delete_reply("NULL"));
    assert!(Client::read_keys_reply("No keys found").is_empty());
    assert_eq!(
        Client::read_keys_reply("a, b,, c"),
        vec!["a".to_string(), "b,".to_string(), "c".to_string()]
    );
}
