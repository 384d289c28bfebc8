use kv_store::network::Server;
use kv_store::replication::{MonitorAction, Role, FAILOVER_TIMEOUT_MS};
use kv_store::store::KeyValueStore;

fn plain_node() -> Server {
    Server::new(KeyValueStore::new(), "127.0.0.1:7000".to_string())
}

fn replicated_node(address: &str) -> Server {
    Server::with_replication(KeyValueStore::new(), address.to_string(), 0)
}

#[test]
fn get_missing_key_is_not_found() {
    let mut node = plain_node();
    let reply = node.execute_command("GET missing", 0);
    assert_eq!(reply.response, "Key not found");
    assert!(reply.outbound.is_empty());
}

#[test]
fn delete_missing_key_is_null() {
    let mut node = plain_node();
    let reply = node.execute_command("DELETE missing", 0);
    assert_eq!(reply.response, "NULL");
    assert_ne!(reply.response, "OK");
}

#[test]
fn put_then_get_joins_value_words() {
    let mut node = plain_node();
    assert_eq!(node.execute_command("PUT k  hello   world ", 0).response, "OK");
    assert_eq!(node.execute_command("GET k", 0).response, "hello world");
    assert_eq!(node.execute_command("DELETE k", 0).response, "OK");
    assert_eq!(node.execute_command("GET k", 0).response, "Key not found");
}

#[test]
fn verb_case_is_ignored() {
    let mut node = plain_node();
    assert_eq!(node.execute_command("put key value", 0).response, "OK");
    assert_eq!(node.execute_command("gEt key", 0).response, "value");
}

#[test]
fn usage_and_unknown_errors() {
    let mut node = plain_node();
    assert_eq!(node.execute_command("   ", 0).response, "Error: Empty command");
    assert_eq!(node.execute_command("GET", 0).response, "Error: GET <key>");
    assert_eq!(node.execute_command("GET a b", 0).response, "Error: GET <key>");
    assert_eq!(node.execute_command("PUT a", 0).response, "Error: Usage: PUT <key> <value>");
    assert_eq!(node.execute_command("DELETE", 0).response, "Error: DELETE <key>");
    assert_eq!(node.execute_command("frob x", 0).response, "Error: Unknown command 'frob'");
}

#[test]
fn keys_listing() {
    let mut node = plain_node();
    assert_eq!(node.execute_command("KEYS", 0).response, "No keys found");
    node.execute_command("PUT a 1", 0);
    node.execute_command("PUT b 2", 0);
    let listing = node.execute_command("KEYS", 0).response;
    assert!(listing == "a, b" || listing == "b, a");
}

#[test]
fn replication_commands_without_replication() {
    let mut node = plain_node();
    assert_eq!(node.execute_command("HEARTBEAT", 0).response, "ERROR: Replication not enabled");
    assert_eq!(node.execute_command("REPLICATE PUT a b", 0).response, "ERROR: Replication not enabled");
    assert_eq!(node.execute_command("ADD_BACKUP x", 0).response, "ERROR: Replication not enabled");
    assert_eq!(node.execute_command("REPLICATE", 0).response, "ERROR: Usage: REPLICATE <operation>");
    assert_eq!(node.execute_command("ADD_BACKUP", 0).response, "ERROR: Usage: ADD_BACKUP <address>");
    assert!(node.start_as_primary().is_err());
    assert!(node.add_backup("x".to_string()).is_err());
    assert_eq!(node.role(), None);
}

#[test]
fn primary_forwards_writes_to_backup() {
    let mut primary = replicated_node("127.0.0.1:7901");
    let mut backup = replicated_node("127.0.0.1:7902");
    primary.start_as_primary().unwrap();
    backup.start_as_backup("127.0.0.1:7901".to_string(), 0).unwrap();

    assert_eq!(primary.execute_command("ADD_BACKUP 127.0.0.1:7902", 10).response, "OK");
    let reply = primary.execute_command("PUT replicated_key replicated value", 20);
    assert_eq!(reply.response, "OK");
    assert_eq!(reply.outbound.len(), 1);
    assert_eq!(reply.outbound[0].address, "127.0.0.1:7902");
    assert_eq!(reply.outbound[0].command, "REPLICATE PUT replicated_key replicated value");

    for message in &reply.outbound {
        assert_eq!(backup.execute_command(&message.command, 30).response, "OK");
    }
    assert_eq!(backup.execute_command("GET replicated_key", 40).response, "replicated value");

    let reply = primary.execute_command("DELETE replicated_key", 50);
    assert_eq!(reply.outbound[0].command, "REPLICATE DELETE replicated_key");
    assert_eq!(backup.execute_command(&reply.outbound[0].command, 60).response, "OK");
    assert_eq!(backup.store().get("replicated_key"), None);
}

#[test]
fn role_errors_become_replies() {
    let mut primary = replicated_node("p");
    primary.start_as_primary().unwrap();
    assert_eq!(
        primary.execute_command("REPLICATE PUT a b", 0).response,
        "ERROR: Replication error: Only backups can apply operations from primary"
    );
    let mut backup = replicated_node("b");
    backup.start_as_backup("p".to_string(), 0).unwrap();
    assert_eq!(
        backup.execute_command("ADD_BACKUP x", 0).response,
        "ERROR: Replication error: Only primary nodes can add backups"
    );
    assert_eq!(
        backup.execute_command("REPLICATE FROB a", 0).response,
        "ERROR: Replication error: Invalid operation: FROB a"
    );
    assert_eq!(backup.store().get("a"), None);
}

#[test]
fn heartbeat_keeps_backup_waiting() {
    let mut backup = replicated_node("b");
    backup.start_as_backup("p".to_string(), 0).unwrap();
    assert_eq!(backup.execute_command("HEARTBEAT", 4000).response, "OK");
    assert_eq!(backup.monitor_tick(4000 + FAILOVER_TIMEOUT_MS), MonitorAction::Wait);
    assert_eq!(backup.role(), Some(Role::Backup("p".to_string())));
}

#[test]
fn silent_primary_is_replaced() {
    let mut backup = replicated_node("127.0.0.1:7902");
    backup.start_as_backup("127.0.0.1:7901".to_string(), 1000).unwrap();
    assert_eq!(backup.execute_command("ADD_BACKUP 127.0.0.1:7903", 1500).response,
        "ERROR: Replication error: Only primary nodes can add backups");
    assert_eq!(backup.monitor_tick(1000 + FAILOVER_TIMEOUT_MS), MonitorAction::Wait);
    assert_eq!(backup.monitor_tick(1001 + FAILOVER_TIMEOUT_MS), MonitorAction::Promoted);
    assert_eq!(backup.role(), Some(Role::Primary));
    assert_eq!(backup.monitor_tick(99_999), MonitorAction::Stop);
    assert_eq!(backup.role(), Some(Role::Primary));
    assert_eq!(backup.execute_command("ADD_BACKUP 127.0.0.1:7903", 7000).response, "OK");
    let round = backup.heartbeat_round().unwrap();
    assert_eq!(round.len(), 1);
    assert_eq!(round[0].address, "127.0.0.1:7903");
    assert_eq!(round[0].command, "HEARTBEAT");
}

#[test]
fn no_heartbeats_outside_primary_role() {
    let mut node = replicated_node("n");
    assert!(node.heartbeat_round().is_none());
    assert_eq!(node.monitor_tick(1_000_000), MonitorAction::Stop);
    assert_eq!(node.role(), Some(Role::Standalone));
    node.start_as_primary().unwrap();
    assert_eq!(node.heartbeat_round().map(|r| r.len()), Some(0));
    node.add_backup("b1".to_string()).unwrap();
    node.add_backup("b1".to_string()).unwrap();
    assert_eq!(node.heartbeat_round().map(|r| r.len()), Some(1));
    assert_eq!(node.address(), "n");
}
