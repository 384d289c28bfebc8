use vstd::prelude::*;

use crate::error::{error_text, StoreError};
use crate::replication::{
    apply_model, decode_operation, messages_to, monitor_post, replicate_command,
    MonitorAction, OperationModel, Operation, PeerMessage, ReplicationManager, Role,
};
use crate::store::KeyValueStore;
use crate::text::{is_literal, join_from, join_sep, join_with, join_words, split_words, views, words};

verus! {

/// The upper-case form of a string, as `str::to_uppercase` gives it.
pub uninterp spec fn upper_of(s: Seq<char>) -> Seq<char>;

/// Relies on `str::to_uppercase`: the result depends on the characters alone.
#[verifier::external_body]
fn uppercase(s: &str) -> (r: String)
    ensures
        r@ == upper_of(s@),
{
    s.to_uppercase()
}

/// The answer to one command line: the response line, and the command lines
/// to be sent to peers once the node's state is no longer held.
pub struct Reply {
    pub response: String,
    pub outbound: Vec<PeerMessage>,
}

/// A node of the key-value service: its store, the address it listens on,
/// and, when replication is enabled, its replication state.
pub struct Server {
    store: KeyValueStore,
    address: String,
    replication_manager: Option<ReplicationManager>,
}

/// The node's store, address and replication state are as they were.
pub open spec fn unchanged(o: Server, f: Server) -> bool {
    &&& f.spec_store() == o.spec_store()
    &&& f.spec_address() == o.spec_address()
    &&& f.spec_replication() == o.spec_replication()
}

/// The reply to a command that leaves the node unchanged and sends nothing.
pub open spec fn plain(o: Server, f: Server, r: Reply, text: Seq<char>) -> bool {
    &&& unchanged(o, f)
    &&& r.response@ == text
    &&& r.outbound.len() == 0
}

/// The effect of `HEARTBEAT` at time `now`.
pub open spec fn heartbeat_post(o: Server, now: u64, f: Server, r: Reply) -> bool {
    match o.spec_replication() {
        None => plain(o, f, r, "ERROR: Replication not enabled"@),
        Some(m0) => {
            &&& f.spec_store() == o.spec_store()
            &&& f.spec_address() == o.spec_address()
            &&& f.spec_replication() matches Some(m1) && m1.spec_role() == m0.spec_role()
                && m1.spec_backups() == m0.spec_backups() && m1.spec_last_heartbeat() == now
                && m1.spec_failover_timeout() == m0.spec_failover_timeout()
            &&& r.response@ == "OK"@
            &&& r.outbound.len() == 0
        },
    }
}

/// The effect of `REPLICATE <operation>`, whose words are `ws`.
pub open spec fn replicate_post(o: Server, ws: Seq<Seq<char>>, f: Server, r: Reply) -> bool {
    let op_text = join_words(ws.skip(1));
    if ws.len() < 2 {
        plain(o, f, r, "ERROR: Usage: REPLICATE <operation>"@)
    } else {
        match o.spec_replication() {
            None => plain(o, f, r, "ERROR: Replication not enabled"@),
            Some(m) => if !(m.spec_role() is Backup) {
                plain(
                    o,
                    f,
                    r,
                    "ERROR: Replication error: Only backups can apply operations from primary"@,
                )
            } else if decode_operation(op_text) is None {
                plain(o, f, r, "ERROR: Replication error: Invalid operation: "@ + op_text)
            } else {
                &&& f.spec_store() == apply_model(o.spec_store(), decode_operation(op_text)->0)
                &&& f.spec_replication() == o.spec_replication()
                &&& f.spec_address() == o.spec_address()
                &&& r.response@ == "OK"@
                &&& r.outbound.len() == 0
            },
        }
    }
}

/// The effect of `ADD_BACKUP <address>`, whose words are `ws`.
pub open spec fn add_backup_post(o: Server, ws: Seq<Seq<char>>, f: Server, r: Reply) -> bool {
    if ws.len() != 2 {
        plain(o, f, r, "ERROR: Usage: ADD_BACKUP <address>"@)
    } else {
        match o.spec_replication() {
            None => plain(o, f, r, "ERROR: Replication not enabled"@),
            Some(m0) => if !(m0.spec_role() is Primary) {
                plain(o, f, r, "ERROR: Replication error: Only primary nodes can add backups"@)
            } else {
                &&& f.spec_store() == o.spec_store()
                &&& f.spec_address() == o.spec_address()
                &&& f.spec_replication() matches Some(m1) && m1.spec_role() == m0.spec_role()
                    && m1.spec_last_heartbeat() == m0.spec_last_heartbeat()
                    && m1.spec_failover_timeout() == m0.spec_failover_timeout()
                    && m1.spec_backups() == if m0.spec_backups().contains(ws[1]) {
                    m0.spec_backups()
                } else {
                    m0.spec_backups().push(ws[1])
                }
                &&& r.response@ == "OK"@
                &&& r.outbound.len() == 0
            },
        }
    }
}

/// Whether the node is a primary.
pub open spec fn is_primary(s: Server) -> bool {
    s.spec_replication() matches Some(m) && m.spec_role() is Primary
}

/// The messages that forward `op` from a node in state `o`: one to each
/// backup of a primary, none otherwise.
pub open spec fn forwarded(o: Server, op: OperationModel, out: Seq<PeerMessage>) -> bool {
    if is_primary(o) {
        messages_to(out, o.spec_replication()->0.spec_backups(), replicate_command(op))
    } else {
        out.len() == 0
    }
}

/// The effect of `PUT <key> <value...>`, whose words are `ws`.
pub open spec fn put_post(o: Server, ws: Seq<Seq<char>>, f: Server, r: Reply) -> bool {
    if ws.len() < 3 {
        plain(o, f, r, "Error: Usage: PUT <key> <value>"@)
    } else {
        let op = OperationModel::Put(ws[1], join_words(ws.skip(2)));
        &&& f.spec_store() == apply_model(o.spec_store(), op)
        &&& f.spec_replication() == o.spec_replication()
        &&& f.spec_address() == o.spec_address()
        &&& r.response@ == "OK"@
        &&& forwarded(o, op, r.outbound@)
    }
}

/// The effect of `DELETE <key>`, whose words are `ws`.
pub open spec fn delete_post(o: Server, ws: Seq<Seq<char>>, f: Server, r: Reply) -> bool {
    if ws.len() != 2 {
        plain(o, f, r, "Error: DELETE <key>"@)
    } else {
        let op = OperationModel::Delete(ws[1]);
        let present = o.spec_store().contains_key(ws[1]);
        &&& f.spec_store() == apply_model(o.spec_store(), op)
        &&& f.spec_replication() == o.spec_replication()
        &&& f.spec_address() == o.spec_address()
        &&& r.response@ == if present {
            "OK"@
        } else {
            "NULL"@
        }
        &&& if present {
            forwarded(o, op, r.outbound@)
        } else {
            r.outbound.len() == 0
        }
    }
}

/// The effect of `GET <key>`, whose words are `ws`.
pub open spec fn get_post(o: Server, ws: Seq<Seq<char>>, f: Server, r: Reply) -> bool {
    if ws.len() != 2 {
        plain(o, f, r, "Error: GET <key>"@)
    } else if o.spec_store().contains_key(ws[1]) {
        plain(o, f, r, o.spec_store()[ws[1]])
    } else {
        plain(o, f, r, "Key not found"@)
    }
}

/// The effect of `KEYS`: the keys joined with a comma and a space, in some
/// order, each once.
pub open spec fn keys_post(o: Server, f: Server, r: Reply) -> bool {
    if o.spec_store().dom().len() == 0 {
        plain(o, f, r, "No keys found"@)
    } else {
        &&& unchanged(o, f)
        &&& r.outbound.len() == 0
        &&& exists|ks: Seq<Seq<char>>|
            ks.no_duplicates() && ks.to_set() == o.spec_store().dom() && r.response@ == join_sep(
                ks,
                ", "@,
            )
    }
}

/// The effect of one command whose upper-cased first word is `verb` and whose
/// words are `ws`, received at time `now`.
pub open spec fn dispatch_post(
    o: Server,
    verb: Seq<char>,
    ws: Seq<Seq<char>>,
    now: u64,
    f: Server,
    r: Reply,
) -> bool {
    if verb == "HEARTBEAT"@ {
        heartbeat_post(o, now, f, r)
    } else if verb == "REPLICATE"@ {
        replicate_post(o, ws, f, r)
    } else if verb == "ADD_BACKUP"@ {
        add_backup_post(o, ws, f, r)
    } else if verb == "GET"@ {
        get_post(o, ws, f, r)
    } else if verb == "PUT"@ {
        put_post(o, ws, f, r)
    } else if verb == "DELETE"@ {
        delete_post(o, ws, f, r)
    } else if verb == "KEYS"@ {
        keys_post(o, f, r)
    } else {
        plain(o, f, r, "Error: Unknown command '"@ + ws[0] + "'"@)
    }
}

/// A reply with no messages for peers.
fn answer(text: &str) -> (r: Reply)
    ensures
        r.response@ == text@,
        r.outbound.len() == 0,
{
    Reply { response: String::from_str(text), outbound: Vec::new() }
}

/// The reply that reports `e`.
fn error_reply(e: &StoreError) -> (r: Reply)
    ensures
        r.response@ == "ERROR: "@ + error_text(*e),
        r.outbound.len() == 0,
{
    let mut response = String::from_str("ERROR: ");
    let text = e.to_string();
    response.append(text.as_str());
    Reply { response, outbound: Vec::new() }
}

impl Server {
    pub closed spec fn spec_store(&self) -> Map<Seq<char>, Seq<char>> {
        self.store@
    }

    pub closed spec fn spec_address(&self) -> Seq<char> {
        self.address@
    }

    pub closed spec fn spec_replication(&self) -> Option<ReplicationManager> {
        self.replication_manager
    }

    pub closed spec fn wf(&self) -> bool {
        self.store.wf()
    }

    /// A node without replication.
    pub fn new(store: KeyValueStore, address: String) -> (r: Self)
        requires
            store.wf(),
        ensures
            r.wf(),
            r.spec_store() == store@,
            r.spec_address() == address@,
            r.spec_replication() is None,
    {
        Server { store, address, replication_manager: None }
    }

    /// A node with replication enabled, standalone until told otherwise.
    pub fn with_replication(store: KeyValueStore, address: String, now: u64) -> (r: Self)
        requires
            store.wf(),
        ensures
            r.wf(),
            r.spec_store() == store@,
            r.spec_address() == address@,
            r.spec_replication() matches Some(m) && m.spec_role() is Standalone
                && m.spec_backups().len() == 0 && m.spec_last_heartbeat() == now,
    {
        Server { store, address, replication_manager: Some(ReplicationManager::new(now)) }
    }

    /// The address the node listens on.
    pub fn address(&self) -> (r: &String)
        ensures
            r@ == self.spec_address(),
    {
        &self.address
    }

    /// The node's store.
    pub fn store(&self) -> (r: &KeyValueStore)
        requires
            self.wf(),
        ensures
            r.wf(),
            r@ == self.spec_store(),
    {
        &self.store
    }

    fn heartbeat(&mut self, now: u64) -> (r: Reply)
        requires
            old(self).wf(),
        ensures
            final(self).wf(),
            heartbeat_post(*old(self), now, *final(self), r),
    {
        match &mut self.replication_manager {
            Some(rm) => {
                let _ = rm.receive_heartbeat(now);
                answer("OK")
            },
            None => answer("ERROR: Replication not enabled"),
        }
    }

    fn replicate(&mut self, parts: &Vec<String>) -> (r: Reply)
        requires
            old(self).wf(),
        ensures
            final(self).wf(),
            replicate_post(*old(self), views(parts@), *final(self), r),
    {
        if parts.len() < 2 {
            return answer("ERROR: Usage: REPLICATE <operation>");
        }
        match &self.replication_manager {
            Some(rm) => {
                let op_str = join_from(parts, 1);
                match rm.apply_operation(&mut self.store, op_str.as_str()) {
                    Ok(()) => answer("OK"),
                    Err(e) => {
                        let r = error_reply(&e);
                        proof {
                            reveal_strlit("ERROR: ");
                            reveal_strlit("Replication error: ");
                            reveal_strlit("Invalid operation: ");
                            reveal_strlit("ERROR: Replication error: Invalid operation: ");
                            reveal_strlit("Only backups can apply operations from primary");
                            reveal_strlit(
                                "ERROR: Replication error: Only backups can apply operations from primary",
                            );
                            assert(r.response@ =~= if rm.spec_role() is Backup {
                                "ERROR: Replication error: Invalid operation: "@ + op_str@
                            } else {
                                "ERROR: Replication error: Only backups can apply operations from primary"@
                            });
                        }
                        r
                    },
                }
            },
            None => answer("ERROR: Replication not enabled"),
        }
    }

    fn add_backup_command(&mut self, parts: &Vec<String>) -> (r: Reply)
        requires
            old(self).wf(),
        ensures
            final(self).wf(),
            add_backup_post(*old(self), views(parts@), *final(self), r),
    {
        if parts.len() != 2 {
            return answer("ERROR: Usage: ADD_BACKUP <address>");
        }
        match &mut self.replication_manager {
            Some(rm) => {
                let address = parts[1].clone();
                assert(views(parts@)[1] == address@);
                match rm.add_backup(address) {
                    Ok(()) => answer("OK"),
                    Err(e) => {
                        let r = error_reply(&e);
                        proof {
                            reveal_strlit("ERROR: ");
                            reveal_strlit("Replication error: ");
                            reveal_strlit("Only primary nodes can add backups");
                            reveal_strlit(
                                "ERROR: Replication error: Only primary nodes can add backups",
                            );
                            assert(r.response@
                                =~= "ERROR: Replication error: Only primary nodes can add backups"@);
                        }
                        r
                    },
                }
            },
            None => answer("ERROR: Replication not enabled"),
        }
    }

    /// The messages that forward `op`: to each backup of a primary, else none.
    fn forward(&self, op: &Operation) -> (r: Vec<PeerMessage>)
        ensures
            forwarded(*self, op@, r@),
    {
        match &self.replication_manager {
            Some(rm) => match rm.replicate_operation(op) {
                Ok(msgs) => msgs,
                Err(_) => Vec::new(),
            },
            None => Vec::new(),
        }
    }

    fn get_command(&self, parts: &Vec<String>) -> (r: Reply)
        requires
            self.wf(),
        ensures
            get_post(*self, views(parts@), *self, r),
    {
        if parts.len() != 2 {
            return answer("Error: GET <key>");
        }
        assert(views(parts@)[1] == parts@[1]@);
        match self.store.get(parts[1].as_str()) {
            Some(value) => Reply { response: value, outbound: Vec::new() },
            None => answer("Key not found"),
        }
    }

    fn put_command(&mut self, parts: &Vec<String>) -> (r: Reply)
        requires
            old(self).wf(),
        ensures
            final(self).wf(),
            put_post(*old(self), views(parts@), *final(self), r),
    {
        if parts.len() < 3 {
            return answer("Error: Usage: PUT <key> <value>");
        }
        let key = parts[1].clone();
        let value = join_from(parts, 2);
        assert(views(parts@)[1] == key@);
        self.store.put(key.clone(), value.clone());
        let outbound = self.forward(&Operation::Put(key, value));
        Reply { response: String::from_str("OK"), outbound }
    }

    fn delete_command(&mut self, parts: &Vec<String>) -> (r: Reply)
        requires
            old(self).wf(),
        ensures
            final(self).wf(),
            delete_post(*old(self), views(parts@), *final(self), r),
    {
        if parts.len() != 2 {
            return answer("Error: DELETE <key>");
        }
        let key = parts[1].clone();
        assert(views(parts@)[1] == key@);
        let deleted = self.store.delete(key.as_str());
        if deleted {
            let outbound = self.forward(&Operation::Delete(key));
            Reply { response: String::from_str("OK"), outbound }
        } else {
            answer("NULL")
        }
    }

    fn keys_command(&self) -> (r: Reply)
        requires
            self.wf(),
        ensures
            keys_post(*self, *self, r),
    {
        let keys = self.store.keys();
        if keys.len() == 0 {
            answer("No keys found")
        } else {
            let response = join_with(&keys, 0, ", ");
            assert(views(keys@).skip(0) =~= views(keys@));
            Reply { response, outbound: Vec::new() }
        }
    }

    /// Carries out one command whose words are `parts` and whose first word,
    /// upper-cased, is `verb`, received at time `now`.
    pub fn dispatch(&mut self, verb: &String, parts: &Vec<String>, now: u64) -> (r: Reply)
        requires
            old(self).wf(),
            parts.len() > 0,
        ensures
            final(self).wf(),
            dispatch_post(*old(self), verb@, views(parts@), now, *final(self), r),
    {
        if is_literal(verb, "HEARTBEAT") {
            self.heartbeat(now)
        } else if is_literal(verb, "REPLICATE") {
            self.replicate(parts)
        } else if is_literal(verb, "ADD_BACKUP") {
            self.add_backup_command(parts)
        } else if is_literal(verb, "GET") {
            self.get_command(parts)
        } else if is_literal(verb, "PUT") {
            self.put_command(parts)
        } else if is_literal(verb, "DELETE") {
            self.delete_command(parts)
        } else if is_literal(verb, "KEYS") {
            self.keys_command()
        } else {
            let mut response = String::from_str("Error: Unknown command '");
            response.append(parts[0].as_str());
            response.append("'");
            assert(views(parts@)[0] == parts@[0]@);
            Reply { response, outbound: Vec::new() }
        }
    }

    /// Carries out one command line received at time `now`: its first word,
    /// in any case, names the command and the other words are its arguments.
    pub fn execute_command(&mut self, command: &str, now: u64) -> (r: Reply)
        requires
            old(self).wf(),
        ensures
            final(self).wf(),
            words(command@).len() == 0 ==> plain(
                *old(self),
                *final(self),
                r,
                "Error: Empty command"@,
            ),
            words(command@).len() > 0 ==> dispatch_post(
                *old(self),
                upper_of(words(command@)[0]),
                words(command@),
                now,
                *final(self),
                r,
            ),
    {
        let parts = split_words(command);
        if parts.len() == 0 {
            return answer("Error: Empty command");
        }
        let verb = uppercase(parts[0].as_str());
        assert(views(parts@)[0] == parts@[0]@);
        self.dispatch(&verb, &parts, now)
    }

    /// Makes the node a primary; fails when replication is not enabled.
    pub fn start_as_primary(&mut self) -> (r: Result<(), StoreError>)
        ensures
            r is Ok <==> old(self).spec_replication() is Some,
            r matches Err(e) ==> e is ReplicationError,
            final(self).spec_store() == old(self).spec_store(),
            final(self).spec_address() == old(self).spec_address(),
            r is Err ==> final(self).spec_replication() == old(self).spec_replication(),
            r is Ok ==> (final(self).spec_replication() matches Some(m1) && m1.spec_role() is Primary
                && m1.spec_backups() == old(self).spec_replication()->0.spec_backups()
                && m1.spec_last_heartbeat() == old(self).spec_replication()->0.spec_last_heartbeat()
                && m1.spec_failover_timeout() == old(
                self,
            ).spec_replication()->0.spec_failover_timeout()),
    {
        match &mut self.replication_manager {
            Some(rm) => rm.start_primary(),
            None => Err(StoreError::ReplicationError(String::from_str("Replication not enabled"))),
        }
    }

    /// Makes the node a backup of the primary at `primary_addr`, waiting for
    /// heartbeats from `now` on; fails when replication is not enabled.
    pub fn start_as_backup(&mut self, primary_addr: String, now: u64) -> (r: Result<(), StoreError>)
        ensures
            r is Ok <==> old(self).spec_replication() is Some,
            r matches Err(e) ==> e is ReplicationError,
            final(self).spec_store() == old(self).spec_store(),
            final(self).spec_address() == old(self).spec_address(),
            r is Err ==> final(self).spec_replication() == old(self).spec_replication(),
            r is Ok ==> (final(self).spec_replication() matches Some(m1) && m1.spec_role()
                == Role::Backup(primary_addr) && m1.spec_backups() == old(
                self,
            ).spec_replication()->0.spec_backups() && m1.spec_last_heartbeat() == now
                && m1.spec_failover_timeout() == old(
                self,
            ).spec_replication()->0.spec_failover_timeout()),
    {
        match &mut self.replication_manager {
            Some(rm) => rm.start_backup(primary_addr, now),
            None => Err(StoreError::ReplicationError(String::from_str("Replication not enabled"))),
        }
    }

    /// Registers a backup with this node; fails when replication is not
    /// enabled or the node is not a primary.
    pub fn add_backup(&mut self, backup_addr: String) -> (r: Result<(), StoreError>)
        ensures
            r is Ok <==> is_primary(*old(self)),
            r matches Err(e) ==> e is ReplicationError,
            final(self).spec_store() == old(self).spec_store(),
            final(self).spec_address() == old(self).spec_address(),
            r is Err ==> final(self).spec_replication() == old(self).spec_replication(),
            r is Ok ==> (final(self).spec_replication() matches Some(m1) && m1.spec_role() is Primary
                && m1.spec_backups() == if old(self).spec_replication()->0.spec_backups().contains(
                backup_addr@,
            ) {
                old(self).spec_replication()->0.spec_backups()
            } else {
                old(self).spec_replication()->0.spec_backups().push(backup_addr@)
            }),
    {
        match &mut self.replication_manager {
            Some(rm) => rm.add_backup(backup_addr),
            None => Err(StoreError::ReplicationError(String::from_str("Replication not enabled"))),
        }
    }

    /// One check of the monitor loop at time `now`; a node without
    /// replication has nothing to monitor.
    pub fn monitor_tick(&mut self, now: u64) -> (r: MonitorAction)
        ensures
            final(self).spec_store() == old(self).spec_store(),
            final(self).spec_address() == old(self).spec_address(),
            match old(self).spec_replication() {
                Some(m0) => final(self).spec_replication() matches Some(m1) && monitor_post(
                    m0,
                    now,
                    m1,
                    r,
                ),
                None => r == MonitorAction::Stop && final(self).spec_replication() is None,
            },
    {
        match &mut self.replication_manager {
            Some(rm) => rm.monitor_tick(now),
            None => MonitorAction::Stop,
        }
    }

    /// The heartbeats of one round, or `None` once the node is no longer a
    /// primary and the round loop must end.
    pub fn heartbeat_round(&self) -> (r: Option<Vec<PeerMessage>>)
        ensures
            r is Some <==> is_primary(*self),
            r matches Some(msgs) ==> messages_to(
                msgs@,
                self.spec_replication()->0.spec_backups(),
                "HEARTBEAT"@,
            ),
    {
        match &self.replication_manager {
            Some(rm) => rm.heartbeat_round(),
            None => None,
        }
    }

    /// The node's role, when replication is enabled.
    pub fn role(&self) -> (r: Option<Role>)
        ensures
            match self.spec_replication() {
                Some(m) => r == Some(m.spec_role()),
                None => r is None,
            },
    {
        match &self.replication_manager {
            Some(rm) => Some(rm.get_role()),
            None => None,
        }
    }
}

} // verus!
