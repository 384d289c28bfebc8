use vstd::prelude::*;

use crate::error::StoreError;
use crate::store::KeyValueStore;
use crate::text::{
    is_literal, is_word, join_from, join_words, lemma_words_are_words, lemma_words_of_join,
    split_words, views, words,
};

verus! {

/// The part that a node plays in replication.
#[derive(Debug, Clone)]
pub enum Role {
    /// Accepts writes and forwards them to its backups.
    Primary,
    /// Receives forwarded writes and watches the primary at this address.
    Backup(String),
    /// Takes no part in replication.
    Standalone,
}

impl PartialEq for Role {
    fn eq(&self, other: &Role) -> (r: bool) {
        match self {
            Role::Primary => matches!(other, Role::Primary),
            Role::Backup(a) => match other {
                Role::Backup(b) => a.eq(b),
                _ => false,
            },
            Role::Standalone => matches!(other, Role::Standalone),
        }
    }
}

impl vstd::std_specs::cmp::PartialEqSpecImpl for Role {
    open spec fn obeys_eq_spec() -> bool {
        true
    }

    open spec fn eq_spec(&self, other: &Role) -> bool {
        match (*self, *other) {
            (Role::Primary, Role::Primary) => true,
            (Role::Backup(a), Role::Backup(b)) => a@ == b@,
            (Role::Standalone, Role::Standalone) => true,
            _ => false,
        }
    }
}

/// What an operation does, over the views of its strings.
pub enum OperationModel {
    Put(Seq<char>, Seq<char>),
    Delete(Seq<char>),
}

/// A write to be replicated from a primary to its backups.
#[derive(Debug, Clone)]
pub enum Operation {
    /// Store a value under a key.
    Put(String, String),
    /// Remove a key.
    Delete(String),
}

impl View for Operation {
    type V = OperationModel;

    open spec fn view(&self) -> OperationModel {
        match self {
            Operation::Put(k, v) => OperationModel::Put(k@, v@),
            Operation::Delete(k) => OperationModel::Delete(k@),
        }
    }
}

/// The text form of an operation: `PUT <key> <value>` or `DELETE <key>`.
pub open spec fn encode_operation(op: OperationModel) -> Seq<char> {
    match op {
        OperationModel::Put(k, v) => "PUT"@ + seq![' '] + k + seq![' '] + v,
        OperationModel::Delete(k) => "DELETE"@ + seq![' '] + k,
    }
}

/// The operation that a text stands for, read word by word: `PUT` with a key
/// and at least one value word (the value is those words joined by single
/// spaces), or `DELETE` with exactly a key.
pub open spec fn decode_operation(s: Seq<char>) -> Option<OperationModel> {
    let ws = words(s);
    if ws.len() >= 3 && ws[0] == "PUT"@ {
        Some(OperationModel::Put(ws[1], join_words(ws.skip(2))))
    } else if ws.len() == 2 && ws[0] == "DELETE"@ {
        Some(OperationModel::Delete(ws[1]))
    } else {
        None
    }
}

/// A value as the protocol carries it: non-empty words joined by single spaces.
pub open spec fn is_wire_value(v: Seq<char>) -> bool {
    exists|vs: Seq<Seq<char>>|
        vs.len() > 0 && (forall|i: int| 0 <= i < vs.len() ==> is_word(#[trigger] vs[i]))
            && join_words(vs) == v
}

/// An operation whose text form can be read back: its key is one word, and
/// the value of a put is a wire value.
pub open spec fn is_encodable(op: OperationModel) -> bool {
    match op {
        OperationModel::Put(k, v) => is_word(k) && is_wire_value(v),
        OperationModel::Delete(k) => is_word(k),
    }
}

/// Decoding the text form of an encodable operation gives the operation back.
pub proof fn lemma_operation_round_trip(op: OperationModel)
    requires
        is_encodable(op),
    ensures
        decode_operation(encode_operation(op)) == Some(op),
{
    reveal_strlit("PUT");
    reveal_strlit("DELETE");
    match op {
        OperationModel::Put(k, v) => {
            let vs = choose|vs: Seq<Seq<char>>|
                vs.len() > 0 && (forall|i: int| 0 <= i < vs.len() ==> is_word(#[trigger] vs[i]))
                    && join_words(vs) == v;
            let ws = seq!["PUT"@, k] + vs;
            assert(ws.drop_first() =~= seq![k] + vs);
            assert((seq![k] + vs).drop_first() =~= vs);
            assert(join_words(seq![k] + vs) == k + seq![' '] + join_words(vs));
            assert(join_words(ws) =~= encode_operation(op));
            assert forall|i: int| 0 <= i < ws.len() implies is_word(#[trigger] ws[i]) by {
                if i >= 2 {
                    assert(ws[i] == vs[i - 2]);
                }
            }
            lemma_words_of_join(ws);
            assert(ws.skip(2) =~= vs);
        },
        OperationModel::Delete(k) => {
            let ws = seq!["DELETE"@, k];
            assert(ws.drop_first() =~= seq![k]);
            assert(join_words(seq![k]) == k);
            assert(join_words(ws) =~= encode_operation(op));
            assert forall|i: int| 0 <= i < ws.len() implies is_word(#[trigger] ws[i]) by {}
            lemma_words_of_join(ws);
        },
    }
}

impl Operation {
    /// The text form of the operation.
    pub fn to_string(&self) -> (r: String)
        ensures
            r@ == encode_operation(self@),
    {
        match self {
            Operation::Put(key, value) => {
                let mut s = String::from_str("PUT ");
                s.append(key.as_str());
                s.append(" ");
                s.append(value.as_str());
                proof {
                    reveal_strlit("PUT ");
                    reveal_strlit("PUT");
                    reveal_strlit(" ");
                    assert(s@ =~= encode_operation(self@));
                }
                s
            },
            Operation::Delete(key) => {
                let mut s = String::from_str("DELETE ");
                s.append(key.as_str());
                proof {
                    reveal_strlit("DELETE ");
                    reveal_strlit("DELETE");
                    assert(s@ =~= encode_operation(self@));
                }
                s
            },
        }
    }

    /// The operation that the text `s` stands for, if it stands for one.
    pub fn from_string(s: &str) -> (r: Option<Operation>)
        ensures
            match r {
                Some(op) => decode_operation(s@) == Some(op@),
                None => decode_operation(s@) is None,
            },
    {
        let parts = split_words(s);
        proof {
            assert(views(parts@).len() == parts@.len());
        }
        if parts.len() == 0 {
            return None;
        }
        if is_literal(&parts[0], "PUT") {
            if parts.len() < 3 {
                proof {
                    reveal_strlit("DELETE");
                    reveal_strlit("PUT");
                    assert(views(parts@)[0] == parts@[0]@);
                }
                return None;
            }
            let key = parts[1].clone();
            let value = join_from(&parts, 2);
            proof {
                assert(views(parts@)[0] == parts@[0]@);
                assert(views(parts@)[1] == parts@[1]@);
            }
            Some(Operation::Put(key, value))
        } else if is_literal(&parts[0], "DELETE") {
            proof {
                reveal_strlit("DELETE");
                reveal_strlit("PUT");
                assert(views(parts@)[0] == parts@[0]@);
            }
            if parts.len() != 2 {
                return None;
            }
            let key = parts[1].clone();
            proof {
                assert(views(parts@)[1] == parts@[1]@);
            }
            Some(Operation::Delete(key))
        } else {
            proof {
                assert(views(parts@)[0] == parts@[0]@);
            }
            None
        }
    }
}

/// How often a primary sends heartbeats to its backups, in milliseconds.
pub const HEARTBEAT_INTERVAL_MS: u64 = 1000;

/// How often a backup checks on its primary, in milliseconds.
pub const MONITOR_INTERVAL_MS: u64 = 500;

/// How long a backup waits without a heartbeat before it takes over, in milliseconds.
pub const FAILOVER_TIMEOUT_MS: u64 = 5000;

/// A command line to be sent to a peer node.
pub struct PeerMessage {
    pub address: String,
    pub command: String,
}

/// What the monitor loop of a backup does after one check.
#[derive(Debug, PartialEq, Eq, Structural)]
pub enum MonitorAction {
    /// The primary is alive: check again later.
    Wait,
    /// The primary fell silent and this node became primary: stop
    /// monitoring and start sending heartbeats.
    Promoted,
    /// This node is no longer a backup: stop monitoring.
    Stop,
}

/// The map after one operation has been applied to it.
pub open spec fn apply_model(m: Map<Seq<char>, Seq<char>>, op: OperationModel) -> Map<
    Seq<char>,
    Seq<char>,
> {
    match op {
        OperationModel::Put(k, v) => m.insert(k, v),
        OperationModel::Delete(k) => m.remove(k),
    }
}

/// The map after a sequence of operations has been applied to it, in order.
pub open spec fn apply_all(m: Map<Seq<char>, Seq<char>>, ops: Seq<OperationModel>) -> Map<
    Seq<char>,
    Seq<char>,
>
    decreases ops.len(),
{
    if ops.len() == 0 {
        m
    } else {
        apply_model(apply_all(m, ops.drop_last()), ops.last())
    }
}

/// The key that an operation writes.
pub open spec fn op_key(op: OperationModel) -> Seq<char> {
    match op {
        OperationModel::Put(k, _) => k,
        OperationModel::Delete(k) => k,
    }
}

/// What the last operation of `ops` on key `k` leaves there: `None` when no
/// operation touches `k`, `Some(None)` after a delete, `Some(Some(v))` after
/// a put of `v`.
pub open spec fn last_write(ops: Seq<OperationModel>, k: Seq<char>) -> Option<Option<Seq<char>>>
    decreases ops.len(),
{
    if ops.len() == 0 {
        None
    } else if op_key(ops.last()) == k {
        Some(
            match ops.last() {
                OperationModel::Put(_, v) => Some(v),
                OperationModel::Delete(_) => None,
            },
        )
    } else {
        last_write(ops.drop_last(), k)
    }
}

/// The value of `k` in `m`, if any.
pub open spec fn lookup(m: Map<Seq<char>, Seq<char>>, k: Seq<char>) -> Option<Seq<char>> {
    if m.contains_key(k) {
        Some(m[k])
    } else {
        None
    }
}

/// The last write wins: after any sequence of puts and deletes, each key
/// holds what the last operation on it left, and a key that no operation
/// touched holds what it held before.
pub proof fn lemma_last_writer_wins(m: Map<Seq<char>, Seq<char>>, ops: Seq<OperationModel>, k: Seq<char>)
    ensures
        lookup(apply_all(m, ops), k) == match last_write(ops, k) {
            None => lookup(m, k),
            Some(v) => v,
        },
    decreases ops.len(),
{
    if ops.len() > 0 {
        lemma_last_writer_wins(m, ops.drop_last(), k);
    }
}

/// Milliseconds from `since` to `now`; none when the clock reads earlier.
pub open spec fn elapsed(now: u64, since: u64) -> int {
    if now >= since {
        now - since
    } else {
        0
    }
}

/// The command line that forwards an operation to a backup.
pub open spec fn replicate_command(op: OperationModel) -> Seq<char> {
    "REPLICATE "@ + encode_operation(op)
}

/// A write forwarded by a primary reaches a backup intact: for a `PUT` line
/// of at least three words, or a `DELETE` line of two, the command that the
/// primary sends is `REPLICATE` followed by words that read back as the very
/// operation that the primary applied to its own store.
pub proof fn lemma_forwarded_write_reads_back(line: Seq<char>, op: OperationModel)
    requires
        words(line).len() >= 3 && op == OperationModel::Put(
            words(line)[1],
            join_words(words(line).skip(2)),
        ) || words(line).len() == 2 && op == OperationModel::Delete(words(line)[1]),
    ensures
        words(replicate_command(op)).len() >= 2,
        words(replicate_command(op))[0] == "REPLICATE"@,
        decode_operation(join_words(words(replicate_command(op)).skip(1))) == Some(op),
{
    let ws = words(line);
    lemma_words_are_words(line);
    reveal_strlit("REPLICATE ");
    reveal_strlit("REPLICATE");
    let body = match op {
        OperationModel::Put(k, v) => {
            let rest = ws.skip(2);
            assert forall|i: int| 0 <= i < rest.len() implies is_word(#[trigger] rest[i]) by {
                assert(rest[i] == ws[i + 2]);
            }
            assert(is_word(ws[1]));
            assert(is_wire_value(v));
            seq!["PUT"@, k] + rest
        },
        OperationModel::Delete(k) => {
            assert(is_word(ws[1]));
            seq!["DELETE"@, k]
        },
    };
    lemma_operation_round_trip(op);
    reveal_strlit("PUT");
    reveal_strlit("DELETE");
    assert(is_encodable(op));
    assert forall|i: int| 0 <= i < body.len() implies is_word(#[trigger] body[i]) by {
        if i >= 2 {
            assert(body[i] == ws[i]);
        }
    }
    assert(body.len() >= 2);
    assert(join_words(body) == encode_operation(op)) by {
        let tail = body.drop_first();
        assert(tail.drop_first() =~= body.skip(2));
        match op {
            OperationModel::Put(k, v) => {
                assert(tail.drop_first() =~= ws.skip(2));
                assert(join_words(tail) == k + seq![' '] + join_words(tail.drop_first()));
                assert(join_words(body) == body[0] + seq![' '] + join_words(tail));
                assert(join_words(body) =~= encode_operation(op));
            },
            OperationModel::Delete(k) => {
                assert(tail =~= seq![k]);
                assert(join_words(tail) == k);
                assert(join_words(body) =~= encode_operation(op));
            },
        }
    }
    let full = seq!["REPLICATE"@] + body;
    assert(full.drop_first() =~= body);
    assert(join_words(full) =~= replicate_command(op));
    assert forall|i: int| 0 <= i < full.len() implies is_word(#[trigger] full[i]) by {
        if i > 0 {
            assert(full[i] == body[i - 1]);
        }
    }
    lemma_words_of_join(full);
    assert(full.skip(1) =~= body);
}

/// A message to each backup, in order, all carrying `command`.
pub open spec fn messages_to(msgs: Seq<PeerMessage>, backups: Seq<Seq<char>>, command: Seq<char>) -> bool {
    &&& msgs.len() == backups.len()
    &&& forall|i: int|
        0 <= i < msgs.len() ==> (#[trigger] msgs[i]).address@ == backups[i] && msgs[i].command@
            == command
}

/// Whether a peer's reply acknowledges a command.
pub fn check_reply(response: &str) -> (r: Result<(), StoreError>)
    ensures
        r is Ok <==> response@ == "OK"@,
        r matches Err(StoreError::ReplicationError(m)) ==> m@ == "Unexpected response: "@ + response@,
        r matches Err(e) ==> e is ReplicationError,
{
    let ok = "OK".to_owned();
    let got = response.to_owned();
    if got == ok {
        Ok(())
    } else {
        let mut m = String::from_str("Unexpected response: ");
        m.append(response);
        Err(StoreError::ReplicationError(m))
    }
}

/// The replication state of one node: its role, the backups it knows as a
/// primary, and when it last heard a heartbeat.
pub struct ReplicationManager {
    role: Role,
    backups: Vec<String>,
    last_heartbeat: u64,
    failover_timeout: u64,
}

/// One check of the monitor loop, from `m0` at time `now` to `m1` with action `a`.
pub open spec fn monitor_post(
    m0: ReplicationManager,
    now: u64,
    m1: ReplicationManager,
    a: MonitorAction,
) -> bool {
    &&& m1.spec_backups() == m0.spec_backups()
    &&& m1.spec_last_heartbeat() == m0.spec_last_heartbeat()
    &&& m1.spec_failover_timeout() == m0.spec_failover_timeout()
    &&& if !(m0.spec_role() is Backup) {
        a == MonitorAction::Stop && m1.spec_role() == m0.spec_role()
    } else if elapsed(now, m0.spec_last_heartbeat()) > m0.spec_failover_timeout() {
        a == MonitorAction::Promoted && m1.spec_role() is Primary
    } else {
        a == MonitorAction::Wait && m1.spec_role() == m0.spec_role()
    }
}

/// Failover happens once: a backup whose primary has been silent for longer
/// than the failover timeout becomes primary at its next check, and the check
/// after that stops the monitor loop without promoting again.
pub proof fn lemma_failover_once(
    m0: ReplicationManager,
    now1: u64,
    m1: ReplicationManager,
    a1: MonitorAction,
    now2: u64,
    m2: ReplicationManager,
    a2: MonitorAction,
)
    requires
        m0.spec_role() is Backup,
        elapsed(now1, m0.spec_last_heartbeat()) > m0.spec_failover_timeout(),
        monitor_post(m0, now1, m1, a1),
        monitor_post(m1, now2, m2, a2),
    ensures
        a1 == MonitorAction::Promoted,
        m1.spec_role() is Primary,
        a2 == MonitorAction::Stop,
        m2.spec_role() is Primary,
        m2.spec_backups() == m0.spec_backups(),
{
}

impl ReplicationManager {
    pub closed spec fn spec_role(&self) -> Role {
        self.role
    }

    pub closed spec fn spec_backups(&self) -> Seq<Seq<char>> {
        views(self.backups@)
    }

    pub closed spec fn spec_last_heartbeat(&self) -> u64 {
        self.last_heartbeat
    }

    pub closed spec fn spec_failover_timeout(&self) -> u64 {
        self.failover_timeout
    }

    /// A standalone node with no backups, which last heard a heartbeat at `now`.
    pub fn new(now: u64) -> (r: Self)
        ensures
            r.spec_role() is Standalone,
            r.spec_backups() == Seq::<Seq<char>>::empty(),
            r.spec_last_heartbeat() == now,
            r.spec_failover_timeout() == FAILOVER_TIMEOUT_MS,
    {
        let r = ReplicationManager {
            role: Role::Standalone,
            backups: Vec::new(),
            last_heartbeat: now,
            failover_timeout: FAILOVER_TIMEOUT_MS,
        };
        assert(views(r.backups@) =~= Seq::<Seq<char>>::empty());
        r
    }

    /// Becomes primary.
    pub fn start_primary(&mut self) -> (r: Result<(), StoreError>)
        ensures
            r is Ok,
            final(self).spec_role() is Primary,
            final(self).spec_backups() == old(self).spec_backups(),
            final(self).spec_last_heartbeat() == old(self).spec_last_heartbeat(),
            final(self).spec_failover_timeout() == old(self).spec_failover_timeout(),
    {
        self.role = Role::Primary;
        Ok(())
    }

    /// Becomes a backup of the primary at `primary_addr`; the wait for its
    /// first heartbeat starts at `now`.
    pub fn start_backup(&mut self, primary_addr: String, now: u64) -> (r: Result<(), StoreError>)
        ensures
            r is Ok,
            final(self).spec_role() == Role::Backup(primary_addr),
            final(self).spec_backups() == old(self).spec_backups(),
            final(self).spec_last_heartbeat() == now,
            final(self).spec_failover_timeout() == old(self).spec_failover_timeout(),
    {
        self.role = Role::Backup(primary_addr);
        self.last_heartbeat = now;
        Ok(())
    }

    /// Registers a backup; only a primary may, and an address already known
    /// is not added twice.
    pub fn add_backup(&mut self, backup_addr: String) -> (r: Result<(), StoreError>)
        ensures
            r is Ok <==> old(self).spec_role() is Primary,
            r matches Err(e) ==> e is ReplicationError,
            r matches Err(StoreError::ReplicationError(m)) ==> m@
                == "Only primary nodes can add backups"@,
            r is Err ==> *final(self) == *old(self),
            final(self).spec_role() == old(self).spec_role(),
            final(self).spec_last_heartbeat() == old(self).spec_last_heartbeat(),
            final(self).spec_failover_timeout() == old(self).spec_failover_timeout(),
            final(self).spec_backups() == if old(self).spec_role() is Primary && !old(
                self,
            ).spec_backups().contains(backup_addr@) {
                old(self).spec_backups().push(backup_addr@)
            } else {
                old(self).spec_backups()
            },
    {
        match self.role {
            Role::Primary => {
                let mut i: usize = 0;
                while i < self.backups.len()
                    invariant
                        self.role is Primary,
                        i <= self.backups.len(),
                        forall|j: int| 0 <= j < i ==> self.backups@[j]@ != backup_addr@,
                    decreases self.backups.len() - i,
                {
                    if self.backups[i] == backup_addr {
                        proof {
                            assert(views(self.backups@)[i as int] == backup_addr@);
                        }
                        return Ok(());
                    }
                    i += 1;
                }
                let ghost before = views(self.backups@);
                proof {
                    assert forall|j: int| 0 <= j < before.len() implies before[j] != backup_addr@ by {
                        assert(before[j] == self.backups@[j]@);
                    }
                }
                self.backups.push(backup_addr);
                assert(views(self.backups@) =~= before.push(backup_addr@));
                Ok(())
            },
            _ => Err(StoreError::ReplicationError(String::from_str("Only primary nodes can add backups"))),
        }
    }

    /// Records that a heartbeat arrived at `now`; any role accepts it.
    pub fn receive_heartbeat(&mut self, now: u64) -> (r: Result<(), StoreError>)
        ensures
            r is Ok,
            final(self).spec_role() == old(self).spec_role(),
            final(self).spec_backups() == old(self).spec_backups(),
            final(self).spec_last_heartbeat() == now,
            final(self).spec_failover_timeout() == old(self).spec_failover_timeout(),
    {
        self.last_heartbeat = now;
        Ok(())
    }

    /// Turns a backup into a primary; fails in any other role.
    pub fn promote_to_primary(&mut self) -> (r: Result<(), StoreError>)
        ensures
            r is Ok <==> old(self).spec_role() is Backup,
            r matches Err(e) ==> e is ReplicationError,
            final(self).spec_role() == if old(self).spec_role() is Backup {
                Role::Primary
            } else {
                old(self).spec_role()
            },
            final(self).spec_backups() == old(self).spec_backups(),
            final(self).spec_last_heartbeat() == old(self).spec_last_heartbeat(),
            final(self).spec_failover_timeout() == old(self).spec_failover_timeout(),
    {
        match self.role {
            Role::Backup(_) => {
                self.role = Role::Primary;
                Ok(())
            },
            _ => Err(StoreError::ReplicationError(String::from_str("Only backup nodes can be promoted"))),
        }
    }

    /// One check of a backup's monitor loop at time `now`: once the primary
    /// has been silent for longer than the failover timeout, this node
    /// becomes primary.
    pub fn monitor_tick(&mut self, now: u64) -> (r: MonitorAction)
        ensures
            monitor_post(*old(self), now, *final(self), r),
    {
        match self.role {
            Role::Backup(_) => {
                let since = if now >= self.last_heartbeat {
                    now - self.last_heartbeat
                } else {
                    0
                };
                if since > self.failover_timeout {
                    let _ = self.promote_to_primary();
                    MonitorAction::Promoted
                } else {
                    MonitorAction::Wait
                }
            },
            _ => MonitorAction::Stop,
        }
    }

    /// The message `command` addressed to each backup, in order.
    fn to_each_backup(&self, command: &String) -> (r: Vec<PeerMessage>)
        ensures
            messages_to(r@, self.spec_backups(), command@),
    {
        let mut out: Vec<PeerMessage> = Vec::new();
        let mut i: usize = 0;
        while i < self.backups.len()
            invariant
                i <= self.backups.len(),
                messages_to(out@, views(self.backups@).take(i as int), command@),
            decreases self.backups.len() - i,
        {
            out.push(PeerMessage { address: self.backups[i].clone(), command: command.clone() });
            i += 1;
        }
        assert(views(self.backups@).take(i as int) =~= views(self.backups@));
        out
    }

    /// The heartbeats of one round: one to each backup while this node is
    /// primary, or `None` once it no longer is and the round loop must end.
    pub fn heartbeat_round(&self) -> (r: Option<Vec<PeerMessage>>)
        ensures
            r is Some <==> self.spec_role() is Primary,
            r matches Some(msgs) ==> messages_to(msgs@, self.spec_backups(), "HEARTBEAT"@),
    {
        match self.role {
            Role::Primary => {
                let command = String::from_str("HEARTBEAT");
                Some(self.to_each_backup(&command))
            },
            _ => None,
        }
    }

    /// The messages that forward `operation` to every backup; only a primary
    /// forwards. A failed send to one backup concerns that backup alone.
    pub fn replicate_operation(&self, operation: &Operation) -> (r: Result<Vec<PeerMessage>, StoreError>)
        ensures
            r is Ok <==> self.spec_role() is Primary,
            r matches Err(e) ==> e is ReplicationError,
            r matches Ok(msgs) ==> messages_to(msgs@, self.spec_backups(), replicate_command(operation@)),
    {
        match self.role {
            Role::Primary => {
                let mut command = String::from_str("REPLICATE ");
                let text = operation.to_string();
                command.append(text.as_str());
                Ok(self.to_each_backup(&command))
            },
            _ => Err(StoreError::ReplicationError(String::from_str("Only primary can replicate operations"))),
        }
    }

    /// Applies an operation received in text form to `store`; only a backup
    /// applies, and a text that stands for no operation changes nothing.
    pub fn apply_operation(&self, store: &mut KeyValueStore, op_str: &str) -> (r: Result<(), StoreError>)
        requires
            old(store).wf(),
        ensures
            final(store).wf(),
            r is Ok <==> self.spec_role() is Backup && decode_operation(op_str@) is Some,
            r matches Err(e) ==> e is ReplicationError,
            r matches Err(StoreError::ReplicationError(m)) ==> m@ == if self.spec_role() is Backup {
                "Invalid operation: "@ + op_str@
            } else {
                "Only backups can apply operations from primary"@
            },
            r is Ok ==> final(store)@ == apply_model(old(store)@, decode_operation(op_str@)->0),
            r is Err ==> final(store)@ == old(store)@,
    {
        match self.role {
            Role::Backup(_) => {
                match Operation::from_string(op_str) {
                    Some(Operation::Put(key, value)) => {
                        store.put(key, value);
                        Ok(())
                    },
                    Some(Operation::Delete(key)) => {
                        let _ = store.delete(key.as_str());
                        Ok(())
                    },
                    None => {
                        let mut m = String::from_str("Invalid operation: ");
                        m.append(op_str);
                        Err(StoreError::ReplicationError(m))
                    },
                }
            },
            _ => Err(StoreError::ReplicationError(String::from_str("Only backups can apply operations from primary"))),
        }
    }

    /// The current role.
    pub fn get_role(&self) -> (r: Role)
        ensures
            r == self.spec_role(),
    {
        match &self.role {
            Role::Primary => Role::Primary,
            Role::Backup(a) => Role::Backup(a.clone()),
            Role::Standalone => Role::Standalone,
        }
    }

    /// The known backups, in the order in which they were added.
    pub fn get_backups(&self) -> (r: Vec<String>)
        ensures
            views(r@) == self.spec_backups(),
    {
        let r = self.backups.clone();
        assert(r@ == self.backups@);
        r
    }
}

} // verus!
