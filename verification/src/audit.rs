//! Bounded, secret-minimizing audit records for tool calls.

use crate::canonical::{self, canonical_json};
use crate::clock::{self, Timestamp};
use crate::digest::{self, hex, new_uuid, sha256};
use crate::json::{Json, JsonModel};
use crate::json_text;
use crate::policy::{PolicyAction, RiskClass};
use crate::redact::{self, redact_error};
use crate::text::str_eq;
use std::collections::VecDeque;
use vstd::prelude::*;

verus! {

/// Coarse effect recorded without retaining sensitive arguments.
#[derive(Debug, Clone, Copy, PartialEq, Eq, Structural)]
pub enum ToolEffect {
    Read,
    Write,
    Process,
    Network,
    SessionState,
    External,
}

/// How far a tool call has come.
#[derive(Debug, Clone, Copy, PartialEq, Eq, Structural)]
pub enum AuditStatus {
    Pending,
    Allowed,
    Denied,
    Succeeded,
    Failed,
    Cancelled,
    TimedOut,
}

/// Whether a status is an outcome that nothing replaces.
pub open spec fn terminal(status: AuditStatus) -> bool {
    status is Denied || status is Succeeded || status is Failed || status is Cancelled
        || status is TimedOut
}

impl AuditStatus {
    /// Whether this status is an outcome that nothing replaces.
    pub fn is_terminal(self) -> (r: bool)
        ensures
            r == terminal(self),
    {
        match self {
            AuditStatus::Pending | AuditStatus::Allowed => false,
            _ => true,
        }
    }
}

/// Stable audit shape. Raw tool arguments and credentials are deliberately
/// excluded; callers store a canonical hash and redacted error text instead.
#[derive(Debug, PartialEq, Eq)]
pub struct AuditRecord {
    pub call_id: String,
    pub session_id: String,
    pub parent_agent: Option<String>,
    pub tool_name: String,
    pub argument_hash: String,
    pub effects: Vec<ToolEffect>,
    pub risk: RiskClass,
    pub policy_action: PolicyAction,
    pub approval_source: Option<String>,
    pub started_at: Timestamp,
    pub ended_at: Option<Timestamp>,
    pub status: AuditStatus,
    pub artifact_refs: Vec<String>,
    pub redacted_error: Option<String>,
}

/// What an audit record says.
#[verifier::ext_equal]
pub struct RecordModel {
    pub call_id: Seq<char>,
    pub session_id: Seq<char>,
    pub parent_agent: Option<Seq<char>>,
    pub tool_name: Seq<char>,
    pub argument_hash: Seq<char>,
    pub effects: Seq<ToolEffect>,
    pub risk: RiskClass,
    pub policy_action: PolicyAction,
    pub approval_source: Option<Seq<char>>,
    pub started_at: Seq<char>,
    pub ended_at: Option<Seq<char>>,
    pub status: AuditStatus,
    pub artifact_refs: Seq<Seq<char>>,
    pub redacted_error: Option<Seq<char>>,
}

impl View for AuditRecord {
    type V = RecordModel;

    open spec fn view(&self) -> RecordModel {
        RecordModel {
            call_id: self.call_id@,
            session_id: self.session_id@,
            parent_agent: self.parent_agent.deep_view(),
            tool_name: self.tool_name@,
            argument_hash: self.argument_hash@,
            effects: self.effects@,
            risk: self.risk,
            policy_action: self.policy_action,
            approval_source: self.approval_source.deep_view(),
            started_at: self.started_at@,
            ended_at: self.ended_at.deep_view(),
            status: self.status,
            artifact_refs: self.artifact_refs.deep_view(),
            redacted_error: self.redacted_error.deep_view(),
        }
    }
}

impl Clone for AuditRecord {
    fn clone(&self) -> (r: Self)
        ensures
            r@ == self@,
    {
        let r: AuditRecord = AuditRecord {
            call_id: self.call_id.clone(),
            session_id: self.session_id.clone(),
            parent_agent: self.parent_agent.clone(),
            tool_name: self.tool_name.clone(),
            argument_hash: self.argument_hash.clone(),
            effects: self.effects.clone(),
            risk: self.risk,
            policy_action: self.policy_action,
            approval_source: self.approval_source.clone(),
            started_at: self.started_at.clone(),
            ended_at: self.ended_at.clone(),
            status: self.status,
            artifact_refs: self.artifact_refs.clone(),
            redacted_error: self.redacted_error.clone(),
        };
        proof {
            assert(r.effects@ == self.effects@);
            assert(r.artifact_refs.deep_view() == self.artifact_refs.deep_view());
        }
        r
    }
}

/// In-memory bounded audit buffer. Argument hashes use a random salt owned by this
/// log, so they are comparable only within this log.
#[derive(Debug)]
pub struct AuditLog {
    capacity: usize,
    salt: [u8; 32],
    records: VecDeque<AuditRecord>,
}

/// What an audit log holds: its records from the oldest to the newest.
#[verifier::ext_equal]
pub struct LogModel {
    pub capacity: nat,
    pub salt: Seq<u8>,
    pub records: Seq<RecordModel>,
}

impl View for AuditLog {
    type V = LogModel;

    closed spec fn view(&self) -> LogModel {
        LogModel {
            capacity: self.capacity as nat,
            salt: self.salt@,
            records: self.records@.map_values(|r: AuditRecord| r@),
        }
    }
}

/// Whether `i` is the place of the record for a call.
pub open spec fn is_at(records: Seq<RecordModel>, call_id: Seq<char>, i: int) -> bool {
    0 <= i < records.len() && records[i].call_id == call_id
}

/// Whether there is a record for a call.
pub open spec fn known(records: Seq<RecordModel>, call_id: Seq<char>) -> bool {
    exists|i: int| is_at(records, call_id, i)
}

/// The place of the record for a call.
pub open spec fn place(records: Seq<RecordModel>, call_id: Seq<char>) -> int {
    choose|i: int| is_at(records, call_id, i)
}

/// A change to the record of a call.
pub struct ChangeModel {
    pub status: AuditStatus,
    pub approval_source: Option<Seq<char>>,
    pub artifact_refs: Seq<Seq<char>>,
    pub error: Option<Seq<char>>,
}

/// Whether a record takes a change: its outcome is open or the same.
pub open spec fn takes(record: RecordModel, status: AuditStatus) -> bool {
    !terminal(record.status) || record.status == status
}

/// A record after a change that it took at the time `now`.
pub open spec fn changed(record: RecordModel, change: ChangeModel, now: Seq<char>) -> RecordModel {
    RecordModel {
        status: change.status,
        approval_source: if change.approval_source is Some {
            change.approval_source
        } else {
            record.approval_source
        },
        artifact_refs: if change.artifact_refs.len() > 0 {
            change.artifact_refs
        } else {
            record.artifact_refs
        },
        redacted_error: match change.error {
            Some(error) => Some(redact::redaction(error)),
            None => record.redacted_error,
        },
        ended_at: if terminal(change.status) && record.ended_at is None {
            Some(now)
        } else {
            record.ended_at
        },
        ..record
    }
}

impl LogModel {
    /// Whether the log is within its bound and no call owns two records.
    pub open spec fn well_formed(self) -> bool {
        &&& self.capacity >= 1
        &&& self.salt.len() == 32
        &&& self.records.len() <= self.capacity
        &&& forall|i: int, j: int|
            0 <= i < j < self.records.len() ==> (#[trigger] self.records[i]).call_id != (
            #[trigger] self.records[j]).call_id
    }

    /// The log after a record was put in: in the place of the record for the same
    /// call, or behind the others, the oldest leaving a full log.
    pub open spec fn upserted(self, record: RecordModel) -> LogModel {
        LogModel {
            records: if known(self.records, record.call_id) {
                self.records.update(place(self.records, record.call_id), record)
            } else if self.records.len() == self.capacity {
                self.records.drop_first().push(record)
            } else {
                self.records.push(record)
            },
            ..self
        }
    }

    /// Whether a change to the record of a call is taken.
    pub open spec fn accepts(self, call_id: Seq<char>, status: AuditStatus) -> bool {
        known(self.records, call_id) && takes(
            self.records[place(self.records, call_id)],
            status,
        )
    }

    /// The log after a change to the record of a call was offered.
    pub open spec fn updated(
        self,
        call_id: Seq<char>,
        change: ChangeModel,
        now: Seq<char>,
    ) -> LogModel {
        if self.accepts(call_id, change.status) {
            let i = place(self.records, call_id);
            LogModel {
                records: self.records.update(i, changed(self.records[i], change, now)),
                ..self
            }
        } else {
            self
        }
    }

    /// The status of a call.
    pub open spec fn status_of(self, call_id: Seq<char>) -> Option<AuditStatus> {
        if known(self.records, call_id) {
            Some(self.records[place(self.records, call_id)].status)
        } else {
            None
        }
    }
}

/// In a well-formed log a call has one place.
pub proof fn lemma_place_unique(log: LogModel, call_id: Seq<char>, i: int)
    requires
        log.well_formed(),
        is_at(log.records, call_id, i),
    ensures
        known(log.records, call_id),
        place(log.records, call_id) == i,
{
    let j = place(log.records, call_id);
    assert(is_at(log.records, call_id, j));
    if i < j {
        assert(log.records[i].call_id != log.records[j].call_id);
    } else if j < i {
        assert(log.records[j].call_id != log.records[i].call_id);
    }
}

/// Putting a record in keeps the log within its bound and gives no call a second
/// record.
proof fn lemma_upsert_keeps_well_formed(log: LogModel, record: RecordModel)
    requires
        log.well_formed(),
    ensures
        log.upserted(record).well_formed(),
{
    let next = log.upserted(record);
    if known(log.records, record.call_id) {
        let at = place(log.records, record.call_id);
        assert(is_at(log.records, record.call_id, at));
        assert forall|i: int, j: int| 0 <= i < j < next.records.len() implies (
        #[trigger] next.records[i]).call_id != (#[trigger] next.records[j]).call_id by {
            assert(log.records[i].call_id != log.records[j].call_id);
        }
    } else {
        let cut: int = if log.records.len() == log.capacity { 1 } else { 0 };
        assert forall|i: int, j: int| 0 <= i < j < next.records.len() implies (
        #[trigger] next.records[i]).call_id != (#[trigger] next.records[j]).call_id by {
            assert(next.records[i] == log.records[i + cut]);
            assert(!is_at(log.records, record.call_id, i + cut));
            if j < next.records.len() - 1 {
                assert(next.records[j] == log.records[j + cut]);
                assert(log.records[i + cut].call_id != log.records[j + cut].call_id);
            }
        }
    }
}

/// A change keeps the log within its bound and every call at its one record.
proof fn lemma_update_keeps_well_formed(
    log: LogModel,
    call_id: Seq<char>,
    change: ChangeModel,
    now: Seq<char>,
)
    requires
        log.well_formed(),
    ensures
        log.updated(call_id, change, now).well_formed(),
{
    let next = log.updated(call_id, change, now);
    if log.accepts(call_id, change.status) {
        let at = place(log.records, call_id);
        assert(is_at(log.records, call_id, at));
        assert forall|i: int, j: int| 0 <= i < j < next.records.len() implies (
        #[trigger] next.records[i]).call_id != (#[trigger] next.records[j]).call_id by {
            assert(log.records[i].call_id != log.records[j].call_id);
        }
    }
}

/// The bytes that a log hashes for the arguments of a call: its salt, then their canonical
/// text.
pub open spec fn hashed_bytes(salt: Seq<u8>, arguments: JsonModel) -> Seq<u8> {
    salt + vstd::utf8::encode_utf8(canonical::canonical_text(arguments))
}

/// The digest under which a log files the arguments of a call.
pub open spec fn argument_digest(salt: Seq<u8>, arguments: JsonModel) -> Seq<char> {
    digest::hex_text(digest::sha256_digest(hashed_bytes(salt, arguments)))
}

/// The bytes that are hashed: the salt, then the text.
pub fn salted(salt: &[u8; 32], text: &str) -> (r: Vec<u8>)
    ensures
        r@ == salt@ + vstd::utf8::encode_utf8(text@),
{
    let mut r: Vec<u8> = Vec::new();
    let bytes: &[u8] = text.as_bytes();
    let mut i: usize = 0;
    while i < 32
        invariant
            i <= 32,
            r@ == salt@.take(i as int),
        decreases 32 - i,
    {
        r.push(salt[i]);
        i += 1;
    }
    let mut k: usize = 0;
    while k < bytes.len()
        invariant
            k <= bytes@.len(),
            r@ == salt@ + bytes@.take(k as int),
        decreases bytes@.len() - k,
    {
        r.push(bytes[k]);
        k += 1;
    }
    assert(bytes@.take(bytes@.len() as int) == bytes@);
    r
}

/// Hash canonical JSON so equivalent object key order produces the same audit
/// identity while secret-bearing values never enter the record.
pub fn argument_hash(arguments: &Json, salt: &[u8; 32]) -> (r: String)
    requires
        arguments.well_formed(),
    ensures
        r@ == argument_digest(salt@, arguments.model()),
        r@.len() == 64,
{
    let text: String = canonical_json(arguments);
    let input: Vec<u8> = salted(salt, text.as_str());
    let digest: [u8; 32] = sha256(input.as_slice());
    proof {
        digest::lemma_hex_len(digest@);
    }
    hex(digest.as_slice())
}

/// A salt made of two halves.
pub fn salt_from(first: &[u8; 16], second: &[u8; 16]) -> (r: [u8; 32])
    ensures
        r@ == first@ + second@,
{
    let mut r: [u8; 32] = [0u8;32];
    let mut i: usize = 0;
    while i < 16
        invariant
            i <= 16,
            forall|k: int| 0 <= k < i ==> r@[k] == first@[k] && r@[k + 16] == second@[k],
        decreases 16 - i,
    {
        r[i] = first[i];
        r[i + 16] = second[i];
        i += 1;
    }
    assert forall|k: int| 0 <= k < 32 implies r@[k] == (first@ + second@)[k] by {
        if k >= 16 {
            assert(r@[(k - 16) + 16] == second@[k - 16]);
        }
    }
    assert(r@ == first@ + second@);
    r
}

impl AuditLog {
    /// An empty log with a fresh salt; a capacity of zero counts as one.
    #[must_use]
    pub fn new(capacity: usize) -> (r: Self)
        ensures
            r@.well_formed(),
            r@.capacity == if capacity >= 1 { capacity as nat } else { 1 },
            r@.records.len() == 0,
            digest::random_uuid(r@.salt.take(16)),
            digest::random_uuid(r@.salt.skip(16)),
    {
        let first: [u8; 16] = new_uuid();
        let second: [u8; 16] = new_uuid();
        let r: AuditLog = AuditLog::with_salt(capacity, salt_from(&first, &second));
        proof {
            assert(r@.salt.take(16) == first@);
            assert(r@.salt.skip(16) == second@);
        }
        r
    }

    /// An empty log with the given salt; a capacity of zero counts as one.
    pub fn with_salt(capacity: usize, salt: [u8; 32]) -> (r: Self)
        ensures
            r@ == (LogModel {
                capacity: if capacity >= 1 {
                    capacity as nat
                } else {
                    1
                },
                salt: salt@,
                records: seq![],
            }),
            r@.well_formed(),
    {
        let capacity: usize = if capacity >= 1 {
            capacity
        } else {
            1
        };
        let r: AuditLog = AuditLog { capacity, salt, records: VecDeque::new() };
        assert(r@.records == Seq::<RecordModel>::empty());
        r
    }

    /// The place of the record for a call.
    fn find(&self, call_id: &str) -> (r: Option<usize>)
        requires
            self@.well_formed(),
        ensures
            match r {
                Some(i) => is_at(self@.records, call_id@, i as int) && place(
                    self@.records,
                    call_id@,
                ) == i && known(self@.records, call_id@) && i < self.records@.len(),
                None => !known(self@.records, call_id@),
            },
    {
        let mut i: usize = 0;
        while i < self.records.len()
            invariant
                i <= self.records@.len(),
                self@.well_formed(),
                forall|j: int| 0 <= j < i ==> !is_at(self@.records, call_id@, j),
            decreases self.records@.len() - i,
        {
            if str_eq(self.records[i].call_id.as_str(), call_id) {
                proof {
                    assert(is_at(self@.records, call_id@, i as int));
                    lemma_place_unique(self@, call_id@, i as int);
                }
                return Some(i);
            }
            i += 1;
        }
        None
    }

    /// Insert a new record or replace the existing record for the same call.
    ///
    /// A tool call owns exactly one audit record for its complete lifecycle;
    /// repeated policy checks and execution updates therefore mutate in place.
    pub fn upsert(&mut self, record: AuditRecord)
        requires
            old(self)@.well_formed(),
        ensures
            final(self)@ == old(self)@.upserted(record@),
            final(self)@.well_formed(),
    {
        proof {
            lemma_upsert_keeps_well_formed(self@, record@);
        }
        let ghost before = self.records@;
        let found: Option<usize> = self.find(record.call_id.as_str());
        let ghost next = old(self)@.upserted(record@);
        match found {
            Some(i) => {
                self.records.remove(i);
                self.records.insert(i, record);
                assert(self@.records == next.records);
            },
            None => {
                if self.records.len() == self.capacity {
                    self.records.pop_front();
                }
                self.records.push_back(record);
                assert(self@.records == next.records);
            },
        }
    }

    /// Update the execution state for an existing call at the time `now`, as
    /// `update` does.
    pub fn update_at(
        &mut self,
        call_id: &str,
        status: AuditStatus,
        approval_source: Option<String>,
        artifact_refs: Vec<String>,
        redacted_error: Option<String>,
        now: Timestamp,
    ) -> (r: bool)
        requires
            old(self)@.well_formed(),
        ensures
            r == old(self)@.accepts(call_id@, status),
            final(self)@ == old(self)@.updated(
                call_id@,
                (ChangeModel {
                    status,
                    approval_source: approval_source.deep_view(),
                    artifact_refs: artifact_refs.deep_view(),
                    error: redacted_error.deep_view(),
                }),
                now@,
            ),
            final(self)@.well_formed(),
    {
        let ghost change = ChangeModel {
            status,
            approval_source: approval_source.deep_view(),
            artifact_refs: artifact_refs.deep_view(),
            error: redacted_error.deep_view(),
        };
        proof {
            lemma_update_keeps_well_formed(self@, call_id@, change, now@);
        }
        let i: usize = match self.find(call_id) {
            Some(i) => i,
            None => {
                return false;
            },
        };
        let current: AuditStatus = self.records[i].status;
        if current.is_terminal() && current != status {
            return false;
        }
        let ghost before = self.records@;
        let ghost next = self@.updated(call_id@, change, now@);
        if let Some(taken) = self.records.remove(i) {
            let mut record: AuditRecord = taken;
            record.status = status;
            if approval_source.is_some() {
                record.approval_source = approval_source;
            }
            if artifact_refs.len() > 0 {
                record.artifact_refs = artifact_refs;
            }
            if let Some(error) = redacted_error {
                record.redacted_error = Some(redact_error(error.as_str()));
            }
            if status.is_terminal() && record.ended_at.is_none() {
                record.ended_at = Some(now);
            }
            assert(record@ == changed(before[i as int]@, change, now@));
            self.records.insert(i, record);
            assert(self@.records == next.records);
        }
        true
    }

    /// Update the execution state for an existing call without appending a
    /// second record. Returns `false` when the call is unknown or when a
    /// different terminal outcome was already recorded.
    pub fn update(
        &mut self,
        call_id: &str,
        status: AuditStatus,
        approval_source: Option<String>,
        artifact_refs: Vec<String>,
        redacted_error: Option<String>,
    ) -> (r: bool)
        requires
            old(self)@.well_formed(),
        ensures
            r == old(self)@.accepts(call_id@, status),
            exists|now: Seq<char>|
                clock::utc_text(now) && final(self)@ == #[trigger] old(self)@.updated(
                    call_id@,
                    (ChangeModel {
                        status,
                        approval_source: approval_source.deep_view(),
                        artifact_refs: artifact_refs.deep_view(),
                        error: redacted_error.deep_view(),
                    }),
                    now,
                ),
            final(self)@.well_formed(),
    {
        let now: Timestamp = Timestamp::now();
        self.update_at(call_id, status, approval_source, artifact_refs, redacted_error, now)
    }

    /// Finalize the record for `call_id` once execution resolves.
    pub fn complete(&mut self, call_id: &str, status: AuditStatus, error: Option<String>)
        requires
            old(self)@.well_formed(),
        ensures
            exists|now: Seq<char>|
                clock::utc_text(now) && final(self)@ == #[trigger] old(self)@.updated(
                    call_id@,
                    (ChangeModel {
                        status,
                        approval_source: None,
                        artifact_refs: seq![],
                        error: error.deep_view(),
                    }),
                    now,
                ),
            final(self)@.well_formed(),
    {
        let none: Vec<String> = Vec::new();
        assert(none.deep_view() == Seq::<Seq<char>>::empty());
        let _updated: bool = self.update(call_id, status, None, none, error);
    }

    /// The records from the oldest to the newest.
    #[must_use]
    pub fn snapshot(&self) -> (r: Vec<AuditRecord>)
        ensures
            r@.map_values(|record: AuditRecord| record@) == self@.records,
    {
        let mut r: Vec<AuditRecord> = Vec::new();
        let mut i: usize = 0;
        while i < self.records.len()
            invariant
                i <= self.records@.len(),
                r@.len() == i,
                forall|k: int| 0 <= k < i ==> (#[trigger] r@[k])@ == self.records@[k]@,
            decreases self.records@.len() - i,
        {
            r.push(self.records[i].clone());
            i += 1;
        }
        assert(r@.map_values(|record: AuditRecord| record@) == self@.records);
        r
    }

    /// The status of a call.
    #[must_use]
    pub fn status(&self, call_id: &str) -> (r: Option<AuditStatus>)
        requires
            self@.well_formed(),
        ensures
            r == self@.status_of(call_id@),
    {
        match self.find(call_id) {
            Some(i) => Some(self.records[i].status),
            None => None,
        }
    }

    /// The hash under which this log files the arguments of a call.
    #[must_use]
    pub fn hash_arguments(&self, arguments: &Json) -> (r: String)
        requires
            arguments.well_formed(),
        ensures
            r@ == argument_digest(self@.salt, arguments.model()),
            r@.len() == 64,
    {
        argument_hash(arguments, &self.salt)
    }
}

/// A call owns exactly one record: after a record was put in, it is what the log
/// holds for its call, at one place only; and what the log holds for another call
/// is unchanged, unless that was the oldest record of a full log.
pub proof fn law_call_owns_one_record(log: LogModel, record: RecordModel, other: Seq<char>)
    requires
        log.well_formed(),
    ensures
        ({
            let next = log.upserted(record);
            &&& known(next.records, record.call_id)
            &&& next.records[place(next.records, record.call_id)] == record
            &&& forall|i: int|
                is_at(next.records, record.call_id, i) ==> i == place(next.records, record.call_id)
            &&& other != record.call_id && known(next.records, other) ==> known(log.records, other)
                && next.records[place(next.records, other)] == log.records[place(log.records, other)]
            &&& other != record.call_id && known(log.records, other) && !known(next.records, other)
                ==> log.records.len() == log.capacity && place(log.records, other) == 0
        }),
{
    let next = log.upserted(record);
    lemma_upsert_keeps_well_formed(log, record);
    let replaced = known(log.records, record.call_id);
    let own = if replaced {
        place(log.records, record.call_id)
    } else {
        next.records.len() - 1
    };
    assert(replaced ==> is_at(log.records, record.call_id, own));
    assert(is_at(next.records, record.call_id, own));
    lemma_place_unique(next, record.call_id, own);
    assert forall|i: int| is_at(next.records, record.call_id, i) implies i == place(
        next.records,
        record.call_id,
    ) by {
        lemma_place_unique(next, record.call_id, i);
    }
    let cut: int = if !replaced && log.records.len() == log.capacity {
        1
    } else {
        0
    };
    if other != record.call_id && known(next.records, other) {
        let i = place(next.records, other);
        assert(is_at(next.records, other, i));
        assert(next.records[i] == log.records[i + cut]);
        assert(is_at(log.records, other, i + cut));
        lemma_place_unique(log, other, i + cut);
    }
    if other != record.call_id && known(log.records, other) {
        let i = place(log.records, other);
        assert(is_at(log.records, other, i));
        if i >= cut {
            assert(next.records[i - cut] == log.records[i]);
            assert(is_at(next.records, other, i - cut));
        }
    }
}

/// Putting the same record in twice is putting it in once.
pub proof fn law_upsert_is_idempotent(log: LogModel, record: RecordModel)
    requires
        log.well_formed(),
    ensures
        log.upserted(record).upserted(record) == log.upserted(record),
{
    let once = log.upserted(record);
    law_call_owns_one_record(log, record, record.call_id);
    assert(once.upserted(record).records == once.records);
}

/// The log after a sequence of records was put in, the first of them first.
pub open spec fn upserted_all(log: LogModel, records: Seq<RecordModel>) -> LogModel
    decreases records.len(),
{
    if records.len() == 0 {
        log
    } else {
        upserted_all(log, records.drop_last()).upserted(records.last())
    }
}

/// A log keeps the newest records: after records of different calls were put into an
/// empty log, it holds the last of them, as many as it has room for, in their order.
pub proof fn law_log_keeps_newest(log: LogModel, records: Seq<RecordModel>)
    requires
        log.well_formed(),
        log.records.len() == 0,
        forall|i: int, j: int|
            0 <= i < j < records.len() ==> (#[trigger] records[i]).call_id != (
            #[trigger] records[j]).call_id,
    ensures
        ({
            let end = upserted_all(log, records);
            &&& end.capacity == log.capacity
            &&& end.records == records.skip(
                if records.len() > log.capacity {
                    records.len() - log.capacity
                } else {
                    0
                },
            )
        }),
    decreases records.len(),
{
    if records.len() > 0 {
        let front = records.drop_last();
        assert forall|i: int, j: int| 0 <= i < j < front.len() implies (
        #[trigger] front[i]).call_id != (#[trigger] front[j]).call_id by {
            assert(front[i] == records[i] && front[j] == records[j]);
        }
        law_log_keeps_newest(log, front);
        let before = upserted_all(log, front);
        let skipped: int = if front.len() > log.capacity {
            front.len() - log.capacity
        } else {
            0
        };
        assert(before.records == front.skip(skipped));
        let last = records.last();
        if known(before.records, last.call_id) {
            let i = place(before.records, last.call_id);
            assert(is_at(before.records, last.call_id, i));
            assert(records[i + skipped] == before.records[i]);
            assert(records[records.len() - 1] == last);
        }
        let end = upserted_all(log, records);
        assert(end.records == records.skip(
            if records.len() > log.capacity {
                records.len() - log.capacity
            } else {
                0
            },
        ));
    } else {
        assert(log.records == records.skip(0));
    }
}

/// A terminal outcome is final: whatever change is offered to any call, the status
/// and the end time of a call with an outcome stay as they are.
pub proof fn law_terminal_outcome_is_final(
    log: LogModel,
    call_id: Seq<char>,
    target: Seq<char>,
    change: ChangeModel,
    now: Seq<char>,
)
    requires
        log.well_formed(),
        known(log.records, call_id),
        terminal(log.records[place(log.records, call_id)].status),
    ensures
        ({
            let next = log.updated(target, change, now);
            let i = place(log.records, call_id);
            &&& next.status_of(call_id) == log.status_of(call_id)
            &&& log.records[i].ended_at is Some ==> next.records[i].ended_at
                == log.records[i].ended_at
        }),
{
    law_update_changes_one_record(log, target, change, now);
    lemma_update_keeps_well_formed(log, target, change, now);
    let next = log.updated(target, change, now);
    let i = place(log.records, call_id);
    assert(is_at(log.records, call_id, i));
    assert(is_at(next.records, call_id, i));
    lemma_place_unique(next, call_id, i);
    if log.accepts(target, change.status) && place(log.records, target) == i {
        assert(is_at(log.records, target, i));
    }
}

/// An update adds, removes and moves no record: every record stays at its place with
/// its call, session, agent, tool, argument hash, effects, risk, policy decision and
/// start; only the record of the named call changes, and only if it takes the change.
pub proof fn law_update_changes_one_record(
    log: LogModel,
    call_id: Seq<char>,
    change: ChangeModel,
    now: Seq<char>,
)
    requires
        log.well_formed(),
    ensures
        ({
            let next = log.updated(call_id, change, now);
            &&& next.capacity == log.capacity && next.salt == log.salt
            &&& next.records.len() == log.records.len()
            &&& forall|i: int|
                0 <= i < log.records.len() ==> {
                    let (a, b) = (#[trigger] log.records[i], next.records[i]);
                    &&& a.call_id == b.call_id && a.session_id == b.session_id && a.parent_agent
                        == b.parent_agent && a.tool_name == b.tool_name && a.argument_hash
                        == b.argument_hash && a.effects == b.effects && a.risk == b.risk
                        && a.policy_action == b.policy_action && a.started_at == b.started_at
                    &&& a.call_id != call_id || !takes(a, change.status) ==> a == b
                }
        }),
{
    if known(log.records, call_id) {
        let at = place(log.records, call_id);
        assert(is_at(log.records, call_id, at));
    }
}

/// A call that was updated to an outcome has that outcome and an end time.
pub proof fn law_accepted_outcome_is_recorded(
    log: LogModel,
    call_id: Seq<char>,
    change: ChangeModel,
    now: Seq<char>,
)
    requires
        log.well_formed(),
        log.accepts(call_id, change.status),
    ensures
        ({
            let next = log.updated(call_id, change, now);
            &&& next.status_of(call_id) == Some(change.status)
            &&& terminal(change.status) ==> next.records[place(
                next.records,
                call_id,
            )].ended_at is Some
        }),
{
    lemma_update_keeps_well_formed(log, call_id, change, now);
    let next = log.updated(call_id, change, now);
    let i = place(log.records, call_id);
    assert(is_at(log.records, call_id, i));
    assert(is_at(next.records, call_id, i));
    lemma_place_unique(next, call_id, i);
}

/// No word of an error text that an update wrote is credential shaped, names a
/// credential scheme or follows one.
pub proof fn law_recorded_error_holds_no_credential(
    log: LogModel,
    call_id: Seq<char>,
    change: ChangeModel,
    now: Seq<char>,
    word: int,
)
    requires
        log.well_formed(),
        log.accepts(call_id, change.status),
        change.error is Some,
    ensures
        ({
            let next = log.updated(call_id, change, now);
            let recorded = next.records[place(next.records, call_id)].redacted_error;
            &&& recorded is Some
            &&& 0 <= word < crate::text::words(recorded->0).len() ==> !redact::hidden(
                crate::text::words(recorded->0),
                word,
            )
        }),
{
    lemma_update_keeps_well_formed(log, call_id, change, now);
    let next = log.updated(call_id, change, now);
    let i = place(log.records, call_id);
    assert(is_at(log.records, call_id, i));
    assert(is_at(next.records, call_id, i));
    lemma_place_unique(next, call_id, i);
    let message = change.error->0;
    if 0 <= word < crate::text::words(redact::redaction(message)).len() {
        redact::law_redaction_leaves_no_credential(message, word);
    }
}

/// Arguments that differ only in the order of object keys, at any depth, have the
/// same hash in one log.
pub proof fn law_hash_ignores_key_order(salt: Seq<u8>, a: Json, b: Json)
    requires
        a.well_formed(),
        b.well_formed(),
        canonical::same_but_for_key_order(a, b),
    ensures
        argument_digest(salt, a.model()) == argument_digest(salt, b.model()),
{
    canonical::law_canonical_text_ignores_key_order(a, b);
}

/// What a log hashes identifies the arguments: in one log the hashed bytes of two values
/// without floating-point numbers are the same exactly if the values are.
pub proof fn law_hashed_bytes_identify_arguments(salt: Seq<u8>, a: Json, b: Json)
    requires
        a.well_formed(),
        b.well_formed(),
        json_text::without_floats(a),
        json_text::without_floats(b),
    ensures
        hashed_bytes(salt, a.model()) == hashed_bytes(salt, b.model()) <==> a.model() == b.model(),
{
    let (s, t) = (canonical::canonical_text(a.model()), canonical::canonical_text(b.model()));
    json_text::law_canonical_text_identifies_value(a, b);
    if hashed_bytes(salt, a.model()) == hashed_bytes(salt, b.model()) {
        let (x, y) = (vstd::utf8::encode_utf8(s), vstd::utf8::encode_utf8(t));
        assert(x == (salt + x).skip(salt.len() as int));
        assert(y == (salt + y).skip(salt.len() as int));
        vstd::utf8::encode_utf8_decode_utf8(s);
        vstd::utf8::encode_utf8_decode_utf8(t);
    }
}

} // verus!
