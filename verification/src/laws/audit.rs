//! The audit log: what a record keeps, which changes it takes, and what is hashed.

use crate::audit::{
    argument_hash, hashed_bytes, lemma_place_unique, salt_from, salted, AuditLog, AuditRecord,
    AuditStatus, LogModel, RecordModel,
};
use crate::canonical::canonical_text;
use crate::clock::{utc_text, Timestamp};
use crate::digest::{hex_text, sha256_digest};
use crate::json::Json;
use crate::laws::text::{names_scheme, tells};
use crate::redact;
use crate::text;
use vstd::prelude::*;

verus! {

/// Whether the record of a call stands at a place.
pub open spec fn filed_at(log: LogModel, call_id: Seq<char>, i: int) -> bool {
    log.well_formed() && 0 <= i < log.records.len() && log.records[i].call_id == call_id
}

/// Whether there is no record of a call.
pub open spec fn unfiled(log: LogModel, call_id: Seq<char>) -> bool {
    forall|j: int| 0 <= j < log.records.len() ==> (#[trigger] log.records[j]).call_id != call_id
}

/// Whether a call with this status may still come to any outcome.
pub open spec fn undecided(status: AuditStatus) -> bool {
    status == AuditStatus::Pending || status == AuditStatus::Allowed
}

/// Whether a record is what another became by a change: it has the new status; what was given
/// of approval source, references and error text is recorded, and what was not given stays;
/// an outcome gives it an end time if it has none; and nothing else changes.
pub open spec fn became(
    before: RecordModel,
    after: RecordModel,
    status: AuditStatus,
    approval_source: Option<Seq<char>>,
    artifact_refs: Seq<Seq<char>>,
    error: Option<Seq<char>>,
    now: Seq<char>,
) -> bool {
    &&& after.status == status
    &&& approval_source is Some ==> after.approval_source == approval_source
    &&& approval_source is None ==> after.approval_source == before.approval_source
    &&& artifact_refs.len() > 0 ==> after.artifact_refs == artifact_refs
    &&& artifact_refs.len() == 0 ==> after.artifact_refs == before.artifact_refs
    &&& error matches Some(text) ==> after.redacted_error == Some(redact::redaction(text))
    &&& error is None ==> after.redacted_error == before.redacted_error
    &&& before.ended_at is None && !undecided(status) ==> after.ended_at == Some(now)
    &&& before.ended_at is Some || undecided(status) ==> after.ended_at == before.ended_at
    &&& after.call_id == before.call_id && after.session_id == before.session_id
    &&& after.parent_agent == before.parent_agent && after.tool_name == before.tool_name
    &&& after.argument_hash == before.argument_hash && after.effects == before.effects
    &&& after.risk == before.risk && after.policy_action == before.policy_action
    &&& after.started_at == before.started_at
}

/// Only a call that is pending or allowed may still come to any outcome.
pub proof fn law_outcomes(status: AuditStatus, r: bool)
    requires
        call_ensures(AuditStatus::is_terminal, (status,), r),
    ensures
        r <==> status != AuditStatus::Pending && status != AuditStatus::Allowed,
{
}

/// A filed record is the one that its call finds.
proof fn lemma_filed(log: LogModel, call_id: Seq<char>, i: int)
    requires
        filed_at(log, call_id, i),
    ensures
        crate::audit::known(log.records, call_id),
        crate::audit::place(log.records, call_id) == i,
{
    assert(crate::audit::is_at(log.records, call_id, i));
    lemma_place_unique(log, call_id, i);
}

/// A call without a record finds none.
proof fn lemma_unfiled(log: LogModel, call_id: Seq<char>)
    requires
        unfiled(log, call_id),
    ensures
        !crate::audit::known(log.records, call_id),
{
    if crate::audit::known(log.records, call_id) {
        let i = choose|i: int| crate::audit::is_at(log.records, call_id, i);
        assert(log.records[i].call_id == call_id);
    }
}

/// An accepted change is recorded as it was offered, whatever its status: a change is accepted
/// exactly if the call is known and its outcome is open or the same; then the record of the
/// call takes it, and no other record changes.
pub proof fn law_accepted_change_is_recorded(
    call_id: &str,
    status: AuditStatus,
    approval_source: Option<String>,
    artifact_refs: Vec<String>,
    error: Option<String>,
    now: Timestamp,
    i: int,
)
    ensures
        forall|log: &mut AuditLog, r: bool| #[trigger]
            call_ensures(
                AuditLog::update_at,
                (log, call_id, status, approval_source, artifact_refs, error, now),
                r,
            ) ==> {
                &&& unfiled(log@, call_id@) ==> !r && final(log)@ == log@
                &&& filed_at(log@, call_id@, i) ==> {
                    let before = log@.records[i];
                    let after = final(log)@.records[i];
                    &&& r <==> undecided(before.status) || before.status == status
                    &&& !r ==> final(log)@ == log@
                    &&& r ==> final(log)@ == (LogModel {
                        records: log@.records.update(i, after),
                        ..log@
                    }) && became(
                        before,
                        after,
                        status,
                        approval_source.deep_view(),
                        artifact_refs.deep_view(),
                        error.deep_view(),
                        now@,
                    )
                }
            },
{
    assert forall|log: &mut AuditLog, r: bool| #[trigger]
        call_ensures(
            AuditLog::update_at,
            (log, call_id, status, approval_source, artifact_refs, error, now),
            r,
        ) implies (unfiled(log@, call_id@) ==> !crate::audit::known(log@.records, call_id@)) && (
    filed_at(log@, call_id@, i) ==> crate::audit::known(log@.records, call_id@)
        && crate::audit::place(log@.records, call_id@) == i) by {
        if unfiled(log@, call_id@) {
            lemma_unfiled(log@, call_id@);
        }
        if filed_at(log@, call_id@, i) {
            lemma_filed(log@, call_id@, i);
        }
    }
}

/// An error text without anything to hide is recorded as it is: if its words hold no credential
/// and name no scheme and stand apart by single spaces, the record has the text itself.
pub proof fn law_plain_error_is_recorded_unchanged(
    call_id: &str,
    status: AuditStatus,
    approval_source: Option<String>,
    artifact_refs: Vec<String>,
    error: String,
    now: Timestamp,
    i: int,
    parts: Seq<Seq<char>>,
)
    requires
        error@ == text::join(parts, seq![' ']),
        forall|i: int|
            0 <= i < parts.len() ==> (#[trigger] parts[i]).len() > 0 && !tells(parts[i])
                && !names_scheme(parts[i]),
        forall|i: int, k: int|
            0 <= i < parts.len() && 0 <= k < parts[i].len() ==> !text::is_white_space(
                #[trigger] parts[i][k],
            ),
    ensures
        forall|log: &mut AuditLog, r: bool| #[trigger]
            call_ensures(
                AuditLog::update_at,
                (log, call_id, status, approval_source, artifact_refs, Some(error), now),
                r,
            ) && filed_at(log@, call_id@, i) && r ==> final(log)@.records[i].redacted_error == Some(
                error@,
            ),
{
    law_accepted_change_is_recorded(
        call_id,
        status,
        approval_source,
        artifact_refs,
        Some(error),
        now,
        i,
    );
    crate::laws::text::lemma_plain_text_is_kept(parts);
}

/// An update is one at some moment, and a completion is an update that gives neither an
/// approval source nor references.
pub proof fn law_update_and_completion(
    call_id: &str,
    status: AuditStatus,
    approval_source: Option<String>,
    artifact_refs: Vec<String>,
    error: Option<String>,
    i: int,
)
    ensures
        forall|log: &mut AuditLog, r: bool| #[trigger]
            call_ensures(
                AuditLog::update,
                (log, call_id, status, approval_source, artifact_refs, error),
                r,
            ) ==> {
                &&& unfiled(log@, call_id@) ==> !r && final(log)@ == log@
                &&& filed_at(log@, call_id@, i) ==> {
                    let before = log@.records[i];
                    let after = final(log)@.records[i];
                    &&& r <==> undecided(before.status) || before.status == status
                    &&& !r ==> final(log)@ == log@
                    &&& r ==> final(log)@.records == log@.records.update(i, after) && exists|
                        now: Seq<char>,
                    |
                        utc_text(now) && #[trigger] became(
                            before,
                            after,
                            status,
                            approval_source.deep_view(),
                            artifact_refs.deep_view(),
                            error.deep_view(),
                            now,
                        )
                }
            },
        forall|log: &mut AuditLog| #[trigger]
            call_ensures(AuditLog::complete, (log, call_id, status, error), ()) ==> {
                &&& unfiled(log@, call_id@) ==> final(log)@ == log@
                &&& filed_at(log@, call_id@, i) ==> {
                    let before = log@.records[i];
                    let after = final(log)@.records[i];
                    let taken = undecided(before.status) || before.status == status;
                    &&& !taken ==> final(log)@ == log@
                    &&& taken ==> final(log)@.records == log@.records.update(i, after) && exists|
                        now: Seq<char>,
                    |
                        utc_text(now) && #[trigger] became(
                            before,
                            after,
                            status,
                            None,
                            seq![],
                            error.deep_view(),
                            now,
                        )
                }
            },
{
    assert forall|log: &mut AuditLog, r: bool| #[trigger]
        call_ensures(
            AuditLog::update,
            (log, call_id, status, approval_source, artifact_refs, error),
            r,
        ) implies {
        &&& unfiled(log@, call_id@) ==> !r && final(log)@ == log@
        &&& filed_at(log@, call_id@, i) ==> {
            let before = log@.records[i];
            let after = final(log)@.records[i];
            &&& r <==> undecided(before.status) || before.status == status
            &&& !r ==> final(log)@ == log@
            &&& r ==> final(log)@.records == log@.records.update(i, after) && exists|now: Seq<char>|
                utc_text(now) && #[trigger] became(
                    before,
                    after,
                    status,
                    approval_source.deep_view(),
                    artifact_refs.deep_view(),
                    error.deep_view(),
                    now,
                )
        }
    } by {
        if unfiled(log@, call_id@) {
            lemma_unfiled(log@, call_id@);
        }
        if filed_at(log@, call_id@, i) {
            lemma_filed(log@, call_id@, i);
            let change = crate::audit::ChangeModel {
                status,
                approval_source: approval_source.deep_view(),
                artifact_refs: artifact_refs.deep_view(),
                error: error.deep_view(),
            };
            let now = choose|now: Seq<char>|
                utc_text(now) && final(log)@ == #[trigger] log@.updated(call_id@, change, now);
            if r {
                let after = final(log)@.records[i];
                assert(became(
                    log@.records[i],
                    after,
                    status,
                    approval_source.deep_view(),
                    artifact_refs.deep_view(),
                    error.deep_view(),
                    now,
                ));
            }
        }
    }
    assert forall|log: &mut AuditLog| #[trigger]
        call_ensures(AuditLog::complete, (log, call_id, status, error), ()) implies {
        &&& unfiled(log@, call_id@) ==> final(log)@ == log@
        &&& filed_at(log@, call_id@, i) ==> {
            let before = log@.records[i];
            let after = final(log)@.records[i];
            let taken = undecided(before.status) || before.status == status;
            &&& !taken ==> final(log)@ == log@
            &&& taken ==> final(log)@.records == log@.records.update(i, after) && exists|
                now: Seq<char>,
            |
                utc_text(now) && #[trigger] became(
                    before,
                    after,
                    status,
                    None,
                    seq![],
                    error.deep_view(),
                    now,
                )
        }
    } by {
        if unfiled(log@, call_id@) {
            lemma_unfiled(log@, call_id@);
        }
        if filed_at(log@, call_id@, i) {
            lemma_filed(log@, call_id@, i);
            let change = crate::audit::ChangeModel {
                status,
                approval_source: None,
                artifact_refs: seq![],
                error: error.deep_view(),
            };
            let now = choose|now: Seq<char>|
                utc_text(now) && final(log)@ == #[trigger] log@.updated(call_id@, change, now);
            let before = log@.records[i];
            if undecided(before.status) || before.status == status {
                assert(became(
                    before,
                    final(log)@.records[i],
                    status,
                    None,
                    seq![],
                    error.deep_view(),
                    now,
                ));
            }
        }
    }
}

/// A record that is put in replaces the one of its call, in its place; otherwise it comes behind
/// the others, and only a log that is full lets its oldest record go.
pub proof fn law_record_is_put_in(record: AuditRecord, i: int)
    ensures
        forall|log: &mut AuditLog| #[trigger]
            call_ensures(AuditLog::upsert, (log, record), ()) ==> {
                &&& filed_at(log@, record.call_id@, i) ==> final(log)@ == (LogModel {
                    records: log@.records.update(i, record@),
                    ..log@
                })
                &&& unfiled(log@, record.call_id@) && log@.records.len() < log@.capacity
                    ==> final(log)@ == (LogModel { records: log@.records.push(record@), ..log@ })
                &&& unfiled(log@, record.call_id@) && log@.records.len() == log@.capacity
                    && log@.capacity > 0 ==> final(log)@ == (LogModel {
                    records: log@.records.skip(1).push(record@),
                    ..log@
                })
            },
{
    assert forall|log: &mut AuditLog| #[trigger]
        call_ensures(AuditLog::upsert, (log, record), ()) implies (unfiled(log@, record.call_id@)
        ==> !crate::audit::known(log@.records, record.call_id@)) && (filed_at(
        log@,
        record.call_id@,
        i,
    ) ==> crate::audit::known(log@.records, record.call_id@) && crate::audit::place(
        log@.records,
        record.call_id@,
    ) == i) && (log@.records.len() > 0 ==> log@.records.drop_first() == log@.records.skip(1)) by {
        if unfiled(log@, record.call_id@) {
            lemma_unfiled(log@, record.call_id@);
        }
        if filed_at(log@, record.call_id@, i) {
            lemma_filed(log@, record.call_id@, i);
        }
        if log@.records.len() > 0 {
            assert(log@.records.drop_first() =~= log@.records.skip(1));
        }
    }
}

/// A record stands for itself, field by field, and its copy says the same.
pub proof fn law_record_says(record: &AuditRecord, copy: AuditRecord)
    requires
        call_ensures(AuditRecord::clone, (record,), copy),
    ensures
        record@.call_id == record.call_id@ && record@.session_id == record.session_id@,
        record@.parent_agent == record.parent_agent.deep_view(),
        record@.tool_name == record.tool_name@ && record@.argument_hash == record.argument_hash@,
        record@.effects == record.effects@ && record@.risk == record.risk,
        record@.policy_action == record.policy_action,
        record@.approval_source == record.approval_source.deep_view(),
        record@.started_at == record.started_at.rfc3339@,
        record@.ended_at == record.ended_at.deep_view() && record@.status == record.status,
        record@.artifact_refs == record.artifact_refs.deep_view(),
        record@.redacted_error == record.redacted_error.deep_view(),
        copy@ == record@,
{
}

/// A log gives back its records, all of them and in their order, and the status of each call
/// that it knows.
pub proof fn law_log_gives_back_records(
    log: &AuditLog,
    call_id: &str,
    records: Vec<AuditRecord>,
    status: Option<AuditStatus>,
    i: int,
)
    requires
        call_ensures(AuditLog::snapshot, (log,), records),
        call_ensures(AuditLog::status, (log, call_id), status),
    ensures
        records@.len() == log@.records.len(),
        0 <= i < log@.records.len() ==> records@[i]@ == log@.records[i],
        filed_at(log@, call_id@, i) ==> status == Some(log@.records[i].status),
        unfiled(log@, call_id@) ==> status is None,
{
    let models = records@.map_values(|record: AuditRecord| record@);
    assert(models.len() == records@.len());
    if 0 <= i < log@.records.len() {
        assert(models[i] == records@[i]@);
    }
    if unfiled(log@, call_id@) {
        lemma_unfiled(log@, call_id@);
    }
    if filed_at(log@, call_id@, i) {
        lemma_filed(log@, call_id@, i);
    }
}

/// A new log is empty, has room for a record at least, and a salt of thirty-two bytes; one that
/// is made with a salt keeps it.
pub proof fn law_new_log(capacity: usize, salt: [u8; 32], a: AuditLog, b: AuditLog)
    requires
        call_ensures(AuditLog::new, (capacity,), a),
        call_ensures(AuditLog::with_salt, (capacity, salt), b),
    ensures
        a@.records.len() == 0 && b@.records.len() == 0,
        a@.capacity == b@.capacity,
        capacity > 0 ==> b@.capacity == capacity,
        capacity == 0 ==> b@.capacity == 1,
        a@.salt.len() == 32,
        b@.salt == salt@,
{
}

/// What is hashed of arguments is the whole salt and then the canonical text, and the hash is
/// the hexadecimal text of the digest of that; a log hashes with its own salt.
pub proof fn law_hash_is_salted(
    log: &AuditLog,
    arguments: &Json,
    salt: &[u8; 32],
    of_log: String,
    of_salt: String,
)
    requires
        call_ensures(AuditLog::hash_arguments, (log, arguments), of_log),
        call_ensures(argument_hash, (arguments, salt), of_salt),
    ensures
        of_log@ == hex_text(
            sha256_digest(
                log@.salt + vstd::utf8::encode_utf8(canonical_text(arguments.model())),
            ),
        ),
        of_salt@ == hex_text(
            sha256_digest(salt@ + vstd::utf8::encode_utf8(canonical_text(arguments.model()))),
        ),
        log@.salt == salt@ ==> of_log@ == of_salt@,
        hashed_bytes(salt@, arguments.model()).take(32) == salt@,
        hashed_bytes(salt@, arguments.model()).skip(32) == vstd::utf8::encode_utf8(
            canonical_text(arguments.model()),
        ),
{
    let bytes = hashed_bytes(salt@, arguments.model());
    assert(salt@.len() == 32);
    assert(bytes.take(32) =~= salt@);
    assert(bytes.skip(32) =~= vstd::utf8::encode_utf8(canonical_text(arguments.model())));
}

/// A salt holds both of its halves, and salted bytes hold the salt and then the text.
pub proof fn law_salt(
    first: &[u8; 16],
    second: &[u8; 16],
    salt: [u8; 32],
    text: &str,
    bytes: Vec<u8>,
)
    requires
        call_ensures(salt_from, (first, second), salt),
        call_ensures(salted, (&salt, text), bytes),
    ensures
        salt@.take(16) == first@,
        salt@.skip(16) == second@,
        bytes@.take(32) == salt@,
        bytes@.skip(32) == vstd::utf8::encode_utf8(text@),
{
    assert(salt@.take(16) =~= first@);
    assert(salt@.skip(16) =~= second@);
    assert(bytes@.take(32) =~= salt@);
    assert(bytes@.skip(32) =~= vstd::utf8::encode_utf8(text@));
}

} // verus!
