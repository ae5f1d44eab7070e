use devin_process::audit::{argument_hash, salt_from, salted};
use devin_process::clock::Timestamp;
use devin_process::json::{Json, JsonNumber, JsonObject};
use devin_process::{
    redact_error, AuditLog, AuditRecord, AuditStatus, PolicyAction, RiskClass, ToolEffect,
};

fn record(call_id: &str) -> AuditRecord {
    AuditRecord {
        call_id: call_id.to_string(),
        session_id: "session".to_string(),
        parent_agent: None,
        tool_name: "exec".to_string(),
        argument_hash: "hash".to_string(),
        effects: vec![ToolEffect::Process],
        risk: RiskClass::Critical,
        policy_action: PolicyAction::Allow,
        approval_source: None,
        started_at: Timestamp::now(),
        ended_at: None,
        status: AuditStatus::Pending,
        artifact_refs: Vec::new(),
        redacted_error: None,
    }
}

fn at(text: &str) -> Timestamp {
    Timestamp {
        rfc3339: text.to_string(),
    }
}

fn calls(log: &AuditLog) -> Vec<String> {
    log.snapshot().into_iter().map(|r| r.call_id).collect()
}

fn first_order() -> Json {
    let inner = JsonObject::new()
        .with("x", Json::Bool(true))
        .with("y", Json::Bool(false))
        .build();
    JsonObject::new()
        .with("a", Json::unsigned(1))
        .with("b", inner)
        .build()
}

fn second_order() -> Json {
    let inner = JsonObject::new()
        .with("y", Json::Bool(false))
        .with("x", Json::Bool(true))
        .build();
    JsonObject::new()
        .with("b", inner)
        .with("a", Json::unsigned(1))
        .build()
}

#[test]
fn argument_hash_is_independent_of_object_key_order() {
    let audit = AuditLog::new(8);
    assert_eq!(
        audit.hash_arguments(&first_order()),
        audit.hash_arguments(&second_order())
    );
}

#[test]
fn separate_audit_logs_use_distinct_hash_salts() {
    let arguments = JsonObject::new()
        .with("token", Json::text("low-entropy"))
        .build();
    assert_ne!(
        AuditLog::new(8).hash_arguments(&arguments),
        AuditLog::new(8).hash_arguments(&arguments)
    );
}

#[test]
fn lifecycle_updates_replace_the_existing_call_record() {
    let mut audit = AuditLog::new(8);
    let record = record("call-1");
    audit.upsert(record.clone());
    audit.upsert(record);
    assert_eq!(audit.snapshot().len(), 1);
    assert!(audit.update(
        "call-1",
        AuditStatus::TimedOut,
        Some("policy".to_string()),
        vec!["artifact://output".to_string()],
        Some("token=secret timed out".to_string()),
    ));
    let records = audit.snapshot();
    assert_eq!(records.len(), 1);
    assert_eq!(records[0].status, AuditStatus::TimedOut);
    assert_eq!(records[0].approval_source.as_deref(), Some("policy"));
    assert_eq!(records[0].artifact_refs, vec!["artifact://output"]);
    assert_eq!(
        records[0].redacted_error.as_deref(),
        Some("[REDACTED] timed out")
    );
    assert!(records[0].ended_at.is_some());
}

#[test]
fn redacts_common_secret_tokens() {
    let redacted = redact_error("failed token=abc password=hunter2 Bearer abc sk-example");
    assert_eq!(
        redacted,
        "failed [REDACTED] [REDACTED] [REDACTED] [REDACTED] [REDACTED]"
    );
}

#[test]
fn argument_hash_is_salted_sha256_of_canonical_text() {
    assert_eq!(
        argument_hash(&Json::Null, &[0u8; 32]),
        "0ce72efe2febf601597e798ce6f65735895a0fe901b978ea3ed02ff14b4e85eb"
    );
    let mut salt = [0u8; 32];
    for i in 0..32u8 {
        salt[i as usize] = i;
    }
    assert_eq!(
        argument_hash(&second_order(), &salt),
        "ca73374882c3d8f667ccc489fccf09ab7c9969d91b44b98123948b7c5d4c20c8"
    );
    assert_eq!(
        AuditLog::with_salt(1, salt).hash_arguments(&first_order()),
        "ca73374882c3d8f667ccc489fccf09ab7c9969d91b44b98123948b7c5d4c20c8"
    );
}

#[test]
fn salted_bytes_are_salt_then_text() {
    let bytes = salted(&[7u8; 32], "é");
    assert_eq!(bytes.len(), 34);
    assert_eq!(&bytes[..32], &[7u8; 32][..]);
    assert_eq!(&bytes[32..], "é".as_bytes());
    let salt = salt_from(&[1u8; 16], &[2u8; 16]);
    assert_eq!(&salt[..16], &[1u8; 16][..]);
    assert_eq!(&salt[16..], &[2u8; 16][..]);
}

#[test]
fn full_log_drops_its_oldest_record() {
    let mut audit = AuditLog::new(2);
    for call in ["a", "b", "c"] {
        audit.upsert(record(call));
    }
    assert_eq!(calls(&audit), vec!["b", "c"]);
    audit.upsert(record("b"));
    assert_eq!(calls(&audit), vec!["b", "c"]);
    assert_eq!(audit.status("a"), None);
}

#[test]
fn log_without_room_keeps_one_record() {
    let mut audit = AuditLog::new(0);
    audit.upsert(record("a"));
    audit.upsert(record("b"));
    assert_eq!(calls(&audit), vec!["b"]);
}

#[test]
fn unknown_call_is_not_updated() {
    let mut audit = AuditLog::new(2);
    audit.upsert(record("a"));
    assert!(!audit.update("b", AuditStatus::Failed, None, Vec::new(), None));
    assert_eq!(audit.status("a"), Some(AuditStatus::Pending));
    assert_eq!(audit.status("b"), None);
}

#[test]
fn terminal_outcome_is_not_replaced() {
    let mut audit = AuditLog::new(2);
    audit.upsert(record("a"));
    let ended = "2024-01-01T00:00:00Z";
    assert!(audit.update_at(
        "a",
        AuditStatus::Cancelled,
        None,
        Vec::new(),
        None,
        at(ended)
    ));
    assert!(!audit.update("a", AuditStatus::Succeeded, None, Vec::new(), None));
    assert!(!audit.update("a", AuditStatus::Allowed, None, Vec::new(), None));
    assert_eq!(audit.status("a"), Some(AuditStatus::Cancelled));
    // The same outcome is taken again, with what it adds, at the same end time.
    assert!(audit.update_at(
        "a",
        AuditStatus::Cancelled,
        None,
        vec!["file://x".to_string()],
        Some("Bearer x".to_string()),
        at("2025-01-01T00:00:00Z")
    ));
    let records = audit.snapshot();
    assert_eq!(records[0].artifact_refs, vec!["file://x"]);
    assert_eq!(
        records[0].redacted_error.as_deref(),
        Some("[REDACTED] [REDACTED]")
    );
    assert_eq!(records[0].ended_at, Some(at(ended)));
}

#[test]
fn open_states_set_no_end_time() {
    let mut audit = AuditLog::new(2);
    audit.upsert(record("a"));
    assert!(audit.update("a", AuditStatus::Allowed, Some("user".to_string()), Vec::new(), None));
    let records = audit.snapshot();
    assert_eq!(records[0].ended_at, None);
    assert_eq!(records[0].approval_source.as_deref(), Some("user"));
    audit.complete("a", AuditStatus::Denied, None);
    let records = audit.snapshot();
    assert_eq!(records[0].status, AuditStatus::Denied);
    assert_eq!(records[0].approval_source.as_deref(), Some("user"));
    assert!(records[0].ended_at.is_some());
}

#[test]
fn times_are_utc_text() {
    let now = Timestamp::now().rfc3339;
    assert!(now.len() >= 20);
    assert!(now.ends_with('Z'));
    assert_eq!(&now[10..11], "T");
    assert_eq!(&now[4..5], "-");
}

#[test]
fn numbers_hash_by_value() {
    let audit = AuditLog::new(1);
    assert_eq!(
        audit.hash_arguments(&Json::integer(5)),
        audit.hash_arguments(&Json::unsigned(5))
    );
    assert_ne!(
        audit.hash_arguments(&Json::integer(-5)),
        audit.hash_arguments(&Json::unsigned(5))
    );
    assert_ne!(
        audit.hash_arguments(&Json::Number(JsonNumber::Float("5.0".to_string()))),
        audit.hash_arguments(&Json::unsigned(5))
    );
}
