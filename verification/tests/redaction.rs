use devin_process::redact_error;

#[test]
fn plain_words_are_kept_with_single_spaces() {
    assert_eq!(redact_error(""), "");
    assert_eq!(redact_error("   "), "");
    assert_eq!(redact_error("  a \t b\u{a0}c\u{3000}d\n"), "a b c d");
}

#[test]
fn each_credential_shape_is_hidden() {
    for word in [
        "token=1",
        "xTOKEN=1",
        "password=",
        "my_secret=2",
        "API_KEY=3",
        "apikey=4",
        "Authorization:x",
        "sk-abc",
        "SK-ABC",
        "Bearer",
    ] {
        assert_eq!(redact_error(word), "[REDACTED]", "{}", word);
    }
    for word in ["token", "xauthorization:", "ask-abc", "bearer:", "tokén", "secret"] {
        assert_eq!(redact_error(word), word);
    }
}

#[test]
fn word_behind_bearer_announces_nothing() {
    assert_eq!(
        redact_error("bearer bearer word"),
        "[REDACTED] [REDACTED] word"
    );
    assert_eq!(
        redact_error("BEARER x bearer"),
        "[REDACTED] [REDACTED] [REDACTED]"
    );
    assert_eq!(redact_error("sk-1 word"), "[REDACTED] word");
}

#[test]
fn redaction_is_idempotent() {
    let once = redact_error("a Bearer  b token=c d");
    assert_eq!(once, "a [REDACTED] [REDACTED] [REDACTED] d");
    assert_eq!(redact_error(&once), once);
}
