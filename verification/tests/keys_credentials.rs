use ai_translator::credentials::{
    adopt_legacy_google_key, chat_api_key, credential_delete_result, credential_read_failure,
    credential_secret_text, credential_write_result, delete_google_api_key_from_credential_manager,
    gemini_key_outcome, needs_file_key, optional_bearer_key, plan_credential_save, read_credential_api_key,
    read_google_api_key_from_credential_manager, save_google_api_key_to_credential_manager,
    save_without_credential_store, stored_key_or_empty, ApiKeySource, CredentialKind,
    CredentialSave, DeleteStep, GoogleKeyStep,
};
use ai_translator::keys::{credential_error, normalize_google_api_key, to_wide};

const NOT_FOUND: u32 = 1168;
const MAX_BLOB: usize = 5 * 512;

#[test]
fn normalize_trims_and_strips_bearer() {
    assert_eq!(normalize_google_api_key("  abc  "), "abc");
    assert_eq!(normalize_google_api_key("Bearer xyz"), "xyz");
    assert_eq!(normalize_google_api_key("  bEaReR    xyz \n"), "xyz");
    assert_eq!(normalize_google_api_key("Bearer"), "Bearer");
    assert_eq!(normalize_google_api_key("BEARER\txyz"), "BEARER\txyz");
    assert_eq!(normalize_google_api_key("Bearer Bearer k"), "Bearer k");
}

#[test]
fn normalize_empty_quotes() {
    assert_eq!(normalize_google_api_key("\"\""), "");
    assert_eq!(normalize_google_api_key(" '' "), "");
    assert_eq!(normalize_google_api_key("'a'"), "'a'");
    assert_eq!(normalize_google_api_key(""), "");
}

#[test]
fn credential_error_message() {
    assert_eq!(
        credential_error("write", 5),
        "Windows Credential Manager write failed with error code 5."
    );
    assert_eq!(
        credential_error("read", 1312),
        "Windows Credential Manager read failed with error code 1312."
    );
}

#[test]
fn wide_strings_are_utf16_with_terminator() {
    assert_eq!(to_wide("A€😀"), vec![0x41, 0x20AC, 0xD83D, 0xDE00, 0]);
    assert_eq!(to_wide(""), vec![0]);
    let s = "AI Universal Translator: Google API Key";
    let mut expected: Vec<u16> = s.encode_utf16().collect();
    expected.push(0);
    assert_eq!(to_wide(s), expected);
}

#[test]
fn stored_secret_yields_normalized_key() {
    let r = read_credential_api_key(Ok(Some("  Bearer k ".to_string())));
    assert_eq!(r.result, Ok(Some("k".to_string())));
    assert!(!r.delete_stale);
}

#[test]
fn stale_secret_is_deleted() {
    let r = read_credential_api_key(Ok(Some("''".to_string())));
    assert_eq!(r.result, Ok(None));
    assert!(r.delete_stale);
    let r = read_credential_api_key(Ok(None));
    assert_eq!(r.result, Ok(None));
    assert!(!r.delete_stale);
    let r = read_credential_api_key(Err("boom".to_string()));
    assert_eq!(r.result, Err("boom".to_string()));
    assert!(!r.delete_stale);
}

#[test]
fn secret_text_drops_trailing_nuls() {
    assert_eq!(credential_secret_text("key\0\0"), Some("key".to_string()));
    assert_eq!(credential_secret_text(" key \0"), Some(" key ".to_string()));
    assert_eq!(credential_secret_text("  \0"), None);
    assert_eq!(credential_secret_text(""), None);
}

#[test]
fn google_lookup_falls_back_to_legacy() {
    assert!(matches!(
        read_google_api_key_from_credential_manager(Ok(None)),
        GoogleKeyStep::CheckLegacy
    ));
    match read_google_api_key_from_credential_manager(Ok(Some("k".to_string()))) {
        GoogleKeyStep::Done(r) => assert_eq!(r, Ok(Some("k".to_string()))),
        _ => panic!("expected the lookup to end"),
    }
    match read_google_api_key_from_credential_manager(Err("e".to_string())) {
        GoogleKeyStep::Done(r) => assert_eq!(r, Err("e".to_string())),
        _ => panic!("expected the lookup to end"),
    }
    let a = adopt_legacy_google_key(Ok(Some("old".to_string())));
    assert_eq!(a.result, Ok(Some("old".to_string())));
    assert_eq!(a.migrate, Some("old".to_string()));
    let a = adopt_legacy_google_key(Ok(None));
    assert_eq!(a.migrate, None);
    let a = adopt_legacy_google_key(Err("e".to_string()));
    assert_eq!(a.migrate, None);
    assert_eq!(a.result, Err("e".to_string()));
}

#[test]
fn saving_keys() {
    assert!(matches!(
        save_google_api_key_to_credential_manager("  ", MAX_BLOB),
        CredentialSave::Delete
    ));
    match save_google_api_key_to_credential_manager(" Bearer k1 ", MAX_BLOB) {
        CredentialSave::Write(k) => assert_eq!(k, "k1"),
        _ => panic!("expected a write"),
    }
    match save_google_api_key_to_credential_manager(&"a".repeat(3000), MAX_BLOB) {
        CredentialSave::Reject(m) => {
            assert_eq!(m, "Google API key is too long for Windows Credential Manager.")
        }
        _ => panic!("expected a refusal"),
    }
}

#[test]
fn key_length_counts_utf8_bytes() {
    match plan_credential_save(&"é".repeat(1281), CredentialKind::Cerebras, MAX_BLOB) {
        CredentialSave::Reject(m) => {
            assert_eq!(m, "Cerebras API key is too long for Windows Credential Manager.")
        }
        _ => panic!("expected a refusal"),
    }
    assert!(matches!(
        plan_credential_save(&"é".repeat(1280), CredentialKind::OllamaCloud, MAX_BLOB),
        CredentialSave::Write(_)
    ));
}

#[test]
fn saving_without_a_store() {
    assert_eq!(save_without_credential_store("  "), Ok(()));
    assert_eq!(
        save_without_credential_store("k"),
        Err("Windows Credential Manager is only available on Windows.".to_string())
    );
}

#[test]
fn store_call_results() {
    assert_eq!(credential_write_result(true, 0), Ok(()));
    assert_eq!(
        credential_write_result(false, 5),
        Err("Windows Credential Manager write failed with error code 5.".to_string())
    );
    assert_eq!(credential_delete_result(true, 0, NOT_FOUND), Ok(()));
    assert_eq!(credential_delete_result(false, NOT_FOUND, NOT_FOUND), Ok(()));
    assert_eq!(
        credential_delete_result(false, 5, NOT_FOUND),
        Err("Windows Credential Manager delete failed with error code 5.".to_string())
    );
    assert_eq!(credential_read_failure(NOT_FOUND, NOT_FOUND), Ok(None));
    assert_eq!(
        credential_read_failure(87, NOT_FOUND),
        Err("Windows Credential Manager read failed with error code 87.".to_string())
    );
}

#[test]
fn deleting_the_google_key() {
    assert!(matches!(
        delete_google_api_key_from_credential_manager(Ok(())),
        DeleteStep::DeleteLegacy
    ));
    match delete_google_api_key_from_credential_manager(Err("x".to_string())) {
        DeleteStep::Done(r) => assert_eq!(r, Err("x".to_string())),
        _ => panic!("expected the delete to end"),
    }
}

#[test]
fn stored_keys_default_to_empty() {
    assert_eq!(stored_key_or_empty(Ok(Some("k".to_string()))), Ok("k".to_string()));
    assert_eq!(stored_key_or_empty(Ok(None)), Ok(String::new()));
    assert_eq!(stored_key_or_empty(Err("e".to_string())), Err("e".to_string()));
}

#[test]
fn gemini_key_prefers_the_store() {
    assert!(!needs_file_key(&Ok(Some("k".to_string()))));
    assert!(needs_file_key(&Ok(None)));
    assert!(needs_file_key(&Err("e".to_string())));
    let o = gemini_key_outcome(Ok(Some("k".to_string())), Some("other".to_string()));
    assert_eq!(o.result, Ok("k".to_string()));
    assert_eq!(o.migrate, None);
}

#[test]
fn gemini_key_from_file_is_migrated() {
    let o = gemini_key_outcome(Ok(None), Some("  Bearer filekey\n".to_string()));
    assert_eq!(o.result, Ok("filekey".to_string()));
    assert_eq!(o.migrate, Some("filekey".to_string()));
    let o = gemini_key_outcome(Ok(None), None);
    assert_eq!(o.result, Ok(String::new()));
    assert_eq!(o.migrate, None);
}

#[test]
fn gemini_key_store_error() {
    let o = gemini_key_outcome(Err("denied".to_string()), Some("fk".to_string()));
    assert_eq!(o.result, Ok("fk".to_string()));
    assert_eq!(o.migrate, None);
    let o = gemini_key_outcome(Err("denied".to_string()), Some("  ".to_string()));
    assert_eq!(o.result, Err("denied".to_string()));
}

#[test]
fn chat_keys_by_provider() {
    match chat_api_key("google", Some("Bearer abc")) {
        ApiKeySource::Key(k) => assert_eq!(k, "abc"),
        _ => panic!("expected the given key"),
    }
    assert!(matches!(
        chat_api_key("Google", None),
        ApiKeySource::Stored(CredentialKind::Google)
    ));
    assert!(matches!(
        chat_api_key("Cerebras", Some(" ")),
        ApiKeySource::Stored(CredentialKind::Cerebras)
    ));
    assert!(matches!(
        chat_api_key("ollamacloud", Some("''")),
        ApiKeySource::Stored(CredentialKind::OllamaCloud)
    ));
    match chat_api_key("OLLAMA", Some("ignored")) {
        ApiKeySource::Key(k) => assert_eq!(k, "ollama"),
        _ => panic!("expected the default key"),
    }
    match chat_api_key("LM Studio", None) {
        ApiKeySource::Key(k) => assert_eq!(k, "lm-studio"),
        _ => panic!("expected the default key"),
    }
}

#[test]
fn model_list_keys() {
    assert_eq!(optional_bearer_key(None), None);
    assert_eq!(optional_bearer_key(Some("  ")), None);
    assert_eq!(optional_bearer_key(Some("Bearer t")), Some("t".to_string()));
}

#[test]
fn credential_entries() {
    assert_eq!(
        CredentialKind::Google.target_name(),
        "AI Universal Translator: Google API Key"
    );
    assert_eq!(
        CredentialKind::LegacyGoogle.target_name(),
        "AI Universal Translator: Google API Bearer Token"
    );
    assert_eq!(CredentialKind::Cerebras.user_name(), "API Key");
    assert_eq!(
        CredentialKind::OllamaCloud.comment(),
        "Ollama Cloud API key for AI Universal Translator"
    );
}

#[test]
fn normalized_keys_are_trimmed() {
    for raw in ["  a b  ", "Bearer   x \t", "\"\"", "bearer  '' ", "\u{2003}k\u{2003}"] {
        let k = normalize_google_api_key(raw);
        assert_eq!(k.trim(), k);
    }
}
