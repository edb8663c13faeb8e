//! The decisions around the Windows credential store: which key a stored
//! secret yields, when a stale or legacy entry is removed, when a key is
//! written or refused, and which key a chat request is sent with.
//!
//! The store itself is reached by the caller; each function here takes what
//! the store answered and says what happens next.
use vstd::prelude::*;

use crate::keys::{credential_error, normalize_google_api_key, spec_credential_error, spec_normalize_key};
use crate::text::{
    chars_of, eq_ignore_ascii_case, same_ignoring_case, spec_trim, string_of, trim_chars, trim_end,
    trim_end_chars, trim_text,
};

verus! {

/// The credential-store entries the application uses.
#[derive(Clone, Copy, PartialEq, Eq, Structural, Debug)]
pub enum CredentialKind {
    Google,
    LegacyGoogle,
    Cerebras,
    OllamaCloud,
}

impl CredentialKind {
    /// The entry's target name in the store.
    pub open spec fn spec_target_name(self) -> Seq<char> {
        match self {
            CredentialKind::Google => "AI Universal Translator: Google API Key"@,
            CredentialKind::LegacyGoogle => "AI Universal Translator: Google API Bearer Token"@,
            CredentialKind::Cerebras => "AI Universal Translator: Cerebras API Key"@,
            CredentialKind::OllamaCloud => "AI Universal Translator: Ollama Cloud API Key"@,
        }
    }

    /// The entry's target name in the store.
    pub fn target_name(self) -> (r: &'static str)
        ensures
            r@ == self.spec_target_name(),
    {
        match self {
            CredentialKind::Google => "AI Universal Translator: Google API Key",
            CredentialKind::LegacyGoogle => "AI Universal Translator: Google API Bearer Token",
            CredentialKind::Cerebras => "AI Universal Translator: Cerebras API Key",
            CredentialKind::OllamaCloud => "AI Universal Translator: Ollama Cloud API Key",
        }
    }

    /// The user name stored with every entry.
    pub fn user_name(self) -> (r: &'static str)
        ensures
            r@ == "API Key"@,
    {
        "API Key"
    }

    /// The provider name used in messages about the entry.
    pub open spec fn spec_label(self) -> Seq<char> {
        match self {
            CredentialKind::Google | CredentialKind::LegacyGoogle => "Google"@,
            CredentialKind::Cerebras => "Cerebras"@,
            CredentialKind::OllamaCloud => "Ollama Cloud"@,
        }
    }

    /// The provider name used in messages about the entry.
    pub fn label(self) -> (r: &'static str)
        ensures
            r@ == self.spec_label(),
    {
        match self {
            CredentialKind::Google | CredentialKind::LegacyGoogle => "Google",
            CredentialKind::Cerebras => "Cerebras",
            CredentialKind::OllamaCloud => "Ollama Cloud",
        }
    }

    /// The comment stored with the entry: "<provider> API key for AI
    /// Universal Translator".
    pub fn comment(self) -> (r: String)
        ensures
            r@ == self.spec_label() + " API key for AI Universal Translator"@,
    {
        let mut r = String::from_str(self.label());
        r.append(" API key for AI Universal Translator");
        r
    }
}

/// What a stored secret yields once read: its key and whether the entry
/// should be removed because it holds no usable key.
pub struct CredentialKeyRead {
    pub result: Result<Option<String>, String>,
    pub delete_stale: bool,
}

/// The key held in a credential entry, given what reading the entry's
/// secret gave: a read error is passed on; a secret whose normalized key is
/// empty yields no key and asks for the entry to be deleted.
pub fn read_credential_api_key(secret: Result<Option<String>, String>) -> (r: CredentialKeyRead)
    ensures
        match secret {
            Err(e) => r.result == Err::<Option<String>, String>(e) && !r.delete_stale,
            Ok(None) => r.result is Ok && r.result->Ok_0 is None && !r.delete_stale,
            Ok(Some(raw)) => if spec_normalize_key(raw@).len() == 0 {
                r.result is Ok && r.result->Ok_0 is None && r.delete_stale
            } else {
                r.result is Ok && r.result->Ok_0 is Some && r.result->Ok_0->Some_0@
                    == spec_normalize_key(raw@) && !r.delete_stale
            },
        },
{
    match secret {
        Err(e) => CredentialKeyRead { result: Err(e), delete_stale: false },
        Ok(None) => CredentialKeyRead { result: Ok(None), delete_stale: false },
        Ok(Some(raw)) => {
            let key = normalize_google_api_key(raw.as_str());
            if key.unicode_len() == 0 {
                CredentialKeyRead { result: Ok(None), delete_stale: true }
            } else {
                CredentialKeyRead { result: Ok(Some(key)), delete_stale: false }
            }
        },
    }
}

/// The secret text of a credential blob (already decoded from UTF-8):
/// trailing NUL characters are dropped, and a secret that is blank is no
/// secret.
pub fn credential_secret_text(decoded: &str) -> (r: Option<String>)
    ensures
        ({
            let t = trim_end(decoded@, Some('\0'));
            if spec_trim(t).len() == 0 {
                r is None
            } else {
                r is Some && r->Some_0@ == t
            }
        }),
{
    let v = chars_of(decoded);
    let t = trim_end_chars(v.as_slice(), Some('\0'));
    let inner = trim_chars(t.as_slice(), None);
    if inner.len() == 0 {
        None
    } else {
        Some(string_of(t.as_slice()))
    }
}

/// The next step in reading the Google key.
pub enum GoogleKeyStep {
    /// The lookup is over, with this result.
    Done(Result<Option<String>, String>),
    /// The current entry holds no key: look in the legacy entry.
    CheckLegacy,
}

/// Reading the Google key, given what the current entry yielded: a key or an
/// error ends the lookup; no key sends it on to the legacy entry.
pub fn read_google_api_key_from_credential_manager(
    current: Result<Option<String>, String>,
) -> (r: GoogleKeyStep)
    ensures
        match current {
            Ok(None) => r is CheckLegacy,
            _ => r == GoogleKeyStep::Done(current),
        },
{
    match current {
        Ok(None) => GoogleKeyStep::CheckLegacy,
        other => GoogleKeyStep::Done(other),
    }
}

/// What the legacy Google entry yields: its result and, where it held a
/// key, that key, to be moved to the current entry (saved there, then the
/// legacy entry deleted).
pub struct LegacyKeyAdoption {
    pub result: Result<Option<String>, String>,
    pub migrate: Option<String>,
}

/// The Google key from the legacy entry: a key found there is returned and
/// migrated.
pub fn adopt_legacy_google_key(legacy: Result<Option<String>, String>) -> (r: LegacyKeyAdoption)
    ensures
        r.result == legacy,
        match legacy {
            Ok(Some(k)) => r.migrate == Some(k),
            _ => r.migrate is None,
        },
{
    let migrate = match &legacy {
        Ok(Some(k)) => Some(k.clone()),
        _ => None,
    };
    LegacyKeyAdoption { result: legacy, migrate }
}

/// What saving a key to the store comes to.
pub enum CredentialSave {
    /// The key is empty: delete the entry (for Google, the legacy one too).
    Delete,
    /// The key is too long for the store; the save fails with this message.
    Reject(String),
    /// Write this (normalized) key.
    Write(String),
}

/// The message for a key longer than the store accepts.
pub open spec fn spec_too_long_message(kind: CredentialKind) -> Seq<char> {
    kind.spec_label() + " API key is too long for Windows Credential Manager."@
}

/// Whether a normalized key is too long for a store whose secrets hold at
/// most `max_blob_size` bytes (its UTF-8 length counts).
pub open spec fn key_too_long(key: Seq<char>, max_blob_size: nat) -> bool {
    vstd::utf8::encode_utf8(key).len() > max_blob_size
}

/// Saving `api_key` to the entry `kind`: an empty normalized key deletes the
/// entry; one longer than `max_blob_size` bytes is refused; any other is
/// written in its normalized form.
pub fn plan_credential_save(api_key: &str, kind: CredentialKind, max_blob_size: usize) -> (r:
    CredentialSave)
    ensures
        ({
            let k = spec_normalize_key(api_key@);
            if k.len() == 0 {
                r is Delete
            } else if key_too_long(k, max_blob_size as nat) {
                r is Reject && r->Reject_0@ == spec_too_long_message(kind)
            } else {
                r is Write && r->Write_0@ == k
            }
        }),
{
    let key = normalize_google_api_key(api_key);
    if key.unicode_len() == 0 {
        return CredentialSave::Delete;
    }
    let kv = chars_of(key.as_str());
    if crate::text::utf8_len_exceeds(kv.as_slice(), max_blob_size) {
        let mut msg = String::from_str(kind.label());
        msg.append(" API key is too long for Windows Credential Manager.");
        return CredentialSave::Reject(msg);
    }
    CredentialSave::Write(key)
}

/// Saving the Google key: `plan_credential_save` for the Google entry.
pub fn save_google_api_key_to_credential_manager(api_key: &str, max_blob_size: usize) -> (r:
    CredentialSave)
    ensures
        ({
            let k = spec_normalize_key(api_key@);
            if k.len() == 0 {
                r is Delete
            } else if key_too_long(k, max_blob_size as nat) {
                r is Reject && r->Reject_0@ == spec_too_long_message(CredentialKind::Google)
            } else {
                r is Write && r->Write_0@ == k
            }
        }),
{
    plan_credential_save(api_key, CredentialKind::Google, max_blob_size)
}

/// The message where no credential store exists.
pub open spec fn spec_no_store_message() -> Seq<char> {
    "Windows Credential Manager is only available on Windows."@
}

/// Saving a key where there is no credential store: clearing it succeeds,
/// any real key is refused.
pub fn save_without_credential_store(api_key: &str) -> (r: Result<(), String>)
    ensures
        spec_normalize_key(api_key@).len() == 0 ==> r is Ok,
        spec_normalize_key(api_key@).len() != 0 ==> r is Err && r->Err_0@
            == spec_no_store_message(),
{
    let key = normalize_google_api_key(api_key);
    if key.unicode_len() == 0 {
        Ok(())
    } else {
        Err(String::from_str("Windows Credential Manager is only available on Windows."))
    }
}

/// The result of a credential write: success, or the write error.
pub fn credential_write_result(succeeded: bool, error_code: u32) -> (r: Result<(), String>)
    ensures
        succeeded ==> r is Ok,
        !succeeded ==> r is Err && r->Err_0@ == spec_credential_error("write"@, error_code as nat),
{
    if succeeded {
        Ok(())
    } else {
        Err(credential_error("write", error_code))
    }
}

/// The result of a credential delete: success, also when the entry did not
/// exist (`error_code == not_found_code`), or the delete error.
pub fn credential_delete_result(succeeded: bool, error_code: u32, not_found_code: u32) -> (r:
    Result<(), String>)
    ensures
        (succeeded || error_code == not_found_code) ==> r is Ok,
        !(succeeded || error_code == not_found_code) ==> r is Err && r->Err_0@
            == spec_credential_error("delete"@, error_code as nat),
{
    if succeeded || error_code == not_found_code {
        Ok(())
    } else {
        Err(credential_error("delete", error_code))
    }
}

/// The result of a credential read that failed: no entry, or the read
/// error.
pub fn credential_read_failure(error_code: u32, not_found_code: u32) -> (r: Result<
    Option<String>,
    String,
>)
    ensures
        error_code == not_found_code ==> r is Ok && r->Ok_0 is None,
        error_code != not_found_code ==> r is Err && r->Err_0@ == spec_credential_error(
            "read"@,
            error_code as nat,
        ),
{
    if error_code == not_found_code {
        Ok(None)
    } else {
        Err(credential_error("read", error_code))
    }
}

/// The next step in deleting the Google key.
pub enum DeleteStep {
    Done(Result<(), String>),
    DeleteLegacy,
}

/// Deleting the Google key, given how deleting the current entry went: an
/// error ends it, otherwise the legacy entry is deleted next (and its result
/// is the result).
pub fn delete_google_api_key_from_credential_manager(current: Result<(), String>) -> (r:
    DeleteStep)
    ensures
        current is Ok ==> r is DeleteLegacy,
        current is Err ==> r == DeleteStep::Done(current),
{
    match current {
        Ok(()) => DeleteStep::DeleteLegacy,
        Err(e) => DeleteStep::Done(Err(e)),
    }
}

/// A stored key, or the empty string where none is stored; errors pass.
pub fn stored_key_or_empty(stored: Result<Option<String>, String>) -> (r: Result<String, String>)
    ensures
        match stored {
            Ok(Some(k)) => r == Ok::<String, String>(k),
            Ok(None) => r is Ok && r->Ok_0@ == Seq::<char>::empty(),
            Err(e) => r == Err::<String, String>(e),
        },
{
    match stored {
        Ok(Some(k)) => Ok(k),
        Ok(None) => Ok(String::new()),
        Err(e) => Err(e),
    }
}

/// Whether loading the Gemini key needs the key file: only when the store
/// has no key or could not be read.
pub fn needs_file_key(stored: &Result<Option<String>, String>) -> (r: bool)
    ensures
        r == !(stored is Ok && stored->Ok_0 is Some),
{
    match stored {
        Ok(Some(_)) => false,
        _ => true,
    }
}

/// The outcome of loading the Gemini key.
pub struct GeminiKeyOutcome {
    pub result: Result<String, String>,
    /// A key from the file to be saved to the store.
    pub migrate: Option<String>,
}

/// The key from the key file: its trimmed contents, or nothing.
pub open spec fn spec_file_key(file_contents: Option<String>) -> Seq<char> {
    match file_contents {
        Some(t) => spec_normalize_key(spec_trim(t@)),
        None => Seq::<char>::empty(),
    }
}

/// Loading the Gemini key: a stored key wins; with none stored, the file's
/// key is used (and migrated to the store when non-empty); when the store
/// failed, the file's key is used if non-empty, else the store's error.
pub fn gemini_key_outcome(
    stored: Result<Option<String>, String>,
    file_contents: Option<String>,
) -> (r: GeminiKeyOutcome)
    ensures
        match stored {
            Ok(Some(k)) => r.result == Ok::<String, String>(k) && r.migrate is None,
            Ok(None) => {
                let fk = spec_file_key(file_contents);
                &&& r.result is Ok
                &&& r.result->Ok_0@ == fk
                &&& if fk.len() == 0 {
                    r.migrate is None
                } else {
                    r.migrate is Some && r.migrate->Some_0@ == fk
                }
            },
            Err(e) => {
                let fk = spec_file_key(file_contents);
                &&& r.migrate is None
                &&& if fk.len() == 0 {
                    r.result == Err::<String, String>(e)
                } else {
                    r.result is Ok && r.result->Ok_0@ == fk
                }
            },
        },
{
    match stored {
        Ok(Some(k)) => GeminiKeyOutcome { result: Ok(k), migrate: None },
        Ok(None) => {
            let key = file_key(file_contents);
            if key.unicode_len() == 0 {
                GeminiKeyOutcome { result: Ok(key), migrate: None }
            } else {
                let copy = key.clone();
                GeminiKeyOutcome { result: Ok(key), migrate: Some(copy) }
            }
        },
        Err(e) => {
            let key = file_key(file_contents);
            if key.unicode_len() == 0 {
                GeminiKeyOutcome { result: Err(e), migrate: None }
            } else {
                GeminiKeyOutcome { result: Ok(key), migrate: None }
            }
        },
    }
}

fn file_key(file_contents: Option<String>) -> (r: String)
    ensures
        r@ == spec_file_key(file_contents),
{
    match file_contents {
        Some(t) => {
            let trimmed = trim_text(t.as_str());
            assert(trimmed@ == spec_trim(t@));
            let k = normalize_google_api_key(trimmed.as_str());
            assert(k@ == spec_normalize_key(spec_trim(t@)));
            assert(spec_file_key(Some(t)) == spec_normalize_key(spec_trim(t@)));
            k
        },
        None => String::new(),
    }
}

/// The key to send with a model-list request: the given key, normalized, if
/// that leaves anything.
pub fn optional_bearer_key(api_key: Option<&str>) -> (r: Option<String>)
    ensures
        spec_request_key(api_key).len() == 0 ==> r is None,
        spec_request_key(api_key).len() != 0 ==> r is Some && r->Some_0@ == spec_request_key(
            api_key,
        ),
{
    let k = request_key_text(api_key);
    if k.unicode_len() == 0 {
        None
    } else {
        Some(k)
    }
}

/// Where the key for a chat request comes from.
pub enum ApiKeySource {
    /// Send this key.
    Key(String),
    /// Send the key stored in this entry (or none, if it holds none).
    Stored(CredentialKind),
}

/// The normalized key given with a request (empty when none was given).
pub open spec fn spec_request_key(request_key: Option<&str>) -> Seq<char> {
    match request_key {
        Some(k) => spec_normalize_key(k@),
        None => Seq::<char>::empty(),
    }
}

/// The key source for a provider needing a key: the request's own key if it
/// gives one, else the stored one.
pub open spec fn keyed_source(r: ApiKeySource, request_key: Option<&str>, kind: CredentialKind) -> bool {
    let k = spec_request_key(request_key);
    if k.len() == 0 {
        r == ApiKeySource::Stored(kind)
    } else {
        r is Key && r->Key_0@ == k
    }
}

fn request_key_text(request_key: Option<&str>) -> (r: String)
    ensures
        r@ == spec_request_key(request_key),
{
    match request_key {
        Some(k) => normalize_google_api_key(k),
        None => String::new(),
    }
}

fn keyed(request_key: Option<&str>, kind: CredentialKind) -> (r: ApiKeySource)
    ensures
        keyed_source(r, request_key, kind),
{
    let k = request_key_text(request_key);
    if k.unicode_len() == 0 {
        ApiKeySource::Stored(kind)
    } else {
        ApiKeySource::Key(k)
    }
}

/// The key a chat request is sent with, by provider (names compared without
/// regard to ASCII case): Google, Cerebras and Ollama Cloud use the
/// request's key or else the stored one; Ollama uses `ollama`; any other
/// provider (LM Studio) uses `lm-studio`.
pub fn chat_api_key(provider: &str, request_key: Option<&str>) -> (r: ApiKeySource)
    ensures
        ({
            let p = provider@;
            let rk = request_key;
            if same_ignoring_case(p, "Google"@) {
                keyed_source(r, rk, CredentialKind::Google)
            } else if same_ignoring_case(p, "Cerebras"@) {
                keyed_source(r, rk, CredentialKind::Cerebras)
            } else if same_ignoring_case(p, "Ollama Cloud"@) || same_ignoring_case(p, "OllamaCloud"@) {
                keyed_source(r, rk, CredentialKind::OllamaCloud)
            } else if same_ignoring_case(p, "Ollama"@) {
                r is Key && r->Key_0@ == "ollama"@
            } else {
                r is Key && r->Key_0@ == "lm-studio"@
            }
        }),
{
    if eq_ignore_ascii_case(provider, "Google") {
        keyed(request_key, CredentialKind::Google)
    } else if eq_ignore_ascii_case(provider, "Cerebras") {
        keyed(request_key, CredentialKind::Cerebras)
    } else if eq_ignore_ascii_case(provider, "Ollama Cloud") || eq_ignore_ascii_case(
        provider,
        "OllamaCloud",
    ) {
        keyed(request_key, CredentialKind::OllamaCloud)
    } else if eq_ignore_ascii_case(provider, "Ollama") {
        ApiKeySource::Key(String::from_str("ollama"))
    } else {
        ApiKeySource::Key(String::from_str("lm-studio"))
    }
}

} // verus!
