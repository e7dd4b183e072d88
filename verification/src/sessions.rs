//! Sessions of Codex: bringing those of a host over, and aligning those on
//! this machine with its provider.

use vstd::prelude::*;
use vstd::string::*;
use vstd::utf8::*;
use crate::archive::{SESSIONS_1, SESSIONS_2, sessions_command};
use crate::bridge::bytes_of;
use crate::failure::{Failure, outcome, refuse, refuse_about, refused};
use crate::handshake::{
    before_newline, lemma_before_newline, lemma_before_newline_bounds, without_return,
};
use crate::json::{
    Json, JsonObject, JsonView, encode_json, field, is_whole, json_text, lemma_prints_back, lookup,
    parse_json, parsed_json, prints_back, read_depth, text_of,
};
use crate::profile::{is_name_char, join, joined};
use crate::shell::quoted;
use crate::ssh::has_text;
use crate::text::{
    ascii_alphanumeric, blank, chars_of, is_blank, lemma_no_control_bytes, lemma_texts_push,
    optional_text, same_text, texts,
};

verus! {

#[derive(Debug, Clone, PartialEq, Eq)]
pub struct SyncOptions<'a> {
    pub host: &'a str,
    pub remote_codex_home: Option<&'a str>,
    pub local_codex_home: &'a str,
    pub provider: Option<&'a str>,
}

/// What bringing sessions over came to.
#[derive(Debug, Clone, PartialEq, Eq)]
pub struct SyncReport {
    pub remote_files: usize,
    pub imported: usize,
    pub duplicates: usize,
    pub conflicts: usize,
    pub encrypted: usize,
    pub provider: String,
}

#[derive(Debug, Clone, PartialEq, Eq)]
pub struct RepairOptions<'a> {
    pub codex_home: &'a str,
    pub backup_root: &'a str,
    pub provider: Option<&'a str>,
}

/// What aligning sessions came to.
#[derive(Debug, Clone, PartialEq, Eq)]
pub struct RepairReport {
    pub scanned: usize,
    pub rollout_files_updated: usize,
    pub sqlite_rows_updated: usize,
    pub encrypted: usize,
    pub provider: String,
    pub backup_dir: Option<String>,
}

// ---------------------------------------------------------------------------
// The record of a session
// ---------------------------------------------------------------------------

/// What the first record of a session says of it.
#[derive(Debug)]
pub struct RolloutMeta {
    pub id: String,
    pub cwd: Option<String>,
    pub provider: Option<String>,
    pub encrypted: bool,
}

pub struct MetaView {
    pub id: Seq<char>,
    pub cwd: Option<Seq<char>>,
    pub provider: Option<Seq<char>>,
    pub encrypted: bool,
}

impl View for RolloutMeta {
    type V = MetaView;

    open spec fn view(&self) -> MetaView {
        MetaView {
            id: self.id@,
            cwd: optional_text(self.cwd),
            provider: optional_text(self.provider),
            encrypted: self.encrypted,
        }
    }
}

/// What the first record says: the session's id, directory and provider.
pub open spec fn session_meta(record: JsonView, encrypted: bool) -> Result<MetaView, Seq<char>> {
    if text_of(field(record, "type"@)) != Some("session_meta"@) {
        Err("first rollout record is not session_meta"@)
    } else {
        match field(record, "payload"@) {
            Some(JsonView::Object(payload)) => match text_of(lookup(payload, "id"@)) {
                Some(id) => if id.len() == 0 {
                    Err("session_meta has no thread id"@)
                } else {
                    Ok(
                        MetaView {
                            id,
                            cwd: text_of(lookup(payload, "cwd"@)),
                            provider: text_of(lookup(payload, "model_provider"@)),
                            encrypted,
                        },
                    )
                },
                None => Err("session_meta has no thread id"@),
            },
            _ => Err("session_meta has no payload object"@),
        }
    }
}

/// The first record with another provider.
pub open spec fn with_provider(record: JsonView, provider: Option<Seq<char>>) -> JsonView {
    match (provider, record, field(record, "payload"@)) {
        (Some(provider), JsonView::Object(object), Some(JsonView::Object(payload))) =>
            JsonView::Object(
                object.insert(
                    "payload"@,
                    JsonView::Object(
                        payload.insert("model_provider"@, JsonView::Text(provider)),
                    ),
                ),
            ),
        _ => record,
    }
}

pub open spec fn optional_str(value: Option<&str>) -> Option<Seq<char>> {
    match value {
        Some(s) => Some(s@),
        None => None,
    }
}

fn text_field(object: &JsonObject, name: &str) -> (r: Option<String>)
    ensures
        optional_text(r) == text_of(lookup(object@, name@)),
{
    match object.get(name) {
        Some(Json::Text(s)) => Some(s.clone()),
        _ => None,
    }
}

/// Reads the first record of a session, and sets its provider where one is
/// given.
pub fn rewrite_session_meta(record: Json, target_provider: Option<&str>, encrypted: bool) -> (r:
    Result<(RolloutMeta, Json), Failure>)
    ensures
        match r {
            Ok((meta, value)) => session_meta(record@, encrypted) == Ok::<MetaView, Seq<char>>(
                meta@,
            ) && value@ == with_provider(record@, optional_str(target_provider)),
            Err(e) => session_meta(record@, encrypted) == Err::<MetaView, Seq<char>>(e@),
        },
{
    if !record.field_is("type", "session_meta") {
        return Err(refuse("first rollout record is not session_meta"));
    }
    let mut object = match record {
        Json::Object(object) => object,
        _ => return Err(refuse("first rollout record is not session_meta")),
    };
    let ghost before = object@;
    let mut payload = match object.take("payload") {
        Some(Json::Object(payload)) => payload,
        _ => return Err(refuse("session_meta has no payload object")),
    };
    let ghost given = payload@;
    let id = match text_field(&payload, "id") {
        Some(id) => if id.as_str().is_empty() {
            return Err(refuse("session_meta has no thread id"));
        } else {
            id
        },
        None => return Err(refuse("session_meta has no thread id")),
    };
    let cwd = text_field(&payload, "cwd");
    let provider = text_field(&payload, "model_provider");
    match target_provider {
        Some(target) => payload.insert("model_provider", Json::text(target)),
        None => {},
    }
    let ghost inner = JsonView::Object(payload@);
    object.insert("payload", Json::Object(payload));
    assert(object@ =~= before.insert("payload"@, inner));
    assert(target_provider is None ==> object@ =~= before);
    Ok((RolloutMeta { id, cwd, provider, encrypted }, Json::Object(object)))
}

/// Whether `part` stands somewhere in `bytes`.
pub open spec fn bytes_occur(bytes: Seq<u8>, part: Seq<u8>) -> bool {
    exists|i: int|
        0 <= i && i + part.len() <= bytes.len() && #[trigger] bytes.subrange(i, i + part.len())
            == part
}

pub fn contains_bytes(bytes: &[u8], part: &[u8]) -> (r: bool)
    ensures
        r == bytes_occur(bytes@, part@),
{
    let mut i: usize = 0;
    let length: usize = bytes.len();
    if part.len() > length {
        return false;
    }
    while i <= length - part.len()
        invariant
            length == bytes@.len(),
            part@.len() <= length,
            i <= bytes@.len() - part@.len() + 1,
            forall|k: int|
                0 <= k < i ==> #[trigger] bytes@.subrange(k, k + part@.len()) != part@,
        decreases length - i,
    {
        let mut j: usize = 0;
        while j < part.len() && bytes[i + j] == part[j]
            invariant
                j <= part@.len(),
                length == bytes@.len(),
                i + part@.len() <= length,
                forall|k: int| 0 <= k < j ==> part@[k] == #[trigger] bytes@[i + k],
            decreases part.len() - j,
        {
            j = j + 1;
        }
        let ghost window = bytes@.subrange(i as int, i + part@.len());
        if j == part.len() {
            assert(window =~= part@) by {
                assert forall|k: int| 0 <= k < part@.len() implies window[k] == part@[k] by {
                    assert(part@[k] == bytes@[i + k]);
                }
            }
            return true;
        }
        assert(window[j as int] != part@[j as int]);
        if i == length - part.len() {
            assert forall|k: int| 0 <= k && k + part@.len() <= bytes@.len() implies
                #[trigger] bytes@.subrange(k, k + part@.len()) != part@ by {}
            return false;
        }
        i = i + 1;
    }
    false
}

/// The first line of a file, without its line ending.
pub open spec fn first_line(bytes: Seq<u8>) -> Seq<u8> {
    without_return(bytes.take(before_newline(bytes) as int))
}

/// A file with another first line.
pub open spec fn with_first_line(bytes: Seq<u8>, line: Seq<u8>) -> Seq<u8> {
    let n = before_newline(bytes) as int;
    if n < bytes.len() {
        line + bytes.skip(n)
    } else {
        line
    }
}

/// The words that mark encrypted parts of a session.
pub open spec fn is_encrypted(bytes: Seq<u8>) -> bool {
    bytes_occur(bytes, encode_utf8("encrypted_content"@))
}

/// Reads what a session file says of its session, and sets its provider where
/// one is given: the first record changes, everything behind it stays.
pub fn inspect_and_rewrite(bytes: &[u8], target_provider: Option<&str>) -> (r: Result<
    (RolloutMeta, Vec<u8>),
    Failure,
>)
    ensures
        match parsed_json(first_line(bytes@)) {
            None => refused(r, "invalid session_meta JSON"@),
            Some(record) => match session_meta(record, is_encrypted(bytes@)) {
                Err(e) => refused(r, e),
                Ok(meta) => r matches Ok((found, updated)) && found@ == meta && updated@
                    == with_first_line(
                    bytes@,
                    encode_utf8(
                        json_text(with_provider(record, optional_str(target_provider))),
                    ),
                ) && updated@.skip(before_newline(updated@) as int) == bytes@.skip(
                    before_newline(bytes@) as int,
                ) && (is_whole(record) ==> parsed_json(first_line(updated@))
                    == Some(with_provider(record, optional_str(target_provider)))),
            },
        },
{
    let mut end: usize = 0;
    while end < bytes.len() && bytes[end] != 10
        invariant
            end <= bytes@.len(),
            forall|i: int| 0 <= i < end ==> #[trigger] bytes@[i] != 10,
        decreases bytes.len() - end,
    {
        end = end + 1;
    }
    proof {
        lemma_before_newline(bytes@, end as nat);
    }
    let stop: usize = if end > 0 && bytes[end - 1] == 13 {
        end - 1
    } else {
        end
    };
    proof {
        let line = bytes@.take(end as int);
        assert(bytes@.subrange(0, stop as int) =~= without_return(line));
    }
    let record = match parse_json(vstd::slice::slice_subrange(bytes, 0, stop)) {
        Some(record) => record,
        None => return Err(refuse("invalid session_meta JSON")),
    };
    let encrypted = contains_bytes(bytes, "encrypted_content".as_bytes());
    let ghost given = record@;
    match rewrite_session_meta(record, target_provider, encrypted) {
        Ok((meta, value)) => {
            let text = encode_json(&value);
            let mut updated = bytes_of(&text);
            let ghost line = updated@;
            proof {
                lemma_no_control_bytes(text@);
                law_rewriting_keeps_the_rest(bytes@, line);
                let all = with_first_line(bytes@, line);
                assert(without_return(line) == line);
                assert(first_line(all) == line);
                if is_whole(given) {
                    lemma_prints_back(given, read_depth());
                    lemma_with_provider_prints_back(given, optional_str(target_provider));
                }
            }
            if end < bytes.len() {
                let mut rest = vstd::slice::slice_to_vec(
                    vstd::slice::slice_subrange(bytes, end, bytes.len()),
                );
                assert(rest@ =~= bytes@.skip(end as int));
                updated.append(&mut rest);
            }
            Ok((meta, updated))
        },
        Err(e) => Err(e),
    }
}

/// A record that can be read back can be read back with another provider.
proof fn lemma_with_provider_prints_back(record: JsonView, provider: Option<Seq<char>>)
    requires
        prints_back(record, read_depth()),
    ensures
        prints_back(with_provider(record, provider), read_depth()),
{
    if let (Some(provider), JsonView::Object(object), Some(JsonView::Object(payload))) = (
        provider,
        record,
        field(record, "payload"@),
    ) {
        let inner = payload.insert("model_provider"@, JsonView::Text(provider));
        let outer = object.insert("payload"@, JsonView::Object(inner));
        assert(object.contains_key("payload"@));
        assert(prints_back(object["payload"@], 126));
        assert forall|k: Seq<char>| #[trigger] inner.contains_key(k) implies prints_back(
            inner[k],
            125,
        ) by {
            if k != "model_provider"@ {
                assert(payload.contains_key(k));
            }
        }
        assert(prints_back(JsonView::Object(inner), 126));
        assert forall|k: Seq<char>| #[trigger] outer.contains_key(k) implies prints_back(
            outer[k],
            126,
        ) by {
            if k != "payload"@ {
                assert(object.contains_key(k));
            }
        }
    }
}

/// Setting the provider sets the provider, and leaves the id and the directory
/// of the session alone.
pub proof fn law_rewriting_sets_the_provider(
    record: JsonView,
    provider: Seq<char>,
    encrypted: bool,
)
    requires
        session_meta(record, encrypted) is Ok,
    ensures
        session_meta(with_provider(record, Some(provider)), encrypted) == Ok::<
            MetaView,
            Seq<char>,
        >(
            MetaView {
                provider: Some(provider),
                ..session_meta(record, encrypted)->Ok_0
            },
        ),
        with_provider(with_provider(record, Some(provider)), Some(provider)) == with_provider(
            record,
            Some(provider),
        ),
{
    reveal_strlit("type");
    reveal_strlit("payload");
    reveal_strlit("id");
    reveal_strlit("cwd");
    reveal_strlit("model_provider");
    assert("type"@.len() == 4 && "payload"@.len() == 7);
    assert("id"@.len() == 2 && "cwd"@.len() == 3 && "model_provider"@.len() == 14);
    let object = record->Object_0;
    let payload = field(record, "payload"@)->Some_0->Object_0;
    let inner = payload.insert("model_provider"@, JsonView::Text(provider));
    let outer = object.insert("payload"@, JsonView::Object(inner));
    assert(inner.insert("model_provider"@, JsonView::Text(provider)) =~= inner);
    assert(outer.insert("payload"@, JsonView::Object(inner)) =~= outer);
}

/// Whatever becomes of the first record, what follows it stays as it is.
pub proof fn law_rewriting_keeps_the_rest(bytes: Seq<u8>, line: Seq<u8>)
    requires
        forall|i: int| 0 <= i < line.len() ==> #[trigger] line[i] != 10,
    ensures
        ({
            let updated = with_first_line(bytes, line);
            &&& updated.take(before_newline(updated) as int) == line
            &&& updated.skip(before_newline(updated) as int) == bytes.skip(
                before_newline(bytes) as int,
            )
        }),
{
    let n = before_newline(bytes) as int;
    let updated = with_first_line(bytes, line);
    lemma_before_newline_bounds(bytes);
    assert forall|i: int| 0 <= i < line.len() implies #[trigger] updated[i] != 10 by {
        assert(updated[i] == line[i]);
    }
    if n < bytes.len() {
        assert(updated[line.len() as int] == bytes[n]);
        lemma_before_newline(updated, line.len());
        assert(updated.take(line.len() as int) =~= line);
        assert(updated.skip(line.len() as int) =~= bytes.skip(n));
    } else {
        lemma_before_newline(updated, line.len());
        assert(updated.take(line.len() as int) =~= line);
        assert(updated.skip(line.len() as int) =~= bytes.skip(n));
    }
}

// ---------------------------------------------------------------------------
// The provider
// ---------------------------------------------------------------------------

/// Whether a text can be the id of a provider.
pub open spec fn is_provider(provider: Seq<char>) -> bool {
    provider.len() > 0 && forall|i: int|
        0 <= i < provider.len() ==> is_name_char(#[trigger] provider[i])
}

pub fn validate_provider(provider: &str) -> (r: Result<(), Failure>)
    ensures
        r is Ok == is_provider(provider@),
        r is Err ==> refused(r, "provider id contains unsafe characters"@),
{
    let chars = chars_of(provider);
    if chars.len() == 0 {
        return Err(refuse("provider id contains unsafe characters"));
    }
    let mut i: usize = 0;
    while i < chars.len()
        invariant
            i <= chars.len(),
            chars@ == provider@,
            forall|j: int| 0 <= j < i ==> is_name_char(#[trigger] provider@[j]),
        decreases chars.len() - i,
    {
        let c: char = chars[i];
        if !(ascii_alphanumeric(c) || c == '.' || c == '_' || c == '-') {
            assert(!is_name_char(provider@[i as int]));
            return Err(refuse("provider id contains unsafe characters"));
        }
        i = i + 1;
    }
    Ok(())
}

/// The string that a TOML text holds under a key at its top: outer nothing
/// where `toml` refuses the text, inner nothing where it holds no such string.
pub uninterp spec fn toml_string(text: Seq<char>, key: Seq<char>) -> Option<Option<Seq<char>>>;

/// `toml::from_str`, and the string under `key` in the table that it gives:
/// both rest on the text and the key alone.
#[verifier::external_body]
fn read_toml_string(text: &str, key: &str) -> (r: Option<Option<String>>)
    ensures
        match r {
            Some(found) => toml_string(text@, key@) == Some(optional_text(found)),
            None => toml_string(text@, key@) is None,
        },
{
    let table: toml::Value = toml::from_str(text).ok()?;
    Some(table.get(key).and_then(toml::Value::as_str).map(str::to_owned))
}

/// The provider that a configuration names, where it names one.
pub open spec fn named_provider(configured: Option<Seq<char>>) -> Seq<char> {
    match configured {
        Some(provider) => provider,
        None => "openai"@,
    }
}

/// The provider: the one asked for, or the one that the configuration names.
/// `configured` is what reading the configuration gave, where there is one.
pub open spec fn provider_of(
    explicit: Option<Seq<char>>,
    configured: Option<Option<Option<Seq<char>>>>,
    path: Seq<char>,
) -> Result<Seq<char>, Seq<char>> {
    let provider = match explicit {
        Some(provider) => Ok(provider),
        None => match configured {
            None => Ok("openai"@),
            Some(None) => Err("could not parse "@ + path),
            Some(Some(name)) => Ok(named_provider(name)),
        },
    };
    match provider {
        Err(e) => Err(e),
        Ok(provider) => if explicit is None && configured is None {
            Ok(provider)
        } else if is_provider(provider) {
            Ok(provider)
        } else {
            Err("provider id contains unsafe characters"@)
        },
    }
}

/// Chooses the provider, from what reading the configuration gave.
pub fn choose_provider(
    explicit: Option<&str>,
    configured: Option<Option<Option<String>>>,
    config_path: &str,
) -> (r: Result<String, Failure>)
    ensures
        outcome(r) == provider_of(
            optional_str(explicit),
            match configured {
                None => None,
                Some(None) => Some(None),
                Some(Some(name)) => Some(Some(optional_text(name))),
            },
            config_path@,
        ),
{
    let provider = match explicit {
        Some(provider) => provider.to_owned(),
        None => match configured {
            None => return Ok("openai".to_owned()),
            Some(None) => return Err(refuse_about("could not parse ", config_path)),
            Some(Some(Some(name))) => name,
            Some(Some(None)) => "openai".to_owned(),
        },
    };
    match validate_provider(&provider) {
        Ok(_) => Ok(provider),
        Err(e) => Err(e),
    }
}

/// Chooses the provider, from the text of the configuration where there is
/// one.
pub fn resolve_provider(explicit: Option<&str>, config: Option<&str>, config_path: &str) -> (r:
    Result<String, Failure>)
    ensures
        outcome(r) == provider_of(
            optional_str(explicit),
            match config {
                None => None,
                Some(text) => Some(toml_string(text@, "model_provider"@)),
            },
            config_path@,
        ),
{
    let configured = match config {
        None => None,
        Some(text) => Some(read_toml_string(text, "model_provider")),
    };
    choose_provider(explicit, configured, config_path)
}

/// The file of the database.
pub const STATE_DB_FILE: &'static str = "state_5.sqlite";

/// Whose directory holds the database.
#[derive(Debug)]
pub enum StateHome {
    /// The one that the configuration names.
    Configured(String),
    /// The one that the environment names.
    Environment,
    /// That of Codex.
    CodexHome,
}

/// Finds whose directory holds the database, from what reading the
/// configuration gave: what it names comes before what the environment names.
pub fn choose_state_home(configured: Option<String>, environment_set: bool) -> (r: StateHome)
    ensures
        match configured {
            Some(home) => r matches StateHome::Configured(found) && found@ == home@,
            None => if environment_set {
                r is Environment
            } else {
                r is CodexHome
            },
        },
{
    match configured {
        Some(home) => StateHome::Configured(home),
        None => if environment_set {
            StateHome::Environment
        } else {
            StateHome::CodexHome
        },
    }
}

/// Finds whose directory holds the database, from the text of the
/// configuration where there is one.
pub fn state_home(config: Option<&str>, environment_set: bool) -> (r: Result<StateHome, Failure>)
    ensures
        match config {
            Some(text) => match toml_string(text@, "sqlite_home"@) {
                None => refused(r, "could not parse the Codex configuration"@),
                Some(Some(home)) => r matches Ok(StateHome::Configured(found)) && found@ == home,
                Some(None) => r matches Ok(found) && (if environment_set {
                    found is Environment
                } else {
                    found is CodexHome
                }),
            },
            None => r matches Ok(found) && (if environment_set {
                found is Environment
            } else {
                found is CodexHome
            }),
        },
{
    let configured = match config {
        None => None,
        Some(text) => match read_toml_string(text, "sqlite_home") {
            Some(configured) => configured,
            None => return Err(refuse("could not parse the Codex configuration")),
        },
    };
    Ok(choose_state_home(configured, environment_set))
}

/// The database of the sessions: where the configuration says, or the
/// environment, or in the directory of Codex.
pub open spec fn database_path(
    codex_home: Seq<char>,
    configured: Option<Seq<char>>,
    environment: Option<Seq<char>>,
) -> Seq<char> {
    joined(
        match (configured, environment) {
            (Some(home), _) => home,
            (None, Some(home)) => home,
            (None, None) => codex_home,
        },
        STATE_DB_FILE@,
    )
}

/// Finds the database, from the text of the configuration where there is one.
pub fn resolve_state_db(
    codex_home: &str,
    config: Option<&str>,
    environment: Option<&str>,
) -> (r: Result<String, Failure>)
    ensures
        match config {
            None => r matches Ok(path) && path@ == database_path(
                codex_home@,
                None,
                optional_str(environment),
            ),
            Some(text) => match toml_string(text@, "sqlite_home"@) {
                None => refused(r, "could not parse the Codex configuration"@),
                Some(configured) => r matches Ok(path) && path@ == database_path(
                    codex_home@,
                    configured,
                    optional_str(environment),
                ),
            },
        },
{
    match (state_home(config, environment.is_some()), environment) {
        (Ok(StateHome::Configured(home)), _) => Ok(join(&home, STATE_DB_FILE)),
        (Ok(StateHome::Environment), Some(home)) => Ok(join(home, STATE_DB_FILE)),
        (Ok(_), _) => Ok(join(codex_home, STATE_DB_FILE)),
        (Err(e), _) => Err(e),
    }
}

/// Whether a text can stand for a host on the command line of `ssh`.
pub open spec fn is_safe_host(host: Seq<char>) -> bool {
    &&& host.len() > 0
    &&& host[0] != '-'
    &&& forall|i: int|
        0 <= i < host.len() ==> !is_blank(#[trigger] host[i], true) && host[i] != '\0'
}

pub fn validate_host(host: &str) -> (r: Result<(), Failure>)
    ensures
        r is Ok == is_safe_host(host@),
        r is Err ==> refused(r, "unsafe SSH host alias"@),
{
    let chars = chars_of(host);
    if chars.len() == 0 || chars[0] == '-' {
        return Err(refuse("unsafe SSH host alias"));
    }
    let mut i: usize = 0;
    while i < chars.len()
        invariant
            i <= chars.len(),
            chars@ == host@,
            forall|j: int|
                0 <= j < i ==> !is_blank(#[trigger] host@[j], true) && host@[j] != '\0',
        decreases chars.len() - i,
    {
        if blank(chars[i], true) || chars[i] == '\0' {
            assert(is_blank(host@[i as int], true) || host@[i as int] == '\0');
            return Err(refuse("unsafe SSH host alias"));
        }
        i = i + 1;
    }
    Ok(())
}

// ---------------------------------------------------------------------------
// Bringing sessions over
// ---------------------------------------------------------------------------

/// What bringing sessions over begins with: the provider that they will have
/// here, and the command that the host runs.
#[derive(Debug)]
pub struct SyncPlan {
    pub provider: String,
    pub command: String,
}

/// Plans to bring sessions over.
pub fn plan_sync(options: &SyncOptions, config: Option<&str>) -> (r: Result<SyncPlan, Failure>)
    ensures
        if !is_safe_host(options.host@) {
            refused(r, "unsafe SSH host alias"@)
        } else {
            match provider_of(
                optional_str(options.provider),
                match config {
                    None => None,
                    Some(text) => Some(toml_string(text@, "model_provider"@)),
                },
                joined(options.local_codex_home@, "config.toml"@),
            ) {
                Err(e) => refused(r, e),
                Ok(provider) => r matches Ok(plan) && plan.provider@ == provider
                    && plan.command@ == SESSIONS_1@ + (match options.remote_codex_home {
                    Some(home) => quoted(home@),
                    None => "$HOME/.codex"@,
                }) + SESSIONS_2@,
            }
        },
{
    match validate_host(options.host) {
        Ok(_) => {},
        Err(e) => return Err(e),
    }
    let path = join(options.local_codex_home, "config.toml");
    match resolve_provider(options.provider, config, &path) {
        Ok(provider) => Ok(
            SyncPlan { provider, command: sessions_command(options.remote_codex_home) },
        ),
        Err(e) => Err(e),
    }
}

/// What becomes of a session that came over.
#[derive(Debug, Clone, Copy, PartialEq, Eq, Structural)]
pub enum ImportDecision {
    /// It is known already.
    Duplicate,
    /// Something else has its place.
    Conflict,
    /// It is installed.
    Install,
}

/// Sessions on their way into the local Codex.
#[derive(Debug)]
pub struct Importer {
    pub known_ids: Vec<String>,
    pub report: SyncReport,
}

pub struct ImportView {
    /// The ids that were here or have come.
    pub known_ids: Set<Seq<char>>,
    pub remote_files: nat,
    pub imported: nat,
    pub duplicates: nat,
    pub conflicts: nat,
    pub encrypted: nat,
    pub provider: Seq<char>,
}

pub open spec fn id_set(ids: Seq<String>) -> Set<Seq<char>> {
    texts(ids).to_set()
}

impl View for Importer {
    type V = ImportView;

    open spec fn view(&self) -> ImportView {
        ImportView {
            known_ids: id_set(self.known_ids@),
            remote_files: self.report.remote_files as nat,
            imported: self.report.imported as nat,
            duplicates: self.report.duplicates as nat,
            conflicts: self.report.conflicts as nat,
            encrypted: self.report.encrypted as nat,
            provider: self.report.provider@,
        }
    }
}

/// How many files have been considered.
pub open spec fn considered(state: ImportView) -> nat {
    state.imported + state.duplicates + state.conflicts
}

pub open spec fn import_decision(state: ImportView, id: Seq<char>, occupied: bool) -> ImportDecision {
    if state.known_ids.contains(id) {
        ImportDecision::Duplicate
    } else if occupied {
        ImportDecision::Conflict
    } else {
        ImportDecision::Install
    }
}

/// The state once a session has been considered.
pub open spec fn after_import(state: ImportView, meta: MetaView, occupied: bool) -> ImportView {
    let decision = import_decision(state, meta.id, occupied);
    ImportView {
        known_ids: state.known_ids.insert(meta.id),
        imported: state.imported + (if decision == ImportDecision::Install {
            1nat
        } else {
            0
        }),
        duplicates: state.duplicates + (if decision == ImportDecision::Duplicate {
            1nat
        } else {
            0
        }),
        conflicts: state.conflicts + (if decision == ImportDecision::Conflict {
            1nat
        } else {
            0
        }),
        encrypted: state.encrypted + (if meta.encrypted {
            1nat
        } else {
            0
        }),
        ..state
    }
}

impl Importer {
    /// No file is considered twice, and none is encrypted that was not
    /// considered.
    pub open spec fn wf(&self) -> bool {
        &&& considered(self@) <= self@.remote_files
        &&& self@.encrypted <= considered(self@)
    }

    /// Begins with the ids of the sessions that are here.
    pub fn new(local_ids: Vec<String>, remote_files: usize, provider: &str) -> (r: Importer)
        ensures
            r.wf(),
            r@ == (ImportView {
                known_ids: id_set(local_ids@),
                remote_files: remote_files as nat,
                imported: 0,
                duplicates: 0,
                conflicts: 0,
                encrypted: 0,
                provider: provider@,
            }),
    {
        Importer {
            known_ids: local_ids,
            report: SyncReport {
                remote_files,
                imported: 0,
                duplicates: 0,
                conflicts: 0,
                encrypted: 0,
                provider: provider.to_owned(),
            },
        }
    }

    /// Decides on one session; `occupied` tells whether a file has its place.
    pub fn consider(&mut self, meta: &RolloutMeta, occupied: bool) -> (r: ImportDecision)
        requires
            old(self).wf(),
            considered(old(self)@) < old(self)@.remote_files,
        ensures
            final(self).wf(),
            r == import_decision(old(self)@, meta@.id, occupied),
            final(self)@ == after_import(old(self)@, meta@, occupied),
    {
        broadcast use lemma_texts_push;

        let ghost before = self@;
        if meta.encrypted {
            self.report.encrypted = self.report.encrypted + 1;
        }
        let ghost all = texts(self.known_ids@);
        let known = has_text(&self.known_ids, &meta.id);
        assert(known == before.known_ids.contains(meta@.id)) by {
            assert(known == all.contains(meta@.id));
        }
        if known {
            assert(before.known_ids.insert(meta@.id) =~= before.known_ids);
            self.report.duplicates = self.report.duplicates + 1;
            return ImportDecision::Duplicate;
        }
        self.known_ids.push(meta.id.clone());
        proof {
            assert(texts(self.known_ids@) == all.push(meta@.id));
            assert(all.push(meta@.id) =~= all + seq![meta@.id]);
            Seq::<Seq<char>>::lemma_to_set_insert_commutes(all, meta@.id);
            assert(id_set(self.known_ids@) == before.known_ids.insert(meta@.id));
        }
        if occupied {
            self.report.conflicts = self.report.conflicts + 1;
            ImportDecision::Conflict
        } else {
            self.report.imported = self.report.imported + 1;
            ImportDecision::Install
        }
    }
}

/// A session that is here is never replaced, no session is brought over twice,
/// and no file is overwritten.
pub proof fn law_imports_replace_nothing(
    state: ImportView,
    first: MetaView,
    second: MetaView,
    occupied: bool,
    then_occupied: bool,
)
    ensures
        state.known_ids.contains(first.id) ==> import_decision(state, first.id, occupied)
            != ImportDecision::Install,
        occupied ==> import_decision(state, first.id, occupied) != ImportDecision::Install,
        first.id == second.id ==> import_decision(
            after_import(state, first, occupied),
            second.id,
            then_occupied,
        ) == ImportDecision::Duplicate,
        state.known_ids.subset_of(after_import(state, first, occupied).known_ids),
{
}

/// Every file is counted once, and in one way.
pub proof fn law_imports_add_up(state: ImportView, meta: MetaView, occupied: bool)
    ensures
        considered(after_import(state, meta, occupied)) == considered(state) + 1,
{
}

// ---------------------------------------------------------------------------
// Aligning sessions
// ---------------------------------------------------------------------------

/// A session on this machine, and its file with the provider set.
#[derive(Debug)]
pub struct RolloutRecord {
    pub path: String,
    pub relative_path: String,
    pub meta: RolloutMeta,
    pub updated: Vec<u8>,
}

/// What the database says of a session.
#[derive(Debug)]
pub struct ThreadRow {
    pub provider: String,
    pub cwd: Option<String>,
}

pub struct RowView {
    pub provider: Seq<char>,
    pub cwd: Option<Seq<char>>,
}

impl View for ThreadRow {
    type V = RowView;

    open spec fn view(&self) -> RowView {
        RowView { provider: self.provider@, cwd: optional_text(self.cwd) }
    }
}

pub open spec fn row_view(row: Option<ThreadRow>) -> Option<RowView> {
    match row {
        Some(row) => Some(row@),
        None => None,
    }
}

/// Whether the file of a session names another provider.
pub open spec fn file_differs(meta: MetaView, provider: Seq<char>) -> bool {
    meta.provider != Some(provider)
}

/// Whether the database differs from the session: in the provider, or in the
/// directory, where both have one.
pub open spec fn row_differs(meta: MetaView, row: RowView, provider: Seq<char>) -> bool {
    row.provider != provider || match (meta.cwd, row.cwd) {
        (Some(cwd), Some(known)) => cwd != known,
        _ => false,
    }
}

pub open spec fn needs_repair(meta: MetaView, row: Option<RowView>, provider: Seq<char>) -> bool {
    file_differs(meta, provider) || match row {
        Some(row) => row_differs(meta, row, provider),
        None => false,
    }
}

/// Whether the file of a session has to be written.
pub fn needs_rewrite(meta: &RolloutMeta, provider: &str) -> (r: bool)
    ensures
        r == file_differs(meta@, provider@),
{
    match &meta.provider {
        Some(known) => !same_text(known, provider),
        None => true,
    }
}

/// Whether a session has to be aligned.
pub fn session_differs(meta: &RolloutMeta, row: &Option<ThreadRow>, provider: &str) -> (r: bool)
    ensures
        r == needs_repair(meta@, row_view(*row), provider@),
{
    if needs_rewrite(meta, provider) {
        return true;
    }
    match row {
        Some(row) => !same_text(&row.provider, provider) || match (&meta.cwd, &row.cwd) {
            (Some(cwd), Some(known)) => !same_text(cwd, known),
            _ => false,
        },
        None => false,
    }
}

/// Which of the first `n` sessions have to be aligned.
pub open spec fn repairs(
    records: Seq<RolloutRecord>,
    rows: Seq<Option<ThreadRow>>,
    provider: Seq<char>,
    n: nat,
) -> Seq<RolloutRecord>
    decreases n,
{
    if n == 0 {
        Seq::empty()
    } else {
        let before = repairs(records, rows, provider, (n - 1) as nat);
        if needs_repair(records[n - 1].meta@, row_view(rows[n - 1]), provider) {
            before.push(records[n - 1])
        } else {
            before
        }
    }
}

/// The sessions that have to be aligned; `rows` holds what the database says
/// of each.
pub fn collect_repair_changes(
    records: Vec<RolloutRecord>,
    rows: &Vec<Option<ThreadRow>>,
    provider: &str,
) -> (r: Vec<RolloutRecord>)
    requires
        rows@.len() == records@.len(),
    ensures
        r@ == repairs(records@, rows@, provider@, records@.len()),
{
    let mut changes: Vec<RolloutRecord> = Vec::new();
    let mut i: usize = 0;
    let total: usize = rows.len();
    for record in it: records
        invariant
            it.seq() == records@,
            i == it.index(),
            total == rows@.len(),
            rows@.len() == records@.len(),
            changes@ == repairs(records@, rows@, provider@, i as nat),
    {
        assert(records@[i as int] == record);
        if session_differs(&record.meta, &rows[i], provider) {
            changes.push(record);
        }
        i = i + 1;
    }
    changes
}

/// How many files the alignment writes.
pub open spec fn rewrites(changes: Seq<RolloutRecord>, provider: Seq<char>) -> nat
    decreases changes.len(),
{
    if changes.len() == 0 {
        0
    } else {
        rewrites(changes.drop_last(), provider) + (if file_differs(changes.last().meta@, provider) {
            1nat
        } else {
            0
        })
    }
}

pub fn count_rewrites(changes: &Vec<RolloutRecord>, provider: &str) -> (r: usize)
    ensures
        r == rewrites(changes@, provider@),
{
    let mut count: usize = 0;
    let mut i: usize = 0;
    assert(changes@.take(0) =~= Seq::empty());
    while i < changes.len()
        invariant
            i <= changes.len(),
            count <= i,
            count == rewrites(changes@.take(i as int), provider@),
        decreases changes.len() - i,
    {
        assert(changes@.take(i as int + 1).drop_last() =~= changes@.take(i as int));
        if needs_rewrite(&changes[i].meta, provider) {
            count = count + 1;
        }
        i = i + 1;
    }
    assert(changes@.take(i as int) =~= changes@);
    count
}

/// The statement that reads what the database says of a session.
pub fn select_statement(has_cwd: bool) -> (r: &'static str)
    ensures
        r@ == if has_cwd {
            "SELECT model_provider, cwd FROM threads WHERE id = ?1"@
        } else {
            "SELECT model_provider, NULL FROM threads WHERE id = ?1"@
        },
{
    if has_cwd {
        "SELECT model_provider, cwd FROM threads WHERE id = ?1"
    } else {
        "SELECT model_provider, NULL FROM threads WHERE id = ?1"
    }
}

/// The statement that aligns what the database says of a session: with its
/// provider, its directory where the session names one, and its id; or with its
/// provider and its id.
pub fn update_statement(has_cwd: bool) -> (r: &'static str)
    ensures
        r@ == if has_cwd {
            "UPDATE threads SET model_provider = ?1, cwd = COALESCE(?2, cwd) WHERE id = ?3"@
        } else {
            "UPDATE threads SET model_provider = ?1 WHERE id = ?2"@
        },
{
    if has_cwd {
        "UPDATE threads SET model_provider = ?1, cwd = COALESCE(?2, cwd) WHERE id = ?3"
    } else {
        "UPDATE threads SET model_provider = ?1 WHERE id = ?2"
    }
}

/// Refuses a database whose table does not know providers.
pub fn check_columns(columns: &Vec<String>) -> (r: Result<bool, Failure>)
    ensures
        if columns@.len() == 0 {
            refused(r, "Codex state DB has no threads table"@)
        } else if !texts(columns@).contains("model_provider"@) {
            refused(r, "Codex threads table has no model_provider column"@)
        } else {
            r == Ok::<bool, Failure>(texts(columns@).contains("cwd"@))
        },
{
    if columns.len() == 0 {
        return Err(refuse("Codex state DB has no threads table"));
    }
    if !has_text(columns, "model_provider") {
        return Err(refuse("Codex threads table has no model_provider column"));
    }
    Ok(has_text(columns, "cwd"))
}

/// Once a session is aligned (its file names the provider, and so does its row,
/// which has the session's directory where the session names one), it need not
/// be aligned again.
pub proof fn law_aligned_sessions_stay_aligned(meta: MetaView, row: RowView, provider: Seq<char>)
    requires
        row.provider == provider,
        meta.cwd is Some && row.cwd is Some ==> row.cwd == meta.cwd,
    ensures
        !needs_repair(MetaView { provider: Some(provider), ..meta }, Some(row), provider),
        !needs_repair(MetaView { provider: Some(provider), ..meta }, None, provider),
{
}

/// What the database says of a session.
pub open spec fn row_of(database: Map<Seq<char>, RowView>, id: Seq<char>) -> Option<RowView> {
    if database.contains_key(id) {
        Some(database[id])
    } else {
        None
    }
}

/// The row of a session once it is aligned; a table may have no column for the
/// directory.
pub open spec fn aligned_row(row: RowView, meta: MetaView, provider: Seq<char>, has_cwd: bool) -> RowView {
    RowView {
        provider,
        cwd: if has_cwd && meta.cwd is Some {
            meta.cwd
        } else {
            row.cwd
        },
    }
}

/// The database once the first `n` of these sessions are aligned, as far as
/// they differ.
pub open spec fn aligned_database(
    database: Map<Seq<char>, RowView>,
    metas: Seq<MetaView>,
    provider: Seq<char>,
    has_cwd: bool,
    n: nat,
) -> Map<Seq<char>, RowView>
    decreases n,
{
    if n == 0 {
        database
    } else {
        let before = aligned_database(database, metas, provider, has_cwd, (n - 1) as nat);
        let meta = metas[n - 1];
        if needs_repair(meta, row_of(database, meta.id), provider) && before.contains_key(meta.id) {
            before.insert(meta.id, aligned_row(before[meta.id], meta, provider, has_cwd))
        } else {
            before
        }
    }
}

/// A session once it is aligned, as far as it differs: its file is written
/// where that names another provider.
pub open spec fn aligned_meta(meta: MetaView, row: Option<RowView>, provider: Seq<char>) -> MetaView {
    if needs_repair(meta, row, provider) {
        MetaView { provider: Some(provider), ..meta }
    } else {
        meta
    }
}

/// Whether no two sessions have one id.
pub open spec fn distinct_ids(metas: Seq<MetaView>) -> bool {
    forall|i: int, j: int|
        0 <= i < j < metas.len() ==> (#[trigger] metas[i]).id != (#[trigger] metas[j]).id
}

pub proof fn lemma_aligned_database(
    database: Map<Seq<char>, RowView>,
    metas: Seq<MetaView>,
    provider: Seq<char>,
    has_cwd: bool,
    n: nat,
    k: int,
)
    requires
        distinct_ids(metas),
        n <= metas.len(),
        0 <= k < metas.len(),
    ensures
        ({
            let after = aligned_database(database, metas, provider, has_cwd, n);
            let meta = metas[k];
            let row = row_of(database, meta.id);
            row_of(after, meta.id) == (if k < n && needs_repair(meta, row, provider) {
                match row {
                    Some(row) => Some(aligned_row(row, meta, provider, has_cwd)),
                    None => None,
                }
            } else {
                row
            })
        }),
    decreases n,
{
    if n > 0 {
        lemma_aligned_database(database, metas, provider, has_cwd, (n - 1) as nat, k);
        if k < n - 1 {
            assert(metas[k].id != metas[n - 1].id);
        } else if k > n - 1 {
            assert(metas[n - 1].id != metas[k].id);
        }
    }
}

/// After a repair every session has the provider, in its file and in its row
/// where it has one, and a second repair finds nothing to do: no change, no
/// file to write.
pub proof fn law_repaired_sessions_need_no_repair(
    database: Map<Seq<char>, RowView>,
    metas: Seq<MetaView>,
    provider: Seq<char>,
    has_cwd: bool,
    records: Seq<RolloutRecord>,
    rows: Seq<Option<ThreadRow>>,
)
    requires
        distinct_ids(metas),
        !has_cwd ==> forall|id: Seq<char>| #[trigger]
            database.contains_key(id) ==> database[id].cwd is None,
        records.len() == metas.len(),
        rows.len() == metas.len(),
        forall|i: int|
            0 <= i < metas.len() ==> (#[trigger] records[i]).meta@ == aligned_meta(
                metas[i],
                row_of(database, metas[i].id),
                provider,
            ),
        forall|i: int|
            0 <= i < metas.len() ==> row_view(#[trigger] rows[i]) == row_of(
                aligned_database(database, metas, provider, has_cwd, metas.len()),
                metas[i].id,
            ),
    ensures
        forall|i: int|
            0 <= i < metas.len() ==> (#[trigger] records[i]).meta@.provider == Some(provider),
        forall|i: int|
            0 <= i < metas.len() ==> (row_view(#[trigger] rows[i]) matches Some(row)
                ==> row.provider == provider),
        repairs(records, rows, provider, metas.len()) == Seq::<RolloutRecord>::empty(),
        rewrites(repairs(records, rows, provider, metas.len()), provider) == 0,
{
    assert forall|i: int| 0 <= i < metas.len() implies (#[trigger] records[i]).meta@.provider
        == Some(provider) && (row_view(rows[i]) matches Some(row) ==> row.provider == provider)
        && !needs_repair(records[i].meta@, row_view(rows[i]), provider) by {
        lemma_aligned_database(database, metas, provider, has_cwd, metas.len(), i);
        assert(row_view(rows[i]) == row_of(
            aligned_database(database, metas, provider, has_cwd, metas.len()),
            metas[i].id,
        ));
    }
    assert forall|i: int| 0 <= i < metas.len() implies (row_view(#[trigger] rows[i]) matches Some(
        row,
    ) ==> row.provider == provider) by {
        assert(records[i].meta@.provider == Some(provider));
    }
    lemma_no_repairs(records, rows, provider, metas.len());
}

proof fn lemma_no_repairs(
    records: Seq<RolloutRecord>,
    rows: Seq<Option<ThreadRow>>,
    provider: Seq<char>,
    n: nat,
)
    requires
        n <= records.len(),
        records.len() == rows.len(),
        forall|i: int|
            0 <= i < n ==> !needs_repair(
                (#[trigger] records[i]).meta@,
                row_view(rows[i]),
                provider,
            ),
    ensures
        repairs(records, rows, provider, n) == Seq::<RolloutRecord>::empty(),
    decreases n,
{
    if n > 0 {
        lemma_no_repairs(records, rows, provider, (n - 1) as nat);
        assert(!needs_repair(records[n - 1].meta@, row_view(rows[n - 1]), provider));
    }
}

/// What a repair came to: without changes nothing was written and nothing was
/// saved before.
pub fn repair_report(
    scanned: usize,
    encrypted: usize,
    provider: String,
    changes: &Vec<RolloutRecord>,
    rows_updated: usize,
    backup_dir: String,
) -> (r: RepairReport)
    ensures
        r.scanned == scanned,
        r.encrypted == encrypted,
        r.provider@ == provider@,
        if changes@.len() == 0 {
            r.rollout_files_updated == 0 && r.sqlite_rows_updated == 0 && r.backup_dir is None
        } else {
            r.rollout_files_updated == rewrites(changes@, provider@) && r.sqlite_rows_updated
                == rows_updated && optional_text(r.backup_dir) == Some(backup_dir@)
        },
{
    if changes.len() == 0 {
        return RepairReport {
            scanned,
            rollout_files_updated: 0,
            sqlite_rows_updated: 0,
            encrypted,
            provider,
            backup_dir: None,
        };
    }
    let rollout_files_updated = count_rewrites(changes, &provider);
    RepairReport {
        scanned,
        rollout_files_updated,
        sqlite_rows_updated: rows_updated,
        encrypted,
        provider,
        backup_dir: Some(backup_dir),
    }
}

// ---------------------------------------------------------------------------
// Saving and restoring
// ---------------------------------------------------------------------------

/// A file that is copied.
#[derive(Debug)]
pub struct FileCopy {
    pub from: String,
    pub to: String,
}

pub struct CopyView {
    pub from: Seq<char>,
    pub to: Seq<char>,
}

impl View for FileCopy {
    type V = CopyView;

    open spec fn view(&self) -> CopyView {
        CopyView { from: self.from@, to: self.to@ }
    }
}

pub open spec fn copy_views(copies: Seq<FileCopy>) -> Seq<CopyView> {
    copies.map_values(|c: FileCopy| c@)
}

/// How the files of these sessions are saved before they are written: below
/// the directory of the backup, where they are below that of Codex.
pub open spec fn backup_plan(
    codex_home: Seq<char>,
    backup_dir: Seq<char>,
    changes: Seq<RolloutRecord>,
) -> Seq<CopyView> {
    changes.map_values(
        |change: RolloutRecord|
            CopyView {
                from: joined(codex_home, change.relative_path@),
                to: joined(joined(backup_dir, "rollouts"@), change.relative_path@),
            },
    )
}

pub fn backup_copies(codex_home: &str, backup_dir: &str, changes: &Vec<RolloutRecord>) -> (r: Vec<
    FileCopy,
>)
    ensures
        copy_views(r@) == backup_plan(codex_home@, backup_dir@, changes@),
{
    let mut copies: Vec<FileCopy> = Vec::new();
    let rollouts = join(backup_dir, "rollouts");
    let ghost plan = backup_plan(codex_home@, backup_dir@, changes@);
    let mut i: usize = 0;
    assert(copy_views(copies@) =~= plan.take(0));
    while i < changes.len()
        invariant
            i <= changes.len(),
            rollouts@ == joined(backup_dir@, "rollouts"@),
            plan == backup_plan(codex_home@, backup_dir@, changes@),
            copy_views(copies@) == plan.take(i as int),
        decreases changes.len() - i,
    {
        let relative = changes[i].relative_path.as_str();
        let copy = FileCopy { from: join(codex_home, relative), to: join(&rollouts, relative) };
        let ghost before = copies@;
        assert(copy@ == plan[i as int]);
        copies.push(copy);
        assert(copy_views(copies@) =~= copy_views(before).push(copy@));
        assert(plan.take(i as int + 1) =~= plan.take(i as int).push(plan[i as int]));
        i = i + 1;
    }
    assert(plan.take(i as int) =~= plan);
    copies
}

/// The same copies, the other way round.
pub open spec fn reversed_plan(copies: Seq<CopyView>) -> Seq<CopyView> {
    copies.map_values(|c: CopyView| CopyView { from: c.to, to: c.from })
}

/// How saved files are put back.
pub fn restore_copies(copies: &Vec<FileCopy>) -> (r: Vec<FileCopy>)
    ensures
        copy_views(r@) == reversed_plan(copy_views(copies@)),
{
    let mut back: Vec<FileCopy> = Vec::new();
    let ghost plan = reversed_plan(copy_views(copies@));
    let mut i: usize = 0;
    assert(copy_views(back@) =~= plan.take(0));
    while i < copies.len()
        invariant
            i <= copies.len(),
            plan == reversed_plan(copy_views(copies@)),
            copy_views(back@) == plan.take(i as int),
        decreases copies.len() - i,
    {
        let copy = FileCopy { from: copies[i].to.clone(), to: copies[i].from.clone() };
        let ghost before = back@;
        assert(copy@ == plan[i as int]);
        back.push(copy);
        assert(copy_views(back@) =~= copy_views(before).push(copy@));
        assert(plan.take(i as int + 1) =~= plan.take(i as int).push(plan[i as int]));
        i = i + 1;
    }
    assert(plan.take(i as int) =~= plan);
    back
}

/// The files once these copies have been made, one after the other.
pub open spec fn copied(files: Map<Seq<char>, Seq<u8>>, copies: Seq<CopyView>) -> Map<
    Seq<char>,
    Seq<u8>,
>
    decreases copies.len(),
{
    if copies.len() == 0 {
        files
    } else {
        let before = copied(files, copies.drop_last());
        before.insert(copies.last().to, before[copies.last().from])
    }
}

/// Whether copies keep out of each other's way: no two go to one place, and
/// none goes to a place that another comes from.
pub open spec fn are_apart(copies: Seq<CopyView>) -> bool {
    &&& forall|i: int, j: int|
        0 <= i < j < copies.len() ==> (#[trigger] copies[i]).to != (#[trigger] copies[j]).to
    &&& forall|i: int, j: int|
        0 <= i < copies.len() && 0 <= j < copies.len() ==> (#[trigger] copies[i]).to != (
        #[trigger] copies[j]).from
}

proof fn lemma_copied(files: Map<Seq<char>, Seq<u8>>, copies: Seq<CopyView>)
    requires
        are_apart(copies),
    ensures
        forall|i: int|
            0 <= i < copies.len() ==> copied(files, copies).contains_key(
                (#[trigger] copies[i]).to,
            ) && copied(files, copies)[copies[i].to] == files[copies[i].from],
        forall|path: Seq<char>|
            (forall|i: int| 0 <= i < copies.len() ==> (#[trigger] copies[i]).to != path)
                ==> #[trigger] copied(files, copies)[path] == files[path],
    decreases copies.len(),
{
    if copies.len() > 0 {
        let rest = copies.drop_last();
        let last = copies.last();
        let before = copied(files, rest);
        let after = copied(files, copies);
        assert forall|i: int, j: int| 0 <= i < j < rest.len() implies (#[trigger] rest[i]).to != (
        #[trigger] rest[j]).to by {
            assert(rest[i] == copies[i] && rest[j] == copies[j]);
        }
        assert forall|i: int, j: int| 0 <= i < rest.len() && 0 <= j < rest.len() implies (
        #[trigger] rest[i]).to != (#[trigger] rest[j]).from by {
            assert(rest[i] == copies[i] && rest[j] == copies[j]);
        }
        lemma_copied(files, rest);
        let n = copies.len() - 1;
        assert(copies[n] == last);
        assert forall|i: int| 0 <= i < rest.len() implies (#[trigger] rest[i]).to != last.from by {
            assert(rest[i] == copies[i]);
            assert(copies[i].to != copies[n].from);
        }
        assert(before[last.from] == files[last.from]);
        assert forall|i: int| 0 <= i < copies.len() implies after.contains_key(
            (#[trigger] copies[i]).to,
        ) && after[copies[i].to] == files[copies[i].from] by {
            if i < n {
                assert(rest[i] == copies[i]);
                assert(copies[i].to != copies[n].to);
            }
        }
        assert forall|path: Seq<char>|
            (forall|i: int| 0 <= i < copies.len() ==> (#[trigger] copies[i]).to != path) implies
            #[trigger] after[path] == files[path] by {
            assert forall|i: int| 0 <= i < rest.len() implies (#[trigger] rest[i]).to != path by {
                assert(rest[i] == copies[i]);
            }
            assert(copies[n].to != path);
        }
    }
}

/// Whatever a repair has done to the files that it saved before, putting them
/// back leaves each as it was, and touches no other file.
pub proof fn law_saved_files_can_be_put_back(
    files: Map<Seq<char>, Seq<u8>>,
    copies: Seq<CopyView>,
    later: Map<Seq<char>, Seq<u8>>,
)
    requires
        are_apart(copies),
        are_apart(reversed_plan(copies)),
        forall|i: int|
            0 <= i < copies.len() ==> later[(#[trigger] copies[i]).to] == copied(
                files,
                copies,
            )[copies[i].to],
    ensures
        forall|i: int|
            0 <= i < copies.len() ==> copied(later, reversed_plan(copies))[(
            #[trigger] copies[i]).from] == files[copies[i].from],
        forall|path: Seq<char>|
            (forall|i: int| 0 <= i < copies.len() ==> (#[trigger] copies[i]).from != path)
                ==> #[trigger] copied(later, reversed_plan(copies))[path] == later[path],
{
    let back = reversed_plan(copies);
    lemma_copied(files, copies);
    lemma_copied(later, back);
    assert forall|i: int| 0 <= i < copies.len() implies copied(later, back)[(
    #[trigger] copies[i]).from] == files[copies[i].from] by {
        assert(back[i].to == copies[i].from);
        assert(back[i].from == copies[i].to);
    }
    assert forall|path: Seq<char>|
        (forall|i: int| 0 <= i < copies.len() ==> (#[trigger] copies[i]).from != path) implies
        #[trigger] copied(later, back)[path] == later[path] by {
        assert forall|i: int| 0 <= i < back.len() implies (#[trigger] back[i]).to != path by {
            assert(back[i].to == copies[i].from);
        }
    }
}

} // verus!
