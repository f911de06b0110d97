//! Identity tokens and application settings as values.
//!
//! Reading and writing the files is done elsewhere. The functions here take
//! what was read and decide what it means: which token source wins, what a
//! token says about its user, what to do about a settings file that cannot be
//! read.

use vstd::prelude::*;
use vstd::string::*;
use vstd::utf8::*;
use vstd::slice::slice_subrange;
use base64::Engine;
use crate::text::{str_to_string, str_trim, trimmed};

verus! {

/// The address of the service where no other is configured.
pub const DEFAULT_API_BASE_URL: &'static str = "https://risu-api.laiosys.dev";

/// The byte that separates the parts of an identity token.
pub const TOKEN_SEPARATOR: u8 = 0x2E;

// ---------------------------------------------------------------------------
// Outside types and names
// ---------------------------------------------------------------------------

#[verifier::external_type_specification]
#[verifier::external_body]
pub struct ExJsonError(serde_json::Error);

/// What URL-safe unpadded base64 decoding makes of a byte string; `None`
/// where it is refused.
pub uninterp spec fn base64url_decode(text: Seq<u8>) -> Option<Seq<u8>>;

/// What a JSON document holds as the text of a member: `None` where the bytes
/// are not a JSON document, `Some(None)` where the document is not an object,
/// has no member of this name, or the member is not a string.
pub uninterp spec fn json_member_text(document: Seq<u8>, name: Seq<char>) -> Option<
    Option<Seq<char>>,
>;

/// `base64::Engine::decode` on the `URL_SAFE_NO_PAD` engine.
/// Claimed: the result is a function of the bytes alone.
#[verifier::external_body]
fn base64_url_decode(text: &[u8]) -> (r: Result<Vec<u8>, base64::DecodeError>)
    ensures
        match r {
            Ok(bytes) => base64url_decode(text@) == Some(bytes@),
            Err(_) => base64url_decode(text@) is None,
        },
{
    base64::engine::general_purpose::URL_SAFE_NO_PAD.decode(text)
}

/// `serde_json::from_slice` into a `serde_json::Value`, then `Value::get` and
/// `Value::as_str` on the result.
/// Claimed: the result is a function of the bytes and the name alone.
#[verifier::external_body]
fn json_member(document: &[u8], name: &str) -> (r: Result<Option<String>, serde_json::Error>)
    ensures
        match r {
            Ok(Some(text)) => json_member_text(document@, name@) == Some(Some(text@)),
            Ok(None) => json_member_text(document@, name@) == Some(None::<Seq<char>>),
            Err(_) => json_member_text(document@, name@) is None,
        },
{
    let value: serde_json::Value = serde_json::from_slice(document)?;
    match value.get(name) {
        Some(member) => Ok(member.as_str().map(str::to_string)),
        None => Ok(None),
    }
}

// ---------------------------------------------------------------------------
// Claims of an identity token
// ---------------------------------------------------------------------------

/// Why a claim could not be read from an identity token.
#[derive(Debug, Clone, Copy, PartialEq, Eq, Structural)]
pub enum TokenError {
    /// The token does not have three parts separated by dots.
    InvalidFormat,
    /// The middle part is not URL-safe base64.
    InvalidBase64,
    /// The decoded middle part is not JSON.
    InvalidJson,
    /// The claims hold no text under the name asked for.
    MissingClaim,
}

/// The index of the first separator at or after `from`, or the length where
/// there is none.
pub open spec fn next_separator(bytes: Seq<u8>, from: int) -> int
    decreases bytes.len() - from,
{
    if from < 0 || from >= bytes.len() {
        bytes.len() as int
    } else if bytes[from] == TOKEN_SEPARATOR {
        from
    } else {
        next_separator(bytes, from + 1)
    }
}

/// The middle part of a token of exactly three parts.
pub open spec fn token_payload(bytes: Seq<u8>) -> Option<Seq<u8>> {
    let first = next_separator(bytes, 0);
    let second = next_separator(bytes, first + 1);
    if first < bytes.len() && second < bytes.len() && next_separator(bytes, second + 1)
        >= bytes.len() {
        Some(bytes.subrange(first + 1, second))
    } else {
        None
    }
}

/// What a claim lookup gives for a decoded claims document.
pub open spec fn claim_from_document(member: Option<Option<Seq<char>>>) -> Result<
    Seq<char>,
    TokenError,
> {
    match member {
        None => Err(TokenError::InvalidJson),
        Some(None) => Err(TokenError::MissingClaim),
        Some(Some(text)) => Ok(text),
    }
}

/// The claim of this name in an identity token.
pub open spec fn spec_token_claim(token: Seq<char>, name: Seq<char>) -> Result<
    Seq<char>,
    TokenError,
> {
    match token_payload(encode_utf8(token)) {
        None => Err(TokenError::InvalidFormat),
        Some(payload) => match base64url_decode(payload) {
            None => Err(TokenError::InvalidBase64),
            Some(document) => claim_from_document(json_member_text(document, name)),
        },
    }
}

/// Whether a result that carries a text stands for the given abstract result.
pub open spec fn claim_result_is(r: Result<String, TokenError>, expected: Result<
    Seq<char>,
    TokenError,
>) -> bool {
    match r {
        Ok(text) => expected == Ok::<Seq<char>, TokenError>(text@),
        Err(e) => expected == Err::<Seq<char>, TokenError>(e),
    }
}

fn find_separator(bytes: &[u8], from: usize) -> (r: usize)
    requires
        from <= bytes@.len(),
    ensures
        r == next_separator(bytes@, from as int),
        from <= r <= bytes@.len(),
{
    let mut i: usize = from;
    while i < bytes.len()
        invariant
            from <= i <= bytes@.len(),
            next_separator(bytes@, from as int) == next_separator(bytes@, i as int),
        decreases bytes@.len() - i,
    {
        if bytes[i] == TOKEN_SEPARATOR {
            return i;
        }
        i = i + 1;
    }
    i
}

/// Splits an identity token at its dots and returns the middle part, provided
/// the token has exactly three parts.
pub fn split_token(token: &[u8]) -> (r: Option<&[u8]>)
    ensures
        match r {
            Some(payload) => token_payload(token@) == Some(payload@),
            None => token_payload(token@) is None,
        },
{
    let first = find_separator(token, 0);
    if first >= token.len() {
        return None;
    }
    let second = find_separator(token, first + 1);
    if second >= token.len() {
        return None;
    }
    let third = find_separator(token, second + 1);
    if third < token.len() {
        return None;
    }
    Some(slice_subrange(token, first + 1, second))
}

/// Reads a claim from the outcome of the claims lookup: no document is
/// `InvalidJson`, no text under the name is `MissingClaim`.
pub fn claim_from_lookup(found: Result<Option<String>, serde_json::Error>) -> (r: Result<
    String,
    TokenError,
>)
    ensures
        match found {
            Ok(Some(text)) => r matches Ok(claim) && claim@ == text@,
            Ok(None) => r == Err::<String, TokenError>(TokenError::MissingClaim),
            Err(_) => r == Err::<String, TokenError>(TokenError::InvalidJson),
        },
{
    match found {
        Ok(Some(text)) => Ok(text),
        Ok(None) => Err(TokenError::MissingClaim),
        Err(_) => Err(TokenError::InvalidJson),
    }
}

/// Reads the claim of this name from an identity token: three parts separated
/// by dots, the middle one URL-safe base64 of a JSON object.
pub fn token_claim(token: &str, name: &str) -> (r: Result<String, TokenError>)
    ensures
        claim_result_is(r, spec_token_claim(token@, name@)),
        token_payload(encode_utf8(token@)) is None ==> r == Err::<String, TokenError>(
            TokenError::InvalidFormat,
        ),
{
    match split_token(token.as_bytes()) {
        None => Err(TokenError::InvalidFormat),
        Some(payload) => match base64_url_decode(payload) {
            Err(_) => Err(TokenError::InvalidBase64),
            Ok(document) => claim_from_lookup(json_member(document.as_slice(), name)),
        },
    }
}

/// The user id of an identity token: its `sub` claim.
pub fn get_user_id_from_token(token: &str) -> (r: Result<String, TokenError>)
    ensures
        claim_result_is(r, spec_token_claim(token@, "sub"@)),
{
    token_claim(token, "sub")
}

/// The user's address in an identity token: its `email` claim.
pub fn get_user_email_from_token(token: &str) -> (r: Result<String, TokenError>)
    ensures
        claim_result_is(r, spec_token_claim(token@, "email"@)),
{
    token_claim(token, "email")
}

// ---------------------------------------------------------------------------
// Stored tokens
// ---------------------------------------------------------------------------

/// Where the tokens in use were found. It is not stored with them.
#[derive(Debug, Clone, Copy, PartialEq, Eq, Structural)]
pub enum TokenSource {
    /// The token file, `token.json`.
    File,
    /// The file of earlier versions, `token`.
    LegacyFile,
    /// Nowhere: there are no tokens.
    Absent,
}

impl TokenSource {
    /// The name under which the source is shown.
    pub fn label(&self) -> (s: &'static str)
        ensures
            s@ == match *self {
                TokenSource::File => "File (JSON)"@,
                TokenSource::LegacyFile => "File (Legacy)"@,
                TokenSource::Absent => "None"@,
            },
    {
        match self {
            TokenSource::File => "File (JSON)",
            TokenSource::LegacyFile => "File (Legacy)",
            TokenSource::Absent => "None",
        }
    }
}

impl Default for TokenSource {
    fn default() -> (r: TokenSource)
        ensures
            r == TokenSource::Absent,
    {
        TokenSource::Absent
    }
}

/// The identity tokens and where they were found.
#[derive(Debug)]
pub struct TokenData {
    pub id_token: String,
    pub refresh_token: String,
    pub source: TokenSource,
}

impl Default for TokenData {
    fn default() -> (r: TokenData)
        ensures
            r.id_token@ == Seq::<char>::empty(),
            r.refresh_token@ == Seq::<char>::empty(),
            r.source == TokenSource::Absent,
    {
        TokenData { id_token: String::new(), refresh_token: String::new(), source: TokenSource::Absent }
    }
}

/// The two tokens that a token file holds: a JSON object with the texts
/// `id_token` and `refresh_token`. `None` where the content is anything else.
pub open spec fn stored_tokens(content: Seq<char>) -> Option<(Seq<char>, Seq<char>)> {
    let document = encode_utf8(content);
    match (
        json_member_text(document, "id_token"@),
        json_member_text(document, "refresh_token"@),
    ) {
        (Some(Some(id_token)), Some(Some(refresh_token))) => Some((id_token, refresh_token)),
        _ => None,
    }
}

/// The tokens in use, given the content of the token file and of the legacy
/// file, each where it could be read: id token, refresh token, source.
pub open spec fn spec_token_data(token_file: Option<Seq<char>>, legacy_file: Option<Seq<char>>) -> (
    Seq<char>,
    Seq<char>,
    TokenSource,
) {
    if token_file is Some && stored_tokens(token_file->0) is Some {
        let tokens = stored_tokens(token_file->0)->0;
        (tokens.0, tokens.1, TokenSource::File)
    } else if legacy_file is Some {
        match stored_tokens(legacy_file->0) {
            Some(tokens) => (tokens.0, tokens.1, TokenSource::LegacyFile),
            None => (trimmed(legacy_file->0), Seq::empty(), TokenSource::LegacyFile),
        }
    } else {
        (Seq::empty(), Seq::empty(), TokenSource::Absent)
    }
}

/// The view of an optional text.
pub open spec fn content_view(content: Option<&str>) -> Option<Seq<char>> {
    match content {
        Some(text) => Some(text@),
        None => None,
    }
}

/// Reads the two tokens from the content of a token file.
pub fn parse_stored_tokens(content: &str) -> (r: Option<(String, String)>)
    ensures
        match r {
            Some(tokens) => stored_tokens(content@) == Some((tokens.0@, tokens.1@)),
            None => stored_tokens(content@) is None,
        },
{
    let document = content.as_bytes();
    match json_member(document, "id_token") {
        Ok(Some(id_token)) => match json_member(document, "refresh_token") {
            Ok(Some(refresh_token)) => Some((id_token, refresh_token)),
            _ => None,
        },
        _ => None,
    }
}

/// The tokens in use: from the first source that has them.
///
/// `token_file` is the content of `token.json`, `legacy_file` that of the
/// legacy `token` file, each where the file could be read. The token file wins
/// where it holds both tokens. Otherwise the legacy file is used if it is
/// there: as a token file, or else its trimmed content is the id token and
/// there is no refresh token. With neither there are no tokens.
pub fn get_token_data(token_file: Option<&str>, legacy_file: Option<&str>) -> (r: TokenData)
    ensures
        (r.id_token@, r.refresh_token@, r.source) == spec_token_data(
            content_view(token_file),
            content_view(legacy_file),
        ),
{
    if let Some(content) = token_file {
        if let Some(tokens) = parse_stored_tokens(content) {
            return TokenData {
                id_token: tokens.0,
                refresh_token: tokens.1,
                source: TokenSource::File,
            };
        }
    }
    if let Some(content) = legacy_file {
        return match parse_stored_tokens(content) {
            Some(tokens) => TokenData {
                id_token: tokens.0,
                refresh_token: tokens.1,
                source: TokenSource::LegacyFile,
            },
            None => TokenData {
                id_token: str_to_string(str_trim(content)),
                refresh_token: String::new(),
                source: TokenSource::LegacyFile,
            },
        };
    }
    TokenData::default()
}

/// The id token in use, empty where there is none.
pub fn get_token(token_file: Option<&str>, legacy_file: Option<&str>) -> (r: String)
    ensures
        r@ == spec_token_data(content_view(token_file), content_view(legacy_file)).0,
{
    get_token_data(token_file, legacy_file).id_token
}

/// The address of the service: the configured one where there is one, else
/// the default.
pub fn get_api_base_url(configured: Option<String>) -> (r: String)
    ensures
        r@ == match configured {
            Some(url) => url@,
            None => DEFAULT_API_BASE_URL@,
        },
{
    match configured {
        Some(url) => url,
        None => str_to_string(DEFAULT_API_BASE_URL),
    }
}

// ---------------------------------------------------------------------------
// Settings
// ---------------------------------------------------------------------------

/// General settings.
#[derive(Debug, Clone, Copy, PartialEq, Eq, Structural)]
pub struct GeneralConfig {
    /// While set, nothing is synchronized and no account is looked up.
    pub offline_mode: bool,
}

impl Default for GeneralConfig {
    fn default() -> (r: GeneralConfig)
        ensures
            r == (GeneralConfig { offline_mode: false }),
    {
        GeneralConfig { offline_mode: false }
    }
}

/// What was found where the settings file should be.
#[derive(Debug, Clone, Copy, PartialEq, Eq, Structural)]
pub enum ConfigFile {
    /// There is no file.
    Missing,
    /// The file is there but could not be read.
    Unreadable,
    /// The file was read and is not a settings file.
    Corrupt,
    /// The file holds these settings.
    Parsed { general: GeneralConfig },
}

/// What to do about the settings file, and the settings to use.
#[derive(Debug, Clone, Copy, PartialEq, Eq, Structural)]
pub struct ConfigPlan {
    /// The settings to use.
    pub general: GeneralConfig,
    /// Write a file with the default settings.
    pub write_defaults: bool,
    /// Move the file aside, to `config.toml.bak`.
    pub backup: bool,
}

/// Decides what the settings are and what happens to the file.
///
/// Without a file the defaults are used and written out. A corrupt file is
/// moved aside and the defaults are used; an unreadable one is left alone and
/// the defaults are used. In every case the application goes on.
pub fn load_config(found: ConfigFile) -> (r: ConfigPlan)
    ensures
        r == match found {
            ConfigFile::Missing => ConfigPlan {
                general: GeneralConfig { offline_mode: false },
                write_defaults: true,
                backup: false,
            },
            ConfigFile::Unreadable => ConfigPlan {
                general: GeneralConfig { offline_mode: false },
                write_defaults: false,
                backup: false,
            },
            ConfigFile::Corrupt => ConfigPlan {
                general: GeneralConfig { offline_mode: false },
                write_defaults: false,
                backup: true,
            },
            ConfigFile::Parsed { general } => ConfigPlan {
                general,
                write_defaults: false,
                backup: false,
            },
        },
{
    match found {
        ConfigFile::Missing => ConfigPlan {
            general: GeneralConfig::default(),
            write_defaults: true,
            backup: false,
        },
        ConfigFile::Unreadable => ConfigPlan {
            general: GeneralConfig::default(),
            write_defaults: false,
            backup: false,
        },
        ConfigFile::Corrupt => ConfigPlan {
            general: GeneralConfig::default(),
            write_defaults: false,
            backup: true,
        },
        ConfigFile::Parsed { general } => ConfigPlan { general, write_defaults: false, backup: false },
    }
}

/// The settings to write when offline mode is switched: those that
/// `load_config` gives for what was found, with the new mode.
pub fn set_offline_mode(found: ConfigFile, offline: bool) -> (r: GeneralConfig)
    ensures
        r == (GeneralConfig { offline_mode: offline }),
{
    let mut general = load_config(found).general;
    general.offline_mode = offline;
    general
}

} // verus!
