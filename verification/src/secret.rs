//! Stored secrets: how one is written as a line, and how a line is read back.
//!
//! Reading a line may need two things from outside: the decryption of its body
//! and the parsing of the decrypted value. Each is asked for by a step, and the
//! step is handed the answer.
use crate::line::{
    format_line, law_line_round_trip, law_read_line_is_its_parts, law_version_is_unique,
    line_parts, line_text, line_version, parse_line, plain_path, tag_text, untagged_text,
    version_of, LineVersion,
};
use crate::order::{Keyed, Path, Stamped};
use crate::outside::{
    base64_bytes, base64_decode, base64_quad, base64_symbol, base64_text, hex_bytes, hex_decode,
    hex_encode, hex_text, law_base64_round_trip, law_hex_round_trip, string_from_utf8, utc_now,
    Timestamp,
};
use crate::text::{trim, trimmed, white_space};
use crate::value::{SecretValue, ValueModel};
use vstd::prelude::*;
use vstd::utf8::*;

verus! {

// ---------------------------------------------------------------------------
// Secrets
// ---------------------------------------------------------------------------

/// A stored secret.
#[derive(Debug, Clone)]
pub struct Secret {
    pub service: String,
    pub key: String,
    pub value: SecretValue,
    pub engram_id: Option<u64>,
    pub created_at: Option<Timestamp>,
}

/// A stored secret as text.
pub struct SecretModel {
    pub service: Seq<char>,
    pub key: Seq<char>,
    pub value: ValueModel,
    pub engram_id: Option<u64>,
    pub created_at: Option<Timestamp>,
}

impl View for Secret {
    type V = SecretModel;

    open spec fn view(&self) -> SecretModel {
        SecretModel {
            service: self.service@,
            key: self.key@,
            value: self.value@,
            engram_id: self.engram_id,
            created_at: self.created_at,
        }
    }
}

impl Keyed for Secret {
    open spec fn path_of(v: SecretModel) -> Path {
        (v.service, v.key)
    }

    fn service_text(&self) -> (r: &str) {
        self.service.as_str()
    }

    fn key_text(&self) -> (r: &str) {
        self.key.as_str()
    }
}

impl Stamped for Secret {
    open spec fn stamp_of(v: SecretModel) -> u64 {
        match v.engram_id {
            Some(id) => id,
            None => 0,
        }
    }

    fn stamp(&self) -> (r: u64) {
        match self.engram_id {
            Some(id) => id,
            None => 0,
        }
    }
}

/// A secret whose body is still encrypted.
#[derive(Debug)]
pub struct SealedSecret {
    pub kind: SealedKind,
    pub service: String,
    pub key: String,
    pub ciphertext: Vec<u8>,
    pub engram_id: u64,
}

/// What the body of an encrypted secret is.
#[derive(Debug, Clone, Copy, PartialEq, Eq, Structural)]
pub enum SealedKind {
    /// The raw value of an API key.
    RawValue,
    /// A serialized secret value.
    Serialized,
}

/// A secret whose decrypted value is still to be parsed.
#[derive(Debug)]
pub struct OpenedSecret {
    pub service: String,
    pub key: String,
    pub json: Vec<u8>,
    pub engram_id: u64,
}

/// How far a line can be read without help.
#[derive(Debug)]
pub enum Decoding {
    /// All of it.
    Complete(Secret),
    /// Up to the encrypted body.
    Sealed(SealedSecret),
}

/// How far a decrypted body can be read without help.
#[derive(Debug)]
pub enum Opening {
    /// All of it.
    Complete(Secret),
    /// Up to the serialized value.
    Serialized(OpenedSecret),
}

/// An encrypted secret as text and bytes.
pub struct SealedModel {
    pub kind: SealedKind,
    pub service: Seq<char>,
    pub key: Seq<char>,
    pub ciphertext: Seq<u8>,
    pub engram_id: u64,
}

/// A decrypted secret as text and bytes.
pub struct OpenedModel {
    pub service: Seq<char>,
    pub key: Seq<char>,
    pub json: Seq<u8>,
    pub engram_id: u64,
}

/// How far a line can be read, as text and bytes.
pub enum DecodingModel {
    Complete(SecretModel),
    Sealed(SealedModel),
}

/// How far a decrypted body can be read, as text and bytes.
pub enum OpeningModel {
    Complete(SecretModel),
    Serialized(OpenedModel),
}

impl View for SealedSecret {
    type V = SealedModel;

    open spec fn view(&self) -> SealedModel {
        SealedModel {
            kind: self.kind,
            service: self.service@,
            key: self.key@,
            ciphertext: self.ciphertext@,
            engram_id: self.engram_id,
        }
    }
}

impl View for OpenedSecret {
    type V = OpenedModel;

    open spec fn view(&self) -> OpenedModel {
        OpenedModel {
            service: self.service@,
            key: self.key@,
            json: self.json@,
            engram_id: self.engram_id,
        }
    }
}

impl View for Decoding {
    type V = DecodingModel;

    open spec fn view(&self) -> DecodingModel {
        match *self {
            Decoding::Complete(s) => DecodingModel::Complete(s@),
            Decoding::Sealed(s) => DecodingModel::Sealed(s@),
        }
    }
}

impl View for Opening {
    type V = OpeningModel;

    open spec fn view(&self) -> OpeningModel {
        match *self {
            Opening::Complete(s) => OpeningModel::Complete(s@),
            Opening::Serialized(s) => OpeningModel::Serialized(s@),
        }
    }
}

/// The view of what may be there.
pub open spec fn opt_view<T: View>(t: Option<T>) -> Option<T::V> {
    match t {
        Some(x) => Some(x@),
        None => None,
    }
}

/// The secret that a raw value of an older line becomes: an API key with a note
/// of where it came from, if the value is text.
pub open spec fn migrated_secret(
    service: Seq<char>,
    key: Seq<char>,
    raw: Seq<u8>,
    note: Seq<char>,
    engram_id: u64,
) -> Option<SecretModel> {
    if valid_utf8(raw) {
        Some(
            SecretModel {
                service,
                key,
                value: ValueModel::ApiKey { key: decode_utf8(raw), url: None, notes: Some(note) },
                engram_id: Some(engram_id),
                created_at: None,
            },
        )
    } else {
        None
    }
}

/// The encrypted secret of a hexadecimal body. It is of no use without a key.
pub open spec fn sealed_secret(
    kind: SealedKind,
    service: Seq<char>,
    key: Seq<char>,
    body: Seq<char>,
    engram_id: u64,
    has_key: bool,
) -> Option<DecodingModel> {
    match hex_bytes(trimmed(body)) {
        Some(ciphertext) => if has_key {
            Some(
                DecodingModel::Sealed(
                    SealedModel { kind, service, key, ciphertext, engram_id },
                ),
            )
        } else {
            None
        },
        None => None,
    }
}

/// How far the line `content` can be read.
pub open spec fn decoded(content: Seq<char>, engram_id: u64, has_key: bool) -> Option<
    DecodingModel,
> {
    match version_of(content) {
        Some(version) => match line_parts(version, content) {
            Some((service, key, body)) => match version {
                LineVersion::V3 => sealed_secret(
                    SealedKind::Serialized,
                    service,
                    key,
                    body,
                    engram_id,
                    has_key,
                ),
                LineVersion::V2 => sealed_secret(
                    SealedKind::RawValue,
                    service,
                    key,
                    body,
                    engram_id,
                    has_key,
                ),
                LineVersion::V1 => match base64_bytes(trimmed(body)) {
                    Some(raw) => match migrated_secret(
                        service,
                        key,
                        raw,
                        "migrated from v1"@,
                        engram_id,
                    ) {
                        Some(s) => Some(DecodingModel::Complete(s)),
                        None => None,
                    },
                    None => None,
                },
            },
            None => None,
        },
        None => None,
    }
}

impl SealedModel {
    /// How far the secret can be read once `plaintext` is what its body holds,
    /// if it could be decrypted.
    pub open spec fn opened(self, plaintext: Option<Seq<u8>>) -> Option<OpeningModel> {
        match plaintext {
            Some(bytes) => match self.kind {
                SealedKind::Serialized => Some(
                    OpeningModel::Serialized(
                        OpenedModel {
                            service: self.service,
                            key: self.key,
                            json: bytes,
                            engram_id: self.engram_id,
                        },
                    ),
                ),
                SealedKind::RawValue => match migrated_secret(
                    self.service,
                    self.key,
                    bytes,
                    "migrated from v2"@,
                    self.engram_id,
                ) {
                    Some(s) => Some(OpeningModel::Complete(s)),
                    None => None,
                },
            },
            None => None,
        }
    }
}

impl OpenedModel {
    /// The secret once `value` is what its serialized value says, if it could be
    /// parsed.
    pub open spec fn with_value(self, value: Option<ValueModel>) -> Option<SecretModel> {
        match value {
            Some(v) => Some(
                SecretModel {
                    service: self.service,
                    key: self.key,
                    value: v,
                    engram_id: Some(self.engram_id),
                    created_at: None,
                },
            ),
            None => None,
        }
    }
}

impl Secret {
    /// A new secret, not yet known to the Engram service, made at the given
    /// moment.
    pub fn new_at(service: String, key: String, value: SecretValue, at: Timestamp) -> (r: Secret)
        ensures
            r.service == service,
            r.key == key,
            r.value == value,
            r.engram_id is None,
            r.created_at == Some(at),
    {
        Secret { service, key, value, engram_id: None, created_at: Some(at) }
    }

    /// A new secret, not yet known to the Engram service, made now. The clock must
    /// not stand before 1970; `new_at` takes a moment and asks no clock.
    pub fn new(service: String, key: String, value: SecretValue) -> (r: Secret)
        ensures
            r.service == service,
            r.key == key,
            r.value == value,
            r.engram_id is None,
            r.created_at matches Some(at) && at.nanos < 1_000_000_000,
    {
        Secret::new_at(service, key, value, utc_now())
    }

    /// The line of the current version that stores the secret, given the
    /// encryption of its serialized value.
    pub fn to_engram_content(&self, ciphertext: &[u8]) -> (r: String)
        ensures
            r@ == line_text(LineVersion::V3, self.service@, self.key@, hex_text(ciphertext@)),
            r@ == "[CRED:v3] "@ + self.service@ + "/"@ + self.key@ + " = "@ + hex_text(ciphertext@),
    {
        let body = hex_encode(ciphertext);
        format_line(self.service.as_str(), self.key.as_str(), body.as_str())
    }

    /// The secret that a raw value of an older line becomes.
    pub fn from_raw_value(
        service: &str,
        key: &str,
        raw: Vec<u8>,
        note: &str,
        engram_id: u64,
    ) -> (r: Option<Secret>)
        ensures
            opt_view(r) == migrated_secret(service@, key@, raw@, note@, engram_id),
    {
        match string_from_utf8(raw) {
            Some(text) => Some(
                Secret {
                    service: service.to_owned(),
                    key: key.to_owned(),
                    value: SecretValue::ApiKey {
                        key: text,
                        url: None,
                        notes: Some(note.to_owned()),
                    },
                    engram_id: Some(engram_id),
                    created_at: None,
                },
            ),
            None => None,
        }
    }

    /// Reads a line of any version as far as it goes without help.
    /// Values of older versions become API keys. Encrypted lines are of no use
    /// where there is no key to decrypt them with.
    pub fn from_engram_content(
        content: &str,
        engram_id: u64,
        has_key: bool,
    ) -> (r: Option<Decoding>)
        ensures
            opt_view(r) == decoded(content@, engram_id, has_key),
    {
        let version = match line_version(content) {
            Some(version) => version,
            None => {
                return None;
            },
        };
        let (service, key, body) = match parse_line(version, content) {
            Some(parts) => parts,
            None => {
                return None;
            },
        };
        let kind = match version {
            LineVersion::V3 => SealedKind::Serialized,
            LineVersion::V2 => SealedKind::RawValue,
            LineVersion::V1 => {
                return match base64_decode(trim(body)) {
                    Ok(raw) => {
                        proof {
                            law_base64_round_trip(raw@);
                        }
                        match Secret::from_raw_value(
                            service,
                            key,
                            raw,
                            "migrated from v1",
                            engram_id,
                        ) {
                            Some(secret) => Some(Decoding::Complete(secret)),
                            None => None,
                        }
                    },
                    Err(_) => None,
                };
            },
        };
        match hex_decode(trim(body)) {
            Ok(ciphertext) => {
                if has_key {
                    Some(
                        Decoding::Sealed(
                            SealedSecret {
                                kind,
                                service: service.to_owned(),
                                key: key.to_owned(),
                                ciphertext,
                                engram_id,
                            },
                        ),
                    )
                } else {
                    None
                }
            },
            Err(_) => None,
        }
    }
}

impl SealedSecret {
    /// Reads on with the decrypted body, if it could be decrypted.
    pub fn open(self, plaintext: Option<Vec<u8>>) -> (r: Option<Opening>)
        ensures
            opt_view(r) == self@.opened(opt_view(plaintext)),
    {
        match plaintext {
            Some(bytes) => match self.kind {
                SealedKind::Serialized => Some(
                    Opening::Serialized(
                        OpenedSecret {
                            service: self.service,
                            key: self.key,
                            json: bytes,
                            engram_id: self.engram_id,
                        },
                    ),
                ),
                SealedKind::RawValue => match Secret::from_raw_value(
                    self.service.as_str(),
                    self.key.as_str(),
                    bytes,
                    "migrated from v2",
                    self.engram_id,
                ) {
                    Some(secret) => Some(Opening::Complete(secret)),
                    None => None,
                },
            },
            None => None,
        }
    }
}

impl OpenedSecret {
    /// Completes the secret with its value, if it could be parsed.
    pub fn with_value(self, value: Option<SecretValue>) -> (r: Option<Secret>)
        ensures
            opt_view(r) == self@.with_value(opt_view(value)),
    {
        match value {
            Some(value) => Some(
                Secret {
                    service: self.service,
                    key: self.key,
                    value,
                    engram_id: Some(self.engram_id),
                    created_at: None,
                },
            ),
            None => None,
        }
    }
}

// ---------------------------------------------------------------------------
// Laws
// ---------------------------------------------------------------------------

/// Text without white space at its ends stays as it is.
proof fn lemma_nothing_to_trim(s: Seq<char>)
    requires
        s.len() > 0 ==> !white_space(s[0]) && !white_space(s.last()),
    ensures
        trimmed(s) == s,
{
}

proof fn lemma_hex_is_trimmed(bytes: Seq<u8>)
    ensures
        trimmed(hex_text(bytes)) == hex_text(bytes),
{
    let text = hex_text(bytes);
    if bytes.len() > 0 {
        let last = text.len() - 1;
        assert(0 <= bytes[0] as int / 16 < 16);
        assert(0 <= bytes[last / 2] as int % 16 < 16);
    }
    lemma_nothing_to_trim(text);
}

proof fn lemma_symbol_is_dark(d: int)
    requires
        0 <= d < 64,
    ensures
        !white_space(base64_symbol(d)),
{
}

proof fn lemma_base64_is_dark(bytes: Seq<u8>)
    ensures
        forall|i: int|
            0 <= i < base64_text(bytes).len() ==> !white_space(#[trigger] base64_text(bytes)[i]),
    decreases bytes.len(),
{
    let text = base64_text(bytes);
    if bytes.len() > 0 {
        let a = bytes[0] as int;
        let b = if bytes.len() > 1 { bytes[1] as int } else { 0 };
        let c = if bytes.len() > 2 { bytes[2] as int } else { 0 };
        let quad = base64_quad(a, b, c);
        lemma_symbol_is_dark(a / 4);
        lemma_symbol_is_dark((a % 4) * 16 + b / 16);
        lemma_symbol_is_dark((b % 16) * 4 + c / 64);
        lemma_symbol_is_dark(c % 64);
        if bytes.len() > 3 {
            lemma_base64_is_dark(bytes.skip(3));
        }
        assert forall|i: int| 0 <= i < text.len() implies !white_space(#[trigger] text[i]) by {
            if bytes.len() >= 3 {
                if i < 4 {
                    assert(text[i] == quad[i]);
                } else {
                    assert(text[i] == base64_text(bytes.skip(3))[i - 4]);
                }
            } else if bytes.len() == 2 {
                if i < 3 {
                    assert(text[i] == quad[i]);
                }
            } else {
                if i < 2 {
                    assert(text[i] == quad[i]);
                }
            }
        }
    }
}

proof fn lemma_base64_is_trimmed(bytes: Seq<u8>)
    ensures
        trimmed(base64_text(bytes)) == base64_text(bytes),
{
    lemma_base64_is_dark(bytes);
    lemma_nothing_to_trim(base64_text(bytes));
}

/// The tag that a line was written with names its version.
proof fn lemma_written_version(
    version: LineVersion,
    service: Seq<char>,
    key: Seq<char>,
    body: Seq<char>,
)
    ensures
        version_of(line_text(version, service, key, body)) == Some(version),
{
    let content = line_text(version, service, key, body);
    assert(tag_text(version).is_prefix_of(tag_text(version) + untagged_text(service, key, body)));
    law_version_is_unique(version, content);
}

/// What was stored is read back: from the line that stores a secret, with its
/// body decrypted and its value parsed as they were, comes the secret with the
/// same path and value under the id that the line is kept under. This holds
/// exactly where the path is plain; of other paths another one is read, or none.
pub proof fn law_stored_secret_is_read_back(
    secret: SecretModel,
    ciphertext: Seq<u8>,
    json: Seq<u8>,
    engram_id: u64,
)
    ensures
        ({
            let content = line_text(
                LineVersion::V3,
                secret.service,
                secret.key,
                hex_text(ciphertext),
            );
            let sealed = SealedModel {
                kind: SealedKind::Serialized,
                service: secret.service,
                key: secret.key,
                ciphertext,
                engram_id,
            };
            let opened = OpenedModel {
                service: secret.service,
                key: secret.key,
                json,
                engram_id,
            };
            &&& decoded(content, engram_id, true) == Some(DecodingModel::Sealed(sealed))
                <==> plain_path(secret.service, secret.key)
            &&& sealed.opened(Some(json)) == Some(OpeningModel::Serialized(opened))
            &&& opened.with_value(Some(secret.value)) == Some(
                SecretModel { engram_id: Some(engram_id), created_at: None, ..secret },
            )
        }),
{
    let body = hex_text(ciphertext);
    let content = line_text(LineVersion::V3, secret.service, secret.key, body);
    lemma_written_version(LineVersion::V3, secret.service, secret.key, body);
    law_line_round_trip(LineVersion::V3, secret.service, secret.key, body);
    lemma_hex_is_trimmed(ciphertext);
    law_hex_round_trip(ciphertext);
    let sealed = SealedModel {
        kind: SealedKind::Serialized,
        service: secret.service,
        key: secret.key,
        ciphertext,
        engram_id,
    };
    if decoded(content, engram_id, true) == Some(DecodingModel::Sealed(sealed)) {
        let (s, k, b) = line_parts(LineVersion::V3, content)->0;
        law_read_line_is_its_parts(LineVersion::V3, content, s, k, b);
    }
}

/// A value kept in the oldest version is read as an API key of that value, with
/// or without a key to decrypt with.
pub proof fn law_v1_value_becomes_api_key(
    service: Seq<char>,
    key: Seq<char>,
    value: Seq<char>,
    engram_id: u64,
    has_key: bool,
)
    requires
        plain_path(service, key),
    ensures
        decoded(
            line_text(LineVersion::V1, service, key, base64_text(encode_utf8(value))),
            engram_id,
            has_key,
        ) == Some(
            DecodingModel::Complete(
                SecretModel {
                    service,
                    key,
                    value: ValueModel::ApiKey {
                        key: value,
                        url: None,
                        notes: Some("migrated from v1"@),
                    },
                    engram_id: Some(engram_id),
                    created_at: None,
                },
            ),
        ),
{
    let raw = encode_utf8(value);
    let body = base64_text(raw);
    lemma_written_version(LineVersion::V1, service, key, body);
    law_line_round_trip(LineVersion::V1, service, key, body);
    lemma_base64_is_trimmed(raw);
    law_base64_round_trip(raw);
    encode_utf8_valid_utf8(value);
    encode_utf8_decode_utf8(value);
}

/// A value kept in the second version is read, once decrypted, as an API key of
/// that value.
pub proof fn law_v2_value_becomes_api_key(
    service: Seq<char>,
    key: Seq<char>,
    value: Seq<char>,
    ciphertext: Seq<u8>,
    engram_id: u64,
)
    requires
        plain_path(service, key),
    ensures
        ({
            let sealed = SealedModel {
                kind: SealedKind::RawValue,
                service,
                key,
                ciphertext,
                engram_id,
            };
            &&& decoded(
                line_text(LineVersion::V2, service, key, hex_text(ciphertext)),
                engram_id,
                true,
            ) == Some(DecodingModel::Sealed(sealed))
            &&& sealed.opened(Some(encode_utf8(value))) == Some(
                OpeningModel::Complete(
                    SecretModel {
                        service,
                        key,
                        value: ValueModel::ApiKey {
                            key: value,
                            url: None,
                            notes: Some("migrated from v2"@),
                        },
                        engram_id: Some(engram_id),
                        created_at: None,
                    },
                ),
            )
        }),
{
    let body = hex_text(ciphertext);
    lemma_written_version(LineVersion::V2, service, key, body);
    law_line_round_trip(LineVersion::V2, service, key, body);
    lemma_hex_is_trimmed(ciphertext);
    law_hex_round_trip(ciphertext);
    encode_utf8_valid_utf8(value);
    encode_utf8_decode_utf8(value);
}

/// Without a key only lines of the oldest version can be read.
pub proof fn law_encrypted_lines_need_a_key(content: Seq<char>, engram_id: u64)
    ensures
        decoded(content, engram_id, false) is Some ==> version_of(content) == Some(LineVersion::V1),
{
}

/// A line is read completely, or encrypted in the older of the two ways, only
/// where it is of an older version.
pub proof fn law_only_v3_is_current(content: Seq<char>, engram_id: u64, has_key: bool)
    ensures
        match decoded(content, engram_id, has_key) {
            Some(DecodingModel::Complete(_)) => version_of(content) == Some(LineVersion::V1),
            Some(DecodingModel::Sealed(sealed)) => version_of(content) == Some(
                if sealed.kind is RawValue {
                    LineVersion::V2
                } else {
                    LineVersion::V3
                },
            ),
            None => true,
        },
{
}

} // verus!
