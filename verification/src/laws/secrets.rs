//! What reading and writing secrets promises.
use crate::line::{line_parts, version_of, LineVersion};
use crate::outside::{base64_bytes, base64_text, hex_bytes, law_base64_injective};
use crate::secret::{
    decoded, migrated_secret, opt_view, Decoding, DecodingModel, OpenedModel, OpenedSecret,
    Opening, OpeningModel, SealedKind, SealedModel, SealedSecret, Secret, SecretModel,
};
use crate::text::trimmed;
use crate::value::{SecretValue, ValueModel};
use vstd::prelude::*;
use vstd::utf8::*;

verus! {

/// How a line of each version is read: the current one as an encrypted value, the
/// second as an encrypted raw value, both in hexadecimal and only with a key; the
/// oldest as base64 of a raw value. Path, bytes and id are those of the line.
pub proof fn law_lines_are_read_by_their_version(
    content: Seq<char>,
    engram_id: u64,
    has_key: bool,
    version: LineVersion,
    service: Seq<char>,
    key: Seq<char>,
    body: Seq<char>,
)
    requires
        version_of(content) == Some(version),
        line_parts(version, content) == Some((service, key, body)),
    ensures
        version == LineVersion::V3 || version == LineVersion::V2 ==> (match hex_bytes(
            trimmed(body),
        ) {
            Some(ciphertext) if has_key => decoded(content, engram_id, has_key) == Some(
                DecodingModel::Sealed(
                    SealedModel {
                        kind: if version == LineVersion::V3 {
                            SealedKind::Serialized
                        } else {
                            SealedKind::RawValue
                        },
                        service,
                        key,
                        ciphertext,
                        engram_id,
                    },
                ),
            ),
            _ => decoded(content, engram_id, has_key) is None,
        }),
        version == LineVersion::V1 ==> (match base64_bytes(trimmed(body)) {
            Some(raw) if valid_utf8(raw) => decoded(content, engram_id, has_key) == Some(
                DecodingModel::Complete(
                    SecretModel {
                        service,
                        key,
                        value: ValueModel::ApiKey {
                            key: decode_utf8(raw),
                            url: None,
                            notes: Some("migrated from v1"@),
                        },
                        engram_id: Some(engram_id),
                        created_at: None,
                    },
                ),
            ),
            _ => decoded(content, engram_id, has_key) is None,
        }),
{
}

/// What is no line is not read.
pub proof fn law_what_is_no_line_is_not_read(content: Seq<char>, engram_id: u64, has_key: bool)
    ensures
        version_of(content) is None ==> decoded(content, engram_id, has_key) is None,
        version_of(content) matches Some(version) ==> (line_parts(version, content) is None
            ==> decoded(content, engram_id, has_key) is None),
{
}

/// A text is read as base64 of exactly those bytes whose encoding it is.
pub proof fn law_base64_is_read_as_what_it_encodes(text: Seq<char>, bytes: Seq<u8>)
    ensures
        base64_bytes(text) == Some(bytes) <==> base64_text(bytes) == text,
{
    if base64_text(bytes) == text {
        let b = choose|b: Seq<u8>| base64_text(b) == text;
        assert(base64_text(b) == text);
        law_base64_injective(b, bytes);
    }
}

/// A decrypted value of the current version is handed on as it is; a decrypted raw
/// value becomes an API key, if it is text; what was not decrypted is nothing.
pub proof fn law_decrypted_bodies_are_read_by_their_version(sealed: SealedModel, plain: Seq<u8>)
    ensures
        sealed.opened(None) is None,
        sealed.kind is Serialized ==> sealed.opened(Some(plain)) == Some(
            OpeningModel::Serialized(
                OpenedModel {
                    service: sealed.service,
                    key: sealed.key,
                    json: plain,
                    engram_id: sealed.engram_id,
                },
            ),
        ),
        sealed.kind is RawValue && valid_utf8(plain) ==> sealed.opened(Some(plain)) == Some(
            OpeningModel::Complete(
                SecretModel {
                    service: sealed.service,
                    key: sealed.key,
                    value: ValueModel::ApiKey {
                        key: decode_utf8(plain),
                        url: None,
                        notes: Some("migrated from v2"@),
                    },
                    engram_id: Some(sealed.engram_id),
                    created_at: None,
                },
            ),
        ),
        sealed.kind is RawValue && !valid_utf8(plain) ==> sealed.opened(Some(plain)) is None,
{
}

/// A raw value that is text becomes an API key of that text, with the note given,
/// at the path and under the id given; one that is not text becomes nothing.
pub proof fn law_raw_values_become_api_keys(
    service: Seq<char>,
    key: Seq<char>,
    raw: Seq<u8>,
    note: Seq<char>,
    engram_id: u64,
)
    ensures
        valid_utf8(raw) ==> migrated_secret(service, key, raw, note, engram_id) == Some(
            SecretModel {
                service,
                key,
                value: ValueModel::ApiKey { key: decode_utf8(raw), url: None, notes: Some(note) },
                engram_id: Some(engram_id),
                created_at: None,
            },
        ),
        !valid_utf8(raw) ==> migrated_secret(service, key, raw, note, engram_id) is None,
{
}

/// A parsed value completes its secret; what was not parsed is no secret.
pub proof fn law_parsed_values_complete_their_secret(opened: OpenedModel, value: ValueModel)
    ensures
        opened.with_value(None) is None,
        opened.with_value(Some(value)) == Some(
            SecretModel {
                service: opened.service,
                key: opened.key,
                value,
                engram_id: Some(opened.engram_id),
                created_at: None,
            },
        ),
{
}

/// A secret is taken as it is, in each of the states that it is read through.
pub proof fn law_secrets_are_taken_as_they_are(
    secret: Secret,
    sealed: SealedSecret,
    opened: OpenedSecret,
)
    ensures
        secret@.service == secret.service@,
        secret@.key == secret.key@,
        secret@.value == secret.value@,
        secret@.engram_id == secret.engram_id,
        secret@.created_at == secret.created_at,
        sealed@.kind == sealed.kind,
        sealed@.service == sealed.service@,
        sealed@.key == sealed.key@,
        sealed@.ciphertext == sealed.ciphertext@,
        sealed@.engram_id == sealed.engram_id,
        opened@.service == opened.service@,
        opened@.key == opened.key@,
        opened@.json == opened.json@,
        opened@.engram_id == opened.engram_id,
        Decoding::Complete(secret)@ == DecodingModel::Complete(secret@),
        Decoding::Sealed(sealed)@ == DecodingModel::Sealed(sealed@),
        Opening::Complete(secret)@ == OpeningModel::Complete(secret@),
        Opening::Serialized(opened)@ == OpeningModel::Serialized(opened@),
{
}

/// What may be there is taken as it is, or as not there.
pub proof fn law_what_may_be_there<T: View>(t: T)
    ensures
        opt_view(Some(t)) == Some(t@),
        opt_view(None::<T>) is None,
{
}

/// A value is taken as it is: each of its components.
pub proof fn law_values_are_taken_as_they_are(value: SecretValue)
    ensures
        match (value, value@) {
            (
                SecretValue::Login { url, username, password, totp_seed },
                ValueModel::Login { url: u, username: n, password: p, totp_seed: t },
            ) => url@ == u && username@ == n && password@ == p && same(totp_seed, t),
            (
                SecretValue::ApiKey { key, url, notes },
                ValueModel::ApiKey { key: k, url: u, notes: n },
            ) => key@ == k && same(url, u) && same(notes, n),
            (
                SecretValue::OAuthApp { client_id, client_secret, redirect_url, scopes },
                ValueModel::OAuthApp {
                    client_id: i,
                    client_secret: s,
                    redirect_url: r,
                    scopes: l,
                },
            ) => {
                &&& client_id@ == i
                &&& client_secret@ == s
                &&& same(redirect_url, r)
                &&& match (scopes, l) {
                    (Some(list), Some(all)) => all.len() == list@.len() && forall|k: int|
                        0 <= k < all.len() ==> #[trigger] all[k] == list@[k]@,
                    (None, None) => true,
                    _ => false,
                }
            },
            (
                SecretValue::SshKey { private_key, public_key, passphrase },
                ValueModel::SshKey { private_key: k, public_key: u, passphrase: p },
            ) => private_key@ == k && same(public_key, u) && same(passphrase, p),
            (SecretValue::Note { content }, ValueModel::Note { content: c }) => content@ == c,
            (SecretValue::Environment { vars }, ValueModel::Environment { vars: v }) => vars@ == v,
            _ => false,
        },
{
}

/// Either both are there and say the same, or neither is.
pub open spec fn same(a: Option<String>, b: Option<Seq<char>>) -> bool {
    match (a, b) {
        (Some(s), Some(t)) => s@ == t,
        (None, None) => true,
        _ => false,
    }
}

} // verus!
