//! What secret values, callers and errors promise.
use crate::api::{memory_models, AuthLevel, AuthModel, EngramMemory};
use crate::error::{CredError, EngramOp, ErrorModel};
use crate::outside::HexRefusal;
use crate::text::{decimal, joined, one_line, texts};
use crate::value::{
    lookup, masked, named_at, names_distinct, names_of, pair_texts, with_entry, EnvVars,
    SecretValue,
};
use vstd::prelude::*;
use vstd::utf8::*;

verus! {

// ---------------------------------------------------------------------------
// Fields
// ---------------------------------------------------------------------------

proof fn lemma_names()
    ensures
        "url"@.len() == 3,
        "key"@.len() == 3,
        "key"@ != "url"@,
        "notes"@.len() == 5,
        "scopes"@.len() == 6,
        "content"@.len() == 7,
        "username"@.len() == 8,
        "password"@.len() == 8,
        "username"@ != "password"@,
        "totp_seed"@.len() == 9,
        "client_id"@.len() == 9,
        "public_key"@.len() == 10,
        "passphrase"@.len() == 10,
        "public_key"@ != "passphrase"@,
        "private_key"@.len() == 11,
        "redirect_url"@.len() == 12,
        "client_secret"@.len() == 13,
{
    reveal_strlit("url");
    reveal_strlit("key");
    reveal_strlit("notes");
    reveal_strlit("scopes");
    reveal_strlit("content");
    reveal_strlit("username");
    reveal_strlit("password");
    reveal_strlit("totp_seed");
    reveal_strlit("client_id");
    reveal_strlit("public_key");
    reveal_strlit("passphrase");
    reveal_strlit("private_key");
    reveal_strlit("redirect_url");
    reveal_strlit("client_secret");
    assert("key"@[0] != "url"@[0]);
    assert("username"@[0] != "password"@[0]);
    assert("public_key"@[1] != "passphrase"@[1]);
}

/// Each field of a login is its component of that name, whatever the others are,
/// and it has no other fields.
pub proof fn law_login_fields_are_its_components(
    url: String,
    username: String,
    password: String,
    seed: String,
    name: Seq<char>,
)
    ensures
        forall|totp_seed: Option<String>|
            {
                let login = #[trigger] (SecretValue::Login { url, username, password, totp_seed })@;
                &&& login.field("url"@) == Some(url@)
                &&& login.field("username"@) == Some(username@)
                &&& login.field("password"@) == Some(password@)
            },
        (SecretValue::Login { url, username, password, totp_seed: Some(seed) })@.field(
            "totp_seed"@,
        ) == Some(seed@),
        (SecretValue::Login { url, username, password, totp_seed: None })@.field("totp_seed"@)
            is None,
        forall|totp_seed: Option<String>|
            name != "url"@ && name != "username"@ && name != "password"@ && name != "totp_seed"@
                ==> (#[trigger] (SecretValue::Login { url, username, password, totp_seed })@).field(
                name,
            ) is None,
{
    lemma_names();
}

/// Each field of an API key is its component of that name, whatever the others
/// are, and it has no other fields.
pub proof fn law_api_key_fields_are_its_components(
    key: String,
    url: Option<String>,
    notes: Option<String>,
    text: String,
    name: Seq<char>,
)
    ensures
        (SecretValue::ApiKey { key, url, notes })@.field("key"@) == Some(key@),
        (SecretValue::ApiKey { key, url: Some(text), notes })@.field("url"@) == Some(text@),
        (SecretValue::ApiKey { key, url: None, notes })@.field("url"@) is None,
        (SecretValue::ApiKey { key, url, notes: Some(text) })@.field("notes"@) == Some(text@),
        (SecretValue::ApiKey { key, url, notes: None })@.field("notes"@) is None,
        name != "key"@ && name != "url"@ && name != "notes"@ ==> (SecretValue::ApiKey {
            key,
            url,
            notes,
        })@.field(name) is None,
        (SecretValue::ApiKey { key, url, notes })@.bare() == Some(key@),
{
    lemma_names();
}

/// Each field of an OAuth application is its component of that name, whatever the
/// others are; its scopes are joined by commas. It has no other fields.
pub proof fn law_oauth_fields_are_its_components(
    client_id: String,
    client_secret: String,
    redirect_url: Option<String>,
    scopes: Option<Vec<String>>,
    text: String,
    list: Vec<String>,
    name: Seq<char>,
)
    ensures
        ({
            let app = (SecretValue::OAuthApp { client_id, client_secret, redirect_url, scopes })@;
            &&& app.field("client_id"@) == Some(client_id@)
            &&& app.field("client_secret"@) == Some(client_secret@)
            &&& name != "client_id"@ && name != "client_secret"@ && name != "redirect_url"@ && name
                != "scopes"@ ==> app.field(name) is None
            &&& app.bare() is None
        }),
        (SecretValue::OAuthApp { client_id, client_secret, redirect_url: Some(text), scopes })@.field(
        "redirect_url"@) == Some(text@),
        (SecretValue::OAuthApp { client_id, client_secret, redirect_url: None, scopes })@.field(
            "redirect_url"@,
        ) is None,
        (SecretValue::OAuthApp {
            client_id,
            client_secret,
            redirect_url,
            scopes: Some(list),
        })@.field("scopes"@) == Some(joined(texts(list@), ","@)),
        (SecretValue::OAuthApp { client_id, client_secret, redirect_url, scopes: None })@.field(
            "scopes"@,
        ) is None,
{
    lemma_names();
}

/// Each field of an SSH key is its component of that name, whatever the others
/// are, and it has no other fields.
pub proof fn law_ssh_key_fields_are_its_components(
    private_key: String,
    public_key: Option<String>,
    passphrase: Option<String>,
    text: String,
    name: Seq<char>,
)
    ensures
        ({
            let ssh = (SecretValue::SshKey { private_key, public_key, passphrase })@;
            &&& ssh.field("private_key"@) == Some(private_key@)
            &&& name != "private_key"@ && name != "public_key"@ && name != "passphrase"@
                ==> ssh.field(name) is None
            &&& ssh.bare() is None
        }),
        (SecretValue::SshKey { private_key, public_key: Some(text), passphrase })@.field(
            "public_key"@,
        ) == Some(text@),
        (SecretValue::SshKey { private_key, public_key: None, passphrase })@.field("public_key"@)
            is None,
        (SecretValue::SshKey { private_key, public_key, passphrase: Some(text) })@.field(
            "passphrase"@,
        ) == Some(text@),
        (SecretValue::SshKey { private_key, public_key, passphrase: None })@.field("passphrase"@)
            is None,
{
    lemma_names();
}

/// A note has one field, its content, and stands for it; the fields of a set of
/// variables are the variables.
pub proof fn law_note_and_variable_fields(content: String, vars: EnvVars, name: Seq<char>)
    ensures
        (SecretValue::Note { content })@.field("content"@) == Some(content@),
        name != "content"@ ==> (SecretValue::Note { content })@.field(name) is None,
        (SecretValue::Note { content })@.bare() == Some(content@),
        (SecretValue::Environment { vars })@.bare() is None,
        forall|i: int|
            names_distinct(vars@) && 0 <= i < vars@.len() ==> (SecretValue::Environment {
                vars,
            })@.field((#[trigger] vars@[i]).0) == Some(vars@[i].1),
        (forall|i: int| 0 <= i < vars@.len() ==> (#[trigger] vars@[i]).0 != name)
            ==> (SecretValue::Environment { vars })@.field(name) is None,
{
    law_lookup_gives_the_value_beside_the_name(vars@, name);
}

/// A login does not stand alone.
pub proof fn law_login_does_not_stand_alone(
    url: String,
    username: String,
    password: String,
    totp_seed: Option<String>,
)
    ensures
        (SecretValue::Login { url, username, password, totp_seed })@.bare() is None,
{
}

/// Looking up a name gives the value that stands beside it, and nothing where the
/// name is not there.
pub proof fn law_lookup_gives_the_value_beside_the_name(
    vars: Seq<(Seq<char>, Seq<char>)>,
    name: Seq<char>,
)
    ensures
        forall|i: int|
            names_distinct(vars) && 0 <= i < vars.len() ==> lookup(vars, (#[trigger] vars[i]).0)
                == Some(vars[i].1),
        (forall|i: int| 0 <= i < vars.len() ==> (#[trigger] vars[i]).0 != name) ==> lookup(
            vars,
            name,
        ) is None,
{
    assert forall|i: int| names_distinct(vars) && 0 <= i < vars.len() implies lookup(
        vars,
        (#[trigger] vars[i]).0,
    ) == Some(vars[i].1) by {
        let n = vars[i].0;
        assert(named_at(vars, n, i));
        let k = choose|k: int| named_at(vars, n, k);
        assert(named_at(vars, n, k));
        if k < i {
            assert(vars[k].0 != vars[i].0);
        }
        if i < k {
            assert(vars[i].0 != vars[k].0);
        }
    }
}

/// Setting a variable puts the pair where the name stood, or at the end where it
/// was not there, and moves nothing else.
pub proof fn law_setting_a_variable_moves_nothing(
    vars: Seq<(Seq<char>, Seq<char>)>,
    name: Seq<char>,
    value: Seq<char>,
    at: int,
)
    requires
        names_distinct(vars),
    ensures
        0 <= at < vars.len() && vars[at].0 == name ==> with_entry(vars, name, value) == vars.update(
            at,
            (name, value),
        ),
        (forall|i: int| 0 <= i < vars.len() ==> (#[trigger] vars[i]).0 != name) ==> with_entry(
            vars,
            name,
            value,
        ) == vars.push((name, value)),
{
    if 0 <= at < vars.len() && vars[at].0 == name {
        assert(named_at(vars, name, at));
        let k = choose|k: int| named_at(vars, name, k);
        assert(named_at(vars, name, k));
        if k < at {
            assert(vars[k].0 != vars[at].0);
        }
        if at < k {
            assert(vars[at].0 != vars[k].0);
        }
    }
}

/// The texts of pairs of strings are their characters, the names of pairs their
/// first parts.
pub proof fn law_pairs_are_their_texts(
    entries: Seq<(String, String)>,
    vars: Seq<(Seq<char>, Seq<char>)>,
)
    ensures
        pair_texts(entries).len() == entries.len(),
        forall|i: int|
            0 <= i < entries.len() ==> #[trigger] pair_texts(entries)[i] == (
                entries[i].0@,
                entries[i].1@,
            ),
        names_of(vars).len() == vars.len(),
        forall|i: int| 0 <= i < vars.len() ==> #[trigger] names_of(vars)[i] == vars[i].0,
        names_distinct(vars) <==> forall|i: int, j: int|
            0 <= i < vars.len() && 0 <= j < vars.len() && (#[trigger] vars[i]).0 == (
            #[trigger] vars[j]).0 ==> i == j,
{
    if names_distinct(vars) {
        assert forall|i: int, j: int|
            0 <= i < vars.len() && 0 <= j < vars.len() && (#[trigger] vars[i]).0 == (
            #[trigger] vars[j]).0 implies i == j by {
            if i < j {
                assert(vars[i].0 != vars[j].0);
            }
            if j < i {
                assert(vars[j].0 != vars[i].0);
            }
        }
    }
}

// ---------------------------------------------------------------------------
// Names
// ---------------------------------------------------------------------------

/// `names`, and `last` behind them where it is there.
pub open spec fn and_if(names: Seq<Seq<char>>, there: bool, last: Seq<char>) -> Seq<Seq<char>> {
    if there {
        names.push(last)
    } else {
        names
    }
}

/// Each value is called by its type, and lists the fields that it has.
pub proof fn law_values_list_what_they_have(value: SecretValue)
    ensures
        match value {
            SecretValue::Login { totp_seed, .. } => {
                &&& value@.type_label() == "Login"@
                &&& value@.field_names() == and_if(
                    seq!["url"@, "username"@, "password"@],
                    totp_seed is Some,
                    "totp_seed"@,
                )
            },
            SecretValue::ApiKey { url, notes, .. } => {
                &&& value@.type_label() == "ApiKey"@
                &&& value@.field_names() == and_if(
                    and_if(seq!["key"@], url is Some, "url"@),
                    notes is Some,
                    "notes"@,
                )
            },
            SecretValue::OAuthApp { redirect_url, scopes, .. } => {
                &&& value@.type_label() == "OAuthApp"@
                &&& value@.field_names() == and_if(
                    and_if(
                        seq!["client_id"@, "client_secret"@],
                        redirect_url is Some,
                        "redirect_url"@,
                    ),
                    scopes is Some,
                    "scopes"@,
                )
            },
            SecretValue::SshKey { public_key, passphrase, .. } => {
                &&& value@.type_label() == "SshKey"@
                &&& value@.field_names() == and_if(
                    and_if(seq!["private_key"@], public_key is Some, "public_key"@),
                    passphrase is Some,
                    "passphrase"@,
                )
            },
            SecretValue::Note { .. } => {
                &&& value@.type_label() == "Note"@
                &&& value@.field_names() == seq!["content"@]
            },
            SecretValue::Environment { vars } => {
                &&& value@.type_label() == "Environment"@
                &&& value@.field_names().len() == vars@.len()
                &&& forall|i: int|
                    0 <= i < vars@.len() ==> #[trigger] value@.field_names()[i] == vars@[i].0
            },
        },
{
    match value {
        SecretValue::Login { totp_seed, .. } => {
            assert(value@.field_names() =~= and_if(
                seq!["url"@, "username"@, "password"@],
                totp_seed is Some,
                "totp_seed"@,
            ));
        },
        SecretValue::ApiKey { url, notes, .. } => {
            assert(value@.field_names() =~= and_if(
                and_if(seq!["key"@], url is Some, "url"@),
                notes is Some,
                "notes"@,
            ));
        },
        SecretValue::OAuthApp { redirect_url, scopes, .. } => {
            assert(value@.field_names() =~= and_if(
                and_if(
                    seq!["client_id"@, "client_secret"@],
                    redirect_url is Some,
                    "redirect_url"@,
                ),
                scopes is Some,
                "scopes"@,
            ));
        },
        SecretValue::SshKey { public_key, passphrase, .. } => {
            assert(value@.field_names() =~= and_if(
                and_if(seq!["private_key"@], public_key is Some, "public_key"@),
                passphrase is Some,
                "passphrase"@,
            ));
        },
        _ => {},
    }
}

// ---------------------------------------------------------------------------
// Previews
// ---------------------------------------------------------------------------

/// What the preview of each value shows, in one line: the user and address of a
/// login, both ends of an API key, the client id of an OAuth application, the
/// start of a note, the names of variables, and nothing of an SSH key.
pub proof fn law_previews_show(value: SecretValue)
    ensures
        match value {
            SecretValue::Login { username, url, .. } => value@.preview() == one_line(
                username@ + " @ "@ + url@,
            ),
            SecretValue::ApiKey { key, .. } => {
                let bytes = encode_utf8(key@);
                let n = bytes.len() as int;
                &&& n >= 2 ==> value@.preview() == one_line(
                    decode_utf8(bytes.take(2)) + "..."@ + decode_utf8(bytes.skip(n - 2)),
                )
                &&& n < 2 ==> value@.preview() == one_line(key@ + "..."@ + key@)
            },
            SecretValue::OAuthApp { client_id, .. } => value@.preview() == one_line(
                "client_id="@ + client_id@,
            ),
            SecretValue::SshKey { .. } => value@.preview() == one_line("[private key]"@),
            SecretValue::Note { content } => {
                let bytes = encode_utf8(content@);
                &&& bytes.len() >= 40 ==> value@.preview() == one_line(
                    decode_utf8(bytes.take(40)) + "..."@,
                )
                &&& bytes.len() < 40 ==> value@.preview() == one_line(content@ + "..."@)
            },
            SecretValue::Environment { vars } => exists|items: Seq<Seq<char>>|
                {
                    &&& value@.preview() == one_line(#[trigger] joined(items, ", "@))
                    &&& items.len() == vars@.len()
                    &&& forall|i: int|
                        0 <= i < vars@.len() ==> #[trigger] items[i] == vars@[i].0 + "=***"@
                },
        },
{
    match value {
        SecretValue::ApiKey { key, .. } => {
            let bytes = encode_utf8(key@);
            let n = bytes.len() as int;
            encode_utf8_decode_utf8(key@);
            if n >= 2 {
                assert(bytes.subrange(0, 2) =~= bytes.take(2));
                assert(bytes.subrange(n - 2, n) =~= bytes.skip(n - 2));
            } else {
                assert(bytes.subrange(0, n) =~= bytes);
            }
        },
        SecretValue::Note { content } => {
            let bytes = encode_utf8(content@);
            encode_utf8_decode_utf8(content@);
            if bytes.len() >= 40 {
                assert(bytes.subrange(0, 40) =~= bytes.take(40));
            } else {
                assert(bytes.subrange(0, bytes.len() as int) =~= bytes);
            }
        },
        SecretValue::Environment { vars } => {
            let items = names_of(vars@).map_values(|n: Seq<char>| masked(n));
            assert(value@.preview() == one_line(joined(items, ", "@)));
        },
        _ => {},
    }
}

/// A preview can be made exactly where the ends that it shows of an API key, or
/// the start that it shows of a note, end between characters.
pub proof fn law_previews_can_be_made(value: SecretValue)
    ensures
        match value {
            SecretValue::ApiKey { key, .. } => {
                let bytes = encode_utf8(key@);
                let n = bytes.len() as int;
                value@.previewable() <==> n < 2 || (is_char_boundary(bytes, 2) && is_char_boundary(
                    bytes,
                    n - 2,
                ))
            },
            SecretValue::Note { content } => {
                let bytes = encode_utf8(content@);
                value@.previewable() <==> bytes.len() < 40 || is_char_boundary(bytes, 40)
            },
            _ => value@.previewable(),
        },
{
    match value {
        SecretValue::ApiKey { key, .. } => {
            encode_utf8_valid_utf8(key@);
            is_char_boundary_start_end_of_seq(encode_utf8(key@));
        },
        SecretValue::Note { content } => {
            encode_utf8_valid_utf8(content@);
            is_char_boundary_start_end_of_seq(encode_utf8(content@));
        },
        _ => {},
    }
}

// ---------------------------------------------------------------------------
// Callers and memories
// ---------------------------------------------------------------------------

/// The owner is the owner and nobody else; an agent goes by its own name.
pub proof fn law_callers_are_who_they_are(id: String)
    ensures
        AuthLevel::Owner@ is Owner,
        !(AuthLevel::Owner@ is Agent),
        AuthLevel::Owner@.display_name() == "owner"@,
        AuthLevel::Agent(id)@ is Agent,
        !(AuthLevel::Agent(id)@ is Owner),
        AuthLevel::Agent(id)@ == AuthModel::Agent(id@),
        AuthLevel::Agent(id)@.display_name() == "agent:"@ + id@,
{
}

/// Memories are taken as they are, each of them.
pub proof fn law_memories_are_taken_as_they_are(memories: Seq<EngramMemory>)
    ensures
        memory_models(memories).len() == memories.len(),
        forall|i: int|
            0 <= i < memories.len() ==> {
                let m = memories[i];
                let model = #[trigger] memory_models(memories)[i];
                &&& model.id == m.id
                &&& model.content == m.content@
                &&& model.category == m.category@
                &&& model.importance == m.importance
                &&& match (m.created_at, model.created_at) {
                    (Some(a), Some(b)) => b == a@,
                    (None, None) => true,
                    _ => false,
                }
                &&& match (m.source, model.source) {
                    (Some(a), Some(b)) => b == a@,
                    (None, None) => true,
                    _ => false,
                }
            },
{
}

// ---------------------------------------------------------------------------
// Errors
// ---------------------------------------------------------------------------

/// An error that carries something carries it unchanged, and says it.
pub proof fn law_errors_say_what_they_carry(
    op: EngramOp,
    a: String,
    b: String,
    n: usize,
    why: HexRefusal,
)
    ensures
        (CredError::EngramRefused { op, status: a, body: b })@ == (ErrorModel::EngramRefused {
            op,
            status: a@,
            body: b@,
        }),
        (CredError::EngramRefused { op, status: a, body: b })@.message() == "Engram "@ + (match op {
            EngramOp::List => "list"@,
            EngramOp::Store => "store"@,
            EngramOp::Delete => "delete"@,
        }) + " failed ("@ + a@ + "): "@ + b@,
        (CredError::SecretNotFound { service: a, key: b })@ == (ErrorModel::SecretNotFound {
            service: a@,
            key: b@,
        }),
        (CredError::SecretNotFound { service: a, key: b })@.message() == "secret not found: "@ + a@
            + "/"@ + b@,
        (CredError::YubikeyFailed { context: a, cause: b })@ == (ErrorModel::YubikeyFailed {
            context: a@,
            cause: b@,
        }),
        (CredError::YubikeyFailed { context: a, cause: b })@.message() == a@,
        CredError::InvalidHexResponse(why)@ == ErrorModel::InvalidHexResponse(why),
        CredError::InvalidHexResponse(why)@.message() == "invalid hex response from YubiKey"@,
        CredError::ResponseLength(n)@ == ErrorModel::ResponseLength(n as int),
        CredError::ResponseLength(n)@.message() == "unexpected HMAC response length: "@ + decimal(
            n as nat,
        ) + " (expected 20)"@,
        CredError::Outside(a)@ == ErrorModel::Outside(a@),
        CredError::Outside(a)@.message() == a@,
{
}

/// What each of the other errors says.
pub proof fn law_what_errors_say(e: CredError)
    ensures
        e is EngramUrlNotSet ==> e@ is EngramUrlNotSet && e@.message() == "ENGRAM_URL not set"@,
        e is EngramKeyNotSet ==> e@ is EngramKeyNotSet && e@.message() == "ENGRAM_API_KEY not set"@,
        e is NoEncryptionKey ==> e@ is NoEncryptionKey && e@.message()
            == "no encryption key -- is the YubiKey plugged in?"@,
        e is EngramUnreachable ==> e@ is EngramUnreachable && e@.message()
            == "failed to reach Engram"@,
        e is NoEngramId ==> e@ is NoEngramId && e@.message() == "secret has no engram_id"@,
        e is HmacSecretLength ==> e@ is HmacSecretLength && e@.message()
            == "HMAC secret must be exactly 20 bytes"@,
        e is ChallengeUnreadable ==> e@ is ChallengeUnreadable && e@.message()
            == "failed to read challenge file"@,
        e is NoRandomBytes ==> e@ is NoRandomBytes && e@.message()
            == "failed to get random bytes for a challenge"@,
{
}

} // verus!
