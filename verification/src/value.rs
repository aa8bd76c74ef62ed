//! Secret values: what a secret holds, and how it is shown without showing it.
use crate::text::{concat3, join, joined, one_line, opt_text, text_eq, texts, unbroken};
use vstd::prelude::*;
use vstd::utf8::*;

verus! {

// ---------------------------------------------------------------------------
// Environment variables
// ---------------------------------------------------------------------------

/// Named values, each name at most once, in the order in which the names came.
#[derive(Debug)]
pub struct EnvVars {
    entries: Vec<(String, String)>,
}

/// The names and values of a list of pairs.
pub open spec fn pair_texts(entries: Seq<(String, String)>) -> Seq<(Seq<char>, Seq<char>)> {
    entries.map_values(|p: (String, String)| (p.0@, p.1@))
}

/// No name occurs twice.
pub open spec fn names_distinct(vars: Seq<(Seq<char>, Seq<char>)>) -> bool {
    forall|i: int, j: int|
        0 <= i < j < vars.len() ==> (#[trigger] vars[i]).0 != (#[trigger] vars[j]).0
}

/// `name` is the name at position `i`.
pub open spec fn named_at(vars: Seq<(Seq<char>, Seq<char>)>, name: Seq<char>, i: int) -> bool {
    0 <= i < vars.len() && vars[i].0 == name
}

/// The value under `name`, if there is one.
pub open spec fn lookup(vars: Seq<(Seq<char>, Seq<char>)>, name: Seq<char>) -> Option<Seq<char>> {
    if exists|i: int| named_at(vars, name, i) {
        Some(vars[choose|i: int| named_at(vars, name, i)].1)
    } else {
        None
    }
}

/// `vars` with `value` under `name`: in the old place where the name was there
/// before, at the end where it was not.
pub open spec fn with_entry(
    vars: Seq<(Seq<char>, Seq<char>)>,
    name: Seq<char>,
    value: Seq<char>,
) -> Seq<(Seq<char>, Seq<char>)> {
    if exists|i: int| named_at(vars, name, i) {
        vars.update(choose|i: int| named_at(vars, name, i), (name, value))
    } else {
        vars.push((name, value))
    }
}

/// The names, in order.
pub open spec fn names_of(vars: Seq<(Seq<char>, Seq<char>)>) -> Seq<Seq<char>> {
    vars.map_values(|p: (Seq<char>, Seq<char>)| p.0)
}

impl View for EnvVars {
    type V = Seq<(Seq<char>, Seq<char>)>;

    closed spec fn view(&self) -> Self::V {
        pair_texts(self.entries@)
    }
}

impl EnvVars {
    /// No name occurs twice.
    #[verifier::type_invariant]
    spec fn well_formed(self) -> bool {
        names_distinct(pair_texts(self.entries@))
    }

    /// No variables.
    pub fn new() -> (r: EnvVars)
        ensures
            r@ == Seq::<(Seq<char>, Seq<char>)>::empty(),
    {
        let entries: Vec<(String, String)> = Vec::new();
        assert(pair_texts(entries@) =~= Seq::<(Seq<char>, Seq<char>)>::empty());
        EnvVars { entries }
    }

    /// The position of `name`.
    fn position(&self, name: &str) -> (r: Option<usize>)
        ensures
            match r {
                Some(i) => named_at(self@, name@, i as int),
                None => forall|i: int| !#[trigger] named_at(self@, name@, i),
            },
    {
        let mut i: usize = 0;
        while i < self.entries.len()
            invariant
                i <= self.entries@.len(),
                forall|j: int| 0 <= j < i ==> !#[trigger] named_at(self@, name@, j),
            decreases self.entries@.len() - i,
        {
            if text_eq(self.entries[i].0.as_str(), name) {
                return Some(i);
            }
            i = i + 1;
        }
        None
    }

    /// Sets the value under `name`. A name that is there keeps its place.
    pub fn insert(&mut self, name: String, value: String)
        ensures
            final(self)@ == with_entry(old(self)@, name@, value@),
    {
        proof {
            use_type_invariant(&*self);
        }
        let ghost before = self@;
        let at = self.position(name.as_str());
        assert(at is None ==> forall|i: int| !#[trigger] named_at(before, name@, i));
        let mut entries: Vec<(String, String)> = Vec::new();
        std::mem::swap(&mut self.entries, &mut entries);
        match at {
            Some(i) => {
                proof {
                    lemma_name_unique(before, name@, i as int);
                }
                entries[i] = (name, value);
                assert(pair_texts(entries@) =~= before.update(i as int, (name@, value@)));
            },
            None => {
                entries.push((name, value));
                assert(pair_texts(entries@) =~= before.push((name@, value@)));
                assert forall|i: int, j: int|
                    0 <= i < j < pair_texts(entries@).len() implies (#[trigger] pair_texts(
                    entries@,
                )[i]).0 != (#[trigger] pair_texts(entries@)[j]).0 by {
                    assert(!named_at(before, name@, i));
                }
            },
        }
        self.entries = entries;
    }

    /// The value under `name`.
    pub fn get(&self, name: &str) -> (r: Option<String>)
        ensures
            opt_text(r) == lookup(self@, name@),
            names_distinct(self@),
    {
        proof {
            use_type_invariant(self);
        }
        match self.position(name) {
            Some(i) => {
                proof {
                    lemma_name_unique(self@, name@, i as int);
                }
                Some(self.entries[i].1.clone())
            },
            None => None,
        }
    }

    /// The names, in order.
    pub fn names(&self) -> (r: Vec<String>)
        ensures
            texts(r@) == names_of(self@),
            names_distinct(self@),
    {
        proof {
            use_type_invariant(self);
        }
        let mut r: Vec<String> = Vec::new();
        let mut i: usize = 0;
        while i < self.entries.len()
            invariant
                i <= self.entries@.len(),
                r@.len() == i,
                forall|j: int| 0 <= j < i ==> (#[trigger] r@[j])@ == self@[j].0,
            decreases self.entries@.len() - i,
        {
            r.push(self.entries[i].0.clone());
            i = i + 1;
        }
        assert(texts(r@) =~= names_of(self@));
        r
    }

    /// The names and values, in order.
    pub fn into_entries(self) -> (r: Vec<(String, String)>)
        ensures
            pair_texts(r@) == self@,
            names_distinct(pair_texts(r@)),
    {
        proof {
            use_type_invariant(&self);
        }
        self.entries
    }
}

impl Clone for EnvVars {
    fn clone(&self) -> (r: EnvVars)
        ensures
            r@ == self@,
    {
        proof {
            use_type_invariant(self);
        }
        let mut entries: Vec<(String, String)> = Vec::new();
        let mut i: usize = 0;
        while i < self.entries.len()
            invariant
                i <= self.entries@.len(),
                entries@.len() == i,
                forall|j: int|
                    0 <= j < i ==> (#[trigger] entries@[j]).0@ == self@[j].0 && entries@[j].1@
                        == self@[j].1,
            decreases self.entries@.len() - i,
        {
            entries.push((self.entries[i].0.clone(), self.entries[i].1.clone()));
            i = i + 1;
        }
        assert(pair_texts(entries@) =~= self@);
        EnvVars { entries }
    }
}

proof fn lemma_name_unique(vars: Seq<(Seq<char>, Seq<char>)>, name: Seq<char>, i: int)
    requires
        names_distinct(vars),
        named_at(vars, name, i),
    ensures
        (choose|k: int| named_at(vars, name, k)) == i,
{
    let k = choose|k: int| named_at(vars, name, k);
    assert(named_at(vars, name, k));
    if k < i {
        assert(vars[k].0 != vars[i].0);
    }
    if i < k {
        assert(vars[i].0 != vars[k].0);
    }
}

// ---------------------------------------------------------------------------
// Secret values
// ---------------------------------------------------------------------------

/// The actual secret payload.
#[derive(Debug, Clone)]
pub enum SecretValue {
    Login { url: String, username: String, password: String, totp_seed: Option<String> },
    ApiKey { key: String, url: Option<String>, notes: Option<String> },
    OAuthApp {
        client_id: String,
        client_secret: String,
        redirect_url: Option<String>,
        scopes: Option<Vec<String>>,
    },
    SshKey { private_key: String, public_key: Option<String>, passphrase: Option<String> },
    Note { content: String },
    Environment { vars: EnvVars },
}

/// A secret value as text.
pub enum ValueModel {
    Login {
        url: Seq<char>,
        username: Seq<char>,
        password: Seq<char>,
        totp_seed: Option<Seq<char>>,
    },
    ApiKey { key: Seq<char>, url: Option<Seq<char>>, notes: Option<Seq<char>> },
    OAuthApp {
        client_id: Seq<char>,
        client_secret: Seq<char>,
        redirect_url: Option<Seq<char>>,
        scopes: Option<Seq<Seq<char>>>,
    },
    SshKey {
        private_key: Seq<char>,
        public_key: Option<Seq<char>>,
        passphrase: Option<Seq<char>>,
    },
    Note { content: Seq<char> },
    Environment { vars: Seq<(Seq<char>, Seq<char>)> },
}

impl View for SecretValue {
    type V = ValueModel;

    open spec fn view(&self) -> ValueModel {
        match *self {
            SecretValue::Login { url, username, password, totp_seed } => ValueModel::Login {
                url: url@,
                username: username@,
                password: password@,
                totp_seed: opt_text(totp_seed),
            },
            SecretValue::ApiKey { key, url, notes } => ValueModel::ApiKey {
                key: key@,
                url: opt_text(url),
                notes: opt_text(notes),
            },
            SecretValue::OAuthApp {
                client_id,
                client_secret,
                redirect_url,
                scopes,
            } => ValueModel::OAuthApp {
                client_id: client_id@,
                client_secret: client_secret@,
                redirect_url: opt_text(redirect_url),
                scopes: match scopes {
                    Some(list) => Some(texts(list@)),
                    None => None,
                },
            },
            SecretValue::SshKey { private_key, public_key, passphrase } => ValueModel::SshKey {
                private_key: private_key@,
                public_key: opt_text(public_key),
                passphrase: opt_text(passphrase),
            },
            SecretValue::Note { content } => ValueModel::Note { content: content@ },
            SecretValue::Environment { vars } => ValueModel::Environment { vars: vars@ },
        }
    }
}

/// `name` alone where the field is there, nothing where it is not.
pub open spec fn name_if(present: bool, name: Seq<char>) -> Seq<Seq<char>> {
    if present {
        seq![name]
    } else {
        Seq::empty()
    }
}

/// The smaller of two numbers.
pub open spec fn at_most(n: int, limit: int) -> int {
    if n < limit {
        n
    } else {
        limit
    }
}

/// A byte range of a text, as text.
pub open spec fn byte_range(s: Seq<char>, from: int, to: int) -> Seq<char> {
    decode_utf8(encode_utf8(s).subrange(from, to))
}

/// How many bytes a text takes.
pub open spec fn byte_len(s: Seq<char>) -> int {
    encode_utf8(s).len() as int
}

/// The first `n` bytes of a text, or all of them where there are fewer.
pub open spec fn byte_prefix(s: Seq<char>, n: int) -> Seq<char> {
    byte_range(s, 0, at_most(byte_len(s), n))
}

/// Where the last two bytes of a text start.
pub open spec fn last_two(s: Seq<char>) -> int {
    byte_len(s) - at_most(byte_len(s), 2)
}

/// A name shown with its value masked.
pub open spec fn masked(name: Seq<char>) -> Seq<char> {
    name + "=***"@
}

impl ValueModel {
    /// The name of the kind of value.
    pub open spec fn type_label(self) -> Seq<char> {
        match self {
            ValueModel::Login { .. } => "Login"@,
            ValueModel::ApiKey { .. } => "ApiKey"@,
            ValueModel::OAuthApp { .. } => "OAuthApp"@,
            ValueModel::SshKey { .. } => "SshKey"@,
            ValueModel::Note { .. } => "Note"@,
            ValueModel::Environment { .. } => "Environment"@,
        }
    }

    /// The names of the fields that are there.
    pub open spec fn field_names(self) -> Seq<Seq<char>> {
        match self {
            ValueModel::Login { totp_seed, .. } => seq!["url"@, "username"@, "password"@] + name_if(
                totp_seed is Some,
                "totp_seed"@,
            ),
            ValueModel::ApiKey { url, notes, .. } => seq!["key"@] + name_if(url is Some, "url"@)
                + name_if(notes is Some, "notes"@),
            ValueModel::OAuthApp { redirect_url, scopes, .. } => seq![
                "client_id"@,
                "client_secret"@,
            ] + name_if(redirect_url is Some, "redirect_url"@) + name_if(
                scopes is Some,
                "scopes"@,
            ),
            ValueModel::SshKey { public_key, passphrase, .. } => seq!["private_key"@] + name_if(
                public_key is Some,
                "public_key"@,
            ) + name_if(passphrase is Some, "passphrase"@),
            ValueModel::Note { .. } => seq!["content"@],
            ValueModel::Environment { vars } => names_of(vars),
        }
    }

    /// The value of the field `name`, if it is there.
    pub open spec fn field(self, name: Seq<char>) -> Option<Seq<char>> {
        match self {
            ValueModel::Login { url, username, password, totp_seed } => if name == "url"@ {
                Some(url)
            } else if name == "username"@ {
                Some(username)
            } else if name == "password"@ {
                Some(password)
            } else if name == "totp_seed"@ {
                totp_seed
            } else {
                None
            },
            ValueModel::ApiKey { key, url, notes } => if name == "key"@ {
                Some(key)
            } else if name == "url"@ {
                url
            } else if name == "notes"@ {
                notes
            } else {
                None
            },
            ValueModel::OAuthApp { client_id, client_secret, redirect_url, scopes } => if name
                == "client_id"@ {
                Some(client_id)
            } else if name == "client_secret"@ {
                Some(client_secret)
            } else if name == "redirect_url"@ {
                redirect_url
            } else if name == "scopes"@ {
                match scopes {
                    Some(list) => Some(joined(list, ","@)),
                    None => None,
                }
            } else {
                None
            },
            ValueModel::SshKey { private_key, public_key, passphrase } => if name
                == "private_key"@ {
                Some(private_key)
            } else if name == "public_key"@ {
                public_key
            } else if name == "passphrase"@ {
                passphrase
            } else {
                None
            },
            ValueModel::Note { content } => if name == "content"@ {
                Some(content)
            } else {
                None
            },
            ValueModel::Environment { vars } => lookup(vars, name),
        }
    }

    /// What a reference without a field name stands for, if it may stand alone.
    pub open spec fn bare(self) -> Option<Seq<char>> {
        match self {
            ValueModel::ApiKey { key, .. } => Some(key),
            ValueModel::Note { content } => Some(content),
            _ => None,
        }
    }

    /// The bytes at which the preview cuts the value lie between characters.
    pub open spec fn previewable(self) -> bool {
        match self {
            ValueModel::ApiKey { key, .. } => {
                &&& is_char_boundary(encode_utf8(key), at_most(byte_len(key), 2))
                &&& is_char_boundary(encode_utf8(key), last_two(key))
            },
            ValueModel::Note { content } => is_char_boundary(
                encode_utf8(content),
                at_most(byte_len(content), 40),
            ),
            _ => true,
        }
    }

    /// What shows of the value, with the secret parts left out.
    pub open spec fn shown(self) -> Seq<char> {
        match self {
            ValueModel::Login { username, url, .. } => username + " @ "@ + url,
            ValueModel::ApiKey { key, .. } => byte_prefix(key, 2) + "..."@ + byte_range(
                key,
                last_two(key),
                byte_len(key),
            ),
            ValueModel::OAuthApp { client_id, .. } => "client_id="@ + client_id,
            ValueModel::SshKey { .. } => "[private key]"@,
            ValueModel::Note { content } => byte_prefix(content, 40) + "..."@,
            ValueModel::Environment { vars } => joined(
                names_of(vars).map_values(|n: Seq<char>| masked(n)),
                ", "@,
            ),
        }
    }

    /// One line that shows what the value is, with the secret parts left out.
    pub open spec fn preview(self) -> Seq<char> {
        one_line(self.shown())
    }
}

/// `s` cut after its first `n` bytes.
fn cut_after<'a>(s: &'a str, n: usize) -> (r: &'a str)
    requires
        is_char_boundary(encode_utf8(s@), n as int),
    ensures
        r@ == byte_range(s@, 0, n as int),
{
    broadcast use encode_utf8_decode_utf8;

    let (before, _after) = s.split_at(n);
    assert(encode_utf8(before@) == encode_utf8(s@).subrange(0, n as int));
    before
}

/// `s` from byte `n` on.
fn cut_before<'a>(s: &'a str, n: usize) -> (r: &'a str)
    requires
        is_char_boundary(encode_utf8(s@), n as int),
    ensures
        r@ == byte_range(s@, n as int, byte_len(s@)),
{
    broadcast use encode_utf8_decode_utf8;

    let (_before, after) = s.split_at(n);
    assert(encode_utf8(after@) == encode_utf8(s@).subrange(n as int, byte_len(s@)));
    after
}

/// How many bytes `s` takes, but at most `limit`.
fn len_at_most(s: &str, limit: usize) -> (r: usize)
    ensures
        r == at_most(byte_len(s@), limit as int),
{
    let n: usize = s.as_bytes().len();
    if n < limit {
        n
    } else {
        limit
    }
}

/// Where the last two bytes of `s` start.
fn last_two_at(s: &str) -> (r: usize)
    ensures
        r == last_two(s@),
{
    let n: usize = s.as_bytes().len();
    if n < 2 {
        0
    } else {
        n - 2
    }
}

impl SecretValue {
    /// The type name for display and list output.
    pub fn type_label(&self) -> (r: &'static str)
        ensures
            r@ == self@.type_label(),
    {
        match self {
            SecretValue::Login { .. } => "Login",
            SecretValue::ApiKey { .. } => "ApiKey",
            SecretValue::OAuthApp { .. } => "OAuthApp",
            SecretValue::SshKey { .. } => "SshKey",
            SecretValue::Note { .. } => "Note",
            SecretValue::Environment { .. } => "Environment",
        }
    }

    /// Field names for list display (values never shown).
    pub fn field_names(&self) -> (r: Vec<String>)
        ensures
            texts(r@) == self@.field_names(),
            self@.field_names().no_duplicates(),
    {
        let mut f: Vec<String> = Vec::new();
        match self {
            SecretValue::Login { totp_seed, .. } => {
                f.push("url".to_owned());
                f.push("username".to_owned());
                f.push("password".to_owned());
                if totp_seed.is_some() {
                    f.push("totp_seed".to_owned());
                }
            },
            SecretValue::ApiKey { url, notes, .. } => {
                f.push("key".to_owned());
                if url.is_some() {
                    f.push("url".to_owned());
                }
                if notes.is_some() {
                    f.push("notes".to_owned());
                }
            },
            SecretValue::OAuthApp { redirect_url, scopes, .. } => {
                f.push("client_id".to_owned());
                f.push("client_secret".to_owned());
                if redirect_url.is_some() {
                    f.push("redirect_url".to_owned());
                }
                if scopes.is_some() {
                    f.push("scopes".to_owned());
                }
            },
            SecretValue::SshKey { public_key, passphrase, .. } => {
                f.push("private_key".to_owned());
                if public_key.is_some() {
                    f.push("public_key".to_owned());
                }
                if passphrase.is_some() {
                    f.push("passphrase".to_owned());
                }
            },
            SecretValue::Note { .. } => {
                f.push("content".to_owned());
            },
            SecretValue::Environment { vars } => {
                let names = vars.names();
                proof {
                    law_no_field_is_listed_twice(self@);
                }
                return names;
            },
        }
        proof {
            law_no_field_is_listed_twice(self@);
        }
        assert(texts(f@) =~= self@.field_names());
        f
    }

    /// Whether a preview can be made: the preview cuts the value at fixed byte
    /// positions, which must lie between characters.
    pub fn can_preview(&self) -> (r: bool)
        ensures
            r == self@.previewable(),
    {
        match self {
            SecretValue::ApiKey { key, .. } => {
                let s = key.as_str();
                s.is_char_boundary(len_at_most(s, 2)) && s.is_char_boundary(last_two_at(s))
            },
            SecretValue::Note { content } => {
                let s = content.as_str();
                s.is_char_boundary(len_at_most(s, 40))
            },
            _ => true,
        }
    }

    /// One-line redacted preview for list display.
    pub fn redacted_preview(&self) -> (r: String)
        requires
            self@.previewable(),
        ensures
            r@ == self@.preview(),
            forall|i: int| 0 <= i < r@.len() ==> r@[i] != '\n' && r@[i] != '\r',
    {
        let shown = self.redacted();
        unbroken(shown.as_str())
    }

    /// What shows of the value, with the secret parts left out.
    fn redacted(&self) -> (r: String)
        requires
            self@.previewable(),
        ensures
            r@ == self@.shown(),
    {
        match self {
            SecretValue::Login { username, url, .. } => concat3(
                username.as_str(),
                " @ ",
                url.as_str(),
            ),
            SecretValue::ApiKey { key, .. } => {
                let s = key.as_str();
                concat3(cut_after(s, len_at_most(s, 2)), "...", cut_before(s, last_two_at(s)))
            },
            SecretValue::OAuthApp { client_id, .. } => {
                let mut r = "client_id=".to_owned();
                r.append(client_id.as_str());
                r
            },
            SecretValue::SshKey { .. } => "[private key]".to_owned(),
            SecretValue::Note { content } => {
                let s = content.as_str();
                let mut r = cut_after(s, len_at_most(s, 40)).to_owned();
                r.append("...");
                r
            },
            SecretValue::Environment { vars } => {
                let names = vars.names();
                let mut shown: Vec<String> = Vec::new();
                let mut i: usize = 0;
                while i < names.len()
                    invariant
                        i <= names@.len(),
                        shown@.len() == i,
                        forall|j: int|
                            0 <= j < i ==> (#[trigger] shown@[j])@ == masked(names@[j]@),
                    decreases names@.len() - i,
                {
                    let mut item = names[i].clone();
                    item.append("=***");
                    shown.push(item);
                    i = i + 1;
                }
                proof {
                    let list = names_of(vars@);
                    assert(texts(names@) == list);
                    assert forall|j: int| 0 <= j < list.len() implies texts(shown@)[j] == masked(
                        #[trigger] list[j],
                    ) by {
                        assert(texts(names@)[j] == names@[j]@);
                    }
                    assert(texts(shown@) =~= list.map_values(|n: Seq<char>| masked(n)));
                }
                join(&shown, ", ")
            },
        }
    }

    /// Get a specific field value by name. Returns None if the field is not there.
    pub fn get_field(&self, field: &str) -> (r: Option<String>)
        ensures
            opt_text(r) == self@.field(field@),
            match *self {
                SecretValue::Login { url, username, password, totp_seed } => {
                    &&& field@ == "url"@ ==> (r matches Some(t) && t@ == url@)
                    &&& field@ == "username"@ ==> (r matches Some(t) && t@ == username@)
                    &&& field@ == "password"@ ==> (r matches Some(t) && t@ == password@)
                    &&& field@ == "totp_seed"@ ==> opt_text(r) == opt_text(totp_seed)
                },
                SecretValue::ApiKey { key, url, notes } => {
                    &&& field@ == "key"@ ==> (r matches Some(t) && t@ == key@)
                    &&& field@ == "url"@ ==> opt_text(r) == opt_text(url)
                    &&& field@ == "notes"@ ==> opt_text(r) == opt_text(notes)
                },
                SecretValue::OAuthApp { client_id, client_secret, redirect_url, .. } => {
                    &&& field@ == "client_id"@ ==> (r matches Some(t) && t@ == client_id@)
                    &&& field@ == "client_secret"@ ==> (r matches Some(t) && t@ == client_secret@)
                    &&& field@ == "redirect_url"@ ==> opt_text(r) == opt_text(redirect_url)
                },
                SecretValue::SshKey { private_key, public_key, passphrase } => {
                    &&& field@ == "private_key"@ ==> (r matches Some(t) && t@ == private_key@)
                    &&& field@ == "public_key"@ ==> opt_text(r) == opt_text(public_key)
                    &&& field@ == "passphrase"@ ==> opt_text(r) == opt_text(passphrase)
                },
                SecretValue::Note { content } => field@ == "content"@ ==> (r matches Some(t) && t@
                    == content@),
                SecretValue::Environment { .. } => true,
            },
    {
        proof {
            lemma_field_literals();
        }
        match self {
            SecretValue::Login { url, username, password, totp_seed } => {
                if text_eq(field, "url") {
                    Some(url.clone())
                } else if text_eq(field, "username") {
                    Some(username.clone())
                } else if text_eq(field, "password") {
                    Some(password.clone())
                } else if text_eq(field, "totp_seed") {
                    totp_seed.clone()
                } else {
                    None
                }
            },
            SecretValue::ApiKey { key, url, notes } => {
                if text_eq(field, "key") {
                    Some(key.clone())
                } else if text_eq(field, "url") {
                    url.clone()
                } else if text_eq(field, "notes") {
                    notes.clone()
                } else {
                    None
                }
            },
            SecretValue::OAuthApp { client_id, client_secret, redirect_url, scopes } => {
                if text_eq(field, "client_id") {
                    Some(client_id.clone())
                } else if text_eq(field, "client_secret") {
                    Some(client_secret.clone())
                } else if text_eq(field, "redirect_url") {
                    redirect_url.clone()
                } else if text_eq(field, "scopes") {
                    match scopes {
                        Some(list) => Some(join(list, ",")),
                        None => None,
                    }
                } else {
                    None
                }
            },
            SecretValue::SshKey { private_key, public_key, passphrase } => {
                if text_eq(field, "private_key") {
                    Some(private_key.clone())
                } else if text_eq(field, "public_key") {
                    public_key.clone()
                } else if text_eq(field, "passphrase") {
                    passphrase.clone()
                } else {
                    None
                }
            },
            SecretValue::Note { content } => {
                if text_eq(field, "content") {
                    Some(content.clone())
                } else {
                    None
                }
            },
            SecretValue::Environment { vars } => vars.get(field),
        }
    }

    /// What a reference without a field stands for. Only API keys and notes may
    /// be referred to in this way.
    pub fn bare_value(&self) -> (r: Option<String>)
        ensures
            opt_text(r) == self@.bare(),
            match *self {
                SecretValue::ApiKey { key, .. } => r matches Some(t) && t@ == key@,
                SecretValue::Note { content } => r matches Some(t) && t@ == content@,
                _ => r is None,
            },
    {
        match self {
            SecretValue::ApiKey { key, .. } => Some(key.clone()),
            SecretValue::Note { content } => Some(content.clone()),
            _ => None,
        }
    }
}

// ---------------------------------------------------------------------------
// Laws
// ---------------------------------------------------------------------------

/// The field names of the fixed kinds of values differ from one another.
proof fn lemma_field_literals()
    ensures
        "url"@.len() == 3,
        "username"@.len() == 8,
        "password"@.len() == 8,
        "username"@ != "password"@,
        "totp_seed"@.len() == 9,
        "key"@.len() == 3,
        "key"@ != "url"@,
        "notes"@.len() == 5,
        "client_id"@.len() == 9,
        "client_secret"@.len() == 13,
        "redirect_url"@.len() == 12,
        "scopes"@.len() == 6,
        "private_key"@.len() == 11,
        "public_key"@.len() == 10,
        "passphrase"@.len() == 10,
        "public_key"@ != "passphrase"@,
{
    reveal_strlit("url");
    reveal_strlit("username");
    reveal_strlit("password");
    reveal_strlit("totp_seed");
    reveal_strlit("key");
    reveal_strlit("notes");
    reveal_strlit("client_id");
    reveal_strlit("client_secret");
    reveal_strlit("redirect_url");
    reveal_strlit("scopes");
    reveal_strlit("private_key");
    reveal_strlit("public_key");
    reveal_strlit("passphrase");
    assert("username"@[0] != "password"@[0]);
    assert("key"@[0] != "url"@[0]);
    assert("public_key"@[1] != "passphrase"@[1]);
}

/// A field can be read exactly where its name is listed.
pub proof fn law_listed_fields_are_readable(value: ValueModel, name: Seq<char>)
    ensures
        value.field_names().contains(name) <==> value.field(name) is Some,
{
    lemma_field_literals();
    let names = value.field_names();
    match value {
        ValueModel::Login { totp_seed, .. } => {
            assert(names[0] == "url"@ && names[1] == "username"@ && names[2] == "password"@);
            if totp_seed is Some {
                assert(names[3] == "totp_seed"@);
            }
        },
        ValueModel::ApiKey { url, notes, .. } => {
            assert(names[0] == "key"@);
            if url is Some {
                assert(names[1] == "url"@);
            }
            if notes is Some {
                assert(names.last() == "notes"@);
            }
        },
        ValueModel::OAuthApp { redirect_url, scopes, .. } => {
            assert(names[0] == "client_id"@ && names[1] == "client_secret"@);
            if redirect_url is Some {
                assert(names[2] == "redirect_url"@);
            }
            if scopes is Some {
                assert(names.last() == "scopes"@);
            }
        },
        ValueModel::SshKey { public_key, passphrase, .. } => {
            assert(names[0] == "private_key"@);
            if public_key is Some {
                assert(names[1] == "public_key"@);
            }
            if passphrase is Some {
                assert(names.last() == "passphrase"@);
            }
        },
        ValueModel::Note { .. } => {
            assert(names[0] == "content"@);
        },
        ValueModel::Environment { vars } => {
            if names.contains(name) {
                let i = choose|i: int| 0 <= i < names.len() && names[i] == name;
                assert(named_at(vars, name, i));
            }
            if exists|i: int| named_at(vars, name, i) {
                let i = choose|i: int| named_at(vars, name, i);
                assert(names[i] == name);
            }
        },
    }
}

/// No field is listed twice.
pub proof fn law_no_field_is_listed_twice(value: ValueModel)
    requires
        value matches ValueModel::Environment { vars } ==> names_distinct(vars),
    ensures
        value.field_names().no_duplicates(),
{
    lemma_field_literals();
    let names = value.field_names();
    match value {
        ValueModel::Environment { vars } => {
            assert forall|i: int, j: int| 0 <= i < names.len() && 0 <= j < names.len() && i
                != j implies names[i] != names[j] by {
                if i < j {
                    assert(vars[i].0 != vars[j].0);
                } else {
                    assert(vars[j].0 != vars[i].0);
                }
            }
        },
        _ => {},
    }
}

/// A variable that was set has the value that it was set to, and all others keep
/// theirs.
pub proof fn law_set_variable_is_read_back(
    vars: Seq<(Seq<char>, Seq<char>)>,
    name: Seq<char>,
    value: Seq<char>,
    other: Seq<char>,
)
    requires
        names_distinct(vars),
    ensures
        lookup(with_entry(vars, name, value), other) == (if other == name {
            Some(value)
        } else {
            lookup(vars, other)
        }),
        names_distinct(with_entry(vars, name, value)),
{
    let after = with_entry(vars, name, value);
    let at = if exists|i: int| named_at(vars, name, i) {
        choose|i: int| named_at(vars, name, i)
    } else {
        vars.len() as int
    };
    assert(named_at(after, name, at));
    assert forall|i: int, j: int| 0 <= i < j < after.len() implies (#[trigger] after[i]).0
        != (#[trigger] after[j]).0 by {
        assert(i != at ==> after[i] == vars[i]);
        assert(j != at ==> after[j] == vars[j]);
        assert(at == vars.len() ==> !named_at(vars, name, i) && !named_at(vars, name, j));
    }
    lemma_name_unique(after, name, at);
    if other != name {
        assert forall|i: int| named_at(after, other, i) <==> #[trigger] named_at(
            vars,
            other,
            i,
        ) by {
            assert(i != at && 0 <= i < vars.len() ==> after[i] == vars[i]);
        }
        if exists|i: int| named_at(vars, other, i) {
            let i = choose|i: int| named_at(vars, other, i);
            assert(named_at(after, other, i));
            lemma_name_unique(after, other, i);
            assert(after[i] == vars[i]);
        } else if exists|i: int| named_at(after, other, i) {
            let i = choose|i: int| named_at(after, other, i);
            assert(named_at(vars, other, i));
        }
    }
}

/// Only API keys and notes can be referred to without a field, and such a
/// reference stands for the field `key` or `content`.
pub proof fn law_bare_reference(value: ValueModel)
    ensures
        value.bare() is Some <==> value is ApiKey || value is Note,
        value is ApiKey ==> value.bare() == value.field("key"@),
        value is Note ==> value.bare() == value.field("content"@),
{
}

/// The value with everything that lists never show replaced by nothing.
pub open spec fn without_secrets(value: ValueModel) -> ValueModel {
    match value {
        ValueModel::Login { url, username, totp_seed, .. } => ValueModel::Login {
            url,
            username,
            password: Seq::empty(),
            totp_seed: blank(totp_seed),
        },
        ValueModel::ApiKey { key, url, notes } => ValueModel::ApiKey {
            key,
            url: blank(url),
            notes: blank(notes),
        },
        ValueModel::OAuthApp { client_id, redirect_url, scopes, .. } => ValueModel::OAuthApp {
            client_id,
            client_secret: Seq::empty(),
            redirect_url: blank(redirect_url),
            scopes: match scopes {
                Some(_) => Some(Seq::empty()),
                None => None,
            },
        },
        ValueModel::SshKey { public_key, passphrase, .. } => ValueModel::SshKey {
            private_key: Seq::empty(),
            public_key: blank(public_key),
            passphrase: blank(passphrase),
        },
        ValueModel::Note { content } => ValueModel::Note { content },
        ValueModel::Environment { vars } => ValueModel::Environment {
            vars: vars.map_values(
                |p: (Seq<char>, Seq<char>)| (p.0, Seq::<char>::empty()),
            ),
        },
    }
}

/// An optional text with what it says left out.
pub open spec fn blank(text: Option<Seq<char>>) -> Option<Seq<char>> {
    match text {
        Some(_) => Some(Seq::empty()),
        None => None,
    }
}

/// Passwords, seeds, client secrets, private keys, passphrases and the values of
/// variables have no part in the field names nor in the preview.
pub proof fn law_lists_show_no_secrets(value: ValueModel)
    ensures
        without_secrets(value).field_names() == value.field_names(),
        without_secrets(value).preview() == value.preview(),
        without_secrets(value).previewable() == value.previewable(),
{
    match value {
        ValueModel::Environment { vars } => {
            let blanked = vars.map_values(
                |p: (Seq<char>, Seq<char>)| (p.0, Seq::<char>::empty()),
            );
            assert(names_of(blanked) =~= names_of(vars));
        },
        _ => {},
    }
}

/// The preview of an API key shows no more of it than its first two and its
/// last two bytes: keys that agree there have the same preview.
pub proof fn law_key_preview_shows_ends(
    a: Seq<char>,
    b: Seq<char>,
    url: Option<Seq<char>>,
    notes: Option<Seq<char>>,
)
    requires
        byte_len(a) >= 2,
        byte_len(b) >= 2,
        encode_utf8(a).take(2) == encode_utf8(b).take(2),
        encode_utf8(a).skip(byte_len(a) - 2) == encode_utf8(b).skip(byte_len(b) - 2),
    ensures
        (ValueModel::ApiKey { key: a, url, notes }).preview() == (ValueModel::ApiKey {
            key: b,
            url,
            notes,
        }).preview(),
{
    let x = encode_utf8(a);
    let y = encode_utf8(b);
    assert(x.subrange(0, 2) =~= x.take(2));
    assert(y.subrange(0, 2) =~= y.take(2));
    assert(x.subrange(x.len() - 2, x.len() as int) =~= x.skip(x.len() - 2));
    assert(y.subrange(y.len() - 2, y.len() as int) =~= y.skip(y.len() - 2));
}

/// The preview of a note shows no more of it than its first forty bytes: notes
/// that agree there have the same preview.
pub proof fn law_note_preview_shows_start(a: Seq<char>, b: Seq<char>)
    requires
        byte_len(a) >= 40,
        byte_len(b) >= 40,
        encode_utf8(a).take(40) == encode_utf8(b).take(40),
    ensures
        (ValueModel::Note { content: a }).preview() == (ValueModel::Note { content: b }).preview(),
{
    assert(encode_utf8(a).subrange(0, 40) =~= encode_utf8(a).take(40));
    assert(encode_utf8(b).subrange(0, 40) =~= encode_utf8(b).take(40));
}

/// A preview can be made of every value whose key or note is ASCII.
pub proof fn law_ascii_is_previewable(value: ValueModel)
    requires
        value.bare() matches Some(text) ==> is_ascii_chars(text),
    ensures
        value.previewable(),
{
    match value {
        ValueModel::ApiKey { key, .. } => {
            lemma_ascii_boundary(key, at_most(byte_len(key), 2));
            lemma_ascii_boundary(key, last_two(key));
        },
        ValueModel::Note { content } => {
            lemma_ascii_boundary(content, at_most(byte_len(content), 40));
        },
        _ => {},
    }
}

proof fn lemma_ascii_boundary(s: Seq<char>, i: int)
    requires
        is_ascii_chars(s),
        0 <= i <= byte_len(s),
    ensures
        is_char_boundary(encode_utf8(s), i),
{
    let bytes = encode_utf8(s);
    encode_utf8_valid_utf8(s);
    is_char_boundary_start_end_of_seq(bytes);
    if i < bytes.len() {
        is_ascii_chars_encode_utf8(s);
        is_char_boundary_iff_not_is_continuation_byte(bytes, i);
        assert(bytes[i] == s[i] as u8);
    }
}

} // verus!
