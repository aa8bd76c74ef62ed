use cred::value::{EnvVars, SecretValue};

fn text(s: &str) -> String {
    s.to_string()
}

fn some(s: &str) -> Option<String> {
    Some(s.to_string())
}

fn login() -> SecretValue {
    SecretValue::Login {
        url: text("https://example.com"),
        username: text("ada"),
        password: text("pa55"),
        totp_seed: None,
    }
}

fn api_key(key: &str) -> SecretValue {
    SecretValue::ApiKey { key: text(key), url: None, notes: None }
}

fn note(content: &str) -> SecretValue {
    SecretValue::Note { content: text(content) }
}

fn variables() -> SecretValue {
    let mut vars = EnvVars::new();
    vars.insert(text("PATH"), text("/bin"));
    vars.insert(text("HOME"), text("/root"));
    SecretValue::Environment { vars }
}

#[test]
fn type_labels() {
    assert_eq!(login().type_label(), "Login");
    assert_eq!(api_key("k").type_label(), "ApiKey");
    let app = SecretValue::OAuthApp {
        client_id: text("id"),
        client_secret: text("s"),
        redirect_url: None,
        scopes: None,
    };
    assert_eq!(app.type_label(), "OAuthApp");
    let ssh = SecretValue::SshKey { private_key: text("p"), public_key: None, passphrase: None };
    assert_eq!(ssh.type_label(), "SshKey");
    assert_eq!(note("n").type_label(), "Note");
    assert_eq!(variables().type_label(), "Environment");
}

#[test]
fn login_lists_its_fields() {
    assert_eq!(login().field_names(), vec!["url", "username", "password"]);
    let with_seed = SecretValue::Login {
        url: text("u"),
        username: text("n"),
        password: text("p"),
        totp_seed: some("JBSW"),
    };
    assert_eq!(with_seed.field_names(), vec!["url", "username", "password", "totp_seed"]);
    assert_eq!(with_seed.get_field("totp_seed"), some("JBSW"));
    assert_eq!(login().get_field("totp_seed"), None);
}

#[test]
fn login_fields_are_read_by_name() {
    let v = login();
    assert_eq!(v.get_field("url"), some("https://example.com"));
    assert_eq!(v.get_field("username"), some("ada"));
    assert_eq!(v.get_field("password"), some("pa55"));
    assert_eq!(v.get_field("key"), None);
    assert_eq!(v.get_field(""), None);
    assert_eq!(v.get_field("URL"), None);
}

#[test]
fn api_key_fields() {
    let v = SecretValue::ApiKey { key: text("abc"), url: some("u"), notes: some("n") };
    assert_eq!(v.field_names(), vec!["key", "url", "notes"]);
    assert_eq!(v.get_field("key"), some("abc"));
    assert_eq!(v.get_field("url"), some("u"));
    assert_eq!(v.get_field("notes"), some("n"));
    assert_eq!(v.get_field("content"), None);
    let w = SecretValue::ApiKey { key: text("abc"), url: None, notes: some("n") };
    assert_eq!(w.field_names(), vec!["key", "notes"]);
    assert_eq!(w.get_field("url"), None);
}

#[test]
fn oauth_fields_and_joined_scopes() {
    let v = SecretValue::OAuthApp {
        client_id: text("id"),
        client_secret: text("sec"),
        redirect_url: some("http://cb"),
        scopes: Some(vec![text("read"), text("write"), text("admin")]),
    };
    assert_eq!(v.field_names(), vec!["client_id", "client_secret", "redirect_url", "scopes"]);
    assert_eq!(v.get_field("client_id"), some("id"));
    assert_eq!(v.get_field("client_secret"), some("sec"));
    assert_eq!(v.get_field("redirect_url"), some("http://cb"));
    assert_eq!(v.get_field("scopes"), some("read,write,admin"));
    assert_eq!(v.redacted_preview(), "client_id=id");
    let no_scopes = SecretValue::OAuthApp {
        client_id: text("id"),
        client_secret: text("sec"),
        redirect_url: None,
        scopes: Some(vec![]),
    };
    assert_eq!(no_scopes.field_names(), vec!["client_id", "client_secret", "scopes"]);
    assert_eq!(no_scopes.get_field("scopes"), some(""));
}

#[test]
fn ssh_key_fields() {
    let v = SecretValue::SshKey {
        private_key: text("PRIV"),
        public_key: some("PUB"),
        passphrase: some("pass"),
    };
    assert_eq!(v.field_names(), vec!["private_key", "public_key", "passphrase"]);
    assert_eq!(v.get_field("private_key"), some("PRIV"));
    assert_eq!(v.get_field("public_key"), some("PUB"));
    assert_eq!(v.get_field("passphrase"), some("pass"));
    assert_eq!(v.redacted_preview(), "[private key]");
    let w = SecretValue::SshKey { private_key: text("PRIV"), public_key: None, passphrase: some("p") };
    assert_eq!(w.field_names(), vec!["private_key", "passphrase"]);
    assert_eq!(w.get_field("public_key"), None);
}

#[test]
fn note_fields() {
    assert_eq!(note("hi").field_names(), vec!["content"]);
    assert_eq!(note("hi").get_field("content"), some("hi"));
    assert_eq!(note("hi").get_field("key"), None);
}

#[test]
fn variables_are_fields() {
    let v = variables();
    assert_eq!(v.field_names(), vec!["PATH", "HOME"]);
    assert_eq!(v.get_field("PATH"), some("/bin"));
    assert_eq!(v.get_field("HOME"), some("/root"));
    assert_eq!(v.get_field("SHELL"), None);
    assert_eq!(v.redacted_preview(), "PATH=***, HOME=***");
    let none = SecretValue::Environment { vars: EnvVars::new() };
    assert_eq!(none.redacted_preview(), "");
    assert!(none.field_names().is_empty());
}

#[test]
fn every_listed_field_can_be_read_and_no_other() {
    let values = vec![login(), api_key("k"), note("n"), variables()];
    let names = vec![
        "url", "username", "password", "totp_seed", "key", "notes", "content", "PATH", "HOME",
    ];
    for v in &values {
        let listed = v.field_names();
        for name in &names {
            assert_eq!(v.get_field(name).is_some(), listed.iter().any(|n| n == name));
        }
    }
}

#[test]
fn variables_keep_one_value_for_each_name() {
    let mut vars = EnvVars::new();
    vars.insert(text("A"), text("1"));
    vars.insert(text("B"), text("2"));
    vars.insert(text("A"), text("3"));
    assert_eq!(vars.names(), vec!["A", "B"]);
    assert_eq!(vars.get("A"), some("3"));
    assert_eq!(vars.get("B"), some("2"));
    assert_eq!(vars.get("C"), None);
    let copy = vars.clone();
    assert_eq!(copy.into_entries(), vec![(text("A"), text("3")), (text("B"), text("2"))]);
}

#[test]
fn only_api_keys_and_notes_stand_alone() {
    assert_eq!(api_key("sk-1").bare_value(), some("sk-1"));
    assert_eq!(api_key("sk-1").bare_value(), api_key("sk-1").get_field("key"));
    assert_eq!(note("plain").bare_value(), some("plain"));
    assert_eq!(note("plain").bare_value(), note("plain").get_field("content"));
    assert_eq!(login().bare_value(), None);
    assert_eq!(variables().bare_value(), None);
    let ssh = SecretValue::SshKey { private_key: text("p"), public_key: None, passphrase: None };
    assert_eq!(ssh.bare_value(), None);
    let app = SecretValue::OAuthApp {
        client_id: text("id"),
        client_secret: text("s"),
        redirect_url: None,
        scopes: None,
    };
    assert_eq!(app.bare_value(), None);
}

#[test]
fn login_preview_shows_name_and_address() {
    assert_eq!(login().redacted_preview(), "ada @ https://example.com");
}

#[test]
fn login_preview_does_not_depend_on_the_password() {
    let other = SecretValue::Login {
        url: text("https://example.com"),
        username: text("ada"),
        password: text("different"),
        totp_seed: None,
    };
    assert_eq!(login().redacted_preview(), other.redacted_preview());
    assert_eq!(login().field_names(), other.field_names());
}

#[test]
fn key_preview_shows_both_ends() {
    assert_eq!(api_key("sk-secret-99").redacted_preview(), "sk...99");
    assert_eq!(api_key("sk-other-99").redacted_preview(), "sk...99");
    assert_eq!(api_key("abc").redacted_preview(), "ab...bc");
    assert_eq!(api_key("ab").redacted_preview(), "ab...ab");
    assert_eq!(api_key("a").redacted_preview(), "a...a");
    assert_eq!(api_key("").redacted_preview(), "...");
}

#[test]
fn note_preview_shows_the_start() {
    assert_eq!(note("short").redacted_preview(), "short...");
    assert_eq!(note("").redacted_preview(), "...");
    let forty = "0123456789012345678901234567890123456789";
    assert_eq!(note(forty).redacted_preview(), format!("{}...", forty));
    let more = format!("{} and what follows", forty);
    assert_eq!(note(&more).redacted_preview(), format!("{}...", forty));
}

#[test]
fn previews_cut_only_between_characters() {
    // Two bytes each: the cuts at two bytes from either end lie between them.
    assert!(api_key("éàü").can_preview());
    assert_eq!(api_key("éàü").redacted_preview(), "é...ü");
    // Three bytes: the cut falls inside.
    assert!(!api_key("€").can_preview());
    assert!(!api_key("aé").can_preview());
    assert!(!api_key("ab€").can_preview());
    assert!(note("€€€").can_preview());
    assert_eq!(note("€€€").redacted_preview(), "€€€...");
    let thirty_nine = "012345678901234567890123456789012345678";
    assert!(!note(&format!("{}é", thirty_nine)).can_preview());
    assert!(note(&format!("{}a", thirty_nine)).can_preview());
    assert!(login().can_preview());
    assert!(variables().can_preview());
}

#[test]
fn ascii_can_always_be_previewed() {
    for key in ["", "a", "ab", "abc", "abcd", "the quick brown fox jumps over the lazy dog, twice"] {
        assert!(api_key(key).can_preview());
        assert!(note(key).can_preview());
    }
}

#[test]
fn previews_are_one_line() {
    assert_eq!(note("a\nb").redacted_preview(), "a b...");
    assert_eq!(note("a\r\nb\n").redacted_preview(), "a  b ...");
    assert_eq!(api_key("\nabc\r").redacted_preview(), " a...c ");
    let login = SecretValue::Login {
        url: text("u\rv"),
        username: text("x\ny"),
        password: text("p"),
        totp_seed: None,
    };
    assert_eq!(login.redacted_preview(), "x y @ u v");
    let app = SecretValue::OAuthApp {
        client_id: text("\n"),
        client_secret: text("s"),
        redirect_url: None,
        scopes: None,
    };
    assert_eq!(app.redacted_preview(), "client_id= ");
    let mut vars = EnvVars::new();
    vars.insert(text("A\nB"), text("1"));
    assert_eq!(SecretValue::Environment { vars }.redacted_preview(), "A B=***");
}

#[test]
fn no_field_is_listed_twice() {
    let mut vars = EnvVars::new();
    for name in ["A", "B", "A", "C", "B"] {
        vars.insert(text(name), text("v"));
    }
    assert_eq!(SecretValue::Environment { vars }.field_names(), vec!["A", "B", "C"]);
}
