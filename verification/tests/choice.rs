use cred::backend::{create_backend, sqlite_db_path, BackendConfig, BackendEnv};
use cred::backend_engram::Fetch;
use cred::error::CredError;
use cred::yubikey::config_dir;

fn env() -> BackendEnv {
    BackendEnv {
        backend: None,
        engram_url: None,
        engram_key: None,
        db_path: None,
        xdg_config_home: None,
        home: None,
        user_profile: None,
    }
}

fn set(s: &str) -> Option<String> {
    Some(s.to_string())
}

fn database_of(env: BackendEnv) -> (String, Vec<String>) {
    match create_backend(env) {
        Ok(BackendConfig::Sqlite(place)) => (place.base, place.rest),
        _ => panic!("not the database"),
    }
}

fn list_url_of(env: BackendEnv) -> String {
    match create_backend(env) {
        Ok(BackendConfig::Engram(engram)) => engram.fetch_all_memories(&Fetch::start()).url,
        _ => panic!("not the service"),
    }
}

fn names(items: &[&str]) -> Vec<String> {
    items.iter().map(|s| s.to_string()).collect()
}

#[test]
fn the_database_is_the_default() {
    assert_eq!(
        database_of(BackendEnv { home: set("/home/ada"), ..env() }),
        ("/home/ada".to_string(), names(&[".config", "cred", "vault.db"]))
    );
}

#[test]
fn the_service_is_taken_where_it_is_configured() {
    let e = BackendEnv { engram_url: set("http://e"), engram_key: set("k"), ..env() };
    assert_eq!(list_url_of(e), "http://e/list");
    database_of(BackendEnv { engram_url: set("http://e"), ..env() });
    database_of(BackendEnv { engram_key: set("k"), ..env() });
}

#[test]
fn a_named_backend_is_taken() {
    let e = BackendEnv {
        backend: set("sqlite"),
        engram_url: set("http://e"),
        engram_key: set("k"),
        ..env()
    };
    assert_eq!(database_of(e).0, ".");
    let e = BackendEnv {
        backend: set("engram"),
        engram_url: set("http://e"),
        engram_key: set("k"),
        ..env()
    };
    assert_eq!(list_url_of(e), "http://e/list");
}

#[test]
fn the_named_service_needs_its_address_and_key() {
    let none = BackendEnv { backend: set("engram"), ..env() };
    assert!(matches!(create_backend(none), Err(CredError::EngramUrlNotSet)));
    let no_url = BackendEnv { backend: set("engram"), engram_key: set("k"), ..env() };
    assert!(matches!(create_backend(no_url), Err(CredError::EngramUrlNotSet)));
    let no_key = BackendEnv { backend: set("engram"), engram_url: set("http://e"), ..env() };
    assert!(matches!(create_backend(no_key), Err(CredError::EngramKeyNotSet)));
}

#[test]
fn any_other_name_counts_as_none() {
    for name in ["postgres", "redis", "", "SQLITE", "engram "] {
        let neither = BackendEnv { backend: set(name), ..env() };
        assert_eq!(database_of(neither).0, ".");
        let half = BackendEnv { backend: set(name), engram_url: set("http://e"), ..env() };
        assert_eq!(database_of(half).0, ".");
        let configured = BackendEnv {
            backend: set(name),
            engram_url: set("http://e"),
            engram_key: set("k"),
            ..env()
        };
        assert_eq!(list_url_of(configured), "http://e/list");
    }
}

#[test]
fn where_the_database_lies() {
    let place = |e: BackendEnv| {
        let p = sqlite_db_path(e);
        (p.base, p.rest)
    };
    let all = BackendEnv {
        db_path: set("/tmp/x.db"),
        xdg_config_home: set("/cfg"),
        home: set("/h"),
        user_profile: set("/u"),
        ..env()
    };
    assert_eq!(place(all), ("/tmp/x.db".to_string(), names(&[])));
    let xdg = BackendEnv { xdg_config_home: set("/cfg"), home: set("/h"), ..env() };
    assert_eq!(place(xdg), ("/cfg".to_string(), names(&["cred", "vault.db"])));
    let home = BackendEnv { home: set("/h"), user_profile: set("/u"), ..env() };
    assert_eq!(place(home), ("/h".to_string(), names(&[".config", "cred", "vault.db"])));
    let profile = BackendEnv { user_profile: set("/u"), ..env() };
    assert_eq!(place(profile), ("/u".to_string(), names(&[".config", "cred", "vault.db"])));
    assert_eq!(place(env()), (".".to_string(), names(&[".config", "cred", "vault.db"])));
}

#[test]
fn the_database_lies_in_the_configuration_directory() {
    for (xdg, home) in [(set("/cfg"), set("/h")), (set("/cfg"), None), (None, set("/h"))] {
        let config = config_dir(xdg.clone(), home.clone());
        let place = sqlite_db_path(BackendEnv { xdg_config_home: xdg, home, ..env() });
        assert_eq!(place.base, config.base);
        let mut rest = config.rest;
        rest.push("vault.db".to_string());
        assert_eq!(place.rest, rest);
    }
}
