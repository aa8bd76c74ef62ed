//! The backends that encrypted secrets are kept in, and the choice among them.
use crate::backend_engram::{EngramBackend, EngramModel};
use crate::error::{CredError, ErrorModel};
use crate::order::{Keyed, Path, Stamped};
use crate::text::{opt_text, text_eq, texts};
use vstd::prelude::*;

verus! {

/// A raw secret as stored in the backend -- opaque ciphertext, no decryption.
#[derive(Debug, Clone)]
pub struct RawSecret {
    pub id: u64,
    pub service: String,
    pub key: String,
    pub ciphertext: String,
    pub created_at: Option<String>,
}

/// A raw secret as text.
pub struct RawModel {
    pub id: u64,
    pub service: Seq<char>,
    pub key: Seq<char>,
    pub ciphertext: Seq<char>,
    pub created_at: Option<Seq<char>>,
}

impl View for RawSecret {
    type V = RawModel;

    open spec fn view(&self) -> RawModel {
        RawModel {
            id: self.id,
            service: self.service@,
            key: self.key@,
            ciphertext: self.ciphertext@,
            created_at: opt_text(self.created_at),
        }
    }
}

impl Keyed for RawSecret {
    open spec fn path_of(v: RawModel) -> Path {
        (v.service, v.key)
    }

    fn service_text(&self) -> (r: &str) {
        self.service.as_str()
    }

    fn key_text(&self) -> (r: &str) {
        self.key.as_str()
    }
}

impl Stamped for RawSecret {
    open spec fn stamp_of(v: RawModel) -> u64 {
        v.id
    }

    fn stamp(&self) -> (r: u64) {
        self.id
    }
}

/// A place in the file system: a directory or file, and what is to be joined to
/// it, one name after the other.
#[derive(Debug)]
pub struct PathParts {
    pub base: String,
    pub rest: Vec<String>,
}

/// A place in the file system as text.
pub struct PathModel {
    pub base: Seq<char>,
    pub rest: Seq<Seq<char>>,
}

impl View for PathParts {
    type V = PathModel;

    open spec fn view(&self) -> PathModel {
        PathModel { base: self.base@, rest: texts(self.rest@) }
    }
}

/// The environment variables that the choice of a backend depends on, those
/// that are set to text.
pub struct BackendEnv {
    /// `CRED_BACKEND`
    pub backend: Option<String>,
    /// `ENGRAM_URL`
    pub engram_url: Option<String>,
    /// `ENGRAM_API_KEY`
    pub engram_key: Option<String>,
    /// `CRED_DB_PATH`
    pub db_path: Option<String>,
    /// `XDG_CONFIG_HOME`
    pub xdg_config_home: Option<String>,
    /// `HOME`
    pub home: Option<String>,
    /// `USERPROFILE`
    pub user_profile: Option<String>,
}

/// The environment variables as text.
pub struct EnvModel {
    pub backend: Option<Seq<char>>,
    pub engram_url: Option<Seq<char>>,
    pub engram_key: Option<Seq<char>>,
    pub db_path: Option<Seq<char>>,
    pub xdg_config_home: Option<Seq<char>>,
    pub home: Option<Seq<char>>,
    pub user_profile: Option<Seq<char>>,
}

impl View for BackendEnv {
    type V = EnvModel;

    open spec fn view(&self) -> EnvModel {
        EnvModel {
            backend: opt_text(self.backend),
            engram_url: opt_text(self.engram_url),
            engram_key: opt_text(self.engram_key),
            db_path: opt_text(self.db_path),
            xdg_config_home: opt_text(self.xdg_config_home),
            home: opt_text(self.home),
            user_profile: opt_text(self.user_profile),
        }
    }
}

/// The backend to use.
pub enum BackendConfig {
    /// A database in the file at the given place.
    Sqlite(PathParts),
    /// The Engram service.
    Engram(EngramBackend),
}

/// The backend to use, as text.
pub enum ConfigModel {
    Sqlite(PathModel),
    Engram(EngramModel),
}

impl View for BackendConfig {
    type V = ConfigModel;

    open spec fn view(&self) -> ConfigModel {
        match *self {
            BackendConfig::Sqlite(place) => ConfigModel::Sqlite(place@),
            BackendConfig::Engram(engram) => ConfigModel::Engram(engram@),
        }
    }
}

/// The view of a result.
pub open spec fn result_view<T: View>(r: Result<T, CredError>) -> Result<T::V, ErrorModel> {
    match r {
        Ok(t) => Ok(t@),
        Err(e) => Err(e@),
    }
}

impl EnvModel {
    /// The home directory, and the current one where none is set.
    pub open spec fn home_dir(self) -> Seq<char> {
        match self.home {
            Some(dir) => dir,
            None => match self.user_profile {
                Some(dir) => dir,
                None => "."@,
            },
        }
    }

    /// Where the database lies.
    pub open spec fn database(self) -> PathModel {
        match self.db_path {
            Some(path) => PathModel { base: path, rest: Seq::empty() },
            None => match self.xdg_config_home {
                Some(dir) => PathModel { base: dir, rest: seq!["cred"@, "vault.db"@] },
                None => PathModel {
                    base: self.home_dir(),
                    rest: seq![".config"@, "cred"@, "vault.db"@],
                },
            },
        }
    }

    /// The backend to use. The database or the Engram service is taken where it
    /// is named; where neither is, the Engram service is taken if it is
    /// configured, and else the database.
    pub open spec fn chosen(self) -> Result<ConfigModel, ErrorModel> {
        if self.backend == Some("sqlite"@) {
            Ok(ConfigModel::Sqlite(self.database()))
        } else if self.backend == Some("engram"@) {
            match EngramModel::from_env(self.engram_url, self.engram_key) {
                Ok(engram) => Ok(ConfigModel::Engram(engram)),
                Err(e) => Err(e),
            }
        } else {
            match (self.engram_url, self.engram_key) {
                (Some(url), Some(key)) => Ok(ConfigModel::Engram(EngramModel { url, key })),
                _ => Ok(ConfigModel::Sqlite(self.database())),
            }
        }
    }
}

/// Where the database lies.
pub fn sqlite_db_path(env: BackendEnv) -> (r: PathParts)
    ensures
        r@ == env@.database(),
        env.db_path matches Some(path) ==> r.base@ == path@ && r.rest@.len() == 0,
        env.db_path is None && env.xdg_config_home is Some ==> r.base@ == env.xdg_config_home->0@
            && r.rest@.len() == 2,
        env.db_path is None && env.xdg_config_home is None && env.home is Some ==> r.base@
            == env.home->0@ && r.rest@.len() == 3,
{
    let mut rest: Vec<String> = Vec::new();
    let base = match env.db_path {
        Some(path) => path,
        None => match env.xdg_config_home {
            Some(dir) => {
                rest.push("cred".to_owned());
                rest.push("vault.db".to_owned());
                dir
            },
            None => {
                rest.push(".config".to_owned());
                rest.push("cred".to_owned());
                rest.push("vault.db".to_owned());
                match env.home {
                    Some(dir) => dir,
                    None => match env.user_profile {
                        Some(dir) => dir,
                        None => ".".to_owned(),
                    },
                }
            },
        },
    };
    assert(texts(rest@) =~= env@.database().rest);
    PathParts { base, rest }
}

/// Determines which backend to use based on environment variables.
///
/// Priority:
/// 1. CRED_BACKEND=sqlite -> the database
/// 2. CRED_BACKEND=engram -> the Engram service (fails if variables are missing)
/// 3. If ENGRAM_URL and ENGRAM_API_KEY are both set -> the Engram service
/// 4. Otherwise -> the database
pub fn create_backend(env: BackendEnv) -> (r: Result<BackendConfig, CredError>)
    ensures
        result_view(r) == env@.chosen(),
{
    let configured = env.engram_url.is_some() && env.engram_key.is_some();
    let wants_engram = match &env.backend {
        Some(name) => {
            if text_eq(name.as_str(), "sqlite") {
                false
            } else if text_eq(name.as_str(), "engram") {
                true
            } else {
                configured
            }
        },
        None => configured,
    };
    if wants_engram {
        match EngramBackend::from_env(env.engram_url, env.engram_key) {
            Ok(engram) => Ok(BackendConfig::Engram(engram)),
            Err(e) => Err(e),
        }
    } else {
        Ok(BackendConfig::Sqlite(sqlite_db_path(env)))
    }
}

/// The choice of a backend fails only where the Engram service is named without
/// its address or key.
pub proof fn law_choice_fails_only_where_named(env: EnvModel)
    ensures
        env.chosen() is Err <==> env.backend == Some("engram"@) && (env.engram_url is None
            || env.engram_key is None),
{
    reveal_strlit("sqlite");
    reveal_strlit("engram");
    assert("sqlite"@[0] != "engram"@[0]);
}

/// A name that is neither of the two backends counts as no name.
pub proof fn law_other_names_count_as_none(env: EnvModel)
    requires
        env.backend != Some("sqlite"@),
        env.backend != Some("engram"@),
    ensures
        env.chosen() == (EnvModel { backend: None, ..env }).chosen(),
        env.engram_url is None || env.engram_key is None ==> env.chosen() == Ok::<
            ConfigModel,
            ErrorModel,
        >(ConfigModel::Sqlite(env.database())),
{
}

} // verus!
