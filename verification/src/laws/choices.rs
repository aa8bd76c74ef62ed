//! What the choice of a backend and of places promises.
use crate::backend::{
    result_view, BackendConfig, BackendEnv, ConfigModel, PathModel, PathParts,
};
use crate::backend_engram::{listing_view, EngramBackend, EngramModel};
use crate::error::{CredError, ErrorModel};
use crate::order::views;
use crate::text::texts;
use crate::yubikey::config_place;
use vstd::prelude::*;

verus! {

/// Where a place for the database is named, the database lies exactly there,
/// whatever else is set.
pub proof fn law_named_place_is_the_place(env: BackendEnv, path: String)
    requires
        env.db_path == Some(path),
    ensures
        env@.database() == (PathModel { base: path@, rest: Seq::empty() }),
{
}

/// Where no place is named, the database lies under the directory for
/// configuration, whatever the home directory is.
pub proof fn law_database_lies_under_the_configuration(env: BackendEnv, dir: String)
    requires
        env.db_path is None,
        env.xdg_config_home == Some(dir),
    ensures
        env@.database() == (PathModel { base: dir@, rest: seq!["cred"@, "vault.db"@] }),
{
}

/// Where neither is set, the database lies under the home directory: that of
/// `HOME`, that of `USERPROFILE` where there is none, and the current one where
/// there is neither.
pub proof fn law_database_lies_under_the_home(env: BackendEnv, dir: String)
    requires
        env.db_path is None,
        env.xdg_config_home is None,
    ensures
        env@.database().rest == seq![".config"@, "cred"@, "vault.db"@],
        env.home == Some(dir) ==> env@.database().base == dir@,
        env.home is None && env.user_profile == Some(dir) ==> env@.database().base == dir@,
        env.home is None && env.user_profile is None ==> env@.database().base == "."@,
{
}

/// The database is taken where it is named, whatever else is set.
pub proof fn law_named_database_is_taken(env: BackendEnv, name: String)
    requires
        env.backend == Some(name),
        name@ == "sqlite"@,
    ensures
        env@.chosen() == Ok::<ConfigModel, ErrorModel>(ConfigModel::Sqlite(env@.database())),
{
}

/// The service is taken where it is named and has an address and a key; where it
/// is named and lacks one, the choice fails for that, for the address first.
pub proof fn law_named_service_is_taken(env: BackendEnv, name: String, url: String, key: String)
    requires
        env.backend == Some(name),
        name@ == "engram"@,
    ensures
        env.engram_url == Some(url) && env.engram_key == Some(key) ==> env@.chosen() == Ok::<
            ConfigModel,
            ErrorModel,
        >(ConfigModel::Engram(EngramModel { url: url@, key: key@ })),
        env.engram_url is None ==> env@.chosen() == Err::<ConfigModel, ErrorModel>(
            ErrorModel::EngramUrlNotSet,
        ),
        env.engram_url is Some && env.engram_key is None ==> env@.chosen() == Err::<
            ConfigModel,
            ErrorModel,
        >(ErrorModel::EngramKeyNotSet),
{
    reveal_strlit("sqlite");
    reveal_strlit("engram");
    assert("sqlite"@[0] != "engram"@[0]);
}

/// Where neither backend is named, the service is taken if it has an address and a
/// key, and the database if it lacks either.
pub proof fn law_unnamed_choice(env: BackendEnv, url: String, key: String)
    requires
        env.backend matches Some(name) ==> name@ != "sqlite"@ && name@ != "engram"@,
    ensures
        env.engram_url == Some(url) && env.engram_key == Some(key) ==> env@.chosen() == Ok::<
            ConfigModel,
            ErrorModel,
        >(ConfigModel::Engram(EngramModel { url: url@, key: key@ })),
        env.engram_url is None || env.engram_key is None ==> env@.chosen() == Ok::<
            ConfigModel,
            ErrorModel,
        >(ConfigModel::Sqlite(env@.database())),
{
}

/// A choice is given out as it is made: the place with its parts, the service with
/// its address and key.
pub proof fn law_choices_are_given_as_they_are(
    place: PathParts,
    engram: EngramBackend,
    config: BackendConfig,
    e: CredError,
)
    ensures
        place@.base == place.base@,
        place@.rest == texts(place.rest@),
        BackendConfig::Sqlite(place)@ == ConfigModel::Sqlite(place@),
        BackendConfig::Engram(engram)@ == ConfigModel::Engram(engram@),
        result_view(Ok::<BackendConfig, CredError>(config)) == Ok::<ConfigModel, ErrorModel>(
            config@,
        ),
        result_view(Err::<BackendConfig, CredError>(e)) == Err::<ConfigModel, ErrorModel>(e@),
{
}

/// A result is given out as it is: what came, or why nothing did.
pub proof fn law_results_are_given_as_they_are<T: View>(t: T, list: Vec<T>, e: CredError)
    ensures
        result_view(Ok::<T, CredError>(t)) == Ok::<T::V, ErrorModel>(t@),
        result_view(Err::<T, CredError>(e)) == Err::<T::V, ErrorModel>(e@),
        listing_view(Ok::<Vec<T>, CredError>(list)) == Ok::<Seq<T::V>, ErrorModel>(views(list@)),
        listing_view(Err::<Vec<T>, CredError>(e)) == Err::<Seq<T::V>, ErrorModel>(e@),
{
}

/// The configuration lies under the directory for configuration where one is set,
/// whatever the home directory is; under the home directory where only that is;
/// and in the current directory where neither is.
pub proof fn law_configuration_place(xdg: Option<Seq<char>>, dir: Seq<char>)
    ensures
        config_place(Some(dir), xdg) == (PathModel { base: dir, rest: seq!["cred"@] }),
        config_place(None, Some(dir)) == (PathModel { base: dir, rest: seq![".config"@, "cred"@] }),
        config_place(None, None) == (PathModel { base: "."@, rest: seq!["cred"@] }),
{
}

} // verus!
