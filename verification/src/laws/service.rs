//! What the Engram service is asked, and what listing, storing and deleting raw
//! entries promises.
use crate::api::{EngramStoreRequest, MemoryModel};
use crate::backend::{RawModel, RawSecret};
use crate::backend_engram::{
    collected, contributed, listed_raw, memory_parts, next_limit, raw_at, raw_found, raw_ids,
    raw_without, success_code, EngramModel, EngramRequest, HttpMethod, RawListingModel,
    RawMigrationModel, FIRST_LIMIT,
};
use crate::error::{CredError, EngramOp, ErrorModel};
use crate::laws::lines::{
    law_any_line_is_parsed_into_its_parts, law_line_is_written_so,
    law_version_is_told_by_the_start,
};
use crate::laws::lists::law_items_at_a_path;
use crate::line::{line_text, plain_path, LineVersion};
use crate::order::{newest_at, views, Path};
use crate::removal::{
    deleted_ids, outcome_view, outcome_views, removal, removal_step_is, removed, replace_step_is,
    replacement, stored_view, RemovalModel, RemovalStep, ReplaceModel, ReplaceStep,
};
use crate::text::decimal;
use vstd::prelude::*;

verus! {

// ---------------------------------------------------------------------------
// Requests
// ---------------------------------------------------------------------------

/// A request is given out as it is made, each part of it.
pub proof fn law_requests_are_given_as_they_are(q: EngramRequest, b: EngramStoreRequest)
    ensures
        q@.method == q.method,
        q@.url == q.url@,
        q@.authorization == q.authorization@,
        q@.query.len() == q.query@.len(),
        forall|i: int|
            0 <= i < q.query@.len() ==> #[trigger] q@.query[i] == (
                q.query@[i].0@,
                q.query@[i].1@,
            ),
        q.body is None ==> q@.body is None,
        q.body matches Some(c) ==> q@.body == Some(c@),
        b@.content == b.content@,
        b@.category == b.category@,
        b@.source == b.source@,
        b@.importance == b.importance,
        b@.is_static == b.is_static,
{
}

/// The request to store a line carries exactly that line, however long it is, to
/// the address of the service, with its key.
pub proof fn law_a_store_request_carries_the_line(service: EngramModel, line: Seq<char>)
    ensures
        ({
            let q = service.store_request(line);
            &&& q.method == HttpMethod::Post
            &&& q.url == service.url + "/store"@
            &&& q.authorization == "Bearer "@ + service.key
            &&& q.query.len() == 0
            &&& q.body matches Some(b) && b.content == line && b.category == "credential"@
                && b.source == "cred"@ && b.importance == Some(9u8) && b.is_static == Some(true)
        }),
{
}

/// Different lines are stored by different requests.
pub proof fn law_store_requests_tell_lines_apart(service: EngramModel, a: Seq<char>, b: Seq<char>)
    requires
        service.store_request(a) == service.store_request(b),
    ensures
        a == b,
{
    law_a_store_request_carries_the_line(service, a);
    law_a_store_request_carries_the_line(service, b);
}

/// What a store request carries is listed: a memory that holds the line in its
/// body gives back the path and ciphertext that the line was made of.
pub proof fn law_what_is_stored_is_listed(
    engram: EngramModel,
    service: Seq<char>,
    key: Seq<char>,
    ciphertext: Seq<char>,
    memory: MemoryModel,
    stored: Option<u64>,
)
    requires
        plain_path(service, key),
        engram.store_request(line_text(LineVersion::V3, service, key, ciphertext)).body matches Some(
            body,
        ) && memory.content == body.content,
    ensures
        contributed(memory, stored) == Some(
            RawModel {
                id: memory.id,
                service,
                key,
                ciphertext,
                created_at: memory.created_at,
            },
        ),
{
    let line = line_text(LineVersion::V3, service, key, ciphertext);
    law_a_store_request_carries_the_line(engram, line);
    law_what_a_memory_contributes(memory, LineVersion::V3, service, key, ciphertext, stored);
}

/// The request to delete names the memory, at the address of the service, with its
/// key.
pub proof fn law_a_delete_request_names_the_memory(service: EngramModel, id: u64)
    ensures
        ({
            let q = service.delete_request(id);
            &&& q.method == HttpMethod::Delete
            &&& q.url == service.url + "/memory/"@ + decimal(id as nat)
            &&& q.authorization == "Bearer "@ + service.key
            &&& q.query.len() == 0
            &&& q.body is None
        }),
{
}

/// The request to list asks for credentials, up to the limit, at the address of
/// the service, with its key.
pub proof fn law_a_list_request_names_the_limit(service: EngramModel, limit: u64)
    ensures
        ({
            let q = service.list_request(limit);
            &&& q.method == HttpMethod::Get
            &&& q.url == service.url + "/list"@
            &&& q.authorization == "Bearer "@ + service.key
            &&& q.query == seq![("category"@, "credential"@), ("limit"@, decimal(limit as nat))]
            &&& q.body is None
        }),
{
}

/// The service is the one of the address and key given; without the address, or
/// without the key, there is none.
pub proof fn law_the_service_is_the_one_named(url: Seq<char>, key: Seq<char>)
    ensures
        EngramModel::from_env(Some(url), Some(key)) == Ok::<EngramModel, ErrorModel>(
            EngramModel { url, key },
        ),
        EngramModel::from_env(None, Some(key)) == Err::<EngramModel, ErrorModel>(
            ErrorModel::EngramUrlNotSet,
        ),
        EngramModel::from_env(None, None) == Err::<EngramModel, ErrorModel>(
            ErrorModel::EngramUrlNotSet,
        ),
        EngramModel::from_env(Some(url), None) == Err::<EngramModel, ErrorModel>(
            ErrorModel::EngramKeyNotSet,
        ),
{
}

/// An answer is a success from 200 up to 299; and a memory that is not there is as
/// good as deleted.
pub proof fn law_successful_answers(op: EngramOp, code: u16)
    ensures
        200 <= code <= 299 ==> success_code(op, code),
        (code < 200 || code > 299) && code != 404 ==> !success_code(op, code),
        success_code(op, 404) <==> op == EngramOp::Delete,
{
}

/// The first limit is 500, and each one after a limit that was reached is twice as
/// large, as long as there are numbers for it.
pub proof fn law_limits_double(limit: u64)
    ensures
        FIRST_LIMIT == 500,
        2 * limit <= u64::MAX ==> next_limit(limit) == 2 * limit,
        2 * limit > u64::MAX ==> next_limit(limit) == u64::MAX,
{
}

// ---------------------------------------------------------------------------
// Listing
// ---------------------------------------------------------------------------

/// What a memory contributes is what its line is made of: path and body unchanged,
/// under the id of the memory, or under the new one where a line of an older
/// version was stored again.
pub proof fn law_what_a_memory_contributes(
    memory: MemoryModel,
    version: LineVersion,
    service: Seq<char>,
    key: Seq<char>,
    body: Seq<char>,
    stored: Option<u64>,
)
    requires
        plain_path(service, key),
        memory.content == line_text(version, service, key, body),
    ensures
        memory_parts(memory) == Some(((service, key, body), version != LineVersion::V3)),
        contributed(memory, stored) == Some(
            RawModel {
                id: match stored {
                    Some(id) if version != LineVersion::V3 => id,
                    _ => memory.id,
                },
                service,
                key,
                ciphertext: body,
                created_at: memory.created_at,
            },
        ),
{
    law_any_line_is_parsed_into_its_parts(version, service, key, body, memory.content);
    law_version_is_told_by_the_start(memory.content);
}

/// Only memories that hold a line contribute.
pub proof fn law_only_lines_contribute(memory: MemoryModel, stored: Option<u64>)
    ensures
        contributed(memory, stored) is Some ==> exists|
            v: LineVersion,
            s: Seq<char>,
            k: Seq<char>,
            b: Seq<char>,
        |
            memory.content == #[trigger] line_text(v, s, k, b) && plain_path(s, k),
        contributed(memory, stored) is Some <==> memory_parts(memory) is Some,
{
    if let Some((parts, _legacy)) = memory_parts(memory) {
        law_any_line_is_parsed_into_its_parts(
            LineVersion::V3,
            parts.0,
            parts.1,
            parts.2,
            memory.content,
        );
    }
}

/// What the first memories contribute grows with each memory by what that one
/// contributes.
pub proof fn law_contributions_come_one_by_one(
    memories: Seq<MemoryModel>,
    stored: spec_fn(int) -> Option<u64>,
    n: nat,
)
    ensures
        collected(memories, stored, 0) == Seq::<RawModel>::empty(),
        contributed(memories[n as int], stored(n as int)) is None ==> collected(
            memories,
            stored,
            n + 1,
        ) == collected(memories, stored, n),
        contributed(memories[n as int], stored(n as int)) matches Some(secret) ==> collected(
            memories,
            stored,
            n + 1,
        ) == collected(memories, stored, n).push(secret),
{
}

/// A listing starts with all memories ahead of it and nothing found. It passes
/// memories that need nothing, with what they contribute, and stops only at a line
/// of an older version, or at the end.
pub proof fn law_a_listing_goes_on_to_the_next_older_line(
    listing: RawListingModel,
    stored: spec_fn(int) -> Option<u64>,
)
    requires
        0 <= listing.at <= listing.memories.len(),
        listing.secrets == collected(listing.memories, stored, listing.at as nat),
    ensures
        ({
            let here = listing.scanned();
            &&& here.memories == listing.memories
            &&& listing.at <= here.at <= here.memories.len()
            &&& here.secrets == collected(here.memories, stored, here.at as nat)
            &&& forall|i: int|
                listing.at <= i < here.at ==> (memory_parts(
                    #[trigger] listing.memories[i],
                ) matches Some((_parts, legacy)) ==> !legacy)
            &&& here.at < here.memories.len() ==> (memory_parts(
                here.memories[here.at],
            ) matches Some((_parts, legacy)) && legacy)
        }),
        RawListingModel::start(listing.memories).at == 0,
        RawListingModel::start(listing.memories).memories == listing.memories,
        RawListingModel::start(listing.memories).secrets == Seq::<RawModel>::empty(),
    decreases listing.memories.len() - listing.at,
{
    if listing.at < listing.memories.len() {
        let memory = listing.memories[listing.at];
        match memory_parts(memory) {
            Some((parts, legacy)) => {
                if !legacy {
                    law_a_listing_goes_on_to_the_next_older_line(
                        RawListingModel {
                            memories: listing.memories,
                            at: listing.at + 1,
                            secrets: collected(
                                listing.memories,
                                stored,
                                (listing.at + 1) as nat,
                            ),
                        },
                        stored,
                    );
                }
            },
            None => {
                law_a_listing_goes_on_to_the_next_older_line(
                    RawListingModel { at: listing.at + 1, ..listing },
                    stored,
                );
            },
        }
    }
}

/// A line of an older version is stored again with the same path and body: only its
/// tag changes. Its secret is listed with them, under the new id, or under the old
/// one where it could not be stored.
pub proof fn law_only_the_tag_changes(migration: RawMigrationModel, new_id: u64)
    requires
        migration.valid(),
    ensures
        exists|rest: Seq<char>|
            {
                &&& migration.content() == #[trigger] ("[CRED:v3] "@ + rest)
                &&& migration.memory().content == "[CRED] "@ + rest || migration.memory().content
                    == "[CRED:v2] "@ + rest
            },
        migration.content() == "[CRED:v3] "@ + migration.service + "/"@ + migration.key + " = "@
            + migration.ciphertext,
        migration.memory() == migration.listing.memories[migration.listing.at],
        ({
            let secret = RawModel {
                id: new_id,
                service: migration.service,
                key: migration.key,
                ciphertext: migration.ciphertext,
                created_at: migration.memory().created_at,
            };
            &&& migration.stored(Some(new_id)) == (RawListingModel {
                memories: migration.listing.memories,
                at: migration.listing.at + 1,
                secrets: migration.listing.secrets.push(secret),
            })
            &&& migration.stored(None) == (RawListingModel {
                memories: migration.listing.memories,
                at: migration.listing.at + 1,
                secrets: migration.listing.secrets.push(
                    RawModel { id: migration.memory().id, ..secret },
                ),
            })
        }),
{
    let (s, k, b) = (migration.service, migration.key, migration.ciphertext);
    let content = migration.memory().content;
    law_line_is_written_so(s, k, b);
    let rest = s + "/"@ + k + " = "@ + b;
    law_any_line_is_parsed_into_its_parts(LineVersion::V3, s, k, b, content);
    let v = choose|v: LineVersion|
        {
            &&& content == #[trigger] line_text(v, s, k, b)
            &&& true == (v != LineVersion::V3)
            &&& plain_path(s, k)
        };
    assert(content == line_text(v, s, k, b));
    assert("[CRED:v3] "@ + s + "/"@ + k + " = "@ + b =~= "[CRED:v3] "@ + rest);
    assert("[CRED:v2] "@ + s + "/"@ + k + " = "@ + b =~= "[CRED:v2] "@ + rest);
    assert("[CRED] "@ + s + "/"@ + k + " = "@ + b =~= "[CRED] "@ + rest);
    assert(migration.content() == "[CRED:v3] "@ + rest);
}

// ---------------------------------------------------------------------------
// Storing, finding and deleting
// ---------------------------------------------------------------------------

/// The ids of entries are their own, in their order.
pub proof fn law_ids_are_those_of_the_entries(list: Seq<RawModel>)
    ensures
        raw_ids(list).len() == list.len(),
        forall|i: int| 0 <= i < list.len() ==> #[trigger] raw_ids(list)[i] == list[i].id,
{
}

/// The entries at a path are those with its service and key, in their order.
pub proof fn law_entries_at_a_path(
    list: Seq<RawModel>,
    p: Path,
    lies_there: spec_fn(RawModel) -> bool,
)
    requires
        forall|v: RawModel| #[trigger] lies_there(v) <==> v.service == p.0 && v.key == p.1,
    ensures
        raw_at(list, p) == list.filter(lies_there),
{
    law_items_at_a_path::<RawSecret>(list, p, lies_there);
}

/// Looking for an entry gives the newest at the path, or says that there is none;
/// a failed listing is handed on.
pub proof fn law_looking_for_an_entry(all: Seq<RawModel>, p: Path, e: ErrorModel)
    ensures
        newest_at::<RawSecret>(all, p) matches Some(v) ==> raw_found(Ok(all), p) == Ok::<
            RawModel,
            ErrorModel,
        >(v),
        newest_at::<RawSecret>(all, p) is None ==> raw_found(Ok(all), p) == Err::<
            RawModel,
            ErrorModel,
        >(ErrorModel::SecretNotFound { service: p.0, key: p.1 }),
        raw_found(Err(e), p) == Err::<RawModel, ErrorModel>(e),
{
}

/// The entries of a listing are those listed, and none where it failed.
pub proof fn law_listed_entries(all: Vec<RawSecret>, e: CredError)
    ensures
        listed_raw(Ok(all)) == views(all@),
        listed_raw(Err(e)) == Seq::<RawModel>::empty(),
{
}

/// What is left once memories are gone is all that is kept under other ids.
pub proof fn law_what_is_left(all: Seq<RawModel>, ids: Seq<u64>, i: int)
    ensures
        0 <= i < all.len() && !ids.contains(all[i].id) ==> raw_without(all, ids).contains(all[i]),
        0 <= i < raw_without(all, ids).len() ==> !ids.contains(raw_without(all, ids)[i].id),
{
    let stays = |v: RawModel| !ids.contains(v.id);
    if 0 <= i < all.len() && !ids.contains(all[i].id) {
        all.lemma_filter_contains(stays, i);
    }
    if 0 <= i < raw_without(all, ids).len() {
        all.lemma_filter_pred(stays, i);
    }
}

// ---------------------------------------------------------------------------
// Removing
// ---------------------------------------------------------------------------

/// A replacement deletes first; stores once that succeeded; and gives what came of
/// storing. A failed deletion ends it.
pub proof fn law_replacing_goes_so(
    ids: Seq<u64>,
    outcomes: Seq<Result<(), ErrorModel>>,
    stored: Option<Result<u64, ErrorModel>>,
)
    ensures
        removal(ids, outcomes) matches RemovalModel::Delete(id) ==> replacement(
            ids,
            outcomes,
            stored,
        ) == ReplaceModel::Delete(id),
        removal(ids, outcomes) matches RemovalModel::Done(Err(e)) ==> replacement(
            ids,
            outcomes,
            stored,
        ) == ReplaceModel::Done(Err(e)),
        removal(ids, outcomes) matches RemovalModel::Done(Ok(_)) ==> (match stored {
            None => replacement(ids, outcomes, stored) is Store,
            Some(r) => replacement(ids, outcomes, stored) == ReplaceModel::Done(r),
        }),
{
}

/// The memories that are deleted are those asked for before the first failure, and
/// a removal has succeeded exactly where these are all.
pub proof fn law_deleted_up_to_the_first_failure(
    ids: Seq<u64>,
    outcomes: Seq<Result<(), ErrorModel>>,
    n: int,
)
    requires
        0 <= n <= ids.len(),
        n <= outcomes.len(),
        forall|i: int| 0 <= i < n ==> (#[trigger] outcomes[i]) is Ok,
        n == ids.len() || n == outcomes.len() || outcomes[n] is Err,
    ensures
        deleted_ids(ids, outcomes) == ids.take(n),
        removed(ids, outcomes) <==> n == ids.len(),
    decreases n,
{
    if n > 0 {
        let (a, b) = (ids.skip(1), outcomes.skip(1));
        assert(outcomes[0] is Ok);
        assert forall|i: int| 0 <= i < n - 1 implies (#[trigger] b[i]) is Ok by {
            assert(b[i] == outcomes[i + 1]);
        }
        law_deleted_up_to_the_first_failure(a, b, n - 1);
        assert(ids.take(n) =~= seq![ids[0]] + a.take(n - 1));
    } else {
        assert(ids.take(0) =~= Seq::<u64>::empty());
    }
}

/// A step that is given out is the one meant, and outcomes are taken as they are.
pub proof fn law_removal_steps_are_given_as_they_are<L, T>(
    r: RemovalStep,
    m: RemovalModel,
    s: ReplaceStep<L>,
    n: ReplaceModel,
    t: T,
    e: CredError,
    outcomes: Seq<Result<(), CredError>>,
    stored: Result<u64, CredError>,
)
    ensures
        removal_step_is(r, m) ==> (match (r, m) {
            (RemovalStep::Delete(a), RemovalModel::Delete(b)) => a == b,
            (RemovalStep::Done(Ok(_)), RemovalModel::Done(Ok(_))) => true,
            (RemovalStep::Done(Err(a)), RemovalModel::Done(Err(b))) => a@ == b,
            _ => false,
        }),
        replace_step_is(s, n) ==> (match (s, n) {
            (ReplaceStep::Delete(a), ReplaceModel::Delete(b)) => a == b,
            (ReplaceStep::Store(_), ReplaceModel::Store) => true,
            (ReplaceStep::Done(Ok(a)), ReplaceModel::Done(Ok(b))) => a == b,
            (ReplaceStep::Done(Err(a)), ReplaceModel::Done(Err(b))) => a@ == b,
            _ => false,
        }),
        outcome_view(Ok::<T, CredError>(t)) == Ok::<T, ErrorModel>(t),
        outcome_view(Err::<T, CredError>(e)) == Err::<T, ErrorModel>(e@),
        outcome_views(outcomes).len() == outcomes.len(),
        forall|i: int|
            0 <= i < outcomes.len() ==> #[trigger] outcome_views(outcomes)[i] == outcome_view(
                outcomes[i],
            ),
        stored_view(Some(stored)) == Some(outcome_view(stored)),
        stored_view(None) is None,
{
}

} // verus!
