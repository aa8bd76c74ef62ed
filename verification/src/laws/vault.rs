//! What listing, storing, finding and deleting secrets promises.
use crate::api::MemoryModel;
use crate::error::{CredError, ErrorModel};
use crate::laws::lists::law_items_at_a_path;
use crate::laws::lines::law_version_is_told_by_the_start;
use crate::order::{newest_at, path_fn, sorted_by_path, views, Path};
use crate::secret::{
    decoded, DecodingModel, OpenedModel, OpeningModel, SealedModel, Secret, SecretModel,
};
use crate::store::{
    collected, contributed, deletion, known_ids, listed, memory_decoded, secret_found, secrets_at,
    step_is, stored_again, without, CredStep, ListingModel, Outcomes, StepModel,
};
use crate::value::ValueModel;
use vstd::prelude::*;

verus! {

/// What a memory holds is read with the id of the memory, and with the key.
pub proof fn law_memories_are_read_under_their_id(memory: MemoryModel)
    ensures
        memory_decoded(memory) == decoded(memory.content, memory.id, true),
{
    law_version_is_told_by_the_start(memory.content);
}

/// A listing starts with all memories ahead of it and nothing found. It goes on to
/// the next memory that can be read, passes nothing else, and is over at the end
/// with what was found.
pub proof fn law_a_listing_goes_on_to_the_next_secret(listing: ListingModel)
    requires
        0 <= listing.at <= listing.memories.len(),
    ensures
        ListingModel::start(listing.memories) == (ListingModel {
            memories: listing.memories,
            at: 0,
            secrets: Seq::empty(),
        }),
        match listing.next() {
            StepModel::Done(secrets) => {
                &&& secrets == listing.secrets
                &&& forall|i: int|
                    listing.at <= i < listing.memories.len() ==> memory_decoded(
                        #[trigger] listing.memories[i],
                    ) is None
            },
            StepModel::Decrypt(here, sealed) => {
                &&& stopped(listing, here)
                &&& memory_decoded(here.memories[here.at]) == Some(DecodingModel::Sealed(sealed))
            },
            StepModel::Migrate(here, secret) => {
                &&& stopped(listing, here)
                &&& memory_decoded(here.memories[here.at]) == Some(DecodingModel::Complete(secret))
            },
            StepModel::Parse(_, _) => false,
        },
    decreases listing.memories.len() - listing.at,
{
    if listing.at < listing.memories.len() && memory_decoded(listing.memories[listing.at]) is None {
        let next = ListingModel { at: listing.at + 1, ..listing };
        assert(listing.passed(None) == next);
        law_a_listing_goes_on_to_the_next_secret(next);
        match listing.next() {
            StepModel::Decrypt(here, _) => {
                lemma_stopped(listing, next, here);
            },
            StepModel::Migrate(here, _) => {
                lemma_stopped(listing, next, here);
            },
            _ => {},
        }
    }
}

/// The listing stopped at a later memory, with nothing readable on the way and
/// nothing found.
pub open spec fn stopped(listing: ListingModel, here: ListingModel) -> bool {
    &&& here.memories == listing.memories
    &&& here.secrets == listing.secrets
    &&& listing.at <= here.at < here.memories.len()
    &&& forall|i: int|
        listing.at <= i < here.at ==> memory_decoded(#[trigger] listing.memories[i]) is None
}

proof fn lemma_stopped(listing: ListingModel, next: ListingModel, here: ListingModel)
    requires
        listing.at + 1 == next.at,
        next.memories == listing.memories,
        next.secrets == listing.secrets,
        memory_decoded(listing.memories[listing.at]) is None,
        stopped(next, here),
    ensures
        stopped(listing, here),
{
}

/// What is decrypted is read on; what is parsed is found; what is stored again is
/// found under the new id, and under its own where it could not be. What cannot be
/// decrypted, read or parsed is passed over.
pub proof fn law_outcomes_are_taken_in(
    listing: ListingModel,
    sealed: SealedModel,
    opened: OpenedModel,
    secret: SecretModel,
    plain: Option<Seq<u8>>,
    value: ValueModel,
    id: u64,
)
    ensures
        match sealed.opened(plain) {
            Some(OpeningModel::Complete(s)) => listing.decrypted(sealed, plain)
                == StepModel::Migrate(listing, s),
            Some(OpeningModel::Serialized(o)) => listing.decrypted(sealed, plain)
                == StepModel::Parse(listing, o),
            None => listing.decrypted(sealed, plain) == (ListingModel {
                at: listing.at + 1,
                ..listing
            }).next(),
        },
        opened.with_value(Some(value)) matches Some(s) && listing.parsed(opened, Some(value)) == (
        ListingModel {
            memories: listing.memories,
            at: listing.at + 1,
            secrets: listing.secrets.push(s),
        }).next(),
        listing.parsed(opened, None) == (ListingModel { at: listing.at + 1, ..listing }).next(),
        listing.stored(secret, Some(id)) == (ListingModel {
            memories: listing.memories,
            at: listing.at + 1,
            secrets: listing.secrets.push(SecretModel { engram_id: Some(id), ..secret }),
        }),
        listing.stored(secret, None) == (ListingModel {
            memories: listing.memories,
            at: listing.at + 1,
            secrets: listing.secrets.push(secret),
        }),
{
}

/// What a memory contributes is the secret that is read from it; under the new id
/// where it was of an older version and was stored again.
pub proof fn law_what_a_memory_contributes(memory: MemoryModel, i: int, outcomes: Outcomes)
    ensures
        match memory_decoded(memory) {
            None => contributed(memory, i, outcomes) is None,
            Some(DecodingModel::Complete(s)) => contributed(memory, i, outcomes) == Some(
                under(s, (outcomes.stored)(i)),
            ),
            Some(DecodingModel::Sealed(sealed)) => match sealed.opened((outcomes.plaintext)(i)) {
                None => contributed(memory, i, outcomes) is None,
                Some(OpeningModel::Complete(s)) => contributed(memory, i, outcomes) == Some(
                    under(s, (outcomes.stored)(i)),
                ),
                Some(OpeningModel::Serialized(o)) => contributed(memory, i, outcomes)
                    == o.with_value((outcomes.value)(i)),
            },
        },
{
}

/// The secret under the new id, or as it is where there is none.
pub open spec fn under(secret: SecretModel, id: Option<u64>) -> SecretModel {
    if id is Some {
        SecretModel { engram_id: id, ..secret }
    } else {
        secret
    }
}

/// What the first memories contribute grows with each memory by what that one
/// contributes.
pub proof fn law_contributions_come_one_by_one(
    memories: Seq<MemoryModel>,
    outcomes: Outcomes,
    n: nat,
)
    ensures
        collected(memories, outcomes, 0) == Seq::<SecretModel>::empty(),
        contributed(memories[n as int], n as int, outcomes) is None ==> collected(
            memories,
            outcomes,
            n + 1,
        ) == collected(memories, outcomes, n),
        contributed(memories[n as int], n as int, outcomes) matches Some(secret) ==> collected(
            memories,
            outcomes,
            n + 1,
        ) == collected(memories, outcomes, n).push(secret),
{
}

/// A step that is given out is the one meant; at the end, the secrets found are
/// given in the order of their paths.
pub proof fn law_steps_are_given_as_they_are(step: CredStep, model: StepModel)
    requires
        step_is(step, model),
    ensures
        match (step, model) {
            (CredStep::Done(secrets), StepModel::Done(found)) => sorted_by_path(
                found,
                views(secrets@),
                path_fn::<Secret>(),
            ),
            (CredStep::Decrypt(p), StepModel::Decrypt(l, s)) => p@.0 == l && p@.1 == s,
            (CredStep::Parse(p), StepModel::Parse(l, o)) => p@.0 == l && p@.1 == o,
            (CredStep::Migrate(p), StepModel::Migrate(l, s)) => p@.0 == l && p@.1 == s,
            _ => false,
        },
{
}

/// The known ids of secrets are those that they have, in their order.
pub proof fn law_known_ids_come_one_by_one(list: Seq<SecretModel>, secret: SecretModel)
    ensures
        known_ids(Seq::<SecretModel>::empty()) == Seq::<u64>::empty(),
        secret.engram_id matches Some(id) ==> known_ids(list.push(secret)) == known_ids(list).push(
            id,
        ),
        secret.engram_id is None ==> known_ids(list.push(secret)) == known_ids(list),
{
    assert(list.push(secret).drop_last() =~= list);
}

/// The secrets at a path are those with its service and key, in their order.
pub proof fn law_secrets_at_a_path(
    list: Seq<SecretModel>,
    p: Path,
    lies_there: spec_fn(SecretModel) -> bool,
)
    requires
        forall|v: SecretModel| #[trigger] lies_there(v) <==> v.service == p.0 && v.key == p.1,
    ensures
        secrets_at(list, p) == list.filter(lies_there),
{
    law_items_at_a_path::<Secret>(list, p, lies_there);
}

/// Looking for a secret gives the newest at the path, or says that there is none;
/// a failed listing is handed on. Deleting names the memory of the newest, and
/// finds nothing where there is none or the listing failed.
pub proof fn law_looking_and_deleting(all: Seq<SecretModel>, p: Path, e: ErrorModel)
    ensures
        match newest_at::<Secret>(all, p) {
            Some(v) => {
                &&& secret_found(Ok(all), p) == Ok::<SecretModel, ErrorModel>(v)
                &&& v.engram_id matches Some(id) ==> deletion(Ok(all), p) == Ok::<u64, ErrorModel>(
                    id,
                )
                &&& v.engram_id is None ==> deletion(Ok(all), p) == Err::<u64, ErrorModel>(
                    ErrorModel::NoEngramId,
                )
            },
            None => {
                &&& secret_found(Ok(all), p) == Err::<SecretModel, ErrorModel>(
                    ErrorModel::SecretNotFound { service: p.0, key: p.1 },
                )
                &&& deletion(Ok(all), p) == Err::<u64, ErrorModel>(
                    ErrorModel::SecretNotFound { service: p.0, key: p.1 },
                )
            },
        },
        secret_found(Err(e), p) == Err::<SecretModel, ErrorModel>(e),
        deletion(Err(e), p) == Err::<u64, ErrorModel>(
            ErrorModel::SecretNotFound { service: p.0, key: p.1 },
        ),
{
}

/// The secrets of a listing are those listed, and none where it failed.
pub proof fn law_listed_secrets(all: Vec<Secret>, e: CredError)
    ensures
        listed(Ok(all)) == views(all@),
        listed(Err(e)) == Seq::<SecretModel>::empty(),
{
}

/// What is left once memories are gone is all that is kept under other ids, or
/// under none.
pub proof fn law_what_is_left(all: Seq<SecretModel>, ids: Seq<u64>, i: int, id: u64)
    ensures
        0 <= i < all.len() && all[i].engram_id == Some(id) && !ids.contains(id) ==> without(
            all,
            ids,
        ).contains(all[i]),
        0 <= i < without(all, ids).len() && ids.contains(id) ==> without(all, ids)[i].engram_id
            != Some(id),
{
    let stays = |v: SecretModel|
        match v.engram_id {
            Some(id) => !ids.contains(id),
            None => true,
        };
    if 0 <= i < all.len() && all[i].engram_id == Some(id) && !ids.contains(id) {
        all.lemma_filter_contains(stays, i);
    }
    if 0 <= i < without(all, ids).len() {
        all.lemma_filter_pred(stays, i);
    }
}

/// A secret that was stored again differs in its id only.
pub proof fn law_storing_again_changes_the_id_only(secret: SecretModel, id: u64)
    ensures
        stored_again(secret, Some(id)) == (SecretModel { engram_id: Some(id), ..secret }),
        stored_again(secret, None) == secret,
{
}

} // verus!
