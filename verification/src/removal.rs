//! Removing memories one after the other, and what may follow only once all of
//! them are removed.
//!
//! Each operation here is told what came of the deletions asked for so far, and
//! says what is to be done next or what the operation gives.
use crate::error::{CredError, ErrorModel};
use vstd::prelude::*;

verus! {

/// What comes next in removing memories.
pub enum RemovalStep {
    /// The memory of this id is to be deleted.
    Delete(u64),
    /// The removal is over.
    Done(Result<(), CredError>),
}

/// What comes next in putting something in the place of memories.
pub enum ReplaceStep<L> {
    /// The memory of this id is to be deleted.
    Delete(u64),
    /// What takes their place is to be stored.
    Store(L),
    /// The replacement is over; the id of what was stored.
    Done(Result<u64, CredError>),
}

/// What comes next in removing memories, as text.
pub enum RemovalModel {
    Delete(u64),
    Done(Result<(), ErrorModel>),
}

/// What comes next in putting something in the place of memories, as text.
pub enum ReplaceModel {
    Delete(u64),
    Store,
    Done(Result<u64, ErrorModel>),
}

/// What came of one piece of work, as text.
pub open spec fn outcome_view<T>(outcome: Result<T, CredError>) -> Result<T, ErrorModel> {
    match outcome {
        Ok(t) => Ok(t),
        Err(e) => Err(e@),
    }
}

/// What came of the deletions so far, as text.
pub open spec fn outcome_views(outcomes: Seq<Result<(), CredError>>) -> Seq<
    Result<(), ErrorModel>,
> {
    outcomes.map_values(|o: Result<(), CredError>| outcome_view(o))
}

/// What came of storing, as text, where it was tried.
pub open spec fn stored_view(stored: Option<Result<u64, CredError>>) -> Option<
    Result<u64, ErrorModel>,
> {
    match stored {
        Some(outcome) => Some(outcome_view(outcome)),
        None => None,
    }
}

/// What comes next in removing the memories of the given ids: they are deleted in
/// their order, and the first deletion that fails ends the removal.
pub open spec fn removal(ids: Seq<u64>, outcomes: Seq<Result<(), ErrorModel>>) -> RemovalModel
    decreases ids.len(),
{
    if ids.len() == 0 {
        RemovalModel::Done(Ok(()))
    } else if outcomes.len() == 0 {
        RemovalModel::Delete(ids[0])
    } else {
        match outcomes[0] {
            Ok(_) => removal(ids.skip(1), outcomes.skip(1)),
            Err(e) => RemovalModel::Done(Err(e)),
        }
    }
}

/// The removal is over and succeeded.
pub open spec fn removed(ids: Seq<u64>, outcomes: Seq<Result<(), ErrorModel>>) -> bool {
    removal(ids, outcomes) matches RemovalModel::Done(r) && r is Ok
}

/// What comes next in putting something in the place of the memories of the given
/// ids: it is stored once all of them are removed.
pub open spec fn replacement(
    ids: Seq<u64>,
    outcomes: Seq<Result<(), ErrorModel>>,
    stored: Option<Result<u64, ErrorModel>>,
) -> ReplaceModel {
    match removal(ids, outcomes) {
        RemovalModel::Delete(id) => ReplaceModel::Delete(id),
        RemovalModel::Done(Err(e)) => ReplaceModel::Done(Err(e)),
        RemovalModel::Done(Ok(_)) => match stored {
            Some(outcome) => ReplaceModel::Done(outcome),
            None => ReplaceModel::Store,
        },
    }
}

/// The ids of the memories that are deleted: those before the first failure.
pub open spec fn deleted_ids(ids: Seq<u64>, outcomes: Seq<Result<(), ErrorModel>>) -> Seq<u64>
    decreases ids.len(),
{
    if ids.len() == 0 || outcomes.len() == 0 {
        Seq::empty()
    } else {
        match outcomes[0] {
            Ok(_) => seq![ids[0]] + deleted_ids(ids.skip(1), outcomes.skip(1)),
            Err(_) => Seq::empty(),
        }
    }
}

/// The step is the one modelled.
pub open spec fn removal_step_is(step: RemovalStep, model: RemovalModel) -> bool {
    match (step, model) {
        (RemovalStep::Delete(id), RemovalModel::Delete(i)) => id == i,
        (RemovalStep::Done(r), RemovalModel::Done(d)) => outcome_view(r) == d,
        _ => false,
    }
}

/// The step is the one modelled.
pub open spec fn replace_step_is<L>(step: ReplaceStep<L>, model: ReplaceModel) -> bool {
    match (step, model) {
        (ReplaceStep::Delete(id), ReplaceModel::Delete(i)) => id == i,
        (ReplaceStep::Store(_), ReplaceModel::Store) => true,
        (ReplaceStep::Done(r), ReplaceModel::Done(d)) => outcome_view(r) == d,
        _ => false,
    }
}

/// What comes next in removing the memories of the given ids.
pub fn removal_step(ids: &Vec<u64>, outcomes: &Vec<Result<(), CredError>>) -> (r: RemovalStep)
    ensures
        removal_step_is(r, removal(ids@, outcome_views(outcomes@))),
{
    let ghost done = outcome_views(outcomes@);
    let mut i: usize = 0;
    assert(ids@.skip(0) =~= ids@);
    assert(done.skip(0) =~= done);
    while i < ids.len()
        invariant
            i <= ids@.len(),
            i <= outcomes@.len(),
            done == outcome_views(outcomes@),
            removal(ids@, done) == removal(ids@.skip(i as int), done.skip(i as int)),
        decreases ids@.len() - i,
    {
        if i == outcomes.len() {
            return RemovalStep::Delete(ids[i]);
        }
        assert(done.skip(i as int)[0] == outcome_view(outcomes@[i as int]));
        if let Err(e) = &outcomes[i] {
            return RemovalStep::Done(Err(e.clone()));
        }
        assert(ids@.skip(i as int).skip(1) =~= ids@.skip(i + 1));
        assert(done.skip(i as int).skip(1) =~= done.skip(i + 1));
        i = i + 1;
    }
    RemovalStep::Done(Ok(()))
}

/// What comes next in putting `line` in the place of the memories of the given
/// ids; `stored` is what came of storing it, once that was tried.
pub fn replace_step<L>(
    ids: &Vec<u64>,
    line: L,
    outcomes: &Vec<Result<(), CredError>>,
    stored: &Option<Result<u64, CredError>>,
) -> (r: ReplaceStep<L>)
    ensures
        replace_step_is(r, replacement(ids@, outcome_views(outcomes@), stored_view(*stored))),
        r matches ReplaceStep::Store(l) ==> l == line,
{
    match removal_step(ids, outcomes) {
        RemovalStep::Delete(id) => ReplaceStep::Delete(id),
        RemovalStep::Done(Err(e)) => ReplaceStep::Done(Err(e)),
        RemovalStep::Done(Ok(_)) => match stored {
            Some(Ok(id)) => ReplaceStep::Done(Ok(*id)),
            Some(Err(e)) => ReplaceStep::Done(Err(e.clone())),
            None => ReplaceStep::Store(line),
        },
    }
}

// ---------------------------------------------------------------------------
// Laws
// ---------------------------------------------------------------------------

/// A removal succeeds exactly where every deletion did; the next id is asked for
/// exactly where all before it were deleted; and a removal fails with the first
/// failure.
pub proof fn law_removal_succeeds_where_every_deletion_did(
    ids: Seq<u64>,
    outcomes: Seq<Result<(), ErrorModel>>,
)
    ensures
        removed(ids, outcomes) <==> outcomes.len() >= ids.len()
            && forall|i: int| 0 <= i < ids.len() ==> (#[trigger] outcomes[i]) is Ok,
        removal(ids, outcomes) is Delete <==> outcomes.len() < ids.len() && forall|i: int|
            0 <= i < outcomes.len() ==> (#[trigger] outcomes[i]) is Ok,
        removal(ids, outcomes) matches RemovalModel::Delete(id) ==> id == ids[outcomes.len() as int],
        removal(ids, outcomes) matches RemovalModel::Done(Err(e)) ==> exists|i: int|
            {
                &&& 0 <= i < ids.len()
                &&& i < outcomes.len()
                &&& #[trigger] outcomes[i] == Err::<(), ErrorModel>(e)
                &&& forall|j: int| 0 <= j < i ==> (#[trigger] outcomes[j]) is Ok
            },
    decreases ids.len(),
{
    if ids.len() > 0 && outcomes.len() > 0 {
        if outcomes[0] is Ok {
            let (a, b) = (ids.skip(1), outcomes.skip(1));
            law_removal_succeeds_where_every_deletion_did(a, b);
            assert forall|i: int| 0 < i < outcomes.len() implies #[trigger] outcomes[i] == b[
                i - 1
            ] by {}
            assert forall|i: int| 0 <= i < b.len() implies #[trigger] b[i] == outcomes[i + 1] by {}
            if let RemovalModel::Done(Err(e)) = removal(ids, outcomes) {
                let i = choose|i: int|
                    {
                        &&& 0 <= i < a.len()
                        &&& i < b.len()
                        &&& #[trigger] b[i] == Err::<(), ErrorModel>(e)
                        &&& forall|j: int| 0 <= j < i ==> (#[trigger] b[j]) is Ok
                    };
                assert(outcomes[i + 1] == Err::<(), ErrorModel>(e));
            }
        } else {
            assert(outcomes[0] == Err::<(), ErrorModel>(outcomes[0]->Err_0));
        }
    }
}

/// Only memories of the given ids are deleted, in their order; where the removal
/// succeeds, all of them are.
pub proof fn law_successful_removal_deletes_all(
    ids: Seq<u64>,
    outcomes: Seq<Result<(), ErrorModel>>,
)
    ensures
        deleted_ids(ids, outcomes).is_prefix_of(ids),
        removed(ids, outcomes) ==> deleted_ids(ids, outcomes) == ids,
    decreases ids.len(),
{
    if ids.len() > 0 && outcomes.len() > 0 {
        law_successful_removal_deletes_all(ids.skip(1), outcomes.skip(1));
        assert(ids =~= seq![ids[0]] + ids.skip(1));
        if outcomes[0] is Ok {
            let rest = deleted_ids(ids.skip(1), outcomes.skip(1));
            let n = rest.len() as int;
            assert(ids.skip(1).subrange(0, n) =~= rest);
            assert(ids.subrange(0, n + 1) =~= seq![ids[0]] + rest);
        }
    }
}

/// Nothing is stored, and no replacement succeeds, before every memory that is
/// replaced is deleted.
pub proof fn law_nothing_is_stored_before_all_are_deleted(
    ids: Seq<u64>,
    outcomes: Seq<Result<(), ErrorModel>>,
    stored: Option<Result<u64, ErrorModel>>,
)
    requires
        ({
            let step = replacement(ids, outcomes, stored);
            step is Store || (step matches ReplaceModel::Done(r) && r is Ok)
        }),
    ensures
        outcomes.len() >= ids.len(),
        forall|i: int| 0 <= i < ids.len() ==> (#[trigger] outcomes[i]) is Ok,
        deleted_ids(ids, outcomes) == ids,
        replacement(ids, outcomes, stored) matches ReplaceModel::Done(r) ==> stored == Some(r),
{
    law_removal_succeeds_where_every_deletion_did(ids, outcomes);
    law_successful_removal_deletes_all(ids, outcomes);
}

} // verus!
