//! What sorting and finding promise.
use crate::backend::RawSecret;
use crate::order::{
    at_path, law_newest_has_greatest_stamp, lemma_at_path_empty, lemma_at_path_push, newest_at,
    path_fn, path_le, sorted_by_path, stamp_fn, views, Keyed, Path, Stamped,
};
use crate::secret::Secret;
use crate::text::text_le;
use vstd::prelude::*;

verus! {

/// Entries are kept under their own service and key, and the newer of two has the
/// greater id; a secret without an id is older than all with a positive one.
pub proof fn law_entries_go_by_their_path_and_id(raw: RawSecret, secret: Secret)
    ensures
        raw@.id == raw.id,
        raw@.service == raw.service@,
        raw@.key == raw.key@,
        raw@.ciphertext == raw.ciphertext@,
        match (raw.created_at, raw@.created_at) {
            (Some(a), Some(b)) => a@ == b,
            (None, None) => true,
            _ => false,
        },
        RawSecret::path_of(raw@) == (raw.service@, raw.key@),
        RawSecret::stamp_of(raw@) == raw.id,
        Secret::path_of(secret@) == (secret.service@, secret.key@),
        secret.engram_id matches Some(id) ==> Secret::stamp_of(secret@) == id,
        secret.engram_id is None ==> Secret::stamp_of(secret@) == 0,
{
}

/// Paths are ordered by service, and by key within a service.
pub proof fn law_paths_are_ordered_by_service_before_key(a: Path, b: Path)
    ensures
        a.0 != b.0 ==> (path_le(a, b) <==> text_le(a.0, b.0)),
        a.0 == b.0 ==> (path_le(a, b) <==> text_le(a.1, b.1)),
{
}

/// The items at a path are the items of the list with that path, in their order.
pub proof fn law_items_at_a_path<T: Keyed>(
    list: Seq<T::V>,
    p: Path,
    lies_there: spec_fn(T::V) -> bool,
)
    requires
        forall|v: T::V| #[trigger] lies_there(v) <==> T::path_of(v) == p,
    ensures
        at_path(list, path_fn::<T>(), p) == list.filter(lies_there),
    decreases list.len(),
{
    reveal(Seq::filter);
    let path = path_fn::<T>();
    if list.len() == 0 {
        lemma_at_path_empty::<T::V>(path, p);
        assert(list =~= Seq::<T::V>::empty());
    } else {
        let c = list.drop_last();
        let x = list.last();
        law_items_at_a_path::<T>(c, p, lies_there);
        assert(list =~= c.push(x));
        lemma_at_path_push(c, path, p, x);
        assert(lies_there(x) <==> path(x) == p);
    }
}

/// A sorted list has its items in the order of their paths, and has of each path
/// the very items that the list had, in their order.
pub proof fn law_sorting_orders_and_keeps<T: Keyed>(
    list: Seq<T::V>,
    sorted: Seq<T::V>,
    p: Path,
    lies_there: spec_fn(T::V) -> bool,
)
    requires
        sorted_by_path(list, sorted, path_fn::<T>()),
        forall|v: T::V| #[trigger] lies_there(v) <==> T::path_of(v) == p,
    ensures
        forall|i: int, j: int|
            0 <= i < j < sorted.len() ==> path_le(
                T::path_of(#[trigger] sorted[i]),
                T::path_of(#[trigger] sorted[j]),
            ),
        sorted.filter(lies_there) == list.filter(lies_there),
{
    let path = path_fn::<T>();
    law_items_at_a_path::<T>(list, p, lies_there);
    law_items_at_a_path::<T>(sorted, p, lies_there);
    assert(at_path(sorted, path, p) == at_path(list, path, p));
    assert forall|i: int, j: int| 0 <= i < j < sorted.len() implies path_le(
        T::path_of(#[trigger] sorted[i]),
        T::path_of(#[trigger] sorted[j]),
    ) by {
        assert(path_le(path(sorted[i]), path(sorted[j])));
    }
}

/// What is found at a path is the last of those items with the path that have the
/// greatest stamp among them; nothing is found where there are none.
pub proof fn law_the_newest_is_found<T: Stamped>(
    list: Seq<T::V>,
    p: Path,
    lies_there: spec_fn(T::V) -> bool,
)
    requires
        forall|v: T::V| #[trigger] lies_there(v) <==> T::path_of(v) == p,
    ensures
        ({
            let here = list.filter(lies_there);
            match newest_at::<T>(list, p) {
                Some(v) => exists|k: int|
                    {
                        &&& 0 <= k < here.len()
                        &&& #[trigger] here[k] == v
                        &&& forall|j: int|
                            0 <= j < here.len() ==> T::stamp_of(#[trigger] here[j])
                                <= T::stamp_of(v)
                        &&& forall|j: int|
                            k < j < here.len() ==> T::stamp_of(#[trigger] here[j])
                                < T::stamp_of(v)
                    },
                None => here.len() == 0,
            }
        }),
{
    law_items_at_a_path::<T>(list, p, lies_there);
    let here = list.filter(lies_there);
    let stamp = stamp_fn::<T>();
    law_newest_has_greatest_stamp(here, stamp);
    if let Some(v) = newest_at::<T>(list, p) {
        let k = choose|k: int|
            {
                &&& 0 <= k < here.len()
                &&& #[trigger] here[k] == v
                &&& forall|j: int| 0 <= j < here.len() ==> stamp(#[trigger] here[j]) <= stamp(v)
                &&& forall|j: int| k < j < here.len() ==> stamp(#[trigger] here[j]) < stamp(v)
            };
        assert forall|j: int| 0 <= j < here.len() implies T::stamp_of(#[trigger] here[j])
            <= T::stamp_of(v) by {
            assert(stamp(here[j]) <= stamp(v));
        }
        assert forall|j: int| k < j < here.len() implies T::stamp_of(#[trigger] here[j])
            < T::stamp_of(v) by {
            assert(stamp(here[j]) < stamp(v));
        }
    }
}

/// The views of a list are those of its items, one for each.
pub proof fn law_views_are_those_of_the_items<T: View>(list: Seq<T>)
    ensures
        views(list).len() == list.len(),
        forall|i: int| 0 <= i < list.len() ==> #[trigger] views(list)[i] == list[i]@,
{
}

} // verus!
