//! Lists in the order of their paths.
use crate::text::{
    lemma_text_le_antisymmetric, lemma_text_le_reflexive, lemma_text_le_total,
    lemma_text_le_transitive, not_after, text_eq, text_le,
};
use vstd::prelude::*;

verus! {

/// A service and a key.
pub type Path = (Seq<char>, Seq<char>);

/// `a` does not come after `b`: by service, and by key within a service.
pub open spec fn path_le(a: Path, b: Path) -> bool {
    if a.0 == b.0 {
        text_le(a.1, b.1)
    } else {
        text_le(a.0, b.0)
    }
}

/// The items of a list that lie at the path `p`, in their order.
pub open spec fn at_path<V>(list: Seq<V>, path: spec_fn(V) -> Path, p: Path) -> Seq<V> {
    list.filter(|v: V| path(v) == p)
}

/// No item comes before one with an earlier path.
pub open spec fn in_path_order<V>(list: Seq<V>, path: spec_fn(V) -> Path) -> bool {
    forall|i: int, j: int|
        #![trigger list[i], list[j]]
        0 <= i < j < list.len() ==> path_le(path(list[i]), path(list[j]))
}

/// `sorted` is `list` in the order of the paths, items of one path in the order
/// that they had.
pub open spec fn sorted_by_path<V>(
    list: Seq<V>,
    sorted: Seq<V>,
    path: spec_fn(V) -> Path,
) -> bool {
    &&& in_path_order(sorted, path)
    &&& forall|p: Path| #[trigger] at_path(sorted, path, p) == at_path(list, path, p)
}

/// The views of the items of a list.
pub open spec fn views<T: View>(list: Seq<T>) -> Seq<T::V> {
    list.map_values(|t: T| t@)
}

/// Something kept under a path.
pub trait Keyed: View + Sized {
    /// The path that a view lies at.
    spec fn path_of(v: Self::V) -> Path;

    /// The service of the path.
    fn service_text(&self) -> (r: &str)
        ensures
            r@ == Self::path_of(self@).0,
    ;

    /// The key of the path.
    fn key_text(&self) -> (r: &str)
        ensures
            r@ == Self::path_of(self@).1,
    ;
}

/// The path of a view, as a function.
pub open spec fn path_fn<T: Keyed>() -> spec_fn(T::V) -> Path {
    |v: T::V| T::path_of(v)
}

/// Whether `a` lies at the path `service/key`.
pub fn is_at<T: Keyed>(a: &T, service: &str, key: &str) -> (r: bool)
    ensures
        r == (T::path_of(a@) == (service@, key@)),
{
    text_eq(a.service_text(), service) && text_eq(a.key_text(), key)
}

/// Whether the path of `a` does not come after the path of `b`.
fn path_not_after<T: Keyed>(a: &T, b: &T) -> (r: bool)
    ensures
        r == path_le(T::path_of(a@), T::path_of(b@)),
{
    if text_eq(a.service_text(), b.service_text()) {
        not_after(a.key_text(), b.key_text())
    } else {
        not_after(a.service_text(), b.service_text())
    }
}

/// Puts a list in the order of its paths; items of one path keep their order.
pub fn sort_by_path<T: Keyed>(list: Vec<T>) -> (r: Vec<T>)
    ensures
        sorted_by_path(views(list@), views(r@), path_fn::<T>()),
{
    let ghost path = path_fn::<T>();
    let ghost all = views(list@);
    let mut out: Vec<T> = Vec::new();
    proof {
        assert forall|p: Path| #[trigger]
            at_path(views(out@), path, p) == at_path(all.take(0), path, p) by {
            assert(views(out@) =~= all.take(0));
        }
    }
    for item in it: list
        invariant
            path == path_fn::<T>(),
            all == views(list@),
            it.seq() == list@,
            sorted_by_path(all.take(it.index() as int), views(out@), path),
    {
        let ghost n = it.index() as int;
        let ghost before = views(out@);
        let ghost x = item@;
        let mut k: usize = out.len();
        while k > 0 && !path_not_after(&out[k - 1], &item)
            invariant
                k <= out@.len(),
                item@ == x,
                before == views(out@),
                path == path_fn::<T>(),
                forall|j: int|
                    k <= j < before.len() ==> !path_le(path(#[trigger] before[j]), path(x)),
            decreases k,
        {
            assert(before[k - 1] == out@[k - 1]@);
            k = k - 1;
        }
        proof {
            if k > 0 {
                assert(before[k - 1] == out@[k - 1]@);
            }
        }
        out.insert(k, item);
        proof {
            assert(views(out@) =~= before.insert(k as int, x));
            assert(all[n] == x);
            assert(all.take(n + 1) =~= all.take(n).push(x));
            lemma_insert_sorted(all.take(n), before, path, k as int, x);
        }
    }
    assert(all.take(list@.len() as int) =~= all);
    out
}

// ---------------------------------------------------------------------------
// The newest item of a path
// ---------------------------------------------------------------------------

/// The item with the greatest stamp, and the last of those that share it.
pub open spec fn newest<V>(list: Seq<V>, stamp: spec_fn(V) -> u64) -> Option<V>
    decreases list.len(),
{
    if list.len() == 0 {
        None
    } else {
        match newest(list.drop_last(), stamp) {
            Some(v) => if stamp(v) > stamp(list.last()) {
                Some(v)
            } else {
                Some(list.last())
            },
            None => Some(list.last()),
        }
    }
}

/// Something kept under a path, with a stamp that tells newer from older.
pub trait Stamped: Keyed {
    /// The stamp of a view.
    spec fn stamp_of(v: Self::V) -> u64;

    /// The stamp.
    fn stamp(&self) -> (r: u64)
        ensures
            r == Self::stamp_of(self@),
    ;
}

/// The stamp of a view, as a function.
pub open spec fn stamp_fn<T: Stamped>() -> spec_fn(T::V) -> u64 {
    |v: T::V| T::stamp_of(v)
}

/// The newest item at the path `service/key`, if there is one.
pub open spec fn newest_at<T: Stamped>(list: Seq<T::V>, p: Path) -> Option<T::V> {
    newest(at_path(list, path_fn::<T>(), p), stamp_fn::<T>())
}

/// Takes the newest item at the path `service/key` out of a list.
pub fn take_newest<T: Stamped>(list: Vec<T>, service: &str, key: &str) -> (r: Option<T>)
    ensures
        match r {
            Some(t) => newest_at::<T>(views(list@), (service@, key@)) == Some(t@) && list@.contains(
                t,
            ),
            None => newest_at::<T>(views(list@), (service@, key@)) is None,
        },
{
    let ghost all = views(list@);
    let ghost p = (service@, key@);
    let ghost path = path_fn::<T>();
    let mut best: Option<usize> = None;
    let mut i: usize = 0;
    proof {
        lemma_at_path_none(all.take(0), path, p);
    }
    while i < list.len()
        invariant
            i <= list@.len(),
            all == views(list@),
            p == (service@, key@),
            path == path_fn::<T>(),
            match best {
                Some(k) => k < i && newest_at::<T>(all.take(i as int), p) == Some(list@[k as int]@),
                None => newest_at::<T>(all.take(i as int), p) is None,
            },
        decreases list@.len() - i,
    {
        let ghost x = all[i as int];
        proof {
            assert(x == list@[i as int]@);
            assert(all.take(i + 1) =~= all.take(i as int).push(x));
            lemma_at_path_push(all.take(i as int), path, p, x);
            let before = at_path(all.take(i as int), path, p);
            assert(before.push(x).drop_last() =~= before);
        }
        if is_at(&list[i], service, key) {
            best = match best {
                Some(k) => {
                    if list[k].stamp() > list[i].stamp() {
                        Some(k)
                    } else {
                        Some(i)
                    }
                },
                None => Some(i),
            };
        }
        i = i + 1;
    }
    assert(all.take(list@.len() as int) =~= all);
    match best {
        Some(k) => {
            let mut list = list;
            Some(list.swap_remove(k))
        },
        None => None,
    }
}

// ---------------------------------------------------------------------------
// Facts
// ---------------------------------------------------------------------------

proof fn lemma_path_le_transitive(a: Path, b: Path, c: Path)
    requires
        path_le(a, b),
        path_le(b, c),
    ensures
        path_le(a, c),
{
    if a.0 == b.0 && b.0 == c.0 {
        lemma_text_le_transitive(a.1, b.1, c.1);
    } else if a.0 != b.0 && b.0 != c.0 {
        lemma_text_le_transitive(a.0, b.0, c.0);
        if a.0 == c.0 {
            lemma_text_le_antisymmetric(a.0, b.0);
        }
    }
}

proof fn lemma_path_le_total(a: Path, b: Path)
    ensures
        path_le(a, b) || path_le(b, a),
        path_le(a, a),
{
    lemma_text_le_total(a.0, b.0);
    lemma_text_le_total(a.1, b.1);
    lemma_text_le_reflexive(a.1);
}

proof fn lemma_path_le_antisymmetric(a: Path, b: Path)
    requires
        path_le(a, b),
        path_le(b, a),
    ensures
        a == b,
{
    if a.0 == b.0 {
        lemma_text_le_antisymmetric(a.1, b.1);
    } else {
        lemma_text_le_antisymmetric(a.0, b.0);
    }
}

/// Adding an item at the end of a list adds it to the items of its path.
pub proof fn lemma_at_path_push<V>(list: Seq<V>, path: spec_fn(V) -> Path, p: Path, x: V)
    ensures
        at_path(list.push(x), path, p) == (if path(x) == p {
            at_path(list, path, p).push(x)
        } else {
            at_path(list, path, p)
        }),
{
    reveal(Seq::filter);
    assert(list.push(x).drop_last() =~= list);
}

/// Of two lists one after the other the items of a path stand in the same way.
proof fn lemma_at_path_concat<V>(a: Seq<V>, b: Seq<V>, path: spec_fn(V) -> Path, p: Path)
    ensures
        at_path(a + b, path, p) == at_path(a, path, p) + at_path(b, path, p),
    decreases b.len(),
{
    reveal(Seq::filter);
    if b.len() == 0 {
        assert(a + b =~= a);
        assert(at_path(b, path, p) =~= Seq::<V>::empty());
        assert(at_path(a, path, p) + at_path(b, path, p) =~= at_path(a, path, p));
    } else {
        let c = b.drop_last();
        lemma_at_path_concat(a, c, path, p);
        assert(b =~= c.push(b.last()));
        assert(a + b =~= (a + c).push(b.last()));
        lemma_at_path_push(a + c, path, p, b.last());
        lemma_at_path_push(c, path, p, b.last());
        if path(b.last()) == p {
            assert(at_path(a, path, p) + at_path(c, path, p).push(b.last()) =~= (at_path(a, path, p)
                + at_path(c, path, p)).push(b.last()));
        }
    }
}

/// A list without items of a path has none.
proof fn lemma_at_path_none<V>(list: Seq<V>, path: spec_fn(V) -> Path, p: Path)
    requires
        forall|i: int| 0 <= i < list.len() ==> path(#[trigger] list[i]) != p,
    ensures
        at_path(list, path, p) == Seq::<V>::empty(),
    decreases list.len(),
{
    reveal(Seq::filter);
    if list.len() > 0 {
        let c = list.drop_last();
        assert forall|i: int| 0 <= i < c.len() implies path(#[trigger] c[i]) != p by {
            assert(c[i] == list[i]);
        }
        lemma_at_path_none(c, path, p);
        assert(path(list[list.len() - 1]) != p);
    }
    assert(at_path(list, path, p) =~= Seq::<V>::empty());
}

/// Inserting behind the last item that does not come after it keeps a sorted
/// list sorted.
proof fn lemma_insert_sorted<V>(
    list: Seq<V>,
    sorted: Seq<V>,
    path: spec_fn(V) -> Path,
    k: int,
    x: V,
)
    requires
        sorted_by_path(list, sorted, path),
        0 <= k <= sorted.len(),
        k > 0 ==> path_le(path(sorted[k - 1]), path(x)),
        forall|j: int| k <= j < sorted.len() ==> !path_le(path(#[trigger] sorted[j]), path(x)),
    ensures
        sorted_by_path(list.push(x), sorted.insert(k, x), path),
{
    let out = sorted.insert(k, x);
    assert forall|i: int, j: int|
        #![trigger out[i], out[j]]
        0 <= i < j < out.len() implies path_le(path(out[i]), path(out[j])) by {
        let oi = if i < k { sorted[i] } else if i == k { x } else { sorted[i - 1] };
        let oj = if j < k { sorted[j] } else if j == k { x } else { sorted[j - 1] };
        assert(out[i] == oi && out[j] == oj);
        if j == k {
            if i < k - 1 {
                assert(path_le(path(sorted[i]), path(sorted[k - 1])));
                lemma_path_le_transitive(path(sorted[i]), path(sorted[k - 1]), path(x));
            }
        } else if i == k {
            assert(!path_le(path(sorted[j - 1]), path(x)));
            lemma_path_le_total(path(x), path(sorted[j - 1]));
        }
    }
    assert forall|p: Path| #[trigger]
        at_path(out, path, p) == at_path(list.push(x), path, p) by {
        let a = sorted.take(k);
        let b = sorted.skip(k);
        assert(sorted =~= a + b);
        assert(out =~= a.push(x) + b);
        lemma_at_path_concat(a, b, path, p);
        lemma_at_path_concat(a.push(x), b, path, p);
        lemma_at_path_push(a, path, p, x);
        lemma_at_path_push(list, path, p, x);
        assert(at_path(sorted, path, p) == at_path(list, path, p));
        if path(x) == p {
            assert forall|i: int| 0 <= i < b.len() implies path(#[trigger] b[i]) != p by {
                assert(b[i] == sorted[k + i]);
                lemma_path_le_total(p, p);
            }
            lemma_at_path_none(b, path, p);
            assert(at_path(a, path, p).push(x) + Seq::<V>::empty() =~= at_path(a, path, p).push(x));
            assert(at_path(a, path, p) + Seq::<V>::empty() =~= at_path(a, path, p));
        }
    }
}

/// The first item of a list is the first of its path.
proof fn lemma_at_path_first<V>(list: Seq<V>, path: spec_fn(V) -> Path, p: Path)
    requires
        list.len() > 0,
    ensures
        at_path(list, path, p) == (if path(list[0]) == p {
            seq![list[0]] + at_path(list.skip(1), path, p)
        } else {
            at_path(list.skip(1), path, p)
        }),
{
    let head = seq![list[0]];
    assert(list =~= head + list.skip(1));
    lemma_at_path_concat(head, list.skip(1), path, p);
    assert(head =~= Seq::<V>::empty().push(list[0]));
    lemma_at_path_push(Seq::<V>::empty(), path, p, list[0]);
    lemma_at_path_none(Seq::<V>::empty(), path, p);
    if path(list[0]) != p {
        assert(Seq::<V>::empty() + at_path(list.skip(1), path, p) =~= at_path(
            list.skip(1),
            path,
            p,
        ));
    } else {
        assert(Seq::<V>::empty().push(list[0]) =~= head);
    }
}

/// What lies at a path stands in the list.
proof fn lemma_at_path_member<V>(list: Seq<V>, path: spec_fn(V) -> Path, p: Path)
    requires
        at_path(list, path, p).len() > 0,
    ensures
        exists|i: int| 0 <= i < list.len() && path(#[trigger] list[i]) == p,
{
    if forall|i: int| 0 <= i < list.len() ==> path(#[trigger] list[i]) != p {
        lemma_at_path_none(list, path, p);
    }
}

/// There is one way only to put a list in the order of its paths.
pub proof fn law_sorting_is_unique<V>(
    list: Seq<V>,
    a: Seq<V>,
    b: Seq<V>,
    path: spec_fn(V) -> Path,
)
    requires
        sorted_by_path(list, a, path),
        sorted_by_path(list, b, path),
    ensures
        a == b,
{
    assert forall|p: Path| #[trigger] at_path(a, path, p) == at_path(b, path, p) by {
        assert(at_path(b, path, p) == at_path(list, path, p));
    }
    lemma_same_order(a, b, path);
}

proof fn lemma_same_order<V>(a: Seq<V>, b: Seq<V>, path: spec_fn(V) -> Path)
    requires
        in_path_order(a, path),
        in_path_order(b, path),
        forall|p: Path| #[trigger] at_path(a, path, p) == at_path(b, path, p),
    ensures
        a == b,
    decreases a.len(),
{
    if a.len() == 0 {
        if b.len() > 0 {
            let p = path(b[0]);
            lemma_at_path_first(b, path, p);
            lemma_at_path_none(a, path, p);
            assert(at_path(a, path, p) == at_path(b, path, p));
        }
        assert(a =~= b);
    } else {
        let p = path(a[0]);
        lemma_at_path_first(a, path, p);
        assert(at_path(a, path, p) == at_path(b, path, p));
        lemma_at_path_member(b, path, p);
        let i = choose|i: int| 0 <= i < b.len() && path(#[trigger] b[i]) == p;
        let q = path(b[0]);
        lemma_at_path_first(b, path, q);
        assert(at_path(a, path, q) == at_path(b, path, q));
        lemma_at_path_member(a, path, q);
        let j = choose|j: int| 0 <= j < a.len() && path(#[trigger] a[j]) == q;
        lemma_path_le_total(p, q);
        lemma_path_le_total(q, p);
        assert(path_le(q, p)) by {
            if i > 0 {
                assert(path_le(path(b[0]), path(b[i])));
            }
        }
        assert(path_le(p, q)) by {
            if j > 0 {
                assert(path_le(path(a[0]), path(a[j])));
            }
        }
        lemma_path_le_antisymmetric(p, q);
        assert(at_path(a, path, p)[0] == a[0]);
        assert(at_path(b, path, p)[0] == b[0]);
        let (c, d) = (a.skip(1), b.skip(1));
        assert forall|r: Path| #[trigger] at_path(c, path, r) == at_path(d, path, r) by {
            lemma_at_path_first(a, path, r);
            lemma_at_path_first(b, path, r);
            assert(at_path(a, path, r) == at_path(b, path, r));
            if r == p {
                assert(at_path(c, path, r) =~= at_path(a, path, r).skip(1));
                assert(at_path(d, path, r) =~= at_path(b, path, r).skip(1));
            }
        }
        assert(in_path_order(c, path)) by {
            assert forall|i: int, j: int|
                #![trigger c[i], c[j]]
                0 <= i < j < c.len() implies path_le(path(c[i]), path(c[j])) by {
                assert(c[i] == a[i + 1] && c[j] == a[j + 1]);
            }
        }
        assert(in_path_order(d, path)) by {
            assert forall|i: int, j: int|
                #![trigger d[i], d[j]]
                0 <= i < j < d.len() implies path_le(path(d[i]), path(d[j])) by {
                assert(d[i] == b[i + 1] && d[j] == b[j + 1]);
            }
        }
        lemma_same_order(c, d, path);
        assert(a =~= seq![a[0]] + c);
        assert(b =~= seq![b[0]] + d);
    }
}

/// The newest item stands in the list, none has a greater stamp, and those
/// behind it have smaller ones. There is one where the list is not empty.
pub proof fn law_newest_has_greatest_stamp<V>(list: Seq<V>, stamp: spec_fn(V) -> u64)
    ensures
        newest(list, stamp) is Some <==> list.len() > 0,
        newest(list, stamp) matches Some(v) ==> exists|k: int|
            {
                &&& 0 <= k < list.len()
                &&& #[trigger] list[k] == v
                &&& forall|j: int| 0 <= j < list.len() ==> stamp(#[trigger] list[j]) <= stamp(v)
                &&& forall|j: int| k < j < list.len() ==> stamp(#[trigger] list[j]) < stamp(v)
            },
    decreases list.len(),
{
    if list.len() > 0 {
        let c = list.drop_last();
        law_newest_has_greatest_stamp(c, stamp);
        let v = newest(list, stamp)->0;
        if c.len() > 0 && stamp(newest(c, stamp)->0) > stamp(list.last()) {
            let k = choose|k: int|
                {
                    &&& 0 <= k < c.len()
                    &&& #[trigger] c[k] == v
                    &&& forall|j: int| 0 <= j < c.len() ==> stamp(#[trigger] c[j]) <= stamp(v)
                    &&& forall|j: int| k < j < c.len() ==> stamp(#[trigger] c[j]) < stamp(v)
                };
            assert(list[k] == v);
            assert forall|j: int| 0 <= j < list.len() implies stamp(#[trigger] list[j]) <= stamp(
                v,
            ) by {
                if j < c.len() {
                    assert(c[j] == list[j]);
                }
            }
            assert forall|j: int| k < j < list.len() implies stamp(#[trigger] list[j]) < stamp(
                v,
            ) by {
                if j < c.len() {
                    assert(c[j] == list[j]);
                }
            }
        } else {
            let k = list.len() - 1;
            assert(list[k] == v);
            assert forall|j: int| 0 <= j < list.len() implies stamp(#[trigger] list[j]) <= stamp(
                v,
            ) by {
                if j < c.len() {
                    assert(c[j] == list[j]);
                }
            }
        }
    }
}

/// Sorting changes neither what lies at a path nor which of it is the newest.
pub proof fn law_sorting_keeps_newest<T: Stamped>(list: Seq<T::V>, sorted: Seq<T::V>, p: Path)
    requires
        sorted_by_path(list, sorted, path_fn::<T>()),
    ensures
        newest_at::<T>(sorted, p) == newest_at::<T>(list, p),
{
    assert(at_path(sorted, path_fn::<T>(), p) == at_path(list, path_fn::<T>(), p));
}

/// Nothing lies at a path of an empty list.
pub proof fn lemma_at_path_empty<V>(path: spec_fn(V) -> Path, p: Path)
    ensures
        at_path(Seq::<V>::empty(), path, p) == Seq::<V>::empty(),
{
    lemma_at_path_none(Seq::<V>::empty(), path, p);
}

/// What lies at a path comes from the list, and from that path.
pub proof fn lemma_at_path_source<V>(list: Seq<V>, path: spec_fn(V) -> Path, p: Path, k: int)
    requires
        0 <= k < at_path(list, path, p).len(),
    ensures
        exists|i: int|
            0 <= i < list.len() && #[trigger] list[i] == at_path(list, path, p)[k] && path(list[i])
                == p,
    decreases list.len(),
{
    if list.len() == 0 {
        lemma_at_path_none(list, path, p);
    } else {
        let c = list.drop_last();
        let x = list.last();
        assert(list =~= c.push(x));
        lemma_at_path_push(c, path, p, x);
        if k < at_path(c, path, p).len() {
            lemma_at_path_source(c, path, p, k);
            let i = choose|i: int|
                0 <= i < c.len() && #[trigger] c[i] == at_path(c, path, p)[k] && path(c[i]) == p;
            assert(list[i] == c[i]);
        } else {
            assert(list[list.len() - 1] == x);
        }
    }
}

/// What a list has from a path lies at the path.
pub proof fn lemma_at_path_target<V>(list: Seq<V>, path: spec_fn(V) -> Path, p: Path, i: int)
    requires
        0 <= i < list.len(),
        path(list[i]) == p,
    ensures
        exists|k: int|
            0 <= k < at_path(list, path, p).len() && #[trigger] at_path(list, path, p)[k]
                == list[i],
    decreases list.len(),
{
    let c = list.drop_last();
    let x = list.last();
    assert(list =~= c.push(x));
    lemma_at_path_push(c, path, p, x);
    let found = at_path(list, path, p);
    if i < c.len() {
        assert(c[i] == list[i]);
        lemma_at_path_target(c, path, p, i);
        let k = choose|k: int|
            0 <= k < at_path(c, path, p).len() && #[trigger] at_path(c, path, p)[k] == c[i];
        assert(found[k] == list[i]);
    } else {
        assert(found[found.len() - 1] == x);
    }
}

/// What remains of a list lies at a path in the same way as before.
pub proof fn lemma_at_path_remaining<V>(
    list: Seq<V>,
    path: spec_fn(V) -> Path,
    p: Path,
    stays: spec_fn(V) -> bool,
)
    ensures
        at_path(list.filter(stays), path, p) == at_path(list, path, p).filter(stays),
    decreases list.len(),
{
    reveal(Seq::filter);
    if list.len() == 0 {
        lemma_at_path_none(list, path, p);
        assert(at_path(list.filter(stays), path, p) =~= at_path(list, path, p).filter(stays));
    } else {
        let c = list.drop_last();
        let x = list.last();
        lemma_at_path_remaining(c, path, p, stays);
        assert(list =~= c.push(x));
        lemma_at_path_push(c, path, p, x);
        let found = at_path(c, path, p);
        assert(found.push(x).drop_last() =~= found);
        if stays(x) {
            lemma_at_path_push(c.filter(stays), path, p, x);
        }
    }
}

/// Where none of the items of a path stays, nothing remains at the path.
pub proof fn lemma_none_remain<V>(
    list: Seq<V>,
    path: spec_fn(V) -> Path,
    p: Path,
    stays: spec_fn(V) -> bool,
)
    requires
        forall|k: int|
            0 <= k < at_path(list, path, p).len() ==> !stays(#[trigger] at_path(list, path, p)[k]),
    ensures
        at_path(list.filter(stays), path, p) == Seq::<V>::empty(),
{
    lemma_at_path_remaining(list, path, p, stays);
    lemma_filter_none(at_path(list, path, p), stays);
}

/// Where all items of a path stay, they remain as they were.
pub proof fn lemma_all_remain<V>(
    list: Seq<V>,
    path: spec_fn(V) -> Path,
    p: Path,
    stays: spec_fn(V) -> bool,
)
    requires
        forall|k: int|
            0 <= k < at_path(list, path, p).len() ==> stays(#[trigger] at_path(list, path, p)[k]),
    ensures
        at_path(list.filter(stays), path, p) == at_path(list, path, p),
{
    lemma_at_path_remaining(list, path, p, stays);
    lemma_filter_all(at_path(list, path, p), stays);
}

proof fn lemma_filter_none<V>(list: Seq<V>, stays: spec_fn(V) -> bool)
    requires
        forall|k: int| 0 <= k < list.len() ==> !stays(#[trigger] list[k]),
    ensures
        list.filter(stays) == Seq::<V>::empty(),
    decreases list.len(),
{
    reveal(Seq::filter);
    if list.len() > 0 {
        let c = list.drop_last();
        assert forall|k: int| 0 <= k < c.len() implies !stays(#[trigger] c[k]) by {
            assert(c[k] == list[k]);
        }
        lemma_filter_none(c, stays);
        assert(!stays(list[list.len() - 1]));
    }
    assert(list.filter(stays) =~= Seq::<V>::empty());
}

proof fn lemma_filter_all<V>(list: Seq<V>, stays: spec_fn(V) -> bool)
    requires
        forall|k: int| 0 <= k < list.len() ==> stays(#[trigger] list[k]),
    ensures
        list.filter(stays) == list,
    decreases list.len(),
{
    reveal(Seq::filter);
    if list.len() > 0 {
        let c = list.drop_last();
        assert forall|k: int| 0 <= k < c.len() implies stays(#[trigger] c[k]) by {
            assert(c[k] == list[k]);
        }
        lemma_filter_all(c, stays);
        assert(stays(list[list.len() - 1]));
    }
    assert(list.filter(stays) =~= list);
}

/// What is found at a path is one of the items there, none of which has a greater
/// stamp; nothing is found exactly where there are none.
pub proof fn law_newest_at_path<T: Stamped>(list: Seq<T::V>, p: Path)
    ensures
        match newest_at::<T>(list, p) {
            Some(v) => {
                &&& T::path_of(v) == p
                &&& list.contains(v)
                &&& forall|i: int|
                    0 <= i < list.len() && T::path_of(#[trigger] list[i]) == p ==> T::stamp_of(
                        list[i],
                    ) <= T::stamp_of(v)
            },
            None => forall|i: int| 0 <= i < list.len() ==> T::path_of(#[trigger] list[i]) != p,
        },
{
    let path = path_fn::<T>();
    let stamp = stamp_fn::<T>();
    let found = at_path(list, path, p);
    law_newest_has_greatest_stamp(found, stamp);
    if let Some(v) = newest_at::<T>(list, p) {
        let k = choose|k: int|
            {
                &&& 0 <= k < found.len()
                &&& #[trigger] found[k] == v
                &&& forall|j: int| 0 <= j < found.len() ==> stamp(#[trigger] found[j]) <= stamp(v)
                &&& forall|j: int| k < j < found.len() ==> stamp(#[trigger] found[j]) < stamp(v)
            };
        lemma_at_path_source(list, path, p, k);
        assert forall|i: int|
            0 <= i < list.len() && T::path_of(#[trigger] list[i]) == p implies T::stamp_of(list[i])
            <= T::stamp_of(v) by {
            assert(path(list[i]) == p);
            lemma_at_path_target(list, path, p, i);
            let j = choose|j: int| 0 <= j < found.len() && #[trigger] found[j] == list[i];
            assert(stamp(found[j]) <= stamp(v));
        }
    } else {
        assert forall|i: int| 0 <= i < list.len() implies T::path_of(#[trigger] list[i]) != p by {
            if T::path_of(list[i]) == p {
                assert(path(list[i]) == p);
                lemma_at_path_target(list, path, p, i);
            }
        }
    }
}

} // verus!
