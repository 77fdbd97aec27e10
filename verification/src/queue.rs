//! The play queue: an ordered list of videos, each known by its id.
//!
//! The queue owns its entries; `T` is what is stored with each id (the video
//! summary in the application). Keeping one queue per process and saving it to
//! disk after each change is the caller's business.
use vstd::prelude::*;

use crate::text::str_eq;

verus! {

broadcast use vstd::seq_lib::group_to_multiset_ensures;

/// A queued video and its id.
pub struct Queued<T> {
    pub id: String,
    pub video: T,
}

/// The play queue.
pub struct QueueState<T> {
    pub items: Vec<Queued<T>>,
}

/// The ids in queue order.
pub open spec fn ids<T>(s: Seq<Queued<T>>) -> Seq<Seq<char>> {
    s.map_values(|x: Queued<T>| x.id@)
}

/// Some entry has this id.
pub open spec fn has_id<T>(s: Seq<Queued<T>>, id: Seq<char>) -> bool {
    exists|i: int| 0 <= i < s.len() && #[trigger] s[i].id@ == id
}

/// No two entries share an id.
pub open spec fn distinct_ids<T>(s: Seq<Queued<T>>) -> bool {
    forall|i: int, j: int| 0 <= i < s.len() && 0 <= j < s.len() && i != j ==> #[trigger] s[i].id@
        != #[trigger] s[j].id@
}

/// The entries whose id is not `id`, in order.
pub open spec fn without<T>(s: Seq<Queued<T>>, id: Seq<char>) -> Seq<Queued<T>>
    decreases s.len(),
{
    if s.len() == 0 {
        s
    } else {
        let rest = without(s.drop_last(), id);
        if s.last().id@ == id {
            rest
        } else {
            rest.push(s.last())
        }
    }
}

/// Position of the first entry with this id.
pub open spec fn first_index<T>(s: Seq<Queued<T>>, id: Seq<char>) -> Option<int>
    decreases s.len(),
{
    if s.len() == 0 {
        None
    } else if s[0].id@ == id {
        Some(0)
    } else {
        match first_index(s.drop_first(), id) {
            Some(i) => Some(i + 1),
            None => None,
        }
    }
}

/// The queue after moving the entry at `from` to position `to`.
pub open spec fn moved<T>(s: Seq<Queued<T>>, from: int, to: int) -> Seq<Queued<T>> {
    if from >= s.len() || to >= s.len() || from == to {
        s
    } else {
        s.remove(from).insert(to, s[from])
    }
}

pub proof fn lemma_without_facts<T>(s: Seq<Queued<T>>, id: Seq<char>)
    ensures
        !has_id(without(s, id), id),
        without(s, id).len() <= s.len(),
        forall|k: int|
            0 <= k < without(s, id).len() ==> exists|j: int|
                0 <= j < s.len() && #[trigger] without(s, id)[k] == s[j],
        forall|j: int| 0 <= j < s.len() && s[j].id@ != id ==> #[trigger] has_id(without(s, id), s[j].id@),
        distinct_ids(s) ==> distinct_ids(without(s, id)),
        !has_id(s, id) ==> without(s, id) == s,
    decreases s.len(),
{
    if s.len() > 0 {
        let d = s.drop_last();
        lemma_without_facts(d, id);
        let r = without(d, id);
        assert forall|j: int| 0 <= j < s.len() && s[j].id@ != id implies #[trigger] has_id(
            without(s, id),
            s[j].id@,
        ) by {
            if j < s.len() - 1 {
                assert(d[j] == s[j]);
                assert(has_id(r, d[j].id@));
                let k = choose|k: int| 0 <= k < r.len() && #[trigger] r[k].id@ == d[j].id@;
                assert(without(s, id)[k] == r[k]);
            } else {
                assert(without(s, id)[without(s, id).len() - 1] == s[j]);
            }
        }
        assert forall|k: int| 0 <= k < without(s, id).len() implies exists|j: int|
            0 <= j < s.len() && #[trigger] without(s, id)[k] == s[j] by {
            if k < r.len() {
                let j = choose|j: int| 0 <= j < d.len() && #[trigger] r[k] == d[j];
                assert(s[j] == d[j]);
            } else {
                assert(without(s, id)[k] == s[s.len() - 1]);
            }
        }
        if distinct_ids(s) {
            assert(distinct_ids(d)) by {
                assert forall|i: int, j: int|
                    0 <= i < d.len() && 0 <= j < d.len() && i != j implies #[trigger] d[i].id@
                    != #[trigger] d[j].id@ by {
                    assert(d[i] == s[i] && d[j] == s[j]);
                }
            }
            if s.last().id@ != id {
                let w = r.push(s.last());
                assert forall|a: int, b: int|
                    0 <= a < w.len() && 0 <= b < w.len() && a != b implies #[trigger] w[a].id@
                    != #[trigger] w[b].id@ by {
                    if a < r.len() && b < r.len() {
                    } else if a < r.len() {
                        let j = choose|j: int| 0 <= j < d.len() && #[trigger] r[a] == d[j];
                        assert(d[j] == s[j]);
                    } else if b < r.len() {
                        let j = choose|j: int| 0 <= j < d.len() && #[trigger] r[b] == d[j];
                        assert(d[j] == s[j]);
                    }
                }
            }
        }
        if !has_id(s, id) {
            assert(!has_id(d, id)) by {
                if has_id(d, id) {
                    let j = choose|j: int| 0 <= j < d.len() && #[trigger] d[j].id@ == id;
                    assert(s[j] == d[j]);
                }
            }
            assert(s.last().id@ != id);
            assert(d.push(s.last()) =~= s);
        }
    }
}

pub proof fn lemma_first_index_facts<T>(s: Seq<Queued<T>>, id: Seq<char>)
    ensures
        first_index(s, id) matches Some(i) ==> 0 <= i < s.len() && s[i].id@ == id && forall|j: int|
            0 <= j < i ==> #[trigger] s[j].id@ != id,
        first_index(s, id) is None <==> !has_id(s, id),
    decreases s.len(),
{
    if s.len() > 0 {
        lemma_first_index_facts(s.drop_first(), id);
        if s[0].id@ != id {
            if has_id(s, id) {
                let j = choose|j: int| 0 <= j < s.len() && #[trigger] s[j].id@ == id;
                assert(s.drop_first()[j - 1] == s[j]);
            }
            if has_id(s.drop_first(), id) {
                let j = choose|j: int| 0 <= j < s.len() - 1 && #[trigger] s.drop_first()[j].id@ == id;
                assert(s[j + 1] == s.drop_first()[j]);
            }
            if let Some(i) = first_index(s.drop_first(), id) {
                assert forall|j: int| 0 <= j < i + 1 implies #[trigger] s[j].id@ != id by {
                    if j > 0 {
                        assert(s[j] == s.drop_first()[j - 1]);
                    }
                }
            }
        }
    }
}

fn id_matches<T>(item: &Queued<T>, id: &str) -> (r: bool)
    ensures
        r == (item.id@ == id@),
{
    str_eq(item.id.as_str(), id)
}

/// Whether an entry with this id is queued.
pub fn is_queued<T>(q: &QueueState<T>, id: &str) -> (r: bool)
    ensures
        r == has_id(q.items@, id@),
{
    let n = q.items.len();
    let mut i: usize = 0;
    while i < n
        invariant
            n == q.items@.len(),
            i <= n,
            forall|j: int| 0 <= j < i ==> #[trigger] q.items@[j].id@ != id@,
        decreases n - i,
    {
        if id_matches(&q.items[i], id) {
            return true;
        }
        i += 1;
    }
    false
}

/// Number of queued entries.
pub fn len<T>(q: &QueueState<T>) -> (r: usize)
    ensures
        r == q.items@.len(),
{
    q.items.len()
}

/// The first entry, if any.
pub fn peek<T>(q: &QueueState<T>) -> (r: Option<&Queued<T>>)
    ensures
        q.items@.len() == 0 ==> r is None,
        q.items@.len() > 0 ==> (r matches Some(x) && *x == q.items@[0]),
{
    if q.items.len() == 0 {
        None
    } else {
        Some(&q.items[0])
    }
}

/// Appends an entry unless one with the same id is already queued.
pub fn add<T>(q: &mut QueueState<T>, item: Queued<T>)
    ensures
        final(q).items@ == added(old(q).items@, item),
        has_id(final(q).items@, item.id@),
        distinct_ids(old(q).items@) ==> distinct_ids(final(q).items@),
{
    if is_queued(q, item.id.as_str()) {
        return;
    }
    let ghost it = item;
    q.items.push(item);
    proof {
        let s = q.items@;
        assert(s[s.len() - 1].id@ == it.id@);
        if distinct_ids(old(q).items@) {
            assert forall|a: int, b: int|
                0 <= a < s.len() && 0 <= b < s.len() && a != b implies #[trigger] s[a].id@
                != #[trigger] s[b].id@ by {
                if a < s.len() - 1 && b < s.len() - 1 {
                    assert(s[a] == old(q).items@[a] && s[b] == old(q).items@[b]);
                } else if a < s.len() - 1 {
                    assert(s[a] == old(q).items@[a]);
                } else {
                    assert(s[b] == old(q).items@[b]);
                }
            }
        }
    }
}

/// The queue with every entry of this id taken out, order kept.
fn drop_id<T>(items: Vec<Queued<T>>, id: &str) -> (r: Vec<Queued<T>>)
    ensures
        r@ == without(items@, id@),
{
    let ghost all = items@;
    let mut out: Vec<Queued<T>> = Vec::new();
    for x in it: items
        invariant
            it.seq() == all,
            out@ == without(all.take(it.index() as int), id@),
    {
        let ghost i = it.index();
        proof {
            assert(all.take(i + 1).drop_last() =~= all.take(i as int));
        }
        if !id_matches(&x, id) {
            out.push(x);
        }
    }
    assert(all.take(all.len() as int) =~= all);
    out
}

/// Removes every entry with this id.
pub fn remove<T>(q: &mut QueueState<T>, id: &str)
    ensures
        final(q).items@ == without(old(q).items@, id@),
        !has_id(final(q).items@, id@),
        distinct_ids(old(q).items@) ==> distinct_ids(final(q).items@),
{
    let mut items: Vec<Queued<T>> = Vec::new();
    std::mem::swap(&mut items, &mut q.items);
    q.items = drop_id(items, id);
    proof {
        lemma_without_facts(old(q).items@, id@);
    }
}

/// Puts an entry at the front, taking out any other entry with its id.
pub fn play_next<T>(q: &mut QueueState<T>, item: Queued<T>)
    ensures
        final(q).items@ == seq![item] + without(old(q).items@, item.id@),
        final(q).items@[0] == item,
        distinct_ids(old(q).items@) ==> distinct_ids(final(q).items@),
{
    let ghost it = item;
    remove(q, item.id.as_str());
    q.items.insert(0, item);
    proof {
        let w = without(old(q).items@, it.id@);
        lemma_without_facts(old(q).items@, it.id@);
        assert(q.items@ =~= seq![it] + w);
        if distinct_ids(old(q).items@) {
            let s = q.items@;
            assert forall|a: int, b: int|
                0 <= a < s.len() && 0 <= b < s.len() && a != b implies #[trigger] s[a].id@
                != #[trigger] s[b].id@ by {
                if a > 0 && b > 0 {
                    assert(s[a] == w[a - 1] && s[b] == w[b - 1]);
                } else if a == 0 {
                    assert(s[b] == w[b - 1]);
                    assert(!has_id(w, it.id@));
                } else {
                    assert(s[a] == w[a - 1]);
                    assert(!has_id(w, it.id@));
                }
            }
        }
    }
}

/// Moves the entry at `from` to position `to`; nothing happens when either
/// position is out of range or they are equal. Says whether it moved.
pub fn move_item<T>(q: &mut QueueState<T>, from: usize, to: usize) -> (r: bool)
    ensures
        r == (from < old(q).items@.len() && to < old(q).items@.len() && from != to),
        final(q).items@ == moved(old(q).items@, from as int, to as int),
        final(q).items@.len() == old(q).items@.len(),
        final(q).items@.to_multiset() == old(q).items@.to_multiset(),
        distinct_ids(old(q).items@) ==> distinct_ids(final(q).items@),
{
    if from >= q.items.len() || to >= q.items.len() || from == to {
        return false;
    }
    let item = q.items.remove(from);
    let ghost removed = q.items@;
    let ghost x = item;
    q.items.insert(to, item);
    proof {
        let s = old(q).items@;
        let t = q.items@;
        assert(removed =~= s.remove(from as int));
        assert(t =~= removed.insert(to as int, x));
        assert(t.remove(to as int) =~= removed);
        assert(t[to as int] == x);
        assert(t.to_multiset().remove(x) =~= removed.to_multiset());
        assert(removed.to_multiset() =~= s.to_multiset().remove(x));
        assert(t.to_multiset().count(x) > 0);
        assert(s.to_multiset().count(x) > 0) by {
            assert(s[from as int] == x);
        }
        assert(t.to_multiset() =~= s.to_multiset());
        if distinct_ids(s) {
            // every entry of t is an entry of s, each used once
            assert forall|a: int, b: int|
                0 <= a < t.len() && 0 <= b < t.len() && a != b implies #[trigger] t[a].id@
                != #[trigger] t[b].id@ by {
                let pa = if a < to { if a < from { a } else { a + 1 } } else if a == to {
                    from as int
                } else {
                    if a - 1 < from { a - 1 } else { a }
                };
                let pb = if b < to { if b < from { b } else { b + 1 } } else if b == to {
                    from as int
                } else {
                    if b - 1 < from { b - 1 } else { b }
                };
                assert(t[a] == s[pa]);
                assert(t[b] == s[pb]);
            }
        }
    }
    true
}

/// Empties the queue.
pub fn clear<T>(q: &mut QueueState<T>)
    ensures
        final(q).items@.len() == 0,
{
    q.items.clear();
}

/// Takes the first entry off the queue.
pub fn shift<T>(q: &mut QueueState<T>) -> (r: Option<Queued<T>>)
    ensures
        old(q).items@.len() == 0 ==> r is None && final(q).items@ == old(q).items@,
        old(q).items@.len() > 0 ==> r == Some(old(q).items@[0]) && final(q).items@ == old(
            q,
        ).items@.drop_first(),
        distinct_ids(old(q).items@) ==> distinct_ids(final(q).items@),
{
    if q.items.len() == 0 {
        return None;
    }
    let item = q.items.remove(0);
    proof {
        assert(q.items@ =~= old(q).items@.drop_first());
        if distinct_ids(old(q).items@) {
            let s = q.items@;
            assert forall|a: int, b: int|
                0 <= a < s.len() && 0 <= b < s.len() && a != b implies #[trigger] s[a].id@
                != #[trigger] s[b].id@ by {
                assert(s[a] == old(q).items@[a + 1] && s[b] == old(q).items@[b + 1]);
            }
        }
    }
    Some(item)
}

/// Takes the first entry with this id out of the queue; the others stay in
/// order.
pub fn take<T>(q: &mut QueueState<T>, id: &str) -> (r: Option<Queued<T>>)
    ensures
        match first_index(old(q).items@, id@) {
            Some(i) => r == Some(old(q).items@[i]) && final(q).items@ == old(q).items@.remove(i),
            None => r is None && final(q).items@ == old(q).items@,
        },
        r is Some <==> has_id(old(q).items@, id@),
        r matches Some(x) ==> x.id@ == id@,
        distinct_ids(old(q).items@) ==> !has_id(final(q).items@, id@),
{
    proof {
        lemma_first_index_facts(q.items@, id@);
    }
    let n = q.items.len();
    let mut i: usize = 0;
    while i < n
        invariant
            n == q.items@.len(),
            q.items@ == old(q).items@,
            i <= n,
            forall|j: int| 0 <= j < i ==> #[trigger] q.items@[j].id@ != id@,
        decreases n - i,
    {
        if id_matches(&q.items[i], id) {
            proof {
                let s = q.items@;
                lemma_first_index_facts(s, id@);
                assert(s[i as int].id@ == id@);
                match first_index(s, id@) {
                    Some(k) => {
                        if k < i {
                            assert(s[k].id@ == id@);
                        } else if k > i {
                            assert(s[i as int].id@ == id@);
                        }
                    },
                    None => {
                        assert(has_id(s, id@));
                    },
                }
            }
            let item = q.items.remove(i);
            proof {
                let s = old(q).items@;
                assert(q.items@ =~= s.remove(i as int));
                if distinct_ids(s) && has_id(q.items@, id@) {
                    let k = choose|k: int| 0 <= k < q.items@.len() && #[trigger] q.items@[k].id@
                        == id@;
                    if k < i {
                        assert(q.items@[k] == s[k]);
                    } else {
                        assert(q.items@[k] == s[k + 1]);
                    }
                }
            }
            return Some(item);
        }
        i += 1;
    }
    None
}

/// The queue after `add`.
pub open spec fn added<T>(s: Seq<Queued<T>>, item: Queued<T>) -> Seq<Queued<T>> {
    if has_id(s, item.id@) {
        s
    } else {
        s.push(item)
    }
}

/// Adding the same video twice leaves the queue as one addition did.
pub proof fn lemma_add_idempotent<T>(s: Seq<Queued<T>>, item: Queued<T>)
    ensures
        added(added(s, item), item) == added(s, item),
{
    if !has_id(s, item.id@) {
        assert(s.push(item)[s.len() as int] == item);
    }
}

/// Taking a video out and putting it at the front keeps the rest in order.
pub proof fn lemma_play_next_then_shift<T>(s: Seq<Queued<T>>, item: Queued<T>)
    ensures
        (seq![item] + without(s, item.id@)).drop_first() == without(s, item.id@),
        (seq![item] + without(s, item.id@))[0] == item,
{
    assert((seq![item] + without(s, item.id@)).drop_first() =~= without(s, item.id@));
}

/// Adding a video that is not queued puts it last, behind everything that was
/// queued; adding one that is queued changes nothing.
pub proof fn lemma_add_places_last<T>(s: Seq<Queued<T>>, item: Queued<T>)
    ensures
        !has_id(s, item.id@) ==> added(s, item).len() == s.len() + 1 && added(s, item).last()
            == item && added(s, item).take(s.len() as int) == s,
        has_id(s, item.id@) ==> added(s, item) == s,
{
    if !has_id(s, item.id@) {
        assert(s.push(item).take(s.len() as int) =~= s);
    }
}

/// Moving the entry at `from` to `to` puts it at `to`; the entries between the
/// two positions shift by one toward `from`, and all others stay where they
/// were. An out-of-range or empty move changes nothing.
pub proof fn lemma_move_places_entry<T>(s: Seq<Queued<T>>, from: int, to: int)
    requires
        0 <= from,
        0 <= to,
    ensures
        from < s.len() && to < s.len() ==> ({
            let m = moved(s, from, to);
            &&& m.len() == s.len()
            &&& m[to] == s[from]
            &&& forall|k: int| 0 <= k < s.len() && k < from && k < to ==> m[k] == s[k]
            &&& forall|k: int| 0 <= k < s.len() && k > from && k > to ==> m[k] == s[k]
            &&& from < to ==> forall|k: int| from <= k < to ==> m[k] == s[k + 1]
            &&& to < from ==> forall|k: int| to < k <= from ==> m[k] == s[k - 1]
        }),
        from >= s.len() || to >= s.len() || from == to ==> moved(s, from, to) == s,
{
}

} // verus!
