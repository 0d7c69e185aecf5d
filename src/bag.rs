//! The shuffle bag of `bevy_shuffle_bag`, seen through what it holds: the full
//! collection of items, and the draft, the indices of the items that the
//! coming picks return, taken from its end.

use bevy_shuffle_bag::ShuffleBag;
use rand_chacha::ChaCha8Rng;
use vstd::prelude::*;

verus! {

broadcast use vstd::seq_lib::group_to_multiset_ensures, vstd::multiset::group_multiset_axioms;

#[verifier::external_type_specification]
#[verifier::external_body]
#[verifier::reject_recursive_types(T)]
pub struct ExShuffleBag<T>(ShuffleBag<T>);

/// The bag's full collection (`ShuffleBag::full_collection`).
pub uninterp spec fn bag_items(b: ShuffleBag<usize>) -> Seq<usize>;

/// The bag's current draft (`ShuffleBag::current_draft`): indices into the
/// full collection; the last one is picked next.
pub uninterp spec fn bag_draft(b: ShuffleBag<usize>) -> Seq<usize>;

/// A draft as a shuffle makes it: each index below `n` exactly once.
pub open spec fn is_fresh_draft(draft: Seq<usize>, n: nat) -> bool {
    &&& draft.len() == n
    &&& draft.no_duplicates()
    &&& forall|k: int| 0 <= k < draft.len() ==> draft[k] < n
}

/// Every index of the draft points into the full collection.
pub open spec fn draft_in_range(b: ShuffleBag<usize>) -> bool {
    forall|k: int| 0 <= k < bag_draft(b).len() ==> bag_draft(b)[k] < bag_items(b).len()
}

/// A bag that can be picked from without a panic.
pub open spec fn bag_ready(b: ShuffleBag<usize>) -> bool {
    bag_draft(b).len() > 0 && draft_in_range(b)
}

/// The items that the coming picks return, in the order they come.
pub open spec fn upcoming(b: ShuffleBag<usize>) -> Seq<usize>
    recommends
        draft_in_range(b),
{
    let d = bag_draft(b);
    Seq::new(d.len(), |j: int| bag_items(b)[d[d.len() - 1 - j] as int])
}

/// Relies on `ShuffleBag::try_new`: `None` for an empty collection; else a bag
/// that holds the collection, with a freshly shuffled draft.
#[verifier::external_body]
pub(crate) fn new_bag(items: Vec<usize>, rng: &mut ChaCha8Rng) -> (r: Option<ShuffleBag<usize>>)
    ensures
        r is None <==> items@.len() == 0,
        r matches Some(b) ==> bag_items(b) == items@ && is_fresh_draft(
            bag_draft(b),
            items@.len(),
        ),
{
    ShuffleBag::try_new(items, rng)
}

/// Relies on `ShuffleBag::pick`: it pops the last index of the draft and
/// returns that item; a draft left empty is shuffled anew. It panics on an
/// empty draft or an index past the collection, which `requires` leaves out.
#[verifier::external_body]
pub(crate) fn pick(b: &mut ShuffleBag<usize>, rng: &mut ChaCha8Rng) -> (r: usize)
    requires
        bag_ready(*old(b)),
    ensures
        bag_items(*final(b)) == bag_items(*old(b)),
        r == bag_items(*old(b))[bag_draft(*old(b)).last() as int],
        bag_draft(*old(b)).len() > 1 ==> bag_draft(*final(b)) == bag_draft(*old(b)).drop_last(),
        bag_draft(*old(b)).len() == 1 ==> is_fresh_draft(
            bag_draft(*final(b)),
            bag_items(*old(b)).len(),
        ),
{
    *b.pick(rng)
}

/// Relies on `ShuffleBag::shuffle_new_draft`: the collection stays, the draft
/// is shuffled anew.
#[verifier::external_body]
pub(crate) fn shuffle_new_draft(b: &mut ShuffleBag<usize>, rng: &mut ChaCha8Rng)
    ensures
        bag_items(*final(b)) == bag_items(*old(b)),
        is_fresh_draft(bag_draft(*final(b)), bag_items(*old(b)).len()),
{
    b.shuffle_new_draft(rng)
}

/// Relies on `ShuffleBag::reset`: the collection stays, the draft is shuffled
/// anew and the last pick is forgotten.
#[verifier::external_body]
pub(crate) fn reset(b: &mut ShuffleBag<usize>, rng: &mut ChaCha8Rng)
    ensures
        bag_items(*final(b)) == bag_items(*old(b)),
        is_fresh_draft(bag_draft(*final(b)), bag_items(*old(b)).len()),
{
    b.reset(rng)
}

/// Relies on the public field `ShuffleBag::full_collection`.
#[verifier::external_body]
pub(crate) fn collection(b: &ShuffleBag<usize>) -> (r: &Vec<usize>)
    ensures
        r@ == bag_items(*b),
{
    &b.full_collection
}

/// Relies on `Vec::remove` on the public field `ShuffleBag::full_collection`:
/// the item at `i` leaves, the draft is not touched.
#[verifier::external_body]
pub(crate) fn remove_item(b: &mut ShuffleBag<usize>, i: usize)
    requires
        i < bag_items(*old(b)).len(),
    ensures
        bag_items(*final(b)) == bag_items(*old(b)).remove(i as int),
        bag_draft(*final(b)) == bag_draft(*old(b)),
{
    b.full_collection.remove(i);
}

/// Picking through a permutation of the indices yields the same multiset.
pub(crate) proof fn lemma_permutation_multiset<A>(s: Seq<A>, p: Seq<usize>)
    requires
        is_fresh_draft(p, s.len()),
    ensures
        Seq::new(p.len(), |j: int| s[p[j] as int]).to_multiset() == s.to_multiset(),
    decreases p.len(),
{
    let t = Seq::new(p.len(), |j: int| s[p[j] as int]);
    if p.len() == 0 {
        assert(t =~= Seq::<A>::empty());
        assert(s =~= Seq::<A>::empty());
    } else {
        let n = p.len() as int;
        let k = p[n - 1] as int;
        let s2 = s.remove(k);
        let p2 = Seq::new(
            (n - 1) as nat,
            |j: int| if p[j] < k { p[j] } else { (p[j] - 1) as usize },
        );
        assert forall|j: int| 0 <= j < n - 1 implies p[j] != k by {
            assert(p[j] != p[n - 1]);
        }
        assert forall|a: int, b: int| 0 <= a < b < p2.len() implies p2[a] != p2[b] by {
            assert(p[a] != p[b]);
        }
        assert(is_fresh_draft(p2, s2.len()));
        lemma_permutation_multiset(s2, p2);
        let t2 = Seq::new(p2.len(), |j: int| s2[p2[j] as int]);
        assert(t2 =~= t.drop_last());
        assert(t =~= t.drop_last().push(s[k]));
        assert(s.to_multiset().contains(s[k]));
        assert(t.to_multiset() =~= s.to_multiset());
    }
}

/// Fairness: from a freshly shuffled draft, the coming picks, as many as the
/// bag holds, return every item of its collection exactly once.
pub proof fn lemma_fresh_draft_yields_each_item_once(b: ShuffleBag<usize>)
    requires
        is_fresh_draft(bag_draft(b), bag_items(b).len()),
    ensures
        upcoming(b).len() == bag_items(b).len(),
        upcoming(b).to_multiset() == bag_items(b).to_multiset(),
{
    let d = bag_draft(b);
    let n = d.len() as int;
    let p = Seq::new(d.len(), |j: int| d[n - 1 - j]);
    assert forall|x: int, y: int| 0 <= x < y < p.len() implies p[x] != p[y] by {
        assert(d[n - 1 - x] != d[n - 1 - y]);
    }
    lemma_permutation_multiset(bag_items(b), p);
    assert(upcoming(b) =~= Seq::new(p.len(), |j: int| bag_items(b)[p[j] as int]));
}

/// A pick returns the first of the coming items and, while the draft holds
/// more than one index, leaves the rest to come in the same order; so the
/// picks after a fresh shuffle return the items of `upcoming` one by one.
pub proof fn lemma_pick_takes_the_next(before: ShuffleBag<usize>, after: ShuffleBag<usize>, r: usize)
    requires
        bag_ready(before),
        bag_items(after) == bag_items(before),
        r == bag_items(before)[bag_draft(before).last() as int],
        bag_draft(before).len() > 1 ==> bag_draft(after) == bag_draft(before).drop_last(),
    ensures
        r == upcoming(before)[0],
        bag_draft(before).len() > 1 ==> upcoming(after) == upcoming(before).drop_first(),
{
    if bag_draft(before).len() > 1 {
        assert(upcoming(after) =~= upcoming(before).drop_first());
    }
}

/// `after` and `r` are what a pick on `before` can leave and return, as
/// `pick` states it.
pub open spec fn pick_step(before: ShuffleBag<usize>, after: ShuffleBag<usize>, r: usize) -> bool {
    &&& bag_ready(before)
    &&& bag_items(after) == bag_items(before)
    &&& r == bag_items(before)[bag_draft(before).last() as int]
    &&& bag_draft(before).len() > 1 ==> bag_draft(after) == bag_draft(before).drop_last()
    &&& bag_draft(before).len() == 1 ==> is_fresh_draft(bag_draft(after), bag_items(before).len())
}

/// Bags `bs` and results `rs` of consecutive picks.
pub open spec fn pick_run(bs: Seq<ShuffleBag<usize>>, rs: Seq<usize>) -> bool {
    &&& bs.len() == rs.len() + 1
    &&& forall|i: int| 0 <= i < rs.len() ==> pick_step(#[trigger] bs[i], bs[i + 1], rs[i])
}

proof fn lemma_run_prefix(bs: Seq<ShuffleBag<usize>>, rs: Seq<usize>, i: int)
    requires
        pick_run(bs, rs),
        rs.len() == bag_items(bs[0]).len(),
        is_fresh_draft(bag_draft(bs[0]), bag_items(bs[0]).len()),
        0 <= i <= rs.len(),
    ensures
        bag_items(bs[i]) == bag_items(bs[0]),
        i < rs.len() ==> bag_ready(bs[i]) && upcoming(bs[i]) == upcoming(bs[0]).subrange(
            i,
            rs.len() as int,
        ),
        forall|k: int| 0 <= k < i ==> rs[k] == upcoming(bs[0])[k],
    decreases i,
{
    let n = rs.len() as int;
    if i == 0 {
        assert(upcoming(bs[0]).subrange(0, n) =~= upcoming(bs[0]));
    } else {
        lemma_run_prefix(bs, rs, i - 1);
        assert(pick_step(bs[i - 1], bs[i], rs[i - 1]));
        lemma_pick_takes_the_next(bs[i - 1], bs[i], rs[i - 1]);
        assert(bag_draft(bs[i - 1]).len() == upcoming(bs[i - 1]).len());
        if i < n {
            assert(upcoming(bs[i]) =~= upcoming(bs[0]).subrange(i, n));
        }
    }
}

/// Fairness over whole passes: picks from a freshly shuffled draft, as many as
/// the bag holds, return every item of its collection exactly once and leave
/// a freshly shuffled draft again, so that the next pass of as many picks
/// meets this lemma's conditions in turn.
pub proof fn lemma_pass_returns_each_item_once(bs: Seq<ShuffleBag<usize>>, rs: Seq<usize>)
    requires
        pick_run(bs, rs),
        rs.len() == bag_items(bs[0]).len(),
        is_fresh_draft(bag_draft(bs[0]), bag_items(bs[0]).len()),
    ensures
        rs.to_multiset() == bag_items(bs[0]).to_multiset(),
        bag_items(bs.last()) == bag_items(bs[0]),
        is_fresh_draft(bag_draft(bs.last()), bag_items(bs.last()).len()),
{
    let n = rs.len() as int;
    lemma_run_prefix(bs, rs, n);
    lemma_fresh_draft_yields_each_item_once(bs[0]);
    assert(rs =~= upcoming(bs[0]));
    if n > 0 {
        lemma_run_prefix(bs, rs, n - 1);
        assert(pick_step(bs[n - 1], bs[n], rs[n - 1]));
        assert(bag_draft(bs[n - 1]).len() == upcoming(bs[n - 1]).len());
    }
}

} // verus!
