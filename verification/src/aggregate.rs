//! Merging the per-source results and ordering them by price.

use crate::offer::Offer;
use vstd::prelude::*;

verus! {

/// x placed into s after every element whose price does not exceed x's:
/// a single step of a stable insertion sort.
pub open spec fn insert_by_price(s: Seq<Offer>, x: Offer) -> Seq<Offer>
    decreases s.len(),
{
    if s.len() == 0 {
        seq![x]
    } else if s.last().price <= x.price {
        s.push(x)
    } else {
        insert_by_price(s.drop_last(), x).push(s.last())
    }
}

/// s stably sorted ascending by price.
pub open spec fn sort_by_price(s: Seq<Offer>) -> Seq<Offer>
    decreases s.len(),
{
    if s.len() == 0 {
        Seq::empty()
    } else {
        insert_by_price(sort_by_price(s.drop_last()), s.last())
    }
}

pub open spec fn sorted_by_price(s: Seq<Offer>) -> bool {
    forall|i: int, j: int| 0 <= i < j < s.len() ==> s[i].price <= s[j].price
}

/// The offers of s priced exactly p, in their order in s.
pub open spec fn with_price(s: Seq<Offer>, p: u64) -> Seq<Offer>
    decreases s.len(),
{
    if s.len() == 0 {
        Seq::empty()
    } else if s.last().price == p {
        with_price(s.drop_last(), p).push(s.last())
    } else {
        with_price(s.drop_last(), p)
    }
}

/// The concatenation of every source's results, in source order.
pub open spec fn concat_seqs(rs: Seq<Vec<Offer>>) -> Seq<Offer>
    decreases rs.len(),
{
    if rs.len() == 0 {
        Seq::empty()
    } else {
        rs.first()@ + concat_seqs(rs.drop_first())
    }
}

proof fn lemma_insert_at(s: Seq<Offer>, x: Offer, j: int)
    requires
        0 <= j <= s.len(),
        forall|k: int| j <= k < s.len() ==> s[k].price > x.price,
        j > 0 ==> s[j - 1].price <= x.price,
    ensures
        insert_by_price(s, x) == s.take(j) + seq![x] + s.skip(j),
    decreases s.len(),
{
    if s.len() == 0 {
        assert(s.take(j) + seq![x] + s.skip(j) =~= seq![x]);
    } else if s.last().price <= x.price {
        assert(j == s.len());
        assert(s.take(j) + seq![x] + s.skip(j) =~= s.push(x));
    } else {
        assert(j < s.len());
        let s0 = s.drop_last();
        lemma_insert_at(s0, x, j);
        assert((s0.take(j) + seq![x] + s0.skip(j)).push(s.last()) =~= s.take(j) + seq![x] + s.skip(
            j,
        ));
        assert(s0.take(j) =~= s.take(j));
    }
}

proof fn lemma_insert_len(s: Seq<Offer>, x: Offer)
    ensures
        insert_by_price(s, x).len() == s.len() + 1,
    decreases s.len(),
{
    if s.len() > 0 && s.last().price > x.price {
        lemma_insert_len(s.drop_last(), x);
    }
}

proof fn lemma_insert_price_bound(s: Seq<Offer>, x: Offer, b: u64)
    requires
        forall|i: int| 0 <= i < s.len() ==> s[i].price <= b,
        x.price <= b,
    ensures
        forall|i: int|
            0 <= i < insert_by_price(s, x).len() ==> #[trigger] insert_by_price(s, x)[i].price
                <= b,
    decreases s.len(),
{
    let t = insert_by_price(s, x);
    if s.len() == 0 {
        assert(t == seq![x]);
        assert(forall|i: int| 0 <= i < t.len() ==> #[trigger] t[i] == x);
    } else if s.last().price <= x.price {
        assert(t == s.push(x));
        assert forall|i: int| 0 <= i < t.len() implies #[trigger] t[i].price <= b by {
            if i < s.len() {
                assert(t[i] == s[i]);
            } else {
                assert(t[i] == x);
            }
        }
    } else {
        let s0 = s.drop_last();
        assert(forall|i: int| 0 <= i < s0.len() ==> #[trigger] s0[i].price <= b);
        lemma_insert_price_bound(s0, x, b);
        lemma_insert_len(s0, x);
        let t0 = insert_by_price(s0, x);
        assert(t == t0.push(s.last()));
        assert forall|i: int| 0 <= i < t.len() implies #[trigger] t[i].price <= b by {
            if i < t0.len() {
                assert(t[i] == t0[i]);
            } else {
                assert(t[i] == s.last());
                assert(s.last() == s[s.len() - 1]);
            }
        }
    }
}

proof fn lemma_insert_sorted(s: Seq<Offer>, x: Offer)
    requires
        sorted_by_price(s),
    ensures
        sorted_by_price(insert_by_price(s, x)),
    decreases s.len(),
{
    if s.len() == 0 {
    } else if s.last().price <= x.price {
        assert(forall|i: int| 0 <= i < s.len() ==> #[trigger] s[i].price <= x.price);
    } else {
        let s0 = s.drop_last();
        assert(sorted_by_price(s0));
        lemma_insert_sorted(s0, x);
        lemma_insert_len(s0, x);
        assert(forall|i: int| 0 <= i < s0.len() ==> #[trigger] s0[i].price <= s.last().price);
        lemma_insert_price_bound(s0, x, s.last().price);
        let t = insert_by_price(s, x);
        let t0 = insert_by_price(s0, x);
        assert(forall|i: int, j: int|
            0 <= i < j < t.len() ==> t[i].price <= t[j].price) by {
            assert(forall|i: int| 0 <= i < t0.len() ==> t[i] == t0[i]);
            assert(t[t.len() - 1] == s.last());
        }
    }
}

proof fn lemma_insert_with_price(s: Seq<Offer>, x: Offer, p: u64)
    ensures
        with_price(insert_by_price(s, x), p) == if x.price == p {
            with_price(s, p).push(x)
        } else {
            with_price(s, p)
        },
    decreases s.len(),
{
    if s.len() == 0 {
        let t = seq![x];
        assert(insert_by_price(s, x) == t);
        assert(t.drop_last() =~= Seq::<Offer>::empty());
        assert(t.last() == x);
        assert(with_price(t, p) == if x.price == p {
            with_price(Seq::<Offer>::empty(), p).push(x)
        } else {
            with_price(Seq::<Offer>::empty(), p)
        });
        assert(with_price(Seq::<Offer>::empty(), p) == Seq::<Offer>::empty());
        assert(with_price(s, p) == Seq::<Offer>::empty());
    } else if s.last().price <= x.price {
        let t = s.push(x);
        assert(insert_by_price(s, x) == t);
        assert(t.drop_last() =~= s);
        assert(t.last() == x);
    } else {
        let s0 = s.drop_last();
        lemma_insert_with_price(s0, x, p);
        let t = insert_by_price(s0, x).push(s.last());
        assert(insert_by_price(s, x) == t);
        assert(t.drop_last() =~= insert_by_price(s0, x));
        assert(t.last() == s.last());
        if s.last().price == p {
            assert(with_price(t, p) == with_price(insert_by_price(s0, x), p).push(s.last()));
            assert(with_price(s, p) == with_price(s0, p).push(s.last()));
            assert(x.price != p);
        } else {
            assert(with_price(t, p) == with_price(insert_by_price(s0, x), p));
            assert(with_price(s, p) == with_price(s0, p));
        }
    }
}

proof fn lemma_insert_multiset(s: Seq<Offer>, x: Offer)
    ensures
        insert_by_price(s, x).to_multiset() == s.to_multiset().insert(x),
    decreases s.len(),
{
    if s.len() == 0 {
        assert(insert_by_price(s, x) =~= s.push(x));
        s.to_multiset_ensures();
    } else if s.last().price <= x.price {
        s.to_multiset_ensures();
    } else {
        let s0 = s.drop_last();
        lemma_insert_multiset(s0, x);
        insert_by_price(s0, x).to_multiset_ensures();
        s0.to_multiset_ensures();
        assert(s =~= s0.push(s.last()));
        assert(s0.to_multiset().insert(x).insert(s.last()) =~= s0.to_multiset().insert(
            s.last(),
        ).insert(x));
    }
}

/// The aggregate order is ascending by price; the result is a permutation
/// of the concatenation, with the same length; and the sort is stable:
/// among offers of one price, the concatenation order survives.
pub proof fn lemma_sort_by_price_sorted_stable(s: Seq<Offer>)
    ensures
        sorted_by_price(sort_by_price(s)),
        sort_by_price(s).len() == s.len(),
        sort_by_price(s).to_multiset() == s.to_multiset(),
        forall|p: u64| #[trigger] with_price(sort_by_price(s), p) == with_price(s, p),
    decreases s.len(),
{
    if s.len() == 0 {
        assert(s =~= Seq::<Offer>::empty());
    } else {
        let s0 = s.drop_last();
        lemma_sort_by_price_sorted_stable(s0);
        lemma_insert_sorted(sort_by_price(s0), s.last());
        lemma_insert_len(sort_by_price(s0), s.last());
        lemma_insert_multiset(sort_by_price(s0), s.last());
        s0.to_multiset_ensures();
        assert(s =~= s0.push(s.last()));
        assert(sort_by_price(s).to_multiset() == sort_by_price(s0).to_multiset().insert(s.last()));
        assert(s0.push(s.last()).to_multiset() =~= s0.to_multiset().insert(s.last()));
        assert(s.to_multiset() == s0.push(s.last()).to_multiset());
        assert(forall|p: u64| #[trigger] with_price(sort_by_price(s), p) == with_price(s, p)) by {
            assert forall|p: u64| #[trigger] with_price(sort_by_price(s), p) == with_price(s, p) by {
                lemma_insert_with_price(sort_by_price(s0), s.last(), p);
                if s.last().price == p {
                    assert(with_price(s, p) == with_price(s0, p).push(s.last()));
                } else {
                    assert(with_price(s, p) == with_price(s0, p));
                }
            }
        }
    }
}

fn insert_sorted(out: &mut Vec<Offer>, x: Offer)
    ensures
        final(out)@ == insert_by_price(old(out)@, x),
{
    let mut j: usize = out.len();
    while j > 0 && out[j - 1].price > x.price
        invariant
            j <= out@.len(),
            forall|k: int| j <= k < out@.len() ==> out@[k].price > x.price,
        decreases j,
    {
        j = j - 1;
    }
    proof {
        lemma_insert_at(out@, x, j as int);
        assert(out@.take(j as int) + seq![x] + out@.skip(j as int) =~= out@.insert(j as int, x));
    }
    out.insert(j, x);
}

/// Concatenates the per-source result lists in source-registration order and
/// sorts the whole ascending by price, stably: offers of equal price keep
/// their concatenation order.
pub fn aggregate(results: Vec<Vec<Offer>>) -> (r: Vec<Offer>)
    ensures
        r@ == sort_by_price(concat_seqs(results@)),
        sorted_by_price(r@),
{
    let ghost given: Seq<Vec<Offer>> = results@;
    let mut rest = results;
    let mut all: Vec<Offer> = Vec::new();
    while rest.len() > 0
        invariant
            all@ + concat_seqs(rest@) == concat_seqs(given),
        decreases rest.len(),
    {
        let ghost before = rest@;
        let mut v = rest.remove(0);
        proof {
            assert(rest@ =~= before.drop_first());
            assert(v@ == before.first()@);
        }
        all.append(&mut v);
        proof {
            assert(all@ + concat_seqs(rest@) =~= concat_seqs(given));
        }
    }
    proof {
        assert(all@ + concat_seqs(rest@) =~= all@);
    }

    let ghost whole: Seq<Offer> = all@;
    let mut sorted: Vec<Offer> = Vec::new();
    let mut left = all;
    proof {
        assert(left@ =~= whole.skip(0));
        assert(whole.take(0) =~= Seq::<Offer>::empty());
    }
    while left.len() > 0
        invariant
            left@.len() <= whole.len(),
            left@ == whole.skip(whole.len() - left@.len()),
            sorted@ == sort_by_price(whole.take(whole.len() - left@.len())),
        decreases left.len(),
    {
        let ghost i: int = whole.len() - left@.len();
        let ghost before = left@;
        let x = left.remove(0);
        proof {
            assert(before == whole.skip(i));
            assert forall|k: int| 0 <= k < before.len() implies #[trigger] before[k] == whole[i
                + k] by {
                assert(before[k] == whole.skip(i)[k]);
            }
            assert(left@ == before.remove(0));
            assert(left@ =~= whole.skip(i + 1));
            assert(x == whole[i]);
            assert(whole.take(i + 1).drop_last() =~= whole.take(i));
            assert(whole.take(i + 1).last() == whole[i]);
            assert(sort_by_price(whole.take(i + 1)) == insert_by_price(
                sort_by_price(whole.take(i)),
                whole[i],
            ));
        }
        insert_sorted(&mut sorted, x);
    }
    proof {
        assert(whole.take(whole.len() - left@.len()) =~= whole);
        lemma_sort_by_price_sorted_stable(concat_seqs(given));
    }
    sorted
}

/// The lowest-priced offer of a price-sorted aggregate: its first element,
/// or nothing when there are no offers.
pub fn min_offer(offers: &Vec<Offer>) -> (r: Option<&Offer>)
    ensures
        r is Some <==> offers@.len() > 0,
        r matches Some(o) ==> *o == offers@[0],
{
    if offers.len() > 0 {
        Some(&offers[0])
    } else {
        None
    }
}

} // verus!
