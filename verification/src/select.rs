//! Greedy coin selection: sort the funding coins largest first (keeping the order of equal
//! amounts) and take the shortest prefix whose total covers the amount needed.
use vstd::prelude::*;
use vstd::seq_lib::*;
use crate::types::{Cat, Coin};

verus! {

/// A funding coin: something with an amount that selection can sort and sum.
pub trait Funding: Copy {
    /// The amount this coin contributes.
    spec fn value(&self) -> u64;

    fn funding_amount(&self) -> (r: u64)
        ensures
            r == self.value(),
    ;
}

impl Funding for Coin {
    open spec fn value(&self) -> u64 {
        self.amount
    }

    fn funding_amount(&self) -> (r: u64) {
        self.amount
    }
}

impl Funding for Cat {
    open spec fn value(&self) -> u64 {
        self.coin.amount
    }

    fn funding_amount(&self) -> (r: u64) {
        self.coin.amount
    }
}

/// The sum of the amounts of `s`.
pub open spec fn total<T: Funding>(s: Seq<T>) -> int
    decreases s.len(),
{
    if s.len() == 0 {
        0
    } else {
        total(s.drop_last()) + s.last().value()
    }
}

/// Where `x` goes in the largest-first sequence `sorted`: after every element at least as
/// large, before every smaller one.
pub open spec fn insert_pos<T: Funding>(sorted: Seq<T>, x: T) -> nat
    decreases sorted.len(),
{
    if sorted.len() == 0 {
        0
    } else if sorted.last().value() < x.value() {
        insert_pos(sorted.drop_last(), x)
    } else {
        sorted.len()
    }
}

/// `s` sorted largest first; elements of equal amount keep their relative order.
pub open spec fn largest_first<T: Funding>(s: Seq<T>) -> Seq<T>
    decreases s.len(),
{
    if s.len() == 0 {
        s
    } else {
        let r = largest_first(s.drop_last());
        r.insert(insert_pos(r, s.last()) as int, s.last())
    }
}

/// The length of the shortest prefix of `s`, starting the search at `k`, whose total covers
/// `need` (all of `s` if none does).
pub open spec fn cover_from<T: Funding>(s: Seq<T>, need: int, k: nat) -> nat
    decreases s.len() - k,
{
    if k >= s.len() || total(s.take(k as int)) >= need {
        k
    } else {
        cover_from(s, need, k + 1)
    }
}

/// The shortest prefix of `s` whose total covers `need`, or all of `s` if none does.
pub open spec fn covering_prefix<T: Funding>(s: Seq<T>, need: int) -> Seq<T> {
    s.take(cover_from(s, need, 0) as int)
}

/// The amounts of `s` are non-increasing.
pub open spec fn is_largest_first<T: Funding>(s: Seq<T>) -> bool {
    forall|i: int, j: int| 0 <= i < j < s.len() ==> s[i].value() >= s[j].value()
}

pub proof fn lemma_total_concat<T: Funding>(a: Seq<T>, b: Seq<T>)
    ensures
        total(a + b) == total(a) + total(b),
    decreases b.len(),
{
    if b.len() == 0 {
        assert(a + b =~= a);
    } else {
        lemma_total_concat(a, b.drop_last());
        assert((a + b).drop_last() =~= a + b.drop_last());
    }
}

pub proof fn lemma_total_insert<T: Funding>(s: Seq<T>, p: int, x: T)
    requires
        0 <= p <= s.len(),
    ensures
        total(s.insert(p, x)) == total(s) + x.value(),
{
    let a = s.take(p);
    let b = s.skip(p);
    assert(s =~= a + b);
    assert(s.insert(p, x) =~= a.push(x) + b);
    lemma_total_concat(a, b);
    lemma_total_concat(a.push(x), b);
    assert(a.push(x).drop_last() =~= a);
}

pub proof fn lemma_total_take_succ<T: Funding>(s: Seq<T>, k: int)
    requires
        0 <= k < s.len(),
    ensures
        total(s.take(k + 1)) == total(s.take(k)) + s[k].value(),
{
    assert(s.take(k + 1).drop_last() =~= s.take(k));
}

pub proof fn lemma_total_nonneg<T: Funding>(s: Seq<T>)
    ensures
        total(s) >= 0,
    decreases s.len(),
{
    if s.len() > 0 {
        lemma_total_nonneg(s.drop_last());
    }
}

proof fn lemma_insert_pos_bound<T: Funding>(sorted: Seq<T>, x: T)
    ensures
        insert_pos(sorted, x) <= sorted.len(),
        forall|k: int| insert_pos(sorted, x) <= k < sorted.len() ==> sorted[k].value() < x.value(),
        insert_pos(sorted, x) > 0 ==> sorted[insert_pos(sorted, x) - 1].value() >= x.value(),
    decreases sorted.len(),
{
    if sorted.len() > 0 && sorted.last().value() < x.value() {
        lemma_insert_pos_bound(sorted.drop_last(), x);
        assert forall|k: int| insert_pos(sorted, x) <= k < sorted.len() implies sorted[k].value()
            < x.value() by {
            if k < sorted.len() - 1 {
                assert(sorted[k] == sorted.drop_last()[k]);
            }
        }
    }
}

/// Sorting largest first only reorders: it keeps every coin, and nothing else.
pub proof fn lemma_largest_first_permutes<T: Funding>(s: Seq<T>)
    ensures
        largest_first(s).to_multiset() == s.to_multiset(),
        largest_first(s).len() == s.len(),
        total(largest_first(s)) == total(s),
    decreases s.len(),
{
    broadcast use group_to_multiset_ensures;

    if s.len() > 0 {
        let r = largest_first(s.drop_last());
        lemma_largest_first_permutes(s.drop_last());
        lemma_insert_pos_bound(r, s.last());
        let p = insert_pos(r, s.last()) as int;
        to_multiset_insert(r, p, s.last());
        lemma_total_insert(r, p, s.last());
        assert(s.drop_last().push(s.last()) =~= s);
        to_multiset_build(s.drop_last(), s.last());
    }
}

/// Sorting largest first yields non-increasing amounts.
pub proof fn lemma_largest_first_sorted<T: Funding>(s: Seq<T>)
    ensures
        is_largest_first(largest_first(s)),
    decreases s.len(),
{
    if s.len() > 0 {
        let r = largest_first(s.drop_last());
        let x = s.last();
        lemma_largest_first_sorted(s.drop_last());
        lemma_insert_pos_bound(r, x);
        let p = insert_pos(r, x) as int;
        let q = r.insert(p, x);
        assert forall|i: int, j: int| 0 <= i < j < q.len() implies q[i].value() >= q[j].value() by {
            if j < p {
            } else if j == p {
                assert(q[i] == r[i]);
                assert(r[i].value() >= r[p - 1].value());
            } else if i < p {
                assert(q[j] == r[j - 1]);
            } else if i == p {
                assert(q[j] == r[j - 1]);
            } else {
                assert(q[i] == r[i - 1]);
                assert(q[j] == r[j - 1]);
            }
        }
    }
}

/// The covering prefix covers `need` whenever the whole sequence does, and it is the shortest
/// prefix that does.
pub proof fn lemma_covering_prefix<T: Funding>(s: Seq<T>, need: int)
    ensures
        total(s) >= need ==> total(covering_prefix(s, need)) >= need,
        forall|k: int|
            0 <= k < covering_prefix(s, need).len() ==> total(#[trigger] s.take(k)) < need,
        covering_prefix(s, need).len() <= s.len(),
        cover_from(s, need, 0) <= s.len(),
{
    lemma_cover_from(s, need, 0);
    assert(s.take(s.len() as int) =~= s);
}

proof fn lemma_cover_from<T: Funding>(s: Seq<T>, need: int, k: nat)
    requires
        k <= s.len(),
        forall|j: int| 0 <= j < k ==> total(#[trigger] s.take(j)) < need,
    ensures
        k <= cover_from(s, need, k) <= s.len(),
        cover_from(s, need, k) < s.len() ==> total(s.take(cover_from(s, need, k) as int))
            >= need,
        forall|j: int| 0 <= j < cover_from(s, need, k) ==> total(#[trigger] s.take(j)) < need,
    decreases s.len() - k,
{
    if k >= s.len() || total(s.take(k as int)) >= need {
    } else {
        lemma_cover_from(s, need, k + 1);
    }
}

pub proof fn lemma_total_prefix_le<T: Funding>(s: Seq<T>, k: int)
    requires
        0 <= k <= s.len(),
    ensures
        total(s.take(k)) <= total(s),
{
    assert(s =~= s.take(k) + s.skip(k));
    lemma_total_concat(s.take(k), s.skip(k));
    lemma_total_nonneg(s.skip(k));
}

/// When the whole sequence falls short of `need`, the covering prefix is the whole sequence.
pub proof fn lemma_covering_all_when_short<T: Funding>(s: Seq<T>, need: int)
    requires
        total(s) < need,
    ensures
        covering_prefix(s, need) == s,
{
    lemma_cover_from(s, need, 0);
    let k = cover_from(s, need, 0) as int;
    if k < s.len() {
        lemma_total_prefix_le(s, k);
    }
    assert(s.take(s.len() as int) =~= s);
}

/// The coins a prefix of `s` holds are coins of `s`.
proof fn lemma_prefix_sub_multiset<T>(s: Seq<T>, k: int)
    requires
        0 <= k <= s.len(),
    ensures
        s.take(k).to_multiset().subset_of(s.to_multiset()),
{
    broadcast use vstd::multiset::group_multiset_axioms;

    assert(s =~= s.take(k) + s.skip(k));
    lemma_multiset_commutative(s.take(k), s.skip(k));
}

/// What greedy selection spends: only coins it was given (each at most as often as it was
/// given), largest first; enough to cover `need` whenever the coins together can; and no more
/// coins than that, since every shorter run of the same coins falls short of `need`.
pub proof fn lemma_selection<T: Funding>(coins: Seq<T>, need: int)
    ensures
        covering_prefix(largest_first(coins), need).to_multiset().subset_of(coins.to_multiset()),
        is_largest_first(covering_prefix(largest_first(coins), need)),
        total(coins) >= need ==> total(covering_prefix(largest_first(coins), need)) >= need,
        forall|k: int|
            0 <= k < covering_prefix(largest_first(coins), need).len() ==> total(
                #[trigger] covering_prefix(largest_first(coins), need).take(k),
            ) < need,
{
    let s = largest_first(coins);
    let sel = covering_prefix(s, need);
    lemma_largest_first_permutes(coins);
    lemma_largest_first_sorted(coins);
    lemma_covering_prefix(s, need);
    let c = cover_from(s, need, 0) as int;
    assert(sel == s.take(c));
    assert(0 <= c <= s.len());
    lemma_prefix_sub_multiset(s, c);
    assert forall|k: int| 0 <= k < sel.len() implies total(#[trigger] sel.take(k)) < need by {
        assert(sel.take(k) =~= s.take(k));
        assert(total(s.take(k)) < need);
    }
}

/// Sorts the coins largest first, keeping the order of equal amounts.
pub fn sort_largest_first<T: Funding>(coins: &[T]) -> (r: Vec<T>)
    ensures
        r@ == largest_first(coins@),
{
    let mut out: Vec<T> = Vec::new();
    let n = coins.len();
    let mut i: usize = 0;
    assert(coins@.take(0) =~= Seq::<T>::empty());
    while i < n
        invariant
            n == coins@.len(),
            i <= n,
            out@ == largest_first(coins@.take(i as int)),
        decreases n - i,
    {
        let x = coins[i];
        let ghost before = out@;
        let mut p: usize = out.len();
        assert(before.take(p as int) =~= before);
        while p > 0 && out[p - 1].funding_amount() < x.funding_amount()
            invariant
                out@ == before,
                p <= out@.len(),
                insert_pos(before, x) == insert_pos(before.take(p as int), x),
            decreases p,
        {
            assert(before.take(p as int).drop_last() =~= before.take(p - 1));
            p = p - 1;
        }
        out.insert(p, x);
        assert(coins@.take(i + 1).drop_last() =~= coins@.take(i as int));
        assert(coins@.take(i + 1).last() == x);
        i = i + 1;
    }
    assert(coins@.take(n as int) =~= coins@);
    out
}

/// Takes coins from the front of `sorted` until their total covers `need`. Returns the coins
/// taken and their total, saturated at `u64::MAX`.
pub fn take_covering<T: Funding>(sorted: &Vec<T>, need: u64) -> (r: (Vec<T>, u64))
    ensures
        r.0@ == covering_prefix(sorted@, need as int),
        r.1 == (if total(r.0@) > u64::MAX { u64::MAX as int } else { total(r.0@) }),
{
    let mut chosen: Vec<T> = Vec::new();
    let mut sum: u64 = 0;
    let n = sorted.len();
    let mut i: usize = 0;
    assert(sorted@.take(0) =~= Seq::<T>::empty());
    while i < n
        invariant_except_break
            n == sorted@.len(),
            i <= n,
            chosen@ == sorted@.take(i as int),
            sum == (if total(chosen@) > u64::MAX { u64::MAX as int } else { total(chosen@) }),
            cover_from(sorted@, need as int, 0) == cover_from(sorted@, need as int, i as nat),
        ensures
            chosen@ == sorted@.take(cover_from(sorted@, need as int, 0) as int),
            sum == (if total(chosen@) > u64::MAX { u64::MAX as int } else { total(chosen@) }),
        decreases n - i,
    {
        if sum >= need {
            break;
        }
        let c = sorted[i];
        proof {
            lemma_total_take_succ(sorted@, i as int);
            lemma_total_nonneg(sorted@.take(i as int));
        }
        sum = sum.saturating_add(c.funding_amount());
        chosen.push(c);
        assert(chosen@ =~= sorted@.take(i + 1));
        i = i + 1;
    }
    (chosen, sum)
}

} // verus!
