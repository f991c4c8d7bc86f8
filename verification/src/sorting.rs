//! Ordering of probed cores from the fastest to the slowest.
//!
//! The order is stable: cores of equal frequency keep the order in which they
//! were probed, so the result is fixed by the input alone.

use vstd::prelude::*;

verus! {

/// A probed core: its index and its maximum clock frequency in kHz.
pub type CoreFreq = (usize, u64);

/// `sorted` with `x` placed behind every entry that is at least as fast.
pub open spec fn insert_by_freq(sorted: Seq<CoreFreq>, x: CoreFreq) -> Seq<CoreFreq>
    decreases sorted.len(),
{
    if sorted.len() == 0 {
        seq![x]
    } else if sorted.last().1 >= x.1 {
        sorted.push(x)
    } else {
        insert_by_freq(sorted.drop_last(), x).push(sorted.last())
    }
}

/// The cores of `s` from the fastest to the slowest, ties in probing order.
pub open spec fn fastest_first(s: Seq<CoreFreq>) -> Seq<CoreFreq>
    decreases s.len(),
{
    if s.len() == 0 {
        s
    } else {
        insert_by_freq(fastest_first(s.drop_last()), s.last())
    }
}

/// No core of `s` is faster than one that stands before it.
pub open spec fn is_descending(s: Seq<CoreFreq>) -> bool {
    forall|i: int, j: int| 0 <= i <= j < s.len() ==> s[i].1 >= s[j].1
}

/// `m` is the highest frequency that occurs in `s`.
pub open spec fn is_max_freq(s: Seq<CoreFreq>, m: u64) -> bool {
    &&& exists|i: int| 0 <= i < s.len() && s[i].1 == m
    &&& forall|i: int| 0 <= i < s.len() ==> s[i].1 <= m
}

/// Where `x` lands when it is inserted: the number of entries of `sorted`
/// that stay in front of it.
pub open spec fn landing_index(sorted: Seq<CoreFreq>, x: CoreFreq) -> int
    decreases sorted.len(),
{
    if sorted.len() == 0 || sorted.last().1 >= x.1 {
        sorted.len() as int
    } else {
        landing_index(sorted.drop_last(), x)
    }
}

/// Inserting by frequency is a plain insertion at the landing index, and
/// everything from that index on is slower than the new entry.
pub proof fn lemma_insert_is_insertion(sorted: Seq<CoreFreq>, x: CoreFreq)
    ensures
        0 <= landing_index(sorted, x) <= sorted.len(),
        insert_by_freq(sorted, x) == sorted.insert(landing_index(sorted, x), x),
        forall|k: int| landing_index(sorted, x) <= k < sorted.len() ==> sorted[k].1 < x.1,
        landing_index(sorted, x) > 0 ==> sorted[landing_index(sorted, x) - 1].1 >= x.1,
    decreases sorted.len(),
{
    if sorted.len() == 0 {
        assert(seq![x] =~= sorted.insert(0, x));
    } else if sorted.last().1 >= x.1 {
        assert(sorted.push(x) =~= sorted.insert(sorted.len() as int, x));
    } else {
        let front = sorted.drop_last();
        lemma_insert_is_insertion(front, x);
        let at = landing_index(front, x);
        assert(front.insert(at, x).push(sorted.last()) =~= sorted.insert(at, x));
        assert forall|k: int| at <= k < sorted.len() implies sorted[k].1 < x.1 by {
            if k < front.len() {
                assert(front[k] == sorted[k]);
            }
        }
    }
}

/// Inserting into a descending sequence leaves it descending.
pub proof fn lemma_insert_keeps_descending(sorted: Seq<CoreFreq>, x: CoreFreq)
    requires
        is_descending(sorted),
    ensures
        is_descending(insert_by_freq(sorted, x)),
{
    lemma_insert_is_insertion(sorted, x);
    let at = landing_index(sorted, x);
    let out = sorted.insert(at, x);
    assert forall|i: int, j: int| 0 <= i <= j < out.len() implies out[i].1 >= out[j].1 by {
        if i < at && j > at {
            assert(out[i] == sorted[i] && out[j] == sorted[j - 1]);
        } else if i < at && j == at {
            assert(sorted[i].1 >= sorted[at - 1].1);
        } else if i < at {
            assert(out[i] == sorted[i] && out[j] == sorted[j]);
        } else if i == at && j > at {
            assert(out[j] == sorted[j - 1]);
        } else if i > at {
            assert(out[i] == sorted[i - 1] && out[j] == sorted[j - 1]);
        }
    }
}

/// The sorted sequence is descending.
pub proof fn lemma_fastest_first_descending(s: Seq<CoreFreq>)
    ensures
        is_descending(fastest_first(s)),
    decreases s.len(),
{
    if s.len() > 0 {
        lemma_fastest_first_descending(s.drop_last());
        lemma_insert_keeps_descending(fastest_first(s.drop_last()), s.last());
    }
}

/// Sorting rearranges: every entry occurs as often after as before, and the
/// length is kept.
pub proof fn lemma_fastest_first_permutes(s: Seq<CoreFreq>)
    ensures
        fastest_first(s).to_multiset() == s.to_multiset(),
        fastest_first(s).len() == s.len(),
    decreases s.len(),
{
    broadcast use vstd::seq_lib::to_multiset_build, vstd::seq_lib::to_multiset_insert;

    if s.len() == 0 {
    } else {
        let front = s.drop_last();
        lemma_fastest_first_permutes(front);
        let sorted = fastest_first(front);
        lemma_insert_is_insertion(sorted, s.last());
        assert(front.push(s.last()) =~= s);
    }
}

/// The first entry of the sorted sequence carries the highest frequency of
/// the input.
pub proof fn lemma_fastest_first_starts_with_max(s: Seq<CoreFreq>)
    requires
        s.len() > 0,
    ensures
        is_max_freq(s, fastest_first(s)[0].1),
{
    broadcast use vstd::seq_lib::to_multiset_contains;

    let sorted = fastest_first(s);
    lemma_fastest_first_descending(s);
    lemma_fastest_first_permutes(s);
    assert(sorted.contains(sorted[0]));
    assert(s.to_multiset().count(sorted[0]) == sorted.to_multiset().count(sorted[0]));
    assert(s.contains(sorted[0]));
    let w = choose|i: int| 0 <= i < s.len() && s[i] == sorted[0];
    assert(0 <= w < s.len() && s[w].1 == sorted[0].1);
    assert forall|i: int| 0 <= i < s.len() implies s[i].1 <= sorted[0].1 by {
        assert(s.contains(s[i]));
        assert(s.to_multiset().count(s[i]) == sorted.to_multiset().count(s[i]));
        assert(sorted.contains(s[i]));
        let k = choose|k: int| 0 <= k < sorted.len() && sorted[k] == s[i];
        assert(sorted[0].1 >= sorted[k].1);
    }
}

/// Sorting is stable: of two probed cores, the one probed first also stands
/// first in the result, unless the other is faster.
pub proof fn lemma_fastest_first_is_stable(s: Seq<CoreFreq>, a: int, b: int)
    requires
        0 <= a < b < s.len(),
        s[a].1 >= s[b].1,
    ensures
        exists|i: int, j: int|
            0 <= i < j < fastest_first(s).len() && fastest_first(s)[i] == s[a] && fastest_first(
                s,
            )[j] == s[b],
    decreases s.len(),
{
    broadcast use vstd::seq_lib::to_multiset_contains;

    let front = s.drop_last();
    let sorted = fastest_first(front);
    let x = s.last();
    let at = landing_index(sorted, x);
    let out = fastest_first(s);
    lemma_insert_is_insertion(sorted, x);
    lemma_fastest_first_permutes(front);
    if b < s.len() - 1 {
        assert(front[a] == s[a] && front[b] == s[b]);
        lemma_fastest_first_is_stable(front, a, b);
        let (i, j) = choose|i: int, j: int|
            0 <= i < j < sorted.len() && sorted[i] == s[a] && sorted[j] == s[b];
        let i2 = if i < at {
            i
        } else {
            i + 1
        };
        let j2 = if j < at {
            j
        } else {
            j + 1
        };
        assert(0 <= i2 < j2 < out.len() && out[i2] == s[a] && out[j2] == s[b]);
    } else {
        assert(front[a] == s[a]);
        assert(front.contains(s[a]));
        assert(front.to_multiset().count(s[a]) == sorted.to_multiset().count(s[a]));
        assert(sorted.contains(s[a]));
        let i = choose|i: int| 0 <= i < sorted.len() && sorted[i] == s[a];
        assert(i < at);
        assert(0 <= i < at < out.len() && out[i] == s[a] && out[at] == s[b]);
    }
}

/// Orders the probed cores from the fastest to the slowest, keeping the
/// probing order among cores of equal frequency.
pub fn sort_fastest_first(cores: &[CoreFreq]) -> (out: Vec<CoreFreq>)
    ensures
        out@ == fastest_first(cores@),
        is_descending(out@),
        out@.to_multiset() == cores@.to_multiset(),
{
    let mut out: Vec<CoreFreq> = Vec::new();
    let mut i: usize = 0;
    while i < cores.len()
        invariant
            i <= cores.len(),
            out@ == fastest_first(cores@.take(i as int)),
        decreases cores.len() - i,
    {
        let x = cores[i];
        let mut j: usize = out.len();
        proof {
            assert(out@.take(j as int) =~= out@);
        }
        while j > 0 && out[j - 1].1 < x.1
            invariant
                j <= out.len(),
                landing_index(out@, x) == landing_index(out@.take(j as int), x),
            decreases j,
        {
            proof {
                assert(out@.take(j as int).drop_last() =~= out@.take(j - 1));
            }
            j -= 1;
        }
        proof {
            lemma_insert_is_insertion(out@, x);
            assert(cores@.take(i + 1).drop_last() =~= cores@.take(i as int));
        }
        out.insert(j, x);
        i += 1;
    }
    proof {
        assert(cores@.take(cores.len() as int) =~= cores@);
        lemma_fastest_first_descending(cores@);
        lemma_fastest_first_permutes(cores@);
    }
    out
}

} // verus!
