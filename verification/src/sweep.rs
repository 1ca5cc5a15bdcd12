//! Sweeping a list in place: dropping the entries that a predicate rejects.

use vstd::prelude::*;

verus! {

/// One step of a sweep that keeps what `keep` holds of. `current` is the
/// list in the middle of the sweep: its first `i` entries are what is kept
/// of the first `i + dropped` entries of `before`, the rest is still as in
/// `before`.
pub proof fn lemma_sweep_step<T>(
    before: Seq<T>,
    current: Seq<T>,
    keep: spec_fn(T) -> bool,
    i: int,
    dropped: int,
)
    requires
        0 <= i < current.len(),
        0 <= dropped,
        dropped + current.len() == before.len(),
        current.subrange(0, i) == before.subrange(0, i + dropped).filter(keep),
        current.subrange(i, current.len() as int) == before.subrange(
            i + dropped,
            before.len() as int,
        ),
    ensures
        current[i] == before[i + dropped],
        keep(current[i]) ==> current.subrange(0, i + 1) == before.subrange(
            0,
            i + 1 + dropped,
        ).filter(keep) && current.subrange(i + 1, current.len() as int) == before.subrange(
            i + 1 + dropped,
            before.len() as int,
        ),
        !keep(current[i]) ==> current.remove(i).subrange(0, i) == before.subrange(
            0,
            i + dropped + 1,
        ).filter(keep) && current.remove(i).subrange(i, current.len() - 1) == before.subrange(
            i + dropped + 1,
            before.len() as int,
        ),
{
    let n = i + dropped;
    let tail = current.subrange(i, current.len() as int);
    assert(tail[0] == before.subrange(n, before.len() as int)[0]);
    assert(current[i] == tail[0]);
    assert(before.subrange(0, n + 1) =~= before.subrange(0, n).push(before[n]));
    before.subrange(0, n).lemma_filter_push(before[n], keep);
    if keep(current[i]) {
        assert(current.subrange(0, i + 1) =~= current.subrange(0, i).push(current[i]));
        assert(current.subrange(i + 1, current.len() as int) =~= tail.subrange(
            1,
            tail.len() as int,
        ));
        assert(before.subrange(n + 1, before.len() as int) =~= before.subrange(
            n,
            before.len() as int,
        ).subrange(1, before.len() - n));
    } else {
        let rest = current.remove(i);
        assert(rest.subrange(0, i) =~= current.subrange(0, i));
        assert(rest.subrange(i, current.len() - 1) =~= tail.subrange(1, tail.len() as int));
        assert(before.subrange(n + 1, before.len() as int) =~= before.subrange(
            n,
            before.len() as int,
        ).subrange(1, before.len() - n));
    }
}


/// Before a sweep starts, nothing is kept of nothing and the whole list is
/// still to be looked at.
pub proof fn lemma_sweep_start<T>(before: Seq<T>, keep: spec_fn(T) -> bool)
    ensures
        before.subrange(0, 0) == before.subrange(0, 0).filter(keep),
        before.subrange(0, before.len() as int) == before,
{
    reveal_with_fuel(Seq::filter, 1);
    assert(before.subrange(0, 0) =~= before.subrange(0, 0).filter(keep));
    assert(before.subrange(0, before.len() as int) =~= before);
}

/// When a sweep has looked at every entry, the list is what `keep` holds
/// of.
pub proof fn lemma_sweep_end<T>(before: Seq<T>, current: Seq<T>, keep: spec_fn(T) -> bool)
    requires
        current.len() <= before.len(),
        current.subrange(0, current.len() as int) == before.subrange(
            0,
            before.len() as int,
        ).filter(keep),
    ensures
        current == before.filter(keep),
{
    assert(current.subrange(0, current.len() as int) =~= current);
    assert(before.subrange(0, before.len() as int) =~= before);
}

/// Whether no two entries of `s` have the same key.
pub open spec fn distinct_by<T, K>(s: Seq<T>, key: spec_fn(T) -> K) -> bool {
    forall|i: int, j: int| 0 <= i < j < s.len() ==> key(#[trigger] s[i]) != key(#[trigger] s[j])
}

/// What is kept of a list with distinct keys has distinct keys.
pub proof fn lemma_filter_keeps_distinct<T, K>(
    s: Seq<T>,
    key: spec_fn(T) -> K,
    keep: spec_fn(T) -> bool,
)
    requires
        distinct_by(s, key),
    ensures
        distinct_by(s.filter(keep), key),
    decreases s.len(),
{
    reveal(Seq::filter);
    if s.len() > 0 {
        let init = s.drop_last();
        assert forall|i: int, j: int| 0 <= i < j < init.len() implies key(#[trigger] init[i]) != key(
            #[trigger] init[j],
        ) by {
            assert(init[i] == s[i]);
            assert(init[j] == s[j]);
        }
        lemma_filter_keeps_distinct(init, key, keep);
        let kept = init.filter(keep);
        if keep(s.last()) {
            let all = kept.push(s.last());
            assert forall|i: int, j: int| 0 <= i < j < all.len() implies key(#[trigger] all[i])
                != key(#[trigger] all[j]) by {
                assert(all[i] == kept[i]);
                if j < kept.len() {
                    assert(all[j] == kept[j]);
                } else {
                    assert(kept.contains(kept[i]));
                    init.lemma_filter_contains_rev(keep, kept[i]);
                    let a = choose|a: int| 0 <= a < init.len() && init[a] == kept[i];
                    assert(s[a] == kept[i]);
                    assert(s[s.len() - 1] == all[j]);
                }
            }
        }
    }
}

} // verus!
