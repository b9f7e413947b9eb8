use vstd::prelude::*;

verus! {

/// Strictly falling.
pub open spec fn is_descending(s: Seq<u64>) -> bool {
    forall|i: int, j: int| 0 <= i < j < s.len() ==> s[i] > s[j]
}

/// The numbers of a list without repetitions, largest first.
pub fn descending(numbers: &Vec<u64>) -> (sorted: Vec<u64>)
    requires
        numbers@.no_duplicates(),
    ensures
        is_descending(sorted@),
        sorted@.len() == numbers@.len(),
        forall|n: u64| sorted@.contains(n) <==> numbers@.contains(n),
{
    let mut sorted: Vec<u64> = Vec::new();
    let mut i: usize = 0;
    while i < numbers.len()
        invariant
            i <= numbers@.len(),
            numbers@.no_duplicates(),
            is_descending(sorted@),
            sorted@.len() == i,
            forall|n: u64| sorted@.contains(n) <==> numbers@.take(i as int).contains(n),
        decreases numbers@.len() - i,
    {
        let n: u64 = numbers[i];
        let mut at: usize = 0;
        while at < sorted.len() && sorted[at] > n
            invariant
                at <= sorted@.len(),
                forall|j: int| 0 <= j < at ==> sorted@[j] > n,
            decreases sorted@.len() - at,
        {
            at += 1;
        }
        let ghost before = sorted@;
        proof {
            let taken = numbers@.take(i as int);
            if before.contains(n) {
                assert(taken.contains(n));
                let k = choose|k: int| 0 <= k < taken.len() && taken[k] == n;
                assert(numbers@[k] == numbers@[i as int]);
            }
            assert(at < before.len() ==> before.contains(before[at as int]));
        }
        sorted.insert(at, n);
        proof {
            assert(sorted@ == before.insert(at as int, n));
            assert forall|m: u64| sorted@.contains(m) <==> numbers@.take(i + 1).contains(m) by {
                let taken = numbers@.take(i as int);
                let next = numbers@.take(i + 1);
                assert(next =~= taken.push(n));
                if sorted@.contains(m) {
                    let k = choose|k: int| 0 <= k < sorted@.len() && sorted@[k] == m;
                    if k < at {
                        assert(before[k] == m);
                        assert(before.contains(m));
                    } else if k > at {
                        assert(before[k - 1] == m);
                        assert(before.contains(m));
                    }
                    if m == n {
                        assert(next[i as int] == m);
                    } else {
                        let t = choose|t: int| 0 <= t < taken.len() && taken[t] == m;
                        assert(next[t] == m);
                    }
                }
                if next.contains(m) {
                    if m == n {
                        assert(sorted@[at as int] == m);
                    } else {
                        let t = choose|t: int| 0 <= t < next.len() && next[t] == m;
                        assert(taken[t] == m);
                        assert(before.contains(m));
                        let k = choose|k: int| 0 <= k < before.len() && before[k] == m;
                        if k < at {
                            assert(sorted@[k] == m);
                        } else {
                            assert(sorted@[k + 1] == m);
                        }
                    }
                }
            }
        }
        i += 1;
    }
    assert(numbers@.take(i as int) =~= numbers@);
    sorted
}

} // verus!
