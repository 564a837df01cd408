//! Which row a dispatching statement takes: of the rows that qualify, the one
//! with the least sort key, and of several with that key the one that was
//! inserted first.

use vstd::prelude::*;

verus! {

/// Whether a row with key `a` at position `i` is taken no later than a row
/// with key `b` at position `j`: keys compare by their first part, then by
/// their second, and equal keys by position.
pub open spec fn ranks_first(a: (i64, u128), i: int, b: (i64, u128), j: int) -> bool {
    a.0 < b.0 || (a.0 == b.0 && (a.1 < b.1 || (a.1 == b.1 && i <= j)))
}

/// Whether position `i` qualifies and is taken before every other position
/// below `n` that qualifies. A position qualifies when it has a key.
pub open spec fn leads_among(keys: Seq<Option<(i64, u128)>>, n: int, i: int) -> bool {
    &&& 0 <= i < n
    &&& keys[i] is Some
    &&& forall|j: int|
        0 <= j < n && (#[trigger] keys[j]) is Some ==> ranks_first(
            keys[i]->Some_0,
            i,
            keys[j]->Some_0,
            j,
        )
}

/// Whether position `i` is the one taken.
pub open spec fn leads(keys: Seq<Option<(i64, u128)>>, i: int) -> bool {
    leads_among(keys, keys.len() as int, i)
}

/// The position taken, if any position qualifies.
pub open spec fn leader(keys: Seq<Option<(i64, u128)>>) -> Option<int> {
    if exists|i: int| leads(keys, i) {
        Some(choose|i: int| leads(keys, i))
    } else {
        None
    }
}

/// Only one position is taken.
pub proof fn lemma_leads_unique(keys: Seq<Option<(i64, u128)>>, n: int, i: int, k: int)
    requires
        leads_among(keys, n, i),
        leads_among(keys, n, k),
    ensures
        i == k,
{
    assert(ranks_first(keys[i]->Some_0, i, keys[k]->Some_0, k));
    assert(ranks_first(keys[k]->Some_0, k, keys[i]->Some_0, i));
}

/// Among the positions below `n`, one is taken as soon as one qualifies.
pub proof fn lemma_leads_among_exists(keys: Seq<Option<(i64, u128)>>, n: int, q: int)
    requires
        0 <= q < n <= keys.len(),
        keys[q] is Some,
    ensures
        exists|i: int| leads_among(keys, n, i),
    decreases n,
{
    if exists|j: int| 0 <= j < n - 1 && (#[trigger] keys[j]) is Some {
        let j = choose|j: int| 0 <= j < n - 1 && (#[trigger] keys[j]) is Some;
        let below = n - 1;
        lemma_leads_among_exists(keys, below, j);
        let w = choose|i: int| leads_among(keys, below, i);
        if keys[n - 1] is Some && !ranks_first(keys[w]->Some_0, w, keys[n - 1]->Some_0, n - 1) {
            assert(leads_among(keys, n, n - 1));
        } else {
            assert(leads_among(keys, n, w));
        }
    } else {
        assert(q == n - 1);
        assert(leads_among(keys, n, q));
    }
}

/// The position taken qualifies and comes first; none is taken only when
/// none qualifies.
pub proof fn lemma_leader(keys: Seq<Option<(i64, u128)>>)
    ensures
        match leader(keys) {
            Some(i) => leads(keys, i),
            None => forall|j: int| 0 <= j < keys.len() ==> (#[trigger] keys[j]) is None,
        },
{
    if leader(keys) is None {
        assert forall|j: int| 0 <= j < keys.len() implies (#[trigger] keys[j]) is None by {
            if keys[j] is Some {
                let n = keys.len() as int;
                lemma_leads_among_exists(keys, n, j);
                let w = choose|i: int| leads_among(keys, n, i);
                assert(leads(keys, w));
            }
        }
    }
}

/// Finds the position taken.
pub fn find_leader(keys: &Vec<Option<(i64, u128)>>) -> (found: Option<usize>)
    ensures
        match found {
            Some(i) => leader(keys@) == Some(i as int),
            None => leader(keys@) is None,
        },
{
    let mut best: Option<usize> = None;
    let mut i: usize = 0;
    while i < keys.len()
        invariant
            i <= keys.len(),
            match best {
                Some(b) => leads_among(keys@, i as int, b as int),
                None => forall|j: int| 0 <= j < i ==> (#[trigger] keys@[j]) is None,
            },
        decreases keys.len() - i,
    {
        match keys[i] {
            None => {},
            Some(key) => {
                match best {
                    None => {
                        best = Some(i);
                    },
                    Some(b) => {
                        let held = keys[b];
                        let held_key = match held {
                            Some(k) => k,
                            None => key,
                        };
                        if key.0 < held_key.0 || (key.0 == held_key.0 && key.1 < held_key.1) {
                            best = Some(i);
                        }
                    },
                }
            },
        }
        i = i + 1;
    }
    proof {
        match best {
            Some(b) => {
                assert(leads(keys@, b as int));
                let c = choose|c: int| leads(keys@, c);
                lemma_leads_unique(keys@, keys@.len() as int, b as int, c);
            },
            None => {
                assert forall|c: int| !leads(keys@, c) by {}
            },
        }
    }
    best
}

} // verus!
