use vstd::prelude::*;

use crate::store::{candidate_view, decoded_rows, Candidate, Row};

verus! {

/// One ranked hit of a search.
#[derive(Debug, Clone, PartialEq, Eq)]
pub struct SearchResult {
    /// The record's id.
    pub id: String,
    /// The similarity score, as the bit pattern of a 32-bit float; higher
    /// is more similar.
    pub score_bits: u32,
    /// The record's metadata, as stored.
    pub metadata: String,
}

/// An unsigned key that orders float bit patterns as their values are
/// ordered: a negative float (sign bit set) maps below every positive one,
/// with its bits reversed so that larger magnitudes come first.
pub open spec fn order_key(bits: u32) -> u32 {
    if bits >= 0x8000_0000 {
        (0xFFFF_FFFFu32 - bits) as u32
    } else {
        (bits + 0x8000_0000u32) as u32
    }
}

/// The ranking keys of a sequence of results, in the same order.
pub open spec fn keys_of(results: Seq<SearchResult>) -> Seq<u32> {
    results.map_values(|s: SearchResult| order_key(s.score_bits))
}

/// `order` lists the positions of the `k` highest keys (all positions where
/// there are fewer), each once, from the highest key down: every position
/// left out has a key no higher than any that was picked.
pub open spec fn is_top_order(keys: Seq<u32>, k: nat, order: Seq<usize>) -> bool {
    &&& order.len() == if k < keys.len() { k } else { keys.len() }
    &&& forall|i: int| 0 <= i < order.len() ==> (#[trigger] order[i] as int) < keys.len()
    &&& forall|i: int, j: int| 0 <= i < j < order.len() ==> order[i] != order[j]
    &&& forall|i: int, j: int|
        0 <= i < j < order.len() ==> keys[order[i] as int] >= keys[order[j] as int]
    &&& forall|x: int, i: int|
        #![trigger keys[x], order[i]]
        0 <= x < keys.len() && !order.contains(x as usize) && 0 <= i < order.len() ==> keys[x]
            <= keys[order[i] as int]
}

/// The ranking key of a score's bit pattern.
pub fn score_key(bits: u32) -> (r: u32)
    ensures
        r == order_key(bits),
{
    if bits >= 0x8000_0000 {
        0xFFFF_FFFF - bits
    } else {
        bits + 0x8000_0000
    }
}

/// The positions of the `k` highest keys, from the highest down. Among equal
/// keys the earlier position comes first.
pub fn select_top(keys: &Vec<u32>, k: usize) -> (r: Vec<usize>)
    ensures
        is_top_order(keys@, k as nat, r@),
{
    let n = keys.len();
    let mut order: Vec<usize> = Vec::new();
    let mut x: usize = 0;
    while x < n
        invariant
            n == keys@.len(),
            x <= n,
            order@.len() == x,
            forall|i: int| 0 <= i < order@.len() ==> (#[trigger] order@[i] as int) < x,
            forall|i: int, j: int| 0 <= i < j < order@.len() ==> order@[i] != order@[j],
            forall|i: int, j: int|
                0 <= i < j < order@.len() ==> keys@[order@[i] as int] >= keys@[order@[j] as int],
            forall|y: int| 0 <= y < x ==> #[trigger] order@.contains(y as usize),
        decreases n - x,
    {
        let kx = keys[x];
        let mut p: usize = 0;
        while p < order.len() && keys[order[p]] >= kx
            invariant
                n == keys@.len(),
                x < n,
                kx == keys@[x as int],
                p <= order@.len(),
                order@.len() == x,
                forall|i: int| 0 <= i < order@.len() ==> (#[trigger] order@[i] as int) < x,
                forall|i: int| 0 <= i < p ==> keys@[#[trigger] order@[i] as int] >= kx,
            decreases order@.len() - p,
        {
            p = p + 1;
        }
        let ghost prev = order@;
        proof {
            prev.insert_ensures(p as int, x);
            assert forall|i: int| p <= i < prev.len() implies keys@[#[trigger] prev[i] as int]
                < kx by {
                assert(keys@[prev[p as int] as int] < kx);
            }
        }
        order.insert(p, x);
        proof {
            let s = order@;
            assert forall|i: int| 0 <= i < s.len() implies s[i] == if i < p {
                prev[i]
            } else if i == p {
                x
            } else {
                prev[i - 1]
            } by {
                if i > p {
                    assert(s[(i - 1) + 1] == prev[i - 1]);
                }
            }
            assert forall|y: int| 0 <= y < x + 1 implies #[trigger] s.contains(y as usize) by {
                if y == x {
                    assert(s[p as int] == x);
                } else {
                    assert(prev.contains(y as usize));
                    let i = choose|i: int| 0 <= i < prev.len() && prev[i] == y as usize;
                    if i < p {
                        assert(s[i] == y as usize);
                    } else {
                        assert(s[i + 1] == y as usize);
                    }
                }
            }
        }
        x = x + 1;
    }
    let m: usize = if k < n { k } else { n };
    let ghost full = order@;
    order.truncate(m);
    proof {
        let s = order@;
        assert(s =~= full.subrange(0, m as int));
        assert forall|y: int, i: int|
            #![trigger keys@[y], s[i]]
            0 <= y < n && !s.contains(y as usize) && 0 <= i < s.len() implies keys@[y]
            <= keys@[s[i] as int] by {
            assert(full.contains(y as usize));
            let j = choose|j: int| 0 <= j < full.len() && full[j] == y as usize;
            if j < m {
                assert(s[j] == y as usize);
            }
            assert(s[i] == full[i]);
        }
    }
    order
}

/// Keeps the `k` results with the highest scores, from the highest down.
/// Scores are compared by `order_key`; among equal scores the earlier result
/// comes first. `k` larger than the number of results keeps them all, and
/// `k == 0` keeps none.
pub fn rank(results: &Vec<SearchResult>, k: usize) -> (r: Vec<SearchResult>)
    ensures
        exists|order: Seq<usize>|
            #[trigger] is_top_order(keys_of(results@), k as nat, order) && r@.len() == order.len()
                && forall|i: int| 0 <= i < order.len() ==> r@[i] == results@[#[trigger] order[i] as int],
{
    let mut keys: Vec<u32> = Vec::new();
    let mut i: usize = 0;
    while i < results.len()
        invariant
            i <= results@.len(),
            keys@ == keys_of(results@).subrange(0, i as int),
        decreases results@.len() - i,
    {
        keys.push(score_key(results[i].score_bits));
        i = i + 1;
        assert(keys@ =~= keys_of(results@).subrange(0, i as int));
    }
    assert(keys@ =~= keys_of(results@));
    let order = select_top(&keys, k);
    let mut r: Vec<SearchResult> = Vec::new();
    let mut j: usize = 0;
    while j < order.len()
        invariant
            keys@ == keys_of(results@),
            is_top_order(keys@, k as nat, order@),
            j <= order@.len(),
            r@.len() == j,
            forall|t: int| 0 <= t < j ==> r@[t] == results@[#[trigger] order@[t] as int],
        decreases order@.len() - j,
    {
        let hit = &results[order[j]];
        r.push(SearchResult {
            id: hit.id.clone(),
            score_bits: hit.score_bits,
            metadata: hit.metadata.clone(),
        });
        j = j + 1;
    }
    r
}

/// Each candidate paired with its score, in order.
pub open spec fn scored(candidates: Seq<Candidate>, scores: Seq<u32>) -> Seq<SearchResult> {
    Seq::new(
        candidates.len(),
        |i: int|
            SearchResult {
                id: candidates[i].id,
                score_bits: scores[i],
                metadata: candidates[i].metadata,
            },
    )
}

/// Pairs each decoded candidate with its score (the same position in
/// `scores`) and keeps the `k` best, from the highest score down.
pub fn top_k(candidates: &Vec<Candidate>, scores: &Vec<u32>, k: usize) -> (r: Vec<SearchResult>)
    requires
        candidates@.len() == scores@.len(),
    ensures
        exists|order: Seq<usize>|
            #[trigger] is_top_order(keys_of(scored(candidates@, scores@)), k as nat, order)
                && r@.len() == order.len() && forall|i: int|
                0 <= i < order.len() ==> r@[i] == scored(candidates@, scores@)[#[trigger] order[i] as int],
{
    let mut results: Vec<SearchResult> = Vec::new();
    let mut i: usize = 0;
    while i < candidates.len()
        invariant
            candidates@.len() == scores@.len(),
            i <= candidates@.len(),
            results@ == scored(candidates@, scores@).subrange(0, i as int),
        decreases candidates@.len() - i,
    {
        let c = &candidates[i];
        results.push(SearchResult {
            id: c.id.clone(),
            score_bits: scores[i],
            metadata: c.metadata.clone(),
        });
        i = i + 1;
        assert(results@ =~= scored(candidates@, scores@).subrange(0, i as int));
    }
    assert(results@ =~= scored(candidates@, scores@));
    rank(&results, k)
}

/// Search over the rows of a scan: with one score per candidate that
/// `decode_rows` kept, the ranking that `top_k` gives holds min(k, number of
/// decodable rows) results, from the highest score down, each with the id and
/// metadata of a decodable row, and no two from the same row.
pub proof fn lemma_search_ranked(
    rows: Seq<Row>,
    candidates: Seq<Candidate>,
    scores: Seq<u32>,
    k: nat,
    order: Seq<usize>,
    r: Seq<SearchResult>,
)
    requires
        candidates.map_values(|c: Candidate| candidate_view(c)) == decoded_rows(rows),
        candidates.len() == scores.len(),
        is_top_order(keys_of(scored(candidates, scores)), k, order),
        r.len() == order.len(),
        forall|i: int| 0 <= i < order.len() ==> r[i] == scored(candidates, scores)[#[trigger] order[i] as int],
    ensures
        r.len() == if k < decoded_rows(rows).len() { k } else { decoded_rows(rows).len() },
        forall|i: int, j: int|
            0 <= i < j < r.len() ==> order_key(r[i].score_bits) >= order_key(r[j].score_bits),
        forall|i: int|
            0 <= i < r.len() ==> (#[trigger] r[i]).id@ == decoded_rows(rows)[order[i] as int].0
                && r[i].metadata@ == decoded_rows(rows)[order[i] as int].2,
        forall|i: int, j: int| 0 <= i < j < r.len() ==> order[i] != order[j],
{
    let d = decoded_rows(rows);
    let sc = scored(candidates, scores);
    let keys = keys_of(sc);
    assert(d.len() == candidates.len()) by {
        assert(candidates.map_values(|c: Candidate| candidate_view(c)).len() == candidates.len());
    }
    assert forall|i: int, j: int| 0 <= i < j < r.len() implies order_key(r[i].score_bits)
        >= order_key(r[j].score_bits) by {
        assert(keys[order[i] as int] >= keys[order[j] as int]);
        assert(r[i] == sc[order[i] as int]);
        assert(r[j] == sc[order[j] as int]);
    }
    assert forall|i: int| 0 <= i < r.len() implies (#[trigger] r[i]).id@ == d[order[i] as int].0
        && r[i].metadata@ == d[order[i] as int].2 by {
        let x = order[i] as int;
        assert(0 <= x < keys.len());
        assert(r[i] == sc[x]);
        assert(d[x] == candidate_view(candidates[x]));
    }
}

/// The first result of a ranking holds the highest key of all.
pub proof fn lemma_top_first(keys: Seq<u32>, k: nat, order: Seq<usize>)
    requires
        is_top_order(keys, k, order),
        k > 0,
        0 < keys.len() <= usize::MAX,
    ensures
        order.len() > 0,
        forall|x: int| 0 <= x < keys.len() ==> #[trigger] keys[x] <= keys[order[0] as int],
{
    assert forall|x: int| 0 <= x < keys.len() implies #[trigger] keys[x] <= keys[order[0] as int] by {
        if order.contains(x as usize) {
            let j = choose|j: int| 0 <= j < order.len() && order[j] == x as usize;
            if j > 0 {
                assert(keys[order[0] as int] >= keys[order[j] as int]);
            }
        }
    }
}

} // verus!
