//! Shared shapes of the game lists: a server timestamp already resolved to
//! epoch milliseconds, the unified display row, and the fill-progress gauge.

use vstd::prelude::*;

verus! {

/// A server `at` stamp that parsed: its epoch milliseconds and its relative
/// label ("3h ago"). An absent or unparsable stamp is `None` wherever one of
/// these stands.
#[derive(Debug, PartialEq, Eq)]
pub struct Stamp {
    pub ms: i64,
    pub ago: String,
}

impl Clone for Stamp {
    fn clone(&self) -> (r: Self)
        ensures
            r == *self,
    {
        Stamp { ms: self.ms, ago: self.ago.clone() }
    }
}

/// Sort key of a stamp: its milliseconds, or 0 (oldest) when absent.
pub open spec fn ts_of(at: Option<Stamp>) -> int {
    match at {
        Some(s) => s.ms as int,
        None => 0,
    }
}

/// Display label of a stamp.
pub open spec fn ago_of(at: Option<Stamp>) -> Option<String> {
    match at {
        Some(s) => Some(s.ago),
        None => None,
    }
}

/// Epoch milliseconds for sorting; absent stamps sort oldest.
pub fn ts(at: &Option<Stamp>) -> (r: i64)
    ensures
        r == ts_of(*at),
{
    match at {
        Some(s) => s.ms,
        None => 0,
    }
}

/// Relative age label of a stamp, `None` when absent.
pub fn age(at: &Option<Stamp>) -> (r: Option<String>)
    ensures
        r == ago_of(*at),
{
    match at {
        Some(s) => Some(s.ago.clone()),
        None => None,
    }
}

/// Where a game row sits in its life cycle.
#[derive(Debug, Clone, Copy, PartialEq, Eq, Structural)]
pub enum GameStatus {
    New,
    Active,
    Solved,
}

/// One row of a game list, in display shape.
#[derive(Debug, PartialEq, Eq)]
pub struct GameRow {
    pub id: String,
    pub title: String,
    pub status: GameStatus,
    pub clues: i64,
    pub size: Option<(i64, i64)>,
    pub when: Option<String>,
    pub score: Option<i32>,
    pub progress: Option<(i64, i64)>,
}

/// Percentage of `filled` over `total`, clamped to `0..=100`.
pub open spec fn pct_of(filled: int, total: int) -> int {
    if filled <= 0 {
        0
    } else if filled >= total {
        100
    } else {
        filled * 100 / total
    }
}

/// Fill percentage for a progress bar: only when both counts arrived and
/// the total is positive.
pub open spec fn progress_pct_spec(filled: Option<i64>, total: Option<i64>) -> Option<i64> {
    match (filled, total) {
        (Some(f), Some(t)) => if t > 0 {
            Some(pct_of(f as int, t as int) as i64)
        } else {
            None
        },
        _ => None,
    }
}

proof fn lemma_pct_bounds(f: int, t: int)
    requires
        0 < f < t,
    ensures
        0 <= f * 100 / t <= 100,
{
    assert(0 <= f * 100 / t <= 100) by (nonlinear_arith)
        requires
            0 < f < t,
    ;
}

/// A whole-percent share stays within 0..=100.
pub(crate) proof fn lemma_share_bounds(part: int, whole: int)
    requires
        0 <= part <= whole,
        whole > 0,
    ensures
        0 <= part * 100 / whole <= 100,
{
    assert(0 <= part * 100 / whole <= 100) by (nonlinear_arith)
        requires
            0 <= part <= whole,
            whole > 0,
    ;
}

/// Fill percentage of an in-progress game, `None` unless both counts are
/// known and the total is positive; the result is clamped to `0..=100`.
pub fn progress_pct(filled: Option<i64>, total: Option<i64>) -> (r: Option<i64>)
    ensures
        r == progress_pct_spec(filled, total),
        r matches Some(p) ==> 0 <= p <= 100,
{
    match (filled, total) {
        (Some(f), Some(t)) => {
            if t <= 0 {
                None
            } else if f <= 0 {
                Some(0)
            } else if f >= t {
                Some(100)
            } else {
                let p: i128 = (f as i128) * 100 / (t as i128);
                proof {
                    lemma_pct_bounds(f as int, t as int);
                }
                Some(p as i64)
            }
        },
        _ => None,
    }
}


/// `order` lists every index of `keys` once, highest key first, equal keys
/// in index order: the stable descending sort of `keys`, as indices.
pub open spec fn is_desc_order(keys: Seq<i64>, order: Seq<usize>) -> bool {
    &&& order.len() == keys.len()
    &&& forall|k: int| 0 <= k < order.len() ==> #[trigger] order[k] < keys.len()
    &&& forall|k: int, l: int| 0 <= k < l < order.len() ==> order[k] != order[l]
    &&& forall|k: int, l: int|
        0 <= k < l < order.len() ==> keys[#[trigger] order[k] as int] >= keys[#[trigger] order[l] as int]
    &&& forall|k: int, l: int|
        0 <= k < l < order.len() && keys[#[trigger] order[k] as int] == keys[#[trigger] order[l] as int]
            ==> order[k] < order[l]
}

/// Indices of `keys` in stable descending key order (what a stable
/// descending sort of the keys leaves).
pub fn desc_order(keys: &Vec<i64>) -> (r: Vec<usize>)
    ensures
        is_desc_order(keys@, r@),
{
    let mut out: Vec<usize> = Vec::new();
    let n = keys.len();
    for i in 0..n
        invariant
            n == keys@.len(),
            out@.len() == i,
            forall|k: int| 0 <= k < i ==> #[trigger] out@[k] < i,
            forall|k: int, l: int| 0 <= k < l < i ==> out@[k] != out@[l],
            forall|k: int, l: int|
                0 <= k < l < i ==> keys@[#[trigger] out@[k] as int] >= keys@[#[trigger] out@[l] as int],
            forall|k: int, l: int|
                0 <= k < l < i && keys@[#[trigger] out@[k] as int] == keys@[#[trigger] out@[l] as int]
                    ==> out@[k] < out@[l],
    {
        let key = keys[i];
        let mut pos: usize = 0;
        while pos < out.len() && keys[out[pos]] >= key
            invariant
                n == keys@.len(),
                pos <= out@.len(),
                forall|k: int| 0 <= k < out@.len() ==> #[trigger] out@[k] < i,
                i < n,
                key == keys@[i as int],
                forall|k: int| 0 <= k < pos ==> keys@[#[trigger] out@[k] as int] >= key,
            decreases out@.len() - pos,
        {
            pos = pos + 1;
        }
        let ghost old_out = out@;
        out.insert(pos, i);
        proof {
            assert forall|m: int| pos <= m < old_out.len() implies keys@[#[trigger] old_out[m] as int] < key by {
                assert(keys@[old_out[pos as int] as int] < key);
                if m > pos {
                    assert(keys@[old_out[pos as int] as int] >= keys@[old_out[m] as int]);
                }
            }
            assert forall|k: int| 0 <= k < i + 1 implies #[trigger] out@[k] < i + 1 by {
                if k < pos {
                    assert(out@[k] == old_out[k]);
                } else if k > pos {
                    assert(out@[k] == old_out[k - 1]);
                }
            }
            assert forall|k: int, l: int| 0 <= k < l < i + 1 implies out@[k] != out@[l] by {
                if k < pos && l > pos {
                    assert(out@[l] == old_out[l - 1]);
                } else if k > pos {
                    assert(out@[k] == old_out[k - 1] && out@[l] == old_out[l - 1]);
                } else if k == pos {
                    assert(out@[l] == old_out[l - 1]);
                }
            }
            assert forall|k: int, l: int| 0 <= k < l < i + 1 implies keys@[#[trigger] out@[k] as int]
                >= keys@[#[trigger] out@[l] as int] by {
                if l < pos {
                } else if l == pos {
                } else if k == pos {
                    assert(out@[l] == old_out[l - 1]);
                } else if k < pos {
                    assert(out@[l] == old_out[l - 1]);
                } else {
                    assert(out@[l] == old_out[l - 1] && out@[k] == old_out[k - 1]);
                }
            }
            assert forall|k: int, l: int|
                0 <= k < l < i + 1 && keys@[#[trigger] out@[k] as int] == keys@[#[trigger] out@[l] as int]
                    implies out@[k] < out@[l] by {
                if l < pos {
                } else if l == pos {
                } else if k == pos {
                    assert(out@[l] == old_out[l - 1]);
                } else if k < pos {
                    assert(out@[l] == old_out[l - 1]);
                } else {
                    assert(out@[l] == old_out[l - 1] && out@[k] == old_out[k - 1]);
                }
            }
        }
    }
    out
}

} // verus!
