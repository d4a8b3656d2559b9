//! The pre-start page of a puzzle: the blank-grid silhouette, the solve
//! estimate, and what the Start button does.

use vstd::prelude::*;
use crate::route::Route;
use crate::auth::{json_str_field_of, trpc_err_msg};
use crate::text::{dec, push_dec, same_str};

verus! {

/// One clue of the silhouette: where its answer starts, its direction on
/// the wire ("ACROSS" or anything else for down) and its length.
#[derive(Debug, PartialEq, Eq)]
pub struct SilhouetteQ {
    pub root_x: i32,
    pub root_y: i32,
    pub direction: String,
    pub len: i32,
}

/// The `i`-th cell of a clue's answer.
pub open spec fn sil_cell(q: SilhouetteQ, i: int) -> (int, int) {
    if q.direction@ == "ACROSS"@ {
        (q.root_x + i, q.root_y as int)
    } else {
        (q.root_x as int, q.root_y + i)
    }
}

/// Cell `(x, y)` of the grid is covered by some clue's answer.
pub open spec fn covered(qs: Seq<SilhouetteQ>, x: int, y: int) -> bool {
    exists|k: int, i: int|
        0 <= k < qs.len() && 0 <= i < qs[k].len && #[trigger] sil_cell(qs[k], i) == (x, y) && x >= 0
            && y >= 0
}

/// The clue's cells are computable and every drawn one (non-negative) stays
/// below the largest coordinate, so the grid extent fits too.
pub open spec fn sil_fits(q: SilhouetteQ) -> bool {
    forall|i: int|
        0 <= i < q.len ==> {
            let c = #[trigger] sil_cell(q, i);
            c.0 <= i32::MAX && c.1 <= i32::MAX && (c.0 >= 0 && c.1 >= 0 ==> c.0 < i32::MAX && c.1
                < i32::MAX)
        }
}

/// `a` comes before `b` in row-major order of `(x, y)` pairs.
pub open spec fn pair_lt(a: (i32, i32), b: (i32, i32)) -> bool {
    a.0 < b.0 || (a.0 == b.0 && a.1 < b.1)
}

/// Whether the pair is already in the sorted list, and where it would go.
fn locate(v: &Vec<(i32, i32)>, p: (i32, i32)) -> (r: (usize, bool))
    requires
        forall|a: int, b: int| 0 <= a < b < v@.len() ==> pair_lt(#[trigger] v@[a], #[trigger] v@[b]),
    ensures
        r.0 <= v@.len(),
        forall|k: int| 0 <= k < r.0 ==> pair_lt(#[trigger] v@[k], p),
        r.1 ==> r.0 < v@.len() && v@[r.0 as int] == p,
        !r.1 ==> forall|k: int| r.0 <= k < v@.len() ==> pair_lt(p, #[trigger] v@[k]),
{
    let mut i: usize = 0;
    while i < v.len() && (v[i].0 < p.0 || (v[i].0 == p.0 && v[i].1 < p.1))
        invariant
            i <= v@.len(),
            forall|k: int| 0 <= k < i ==> pair_lt(#[trigger] v@[k], p),
        decreases v@.len() - i,
    {
        i = i + 1;
    }
    if i < v.len() && v[i].0 == p.0 && v[i].1 == p.1 {
        (i, true)
    } else {
        proof {
            assert forall|k: int| i <= k < v@.len() implies pair_lt(p, #[trigger] v@[k]) by {
                assert(!pair_lt(v@[i as int], p));
                if k > i {
                    assert(pair_lt(v@[i as int], v@[k]));
                }
            }
        }
        (i, false)
    }
}

/// Cell `(x, y)` is drawn by one of the first `k` clues.
pub open spec fn covered_upto(qs: Seq<SilhouetteQ>, k: int, x: int, y: int) -> bool {
    exists|kk: int, i: int|
        0 <= kk < k && 0 <= i < qs[kk].len && #[trigger] sil_cell(qs[kk], i) == (x, y) && x >= 0
            && y >= 0
}

/// Cell `(x, y)` is drawn by one of the first `i` cells of clue `q`.
pub open spec fn drawn_upto(q: SilhouetteQ, i: int, x: int, y: int) -> bool {
    exists|ii: int| 0 <= ii < i && #[trigger] sil_cell(q, ii) == (x, y) && x >= 0 && y >= 0
}

/// `(x, y)` is one of `cells`.
pub open spec fn in_cells(cells: Seq<(i32, i32)>, x: int, y: int) -> bool {
    exists|j: int| 0 <= j < cells.len() && (#[trigger] cells[j]).0 == x && cells[j].1 == y
}

proof fn lemma_drawn_step(q: SilhouetteQ, i: int, x: int, y: int)
    requires
        0 <= i,
    ensures
        drawn_upto(q, i + 1, x, y) <==> drawn_upto(q, i, x, y) || (sil_cell(q, i) == (x, y) && x >= 0
            && y >= 0),
{
    if drawn_upto(q, i + 1, x, y) {
        let ii = choose|ii: int| 0 <= ii < i + 1 && #[trigger] sil_cell(q, ii) == (x, y) && x >= 0 && y >= 0;
        if ii < i {
            assert(drawn_upto(q, i, x, y));
        }
    }
    if sil_cell(q, i) == (x, y) && x >= 0 && y >= 0 {
        assert(drawn_upto(q, i + 1, x, y));
    }
}

proof fn lemma_covered_step(qs: Seq<SilhouetteQ>, k: int, x: int, y: int)
    requires
        0 <= k < qs.len(),
    ensures
        covered_upto(qs, k + 1, x, y) <==> covered_upto(qs, k, x, y) || drawn_upto(
            qs[k],
            qs[k].len as int,
            x,
            y,
        ),
{
    if covered_upto(qs, k + 1, x, y) {
        let (kk, i) = choose|kk: int, i: int|
            0 <= kk < k + 1 && 0 <= i < qs[kk].len && #[trigger] sil_cell(qs[kk], i) == (x, y) && x >= 0
                && y >= 0;
        if kk < k {
            assert(covered_upto(qs, k, x, y));
        } else {
            assert(drawn_upto(qs[k], qs[k].len as int, x, y));
        }
    }
    if drawn_upto(qs[k], qs[k].len as int, x, y) {
        let i = choose|i: int| 0 <= i < qs[k].len && #[trigger] sil_cell(qs[k], i) == (x, y) && x >= 0 && y >= 0;
        assert(sil_cell(qs[k], i) == (x, y));
        assert(covered_upto(qs, k + 1, x, y));
    }
    if covered_upto(qs, k, x, y) {
        let (kk, i) = choose|kk: int, i: int|
            0 <= kk < k && 0 <= i < qs[kk].len && #[trigger] sil_cell(qs[kk], i) == (x, y) && x >= 0
                && y >= 0;
        assert(sil_cell(qs[kk], i) == (x, y));
        assert(covered_upto(qs, k + 1, x, y));
    }
}

proof fn lemma_in_cells_insert(old_c: Seq<(i32, i32)>, p: (i32, i32), pos: int, x: int, y: int)
    requires
        0 <= pos <= old_c.len(),
    ensures
        in_cells(old_c.insert(pos, p), x, y) <==> in_cells(old_c, x, y) || (p.0 == x && p.1 == y),
{
    let c = old_c.insert(pos, p);
    if in_cells(c, x, y) {
        let j = choose|j: int| 0 <= j < c.len() && (#[trigger] c[j]).0 == x && c[j].1 == y;
        if j < pos {
            assert(old_c[j] == c[j]);
        } else if j > pos {
            assert(old_c[j - 1] == c[j]);
        }
    }
    if in_cells(old_c, x, y) {
        let j = choose|j: int| 0 <= j < old_c.len() && (#[trigger] old_c[j]).0 == x && old_c[j].1 == y;
        if j < pos {
            assert(c[j] == old_c[j]);
        } else {
            assert(c[j + 1] == old_c[j]);
        }
    }
    if p.0 == x && p.1 == y {
        assert(c[pos] == p);
    }
}

/// The covered cells of the silhouette, each once, in row-major order, and
/// the grid extent: one past the largest covered coordinate on each axis
/// (0 by 0 when nothing is covered).
pub fn silhouette_cells(qs: &Vec<SilhouetteQ>) -> (r: (i32, i32, Vec<(i32, i32)>))
    requires
        forall|k: int| 0 <= k < qs@.len() ==> sil_fits(#[trigger] qs@[k]),
    ensures
        forall|a: int, b: int| 0 <= a < b < r.2@.len() ==> pair_lt(#[trigger] r.2@[a], #[trigger] r.2@[b]),
        forall|x: int, y: int| #[trigger] covered(qs@, x, y) <==> in_cells(r.2@, x, y),
        r.2@.len() == 0 ==> r.0 == 0 && r.1 == 0,
        r.2@.len() > 0 ==> (exists|j: int| 0 <= j < r.2@.len() && r.0 == #[trigger] r.2@[j].0 + 1)
            && forall|j: int| 0 <= j < r.2@.len() ==> #[trigger] r.2@[j].0 < r.0,
        r.2@.len() > 0 ==> (exists|j: int| 0 <= j < r.2@.len() && r.1 == #[trigger] r.2@[j].1 + 1)
            && forall|j: int| 0 <= j < r.2@.len() ==> #[trigger] r.2@[j].1 < r.1,
{
    let mut cells: Vec<(i32, i32)> = Vec::new();
    let mut k: usize = 0;
    while k < qs.len()
        invariant
            k <= qs@.len(),
            forall|m: int| 0 <= m < qs@.len() ==> sil_fits(#[trigger] qs@[m]),
            forall|a: int, b: int| 0 <= a < b < cells@.len() ==> pair_lt(#[trigger] cells@[a], #[trigger] cells@[b]),
            forall|j: int| 0 <= j < cells@.len() ==> (#[trigger] cells@[j]).0 >= 0 && cells@[j].0 < i32::MAX && cells@[j].1 >= 0 && cells@[j].1 < i32::MAX,
            forall|x: int, y: int| #[trigger] in_cells(cells@, x, y) <==> covered_upto(qs@, k as int, x, y),
        decreases qs@.len() - k,
    {
        let q = &qs[k];
        let across = same_str(q.direction.as_str(), "ACROSS");
        let mut i: i32 = 0;
        while i < q.len
            invariant
                0 <= i,
                q.len >= 0 ==> i <= q.len,
                q.len < 0 ==> i == 0,
                k < qs@.len(),
                q == qs@[k as int],
                sil_fits(*q),
                across == (q.direction@ == "ACROSS"@),
                forall|a: int, b: int| 0 <= a < b < cells@.len() ==> pair_lt(#[trigger] cells@[a], #[trigger] cells@[b]),
                forall|j: int| 0 <= j < cells@.len() ==> (#[trigger] cells@[j]).0 >= 0 && cells@[j].0 < i32::MAX && cells@[j].1 >= 0 && cells@[j].1 < i32::MAX,
                forall|x: int, y: int| #[trigger] in_cells(cells@, x, y) <==> covered_upto(qs@, k as int, x, y) || drawn_upto(*q, i as int, x, y),
            decreases q.len - i,
        {
            let ghost c = sil_cell(*q, i as int);
            assert(c.0 <= i32::MAX && c.1 <= i32::MAX);
            let (x, y) = if across {
                (q.root_x + i, q.root_y)
            } else {
                (q.root_x, q.root_y + i)
            };
            assert(c == (x as int, y as int));
            let ghost before = cells@;
            if x >= 0 && y >= 0 {
                let (pos, present) = locate(&cells, (x, y));
                if !present {
                    cells.insert(pos, (x, y));
                    proof {
                        assert forall|a: int, b: int| 0 <= a < b < cells@.len() implies pair_lt(#[trigger] cells@[a], #[trigger] cells@[b]) by {
                            if b < pos {
                            } else if b == pos {
                            } else if a == pos {
                                assert(cells@[b] == before[b - 1]);
                            } else if a < pos {
                                assert(cells@[b] == before[b - 1]);
                            } else {
                                assert(cells@[b] == before[b - 1] && cells@[a] == before[a - 1]);
                            }
                        }
                        assert forall|j: int| 0 <= j < cells@.len() implies (#[trigger] cells@[j]).0 >= 0 && cells@[j].0 < i32::MAX && cells@[j].1 >= 0 && cells@[j].1 < i32::MAX by {
                            if j > pos {
                                assert(cells@[j] == before[j - 1]);
                            }
                        }
                    }
                }
                proof {
                    assert forall|xx: int, yy: int| #[trigger] in_cells(cells@, xx, yy) <==> covered_upto(qs@, k as int, xx, yy) || drawn_upto(*q, i + 1, xx, yy) by {
                        lemma_drawn_step(*q, i as int, xx, yy);
                        if !present {
                            lemma_in_cells_insert(before, (x, y), pos as int, xx, yy);
                        } else if xx == x && yy == y {
                            assert(cells@[pos as int] == (x, y));
                        }
                    }
                }
            } else {
                proof {
                    assert forall|xx: int, yy: int| #[trigger] in_cells(cells@, xx, yy) <==> covered_upto(qs@, k as int, xx, yy) || drawn_upto(*q, i + 1, xx, yy) by {
                        lemma_drawn_step(*q, i as int, xx, yy);
                    }
                }
            }
            i = i + 1;
        }
        proof {
            assert forall|x: int, y: int| #[trigger] in_cells(cells@, x, y) <==> covered_upto(qs@, k + 1, x, y) by {
                lemma_covered_step(qs@, k as int, x, y);
                if q.len >= 0 {
                    assert(i == q.len);
                } else {
                    assert(!drawn_upto(*q, q.len as int, x, y));
                    assert(!drawn_upto(*q, i as int, x, y));
                }
            }
        }
        k = k + 1;
    }
    proof {
        assert forall|x: int, y: int| #[trigger] covered(qs@, x, y) <==> in_cells(cells@, x, y) by {
            assert(covered(qs@, x, y) == covered_upto(qs@, qs@.len() as int, x, y));
        }
    }
    let mut w: i32 = 0;
    let mut h: i32 = 0;
    let mut j: usize = 0;
    while j < cells.len()
        invariant
            j <= cells@.len(),
            forall|m: int| 0 <= m < cells@.len() ==> (#[trigger] cells@[m]).0 >= 0 && cells@[m].0 < i32::MAX && cells@[m].1 >= 0 && cells@[m].1 < i32::MAX,
            j == 0 ==> w == 0 && h == 0,
            j > 0 ==> (exists|m: int| 0 <= m < j && w == #[trigger] cells@[m].0 + 1),
            j > 0 ==> (exists|m: int| 0 <= m < j && h == #[trigger] cells@[m].1 + 1),
            forall|m: int| 0 <= m < j ==> #[trigger] cells@[m].0 < w && cells@[m].1 < h,
        decreases cells@.len() - j,
    {
        let (x, y) = cells[j];
        if j == 0 || x + 1 > w {
            w = x + 1;
        }
        if j == 0 || y + 1 > h {
            h = y + 1;
        }
        j = j + 1;
    }
    (w, h, cells)
}


/// Whether the clue's cells are computable (see `sil_fits`), checked from
/// its last cell.
fn sil_fits_exec(q: &SilhouetteQ) -> (r: bool)
    ensures
        r == sil_fits(*q),
{
    if q.len <= 0 {
        return true;
    }
    let across = crate::text::same_str(q.direction.as_str(), "ACROSS");
    let (lx, ly): (i64, i64) = if across {
        (q.root_x as i64 + q.len as i64 - 1, q.root_y as i64)
    } else {
        (q.root_x as i64, q.root_y as i64 + q.len as i64 - 1)
    };
    let max = i32::MAX as i64;
    let r = lx <= max && ly <= max && (!(lx >= 0 && ly >= 0) || (lx < max && ly < max));
    proof {
        let last = q.len - 1;
        assert(sil_cell(*q, last as int) == (lx as int, ly as int));
        if r {
            assert forall|i: int| 0 <= i < q.len implies {
                let c = #[trigger] sil_cell(*q, i);
                c.0 <= i32::MAX && c.1 <= i32::MAX && (c.0 >= 0 && c.1 >= 0 ==> c.0 < i32::MAX && c.1
                    < i32::MAX)
            } by {
                let c = sil_cell(*q, i);
                assert(c.0 <= lx && c.1 <= ly);
            }
        } else {
            let c = sil_cell(*q, last as int);
            assert(!(c.0 <= i32::MAX && c.1 <= i32::MAX && (c.0 >= 0 && c.1 >= 0 ==> c.0 < i32::MAX
                && c.1 < i32::MAX)));
        }
    }
    r
}

/// Whether every clue of the silhouette is computable, as
/// `silhouette_cells` needs.
pub fn silhouette_fits(qs: &Vec<SilhouetteQ>) -> (r: bool)
    ensures
        r == forall|k: int| 0 <= k < qs@.len() ==> sil_fits(#[trigger] qs@[k]),
{
    let mut k: usize = 0;
    while k < qs.len()
        invariant
            k <= qs@.len(),
            forall|j: int| 0 <= j < k ==> sil_fits(#[trigger] qs@[j]),
        decreases qs@.len() - k,
    {
        if !sil_fits_exec(&qs[k]) {
            return false;
        }
        k = k + 1;
    }
    true
}

/// Estimated solve time in whole minutes: 90 seconds per clue, rounded up.
pub fn est_minutes(clues: i64) -> (r: i64)
    requires
        clues * 90 + 59 <= i64::MAX,
        clues * 90 + 59 >= i64::MIN,
    ensures
        r == crate::text::trunc_div(clues * 90 + 59, 60),
{
    (clues * 90 + 59) / 60
}

/// What the Start button does.
#[derive(Debug, PartialEq, Eq)]
pub enum StartAction {
    /// Go to the game in progress.
    Resume(Route),
    /// Go to the completed game.
    Review(Route),
    /// Start a new game of the puzzle.
    StartFresh,
}

/// The Start button: continue an active game, else review a completed one,
/// else start the puzzle; with its caption.
pub fn start_action(active_game_id: &Option<String>, completed_game_id: &Option<String>) -> (r: (
    StartAction,
    &'static str,
))
    ensures
        match *active_game_id {
            Some(a) => r.0 == StartAction::Resume(Route::GamePlay { id: a }) && r.1@ == "Continue Game"@,
            None => match *completed_game_id {
                Some(c) => r.0 == StartAction::Review(Route::GameCompleted { id: c }) && r.1@
                    == "Review Completed Game"@,
                None => r.0 == StartAction::StartFresh && r.1@ == "Start Game"@,
            },
        },
{
    match active_game_id {
        Some(a) => (StartAction::Resume(Route::GamePlay { id: a.clone() }), "Continue Game"),
        None => match completed_game_id {
            Some(c) => (StartAction::Review(Route::GameCompleted { id: c.clone() }), "Review Completed Game"),
            None => (StartAction::StartFresh, "Start Game"),
        },
    }
}

/// The co-op invite row: the game to share (one just started here, else the
/// active one) and whether the "Start co-op" button shows (nothing to share
/// yet and the puzzle not completed).
pub fn invite_state(
    coop_game_id: &Option<String>,
    active_game_id: &Option<String>,
    completed_game_id: &Option<String>,
) -> (r: (Option<String>, bool))
    ensures
        r.0 == match *coop_game_id {
            Some(c) => Some(c),
            None => *active_game_id,
        },
        r.1 == (r.0 is None && completed_game_id is None),
{
    let invite = match coop_game_id {
        Some(c) => Some(c.clone()),
        None => match active_game_id {
            Some(a) => Some(a.clone()),
            None => None,
        },
    };
    let show = invite.is_none() && completed_game_id.is_none();
    (invite, show)
}

/// The panels of the pre-start page.
#[derive(Debug, Clone, Copy, PartialEq, Eq, Structural)]
pub enum Panel {
    Puzzle,
    Start,
}

impl Panel {
    /// Panel caption.
    pub fn title(self) -> (r: &'static str)
        ensures
            r@ == match self {
                Panel::Puzzle => "Puzzle"@,
                Panel::Start => "Start"@,
            },
    {
        match self {
            Panel::Puzzle => "Puzzle",
            Panel::Start => "Start",
        }
    }
}


/// Where Start leads once the new game exists: its page when the server
/// answered with its id; otherwise the error shown under the button.
pub fn start_reply(reply: Result<Option<String>, String>) -> (r: Result<Route, String>)
    ensures
        match reply {
            Ok(Some(id)) => r == Ok::<Route, String>(Route::GamePlay { id }),
            Ok(None) => r matches Err(m) && m@ == "Unexpected response from server."@,
            Err(e) => r == Err::<Route, String>(e),
        },
{
    match reply {
        Ok(Some(id)) => Ok(Route::GamePlay { id }),
        Ok(None) => Err(String::from_str("Unexpected response from server.")),
        Err(e) => Err(e),
    }
}

/// The co-op game just started (its id, to share), or the message shown.
pub fn coop_reply(reply: Result<Option<String>, String>) -> (r: Result<String, String>)
    ensures
        match reply {
            Ok(Some(id)) => r == Ok::<String, String>(id),
            Ok(None) => r matches Err(m) && m@ == "Unexpected response from server."@,
            Err(e) => r matches Err(m) && m@ == match json_str_field_of(e@, "message"@) {
                Some(x) => x,
                None => e@,
            },
        },
{
    match reply {
        Ok(Some(id)) => Ok(id),
        Ok(None) => Err(String::from_str("Unexpected response from server.")),
        Err(e) => Err(trpc_err_msg(e)),
    }
}

/// The co-op invite address of a game.
pub fn invite_url(origin: &str, game_id: &str) -> (r: String)
    ensures
        r@ == origin@ + "/game/"@ + game_id@,
{
    let mut s = String::from_str(origin);
    s.append("/game/");
    s.append(game_id);
    s
}

/// The Grid tile: `w×h`.
pub fn grid_text(w: i32, h: i32) -> (r: String)
    ensures
        r@ == dec(w as int) + "×"@ + dec(h as int),
{
    let mut s = String::new();
    push_dec(&mut s, w as i64);
    s.append("×");
    push_dec(&mut s, h as i64);
    s
}

/// The estimate tile: `~m min`.
pub fn estimate_text(minutes: i64) -> (r: String)
    ensures
        r@ == "~"@ + dec(minutes as int) + " min"@,
{
    let mut s = String::from_str("~");
    push_dec(&mut s, minutes);
    s.append(" min");
    s
}

/// The Grid tile, shown only when the silhouette has a width and a height.
pub fn grid_tile(w: i32, h: i32) -> (r: Option<String>)
    ensures
        (w > 0 && h > 0) <==> r is Some,
        r matches Some(t) ==> t@ == dec(w as int) + "×"@ + dec(h as int),
{
    if w > 0 && h > 0 {
        Some(grid_text(w, h))
    } else {
        None
    }
}

/// The estimate tile, shown only when the puzzle has clues: `~m min`, with
/// `m` the estimate of `est_minutes`.
pub fn estimate_tile(clues: i64) -> (r: Option<String>)
    requires
        clues * 90 + 59 <= i64::MAX,
        clues * 90 + 59 >= i64::MIN,
    ensures
        clues > 0 <==> r is Some,
        r matches Some(t) ==> t@ == "~"@ + dec(crate::text::trunc_div(clues * 90 + 59, 60)) + " min"@,
{
    if clues > 0 {
        let m = est_minutes(clues);
        Some(estimate_text(m))
    } else {
        None
    }
}

} // verus!
