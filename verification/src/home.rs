//! Home: the signed-out welcome and the signed-in "what do I play right
//! now" dashboard (resume cards, today's puzzle, fresh puzzles, pulse).

use vstd::prelude::*;
use crate::game_list::{age, ago_of, desc_order, is_desc_order, ts, ts_of, GameRow, GameStatus};
use crate::games::{size_of, unstarted_of, GameListItem, UnstartedGame};
use crate::route::Route;
use crate::text::{dec, dec_string, push_dec};

verus! {

/// Today's featured puzzle and the caller's state on it.
#[derive(Debug, PartialEq, Eq)]
pub struct DailyGame {
    pub game_id: String,
    pub title: String,
    pub clues: i64,
    pub already_completed: bool,
    pub active_game_id: Option<String>,
}

/// The daily card's call to action: an in-progress session wins, then a
/// solved puzzle (shown on its brief), then a fresh start.
pub fn daily_cta(d: &DailyGame) -> (r: (Option<&'static str>, &'static str, &'static str, Route))
    ensures
        match d.active_game_id {
            Some(ag) => r.0 matches Some(b) && b@ == "IN PROGRESS"@ && r.1@
                == "border-color: var(--pastel-green); color: var(--pastel-green);"@ && r.2@
                == "Continue →"@ && r.3 == Route::GamePlay { id: ag },
            None => if d.already_completed {
                r.0 matches Some(b) && b@ == "SOLVED"@ && r.1@
                    == "border-color: var(--pastel-yellow); color: var(--pastel-yellow);"@ && r.2@
                    == "View →"@ && r.3 == Route::GameNew { id: d.game_id }
            } else {
                r.0 is None && r.1@ == ""@ && r.2@ == "Play →"@ && r.3 == Route::GameNew {
                    id: d.game_id,
                }
            },
        },
{
    if let Some(ag) = &d.active_game_id {
        (
            Some("IN PROGRESS"),
            "border-color: var(--pastel-green); color: var(--pastel-green);",
            "Continue →",
            Route::GamePlay { id: ag.clone() },
        )
    } else if d.already_completed {
        (
            Some("SOLVED"),
            "border-color: var(--pastel-yellow); color: var(--pastel-yellow);",
            "View →",
            Route::GameNew { id: d.game_id.clone() },
        )
    } else {
        (None, "", "Play →", Route::GameNew { id: d.game_id.clone() })
    }
}

/// The display row of a fresh puzzle.
pub open spec fn fresh_row(g: UnstartedGame) -> GameRow {
    GameRow {
        id: g.id,
        title: g.title,
        status: GameStatus::New,
        clues: g.clues,
        size: size_of(g.grid_size),
        when: ago_of(g.at),
        score: None,
        progress: None,
    }
}

/// A fresh puzzle stays in the Fresh list unless it is the daily puzzle.
pub open spec fn not_daily(daily: Option<DailyGame>, g: UnstartedGame) -> bool {
    match daily {
        Some(d) => d.game_id@ != g.id@,
        None => true,
    }
}

/// Stamps of unstarted games, as sort keys.
pub open spec fn fresh_keys(gs: Seq<UnstartedGame>) -> Seq<i64> {
    gs.map_values(|g: UnstartedGame| ts_of(g.at) as i64)
}

/// `r` is the Fresh list: the unstarted puzzles newest first (equally new
/// ones in list order), the daily puzzle left out, at most three, as rows.
pub open spec fn is_fresh_list(items: Seq<GameListItem>, daily: Option<DailyGame>, r: Seq<GameRow>) -> bool {
    let fresh = unstarted_of(items);
    exists|ord: Seq<usize>|
        #[trigger] is_desc_order(fresh_keys(fresh), ord) && {
            let kept = ord.map_values(|k: usize| fresh[k as int]).filter(
                |g: UnstartedGame| not_daily(daily, g),
            );
            r == kept.take(if kept.len() < 3 { kept.len() as int } else { 3 }).map_values(
                |g: UnstartedGame| fresh_row(g),
            )
        }
}

fn fresh_row_of(g: &UnstartedGame) -> (r: GameRow)
    ensures
        r == fresh_row(*g),
{
    GameRow {
        id: g.id.clone(),
        title: g.title.clone(),
        status: GameStatus::New,
        clues: g.clues,
        size: match g.grid_size {
            Some(s) => Some((s.w, s.h)),
            None => None,
        },
        when: age(&g.at),
        score: None,
        progress: None,
    }
}

fn keeps(daily: &Option<DailyGame>, g: &UnstartedGame) -> (r: bool)
    ensures
        r == not_daily(*daily, *g),
{
    match daily {
        Some(d) => d.game_id != g.id,
        None => true,
    }
}

/// The Fresh list of the Play Now panel: the newest unstarted puzzles, the
/// daily puzzle dropped so it never shows twice, at most three.
pub fn fresh_rows(items: &Vec<GameListItem>, daily: &Option<DailyGame>) -> (r: Vec<GameRow>)
    ensures
        is_fresh_list(items@, *daily, r@),
{
    let ghost fresh = unstarted_of(items@);
    let mut gs: Vec<&UnstartedGame> = Vec::new();
    let mut keys: Vec<i64> = Vec::new();
    for i in 0..items.len()
        invariant
            gs@.len() == unstarted_of(items@.take(i as int)).len(),
            forall|j: int| 0 <= j < gs@.len() ==> *#[trigger] gs@[j] == unstarted_of(items@.take(i as int))[j],
            keys@ == fresh_keys(unstarted_of(items@.take(i as int))),
    {
        proof {
            assert(items@.take(i + 1).drop_last() =~= items@.take(i as int));
        }
        match &items[i] {
            GameListItem::Game(g) => {
                gs.push(g);
                keys.push(ts(&g.at));
                proof {
                    assert(keys@ =~= fresh_keys(unstarted_of(items@.take(i + 1))));
                }
            },
            _ => {},
        }
    }
    assert(items@.take(items@.len() as int) =~= items@);
    let order = desc_order(&keys);
    let ghost sorted = order@.map_values(|k: usize| fresh[k as int]);
    let ghost pred = |g: UnstartedGame| not_daily(*daily, g);
    let mut out: Vec<GameRow> = Vec::new();
    for j in 0..order.len()
        invariant
            is_desc_order(keys@, order@),
            keys@.len() == fresh.len(),
            gs@.len() == fresh.len(),
            forall|m: int| 0 <= m < gs@.len() ==> *#[trigger] gs@[m] == fresh[m],
            sorted == order@.map_values(|k: usize| fresh[k as int]),
            pred == (|g: UnstartedGame| not_daily(*daily, g)),
            ({
                let kp = sorted.take(j as int).filter(pred);
                out@ == kp.take(if kp.len() < 3 { kp.len() as int } else { 3 }).map_values(
                    |g: UnstartedGame| fresh_row(g),
                )
            }),
    {
        let g = gs[order[j]];
        let ghost kp = sorted.take(j as int).filter(pred);
        proof {
            reveal(Seq::filter);
            assert(sorted.take(j + 1).drop_last() =~= sorted.take(j as int));
            assert(sorted.take(j + 1).last() == *g);
        }
        if keeps(daily, g) && out.len() < 3 {
            out.push(fresh_row_of(g));
            proof {
                let kp2 = kp.push(*g);
                assert(kp.len() < 3);
                assert(kp2.take(kp2.len() as int) =~= kp2);
                assert(kp.take(kp.len() as int) =~= kp);
                assert(kp2.map_values(|g: UnstartedGame| fresh_row(g)) =~= kp.map_values(
                    |g: UnstartedGame| fresh_row(g),
                ).push(fresh_row(*g)));
            }
        } else if keeps(daily, g) {
            proof {
                let kp2 = kp.push(*g);
                assert(kp2.take(3) =~= kp.take(3));
            }
        }
    }
    proof {
        assert(sorted.take(order@.len() as int) =~= sorted);
        assert(is_desc_order(fresh_keys(fresh), order@));
    }
    out
}

/// Home's display name for the signed-in user: their name, else "friend".
pub fn greeting_name(name: Option<String>) -> (r: String)
    ensures
        match name {
            Some(n) => r == n,
            None => r@ == "friend"@,
        },
{
    match name {
        Some(n) => n,
        None => String::from_str("friend"),
    }
}

/// The panels of the signed-in dashboard.
#[derive(Debug, Clone, Copy, PartialEq, Eq, Structural)]
pub enum Panel {
    PlayNow,
    Pulse,
    Brand,
}

impl Panel {
    /// Panel caption.
    pub fn title(self) -> (r: &'static str)
        ensures
            r@ == match self {
                Panel::PlayNow => "Play Now"@,
                Panel::Pulse => "Pulse"@,
                Panel::Brand => "Welcome"@,
            },
    {
        match self {
            Panel::PlayNow => "Play Now",
            Panel::Pulse => "Pulse",
            Panel::Brand => "Welcome",
        }
    }
}

/// The panels of the signed-out welcome.
#[derive(Debug, Clone, Copy, PartialEq, Eq, Structural)]
pub enum GuestPanel {
    Welcome,
    Start,
}

impl GuestPanel {
    /// Panel caption.
    pub fn title(self) -> (r: &'static str)
        ensures
            r@ == match self {
                GuestPanel::Welcome => "Welcome"@,
                GuestPanel::Start => "Get Started"@,
            },
    {
        match self {
            GuestPanel::Welcome => "Welcome",
            GuestPanel::Start => "Get Started",
        }
    }
}

/// Career aggregates shown in the Pulse panel.
#[derive(Debug, Clone, Copy, PartialEq, Eq, Structural)]
pub struct PulseStats {
    pub games_played: i64,
    pub total_score: i64,
    pub accuracy: i64,
    pub global_rank: i64,
    pub total_players: i64,
}

/// What the Pulse panel shows.
#[derive(Debug, Clone, Copy, PartialEq, Eq, Structural)]
pub enum PulseView {
    /// Stats not answered yet: labels with placeholder values.
    Loading,
    /// No games played yet: the first-solve prompt.
    Empty,
    /// The four career tiles.
    Tiles,
    /// Error or no email: the panel body stays empty.
    Hidden,
}

/// Picks the Pulse panel's view from the stats request: `None` while in
/// flight, `Some(None)` without an email, `Some(Some(result))` once answered.
pub fn pulse_view(stats: &Option<Option<Result<PulseStats, String>>>) -> (r: PulseView)
    ensures
        r == match *stats {
            None => PulseView::Loading,
            Some(Some(Ok(s))) => if s.games_played == 0 {
                PulseView::Empty
            } else {
                PulseView::Tiles
            },
            _ => PulseView::Hidden,
        },
{
    match stats {
        None => PulseView::Loading,
        Some(Some(Ok(s))) => if s.games_played == 0 {
            PulseView::Empty
        } else {
            PulseView::Tiles
        },
        _ => PulseView::Hidden,
    }
}

/// Which surface Home shows for the session tri-state.
#[derive(Debug, Clone, Copy, PartialEq, Eq, Structural)]
pub enum HomeSurface {
    Loading,
    Guest,
    Dashboard,
}

/// `None` (session loading) shows a spinner, `Some(false)` (signed out) the
/// welcome, `Some(true)` (signed in) the dashboard.
pub fn home_surface(session: Option<bool>) -> (r: HomeSurface)
    ensures
        r == match session {
            None => HomeSurface::Loading,
            Some(false) => HomeSurface::Guest,
            Some(true) => HomeSurface::Dashboard,
        },
{
    match session {
        None => HomeSurface::Loading,
        Some(false) => HomeSurface::Guest,
        Some(true) => HomeSurface::Dashboard,
    }
}


/// The four Pulse tiles' values (and the rank's note).
#[derive(Debug, PartialEq, Eq)]
pub struct PulseTiles {
    pub rank: String,
    pub rank_note: String,
    pub score: String,
    pub accuracy: String,
    pub played: String,
}

/// The Pulse tiles of career stats: `#rank` noted `of` the player count
/// (`players`, already worded, e.g. "128 players"), the score, `accuracy%`
/// and the games played.
pub fn pulse_tiles(s: &PulseStats, players: &str) -> (r: PulseTiles)
    ensures
        r.rank@ == "#"@ + dec(s.global_rank as int),
        r.rank_note@ == "of "@ + players@,
        r.score@ == dec(s.total_score as int),
        r.accuracy@ == dec(s.accuracy as int) + "%"@,
        r.played@ == dec(s.games_played as int),
{
    let mut rank = String::from_str("#");
    push_dec(&mut rank, s.global_rank);
    let mut rank_note = String::from_str("of ");
    rank_note.append(players);
    let mut accuracy = dec_string(s.accuracy);
    accuracy.append("%");
    PulseTiles { rank, rank_note, score: dec_string(s.total_score), accuracy, played: dec_string(s.games_played) }
}

} // verus!
