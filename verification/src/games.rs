//! The games library: one `gameList.get` result projected into display rows,
//! then filtered, searched and sorted for the Library panel, plus the
//! Continue, Featured and Progress panels built from the same items.

use vstd::prelude::*;
use crate::game_list::{age, ago_of, desc_order, is_desc_order, ts, ts_of, GameRow, GameStatus, Stamp};
use crate::query::{
    is_query_value, is_segment, lemma_pair_value, lemma_pair_value_other, lemma_single_piece,
    lemma_two_pieces, query_hit, strip_q,
};
use crate::route::Route;
use crate::text::{join, join_present, present, chars_of, string_from, contains_str, has_substring, lowercase, to_lower, trim_str, trimmed};

verus! {

/// Grid dimensions, when the server sends them.
#[derive(Debug, Clone, Copy, PartialEq, Eq, Structural)]
pub struct GridSize {
    pub w: i64,
    pub h: i64,
}

/// An unstarted puzzle of the list.
#[derive(Debug, PartialEq, Eq)]
pub struct UnstartedGame {
    pub id: String,
    pub title: String,
    pub clues: i64,
    pub at: Option<Stamp>,
    pub grid_size: Option<GridSize>,
}

/// A started (active or completed) game of the list.
#[derive(Debug, PartialEq, Eq)]
pub struct PlayedGame {
    pub id: String,
    pub title: String,
    pub clues: i64,
    pub players: i64,
    pub at: Option<Stamp>,
    pub score: Option<i32>,
    pub game_id: Option<String>,
    pub grid_size: Option<GridSize>,
    pub filled_count: Option<i64>,
    pub correct_count: Option<i64>,
    pub total_cells: Option<i64>,
}

/// One item of the list, by kind.
#[derive(Debug, PartialEq, Eq)]
pub enum GameListItem {
    Game(UnstartedGame),
    ActiveGame(PlayedGame),
    CompletedGame(PlayedGame),
}

/// Library tab filter.
#[derive(Debug, Clone, Copy, PartialEq, Eq, Structural)]
pub enum Filter {
    All,
    New,
    Active,
    Solved,
}

pub open spec fn admits_spec(f: Filter, st: GameStatus) -> bool {
    match f {
        Filter::All => true,
        Filter::New => st == GameStatus::New,
        Filter::Active => st == GameStatus::Active,
        Filter::Solved => st == GameStatus::Solved,
    }
}

/// The `?f=` wire value of a tab (`None` for All).
pub open spec fn query_spec(f: Filter) -> Option<Seq<char>> {
    match f {
        Filter::All => None,
        Filter::New => Some("new"@),
        Filter::Active => Some("active"@),
        Filter::Solved => Some("solved"@),
    }
}

/// The tab a `?f=` wire value selects; anything unknown selects All.
pub open spec fn from_query_spec(s: Seq<char>) -> Filter {
    if s == "new"@ {
        Filter::New
    } else if s == "active"@ {
        Filter::Active
    } else if s == "solved"@ {
        Filter::Solved
    } else {
        Filter::All
    }
}

impl Filter {
    /// The tabs, in display order.
    pub const TABS: [Filter; 4] = [Filter::All, Filter::New, Filter::Active, Filter::Solved];

    /// Position of this tab in `TABS`.
    pub fn index(self) -> (r: usize)
        ensures
            r == match self {
                Filter::All => 0usize,
                Filter::New => 1,
                Filter::Active => 2,
                Filter::Solved => 3,
            },
    {
        match self {
            Filter::All => 0,
            Filter::New => 1,
            Filter::Active => 2,
            Filter::Solved => 3,
        }
    }

    /// Tab caption.
    pub fn label(self) -> (r: &'static str)
        ensures
            r@ == match self {
                Filter::All => "All"@,
                Filter::New => "New"@,
                Filter::Active => "In Progress"@,
                Filter::Solved => "Solved"@,
            },
    {
        match self {
            Filter::All => "All",
            Filter::New => "New",
            Filter::Active => "In Progress",
            Filter::Solved => "Solved",
        }
    }

    /// The `?f=` wire value (`None` for All).
    pub fn query(self) -> (r: Option<&'static str>)
        ensures
            match r {
                Some(q) => query_spec(self) == Some(q@),
                None => query_spec(self) is None,
            },
    {
        match self {
            Filter::All => None,
            Filter::New => Some("new"),
            Filter::Active => Some("active"),
            Filter::Solved => Some("solved"),
        }
    }

    /// The tab a `?f=` wire value selects; unknown values select All.
    pub fn from_query(s: &str) -> (r: Filter)
        ensures
            r == from_query_spec(s@),
    {
        if crate::text::same_str(s, "new") {
            Filter::New
        } else if crate::text::same_str(s, "active") {
            Filter::Active
        } else if crate::text::same_str(s, "solved") {
            Filter::Solved
        } else {
            Filter::All
        }
    }

    /// What an empty Library tab says.
    pub fn empty_msg(self) -> (r: &'static str)
        ensures
            r@ == match self {
                Filter::All => "No puzzles yet. New puzzles drop weekly."@,
                Filter::New => "You've started everything. Impressive."@,
                Filter::Active => "Nothing in progress. Pick something new."@,
                Filter::Solved => "No wins yet — finish a puzzle and it lands here."@,
            },
    {
        match self {
            Filter::All => "No puzzles yet. New puzzles drop weekly.",
            Filter::New => "You've started everything. Impressive.",
            Filter::Active => "Nothing in progress. Pick something new.",
            Filter::Solved => "No wins yet — finish a puzzle and it lands here.",
        }
    }

    /// Whether a row with status `st` shows under this tab.
    pub fn admits(self, st: GameStatus) -> (r: bool)
        ensures
            r == admits_spec(self, st),
    {
        match self {
            Filter::All => true,
            Filter::New => st == GameStatus::New,
            Filter::Active => st == GameStatus::Active,
            Filter::Solved => st == GameStatus::Solved,
        }
    }
}

/// Library sort order.
#[derive(Debug, Clone, Copy, PartialEq, Eq, Structural)]
pub enum Sort {
    Newest,
    Oldest,
    Players,
    Score,
}

/// The `<select>` value of a sort order.
pub open spec fn sort_value_spec(s: Sort) -> Seq<char> {
    match s {
        Sort::Newest => "newest"@,
        Sort::Oldest => "oldest"@,
        Sort::Players => "players"@,
        Sort::Score => "score"@,
    }
}

/// The sort order a `<select>` value picks; anything unknown is Newest.
pub open spec fn sort_from_spec(s: Seq<char>) -> Sort {
    if s == "oldest"@ {
        Sort::Oldest
    } else if s == "players"@ {
        Sort::Players
    } else if s == "score"@ {
        Sort::Score
    } else {
        Sort::Newest
    }
}

impl Sort {
    /// The `<select>` value of this order.
    pub fn value(self) -> (r: &'static str)
        ensures
            r@ == sort_value_spec(self),
    {
        match self {
            Sort::Newest => "newest",
            Sort::Oldest => "oldest",
            Sort::Players => "players",
            Sort::Score => "score",
        }
    }

    /// The order a `<select>` value picks; unknown values pick Newest.
    pub fn from_value(s: &str) -> (r: Sort)
        ensures
            r == sort_from_spec(s@),
    {
        if crate::text::same_str(s, "oldest") {
            Sort::Oldest
        } else if crate::text::same_str(s, "players") {
            Sort::Players
        } else if crate::text::same_str(s, "score") {
            Sort::Score
        } else {
            Sort::Newest
        }
    }
}

/// Reading back the wire value of a tab selects that tab (All writes no
/// value, which reads back as the empty string).
pub proof fn lemma_filter_query_roundtrip(f: Filter)
    ensures
        from_query_spec(
            match query_spec(f) {
                Some(q) => q,
                None => Seq::empty(),
            },
        ) == f,
{
    reveal_strlit("new");
    reveal_strlit("active");
    reveal_strlit("solved");
    assert("new"@.len() == 3 && "active"@.len() == 6 && "solved"@.len() == 6);
    assert("active"@[0] != "solved"@[0]);
    assert(Seq::<char>::empty() != "new"@ && Seq::<char>::empty() != "active"@);
    assert(Seq::<char>::empty() != "solved"@);
}

/// Reading back the `<select>` value of a sort order picks that order.
pub proof fn lemma_sort_value_roundtrip(s: Sort)
    ensures
        sort_from_spec(sort_value_spec(s)) == s,
{
    reveal_strlit("newest");
    reveal_strlit("oldest");
    reveal_strlit("players");
    reveal_strlit("score");
    assert("newest"@.len() == 6 && "oldest"@.len() == 6 && "players"@.len() == 7);
    assert("score"@.len() == 5);
    assert("newest"@[0] != "oldest"@[0]);
}

/// The score sort key of a row without a score: below every `i32` score,
/// negative ones included.
pub const UNSCORED: i64 = -9_223_372_036_854_775_808i64;

/// A library row plus the sort keys its display shape doesn't carry.
#[derive(Debug, PartialEq, Eq)]
pub struct Projected {
    pub ts: i64,
    pub players: i64,
    /// Completed score, or `UNSCORED` (below every score a game can have)
    /// so rows without a score sort below any real score.
    pub score: i64,
    pub row: GameRow,
}

pub open spec fn size_of(g: Option<GridSize>) -> Option<(i64, i64)> {
    match g {
        Some(s) => Some((s.w, s.h)),
        None => None,
    }
}

pub open spec fn zip_counts(a: Option<i64>, b: Option<i64>) -> Option<(i64, i64)> {
    match (a, b) {
        (Some(x), Some(y)) => Some((x, y)),
        _ => None,
    }
}

/// The library row an item becomes.
pub open spec fn projected_of(item: GameListItem) -> Projected {
    match item {
        GameListItem::Game(g) => Projected {
            ts: ts_of(g.at) as i64,
            players: 0,
            score: UNSCORED,
            row: GameRow {
                id: g.id,
                title: g.title,
                status: GameStatus::New,
                clues: g.clues,
                size: size_of(g.grid_size),
                when: ago_of(g.at),
                score: None,
                progress: None,
            },
        },
        GameListItem::ActiveGame(g) => Projected {
            ts: ts_of(g.at) as i64,
            players: g.players,
            score: UNSCORED,
            row: GameRow {
                id: g.id,
                title: g.title,
                status: GameStatus::Active,
                clues: g.clues,
                size: size_of(g.grid_size),
                when: ago_of(g.at),
                score: None,
                progress: zip_counts(g.filled_count, g.total_cells),
            },
        },
        GameListItem::CompletedGame(g) => Projected {
            ts: ts_of(g.at) as i64,
            players: g.players,
            score: match g.score {
                Some(s) => s as i64,
                None => UNSCORED,
            },
            row: GameRow {
                id: g.id,
                title: g.title,
                status: GameStatus::Solved,
                clues: g.clues,
                size: size_of(g.grid_size),
                when: ago_of(g.at),
                score: g.score,
                progress: None,
            },
        },
    }
}

fn grid_dims(g: &Option<GridSize>) -> (r: Option<(i64, i64)>)
    ensures
        r == size_of(*g),
{
    match g {
        Some(s) => Some((s.w, s.h)),
        None => None,
    }
}

/// Projects one item into its library row.
pub fn project_item(item: &GameListItem) -> (r: Projected)
    ensures
        r == projected_of(*item),
{
    match item {
        GameListItem::Game(g) => Projected {
            ts: ts(&g.at),
            players: 0,
            score: UNSCORED,
            row: GameRow {
                id: g.id.clone(),
                title: g.title.clone(),
                status: GameStatus::New,
                clues: g.clues,
                size: grid_dims(&g.grid_size),
                when: age(&g.at),
                score: None,
                progress: None,
            },
        },
        GameListItem::ActiveGame(g) => Projected {
            ts: ts(&g.at),
            players: g.players,
            score: UNSCORED,
            row: GameRow {
                id: g.id.clone(),
                title: g.title.clone(),
                status: GameStatus::Active,
                clues: g.clues,
                size: grid_dims(&g.grid_size),
                when: age(&g.at),
                score: None,
                progress: match (g.filled_count, g.total_cells) {
                    (Some(f), Some(t)) => Some((f, t)),
                    _ => None,
                },
            },
        },
        GameListItem::CompletedGame(g) => Projected {
            ts: ts(&g.at),
            players: g.players,
            score: match g.score {
                Some(s) => s as i64,
                None => UNSCORED,
            },
            row: GameRow {
                id: g.id.clone(),
                title: g.title.clone(),
                status: GameStatus::Solved,
                clues: g.clues,
                size: grid_dims(&g.grid_size),
                when: age(&g.at),
                score: g.score,
                progress: None,
            },
        },
    }
}

/// Projects every item into one unified library row, in order.
pub fn project(items: &Vec<GameListItem>) -> (r: Vec<Projected>)
    ensures
        r@.len() == items@.len(),
        forall|i: int| 0 <= i < items@.len() ==> r@[i] == projected_of(#[trigger] items@[i]),
{
    let mut out: Vec<Projected> = Vec::new();
    for i in 0..items.len()
        invariant
            out@.len() == i,
            forall|k: int| 0 <= k < i ==> out@[k] == projected_of(#[trigger] items@[k]),
    {
        out.push(project_item(&items[i]));
    }
    out
}


/// `a` strictly precedes `b` under `sort`. Newest/Oldest order by stamp;
/// Players and Score order by that key, highest first, with newest first
/// among equals.
pub open spec fn before(sort: Sort, a: Projected, b: Projected) -> bool {
    match sort {
        Sort::Newest => a.ts > b.ts,
        Sort::Oldest => a.ts < b.ts,
        Sort::Players => a.players > b.players || (a.players == b.players && a.ts > b.ts),
        Sort::Score => a.score > b.score || (a.score == b.score && a.ts > b.ts),
    }
}

/// `out` is `inp` rearranged by the index map `p` (`out[k] == inp[p[k]]`,
/// `p` one-to-one), in `sort` order, with rows that tie under `sort` kept
/// in their original relative order.
pub open spec fn is_stable_sort(sort: Sort, inp: Seq<Projected>, out: Seq<Projected>, p: Seq<int>) -> bool {
    &&& p.len() == inp.len()
    &&& out.len() == inp.len()
    &&& forall|k: int| 0 <= k < out.len() ==> 0 <= #[trigger] p[k] < inp.len() && out[k] == inp[p[k]]
    &&& forall|k: int, l: int| 0 <= k < l < out.len() ==> p[k] != p[l]
    &&& forall|k: int, l: int| 0 <= k < l < out.len() ==> !before(sort, #[trigger] out[l], #[trigger] out[k])
    &&& forall|k: int, l: int|
        0 <= k < l < out.len() && !before(sort, #[trigger] out[k], #[trigger] out[l]) ==> p[k] < p[l]
}

/// Executable comparison of two rows under `sort`.
pub fn goes_before(sort: Sort, a: &Projected, b: &Projected) -> (r: bool)
    ensures
        r == before(sort, *a, *b),
{
    match sort {
        Sort::Newest => a.ts > b.ts,
        Sort::Oldest => a.ts < b.ts,
        Sort::Players => a.players > b.players || (a.players == b.players && a.ts > b.ts),
        Sort::Score => a.score > b.score || (a.score == b.score && a.ts > b.ts),
    }
}

/// Stable sort (ties keep their order) of the rows on the projected sort keys.
pub fn sort_rows(rows: &mut Vec<Projected>, sort: Sort)
    ensures
        exists|p: Seq<int>| is_stable_sort(sort, old(rows)@, final(rows)@, p),
{
    let mut input: Vec<Projected> = Vec::new();
    std::mem::swap(rows, &mut input);
    let ghost inp = input@;
    let ghost n = inp.len();
    assert(n <= usize::MAX) by {
        assert(input@.len() == input.len());
    }
    let mut out: Vec<Projected> = Vec::new();
    let ghost mut p: Seq<int> = Seq::empty();
    let mut i: usize = 0;
    while input.len() > 0
        invariant
            n == inp.len(),
            n <= usize::MAX,
            i + input@.len() == n,
            input@ == inp.subrange(i as int, n as int),
            p.len() == i,
            out@.len() == i,
            forall|k: int| 0 <= k < i ==> 0 <= #[trigger] p[k] < i && out@[k] == inp[p[k]],
            forall|k: int, l: int| 0 <= k < l < i ==> p[k] != p[l],
            forall|k: int, l: int| 0 <= k < l < i ==> !before(sort, #[trigger] out@[l], #[trigger] out@[k]),
            forall|k: int, l: int|
                0 <= k < l < i && !before(sort, #[trigger] out@[k], #[trigger] out@[l]) ==> p[k] < p[l],
        decreases input@.len(),
    {
        let x = input.remove(0);
        assert(x == inp[i as int]);
        let mut pos: usize = 0;
        while pos < out.len() && !goes_before(sort, &x, &out[pos])
            invariant
                pos <= out@.len(),
                forall|k: int| 0 <= k < pos ==> !before(sort, x, #[trigger] out@[k]),
            decreases out@.len() - pos,
        {
            pos = pos + 1;
        }
        let ghost old_out = out@;
        let ghost old_p = p;
        out.insert(pos, x);
        proof {
            p = old_p.insert(pos as int, i as int);
            assert forall|m: int| pos <= m < old_out.len() implies before(sort, x, #[trigger] old_out[m]) by {
                assert(before(sort, x, old_out[pos as int]));
                if m > pos {
                    assert(!before(sort, old_out[m], old_out[pos as int]));
                }
            }
            assert forall|k: int| 0 <= k < i + 1 implies 0 <= #[trigger] p[k] < i + 1 && out@[k] == inp[p[k]] by {
                if k < pos {
                    assert(p[k] == old_p[k]);
                } else if k > pos {
                    assert(p[k] == old_p[k - 1]);
                }
            }
            assert forall|k: int, l: int| 0 <= k < l < i + 1 implies p[k] != p[l] by {
                if k < pos && l > pos {
                    assert(p[l] == old_p[l - 1]);
                } else if k > pos {
                    assert(p[k] == old_p[k - 1] && p[l] == old_p[l - 1]);
                } else if l < pos {
                } else if k == pos {
                    assert(p[l] == old_p[l - 1]);
                } else {
                }
            }
            assert forall|k: int, l: int| 0 <= k < l < i + 1 implies !before(sort, #[trigger] out@[l], #[trigger] out@[k]) by {
                if l < pos {
                    assert(out@[l] == old_out[l] && out@[k] == old_out[k]);
                } else if l == pos {
                    assert(out@[k] == old_out[k]);
                } else if k == pos {
                    assert(out@[l] == old_out[l - 1]);
                    assert(before(sort, x, old_out[l - 1]));
                } else if k < pos {
                    assert(out@[l] == old_out[l - 1] && out@[k] == old_out[k]);
                } else {
                    assert(out@[l] == old_out[l - 1] && out@[k] == old_out[k - 1]);
                }
            }
            assert forall|k: int, l: int|
                0 <= k < l < i + 1 && !before(sort, #[trigger] out@[k], #[trigger] out@[l]) implies p[k] < p[l] by {
                if l < pos {
                    assert(out@[l] == old_out[l] && out@[k] == old_out[k]);
                } else if l == pos {
                    assert(p[l] == i);
                } else if k == pos {
                    assert(out@[l] == old_out[l - 1]);
                    assert(before(sort, x, old_out[l - 1]));
                } else if k < pos {
                    assert(out@[l] == old_out[l - 1] && out@[k] == old_out[k]);
                    assert(p[l] == old_p[l - 1] && p[k] == old_p[k]);
                } else {
                    assert(out@[l] == old_out[l - 1] && out@[k] == old_out[k - 1]);
                    assert(p[l] == old_p[l - 1] && p[k] == old_p[k - 1]);
                }
            }
        }
        i = i + 1;
    }
    proof {
        assert(is_stable_sort(sort, inp, out@, p));
    }
    *rows = out;
}


/// All items projected, in server order.
pub open spec fn projected_seq(items: Seq<GameListItem>) -> Seq<Projected> {
    items.map_values(|i: GameListItem| projected_of(i))
}

/// A projected row shows in the Library under `filter` and the lowercased
/// search text `needle`: its status is admitted and its lowercased title
/// contains the needle.
pub open spec fn shows(filter: Filter, needle: Seq<char>, p: Projected) -> bool {
    admits_spec(filter, p.row.status) && has_substring(lowercase(p.row.title@), needle)
}

/// The search text as matched: trimmed, then lowercased.
pub open spec fn needle_of(search: Seq<char>) -> Seq<char> {
    lowercase(trimmed(search))
}

/// The items the Library keeps, in server order, before sorting.
pub open spec fn library_kept(items: Seq<GameListItem>, filter: Filter, search: Seq<char>) -> Seq<
    Projected,
> {
    projected_seq(items).filter(|x: Projected| shows(filter, needle_of(search), x))
}

/// The display rows of projected rows.
pub open spec fn rows_of(ps: Seq<Projected>) -> Seq<GameRow> {
    ps.map_values(|x: Projected| x.row)
}

/// The Library panel's rows: every item projected, kept when the tab admits
/// it and its title contains the search text (trimmed, case-insensitive),
/// then stably sorted by `sort`.
pub fn library_rows(items: &Vec<GameListItem>, filter: Filter, search: &str, sort: Sort) -> (r: Vec<
    GameRow,
>)
    ensures
        exists|ps: Seq<Projected>, p: Seq<int>|
            #[trigger] is_stable_sort(sort, library_kept(items@, filter, search@), ps, p) && r@
                == rows_of(ps),
{
    let q = trim_str(search);
    let needle = to_lower(q);
    let ghost pred = |x: Projected| shows(filter, needle_of(search@), x);
    let projected = project(items);
    let ghost all = projected_seq(items@);
    assert(projected@ =~= all);
    let mut kept: Vec<Projected> = Vec::new();
    let mut src = projected;
    let mut i: usize = 0;
    let ghost n = all.len();
    assert(n <= usize::MAX) by {
        assert(src@.len() == src.len());
    }
    while src.len() > 0
        invariant
            n == all.len(),
            n <= usize::MAX,
            i + src@.len() == n,
            src@ == all.subrange(i as int, n as int),
            kept@ == all.take(i as int).filter(pred),
            pred == (|x: Projected| shows(filter, needle_of(search@), x)),
            all == projected_seq(items@),
            needle@ == needle_of(search@),
        decreases src@.len(),
    {
        let x = src.remove(0);
        assert(x == all[i as int]);
        let keep = if filter.admits(x.row.status) {
            let lower = to_lower(x.row.title.as_str());
            contains_str(lower.as_str(), needle.as_str())
        } else {
            false
        };
        assert(keep == pred(x));
        proof {
            reveal(Seq::filter);
            assert(all.take(i + 1).drop_last() =~= all.take(i as int));
            assert(all.take(i + 1).last() == x);
        }
        if keep {
            kept.push(x);
        }
        i = i + 1;
    }
    assert(all.take(n as int) =~= all);
    let ghost filtered = kept@;
    sort_rows(&mut kept, sort);
    let ghost sorted = kept@;
    let mut rows: Vec<GameRow> = Vec::new();
    let mut j: usize = 0;
    let ghost m = sorted.len();
    assert(m <= usize::MAX) by {
        assert(kept@.len() == kept.len());
    }
    while kept.len() > 0
        invariant
            m == sorted.len(),
            m <= usize::MAX,
            j + kept@.len() == m,
            kept@ == sorted.subrange(j as int, m as int),
            rows@ == sorted.take(j as int).map_values(|x: Projected| x.row),
        decreases kept@.len(),
    {
        let x = kept.remove(0);
        assert(x == sorted[j as int]);
        rows.push(x.row);
        proof {
            assert(sorted.take(j + 1).map_values(|x: Projected| x.row) =~= sorted.take(
                j as int,
            ).map_values(|x: Projected| x.row).push(x.row));
        }
        j = j + 1;
    }
    assert(sorted.take(m as int) =~= sorted);
    assert(filtered =~= library_kept(items@, filter, search@));
    rows
}


/// Route a row to the right destination for its status.
pub fn route_for(status: GameStatus, id: String) -> (r: Route)
    ensures
        r == match status {
            GameStatus::New => Route::GameNew { id },
            GameStatus::Active => Route::GamePlay { id },
            GameStatus::Solved => Route::GameCompleted { id },
        },
{
    match status {
        GameStatus::New => Route::GameNew { id },
        GameStatus::Active => Route::GamePlay { id },
        GameStatus::Solved => Route::GameCompleted { id },
    }
}

/// Stamp of an unstarted item (0 for any other kind).
pub open spec fn game_ts(item: GameListItem) -> int {
    match item {
        GameListItem::Game(g) => ts_of(g.at),
        _ => 0,
    }
}

/// Item `i` is the featured puzzle: an unstarted game newer than every
/// earlier unstarted game and at least as new as every later one.
pub open spec fn featured_at(items: Seq<GameListItem>, i: int) -> bool {
    &&& 0 <= i < items.len()
    &&& items[i] is Game
    &&& forall|j: int|
        0 <= j < i && (#[trigger] items[j]) is Game ==> game_ts(items[j]) < game_ts(items[i])
    &&& forall|j: int|
        i < j < items.len() && (#[trigger] items[j]) is Game ==> game_ts(items[j]) <= game_ts(items[i])
}

/// Newest unstarted game by stamp; among equally new ones the first in
/// server order. `None` when the list holds no unstarted game.
pub fn featured_of(items: &Vec<GameListItem>) -> (r: Option<&UnstartedGame>)
    ensures
        r is None <==> forall|i: int| 0 <= i < items@.len() ==> !(#[trigger] items@[i] is Game),
        r matches Some(g) ==> exists|i: int|
            featured_at(items@, i) && #[trigger] items@[i] == GameListItem::Game(*g),
{
    let mut best: Option<&UnstartedGame> = None;
    let ghost mut bi: int = -1;
    for k in 0..items.len()
        invariant
            best is None <==> forall|i: int| 0 <= i < k ==> !(#[trigger] items@[i] is Game),
            best is None ==> bi == -1,
            best matches Some(g) ==> {
                &&& 0 <= bi < k
                &&& items@[bi] == GameListItem::Game(*g)
                &&& forall|j: int|
                    0 <= j < bi && (#[trigger] items@[j]) is Game ==> game_ts(items@[j]) < game_ts(
                        items@[bi],
                    )
                &&& forall|j: int|
                    bi < j < k && (#[trigger] items@[j]) is Game ==> game_ts(items@[j]) <= game_ts(
                        items@[bi],
                    )
            },
    {
        match &items[k] {
            GameListItem::Game(g) => {
                let replace = match best {
                    Some(b) => ts(&g.at) > ts(&b.at),
                    None => true,
                };
                if replace {
                    proof {
                        if bi >= 0 {
                            assert forall|j: int|
                                0 <= j < k && (#[trigger] items@[j]) is Game implies game_ts(
                                items@[j],
                            ) < game_ts(items@[k as int]) by {
                                if j < bi {
                                } else if j > bi {
                                } else {
                                }
                            }
                        }
                        bi = k as int;
                    }
                    best = Some(g);
                }
            },
            _ => {},
        }
    }
    proof {
        if best is Some {
            assert(featured_at(items@, bi));
        }
    }
    best
}

/// Item is a started game of the given kind (`active` or completed) that
/// back-references the puzzle `game_id`.
pub open spec fn backrefs(item: GameListItem, active: bool, game_id: Seq<char>) -> bool {
    match item {
        GameListItem::ActiveGame(g) => active && (g.game_id matches Some(x) && x@ == game_id),
        GameListItem::CompletedGame(g) => !active && (g.game_id matches Some(x) && x@ == game_id),
        _ => false,
    }
}

/// `r` is the first item back-referencing `game_id` among those of the given
/// kind, or `None` when there is none.
pub open spec fn first_backref(
    items: Seq<GameListItem>,
    active: bool,
    game_id: Seq<char>,
    r: Option<&PlayedGame>,
) -> bool {
    match r {
        None => forall|i: int| 0 <= i < items.len() ==> !backrefs(#[trigger] items[i], active, game_id),
        Some(g) => exists|i: int|
            0 <= i < items.len() && backrefs(#[trigger] items[i], active, game_id) && (if active {
                items[i] == GameListItem::ActiveGame(*g)
            } else {
                items[i] == GameListItem::CompletedGame(*g)
            }) && forall|j: int| 0 <= j < i ==> !backrefs(#[trigger] items[j], active, game_id),
    }
}

fn refers_to(gid: &Option<String>, game_id: &str) -> (r: bool)
    ensures
        r == (*gid matches Some(x) && x@ == game_id@),
{
    match gid {
        Some(x) => crate::text::same_str(x.as_str(), game_id),
        None => false,
    }
}

/// The first active and the first completed item that back-reference the
/// puzzle `game_id`.
pub fn played_match<'a>(items: &'a Vec<GameListItem>, game_id: &str) -> (r: (
    Option<&'a PlayedGame>,
    Option<&'a PlayedGame>,
))
    ensures
        first_backref(items@, true, game_id@, r.0),
        first_backref(items@, false, game_id@, r.1),
{
    let mut active: Option<&PlayedGame> = None;
    let mut completed: Option<&PlayedGame> = None;
    let ghost mut ai: int = 0;
    let ghost mut ci: int = 0;
    for k in 0..items.len()
        invariant
            active is None ==> forall|i: int|
                0 <= i < k ==> !backrefs(#[trigger] items@[i], true, game_id@),
            active matches Some(g) ==> 0 <= ai < k && backrefs(items@[ai], true, game_id@)
                && items@[ai] == GameListItem::ActiveGame(*g) && forall|j: int|
                0 <= j < ai ==> !backrefs(#[trigger] items@[j], true, game_id@),
            completed is None ==> forall|i: int|
                0 <= i < k ==> !backrefs(#[trigger] items@[i], false, game_id@),
            completed matches Some(g) ==> 0 <= ci < k && backrefs(items@[ci], false, game_id@)
                && items@[ci] == GameListItem::CompletedGame(*g) && forall|j: int|
                0 <= j < ci ==> !backrefs(#[trigger] items@[j], false, game_id@),
    {
        match &items[k] {
            GameListItem::ActiveGame(g) => {
                if active.is_none() && refers_to(&g.game_id, game_id) {
                    active = Some(g);
                    proof {
                        ai = k as int;
                    }
                }
            },
            GameListItem::CompletedGame(g) => {
                if completed.is_none() && refers_to(&g.game_id, game_id) {
                    completed = Some(g);
                    proof {
                        ci = k as int;
                    }
                }
            },
            _ => {},
        }
    }
    (active, completed)
}


/// A character allowed in a game id: ASCII letter or digit, `-` or `_`.
pub open spec fn is_id_char(c: char) -> bool {
    ('a' <= c && c <= 'z') || ('A' <= c && c <= 'Z') || ('0' <= c && c <= '9') || c == '-' || c
        == '_'
}

/// The longest prefix of `s` made of id characters.
pub open spec fn id_run(s: Seq<char>) -> Seq<char>
    decreases s.len(),
{
    if s.len() > 0 && is_id_char(s[0]) {
        seq![s[0]] + id_run(s.drop_first())
    } else {
        Seq::empty()
    }
}

/// The path segment that introduces a game id in an invite link.
pub open spec fn game_marker() -> Seq<char> {
    seq!['/', 'g', 'a', 'm', 'e', '/']
}

/// `/game/` occurs in `t` at `i`.
pub open spec fn marker_at(t: Seq<char>, i: int) -> bool {
    0 <= i && i + 6 <= t.len() && t.subrange(i, i + 6) == game_marker()
}

/// `i` is the first occurrence of `/game/` in `t`.
pub open spec fn first_marker(t: Seq<char>, i: int) -> bool {
    marker_at(t, i) && forall|j: int| 0 <= j < i ==> !#[trigger] marker_at(t, j)
}

/// The id of an invite link: the id characters right after the first
/// `/game/`, when there are any.
pub open spec fn invite_spec(t: Seq<char>) -> Option<Seq<char>> {
    if exists|i: int| #[trigger] marker_at(t, i) {
        let i = choose|i: int| #[trigger] first_marker(t, i);
        let id = id_run(t.skip(i + 6));
        if id.len() > 0 {
            Some(id)
        } else {
            None
        }
    } else {
        None
    }
}

fn id_char(c: char) -> (r: bool)
    ensures
        r == is_id_char(c),
{
    ('a' <= c && c <= 'z') || ('A' <= c && c <= 'Z') || ('0' <= c && c <= '9') || c == '-' || c
        == '_'
}

fn marker_here(t: &Vec<char>, i: usize) -> (r: bool)
    requires
        i + 6 <= t@.len(),
    ensures
        r == marker_at(t@, i as int),
{
    let len = t.len();
    assert(i + 6 <= len);
    let r = t[i] == '/' && t[i + 1] == 'g' && t[i + 2] == 'a' && t[i + 3] == 'm' && t[i + 4] == 'e'
        && t[i + 5] == '/';
    proof {
        let w = t@.subrange(i as int, i + 6);
        if r {
            assert(w =~= game_marker());
        }
        if w == game_marker() {
            assert(w[0] == t@[i as int] && w[1] == t@[i + 1] && w[2] == t@[i + 2]);
            assert(w[3] == t@[i + 3] && w[4] == t@[i + 4] && w[5] == t@[i + 5]);
        }
    }
    r
}

proof fn lemma_first_marker_unique(t: Seq<char>, i: int, j: int)
    requires
        first_marker(t, i),
        first_marker(t, j),
    ensures
        i == j,
{
    if i < j {
        assert(!marker_at(t, i));
    } else if j < i {
        assert(!marker_at(t, j));
    }
}

/// Pulls the game id out of a pasted `/game/{id}` invite link (absolute URL
/// or relative path); `None` when the text holds no such id.
pub fn parse_invite(text: &str) -> (r: Option<String>)
    ensures
        match r {
            Some(id) => invite_spec(text@) == Some(id@),
            None => invite_spec(text@) is None,
        },
{
    let t = chars_of(text);
    let n = t.len();
    let ghost ts = t@;
    if n < 6 {
        assert forall|i: int| !#[trigger] marker_at(ts, i) by {}
        return None;
    }
    let mut i: usize = 0;
    while i <= n - 6 && !marker_here(&t, i)
        invariant
            n == t@.len(),
            n >= 6,
            ts == t@,
            i <= n - 5,
            forall|j: int| 0 <= j < i ==> !#[trigger] marker_at(ts, j),
        decreases n - i,
    {
        i = i + 1;
    }
    if i > n - 6 {
        assert forall|j: int| !#[trigger] marker_at(ts, j) by {
            if 0 <= j && j + 6 <= ts.len() {
                assert(j < i);
            }
        }
        return None;
    }
    assert(first_marker(ts, i as int));
    let start = i + 6;
    let mut k = start;
    while k < n && id_char(t[k])
        invariant
            n == t@.len(),
            start <= k <= n,
            id_run(ts.skip(start as int)) == ts.subrange(start as int, k as int) + id_run(
                ts.skip(k as int),
            ),
            ts == t@,
        decreases n - k,
    {
        proof {
            let rest = ts.skip(k as int);
            assert(rest[0] == ts[k as int]);
            assert(rest.drop_first() =~= ts.skip(k + 1));
            assert(id_run(rest) == seq![ts[k as int]] + id_run(ts.skip(k + 1)));
            assert(ts.subrange(start as int, k + 1) =~= ts.subrange(start as int, k as int) + seq![
                ts[k as int],
            ]);
            assert(ts.subrange(start as int, k as int) + (seq![ts[k as int]] + id_run(ts.skip(k + 1)))
                =~= ts.subrange(start as int, k + 1) + id_run(ts.skip(k + 1)));
        }
        k = k + 1;
    }
    proof {
        assert(id_run(ts.skip(k as int)) =~= Seq::<char>::empty()) by {
            if k < n {
                assert(ts.skip(k as int)[0] == ts[k as int]);
            }
        }
        assert(ts.subrange(start as int, k as int) + Seq::<char>::empty() =~= ts.subrange(
            start as int,
            k as int,
        ));
        let c = choose|c: int| #[trigger] first_marker(ts, c);
        assert(first_marker(ts, c));
        lemma_first_marker_unique(ts, c, i as int);
        assert(marker_at(ts, i as int));
    }
    if k == start {
        return None;
    }
    Some(string_from(&t, start, k))
}


/// The panels of the games page.
#[derive(Debug, Clone, Copy, PartialEq, Eq, Structural)]
pub enum Panel {
    Continue,
    Featured,
    Library,
    Progress,
}

impl Panel {
    /// Panel caption.
    pub fn title(self) -> (r: &'static str)
        ensures
            r@ == match self {
                Panel::Continue => "Continue"@,
                Panel::Featured => "Featured"@,
                Panel::Library => "Library"@,
                Panel::Progress => "Progress"@,
            },
    {
        match self {
            Panel::Continue => "Continue",
            Panel::Featured => "Featured",
            Panel::Library => "Library",
            Panel::Progress => "Progress",
        }
    }
}

/// What a signed-out visitor reads in each panel.
pub fn signed_out_msg(kind: Panel) -> (r: &'static str)
    ensures
        r@ == match kind {
            Panel::Continue => "Sign in to track your games"@,
            Panel::Featured => "Sign in to play this week's puzzle."@,
            Panel::Library => "Sign in to see your games."@,
            Panel::Progress => "Sign in to see your progress."@,
        },
{
    match kind {
        Panel::Continue => "Sign in to track your games",
        Panel::Featured => "Sign in to play this week's puzzle.",
        Panel::Library => "Sign in to see your games.",
        Panel::Progress => "Sign in to see your progress.",
    }
}

/// Joins the present parts of a meta line with the app's ` · ` separator.
pub fn meta_line(parts: &Vec<Option<String>>) -> (r: String)
    ensures
        r@ == join(present(parts@), " · "@),
{
    join_present(parts, " · ")
}

/// `v` with every `+` read as a space (the form-encoding half of decoding a
/// query value).
pub fn plus_to_space(v: &str) -> (r: String)
    ensures
        r@ == v@.map_values(|c: char| if c == '+' { ' ' } else { c }),
{
    let mut out = String::new();
    let t = chars_of(v);
    for i in 0..t.len()
        invariant
            t@ == v@,
            out@ == t@.take(i as int).map_values(|c: char| if c == '+' { ' ' } else { c }),
    {
        let c = t[i];
        crate::text::push_char(&mut out, if c == '+' { ' ' } else { c });
        proof {
            assert(t@.take(i + 1).map_values(|c: char| if c == '+' { ' ' } else { c }) =~= t@.take(
                i as int,
            ).map_values(|c: char| if c == '+' { ' ' } else { c }).push(
                if c == '+' { ' ' } else { c },
            ));
        }
    }
    assert(t@.take(t@.len() as int) =~= t@);
    out
}

/// The address reflecting the Library tab and search (`/games?f=active&q=nasa`):
/// `f=` only for a tab other than All, `q=` only for a non-empty search,
/// whose URI-component encoding is `q_encoded`.
pub open spec fn games_url_spec(filter: Filter, q_encoded: Seq<char>) -> Seq<char> {
    match (query_spec(filter), q_encoded.len() > 0) {
        (None, false) => "/games"@,
        (Some(f), false) => "/games?f="@ + f,
        (None, true) => "/games?q="@ + q_encoded,
        (Some(f), true) => "/games?f="@ + f + "&q="@ + q_encoded,
    }
}

/// Builds the Library address for a tab and an encoded search value.
pub fn games_url(filter: Filter, q_encoded: &str) -> (r: String)
    ensures
        r@ == games_url_spec(filter, q_encoded@),
{
    let has_q = !q_encoded.is_empty();
    match filter.query() {
        None => {
            if has_q {
                let mut u = String::from_str("/games?q=");
                u.append(q_encoded);
                u
            } else {
                String::from_str("/games")
            }
        },
        Some(f) => {
            let mut u = String::from_str("/games?f=");
            u.append(f);
            if has_q {
                u.append("&q=");
                u.append(q_encoded);
            }
            u
        },
    }
}

/// The unstarted games of a list, in order.
pub open spec fn unstarted_of(items: Seq<GameListItem>) -> Seq<UnstartedGame>
    decreases items.len(),
{
    if items.len() == 0 {
        Seq::empty()
    } else {
        let rest = unstarted_of(items.drop_last());
        match items.last() {
            GameListItem::Game(g) => rest.push(g),
            _ => rest,
        }
    }
}

/// The active games of a list, in order.
pub open spec fn actives_of(items: Seq<GameListItem>) -> Seq<PlayedGame>
    decreases items.len(),
{
    if items.len() == 0 {
        Seq::empty()
    } else {
        let rest = actives_of(items.drop_last());
        match items.last() {
            GameListItem::ActiveGame(g) => rest.push(g),
            _ => rest,
        }
    }
}

/// The completed games of a list, in order.
pub open spec fn completed_of(items: Seq<GameListItem>) -> Seq<PlayedGame>
    decreases items.len(),
{
    if items.len() == 0 {
        Seq::empty()
    } else {
        let rest = completed_of(items.drop_last());
        match items.last() {
            GameListItem::CompletedGame(g) => rest.push(g),
            _ => rest,
        }
    }
}

/// The stat tiles of the Progress panel.
#[derive(Debug, Clone, Copy, PartialEq, Eq, Structural)]
pub struct ProgressTiles {
    pub solved: i64,
    pub in_progress: i64,
    pub available: i64,
    pub total: i64,
    /// Solved share of the library in whole percent (0 for an empty one).
    pub pct: i64,
}

/// Counts of the Progress panel: solved, in-progress and available games,
/// their total, and the solved percentage (rounded down; 0 when empty).
pub fn progress_tiles(items: &Vec<GameListItem>) -> (r: ProgressTiles)
    requires
        items@.len() <= i64::MAX,
    ensures
        r.solved == completed_of(items@).len(),
        r.in_progress == actives_of(items@).len(),
        r.available == unstarted_of(items@).len(),
        r.total == r.solved + r.in_progress + r.available,
        r.pct == if r.total > 0 { (r.solved as int) * 100 / (r.total as int) } else { 0 },
{
    let mut solved: i64 = 0;
    let mut inprog: i64 = 0;
    let mut avail: i64 = 0;
    for i in 0..items.len()
        invariant
            items@.len() <= i64::MAX,
            solved == completed_of(items@.take(i as int)).len(),
            inprog == actives_of(items@.take(i as int)).len(),
            avail == unstarted_of(items@.take(i as int)).len(),
            solved + inprog + avail == i,
    {
        proof {
            assert(items@.take(i + 1).drop_last() =~= items@.take(i as int));
        }
        match &items[i] {
            GameListItem::Game(_) => avail = avail + 1,
            GameListItem::ActiveGame(_) => inprog = inprog + 1,
            GameListItem::CompletedGame(_) => solved = solved + 1,
        }
    }
    assert(items@.take(items@.len() as int) =~= items@);
    let total = solved + inprog + avail;
    let pct = if total > 0 {
        let p: i128 = (solved as i128) * 100 / (total as i128);
        proof {
            crate::game_list::lemma_share_bounds(solved as int, total as int);
        }
        p as i64
    } else {
        0
    };
    ProgressTiles { solved, in_progress: inprog, available: avail, total, pct }
}

/// Every item is exactly one of unstarted, active or completed.
pub proof fn lemma_kinds_partition(items: Seq<GameListItem>)
    ensures
        unstarted_of(items).len() + actives_of(items).len() + completed_of(items).len()
            == items.len(),
    decreases items.len(),
{
    if items.len() > 0 {
        lemma_kinds_partition(items.drop_last());
    }
}

/// Stamps of games, as sort keys.
pub open spec fn stamps_of(gs: Seq<PlayedGame>) -> Seq<i64> {
    gs.map_values(|g: PlayedGame| ts_of(g.at) as i64)
}

/// `r` holds the newest `limit` of `gs` (all of them when fewer), newest
/// first, equally new ones in list order.
pub open spec fn newest_first(keys: Seq<i64>, gs: Seq<PlayedGame>, limit: int, r: Seq<&PlayedGame>) -> bool {
    exists|ord: Seq<usize>|
        #[trigger] is_desc_order(keys, ord) && r.len() == (if ord.len() < limit {
            ord.len() as int
        } else {
            limit
        }) && forall|k: int| 0 <= k < r.len() ==> *#[trigger] r[k] == gs[ord[k] as int]
}

/// The active games of the list, newest first, at most `limit` of them.
pub fn newest_actives(items: &Vec<GameListItem>, limit: usize) -> (r: Vec<&PlayedGame>)
    ensures
        newest_first(stamps_of(actives_of(items@)), actives_of(items@), limit as int, r@),
{
    let mut acts: Vec<&PlayedGame> = Vec::new();
    let mut keys: Vec<i64> = Vec::new();
    for i in 0..items.len()
        invariant
            acts@.len() == actives_of(items@.take(i as int)).len(),
            forall|j: int| 0 <= j < acts@.len() ==> *#[trigger] acts@[j] == actives_of(items@.take(i as int))[j],
            keys@ == stamps_of(actives_of(items@.take(i as int))),
    {
        proof {
            assert(items@.take(i + 1).drop_last() =~= items@.take(i as int));
        }
        match &items[i] {
            GameListItem::ActiveGame(g) => {
                acts.push(g);
                keys.push(ts(&g.at));
                proof {
                    assert(keys@ =~= stamps_of(actives_of(items@.take(i + 1))));
                }
            },
            _ => {},
        }
    }
    assert(items@.take(items@.len() as int) =~= items@);
    let order = desc_order(&keys);
    let mut out: Vec<&PlayedGame> = Vec::new();
    let mut k: usize = 0;
    while k < order.len() && k < limit
        invariant
            is_desc_order(keys@, order@),
            keys@.len() == acts@.len(),
            acts@.len() == actives_of(items@).len(),
            forall|j: int| 0 <= j < acts@.len() ==> *#[trigger] acts@[j] == actives_of(items@)[j],
            k <= order@.len(),
            k <= limit,
            out@.len() == k,
            forall|j: int| 0 <= j < k ==> *#[trigger] out@[j] == actives_of(items@)[order@[j] as int],
        decreases order@.len() - k,
    {
        out.push(acts[order[k]]);
        k = k + 1;
    }
    assert(is_desc_order(keys@, order@));
    out
}

/// The Continue panel: how many games are in progress, and the newest three.
pub fn continue_cards(items: &Vec<GameListItem>) -> (r: (usize, Vec<&PlayedGame>))
    ensures
        r.0 == actives_of(items@).len(),
        newest_first(stamps_of(actives_of(items@)), actives_of(items@), 3, r.1@),
{
    let cards = newest_actives(items, 3);
    let mut n: usize = 0;
    for i in 0..items.len()
        invariant
            n == actives_of(items@.take(i as int)).len(),
            n <= i,
    {
        proof {
            assert(items@.take(i + 1).drop_last() =~= items@.take(i as int));
        }
        match &items[i] {
            GameListItem::ActiveGame(_) => n = n + 1,
            _ => {},
        }
    }
    assert(items@.take(items@.len() as int) =~= items@);
    (n, cards)
}

/// The call to action of the Featured card: an active session on the puzzle
/// wins (resume it), then a completed one (review it), else start it.
pub fn featured_cta(
    g: &UnstartedGame,
    active: Option<&PlayedGame>,
    completed: Option<&PlayedGame>,
) -> (r: (Option<&'static str>, &'static str, &'static str, Route))
    ensures
        match active {
            Some(a) => r.0 matches Some(b) && b@ == "IN PROGRESS"@ && r.1@
                == "border-color: var(--pastel-green); color: var(--pastel-green);"@ && r.2@
                == "Continue →"@ && r.3 == Route::GamePlay { id: a.id },
            None => match completed {
                Some(c) => r.0 matches Some(b) && b@ == "SOLVED"@ && r.1@
                    == "border-color: var(--pastel-yellow); color: var(--pastel-yellow);"@ && r.2@
                    == "Review →"@ && r.3 == Route::GameCompleted { id: c.id },
                None => r.0 is None && r.1@ == ""@ && r.2@ == "Play →"@ && r.3 == Route::GameNew {
                    id: g.id,
                },
            },
        },
{
    if let Some(a) = active {
        (
            Some("IN PROGRESS"),
            "border-color: var(--pastel-green); color: var(--pastel-green);",
            "Continue →",
            Route::GamePlay { id: a.id.clone() },
        )
    } else if let Some(c) = completed {
        (
            Some("SOLVED"),
            "border-color: var(--pastel-yellow); color: var(--pastel-yellow);",
            "Review →",
            Route::GameCompleted { id: c.id.clone() },
        )
    } else {
        (None, "", "Play →", Route::GameNew { id: g.id.clone() })
    }
}

/// The Featured panel: this week's puzzle (the newest unstarted game) and
/// its call to action, from the sessions that back-reference it; `None`
/// when every puzzle has been started.
pub fn featured_panel(items: &Vec<GameListItem>) -> (r: Option<
    (&UnstartedGame, (Option<&'static str>, &'static str, &'static str, Route)),
>)
    ensures
        r is None <==> forall|i: int| 0 <= i < items@.len() ==> !(#[trigger] items@[i] is Game),
        r matches Some(p) ==> exists|i: int|
            featured_at(items@, i) && #[trigger] items@[i] == GameListItem::Game(*p.0),
        r matches Some(p) ==> featured_cta_of(items@, *p.0, p.1),
{
    match featured_of(items) {
        None => None,
        Some(g) => {
            let (a, c) = played_match(items, g.id.as_str());
            let cta = featured_cta(g, a, c);
            assert(first_backref(items@, true, g.id@, a));
            assert(first_backref(items@, false, g.id@, c));
            assert(featured_cta_spec(*g, a, c, cta));
            assert(featured_cta_of(items@, *g, cta));
            Some((g, cta))
        },
    }
}

/// `cta` is the call to action of puzzle `g` given the first active and the
/// first completed session of `items` that back-reference it.
pub open spec fn featured_cta_of(
    items: Seq<GameListItem>,
    g: UnstartedGame,
    cta: (Option<&'static str>, &'static str, &'static str, Route),
) -> bool {
    exists|a: Option<&PlayedGame>, c: Option<&PlayedGame>|
        first_backref(items, true, g.id@, a) && first_backref(items, false, g.id@, c)
            && #[trigger] featured_cta_spec(g, a, c, cta)
}

/// The Featured call to action, as `featured_cta` states it.
pub open spec fn featured_cta_spec(
    g: UnstartedGame,
    active: Option<&PlayedGame>,
    completed: Option<&PlayedGame>,
    r: (Option<&'static str>, &'static str, &'static str, Route),
) -> bool {
    match active {
        Some(a) => r.0 matches Some(b) && b@ == "IN PROGRESS"@ && r.1@
            == "border-color: var(--pastel-green); color: var(--pastel-green);"@ && r.2@
            == "Continue →"@ && r.3 == Route::GamePlay { id: a.id },
        None => match completed {
            Some(c) => r.0 matches Some(b) && b@ == "SOLVED"@ && r.1@
                == "border-color: var(--pastel-yellow); color: var(--pastel-yellow);"@ && r.2@
                == "Review →"@ && r.3 == Route::GameCompleted { id: c.id },
            None => r.0 is None && r.1@ == ""@ && r.2@ == "Play →"@ && r.3 == Route::GameNew {
                id: g.id,
            },
        },
    }
}


proof fn lemma_strip_one(t: Seq<char>)
    requires
        t.len() > 0,
        t[0] != '?',
    ensures
        strip_q(seq!['?'] + t) == t,
{
    let u = seq!['?'] + t;
    assert(u.drop_first() =~= t);
    assert(strip_q(t) == t);
    assert(strip_q(u) == strip_q(u.drop_first()));
}

/// The Library's address reads back what it wrote: its `f` parameter is the
/// tab's wire value and its `q` parameter the (encoded, `&`-free) search
/// text, each absent when the address leaves it out.
pub proof fn lemma_games_url_reads_back(filter: Filter, q: Seq<char>)
    requires
        !q.contains('&'),
    ensures
        games_url_spec(filter, q).take(6) == "/games"@,
        is_query_value(games_url_spec(filter, q).skip(6), "f"@, query_spec(filter)),
        is_query_value(
            games_url_spec(filter, q).skip(6),
            "q"@,
            if q.len() > 0 {
                Some(q)
            } else {
                None
            },
        ),
{
    reveal_strlit("/games");
    reveal_strlit("/games?f=");
    reveal_strlit("/games?q=");
    reveal_strlit("&q=");
    reveal_strlit("f");
    reveal_strlit("q");
    reveal_strlit("new");
    reveal_strlit("active");
    reveal_strlit("solved");
    let url = games_url_spec(filter, q);
    let fname = "f"@;
    let qname = "q"@;
    assert(!fname.contains('=') && !fname.contains('&') && fname.len() == 1 && fname[0] == 'f');
    assert(!qname.contains('=') && !qname.contains('&') && qname.len() == 1 && qname[0] == 'q');
    match query_spec(filter) {
        None => {
            if q.len() == 0 {
                assert(url =~= "/games"@);
                assert(url.skip(6) =~= Seq::<char>::empty());
                let s = strip_q(url.skip(6));
                assert(s =~= Seq::<char>::empty());
                assert forall|a: int, b: int| !#[trigger] query_hit(s, a, b, fname) by {
                    if is_segment(s, a, b) {
                        assert(s.subrange(a, b).len() == 0);
                    }
                }
                assert forall|a: int, b: int| !#[trigger] query_hit(s, a, b, qname) by {
                    if is_segment(s, a, b) {
                        assert(s.subrange(a, b).len() == 0);
                    }
                }
            } else {
                let p = qname + seq!['='] + q;
                assert(url =~= "/games"@ + (seq!['?'] + p));
                assert(url.take(6) =~= "/games"@);
                assert(url.skip(6) =~= seq!['?'] + p);
                lemma_strip_one(p);
                let s = strip_q(url.skip(6));
                assert(s == p);
                assert(!p.contains('&')) by {
                    if p.contains('&') {
                        let j = choose|j: int| 0 <= j < p.len() && p[j] == '&';
                        if j >= 2 {
                            assert(q[j - 2] == '&');
                        }
                    }
                }
                assert forall|a: int, b: int| !#[trigger] query_hit(s, a, b, fname) by {
                    if is_segment(s, a, b) {
                        lemma_single_piece(s, a, b);
                        assert(s.subrange(a, b) =~= p);
                        lemma_pair_value_other(p, fname);
                    }
                }
                lemma_pair_value(qname, q);
                assert(s.subrange(0, s.len() as int) =~= p);
                assert(is_segment(s, 0, s.len() as int));
                assert(query_hit(s, 0, s.len() as int, qname));
            }
        },
        Some(fv) => {
            assert(fv.len() > 0 && !fv.contains('&'));
            let p1 = fname + seq!['='] + fv;
            assert(!p1.contains('&')) by {
                if p1.contains('&') {
                    let j = choose|j: int| 0 <= j < p1.len() && p1[j] == '&';
                    if j >= 2 {
                        assert(fv[j - 2] == '&');
                    }
                }
            }
            lemma_pair_value(fname, fv);
            if q.len() == 0 {
                assert(url =~= "/games"@ + (seq!['?'] + p1));
                assert(url.take(6) =~= "/games"@);
                assert(url.skip(6) =~= seq!['?'] + p1);
                lemma_strip_one(p1);
                let s = strip_q(url.skip(6));
                assert(s == p1);
                assert forall|a: int, b: int| !#[trigger] query_hit(s, a, b, qname) by {
                    if is_segment(s, a, b) {
                        lemma_single_piece(s, a, b);
                        assert(s.subrange(a, b) =~= p1);
                        lemma_pair_value_other(p1, qname);
                    }
                }
                assert(s.subrange(0, s.len() as int) =~= p1);
                assert(is_segment(s, 0, s.len() as int));
                assert(query_hit(s, 0, s.len() as int, fname));
            } else {
                let p2 = qname + seq!['='] + q;
                assert(!p2.contains('&')) by {
                    if p2.contains('&') {
                        let j = choose|j: int| 0 <= j < p2.len() && p2[j] == '&';
                        if j >= 2 {
                            assert(q[j - 2] == '&');
                        }
                    }
                }
                let body = p1 + seq!['&'] + p2;
                assert(url =~= "/games"@ + (seq!['?'] + body));
                assert(url.take(6) =~= "/games"@);
                assert(url.skip(6) =~= seq!['?'] + body);
                lemma_strip_one(body);
                let s = strip_q(url.skip(6));
                assert(s == body);
                let m = p1.len() as int;
                assert(s.subrange(0, m) =~= p1);
                assert(s.subrange(m + 1, s.len() as int) =~= p2);
                assert(s[m] == '&');
                assert forall|j: int| 0 <= j < m implies #[trigger] s[j] != '&' by {
                    assert(s[j] == p1[j]);
                }
                assert forall|j: int| m + 1 <= j < s.len() implies #[trigger] s[j] != '&' by {
                    assert(s[j] == p2[j - m - 1]);
                }
                assert(is_segment(s, 0, m));
                assert(query_hit(s, 0, m, fname));
                lemma_pair_value(qname, q);
                assert(is_segment(s, m + 1, s.len() as int));
                assert(query_hit(s, m + 1, s.len() as int, qname));
                lemma_pair_value_other(p1, qname);
                assert forall|c: int, d: int| c < m + 1 implies !#[trigger] query_hit(s, c, d, qname) by {
                    if is_segment(s, c, d) {
                        lemma_two_pieces(p1, p2, c, d);
                        assert(s.subrange(c, d) =~= p1);
                    }
                }
            }
        },
    }
}


/// Sorting by score puts every scored row (negative scores included) before
/// every row without a score.
pub proof fn lemma_scored_before_unscored(a: GameListItem, b: GameListItem)
    requires
        projected_of(a).row.score is Some,
        projected_of(b).row.score is None,
    ensures
        before(Sort::Score, projected_of(a), projected_of(b)),
        !before(Sort::Score, projected_of(b), projected_of(a)),
{
}

/// What a sorted library shows, key by key: newest first puts later
/// timestamps first, oldest first earlier ones; by players and by score the
/// larger count comes first, with the later timestamp first among equals;
/// rows that share the keys keep their server order.
pub proof fn lemma_sorted_rows_follow_keys(sort: Sort, inp: Seq<Projected>, out: Seq<Projected>, p: Seq<int>, k: int, l: int)
    requires
        is_stable_sort(sort, inp, out, p),
        0 <= k < l < out.len(),
    ensures
        sort == Sort::Newest ==> out[k].ts >= out[l].ts,
        sort == Sort::Newest && out[k].ts == out[l].ts ==> p[k] < p[l],
        sort == Sort::Oldest ==> out[k].ts <= out[l].ts,
        sort == Sort::Oldest && out[k].ts == out[l].ts ==> p[k] < p[l],
        sort == Sort::Players ==> out[k].players >= out[l].players,
        sort == Sort::Players && out[k].players == out[l].players ==> out[k].ts >= out[l].ts,
        sort == Sort::Players && out[k].players == out[l].players && out[k].ts == out[l].ts ==> p[k] < p[l],
        sort == Sort::Score ==> out[k].score >= out[l].score,
        sort == Sort::Score && out[k].score == out[l].score ==> out[k].ts >= out[l].ts,
        sort == Sort::Score && out[k].score == out[l].score && out[k].ts == out[l].ts ==> p[k] < p[l],
{
    assert(!before(sort, out[l], out[k]));
    if match sort {
        Sort::Newest | Sort::Oldest => out[k].ts == out[l].ts,
        Sort::Players => out[k].players == out[l].players && out[k].ts == out[l].ts,
        Sort::Score => out[k].score == out[l].score && out[k].ts == out[l].ts,
    } {
        assert(!before(sort, out[k], out[l]));
    }
}

} // verus!
