use crossword_web::game_list::GameStatus;
use crossword_web::games::{GameListItem, GridSize, PlayedGame, UnstartedGame};
use crossword_web::home::{
    daily_cta, fresh_rows, greeting_name, home_surface, pulse_tiles, pulse_view, DailyGame, HomeSurface,
    PulseStats, PulseView,
};
use crossword_web::route::Route;
use serde_json::Value;

fn opt_i64(v: &Value, key: &str) -> Option<i64> {
    v.get(key).and_then(Value::as_i64)
}

fn opt_str(v: &Value, key: &str) -> Option<String> {
    v.get(key).and_then(Value::as_str).map(String::from)
}

/// One wire item as the list types decode it; `None` when it does not fit.
fn item(v: &Value) -> Option<GameListItem> {
    let grid = v.get("gridSize").and_then(|g| {
        Some(GridSize { w: g.get("w")?.as_i64()?, h: g.get("h")?.as_i64()? })
    });
    let id = opt_str(v, "id")?;
    match v.get("type")?.as_str()? {
        "Game" => Some(GameListItem::Game(UnstartedGame {
            id,
            title: opt_str(v, "title")?,
            clues: opt_i64(v, "clues").unwrap_or(0),
            at: None,
            grid_size: grid,
        })),
        kind @ ("ActiveGame" | "CompletedGame") => {
            let p = PlayedGame {
                id,
                title: v.get("game")?.get("title")?.as_str()?.to_string(),
                clues: opt_i64(v, "clues").unwrap_or(0),
                players: opt_i64(v, "players").unwrap_or(0),
                at: None,
                score: opt_i64(v, "score").map(|s| s as i32),
                game_id: opt_str(v, "gameId"),
                grid_size: grid,
                filled_count: opt_i64(v, "filledCount"),
                correct_count: opt_i64(v, "correctCount"),
                total_cells: opt_i64(v, "totalCells"),
            };
            Some(if kind == "ActiveGame" {
                GameListItem::ActiveGame(p)
            } else {
                GameListItem::CompletedGame(p)
            })
        }
        _ => None,
    }
}

/// The daily puzzle as its wire type decodes it: state fields default.
fn daily(text: &str) -> DailyGame {
    let v: Value = serde_json::from_str(text).unwrap();
    DailyGame {
        game_id: opt_str(&v, "gameId").unwrap(),
        title: opt_str(&v, "title").unwrap(),
        clues: opt_i64(&v, "clues").unwrap_or(0),
        already_completed: v.get("alreadyCompleted").and_then(Value::as_bool).unwrap_or(false),
        active_game_id: opt_str(&v, "activeGameId"),
    }
}

/// All three wire variants decode; Home splits actives from fresh and
/// ignores completed rows. (`at` stays absent.)
#[test]
fn wire_items_deserialize_and_split() {
    let raw: Value = serde_json::from_str(
        r#"[
            { "type": "Game", "id": "g1", "title": "Monday Mini", "clues": 8,
              "gridSize": { "w": 5, "h": 5 } },
            { "type": "Game", "id": "g2", "title": "Tuesday Twister" },
            { "type": "ActiveGame", "id": "a1", "game": { "title": "Co-op Cryptic" },
              "clues": 12, "players": 2 },
            { "type": "CompletedGame", "id": "c1", "game": { "title": "Sunday Giant" },
              "clues": 40, "players": 1, "score": 340 }
        ]"#,
    )
    .unwrap();
    let items: Vec<GameListItem> = raw.as_array().unwrap().iter().filter_map(item).collect();
    assert_eq!(items.len(), 4);
    let fresh: Vec<&UnstartedGame> = items
        .iter()
        .filter_map(|i| match i {
            GameListItem::Game(g) => Some(g),
            _ => None,
        })
        .collect();
    assert_eq!(fresh.len(), 2);
    assert_eq!(fresh[0].grid_size, Some(GridSize { w: 5, h: 5 }));
    assert_eq!(fresh[1].clues, 0); // defaulted
    let actives: Vec<&PlayedGame> = items
        .iter()
        .filter_map(|i| match i {
            GameListItem::ActiveGame(g) => Some(g),
            _ => None,
        })
        .collect();
    assert_eq!(actives.len(), 1);
    assert_eq!(actives[0].title, "Co-op Cryptic");
    assert_eq!(actives[0].players, 2);

    // The Fresh list keeps both unstarted puzzles, in list order (no stamps).
    let rows = fresh_rows(&items, &None);
    assert_eq!(rows.len(), 2);
    assert_eq!(rows[0].id, "g1");
    assert_eq!(rows[0].size, Some((5, 5)));
    assert_eq!(rows[1].status, GameStatus::New);
}

/// game.getDaily response shape; state fields default when absent, and
/// in-progress wins the CTA.
#[test]
fn daily_game_deserializes_with_defaults() {
    let d = daily(
        r#"{ "gameId": "g1", "title": "Saturday Stumper", "clues": 24,
             "alreadyCompleted": true, "activeGameId": "a7" }"#,
    );
    let (badge, _, cta, dest) = daily_cta(&d);
    assert_eq!(badge, Some("IN PROGRESS"));
    assert_eq!(cta, "Continue →");
    assert!(dest == Route::GamePlay { id: "a7".into() });

    let lean = daily(r#"{ "gameId": "g2", "title": "Mini" }"#);
    assert!(!lean.already_completed);
    assert_eq!(lean.active_game_id, None);
    let (badge, _, cta, dest) = daily_cta(&lean);
    assert_eq!(badge, None);
    assert_eq!(cta, "Play →");
    assert!(dest == Route::GameNew { id: "g2".into() });
}

/// getUserStats response shape.
#[test]
fn pulse_stats_deserialize() {
    let v: Value = serde_json::from_str(
        r#"{
            "profile": { "id": "u1", "name": "Olive", "email": null },
            "gamesPlayed": 12,
            "totalScore": 3400,
            "totalCorrect": 300,
            "totalIncorrect": 50,
            "accuracy": 86,
            "globalRank": 3,
            "totalPlayers": 128,
            "recentGames": []
        }"#,
    )
    .unwrap();
    let s = PulseStats {
        games_played: opt_i64(&v, "gamesPlayed").unwrap(),
        total_score: opt_i64(&v, "totalScore").unwrap(),
        accuracy: opt_i64(&v, "accuracy").unwrap(),
        global_rank: opt_i64(&v, "globalRank").unwrap(),
        total_players: opt_i64(&v, "totalPlayers").unwrap(),
    };
    assert_eq!(s.games_played, 12);
    assert_eq!(s.total_score, 3400);
    assert_eq!(s.accuracy, 86);
    assert_eq!(s.global_rank, 3);
    assert_eq!(s.total_players, 128);
    assert_eq!(pulse_view(&Some(Some(Ok(s)))), PulseView::Tiles);
}

#[test]
fn solved_daily_views_its_brief() {
    let d = DailyGame {
        game_id: "g9".to_string(),
        title: "Sunday".to_string(),
        clues: 10,
        already_completed: true,
        active_game_id: None,
    };
    let (badge, _, cta, dest) = daily_cta(&d);
    assert_eq!(badge, Some("SOLVED"));
    assert_eq!(cta, "View →");
    assert!(dest == Route::GameNew { id: "g9".into() });
}

#[test]
fn fresh_rows_drop_the_daily_and_cap_at_three() {
    let mk = |id: &str| {
        GameListItem::Game(UnstartedGame {
            id: id.to_string(),
            title: id.to_uppercase(),
            clues: 1,
            at: None,
            grid_size: None,
        })
    };
    let items = vec![mk("a"), mk("b"), mk("c"), mk("d"), mk("e")];
    let d = DailyGame {
        game_id: "b".to_string(),
        title: "B".to_string(),
        clues: 1,
        already_completed: false,
        active_game_id: None,
    };
    let rows = fresh_rows(&items, &Some(d));
    let ids: Vec<&str> = rows.iter().map(|r| r.id.as_str()).collect();
    assert_eq!(ids, vec!["a", "c", "d"]);
}

#[test]
fn pulse_view_and_surface_follow_the_request_state() {
    assert_eq!(pulse_view(&None), PulseView::Loading);
    assert_eq!(pulse_view(&Some(None)), PulseView::Hidden);
    assert_eq!(pulse_view(&Some(Some(Err("boom".to_string())))), PulseView::Hidden);
    let zero = PulseStats { games_played: 0, total_score: 0, accuracy: 0, global_rank: 0, total_players: 1 };
    assert_eq!(pulse_view(&Some(Some(Ok(zero)))), PulseView::Empty);
    assert_eq!(home_surface(None), HomeSurface::Loading);
    assert_eq!(home_surface(Some(false)), HomeSurface::Guest);
    assert_eq!(home_surface(Some(true)), HomeSurface::Dashboard);
    assert_eq!(greeting_name(None), "friend");
    assert_eq!(greeting_name(Some("Olive".to_string())), "Olive");
}

#[test]
fn pulse_tile_texts() {
    let s = PulseStats { games_played: 12, total_score: 3400, accuracy: 86, global_rank: 3, total_players: 128 };
    let t = pulse_tiles(&s, "128 players");
    assert_eq!(t.rank, "#3");
    assert_eq!(t.rank_note, "of 128 players");
    assert_eq!(t.score, "3400");
    assert_eq!(t.accuracy, "86%");
    assert_eq!(t.played, "12");
}
