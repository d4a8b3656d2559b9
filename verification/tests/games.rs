use crossword_web::game_list::{progress_pct, GameStatus};
use crossword_web::games::{
    featured_of, games_url, library_rows, parse_invite, played_match, progress_tiles, project,
    sort_rows, Filter, GameListItem, GridSize, PlayedGame, Sort, UnstartedGame,
};
use crossword_web::query::query_value;
use serde_json::Value;

fn opt_i64(v: &Value, key: &str) -> Option<i64> {
    v.get(key).and_then(Value::as_i64)
}

fn grid(v: &Value) -> Option<GridSize> {
    let g = v.get("gridSize")?;
    Some(GridSize { w: g.get("w")?.as_i64()?, h: g.get("h")?.as_i64()? })
}

/// Builds list items from the server's JSON the way the wire types decode
/// it: the `type` tag picks the variant, counts default to zero, optional
/// fields to absent.
fn items(text: &str) -> Vec<GameListItem> {
    let raw: Value = serde_json::from_str(text).unwrap();
    raw.as_array()
        .unwrap()
        .iter()
        .map(|v| {
            let id = v["id"].as_str().unwrap().to_string();
            match v["type"].as_str().unwrap() {
                "Game" => GameListItem::Game(UnstartedGame {
                    id,
                    title: v["title"].as_str().unwrap().to_string(),
                    clues: opt_i64(v, "clues").unwrap_or(0),
                    at: None,
                    grid_size: grid(v),
                }),
                kind => {
                    let p = PlayedGame {
                        id,
                        title: v["game"]["title"].as_str().unwrap().to_string(),
                        clues: opt_i64(v, "clues").unwrap_or(0),
                        players: opt_i64(v, "players").unwrap_or(0),
                        at: None,
                        score: opt_i64(v, "score").map(|s| s as i32),
                        game_id: v.get("gameId").and_then(Value::as_str).map(String::from),
                        grid_size: grid(v),
                        filled_count: opt_i64(v, "filledCount"),
                        correct_count: opt_i64(v, "correctCount"),
                        total_cells: opt_i64(v, "totalCells"),
                    };
                    if kind == "ActiveGame" {
                        GameListItem::ActiveGame(p)
                    } else {
                        GameListItem::CompletedGame(p)
                    }
                }
            }
        })
        .collect()
}

/// Old-server shape: none of the new fields present.
fn old_fixture() -> Vec<GameListItem> {
    items(
        r#"[
            { "type": "Game", "id": "g1", "title": "Monday Mini", "clues": 1 },
            { "type": "ActiveGame", "id": "a1", "game": { "title": "Co-op Cryptic" }, "clues": 12, "players": 2 },
            { "type": "CompletedGame", "id": "c1", "game": { "title": "Sunday Giant" }, "clues": 40, "players": 1, "score": 340 }
        ]"#,
    )
}

/// New-server shape: gameId / gridSize / fill counts present.
fn new_fixture() -> Vec<GameListItem> {
    items(
        r#"[
            { "type": "Game", "id": "g1", "title": "Monday Mini", "clues": 8,
              "gridSize": { "w": 5, "h": 5 } },
            { "type": "Game", "id": "g2", "title": "Tuesday Twister", "clues": 20 },
            { "type": "ActiveGame", "id": "a1", "gameId": "g2",
              "game": { "title": "Tuesday Twister" }, "clues": 20, "players": 2,
              "gridSize": { "w": 15, "h": 15 }, "filledCount": 45, "correctCount": 40,
              "totalCells": 225 },
            { "type": "CompletedGame", "id": "c1", "gameId": "g1",
              "game": { "title": "Monday Mini" }, "clues": 8, "players": 1, "score": 340 }
        ]"#,
    )
}

#[test]
fn old_server_rows_still_deserialize_and_project() {
    let rows = project(&old_fixture());
    assert_eq!(rows.len(), 3);
    for p in &rows {
        assert_eq!(p.row.size, None);
        assert_eq!(p.row.progress, None);
    }
    assert_eq!(rows[0].row.status, GameStatus::New);
    assert_eq!(rows[1].row.status, GameStatus::Active);
    assert_eq!(rows[2].row.status, GameStatus::Solved);
    assert_eq!(rows[2].row.score, Some(340));
}

#[test]
fn new_fields_flow_into_rows_when_present() {
    let rows = project(&new_fixture());
    assert_eq!(rows[0].row.size, Some((5, 5)));
    assert_eq!(rows[1].row.size, None);
    assert_eq!(rows[2].row.progress, Some((45, 225)));
    assert_eq!(rows[3].row.progress, None); // solved rows never carry a bar
}

#[test]
fn filter_admits_by_status_and_query_roundtrips() {
    assert!(Filter::All.admits(GameStatus::Solved));
    assert!(Filter::New.admits(GameStatus::New));
    assert!(!Filter::New.admits(GameStatus::Active));
    assert!(Filter::Active.admits(GameStatus::Active));
    assert!(Filter::Solved.admits(GameStatus::Solved));
    for f in Filter::TABS {
        assert_eq!(Filter::from_query(f.query().unwrap_or("")), f);
    }
}

#[test]
fn sorts_by_players_and_score_with_stable_ties() {
    let mut rows = project(&new_fixture());
    sort_rows(&mut rows, Sort::Players);
    assert_eq!(rows[0].row.id, "a1"); // 2 players first
    sort_rows(&mut rows, Sort::Score);
    assert_eq!(rows[0].row.id, "c1"); // only scored row first
}

#[test]
fn featured_is_first_unstarted_and_matches_played_rows() {
    let items = new_fixture();
    // No timestamps → first Game in server order.
    let g = featured_of(&items).unwrap();
    assert_eq!(g.id, "g1");
    // g1 was completed (c1 back-references it), g2 is active (a1).
    let (active, completed) = played_match(&items, "g1");
    assert!(active.is_none());
    assert_eq!(completed.unwrap().id, "c1");
    let (active, completed) = played_match(&items, "g2");
    assert_eq!(active.unwrap().id, "a1");
    assert!(completed.is_none());
}

#[test]
fn parse_invite_extracts_the_id_or_rejects() {
    assert_eq!(
        parse_invite("https://example.com/game/abc-123?x=1"),
        Some("abc-123".to_string())
    );
    assert_eq!(parse_invite("/game/uuid_9"), Some("uuid_9".to_string()));
    assert_eq!(parse_invite("not a link"), None);
    assert_eq!(parse_invite("/game/"), None);
}

#[test]
fn progress_pct_gates_on_real_counts() {
    assert_eq!(progress_pct(Some(45), Some(225)), Some(20));
    assert_eq!(progress_pct(Some(300), Some(225)), Some(100)); // clamped
    assert_eq!(progress_pct(Some(45), None), None);
    assert_eq!(progress_pct(None, Some(225)), None);
    assert_eq!(progress_pct(Some(1), Some(0)), None);
}

#[test]
fn progress_pct_is_zero_for_nothing_filled() {
    assert_eq!(progress_pct(Some(0), Some(225)), Some(0));
    assert_eq!(progress_pct(Some(-3), Some(10)), Some(0));
    assert_eq!(progress_pct(Some(1), Some(3)), Some(33));
}

#[test]
fn sort_value_and_filter_query_roundtrip() {
    for s in [Sort::Newest, Sort::Oldest, Sort::Players, Sort::Score] {
        assert_eq!(Sort::from_value(s.value()), s);
    }
    assert_eq!(Sort::from_value("bogus"), Sort::Newest);
    assert_eq!(Filter::from_query("bogus"), Filter::All);
}

#[test]
fn sorting_twice_by_the_same_key_keeps_the_order() {
    let mut rows = project(&new_fixture());
    sort_rows(&mut rows, Sort::Players);
    let once: Vec<String> = rows.iter().map(|p| p.row.id.clone()).collect();
    sort_rows(&mut rows, Sort::Players);
    let twice: Vec<String> = rows.iter().map(|p| p.row.id.clone()).collect();
    assert_eq!(once, twice);
    // players descending; the two unstarted rows tie and keep server order
    assert_eq!(once, vec!["a1", "c1", "g1", "g2"]);
}

#[test]
fn library_rows_filter_search_and_sort() {
    let items = new_fixture();
    let rows = library_rows(&items, Filter::New, "  twister ", Sort::Newest);
    assert_eq!(rows.len(), 1);
    assert_eq!(rows[0].id, "g2");
    let all = library_rows(&items, Filter::All, "", Sort::Score);
    assert_eq!(all[0].id, "c1");
    assert_eq!(all.len(), 4);
}

#[test]
fn progress_tiles_partition_the_library() {
    let t = progress_tiles(&new_fixture());
    assert_eq!(t.solved, 1);
    assert_eq!(t.in_progress, 1);
    assert_eq!(t.available, 2);
    assert_eq!(t.total, 4);
    assert_eq!(t.pct, 25);
    assert_eq!(t.solved + t.in_progress + t.available, t.total);
}

#[test]
fn games_url_reflects_filter_and_query() {
    assert_eq!(games_url(Filter::All, ""), "/games");
    assert_eq!(games_url(Filter::Active, ""), "/games?f=active");
    assert_eq!(games_url(Filter::Solved, "nasa"), "/games?f=solved&q=nasa");
    assert_eq!(games_url(Filter::All, "a%20b"), "/games?q=a%20b");
}

#[test]
fn the_library_address_reads_back() {
    for f in Filter::TABS {
        for q in ["", "nasa%20moon"] {
            let url = games_url(f, q);
            assert!(url.starts_with("/games"));
            let search = &url[6..];
            assert_eq!(query_value(search, "f").as_deref(), f.query());
            assert_eq!(query_value(search, "q").as_deref(), if q.is_empty() { None } else { Some(q) });
        }
    }
}

#[test]
fn unscored_rows_sort_below_negative_scores() {
    let items = items(
        r#"[
            { "type": "Game", "id": "g1", "title": "A" },
            { "type": "CompletedGame", "id": "c1", "game": { "title": "B" }, "score": -10 }
        ]"#,
    );
    let mut rows = project(&items);
    sort_rows(&mut rows, Sort::Score);
    assert_eq!(rows[0].row.id, "c1");
    assert_eq!(rows[1].row.id, "g1");
}
