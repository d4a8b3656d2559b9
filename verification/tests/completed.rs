use crossword_web::completed::{
    rematch_reply, up_next_line, accuracy, display_name, is_me, my_result, rank_name, share_text, solve_precision, solve_time,
    standings_order, MemberScore, MyResult, Panel,
};
use crossword_web::game_new::{
    coop_reply, estimate_text, estimate_tile, grid_text, grid_tile, invite_url, start_reply, est_minutes, invite_state, silhouette_cells, silhouette_fits, start_action, Panel as NewPanel, SilhouetteQ,
    StartAction,
};
use crossword_web::route::Route;

fn member(id: &str, score: i64, c: i64, i: i64, name: Option<&str>, email: Option<&str>) -> MemberScore {
    MemberScore {
        id: id.to_string(),
        score,
        correct_guesses: c,
        incorrect_guesses: i,
        is_owner: false,
        name: name.map(String::from),
        email: email.map(String::from),
    }
}

#[test]
fn standings_are_by_score_with_server_order_for_ties() {
    let ms = vec![
        member("a", 10, 1, 0, None, None),
        member("b", 30, 3, 1, None, None),
        member("c", 10, 1, 1, None, None),
        member("d", 40, 4, 0, None, None),
    ];
    assert_eq!(standings_order(&ms), vec![3, 1, 0, 2]);
    assert_eq!(rank_name(0), "1ST PLACE");
    assert_eq!(rank_name(2), "3RD PLACE");
    assert_eq!(rank_name(7), "...");
}

#[test]
fn accuracy_and_precision_round_toward_zero() {
    assert_eq!(accuracy(2, 1), 66);
    assert_eq!(accuracy(0, 0), 0);
    assert_eq!(accuracy(5, 0), 100);
    let ms = vec![member("a", 0, 2, 1, None, None), member("b", 0, 1, 2, None, None)];
    assert_eq!(solve_precision(&ms), 50);
    assert_eq!(solve_precision(&vec![]), 0);
}

#[test]
fn solve_time_needs_a_positive_span() {
    assert_eq!(solve_time(Some(0), Some(65_000)), Some("1:05".to_string()));
    assert_eq!(solve_time(Some(0), Some(3_725_999)), Some("62:05".to_string()));
    assert_eq!(solve_time(Some(0), Some(999)), None);
    assert_eq!(solve_time(Some(5_000), Some(0)), None);
    assert_eq!(solve_time(None, Some(65_000)), None);
}

#[test]
fn the_viewer_finds_their_line() {
    let a = member("a", 40, 4, 0, Some("Ann"), Some("ann@x.io"));
    let b = member("b", 30, 3, 1, None, Some("bob@x.io"));
    let c = member("c", 10, 1, 1, None, None);
    let standings = vec![&a, &b, &c];
    assert_eq!(
        my_result(&standings, Some("bob@x.io"), Some(0), Some(125_000)),
        Some(MyResult { place: 2, score: 30, accuracy: 75, time: Some("2:05".to_string()) })
    );
    assert_eq!(my_result(&standings, Some("zed@x.io"), None, None), None);
    assert_eq!(my_result(&standings, None, None, None), None);
    assert!(is_me(Some("ann@x.io"), &a));
    assert!(!is_me(None, &a));
    assert!(!is_me(Some("ann@x.io"), &c));
    assert_eq!(display_name(&a), "Ann");
    assert_eq!(display_name(&b), "bob@x.io");
    assert_eq!(display_name(&c), "Anonymous");
    assert_eq!(
        share_text("Monday Mini", 340, 86),
        "Solved \"Monday Mini\" — 340 pts, 86% · definitely-not-crosswords"
    );
    assert_eq!(Panel::Rankings.title(), "Rankings");
}

fn q(x: i32, y: i32, dir: &str, len: i32) -> SilhouetteQ {
    SilhouetteQ { root_x: x, root_y: y, direction: dir.to_string(), len }
}

#[test]
fn silhouette_covers_each_cell_once_in_order() {
    let (w, h, cells) = silhouette_cells(&vec![q(0, 0, "ACROSS", 3), q(0, 0, "DOWN", 2), q(2, 0, "down", 2)]);
    assert_eq!((w, h), (3, 2));
    assert_eq!(cells, vec![(0, 0), (0, 1), (1, 0), (2, 0), (2, 1)]);
    let (w, h, cells) = silhouette_cells(&vec![]);
    assert_eq!((w, h), (0, 0));
    assert!(cells.is_empty());
    // cells at negative coordinates are not drawn
    let (w, h, cells) = silhouette_cells(&vec![q(-1, 0, "ACROSS", 2)]);
    assert_eq!((w, h), (1, 1));
    assert_eq!(cells, vec![(0, 0)]);
}

#[test]
fn start_button_and_invite_row() {
    assert_eq!(est_minutes(10), 15);
    assert_eq!(est_minutes(1), 2);
    assert_eq!(est_minutes(0), 0);
    let (a, label) = start_action(&Some("a1".into()), &Some("c1".into()));
    assert_eq!(a, StartAction::Resume(Route::GamePlay { id: "a1".into() }));
    assert_eq!(label, "Continue Game");
    let (a, label) = start_action(&None, &Some("c1".into()));
    assert_eq!(a, StartAction::Review(Route::GameCompleted { id: "c1".into() }));
    assert_eq!(label, "Review Completed Game");
    assert_eq!(start_action(&None, &None), (StartAction::StartFresh, "Start Game"));
    assert_eq!(invite_state(&Some("k".into()), &Some("a".into()), &None), (Some("k".to_string()), false));
    assert_eq!(invite_state(&None, &Some("a".into()), &None), (Some("a".to_string()), false));
    assert_eq!(invite_state(&None, &None, &None), (None, true));
    assert_eq!(invite_state(&None, &None, &Some("c".into())), (None, false));
    assert_eq!(NewPanel::Start.title(), "Start");
}

#[test]
fn silhouette_fit_check() {
    assert!(silhouette_fits(&vec![q(0, 0, "ACROSS", 3), q(5, 5, "DOWN", 0)]));
    assert!(silhouette_fits(&vec![q(i32::MAX - 3, 0, "ACROSS", 3)]));
    assert!(!silhouette_fits(&vec![q(i32::MAX - 2, 0, "ACROSS", 3)]));
    assert!(!silhouette_fits(&vec![q(0, i32::MAX, "DOWN", 2)]));
    assert!(silhouette_fits(&vec![q(-10, i32::MAX, "ACROSS", 3)]));
}

#[test]
fn rematch_and_up_next() {
    assert_eq!(rematch_reply(Ok(Some("a9".to_string()))), Ok(Route::GamePlay { id: "a9".into() }));
    assert_eq!(rematch_reply(Ok(None)), Err("Unexpected response from server.".to_string()));
    assert_eq!(rematch_reply(Err(r#"{"message":"Not a member"}"#.to_string())), Err("Not a member".to_string()));
    assert_eq!(rematch_reply(Err("offline".to_string())), Err("offline".to_string()));
    assert_eq!(up_next_line("Monday Mini", 8), "Monday Mini · 8 clues");
}

#[test]
fn start_and_invite_replies() {
    assert_eq!(start_reply(Ok(Some("a1".to_string()))), Ok(Route::GamePlay { id: "a1".into() }));
    assert_eq!(start_reply(Ok(None)), Err("Unexpected response from server.".to_string()));
    assert_eq!(start_reply(Err(r#"{"message":"x"}"#.to_string())), Err(r#"{"message":"x"}"#.to_string()));
    assert_eq!(coop_reply(Ok(Some("c2".to_string()))), Ok("c2".to_string()));
    assert_eq!(coop_reply(Err(r#"{"message":"Sign in first"}"#.to_string())), Err("Sign in first".to_string()));
    assert_eq!(invite_url("https://x.io", "c2"), "https://x.io/game/c2");
    assert_eq!(grid_text(15, 15), "15×15");
    assert_eq!(estimate_text(15), "~15 min");
}

#[test]
fn grid_and_estimate_tiles_show_only_with_content() {
    assert_eq!(grid_tile(15, 13), Some("15×13".to_string()));
    assert_eq!(grid_tile(0, 13), None);
    assert_eq!(grid_tile(15, 0), None);
    assert_eq!(estimate_tile(10), Some("~15 min".to_string()));
    assert_eq!(estimate_tile(1), Some("~2 min".to_string()));
    assert_eq!(estimate_tile(0), None);
    assert_eq!(estimate_tile(-3), None);
}
