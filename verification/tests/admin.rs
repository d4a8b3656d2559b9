use crossword_web::admin::{
    activity_feed, can_load_more, discount_draft, discount_kpis, discounts_tile, expires_at_input,
    filter_jobs, filter_users, format_duration, format_expiry, games_tile, job_game_cell, job_kpi,
    jobs_tile, new_user_input, redemptions_text, restore_key, set_password_check, user_kpis,
    user_tiles, verified_badge, AdminPanel, AdminUser, Discount, DiscountsPanel, FeedKind, JobRow,
    ResultGame, UsersPanel, source_open, starts_minimized, FetchGate, Source, games_played_total,
};

fn user(id: &str, name: Option<&str>, email: Option<&str>, role: &str, vip: bool, verified: bool, ms: Option<i64>) -> AdminUser {
    AdminUser {
        id: id.to_string(),
        email: email.map(String::from),
        username: None,
        name: name.map(String::from),
        role: role.to_string(),
        vip_pass: vip,
        email_verified: verified,
        created_ms: ms,
    }
}

fn job(id: &str, status: &str, topic: &str, ms: Option<i64>) -> JobRow {
    JobRow {
        id: id.to_string(),
        status: status.to_string(),
        topic: topic.to_string(),
        width: 15,
        height: 15,
        created_ms: ms,
        result_game: None,
    }
}

fn users() -> Vec<AdminUser> {
    vec![
        user("1", Some("Ann Admin"), Some("ann@x.io"), "ADMIN", true, true, Some(3_000)),
        user("2", None, Some("bob@x.io"), "USER", false, false, Some(1_000)),
        user("3", None, None, "USER", true, true, None),
        user("4", Some("Dee"), None, "ADMIN", false, false, Some(2_000)),
    ]
}

const DAY: i64 = 86_400_000;

#[test]
fn user_filters_combine() {
    let us = users();
    let ids = |v: Vec<&AdminUser>| v.iter().map(|u| u.id.clone()).collect::<Vec<_>>();
    assert_eq!(ids(filter_users(&us, "  ANN ", None, None, false)), vec!["1"]);
    assert_eq!(ids(filter_users(&us, "", Some("ADMIN"), None, false)), vec!["1", "4"]);
    assert_eq!(ids(filter_users(&us, "", None, Some(false), false)), vec!["2", "4"]);
    assert_eq!(ids(filter_users(&us, "", None, None, true)), vec!["1", "3"]);
    assert_eq!(ids(filter_users(&us, "x.io", Some("USER"), None, false)), vec!["2"]);
}

#[test]
fn overview_counters() {
    assert_eq!(user_kpis(&users()), (4, 2, 2, 2));
    let now = 10 * DAY;
    let jobs = vec![
        job("a", "SUCCEEDED", "space", Some(now - 1_000)),
        job("b", "FAILED", "sea", Some(now - DAY)),
        job("c", "FAILED", "sky", Some(now - DAY - 1)),
        job("d", "RUNNING", "sun", Some(now)),
        job("e", "SUCCEEDED", "moon", None),
    ];
    assert_eq!(job_kpi(&jobs, now), (1, 1));
    let ds = vec![
        Discount { id: "a".into(), code: "A".into(), name: String::new(), amount_type: "PERCENT".into(), amount: 10, duration: "ONCE".into(), duration_in_months: None, max_redemptions: None, times_redeemed: 3, expires_at: None, is_active: true, test_mode: false },
        Discount { id: "b".into(), code: "B".into(), name: String::new(), amount_type: "FIXED".into(), amount: 500, duration: "FOREVER".into(), duration_in_months: None, max_redemptions: Some(5), times_redeemed: 4, expires_at: None, is_active: false, test_mode: false },
    ];
    assert_eq!(discount_kpis(&ds), (1, 7));
    assert!(can_load_more(25, 25));
    assert!(!can_load_more(24, 25));
}

#[test]
fn overview_tiles_show_loading_errors_and_figures() {
    let (t, v, a, p) = user_tiles(&Some(Ok(users())));
    assert_eq!(t, Some(Ok(("4".to_string(), None))));
    assert_eq!(v, Some(Ok(("2".to_string(), Some("of 4".to_string())))));
    assert_eq!(a, Some(Ok(("2".to_string(), None))));
    assert_eq!(p, Some(Ok(("2".to_string(), None))));
    let (t, _, _, p) = user_tiles(&Some(Err("down".to_string())));
    assert_eq!(t, Some(Err("down".to_string())));
    assert_eq!(p, Some(Err("down".to_string())));
    assert_eq!(user_tiles(&None).0, None);

    let now = 10 * DAY;
    let jobs = vec![job("a", "SUCCEEDED", "space", Some(now)), job("b", "FAILED", "sea", Some(now))];
    assert_eq!(jobs_tile(&jobs, &String::new(), true, now), Some(Ok(("1/1".to_string(), Some("ok / failed".to_string())))));
    assert_eq!(jobs_tile(&vec![], &String::new(), true, now), None);
    assert_eq!(jobs_tile(&jobs, &"boom".to_string(), false, now), Some(Err("boom".to_string())));

    let ds = vec![Discount { id: "a".into(), code: "A".into(), name: String::new(), amount_type: "PERCENT".into(), amount: 10, duration: "ONCE".into(), duration_in_months: None, max_redemptions: None, times_redeemed: 12, expires_at: None, is_active: true, test_mode: false }];
    assert_eq!(discounts_tile(&ds, &String::new(), false), Some(Ok(("1".to_string(), Some("12 redemptions".to_string())))));
    assert_eq!(discounts_tile(&vec![], &String::new(), true), None);
    assert_eq!(games_tile(&Some(Ok(42))), Some(Ok(("42".to_string(), Some("all players".to_string())))));
    assert_eq!(games_tile(&Some(Err("x".to_string()))), Some(Err("x".to_string())));
    assert_eq!(games_tile(&None), None);
}

#[test]
fn jobs_filter_by_topic_and_status() {
    let jobs = vec![job("a", "SUCCEEDED", "Space Race", None), job("b", "FAILED", "space dust", None), job("c", "FAILED", "Ocean", None)];
    let ids = |v: Vec<&JobRow>| v.iter().map(|j| j.id.clone()).collect::<Vec<_>>();
    assert_eq!(ids(filter_jobs(&jobs, "SPACE", "")), vec!["a", "b"]);
    assert_eq!(ids(filter_jobs(&jobs, "", "FAILED")), vec!["b", "c"]);
    assert_eq!(ids(filter_jobs(&jobs, "space", "FAILED")), vec!["b"]);
}

#[test]
fn activity_feed_is_newest_first() {
    let now = 10 * DAY;
    let jobs = vec![job("a", "SUCCEEDED", "space", Some(2_500)), job("b", "FAILED", "sea", None)];
    let feed = activity_feed(&jobs, &users());
    let stamps: Vec<i64> = feed.iter().map(|f| f.ts).collect();
    assert_eq!(stamps, vec![3_000, 2_500, 2_000, 1_000, 0]);
    assert_eq!(feed[0].kind, FeedKind::User { display: "Ann Admin".into(), email: "ann@x.io".into() });
    assert_eq!(feed[3].kind, FeedKind::User { display: "bob@x.io".into(), email: "bob@x.io".into() });
    assert_eq!(feed[4].kind, FeedKind::Job { status: "FAILED".into(), topic: "sea".into() });
    let _ = now;
}

#[test]
fn discount_form_draft() {
    let d = discount_draft("  spring24 ", " Spring ", "PERCENT", "REPEATING", "3", "0", "2024-06-01", true);
    assert_eq!(d.code, "SPRING24");
    assert_eq!(d.name, "Spring");
    assert_eq!(d.duration_in_months, Some(3));
    assert_eq!(d.max_redemptions, None);
    assert_eq!(d.expires_at.as_deref(), Some("2024-06-01T00:00:00.000Z"));
    assert!(d.test_mode);
    let once = discount_draft("x", "", "FIXED", "ONCE", "3", "+12", "  ", false);
    assert_eq!(once.duration_in_months, None);
    assert_eq!(once.max_redemptions, Some(12));
    assert_eq!(once.expires_at, None);
    assert_eq!(discount_draft("x", "", "FIXED", "ONCE", "", "-4", "", false).max_redemptions, None);
    assert_eq!(discount_draft("x", "", "FIXED", "ONCE", "", "99999999999999999999", "", false).max_redemptions, None);
    assert_eq!(expires_at_input(" 2025-01-02 "), Some("2025-01-02T00:00:00.000Z".to_string()));
}

#[test]
fn discount_columns() {
    assert_eq!(format_duration("ONCE"), "Once");
    assert_eq!(format_duration("FOREVER"), "Forever");
    assert_eq!(format_duration("REPEATING"), "Repeating");
    assert_eq!(format_expiry(&None), "—");
    assert_eq!(format_expiry(&Some("2024-06-01T00:00:00.000Z".to_string())), "2024-06-01");
    assert_eq!(redemptions_text(3, Some(10)), "3 / 10");
    assert_eq!(redemptions_text(3, None), "3 / ∞");
}

#[test]
fn user_forms_and_badges() {
    assert_eq!(new_user_input("   ", "Ann"), None);
    assert_eq!(new_user_input(" a@b.c ", "  "), Some(("a@b.c".to_string(), None)));
    assert_eq!(new_user_input("a@b.c", " Ann "), Some(("a@b.c".to_string(), Some("Ann".to_string()))));
    assert_eq!(set_password_check("short", "short"), Err("Password must be at least 8 characters."));
    assert_eq!(set_password_check("longenough", "different"), Err("Passwords do not match."));
    assert_eq!(set_password_check("longenough", "longenough"), Ok(()));
    assert_eq!(verified_badge(true).1, "Verified");
    assert_eq!(verified_badge(false).1, "Pending");
    assert!(verified_badge(false).0.contains("var(--border-app)"));
}

#[test]
fn panels_and_shortcuts() {
    assert_eq!(restore_key("1"), Some(AdminPanel::Overview));
    assert_eq!(restore_key("2"), Some(AdminPanel::Parameters));
    assert_eq!(restore_key("3"), Some(AdminPanel::Users));
    assert_eq!(restore_key("4"), Some(AdminPanel::Discounts));
    assert_eq!(restore_key("5"), None);
    assert_eq!(AdminPanel::AddUser.title(), "Add User");
    assert_eq!(UsersPanel::Users.title(), "Users");
    assert_eq!(DiscountsPanel::Create.title(), "Create");
}

#[test]
fn job_game_column() {
    let mut j = job("a", "SUCCEEDED", "space", None);
    assert_eq!(job_game_cell(&j), None);
    j.result_game = Some(ResultGame { id: "g1".into(), title: "Space".into(), published: false });
    assert_eq!(job_game_cell(&j), Some(("Space".to_string(), "draft")));
    j.result_game = Some(ResultGame { id: "g1".into(), title: "Space".into(), published: true });
    assert_eq!(job_game_cell(&j), Some(("Space".to_string(), "published")));
}

#[test]
fn overview_fetches_follow_open_panels() {
    assert!(starts_minimized(AdminPanel::Parameters));
    assert!(starts_minimized(AdminPanel::Create));
    assert!(!starts_minimized(AdminPanel::Overview));
    let panels = vec![(AdminPanel::Overview, true), (AdminPanel::Jobs, false), (AdminPanel::AddUser, true)];
    assert!(source_open(Source::Jobs, &panels));
    assert!(!source_open(Source::Users, &panels));
    assert!(!source_open(Source::Games, &panels));
    let mut g = FetchGate::new();
    assert!(g.step(true, 25));
    assert!(!g.step(true, 25));
    assert!(g.step(true, 50));
    assert!(!g.step(false, 50));
    assert!(g.step(true, 50));
}

#[test]
fn games_played_sums_the_rows() {
    assert_eq!(games_played_total(&vec![]), Some(0));
    assert_eq!(games_played_total(&vec![3, 0, 9]), Some(12));
    assert_eq!(games_played_total(&vec![i64::MAX, -1]), Some(i64::MAX - 1));
    assert_eq!(games_played_total(&vec![i64::MAX, 1, -1]), None);
    assert_eq!(games_played_total(&vec![i64::MAX - 1, 1]), Some(i64::MAX));
}
