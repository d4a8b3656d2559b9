use crossword_web::generator::{
    clipboard_script, form_to_json, game_link, generate_label, job_grid, job_status_style,
    jobs_empty_msg, last_run_line, publish_label, status_chips, GenEffect, GenEvent, GenForm,
    GenParam, GenRun, GeneratorPanel, GridPreset, RunStatus,
};
use serde_json::Value;

fn event(kind: &str) -> GenEvent {
    GenEvent {
        kind: Some(kind.to_string()),
        stage: None,
        current: None,
        total: None,
        message: None,
        game_id: None,
        title: None,
        error: None,
    }
}

#[test]
fn form_defaults_and_json_body() {
    let f = GenForm::default();
    assert_eq!(f.topic, "space exploration and planetary science");
    assert_eq!((f.width, f.height, f.min_word_length, f.max_word_length), (21, 21, 3, 12));
    assert_eq!((f.target_words, f.runs, f.max_attempts), (42, 20, 180));
    let body = form_to_json(&f);
    assert_eq!(
        body,
        r#"{"params":{"height":21,"maxAttempts":180,"maxWordLength":12,"minWordLength":3,"runs":20,"targetWords":42,"topic":"space exploration and planetary science","width":21}}"#
    );
    let v: Value = serde_json::from_str(&body).unwrap();
    assert_eq!(v["params"]["targetWords"].as_i64(), Some(42));
}

#[test]
fn json_body_escapes_the_topic() {
    let mut f = GenForm::default();
    f.topic = "say \"hi\"\\\n\u{1}é".to_string();
    f.width = -5;
    let body = form_to_json(&f);
    assert!(body.contains(r#""topic":"say \"hi\"\\\n\u0001é""#));
    assert!(body.ends_with(r#""width":-5}}"#));
    let v: Value = serde_json::from_str(&body).unwrap();
    assert_eq!(v["params"]["topic"].as_str(), Some(f.topic.as_str()));
}

#[test]
fn numeric_fields_read_back_what_was_typed() {
    let mut f = GenForm::default();
    for (i, p) in GenParam::all().into_iter().enumerate() {
        f.set_param(p, 100 + i as i64);
        assert_eq!(f.param(p), 100 + i as i64);
    }
    assert_eq!(f.topic, "space exploration and planetary science");
    f.input_param(GenParam::Runs, "7");
    assert_eq!(f.runs, 7);
    f.input_param(GenParam::Runs, "seven");
    assert_eq!(f.runs, 7);
    f.input_param(GenParam::Runs, "");
    assert_eq!(f.runs, 7);
    f.input_param(GenParam::Width, "-3");
    assert_eq!(f.width, -3);
    assert_eq!(GenParam::Answers.label(), "Answers");
    assert_eq!(GenParam::Attempts.bounds(), (1, 1000));
    assert_eq!(GenParam::MinLen.bounds(), (2, 50));
}

#[test]
fn presets_set_the_grid_only() {
    let mut f = GenForm::default();
    f.runs = 3;
    f.apply_preset(GridPreset::Mini);
    assert_eq!((f.width, f.height, f.min_word_length, f.max_word_length), (5, 5, 3, 5));
    assert_eq!(f.runs, 3);
    f.apply_preset(GridPreset::Daily);
    assert_eq!((f.width, f.height, f.min_word_length, f.max_word_length), (15, 15, 3, 12));
    assert_eq!(GridPreset::Sunday.label(), "Sunday 21×21");
}

#[test]
fn a_run_goes_from_progress_to_completion() {
    let mut r = GenRun::new();
    assert_eq!(r.status, RunStatus::Idle);
    r.game_title = Some("old".into());
    r.start();
    assert!(r.is_running());
    assert_eq!(r.game_title, None);
    assert_eq!(r.elapsed_secs, 0);

    let mut p = event("progress");
    p.stage = Some("fill".into());
    p.current = Some(3);
    p.message = Some("placing".into());
    assert_eq!(r.on_event(&p), GenEffect { log: false, reload_jobs: false });
    let pr = r.progress.as_ref().unwrap();
    assert_eq!((pr.stage.as_str(), pr.current, pr.total), ("fill", 3, 0));
    assert_eq!(pr.message.as_deref(), Some("placing"));
    assert_eq!(r.status, RunStatus::Running);

    assert!(r.tick());
    assert!(r.tick());
    assert_eq!(r.elapsed_secs, 2);

    assert_eq!(r.on_event(&event("log")), GenEffect { log: true, reload_jobs: false });
    let mut done = event("completed");
    done.game_id = Some("g9".into());
    done.title = Some("Space".into());
    assert_eq!(r.on_event(&done), GenEffect { log: true, reload_jobs: true });
    assert_eq!(r.status, RunStatus::Succeeded);
    assert!(r.progress.is_none());
    assert_eq!(r.game_id.as_deref(), Some("g9"));
    assert_eq!(r.game_title.as_deref(), Some("Space"));
    assert!(!r.tick());
    assert_eq!(r.elapsed_secs, 2);
    assert_eq!(r.status.as_str(), "succeeded");
}

#[test]
fn a_failed_run_reports_its_error() {
    let mut r = GenRun::new();
    r.start();
    assert_eq!(r.on_event(&event("failed")), GenEffect { log: true, reload_jobs: false });
    assert_eq!(r.status, RunStatus::Failed);
    assert_eq!(r.error, "unknown error");
    r.start();
    let mut f = event("failed");
    f.error = Some("no fit".into());
    r.on_event(&f);
    assert_eq!(r.error, "no fit");
    let mut none = event("x");
    none.kind = None;
    assert_eq!(r.on_event(&none), GenEffect { log: true, reload_jobs: false });
    assert_eq!(r.status, RunStatus::Failed);
}

#[test]
fn publishing_marks_the_game_or_keeps_the_error() {
    let mut r = GenRun::new();
    r.begin_publish();
    assert!(r.publishing);
    assert!(!r.finish_publish(Err("denied".into())));
    assert!(!r.publishing);
    assert!(!r.published);
    assert_eq!(r.publish_error, "denied");
    r.begin_publish();
    assert_eq!(r.publish_error, "");
    assert!(r.finish_publish(Ok(())));
    assert!(r.published);
    assert_eq!(publish_label(true), "Publishing…");
    assert_eq!(generate_label(true), "Generating…");
    assert_eq!(generate_label(false), "Generate");
}

#[test]
fn run_panel_texts() {
    assert_eq!(last_run_line("SUCCEEDED", "Sea", "3h ago"), "Last: SUCCEEDED · \"Sea\" · 3h ago");
    let url = game_link("https://x.io", "g1");
    assert_eq!(url, "https://x.io/game/g1/new");
    assert_eq!(clipboard_script(&url), "navigator.clipboard && navigator.clipboard.writeText(\"https://x.io/game/g1/new\")");
    assert_eq!(clipboard_script("a\"b"), "navigator.clipboard && navigator.clipboard.writeText(\"a\\\"b\")");
    assert_eq!(GeneratorPanel::Progress.title(), "Run");
}

#[test]
fn jobs_table_texts() {
    assert_eq!(job_grid(15, 21), "15x21");
    assert_eq!(job_status_style("FAILED"), "background:var(--color-error);color:var(--contrast-ink)");
    assert_eq!(job_status_style("RUNNING"), "background:var(--pastel-yellow);color:var(--contrast-ink)");
    assert_eq!(jobs_empty_msg(true, 0, 0), Some("Loading generation jobs…"));
    assert_eq!(jobs_empty_msg(false, 0, 0), Some("No generation jobs found."));
    assert_eq!(jobs_empty_msg(true, 4, 0), Some("No jobs match the current filters."));
    assert_eq!(jobs_empty_msg(false, 4, 2), None);
    let chips = status_chips();
    assert_eq!(chips[0], ("All", ""));
    assert_eq!(chips[3], ("Running", "RUNNING"));
}
