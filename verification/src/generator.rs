//! The puzzle generator: its parameter form and the JSON body it sends, the
//! state of a run as the server's events arrive, and the texts around it.

use vstd::prelude::*;
use crate::text::{dec, json_quote, json_quoted, parse_i64, parse_i64_spec, push_dec, same_str};

verus! {

/// Parameters of a generation run.
#[derive(Debug, PartialEq, Eq)]
pub struct GenForm {
    pub topic: String,
    pub width: i64,
    pub height: i64,
    pub min_word_length: i64,
    pub max_word_length: i64,
    pub target_words: i64,
    pub runs: i64,
    pub max_attempts: i64,
}

impl Default for GenForm {
    /// The form's starting values: a 21×21 grid about space exploration.
    fn default() -> (r: Self)
        ensures
            r.topic@ == "space exploration and planetary science"@,
            r.width == 21 && r.height == 21,
            r.min_word_length == 3 && r.max_word_length == 12,
            r.target_words == 42 && r.runs == 20 && r.max_attempts == 180,
    {
        GenForm {
            topic: String::from_str("space exploration and planetary science"),
            width: 21,
            height: 21,
            min_word_length: 3,
            max_word_length: 12,
            target_words: 42,
            runs: 20,
            max_attempts: 180,
        }
    }
}

/// The numeric fields of the form, in the order the grid shows them.
#[derive(Debug, Clone, Copy, PartialEq, Eq, Structural)]
pub enum GenParam {
    Width,
    Height,
    MinLen,
    MaxLen,
    Answers,
    Runs,
    Attempts,
}

/// The value of a numeric field.
pub open spec fn param_of(f: GenForm, p: GenParam) -> i64 {
    match p {
        GenParam::Width => f.width,
        GenParam::Height => f.height,
        GenParam::MinLen => f.min_word_length,
        GenParam::MaxLen => f.max_word_length,
        GenParam::Answers => f.target_words,
        GenParam::Runs => f.runs,
        GenParam::Attempts => f.max_attempts,
    }
}

/// The form with one numeric field replaced.
pub open spec fn with_param(f: GenForm, p: GenParam, n: i64) -> GenForm {
    match p {
        GenParam::Width => GenForm { width: n, ..f },
        GenParam::Height => GenForm { height: n, ..f },
        GenParam::MinLen => GenForm { min_word_length: n, ..f },
        GenParam::MaxLen => GenForm { max_word_length: n, ..f },
        GenParam::Answers => GenForm { target_words: n, ..f },
        GenParam::Runs => GenForm { runs: n, ..f },
        GenParam::Attempts => GenForm { max_attempts: n, ..f },
    }
}

impl GenParam {
    /// All fields, in grid order.
    pub fn all() -> (r: Vec<GenParam>)
        ensures
            r@ == seq![
                GenParam::Width,
                GenParam::Height,
                GenParam::MinLen,
                GenParam::MaxLen,
                GenParam::Answers,
                GenParam::Runs,
                GenParam::Attempts,
            ],
    {
        vec![
            GenParam::Width,
            GenParam::Height,
            GenParam::MinLen,
            GenParam::MaxLen,
            GenParam::Answers,
            GenParam::Runs,
            GenParam::Attempts,
        ]
    }

    /// The field's caption.
    pub fn label(self) -> (r: &'static str)
        ensures
            r@ == match self {
                GenParam::Width => "Width"@,
                GenParam::Height => "Height"@,
                GenParam::MinLen => "Min Len"@,
                GenParam::MaxLen => "Max Len"@,
                GenParam::Answers => "Answers"@,
                GenParam::Runs => "Runs"@,
                GenParam::Attempts => "Attempts"@,
            },
    {
        match self {
            GenParam::Width => "Width",
            GenParam::Height => "Height",
            GenParam::MinLen => "Min Len",
            GenParam::MaxLen => "Max Len",
            GenParam::Answers => "Answers",
            GenParam::Runs => "Runs",
            GenParam::Attempts => "Attempts",
        }
    }

    /// The input's `min` and `max` hints.
    pub fn bounds(self) -> (r: (i64, i64))
        ensures
            r == match self {
                GenParam::Width => (3i64, 50i64),
                GenParam::Height => (3i64, 50i64),
                GenParam::MinLen => (2i64, 50i64),
                GenParam::MaxLen => (2i64, 50i64),
                GenParam::Answers => (1i64, 250i64),
                GenParam::Runs => (1i64, 100i64),
                GenParam::Attempts => (1i64, 1000i64),
            },
    {
        match self {
            GenParam::Width => (3, 50),
            GenParam::Height => (3, 50),
            GenParam::MinLen => (2, 50),
            GenParam::MaxLen => (2, 50),
            GenParam::Answers => (1, 250),
            GenParam::Runs => (1, 100),
            GenParam::Attempts => (1, 1000),
        }
    }
}

/// The grid presets offered above the numeric fields.
#[derive(Debug, Clone, Copy, PartialEq, Eq, Structural)]
pub enum GridPreset {
    Mini,
    Daily,
    Sunday,
}

/// A preset's width, height and word-length bounds.
pub open spec fn preset_dims(g: GridPreset) -> (i64, i64, i64, i64) {
    match g {
        GridPreset::Mini => (5, 5, 3, 5),
        GridPreset::Daily => (15, 15, 3, 12),
        GridPreset::Sunday => (21, 21, 3, 12),
    }
}

impl GridPreset {
    /// The chip's caption.
    pub fn label(self) -> (r: &'static str)
        ensures
            r@ == match self {
                GridPreset::Mini => "Mini 5×5"@,
                GridPreset::Daily => "Daily 15×15"@,
                GridPreset::Sunday => "Sunday 21×21"@,
            },
    {
        match self {
            GridPreset::Mini => "Mini 5×5",
            GridPreset::Daily => "Daily 15×15",
            GridPreset::Sunday => "Sunday 21×21",
        }
    }
}

impl GenForm {
    /// The value of a numeric field.
    pub fn param(&self, p: GenParam) -> (r: i64)
        ensures
            r == param_of(*self, p),
    {
        match p {
            GenParam::Width => self.width,
            GenParam::Height => self.height,
            GenParam::MinLen => self.min_word_length,
            GenParam::MaxLen => self.max_word_length,
            GenParam::Answers => self.target_words,
            GenParam::Runs => self.runs,
            GenParam::Attempts => self.max_attempts,
        }
    }

    /// Replaces one numeric field.
    pub fn set_param(&mut self, p: GenParam, n: i64)
        ensures
            *final(self) == with_param(*old(self), p, n),
    {
        match p {
            GenParam::Width => self.width = n,
            GenParam::Height => self.height = n,
            GenParam::MinLen => self.min_word_length = n,
            GenParam::MaxLen => self.max_word_length = n,
            GenParam::Answers => self.target_words = n,
            GenParam::Runs => self.runs = n,
            GenParam::Attempts => self.max_attempts = n,
        }
    }

    /// What typing `text` into a numeric field does: the field takes the
    /// number when the text parses as one, and keeps its value otherwise.
    pub fn input_param(&mut self, p: GenParam, text: &str)
        ensures
            *final(self) == match parse_i64_spec(text@) {
                Some(v) => with_param(*old(self), p, v as i64),
                None => *old(self),
            },
    {
        match parse_i64(text) {
            Some(n) => self.set_param(p, n),
            None => {},
        }
    }

    /// Applies a grid preset: width, height and the word-length bounds.
    pub fn apply_preset(&mut self, g: GridPreset)
        ensures
            ({
                let (w, h, lo, hi) = preset_dims(g);
                *final(self) == GenForm {
                    width: w,
                    height: h,
                    min_word_length: lo,
                    max_word_length: hi,
                    ..*old(self)
                }
            }),
    {
        let (w, h, lo, hi): (i64, i64, i64, i64) = match g {
            GridPreset::Mini => (5, 5, 3, 5),
            GridPreset::Daily => (15, 15, 3, 12),
            GridPreset::Sunday => (21, 21, 3, 12),
        };
        self.width = w;
        self.height = h;
        self.min_word_length = lo;
        self.max_word_length = hi;
    }
}

/// A field written back reads back, and the other fields keep their values.
pub proof fn lemma_param_read_after_write(f: GenForm, p: GenParam, q: GenParam, n: i64)
    ensures
        param_of(with_param(f, p, n), p) == n,
        p != q ==> param_of(with_param(f, p, n), q) == param_of(f, q),
        with_param(f, p, n).topic == f.topic,
{
}

/// The request body of a run: `{"params":{...}}` with the keys in the
/// sorted order `serde_json` writes an object in.
pub open spec fn form_json(f: GenForm) -> Seq<char> {
    "{\"params\":{\"height\":"@ + dec(f.height as int) + ",\"maxAttempts\":"@ + dec(
        f.max_attempts as int,
    ) + ",\"maxWordLength\":"@ + dec(f.max_word_length as int) + ",\"minWordLength\":"@ + dec(
        f.min_word_length as int,
    ) + ",\"runs\":"@ + dec(f.runs as int) + ",\"targetWords\":"@ + dec(f.target_words as int)
        + ",\"topic\":"@ + json_quoted(f.topic@) + ",\"width\":"@ + dec(f.width as int) + "}}"@
}

/// The JSON request body of a generation run.
pub fn form_to_json(f: &GenForm) -> (r: String)
    ensures
        r@ == form_json(*f),
{
    let mut s = String::from_str("{\"params\":{\"height\":");
    push_dec(&mut s, f.height);
    s.append(",\"maxAttempts\":");
    push_dec(&mut s, f.max_attempts);
    s.append(",\"maxWordLength\":");
    push_dec(&mut s, f.max_word_length);
    s.append(",\"minWordLength\":");
    push_dec(&mut s, f.min_word_length);
    s.append(",\"runs\":");
    push_dec(&mut s, f.runs);
    s.append(",\"targetWords\":");
    push_dec(&mut s, f.target_words);
    s.append(",\"topic\":");
    let t = json_quote(f.topic.as_str());
    s.append(t.as_str());
    s.append(",\"width\":");
    push_dec(&mut s, f.width);
    s.append("}}");
    s
}


/// Where a generation run stands.
#[derive(Debug, Clone, Copy, PartialEq, Eq, Structural)]
pub enum RunStatus {
    Idle,
    Running,
    Succeeded,
    Failed,
}

impl RunStatus {
    /// The status word.
    pub fn as_str(self) -> (r: &'static str)
        ensures
            r@ == match self {
                RunStatus::Idle => "idle"@,
                RunStatus::Running => "running"@,
                RunStatus::Succeeded => "succeeded"@,
                RunStatus::Failed => "failed"@,
            },
    {
        match self {
            RunStatus::Idle => "idle",
            RunStatus::Running => "running",
            RunStatus::Succeeded => "succeeded",
            RunStatus::Failed => "failed",
        }
    }
}

/// The latest progress report of a running generation.
#[derive(Debug, PartialEq, Eq)]
pub struct GenProgress {
    pub stage: String,
    pub current: i64,
    pub total: i64,
    pub message: Option<String>,
}

/// A server event of a run, as the fields the page reads from it (each
/// present only when the event carried it with the expected JSON type).
#[derive(Debug, PartialEq, Eq)]
pub struct GenEvent {
    pub kind: Option<String>,
    pub stage: Option<String>,
    pub current: Option<i64>,
    pub total: Option<i64>,
    pub message: Option<String>,
    pub game_id: Option<String>,
    pub title: Option<String>,
    pub error: Option<String>,
}

/// The state of the generator's run panel.
#[derive(Debug, PartialEq, Eq)]
pub struct GenRun {
    pub status: RunStatus,
    pub progress: Option<GenProgress>,
    pub error: String,
    pub elapsed_secs: u64,
    pub game_id: Option<String>,
    pub game_title: Option<String>,
    pub published: bool,
    pub publishing: bool,
    pub publish_error: String,
}

/// What the page does besides updating the run after an event.
#[derive(Debug, Clone, Copy, PartialEq, Eq, Structural)]
pub struct GenEffect {
    /// Append the raw event to the run's log.
    pub log: bool,
    /// Refetch the jobs list.
    pub reload_jobs: bool,
}

/// An optional text, empty when absent.
pub open spec fn text_or_empty(t: Option<String>) -> Seq<char> {
    match t {
        Some(s) => s@,
        None => Seq::empty(),
    }
}

/// The progress report an event carries: missing text reads as empty,
/// missing counts as zero.
pub open spec fn progress_of(ev: GenEvent, p: GenProgress) -> bool {
    &&& p.stage@ == text_or_empty(ev.stage)
    &&& p.current == match ev.current {
        Some(n) => n,
        None => 0,
    }
    &&& p.total == match ev.total {
        Some(n) => n,
        None => 0,
    }
    &&& p.message == ev.message
}

/// The run right after Generate: running from zero, with every trace of
/// the previous run cleared.
pub open spec fn is_started(old_run: GenRun, r: GenRun) -> bool {
    &&& r.status == RunStatus::Running
    &&& r.progress is None
    &&& r.error@.len() == 0
    &&& r.elapsed_secs == 0
    &&& r.game_id is None
    &&& r.game_title is None
    &&& !r.published
    &&& r.publishing == old_run.publishing
    &&& r.publish_error@.len() == 0
}

fn opt_clone(o: &Option<String>) -> (r: Option<String>)
    ensures
        r == *o,
{
    match o {
        Some(s) => Some(s.clone()),
        None => None,
    }
}

impl GenRun {
    /// The panel before any run.
    pub fn new() -> (r: GenRun)
        ensures
            r.status == RunStatus::Idle,
            r.progress is None,
            r.error@.len() == 0,
            r.elapsed_secs == 0,
            r.game_id is None && r.game_title is None,
            !r.published && !r.publishing,
            r.publish_error@.len() == 0,
    {
        GenRun {
            status: RunStatus::Idle,
            progress: None,
            error: String::new(),
            elapsed_secs: 0,
            game_id: None,
            game_title: None,
            published: false,
            publishing: false,
            publish_error: String::new(),
        }
    }

    /// Whether a run is in flight (Generate is disabled meanwhile).
    pub fn is_running(&self) -> (r: bool)
        ensures
            r == (self.status == RunStatus::Running),
    {
        match self.status {
            RunStatus::Running => true,
            _ => false,
        }
    }

    /// Generate was pressed.
    pub fn start(&mut self)
        ensures
            is_started(*old(self), *final(self)),
    {
        self.status = RunStatus::Running;
        self.progress = None;
        self.error = String::new();
        self.elapsed_secs = 0;
        self.game_id = None;
        self.game_title = None;
        self.published = false;
        self.publish_error = String::new();
    }

    /// A second passed on the run's clock: counts while running and tells
    /// whether to keep ticking.
    pub fn tick(&mut self) -> (more: bool)
        requires
            old(self).elapsed_secs < u64::MAX,
        ensures
            more == (old(self).status == RunStatus::Running),
            final(self).elapsed_secs == if more {
                old(self).elapsed_secs + 1
            } else {
                old(self).elapsed_secs as int
            },
            *final(self) == (GenRun { elapsed_secs: final(self).elapsed_secs, ..*old(self) }),
    {
        if self.is_running() {
            self.elapsed_secs = self.elapsed_secs + 1;
            true
        } else {
            false
        }
    }

    /// An event of the run arrived. A progress report only replaces the
    /// progress; any other event is logged, and `completed` or `failed`
    /// end the run.
    pub fn on_event(&mut self, ev: &GenEvent) -> (e: GenEffect)
        ensures
            text_or_empty(ev.kind) == "progress"@ ==> {
                &&& e == (GenEffect { log: false, reload_jobs: false })
                &&& final(self).progress matches Some(p) && progress_of(*ev, p)
                &&& *final(self) == (GenRun { progress: final(self).progress, ..*old(self) })
            },
            text_or_empty(ev.kind) == "completed"@ ==> {
                &&& e == (GenEffect { log: true, reload_jobs: true })
                &&& final(self).status == RunStatus::Succeeded
                &&& final(self).progress is None
                &&& final(self).game_id == if ev.game_id is Some {
                    ev.game_id
                } else {
                    old(self).game_id
                }
                &&& final(self).game_title == if ev.title is Some {
                    ev.title
                } else {
                    old(self).game_title
                }
                &&& *final(self) == (GenRun {
                    status: final(self).status,
                    progress: final(self).progress,
                    game_id: final(self).game_id,
                    game_title: final(self).game_title,
                    ..*old(self)
                })
            },
            text_or_empty(ev.kind) == "failed"@ ==> {
                &&& e == (GenEffect { log: true, reload_jobs: false })
                &&& final(self).status == RunStatus::Failed
                &&& final(self).error@ == match ev.error {
                    Some(m) => m@,
                    None => "unknown error"@,
                }
                &&& *final(self) == (GenRun { status: final(self).status, error: final(self).error, ..*old(self) })
            },
            text_or_empty(ev.kind) != "progress"@ && text_or_empty(ev.kind) != "completed"@
                && text_or_empty(ev.kind) != "failed"@ ==> {
                &&& e == (GenEffect { log: true, reload_jobs: false })
                &&& *final(self) == *old(self)
            },
    {
        proof {
            reveal_strlit("progress");
            reveal_strlit("completed");
            reveal_strlit("failed");
            assert("progress"@ != "completed"@) by {
                assert("progress"@[0] != "completed"@[0]);
            }
            assert("progress"@ != "failed"@) by {
                assert("progress"@.len() != "failed"@.len());
            }
            assert("completed"@ != "failed"@) by {
                assert("completed"@.len() != "failed"@.len());
            }
        }
        let kind: &str = match &ev.kind {
            Some(k) => k.as_str(),
            None => "",
        };
        proof {
            reveal_strlit("");
            assert(kind@ == text_or_empty(ev.kind));
        }
        if same_str(kind, "progress") {
            let stage = match &ev.stage {
                Some(t) => t.clone(),
                None => String::new(),
            };
            let current = match ev.current {
                Some(n) => n,
                None => 0,
            };
            let total = match ev.total {
                Some(n) => n,
                None => 0,
            };
            self.progress = Some(GenProgress { stage, current, total, message: opt_clone(&ev.message) });
            return GenEffect { log: false, reload_jobs: false };
        }
        if same_str(kind, "completed") {
            self.status = RunStatus::Succeeded;
            self.progress = None;
            if ev.game_id.is_some() {
                self.game_id = opt_clone(&ev.game_id);
            }
            if ev.title.is_some() {
                self.game_title = opt_clone(&ev.title);
            }
            return GenEffect { log: true, reload_jobs: true };
        }
        if same_str(kind, "failed") {
            self.status = RunStatus::Failed;
            self.error = match &ev.error {
                Some(m) => m.clone(),
                None => String::from_str("unknown error"),
            };
            return GenEffect { log: true, reload_jobs: false };
        }
        GenEffect { log: true, reload_jobs: false }
    }

    /// Publish was pressed.
    pub fn begin_publish(&mut self)
        ensures
            final(self).publishing,
            final(self).publish_error@.len() == 0,
            *final(self) == (GenRun {
                publishing: final(self).publishing,
                publish_error: final(self).publish_error,
                ..*old(self)
            }),
    {
        self.publishing = true;
        self.publish_error = String::new();
    }

    /// The publish request came back; tells whether to refetch the jobs.
    pub fn finish_publish(&mut self, outcome: Result<(), String>) -> (reload: bool)
        ensures
            reload == outcome is Ok,
            !final(self).publishing,
            final(self).published == (old(self).published || outcome is Ok),
            final(self).publish_error == match outcome {
                Ok(_) => old(self).publish_error,
                Err(m) => m,
            },
            *final(self) == (GenRun {
                publishing: final(self).publishing,
                published: final(self).published,
                publish_error: final(self).publish_error,
                ..*old(self)
            }),
    {
        let reload = match outcome {
            Ok(()) => {
                self.published = true;
                true
            },
            Err(m) => {
                self.publish_error = m;
                false
            },
        };
        self.publishing = false;
        reload
    }
}

/// The idle line of the run panel about the latest job.
pub fn last_run_line(status: &str, topic: &str, when: &str) -> (r: String)
    ensures
        r@ == "Last: "@ + status@ + " · \""@ + topic@ + "\" · "@ + when@,
{
    let mut s = String::from_str("Last: ");
    s.append(status);
    s.append(" · \"");
    s.append(topic);
    s.append("\" · ");
    s.append(when);
    s
}

/// The shareable address of a generated game.
pub fn game_link(origin: &str, game_id: &str) -> (r: String)
    ensures
        r@ == origin@ + "/game/"@ + game_id@ + "/new"@,
{
    let mut s = String::from_str(origin);
    s.append("/game/");
    s.append(game_id);
    s.append("/new");
    s
}

/// The script that copies `url` to the clipboard, the address written as
/// a JSON string literal.
pub fn clipboard_script(url: &str) -> (r: String)
    ensures
        r@ == "navigator.clipboard && navigator.clipboard.writeText("@ + json_quoted(url@) + ")"@,
{
    let mut s = String::from_str("navigator.clipboard && navigator.clipboard.writeText(");
    let q = json_quote(url);
    s.append(q.as_str());
    s.append(")");
    s
}

/// The caption of the Generate button.
pub fn generate_label(running: bool) -> (r: &'static str)
    ensures
        r@ == if running {
            "Generating…"@
        } else {
            "Generate"@
        },
{
    if running {
        "Generating…"
    } else {
        "Generate"
    }
}

/// The caption of the Publish button.
pub fn publish_label(publishing: bool) -> (r: &'static str)
    ensures
        r@ == if publishing {
            "Publishing…"@
        } else {
            "Publish"@
        },
{
    if publishing {
        "Publishing…"
    } else {
        "Publish"
    }
}

/// The status chips of the jobs list: caption and the status they keep
/// (empty for all).
pub fn status_chips() -> (r: Vec<(&'static str, &'static str)>)
    ensures
        r@.len() == 4,
        r@[0].0@ == "All"@ && r@[0].1@ == ""@,
        r@[1].0@ == "Succeeded"@ && r@[1].1@ == "SUCCEEDED"@,
        r@[2].0@ == "Failed"@ && r@[2].1@ == "FAILED"@,
        r@[3].0@ == "Running"@ && r@[3].1@ == "RUNNING"@,
{
    vec![("All", ""), ("Succeeded", "SUCCEEDED"), ("Failed", "FAILED"), ("Running", "RUNNING")]
}

/// The colours of a job's status pill.
pub fn job_status_style(status: &str) -> (r: &'static str)
    ensures
        r@ == if status@ == "SUCCEEDED"@ {
            "background:var(--color-success);color:var(--contrast-ink)"@
        } else if status@ == "FAILED"@ {
            "background:var(--color-error);color:var(--contrast-ink)"@
        } else {
            "background:var(--pastel-yellow);color:var(--contrast-ink)"@
        },
{
    if same_str(status, "SUCCEEDED") {
        "background:var(--color-success);color:var(--contrast-ink)"
    } else if same_str(status, "FAILED") {
        "background:var(--color-error);color:var(--contrast-ink)"
    } else {
        "background:var(--pastel-yellow);color:var(--contrast-ink)"
    }
}

/// A job's grid size as `WxH`.
pub fn job_grid(width: i64, height: i64) -> (r: String)
    ensures
        r@ == dec(width as int) + "x"@ + dec(height as int),
{
    let mut s = String::new();
    push_dec(&mut s, width);
    s.append("x");
    push_dec(&mut s, height);
    s
}

/// The line under an empty jobs table, if any: loading the first page,
/// nothing matching the filters, or no jobs at all.
pub fn jobs_empty_msg(loading: bool, loaded: usize, shown: usize) -> (r: Option<&'static str>)
    ensures
        r matches Some(m) ==> m@ == if loading && loaded == 0 {
            "Loading generation jobs…"@
        } else if loaded > 0 {
            "No jobs match the current filters."@
        } else {
            "No generation jobs found."@
        },
        r is Some <==> (loading && loaded == 0) || shown == 0,
{
    if loading && loaded == 0 {
        Some("Loading generation jobs…")
    } else if shown == 0 {
        if loaded > 0 {
            Some("No jobs match the current filters.")
        } else {
            Some("No generation jobs found.")
        }
    } else {
        None
    }
}

/// The panels of the generator page.
#[derive(Debug, Clone, Copy, PartialEq, Eq, Structural)]
pub enum GeneratorPanel {
    Parameters,
    Progress,
    Jobs,
}

impl GeneratorPanel {
    /// Panel caption.
    pub fn title(self) -> (r: &'static str)
        ensures
            r@ == match self {
                GeneratorPanel::Parameters => "Parameters"@,
                GeneratorPanel::Progress => "Run"@,
                GeneratorPanel::Jobs => "Jobs"@,
            },
    {
        match self {
            GeneratorPanel::Parameters => "Parameters",
            GeneratorPanel::Progress => "Run",
            GeneratorPanel::Jobs => "Jobs",
        }
    }
}

/// Which form field each numeric input edits: Width the width, Height the
/// height, Min Len the minimum word length, Max Len the maximum, Answers the
/// target word count, Runs the runs and Attempts the maximum attempts; a
/// write to one changes that field alone.
pub proof fn lemma_param_fields(f: GenForm, n: i64)
    ensures
        param_of(f, GenParam::Width) == f.width,
        param_of(f, GenParam::Height) == f.height,
        param_of(f, GenParam::MinLen) == f.min_word_length,
        param_of(f, GenParam::MaxLen) == f.max_word_length,
        param_of(f, GenParam::Answers) == f.target_words,
        param_of(f, GenParam::Runs) == f.runs,
        param_of(f, GenParam::Attempts) == f.max_attempts,
        with_param(f, GenParam::Width, n) == (GenForm { width: n, ..f }),
        with_param(f, GenParam::Height, n) == (GenForm { height: n, ..f }),
        with_param(f, GenParam::MinLen, n) == (GenForm { min_word_length: n, ..f }),
        with_param(f, GenParam::MaxLen, n) == (GenForm { max_word_length: n, ..f }),
        with_param(f, GenParam::Answers, n) == (GenForm { target_words: n, ..f }),
        with_param(f, GenParam::Runs, n) == (GenForm { runs: n, ..f }),
        with_param(f, GenParam::Attempts, n) == (GenForm { max_attempts: n, ..f }),
{
}

} // verus!
