//! The admin pages: user, job and discount lists with their client-side
//! filters, the overview counters and activity feed, and small formatters.

use vstd::prelude::*;
use crate::game_list::{desc_order, is_desc_order};
use crate::text::{
    contains_str, count_string, dec, dec_string, has_substring, lowercase, parse_i64_spec,
    positive_count, push_dec, same_str, to_lower, to_upper, trim_str, trimmed, uppercase,
};

verus! {

/// A user row of the admin list.
#[derive(Debug, PartialEq, Eq)]
pub struct AdminUser {
    pub id: String,
    pub email: Option<String>,
    pub username: Option<String>,
    pub name: Option<String>,
    pub role: String,
    pub vip_pass: bool,
    /// Whether the email has been verified (the server sends a timestamp).
    pub email_verified: bool,
    /// Account creation time in epoch ms, when it parsed.
    pub created_ms: Option<i64>,
}

/// An optional text field contains the (lowercased) query, case-insensitively.
pub open spec fn field_matches(f: Option<String>, q: Seq<char>) -> bool {
    f matches Some(s) && has_substring(lowercase(s@), q)
}

fn field_matches_exec(f: &Option<String>, q: &str) -> (r: bool)
    ensures
        r == field_matches(*f, q@),
{
    match f {
        Some(s) => contains_str(to_lower(s.as_str()).as_str(), q),
        None => false,
    }
}

/// A user shows under the filters: the query (already trimmed and
/// lowercased) is empty or found in the name, email or username; the role,
/// verification and VIP filters hold when set.
pub open spec fn user_shows(
    u: AdminUser,
    q: Seq<char>,
    role: Option<Seq<char>>,
    verified: Option<bool>,
    vip_only: bool,
) -> bool {
    &&& (q.len() == 0 || field_matches(u.name, q) || field_matches(u.email, q) || field_matches(
        u.username,
        q,
    ))
    &&& (role matches Some(r) ==> u.role@ == r)
    &&& (verified matches Some(v) ==> u.email_verified == v)
    &&& (vip_only ==> u.vip_pass)
}

/// The users the list shows for a search text and the filter chips, in order.
pub fn filter_users<'a>(
    users: &'a Vec<AdminUser>,
    search: &str,
    role: Option<&str>,
    verified: Option<bool>,
    vip_only: bool,
) -> (r: Vec<&'a AdminUser>)
    ensures
        ({
            let q = lowercase(trimmed(search@));
            let rl = match role {
                Some(x) => Some(x@),
                None => None,
            };
            let kept = users@.filter(|u: AdminUser| user_shows(u, q, rl, verified, vip_only));
            r@.len() == kept.len() && forall|k: int| 0 <= k < r@.len() ==> *#[trigger] r@[k] == kept[k]
        }),
{
    let q = to_lower(trim_str(search));
    let ghost qs = lowercase(trimmed(search@));
    let ghost rl = match role {
        Some(x) => Some(x@),
        None => None,
    };
    let ghost pred = |u: AdminUser| user_shows(u, qs, rl, verified, vip_only);
    let mut out: Vec<&AdminUser> = Vec::new();
    for i in 0..users.len()
        invariant
            q@ == qs,
            pred == (|u: AdminUser| user_shows(u, qs, rl, verified, vip_only)),
            rl == match role {
                Some(x) => Some(x@),
                None => None::<Seq<char>>,
            },
            out@.len() == users@.take(i as int).filter(pred).len(),
            forall|k: int| 0 <= k < out@.len() ==> *#[trigger] out@[k] == users@.take(i as int).filter(pred)[k],
    {
        let u = &users[i];
        let text = q.as_str().is_empty() || field_matches_exec(&u.name, q.as_str())
            || field_matches_exec(&u.email, q.as_str()) || field_matches_exec(&u.username, q.as_str());
        let role_ok = match role {
            Some(x) => same_str(u.role.as_str(), x),
            None => true,
        };
        let verified_ok = match verified {
            Some(v) => u.email_verified == v,
            None => true,
        };
        let vip_ok = !vip_only || u.vip_pass;
        proof {
            reveal(Seq::filter);
            assert(users@.take(i + 1).drop_last() =~= users@.take(i as int));
            assert(users@.take(i + 1).last() == *u);
        }
        if text && role_ok && verified_ok && vip_ok {
            out.push(u);
        }
    }
    assert(users@.take(users@.len() as int) =~= users@);
    out
}

/// Number of elements of `s` satisfying `p`.
pub open spec fn count_where<T>(s: Seq<T>, p: spec_fn(T) -> bool) -> int
    decreases s.len(),
{
    if s.len() == 0 {
        0
    } else {
        count_where(s.drop_last(), p) + if p(s.last()) {
            1int
        } else {
            0
        }
    }
}

/// The user counters of the overview: total, verified, admins, VIPs.
pub fn user_kpis(users: &Vec<AdminUser>) -> (r: (usize, usize, usize, usize))
    ensures
        r.0 == users@.len(),
        r.1 == count_where(users@, |u: AdminUser| u.email_verified),
        r.2 == count_where(users@, |u: AdminUser| u.role@ == "ADMIN"@),
        r.3 == count_where(users@, |u: AdminUser| u.vip_pass),
{
    let mut verified: usize = 0;
    let mut admins: usize = 0;
    let mut vip: usize = 0;
    for i in 0..users.len()
        invariant
            verified == count_where(users@.take(i as int), |u: AdminUser| u.email_verified),
            admins == count_where(users@.take(i as int), |u: AdminUser| u.role@ == "ADMIN"@),
            vip == count_where(users@.take(i as int), |u: AdminUser| u.vip_pass),
            verified <= i && admins <= i && vip <= i,
    {
        proof {
            assert(users@.take(i + 1).drop_last() =~= users@.take(i as int));
        }
        let u = &users[i];
        if u.email_verified {
            verified = verified + 1;
        }
        if same_str(u.role.as_str(), "ADMIN") {
            admins = admins + 1;
        }
        if u.vip_pass {
            vip = vip + 1;
        }
    }
    assert(users@.take(users@.len() as int) =~= users@);
    (users.len(), verified, admins, vip)
}

/// The admin set-password form: at least 8 bytes, confirmed.
pub fn set_password_check(password: &str, confirm: &str) -> (r: Result<(), &'static str>)
    ensures
        match r {
            Ok(()) => crate::auth::encode_utf8_len(password@) >= 8 && password@ == confirm@,
            Err(m) => if crate::auth::encode_utf8_len(password@) < 8 {
                m@ == "Password must be at least 8 characters."@
            } else {
                password@ != confirm@ && m@ == "Passwords do not match."@
            },
        },
{
    if password.as_bytes().len() < 8 {
        return Err("Password must be at least 8 characters.");
    }
    if !same_str(password, confirm) {
        return Err("Passwords do not match.");
    }
    Ok(())
}

/// A discount code of the admin list.
#[derive(Debug, PartialEq, Eq)]
pub struct Discount {
    pub id: String,
    pub code: String,
    pub name: String,
    pub amount_type: String,
    pub amount: i64,
    pub duration: String,
    pub duration_in_months: Option<i64>,
    pub max_redemptions: Option<i64>,
    pub times_redeemed: i64,
    pub expires_at: Option<String>,
    pub is_active: bool,
    pub test_mode: bool,
}

/// Caption of a discount's duration.
pub fn format_duration(duration: &str) -> (r: &'static str)
    ensures
        r@ == if duration@ == "ONCE"@ {
            "Once"@
        } else if duration@ == "FOREVER"@ {
            "Forever"@
        } else {
            "Repeating"@
        },
{
    if same_str(duration, "ONCE") {
        "Once"
    } else if same_str(duration, "FOREVER") {
        "Forever"
    } else {
        "Repeating"
    }
}

/// The part of `s` before its first `T` (all of it when there is none).
pub open spec fn before_t(s: Seq<char>, r: Seq<char>) -> bool {
    r.len() <= s.len() && r == s.take(r.len() as int) && (forall|j: int|
        0 <= j < r.len() ==> #[trigger] r[j] != 'T') && (r.len() == s.len() || s[r.len() as int] == 'T')
}

/// An expiry stamp shown as its date part (before the `T`), "—" when absent.
pub fn format_expiry(s: &Option<String>) -> (r: String)
    ensures
        match *s {
            None => r@ == "—"@,
            Some(v) => before_t(v@, r@),
        },
{
    match s {
        None => String::from_str("—"),
        Some(v) => {
            let t = crate::text::chars_of(v.as_str());
            let mut k: usize = 0;
            while k < t.len() && t[k] != 'T'
                invariant
                    k <= t@.len(),
                    forall|j: int| 0 <= j < k ==> t@[j] != 'T',
                decreases t@.len() - k,
            {
                k = k + 1;
            }
            let r = crate::text::string_from(&t, 0, k);
            assert(r@ =~= v@.take(k as int));
            r
        },
    }
}

/// The discount counters of the overview: active codes and total redemptions.
pub open spec fn total_redeemed(ds: Seq<Discount>) -> int
    decreases ds.len(),
{
    if ds.len() == 0 {
        0
    } else {
        total_redeemed(ds.drop_last()) + ds.last().times_redeemed
    }
}

/// Active codes and total redemptions.
pub fn discount_kpis(ds: &Vec<Discount>) -> (r: (usize, i64))
    requires
        forall|k: int| 0 <= k <= ds@.len() ==> i64::MIN <= #[trigger] total_redeemed(ds@.take(k)) <= i64::MAX,
    ensures
        r.0 == count_where(ds@, |d: Discount| d.is_active),
        r.1 == total_redeemed(ds@),
{
    let mut active: usize = 0;
    let mut redeemed: i64 = 0;
    for i in 0..ds.len()
        invariant
            forall|k: int| 0 <= k <= ds@.len() ==> i64::MIN <= #[trigger] total_redeemed(ds@.take(k)) <= i64::MAX,
            active == count_where(ds@.take(i as int), |d: Discount| d.is_active),
            active <= i,
            redeemed == total_redeemed(ds@.take(i as int)),
    {
        proof {
            assert(ds@.take(i + 1).drop_last() =~= ds@.take(i as int));
            let _ = total_redeemed(ds@.take(i + 1));
        }
        if ds[i].is_active {
            active = active + 1;
        }
        redeemed = redeemed + ds[i].times_redeemed;
    }
    assert(ds@.take(ds@.len() as int) =~= ds@);
    (active, redeemed)
}

/// A date input (`YYYY-MM-DD`) as the RFC 3339 instant the server expects;
/// `None` when left empty.
pub fn expires_at_input(v: &str) -> (r: Option<String>)
    ensures
        match r {
            None => trimmed(v@).len() == 0,
            Some(s) => trimmed(v@).len() > 0 && s@ == trimmed(v@) + "T00:00:00.000Z"@,
        },
{
    let t = trim_str(v);
    if t.is_empty() {
        None
    } else {
        let mut s = String::from_str(t);
        s.append("T00:00:00.000Z");
        Some(s)
    }
}

/// A generation job of the admin list.
#[derive(Debug, PartialEq, Eq)]
pub struct JobRow {
    pub id: String,
    pub status: String,
    pub topic: String,
    pub width: i64,
    pub height: i64,
    /// Creation time in epoch ms, when it parsed.
    pub created_ms: Option<i64>,
    /// The game the job produced, if any.
    pub result_game: Option<ResultGame>,
}

/// The game a generation job produced.
#[derive(Debug, PartialEq, Eq)]
pub struct ResultGame {
    pub id: String,
    pub title: String,
    pub published: bool,
}

/// The Game column of a job: the produced game's title and whether it is
/// published or a draft; `None` renders a dash.
pub fn job_game_cell(j: &JobRow) -> (r: Option<(String, &'static str)>)
    ensures
        match j.result_game {
            None => r is None,
            Some(g) => r matches Some((t, s)) && t == g.title && s@ == if g.published {
                "published"@
            } else {
                "draft"@
            },
        },
{
    match &j.result_game {
        None => None,
        Some(g) => Some((g.title.clone(), if g.published {
            "published"
        } else {
            "draft"
        })),
    }
}

/// A job shows under the search (already lowercased) and the status chip.
pub open spec fn job_shows(j: JobRow, search: Seq<char>, status: Seq<char>) -> bool {
    (search.len() == 0 || has_substring(lowercase(j.topic@), search)) && (status.len() == 0
        || j.status@ == status)
}

/// The jobs the list shows: topic containing the search text (compared in
/// lowercase) and status equal to the chosen chip (any when empty).
pub fn filter_jobs<'a>(jobs: &'a Vec<JobRow>, search: &str, status: &str) -> (r: Vec<&'a JobRow>)
    ensures
        ({
            let kept = jobs@.filter(|j: JobRow| job_shows(j, lowercase(search@), status@));
            r@.len() == kept.len() && forall|k: int| 0 <= k < r@.len() ==> *#[trigger] r@[k] == kept[k]
        }),
{
    let q = to_lower(search);
    let ghost pred = |j: JobRow| job_shows(j, lowercase(search@), status@);
    let mut out: Vec<&JobRow> = Vec::new();
    for i in 0..jobs.len()
        invariant
            q@ == lowercase(search@),
            pred == (|j: JobRow| job_shows(j, lowercase(search@), status@)),
            out@.len() == jobs@.take(i as int).filter(pred).len(),
            forall|k: int| 0 <= k < out@.len() ==> *#[trigger] out@[k] == jobs@.take(i as int).filter(pred)[k],
    {
        let j = &jobs[i];
        let text = q.as_str().is_empty() || contains_str(to_lower(j.topic.as_str()).as_str(), q.as_str());
        let st = status.is_empty() || same_str(j.status.as_str(), status);
        proof {
            reveal(Seq::filter);
            assert(jobs@.take(i + 1).drop_last() =~= jobs@.take(i as int));
            assert(jobs@.take(i + 1).last() == *j);
        }
        if text && st {
            out.push(j);
        }
    }
    assert(jobs@.take(jobs@.len() as int) =~= jobs@);
    out
}

/// Milliseconds in a day.
pub const DAY_MS: i64 = 86_400_000;

/// A job counts toward the last-24-hours tile: its stamp parsed and is at
/// most a day old at `now`.
pub open spec fn recent(j: JobRow, now: int) -> bool {
    j.created_ms matches Some(ms) && now - ms <= DAY_MS
}

/// The jobs tile: succeeded and failed jobs of the last 24 hours.
pub fn job_kpi(jobs: &Vec<JobRow>, now: i64) -> (r: (u32, u32))
    requires
        jobs@.len() <= u32::MAX,
    ensures
        r.0 == count_where(jobs@, |j: JobRow| recent(j, now as int) && j.status@ == "SUCCEEDED"@),
        r.1 == count_where(jobs@, |j: JobRow| recent(j, now as int) && j.status@ == "FAILED"@),
{
    let mut ok: u32 = 0;
    let mut fail: u32 = 0;
    for i in 0..jobs.len()
        invariant
            jobs@.len() <= u32::MAX,
            ok == count_where(jobs@.take(i as int), |j: JobRow| recent(j, now as int) && j.status@ == "SUCCEEDED"@),
            fail == count_where(jobs@.take(i as int), |j: JobRow| recent(j, now as int) && j.status@ == "FAILED"@),
            ok + fail <= i,
    {
        proof {
            assert(jobs@.take(i + 1).drop_last() =~= jobs@.take(i as int));
            reveal_strlit("SUCCEEDED");
            reveal_strlit("FAILED");
            assert("SUCCEEDED"@ != "FAILED"@) by {
                assert("SUCCEEDED"@.len() != "FAILED"@.len());
            }
        }
        let j = &jobs[i];
        let is_recent = match j.created_ms {
            Some(ms) => (now as i128) - (ms as i128) <= DAY_MS as i128,
            None => false,
        };
        if is_recent {
            if same_str(j.status.as_str(), "SUCCEEDED") {
                ok = ok + 1;
            } else if same_str(j.status.as_str(), "FAILED") {
                fail = fail + 1;
            }
        }
    }
    assert(jobs@.take(jobs@.len() as int) =~= jobs@);
    (ok, fail)
}


/// An overview tile: loading (`None`), the fetch's error, or the figure with
/// an optional note under it.
pub type Tile = Option<Result<(String, Option<String>), String>>;

/// A tile shows `value` with `note`.
pub open spec fn shows(t: Tile, value: Seq<char>, note: Option<Seq<char>>) -> bool {
    t matches Some(Ok((v, n))) && v@ == value && match n {
        Some(x) => note == Some(x@),
        None => note is None,
    }
}

/// A tile shows an error text.
pub open spec fn shows_error(t: Tile, e: Seq<char>) -> bool {
    t matches Some(Err(m)) && m@ == e
}

fn error_tile(e: &String) -> (t: Tile)
    ensures
        shows_error(t, e@),
{
    Some(Err(e.clone()))
}

/// The four user tiles (users, verified, admins, VIP), all from the one
/// user fetch: loading, its error, or the counts (verified noted "of N").
pub fn user_tiles(users: &Option<Result<Vec<AdminUser>, String>>) -> (r: (Tile, Tile, Tile, Tile))
    ensures
        match users {
            None => r.0 is None && r.1 is None && r.2 is None && r.3 is None,
            Some(Err(e)) => shows_error(r.0, e@) && shows_error(r.1, e@) && shows_error(r.2, e@)
                && shows_error(r.3, e@),
            Some(Ok(list)) => {
                &&& shows(r.0, dec(list@.len() as int), None)
                &&& shows(
                    r.1,
                    dec(count_where(list@, |u: AdminUser| u.email_verified)),
                    Some("of "@ + dec(list@.len() as int)),
                )
                &&& shows(r.2, dec(count_where(list@, |u: AdminUser| u.role@ == "ADMIN"@)), None)
                &&& shows(r.3, dec(count_where(list@, |u: AdminUser| u.vip_pass)), None)
            },
        },
{
    match users {
        None => (None, None, None, None),
        Some(Err(e)) => (error_tile(e), error_tile(e), error_tile(e), error_tile(e)),
        Some(Ok(list)) => {
            let (total, verified, admins, vip) = user_kpis(list);
            let mut note = String::from_str("of ");
            let t = count_string(total);
            note.append(t.as_str());
            (
                Some(Ok((count_string(total), None))),
                Some(Ok((count_string(verified), Some(note)))),
                Some(Ok((count_string(admins), None))),
                Some(Ok((count_string(vip), None))),
            )
        },
    }
}

/// The jobs tile: the fetch's error, loading while the first page is
/// awaited, else succeeded and failed jobs of the last day as `ok/failed`.
pub fn jobs_tile(jobs: &Vec<JobRow>, jobs_error: &String, loading: bool, now: i64) -> (r: Tile)
    requires
        jobs@.len() <= u32::MAX,
    ensures
        jobs_error@.len() > 0 ==> shows_error(r, jobs_error@),
        jobs_error@.len() == 0 && loading && jobs@.len() == 0 ==> r is None,
        jobs_error@.len() == 0 && !(loading && jobs@.len() == 0) ==> shows(
            r,
            dec(count_where(jobs@, |j: JobRow| recent(j, now as int) && j.status@ == "SUCCEEDED"@)) + "/"@
                + dec(count_where(jobs@, |j: JobRow| recent(j, now as int) && j.status@ == "FAILED"@)),
            Some("ok / failed"@),
        ),
{
    if !jobs_error.as_str().is_empty() {
        return error_tile(jobs_error);
    }
    if loading && jobs.len() == 0 {
        return None;
    }
    let (ok, fail) = job_kpi(jobs, now);
    let mut v = String::new();
    push_dec(&mut v, ok as i64);
    v.append("/");
    push_dec(&mut v, fail as i64);
    Some(Ok((v, Some(String::from_str("ok / failed")))))
}

/// The discounts tile: the fetch's error, loading while the first list is
/// awaited, else the active codes noted with the total redemptions.
pub fn discounts_tile(ds: &Vec<Discount>, discount_error: &String, loading: bool) -> (r: Tile)
    requires
        forall|k: int| 0 <= k <= ds@.len() ==> i64::MIN <= #[trigger] total_redeemed(ds@.take(k)) <= i64::MAX,
    ensures
        discount_error@.len() > 0 ==> shows_error(r, discount_error@),
        discount_error@.len() == 0 && loading && ds@.len() == 0 ==> r is None,
        discount_error@.len() == 0 && !(loading && ds@.len() == 0) ==> shows(
            r,
            dec(count_where(ds@, |d: Discount| d.is_active)),
            Some(dec(total_redeemed(ds@)) + " redemptions"@),
        ),
{
    if !discount_error.as_str().is_empty() {
        return error_tile(discount_error);
    }
    if loading && ds.len() == 0 {
        return None;
    }
    let (active, redeemed) = discount_kpis(ds);
    let mut note = String::new();
    push_dec(&mut note, redeemed);
    note.append(" redemptions");
    Some(Ok((count_string(active), Some(note))))
}

/// The games tile: loading, the fetch's error, or the total noted "all players".
pub fn games_tile(games: &Option<Result<i64, String>>) -> (r: Tile)
    ensures
        match games {
            None => r is None,
            Some(Err(e)) => shows_error(r, e@),
            Some(Ok(n)) => shows(r, dec(*n as int), Some("all players"@)),
        },
{
    match games {
        None => None,
        Some(Err(e)) => error_tile(e),
        Some(Ok(n)) => Some(Ok((dec_string(*n), Some(String::from_str("all players"))))),
    }
}

/// The sum of `counts`.
pub open spec fn total(counts: Seq<i64>) -> int
    decreases counts.len(),
{
    if counts.len() == 0 {
        0
    } else {
        total(counts.drop_last()) + counts.last()
    }
}

/// Every running sum of `counts`, taken left to right, fits in an `i64`.
pub open spec fn sums_fit(counts: Seq<i64>) -> bool {
    forall|k: int| 0 <= k <= counts.len() ==> i64::MIN <= #[trigger] total(counts.take(k)) <= i64::MAX
}

/// The games-played figure: the sum of each leaderboard row's games played
/// (the row count is only the number of players); `None` where a running
/// sum leaves the `i64` range, on which the plain sum would overflow.
pub fn games_played_total(rows: &Vec<i64>) -> (r: Option<i64>)
    ensures
        sums_fit(rows@) <==> r is Some,
        r matches Some(n) ==> n == total(rows@),
{
    let mut acc: i64 = 0;
    let mut i: usize = 0;
    assert(rows@.take(0) =~= Seq::<i64>::empty());
    while i < rows.len()
        invariant
            i <= rows@.len(),
            acc == total(rows@.take(i as int)),
            forall|k: int| 0 <= k <= i ==> i64::MIN <= #[trigger] total(rows@.take(k)) <= i64::MAX,
        decreases rows@.len() - i,
    {
        assert(rows@.take(i + 1).drop_last() =~= rows@.take(i as int));
        match acc.checked_add(rows[i]) {
            Some(n) => {
                acc = n;
            },
            None => {
                assert(!sums_fit(rows@)) by {
                    assert(!(i64::MIN <= total(rows@.take(i + 1)) <= i64::MAX));
                }
                return None;
            },
        }
        i = i + 1;
    }
    assert(rows@.take(rows@.len() as int) =~= rows@);
    Some(acc)
}

/// Whether the jobs list may have another page: the last fetch came back full.
pub fn can_load_more(loaded: usize, take: i64) -> (r: bool)
    ensures
        r == (loaded as int >= take as int),
{
    (loaded as i128) >= (take as i128)
}


/// The inputs of a new discount code, as the create form sends them (the
/// amount, entered as a decimal, is converted apart).
#[derive(Debug, PartialEq, Eq)]
pub struct DiscountDraft {
    pub code: String,
    pub name: String,
    pub amount_type: String,
    pub duration: String,
    pub duration_in_months: Option<i64>,
    pub max_redemptions: Option<i64>,
    pub expires_at: Option<String>,
    pub test_mode: bool,
}

/// A count field of the form: the text parses as an integer above zero.
pub open spec fn count_field(t: Seq<char>) -> Option<i64> {
    match parse_i64_spec(t) {
        Some(v) => if v > 0 {
            Some(v as i64)
        } else {
            None
        },
        None => None,
    }
}

/// The create form's fields as the draft it sends: the code trimmed and
/// uppercased, the name trimmed, the months only for a repeating duration,
/// counts only when above zero, the expiry date as an instant.
pub fn discount_draft(
    code: &str,
    name: &str,
    amount_type: &str,
    duration: &str,
    months: &str,
    max_redemptions: &str,
    expires: &str,
    test_mode: bool,
) -> (r: DiscountDraft)
    ensures
        r.code@ == uppercase(trimmed(code@)),
        r.name@ == trimmed(name@),
        r.amount_type@ == amount_type@,
        r.duration@ == duration@,
        r.duration_in_months == if duration@ == "REPEATING"@ {
            count_field(months@)
        } else {
            None
        },
        r.max_redemptions == count_field(max_redemptions@),
        match r.expires_at {
            None => trimmed(expires@).len() == 0,
            Some(s) => trimmed(expires@).len() > 0 && s@ == trimmed(expires@) + "T00:00:00.000Z"@,
        },
        r.test_mode == test_mode,
{
    let code = to_upper(trim_str(code));
    let name = String::from_str(trim_str(name));
    let duration_in_months = if same_str(duration, "REPEATING") {
        positive_count(months)
    } else {
        None
    };
    DiscountDraft {
        code,
        name,
        amount_type: String::from_str(amount_type),
        duration: String::from_str(duration),
        duration_in_months,
        max_redemptions: positive_count(max_redemptions),
        expires_at: expires_at_input(expires),
        test_mode,
    }
}

/// The redemptions column: `times / max`, or `times / ∞` without a cap.
pub fn redemptions_text(times: i64, max: Option<i64>) -> (r: String)
    ensures
        r@ == dec(times as int) + " / "@ + match max {
            Some(m) => dec(m as int),
            None => "∞"@,
        },
{
    let mut s = String::new();
    push_dec(&mut s, times);
    s.append(" / ");
    match max {
        Some(m) => push_dec(&mut s, m),
        None => s.append("∞"),
    }
    s
}

/// The add-user form: the trimmed email (nothing is sent when it is empty)
/// and the trimmed name, absent when empty.
pub fn new_user_input(email: &str, name: &str) -> (r: Option<(String, Option<String>)>)
    ensures
        trimmed(email@).len() == 0 <==> r is None,
        r matches Some((e, n)) ==> e@ == trimmed(email@) && match n {
            Some(x) => trimmed(name@).len() > 0 && x@ == trimmed(name@),
            None => trimmed(name@).len() == 0,
        },
{
    let e = trim_str(email);
    if e.is_empty() {
        return None;
    }
    let n = trim_str(name);
    let name_opt = if n.is_empty() {
        None
    } else {
        Some(String::from_str(n))
    };
    Some((String::from_str(e), name_opt))
}

/// The verified/pending pill of a user: its style and its word.
pub fn verified_badge(verified: bool) -> (r: (&'static str, &'static str))
    ensures
        r.0@ == if verified {
            "padding:0.125rem 0.5rem;font-size:0.625rem;font-weight:bold;text-transform:uppercase;background:var(--color-success);color:var(--contrast-ink)"@
        } else {
            "padding:0.125rem 0.5rem;font-size:0.625rem;font-weight:bold;text-transform:uppercase;background:var(--border-app);color:var(--text-secondary)"@
        },
        r.1@ == if verified {
            "Verified"@
        } else {
            "Pending"@
        },
{
    if verified {
        (
            "padding:0.125rem 0.5rem;font-size:0.625rem;font-weight:bold;text-transform:uppercase;background:var(--color-success);color:var(--contrast-ink)",
            "Verified",
        )
    } else {
        (
            "padding:0.125rem 0.5rem;font-size:0.625rem;font-weight:bold;text-transform:uppercase;background:var(--border-app);color:var(--text-secondary)",
            "Pending",
        )
    }
}

/// The panels of the users page.
#[derive(Debug, Clone, Copy, PartialEq, Eq, Structural)]
pub enum UsersPanel {
    AddUser,
    Users,
}

impl UsersPanel {
    /// Panel caption.
    pub fn title(self) -> (r: &'static str)
        ensures
            r@ == match self {
                UsersPanel::AddUser => "Add User"@,
                UsersPanel::Users => "Users"@,
            },
    {
        match self {
            UsersPanel::AddUser => "Add User",
            UsersPanel::Users => "Users",
        }
    }
}

/// The panels of the discounts page.
#[derive(Debug, Clone, Copy, PartialEq, Eq, Structural)]
pub enum DiscountsPanel {
    Create,
    Discounts,
}

impl DiscountsPanel {
    /// Panel caption.
    pub fn title(self) -> (r: &'static str)
        ensures
            r@ == match self {
                DiscountsPanel::Create => "Create"@,
                DiscountsPanel::Discounts => "Discounts"@,
            },
    {
        match self {
            DiscountsPanel::Create => "Create",
            DiscountsPanel::Discounts => "Discounts",
        }
    }
}

/// One line of the overview's activity feed.
#[derive(Debug, PartialEq, Eq)]
pub enum FeedKind {
    Job { status: String, topic: String },
    User { display: String, email: String },
}

impl Clone for FeedKind {
    fn clone(&self) -> (r: Self)
        ensures
            r == *self,
    {
        match self {
            FeedKind::Job { status, topic } => FeedKind::Job { status: status.clone(), topic: topic.clone() },
            FeedKind::User { display, email } => FeedKind::User { display: display.clone(), email: email.clone() },
        }
    }
}

/// A feed line and its stamp (0 when unknown).
#[derive(Debug, PartialEq, Eq)]
pub struct FeedItem {
    pub ts: i64,
    pub kind: FeedKind,
}

impl Clone for FeedItem {
    fn clone(&self) -> (r: Self)
        ensures
            r == *self,
    {
        FeedItem { ts: self.ts, kind: self.kind.clone() }
    }
}

/// The feed line of a job.
pub open spec fn job_feed(j: JobRow) -> FeedItem {
    FeedItem {
        ts: match j.created_ms {
            Some(ms) => ms,
            None => 0,
        },
        kind: FeedKind::Job { status: j.status, topic: j.topic },
    }
}

/// The feed line of a user: name, else email, else "Unnamed user".
pub open spec fn user_feed_ok(u: AdminUser, f: FeedItem) -> bool {
    &&& u.created_ms == Some(f.ts)
    &&& f.kind matches FeedKind::User { display, email } && display@ == match u.name {
        Some(n) => n@,
        None => match u.email {
            Some(e) => e@,
            None => "Unnamed user"@,
        },
    } && email@ == match u.email {
        Some(e) => e@,
        None => Seq::<char>::empty(),
    }
}

fn user_feed(u: &AdminUser, ms: i64) -> (r: FeedItem)
    requires
        u.created_ms == Some(ms),
    ensures
        user_feed_ok(*u, r),
{
    let display = match &u.name {
        Some(n) => n.clone(),
        None => match &u.email {
            Some(e) => e.clone(),
            None => String::from_str("Unnamed user"),
        },
    };
    let email = match &u.email {
        Some(e) => e.clone(),
        None => String::new(),
    };
    FeedItem { ts: ms, kind: FeedKind::User { display, email } }
}

/// The stamps of feed lines, as sort keys.
pub open spec fn feed_keys(items: Seq<FeedItem>) -> Seq<i64> {
    items.map_values(|f: FeedItem| f.ts)
}

/// The users of a list whose creation time parsed, in list order.
pub open spec fn dated_users(us: Seq<AdminUser>) -> Seq<AdminUser> {
    us.filter(|u: AdminUser| u.created_ms is Some)
}

/// Creation stamps of dated users, as sort keys.
pub open spec fn user_keys(us: Seq<AdminUser>) -> Seq<i64> {
    us.map_values(|u: AdminUser| u.created_ms.unwrap())
}

/// `merged` holds the first five jobs' lines, then the lines of the five
/// newest dated users (equally new ones in list order).
pub open spec fn feed_parts(jobs: Seq<JobRow>, users: Seq<AdminUser>, merged: Seq<FeedItem>, uord: Seq<usize>) -> bool {
    let nj = if jobs.len() < 5 { jobs.len() as int } else { 5 };
    let du = dated_users(users);
    let nu = if du.len() < 5 { du.len() as int } else { 5 };
    &&& is_desc_order(user_keys(du), uord)
    &&& merged.len() == nj + nu
    &&& forall|k: int| 0 <= k < nj ==> #[trigger] merged[k] == job_feed(jobs[k])
    &&& forall|m: int| 0 <= m < nu ==> user_feed_ok(du[uord[m] as int], #[trigger] merged[nj + m])
}

/// The activity feed: the first five jobs of the list and the five newest
/// users with a known creation time, all newest first (equal stamps keep
/// jobs before users and list order).
pub fn activity_feed(jobs: &Vec<JobRow>, users: &Vec<AdminUser>) -> (r: Vec<FeedItem>)
    ensures
        exists|merged: Seq<FeedItem>, ord: Seq<usize>, uord: Seq<usize>|
            #![trigger is_desc_order(feed_keys(merged), ord), feed_parts(jobs@, users@, merged, uord)]
            is_desc_order(feed_keys(merged), ord) && feed_parts(jobs@, users@, merged, uord)
                && r@.len() == merged.len() && (forall|k: int|
                0 <= k < r@.len() ==> #[trigger] r@[k] == merged[ord[k] as int]),
{
    let mut merged: Vec<FeedItem> = Vec::new();
    let nj = if jobs.len() < 5 { jobs.len() } else { 5 };
    for i in 0..nj
        invariant
            nj <= jobs@.len(),
            nj <= 5,
            merged@.len() == i,
            forall|k: int| 0 <= k < i ==> #[trigger] merged@[k] == job_feed(jobs@[k]),
    {
        let j = &jobs[i];
        merged.push(
            FeedItem {
                ts: match j.created_ms {
                    Some(ms) => ms,
                    None => 0,
                },
                kind: FeedKind::Job { status: j.status.clone(), topic: j.topic.clone() },
            },
        );
    }
    let ghost pred = |u: AdminUser| u.created_ms is Some;
    let mut dated: Vec<usize> = Vec::new();
    let mut keys: Vec<i64> = Vec::new();
    for i in 0..users.len()
        invariant
            pred == (|u: AdminUser| u.created_ms is Some),
            dated@.len() == users@.take(i as int).filter(pred).len(),
            forall|k: int| 0 <= k < dated@.len() ==> #[trigger] dated@[k] < users@.len() && users@[dated@[k] as int] == users@.take(i as int).filter(pred)[k],
            keys@ == user_keys(users@.take(i as int).filter(pred)),
    {
        let ghost f0 = users@.take(i as int).filter(pred);
        proof {
            reveal(Seq::filter);
            assert(users@.take(i + 1).drop_last() =~= users@.take(i as int));
            assert(users@.take(i + 1).last() == users@[i as int]);
        }
        match users[i].created_ms {
            Some(ms) => {
                let ghost f1 = users@.take(i + 1).filter(pred);
                assert(f1 =~= f0.push(users@[i as int]));
                dated.push(i);
                keys.push(ms);
                assert(keys@ =~= user_keys(f1));
                assert forall|k: int| 0 <= k < dated@.len() implies #[trigger] dated@[k] < users@.len() && users@[dated@[k] as int] == f1[k] by {
                    if k < f0.len() {
                        assert(f1[k] == f0[k]);
                    }
                }
            },
            None => {
                assert(users@.take(i + 1).filter(pred) =~= f0);
            },
        }
    }
    assert(users@.take(users@.len() as int) =~= users@);
    let ghost du = dated_users(users@);
    assert(du == users@.filter(pred));
    let order = desc_order(&keys);
    let mut k: usize = 0;
    while k < order.len() && k < 5
        invariant
            is_desc_order(keys@, order@),
            keys@ == user_keys(du),
            du == dated_users(users@),
            dated@.len() == du.len(),
            forall|m: int| 0 <= m < dated@.len() ==> #[trigger] dated@[m] < users@.len() && users@[dated@[m] as int] == du[m],
            k <= 5,
            k <= order@.len(),
            nj <= 5,
            merged@.len() == nj + k,
            forall|m: int| 0 <= m < nj ==> #[trigger] merged@[m] == job_feed(jobs@[m]),
            forall|m: int| 0 <= m < k ==> user_feed_ok(du[order@[m] as int], #[trigger] merged@[nj + m]),
            nj == (if jobs@.len() < 5 { jobs@.len() as int } else { 5 }),
        decreases order@.len() - k,
    {
        let d = order[k];
        let ui = dated[d];
        assert(du[d as int].created_ms == Some(keys@[d as int])) by {
            assert(user_keys(du)[d as int] == du[d as int].created_ms.unwrap());
        }
        merged.push(user_feed(&users[ui], keys[d]));
        k = k + 1;
    }
    assert(feed_parts(jobs@, users@, merged@, order@));
    let fkeys = {
        let mut v: Vec<i64> = Vec::new();
        for i in 0..merged.len()
            invariant
                v@ == feed_keys(merged@.take(i as int)),
        {
            v.push(merged[i].ts);
            assert(v@ =~= feed_keys(merged@.take(i + 1)));
        }
        assert(merged@.take(merged@.len() as int) =~= merged@);
        v
    };
    let ford = desc_order(&fkeys);
    let mut out: Vec<FeedItem> = Vec::new();
    for t in 0..ford.len()
        invariant
            is_desc_order(feed_keys(merged@), ford@),
            out@.len() == t,
            forall|q: int| 0 <= q < t ==> #[trigger] out@[q] == merged@[ford@[q] as int],
    {
        out.push(merged[ford[t]].clone());
    }
    out
}

/// The panels of the admin overview page.
#[derive(Debug, Clone, Copy, PartialEq, Eq, Structural)]
pub enum AdminPanel {
    Overview,
    Parameters,
    Run,
    Jobs,
    Users,
    AddUser,
    Discounts,
    Create,
}

impl AdminPanel {
    /// Panel caption.
    pub fn title(self) -> (r: &'static str)
        ensures
            r@ == match self {
                AdminPanel::Overview => "Overview"@,
                AdminPanel::Parameters => "Parameters"@,
                AdminPanel::Run => "Run"@,
                AdminPanel::Jobs => "Jobs"@,
                AdminPanel::Users => "Users"@,
                AdminPanel::AddUser => "Add User"@,
                AdminPanel::Discounts => "Discounts"@,
                AdminPanel::Create => "Create"@,
            },
    {
        match self {
            AdminPanel::Overview => "Overview",
            AdminPanel::Parameters => "Parameters",
            AdminPanel::Run => "Run",
            AdminPanel::Jobs => "Jobs",
            AdminPanel::Users => "Users",
            AdminPanel::AddUser => "Add User",
            AdminPanel::Discounts => "Discounts",
            AdminPanel::Create => "Create",
        }
    }
}


/// The panel a digit key brings back on the overview page, if any.
pub fn restore_key(key: &str) -> (r: Option<AdminPanel>)
    ensures
        r == if key@ == "1"@ {
            Some(AdminPanel::Overview)
        } else if key@ == "2"@ {
            Some(AdminPanel::Parameters)
        } else if key@ == "3"@ {
            Some(AdminPanel::Users)
        } else if key@ == "4"@ {
            Some(AdminPanel::Discounts)
        } else {
            None
        },
{
    if same_str(key, "1") {
        Some(AdminPanel::Overview)
    } else if same_str(key, "2") {
        Some(AdminPanel::Parameters)
    } else if same_str(key, "3") {
        Some(AdminPanel::Users)
    } else if same_str(key, "4") {
        Some(AdminPanel::Discounts)
    } else {
        None
    }
}


/// The write surfaces start minimized to the dock; the read and monitor
/// surfaces start open.
pub fn starts_minimized(p: AdminPanel) -> (r: bool)
    ensures
        r == (p == AdminPanel::Parameters || p == AdminPanel::AddUser || p == AdminPanel::Create),
{
    match p {
        AdminPanel::Parameters | AdminPanel::AddUser | AdminPanel::Create => true,
        _ => false,
    }
}

/// A server list the overview page fetches.
#[derive(Debug, Clone, Copy, PartialEq, Eq, Structural)]
pub enum Source {
    Users,
    Jobs,
    Discounts,
    Games,
}

/// The panels that show a source.
pub open spec fn needs(s: Source, p: AdminPanel) -> bool {
    match s {
        Source::Users => p == AdminPanel::Overview || p == AdminPanel::Users || p == AdminPanel::AddUser,
        Source::Jobs => p == AdminPanel::Overview || p == AdminPanel::Run || p == AdminPanel::Jobs,
        Source::Discounts => p == AdminPanel::Overview || p == AdminPanel::Discounts,
        Source::Games => p == AdminPanel::Overview,
    }
}

fn needs_exec(s: Source, p: AdminPanel) -> (r: bool)
    ensures
        r == needs(s, p),
{
    match s {
        Source::Users => match p {
            AdminPanel::Overview | AdminPanel::Users | AdminPanel::AddUser => true,
            _ => false,
        },
        Source::Jobs => match p {
            AdminPanel::Overview | AdminPanel::Run | AdminPanel::Jobs => true,
            _ => false,
        },
        Source::Discounts => match p {
            AdminPanel::Overview | AdminPanel::Discounts => true,
            _ => false,
        },
        Source::Games => match p {
            AdminPanel::Overview => true,
            _ => false,
        },
    }
}

/// Whether some open (not minimized) panel shows the source; `panels` holds
/// each window's panel and whether it is minimized.
pub fn source_open(s: Source, panels: &Vec<(AdminPanel, bool)>) -> (r: bool)
    ensures
        r == exists|i: int| 0 <= i < panels@.len() && !(#[trigger] panels@[i]).1 && needs(s, panels@[i].0),
{
    let mut i: usize = 0;
    while i < panels.len()
        invariant
            i <= panels@.len(),
            forall|j: int| 0 <= j < i ==> !(!(#[trigger] panels@[j]).1 && needs(s, panels@[j].0)),
        decreases panels@.len() - i,
    {
        if !panels[i].1 && needs_exec(s, panels[i].0) {
            return true;
        }
        i = i + 1;
    }
    false
}

/// When a source is fetched: once a panel that shows it opens, again after
/// it was closed and reopened, and (for the jobs) whenever the page size
/// changed while open.
#[derive(Debug, PartialEq, Eq)]
pub struct FetchGate {
    pub seen_open: bool,
    pub last_take: i64,
}

impl FetchGate {
    /// Nothing seen open yet.
    pub fn new() -> (r: FetchGate)
        ensures
            !r.seen_open && r.last_take == 0,
    {
        FetchGate { seen_open: false, last_take: 0 }
    }

    /// The panels changed (or the page size did): whether to fetch now, with
    /// page size `take` (sources without pages pass a fixed one).
    pub fn step(&mut self, open: bool, take: i64) -> (fetch: bool)
        ensures
            fetch == (open && (!old(self).seen_open || old(self).last_take != take)),
            fetch ==> final(self).seen_open && final(self).last_take == take,
            !fetch && open ==> *final(self) == *old(self),
            !open ==> !final(self).seen_open && final(self).last_take == old(self).last_take,
    {
        if open && (!self.seen_open || self.last_take != take) {
            self.seen_open = true;
            self.last_take = take;
            true
        } else {
            if !open {
                self.seen_open = false;
            }
            false
        }
    }
}

/// Which users the list keeps: a user stays exactly when the search text
/// (trimmed, lowercased) is empty or occurs in their lowercased name, email
/// or username, and they pass the role, verification and VIP chips.
pub proof fn lemma_user_kept_when(
    users: Seq<AdminUser>,
    search: Seq<char>,
    role: Option<Seq<char>>,
    verified: Option<bool>,
    vip_only: bool,
    i: int,
)
    requires
        0 <= i < users.len(),
    ensures
        ({
            let q = lowercase(trimmed(search));
            let u = users[i];
            let kept = users.filter(|x: AdminUser| user_shows(x, q, role, verified, vip_only));
            kept.contains(u) <==> {
                &&& (q.len() == 0 || (u.name is Some && has_substring(lowercase(u.name.unwrap()@), q)) || (
                u.email is Some && has_substring(lowercase(u.email.unwrap()@), q)) || (u.username is Some
                    && has_substring(lowercase(u.username.unwrap()@), q)))
                &&& (role is Some ==> u.role@ == role.unwrap())
                &&& (verified is Some ==> u.email_verified == verified.unwrap())
                &&& (vip_only ==> u.vip_pass)
            }
        }),
{
    let q = lowercase(trimmed(search));
    let pred = |x: AdminUser| user_shows(x, q, role, verified, vip_only);
    let kept = users.filter(pred);
    if pred(users[i]) {
        users.lemma_filter_contains(pred, i);
    }
    if kept.contains(users[i]) {
        let j = choose|j: int| 0 <= j < kept.len() && kept[j] == users[i];
        users.lemma_filter_pred(pred, j);
    }
}

} // verus!
