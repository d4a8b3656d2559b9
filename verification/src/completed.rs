//! The completed-game page: standings, the signed-in player's own result,
//! the solve time and the match totals.

use vstd::prelude::*;
use crate::game_list::{desc_order, is_desc_order};
use crate::auth::{json_str_field_of, trpc_err_msg};
use crate::route::Route;
use crate::text::{all_digits, dec, digit_char, digits, digits_value, is_digit, lemma_digits_spell, push_char, push_dec, same_str, trunc_div};

verus! {

/// One player's line in the standings.
#[derive(Debug, PartialEq, Eq)]
pub struct MemberScore {
    pub id: String,
    pub score: i64,
    pub correct_guesses: i64,
    pub incorrect_guesses: i64,
    pub is_owner: bool,
    pub name: Option<String>,
    pub email: Option<String>,
}

/// Caption under a standings card.
pub fn rank_name(index: usize) -> (r: &'static str)
    ensures
        r@ == if index == 0 {
            "1ST PLACE"@
        } else if index == 1 {
            "2ND PLACE"@
        } else if index == 2 {
            "3RD PLACE"@
        } else {
            "..."@
        },
{
    if index == 0 {
        "1ST PLACE"
    } else if index == 1 {
        "2ND PLACE"
    } else if index == 2 {
        "3RD PLACE"
    } else {
        "..."
    }
}

/// Share of correct guesses in whole percent, rounded toward zero; 0 when
/// there were no guesses.
pub open spec fn accuracy_spec(correct: int, incorrect: int) -> int {
    let total = correct + incorrect;
    if total > 0 {
        trunc_div(correct * 100, total)
    } else {
        0
    }
}

/// A player's accuracy from their correct and incorrect guess counts.
pub fn accuracy(correct: i64, incorrect: i64) -> (r: i64)
    requires
        i64::MIN <= correct + incorrect <= i64::MAX,
        i64::MIN <= correct * 100 <= i64::MAX,
    ensures
        r == accuracy_spec(correct as int, incorrect as int),
{
    let total = correct + incorrect;
    if total > 0 {
        correct * 100 / total
    } else {
        0
    }
}

/// `m:ss` of a positive number of seconds.
pub open spec fn clock_text(secs: int) -> Seq<char> {
    dec(secs / 60) + seq![':'] + if secs % 60 < 10 {
        seq!['0'] + digits((secs % 60) as nat)
    } else {
        digits((secs % 60) as nat)
    }
}

/// The solve time between the start and the completion stamps (epoch ms),
/// as `m:ss`: only when both parsed and at least one whole second passed.
pub open spec fn solve_time_spec(start_ms: Option<i64>, end_ms: Option<i64>) -> Option<Seq<char>> {
    match (start_ms, end_ms) {
        (Some(s), Some(e)) => {
            let secs = (e - s) / 1000;
            if secs <= 0 {
                None
            } else {
                Some(clock_text(secs))
            }
        },
        _ => None,
    }
}

/// `mm:ss` between two stamps; `None` unless both parsed and the span is
/// positive (a missing or garbled start hides the tile rather than show 0:00).
pub fn solve_time(start_ms: Option<i64>, end_ms: Option<i64>) -> (r: Option<String>)
    ensures
        match r {
            Some(t) => solve_time_spec(start_ms, end_ms) == Some(t@),
            None => solve_time_spec(start_ms, end_ms) is None,
        },
{
    match (start_ms, end_ms) {
        (Some(s), Some(e)) => {
            let diff: i128 = (e as i128) - (s as i128);
            if diff < 1000 {
                return None;
            }
            let secs: i128 = diff / 1000;
            assert(secs < 0x8000_0000_0000_0000i128);
            let secs64: i64 = secs as i64;
            let mut out = String::new();
            push_dec(&mut out, secs64 / 60);
            push_char(&mut out, ':');
            let rem: i64 = secs64 % 60;
            if rem < 10 {
                push_char(&mut out, '0');
            }
            push_dec(&mut out, rem);
            proof {
                assert(secs64 as int == (e - s) / 1000);
                if rem < 10 {
                    assert(out@ =~= clock_text(secs64 as int));
                } else {
                    assert(out@ =~= clock_text(secs64 as int));
                }
            }
            Some(out)
        },
        _ => None,
    }
}

/// Standings order: highest score first, equal scores in the order the
/// server listed them.
pub fn standings_order(scores: &Vec<MemberScore>) -> (r: Vec<usize>)
    ensures
        is_desc_order(scores@.map_values(|m: MemberScore| m.score), r@),
{
    let mut keys: Vec<i64> = Vec::new();
    for i in 0..scores.len()
        invariant
            keys@ == scores@.take(i as int).map_values(|m: MemberScore| m.score),
    {
        keys.push(scores[i].score);
        assert(keys@ =~= scores@.take(i + 1).map_values(|m: MemberScore| m.score));
    }
    assert(scores@.take(scores@.len() as int) =~= scores@);
    desc_order(&keys)
}

/// The name a standings card shows: the player's name, else their email,
/// else "Anonymous".
pub fn display_name(m: &MemberScore) -> (r: String)
    ensures
        r@ == match m.name {
            Some(n) => n@,
            None => match m.email {
                Some(e) => e@,
                None => "Anonymous"@,
            },
        },
{
    match &m.name {
        Some(n) => n.clone(),
        None => match &m.email {
            Some(e) => e.clone(),
            None => String::from_str("Anonymous"),
        },
    }
}

/// Whether a standings line belongs to the signed-in viewer (both emails
/// known and equal).
pub fn is_me(current_email: Option<&str>, m: &MemberScore) -> (r: bool)
    ensures
        r == (current_email matches Some(c) && m.email matches Some(e) && c@ == e@),
{
    match (current_email, &m.email) {
        (Some(c), Some(e)) => same_str(c, e.as_str()),
        _ => false,
    }
}

/// The signed-in player's own result: place (1-based) in the standings,
/// score, accuracy, and solve time.
#[derive(Debug, PartialEq, Eq)]
pub struct MyResult {
    pub place: usize,
    pub score: i64,
    pub accuracy: i64,
    pub time: Option<String>,
}

/// Guess counts whose accuracy can be computed.
pub open spec fn counts_fit(m: MemberScore) -> bool {
    i64::MIN <= m.correct_guesses + m.incorrect_guesses <= i64::MAX && i64::MIN <= m.correct_guesses
        * 100 <= i64::MAX
}

/// The viewer's line of the (sorted) standings: the first whose email is
/// theirs; `None` for a signed-out or non-participating viewer.
pub fn my_result(
    standings: &Vec<&MemberScore>,
    current_email: Option<&str>,
    start_ms: Option<i64>,
    end_ms: Option<i64>,
) -> (r: Option<MyResult>)
    requires
        forall|k: int| 0 <= k < standings@.len() ==> counts_fit(*#[trigger] standings@[k]),
    ensures
        current_email is None ==> r is None,
        current_email matches Some(c) ==> match r {
            None => forall|k: int|
                0 <= k < standings@.len() ==> !((#[trigger] standings@[k]).email matches Some(e) && e@ == c@),
            Some(res) => {
                let k = res.place - 1;
                &&& 0 <= k < standings@.len()
                &&& standings@[k].email matches Some(e) && e@ == c@
                &&& forall|j: int|
                    0 <= j < k ==> !((#[trigger] standings@[j]).email matches Some(e) && e@ == c@)
                &&& res.score == standings@[k].score
                &&& res.accuracy == accuracy_spec(
                    standings@[k].correct_guesses as int,
                    standings@[k].incorrect_guesses as int,
                )
                &&& match res.time {
                    Some(t) => solve_time_spec(start_ms, end_ms) == Some(t@),
                    None => solve_time_spec(start_ms, end_ms) is None,
                }
            },
        },
{
    let c = match current_email {
        Some(c) => c,
        None => return None,
    };
    let mut k: usize = 0;
    while k < standings.len()
        invariant
            k <= standings@.len(),
            current_email == Some(c),
            forall|j: int| 0 <= j < standings@.len() ==> counts_fit(*#[trigger] standings@[j]),
            forall|j: int| 0 <= j < k ==> !((#[trigger] standings@[j]).email matches Some(e) && e@ == c@),
        decreases standings@.len() - k,
    {
        let m = standings[k];
        let mine = match &m.email {
            Some(e) => same_str(e.as_str(), c),
            None => false,
        };
        if mine {
            assert(counts_fit(*standings@[k as int]));
            let acc = accuracy(m.correct_guesses, m.incorrect_guesses);
            return Some(
                MyResult { place: k + 1, score: m.score, accuracy: acc, time: solve_time(start_ms, end_ms) },
            );
        }
        k = k + 1;
    }
    None
}

/// The text the "Copy text" button copies.
pub fn share_text(title: &str, score: i64, accuracy: i64) -> (r: String)
    ensures
        r@ == "Solved \""@ + title@ + "\" — "@ + dec(score as int) + " pts, "@ + dec(
            accuracy as int,
        ) + "% · definitely-not-crosswords"@,
{
    let mut s = String::from_str("Solved \"");
    s.append(title);
    s.append("\" — ");
    push_dec(&mut s, score);
    s.append(" pts, ");
    push_dec(&mut s, accuracy);
    s.append("% · definitely-not-crosswords");
    s
}

/// Sum of all players' correct guesses.
pub open spec fn total_correct(ms: Seq<MemberScore>) -> int
    decreases ms.len(),
{
    if ms.len() == 0 {
        0
    } else {
        total_correct(ms.drop_last()) + ms.last().correct_guesses
    }
}

/// Sum of all players' guesses.
pub open spec fn total_guesses(ms: Seq<MemberScore>) -> int
    decreases ms.len(),
{
    if ms.len() == 0 {
        0
    } else {
        total_guesses(ms.drop_last()) + ms.last().correct_guesses + ms.last().incorrect_guesses
    }
}

/// The match's solve precision: all correct guesses over all guesses, in
/// whole percent (rounded toward zero); 0 without guesses.
pub fn solve_precision(ms: &Vec<MemberScore>) -> (r: i64)
    requires
        forall|k: int| 0 <= k < ms@.len() ==> counts_fit(#[trigger] ms@[k]),
        forall|k: int| 0 <= k <= ms@.len() ==> i64::MIN <= #[trigger] total_guesses(ms@.take(k)) <= i64::MAX && i64::MIN <= total_correct(ms@.take(k)) <= i64::MAX,
        i64::MIN <= total_correct(ms@) * 100 <= i64::MAX,
    ensures
        r == if total_guesses(ms@) > 0 {
            trunc_div(total_correct(ms@) * 100, total_guesses(ms@))
        } else {
            0
        },
{
    let mut guesses: i64 = 0;
    let mut correct: i64 = 0;
    for i in 0..ms.len()
        invariant
            forall|k: int| 0 <= k < ms@.len() ==> counts_fit(#[trigger] ms@[k]),
            forall|k: int| 0 <= k <= ms@.len() ==> i64::MIN <= #[trigger] total_guesses(ms@.take(k)) <= i64::MAX && i64::MIN <= total_correct(ms@.take(k)) <= i64::MAX,
            guesses == total_guesses(ms@.take(i as int)),
            correct == total_correct(ms@.take(i as int)),
    {
        proof {
            assert(ms@.take(i + 1).drop_last() =~= ms@.take(i as int));
            let _ = total_guesses(ms@.take(i + 1));
        }
        let m = &ms[i];
        assert(counts_fit(ms@[i as int]));
        let c = m.correct_guesses;
        let g = m.correct_guesses + m.incorrect_guesses;
        guesses = guesses + g;
        correct = correct + c;
    }
    assert(ms@.take(ms@.len() as int) =~= ms@);
    if guesses > 0 {
        correct * 100 / guesses
    } else {
        0
    }
}

/// The panels of the completed-game page.
#[derive(Debug, Clone, Copy, PartialEq, Eq, Structural)]
pub enum Panel {
    Rankings,
    NextUp,
}

impl Panel {
    /// Panel caption.
    pub fn title(self) -> (r: &'static str)
        ensures
            r@ == match self {
                Panel::Rankings => "Rankings"@,
                Panel::NextUp => "Next Up"@,
            },
    {
        match self {
            Panel::Rankings => "Rankings",
            Panel::NextUp => "Next Up",
        }
    }
}


/// Where the rematch button leads: the new game's page when the server
/// answered with its id; otherwise the message shown under the button.
pub fn rematch_reply(reply: Result<Option<String>, String>) -> (r: Result<Route, String>)
    ensures
        match reply {
            Ok(Some(id)) => r == Ok::<Route, String>(Route::GamePlay { id }),
            Ok(None) => r matches Err(m) && m@ == "Unexpected response from server."@,
            Err(e) => r matches Err(m) && m@ == match json_str_field_of(e@, "message"@) {
                Some(x) => x,
                None => e@,
            },
        },
{
    match reply {
        Ok(Some(id)) => Ok(Route::GamePlay { id }),
        Ok(None) => Err(String::from_str("Unexpected response from server.")),
        Err(e) => Err(trpc_err_msg(e)),
    }
}

/// The "Up next" card's line: title and clue count.
pub fn up_next_line(title: &str, clues: i64) -> (r: String)
    ensures
        r@ == title@ + " · "@ + dec(clues as int) + " clues"@,
{
    let mut s = String::from_str(title);
    s.append(" · ");
    push_dec(&mut s, clues);
    s.append(" clues");
    s
}

/// The `m:ss` text reads back: before the colon the decimal digits of the
/// whole minutes, after it exactly two digits spelling the leftover seconds
/// (a leading zero below ten).
pub proof fn lemma_clock_text_reads_back(secs: int)
    requires
        secs >= 0,
    ensures
        ({
            let t = clock_text(secs);
            let n = t.len() as int;
            &&& n >= 4
            &&& t[n - 3] == ':'
            &&& (n == 4 || t[0] != '0')
            &&& all_digits(t.take(n - 3))
            &&& digits_value(t.take(n - 3)) == secs / 60
            &&& all_digits(t.subrange(n - 2, n))
            &&& digits_value(t.subrange(n - 2, n)) == secs % 60
        }),
{
    let m = secs / 60;
    let s = secs % 60;
    lemma_digits_spell(m as nat);
    let head = digits(m as nat);
    assert(dec(m) == head);
    let tail = if s < 10 {
        seq!['0'] + digits(s as nat)
    } else {
        digits(s as nat)
    };
    let t = clock_text(secs);
    assert(t == head + seq![':'] + tail);
    lemma_digits_spell(s as nat);
    if s < 10 {
        assert(digits(s as nat) == seq![digit_char(s)]);
        assert(tail =~= seq!['0', digit_char(s)]);
    } else {
        assert(digits(s as nat) == digits(s as nat / 10).push(digit_char(s % 10)));
        assert(digits(s as nat / 10) == seq![digit_char(s / 10)]);
        assert(tail.len() == 2);
    }
    let n = t.len() as int;
    assert(t.take(n - 3) =~= head);
    if m >= 10 {
        lemma_no_leading_zero(m as nat);
    }
    assert(t.subrange(n - 2, n) =~= tail);
    assert(t[n - 3] == ':');
    if s < 10 {
        let u = seq!['0', digit_char(s)];
        assert(u.drop_last() =~= seq!['0']);
        assert(seq!['0'].drop_last() =~= Seq::<char>::empty());
        assert(digits_value(Seq::<char>::empty()) == 0);
        assert(seq!['0'].last() == '0');
        assert(digits_value(seq!['0']) == 0);
        assert(u.last() == digit_char(s));
        assert(all_digits(u)) by {
            assert forall|i: int| 0 <= i < u.len() implies is_digit(#[trigger] u[i]) by {
                if i == 1 {
                    assert(is_digit(digits(s as nat)[0]));
                }
            }
        }
        assert(digits_value(u) == digits_value(digits(s as nat)));
    }
}

proof fn lemma_no_leading_zero(m: nat)
    requires
        m >= 10,
    ensures
        digits(m)[0] != '0',
    decreases m,
{
    let d = digits(m / 10);
    assert(digits(m) == d.push(digit_char((m % 10) as int)));
    lemma_digits_spell(m / 10);
    if m / 10 >= 10 {
        lemma_no_leading_zero(m / 10);
    } else {
        assert(d == seq![digit_char((m / 10) as int)]);
    }
    assert(digits(m)[0] == d[0]);
}

/// The solve time shows exactly when both stamps are known and at least one
/// whole second lies between them; it then reads back as the whole minutes
/// and the leftover seconds (two digits) of the span, rounded down to seconds.
pub proof fn lemma_solve_time_reads_back(start: Option<i64>, end: Option<i64>)
    ensures
        solve_time_spec(start, end) is Some <==> (start is Some && end is Some && end.unwrap() - start.unwrap()
            >= 1000),
        solve_time_spec(start, end) matches Some(t) ==> {
            let secs = (end.unwrap() - start.unwrap()) / 1000;
            let n = t.len() as int;
            &&& n >= 4
            &&& t[n - 3] == ':'
            &&& all_digits(t.take(n - 3))
            &&& digits_value(t.take(n - 3)) == secs / 60
            &&& all_digits(t.subrange(n - 2, n))
            &&& digits_value(t.subrange(n - 2, n)) == secs % 60
        },
{
    if start is Some && end is Some {
        let secs = (end.unwrap() - start.unwrap()) / 1000;
        if secs > 0 {
            lemma_clock_text_reads_back(secs);
        }
    }
}

} // verus!
