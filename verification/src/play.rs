//! The gameplay screen's logic: clue keys, wire names, presence colours,
//! the roster, the action batches a word submission sends, and the
//! clue-entry state (typed letters and the focused box).

use vstd::prelude::*;
use crate::text::{chars_of, count_string, dec, join, json_quote, json_quoted, push_char, push_dec, same_str};
use vstd::string::StringSliceAdditionalSpecFns;

verus! {

/// Orientation of a clue.
#[derive(Debug, Clone, Copy, PartialEq, Eq, Structural)]
pub enum Direction {
    Across,
    Down,
}

/// How a letter was entered.
#[derive(Debug, Clone, Copy, PartialEq, Eq, Structural)]
pub enum ActionType {
    Placeholder,
    CorrectGuess,
    IncorrectGuess,
}

/// A clue as the board knows it.
#[derive(Debug, PartialEq, Eq)]
pub struct Question {
    pub number: i32,
    pub direction: Direction,
    pub root_x: i32,
    pub root_y: i32,
    pub question_text: String,
}

/// Identity of a clue: its number and direction (numbers repeat across the
/// two directions).
pub open spec fn qkey_spec(q: Question) -> (i32, Direction) {
    (q.number, q.direction)
}

/// The identity key of a clue.
pub fn qkey(q: &Question) -> (r: (i32, Direction))
    ensures
        r == qkey_spec(*q),
{
    (q.number, q.direction)
}

/// Wire and display name of a direction.
pub open spec fn dir_spec(d: Direction) -> Seq<char> {
    match d {
        Direction::Across => "ACROSS"@,
        Direction::Down => "DOWN"@,
    }
}

/// The wire name of a direction.
pub fn dir_str(d: Direction) -> (r: &'static str)
    ensures
        r@ == dir_spec(d),
{
    match d {
        Direction::Across => "ACROSS",
        Direction::Down => "DOWN",
    }
}

/// The wire name of an action type.
pub fn action_type_str(a: ActionType) -> (r: &'static str)
    ensures
        r@ == match a {
            ActionType::Placeholder => "placeholder"@,
            ActionType::CorrectGuess => "correctGuess"@,
            ActionType::IncorrectGuess => "incorrectGuess"@,
        },
{
    match a {
        ActionType::Placeholder => "placeholder",
        ActionType::CorrectGuess => "correctGuess",
        ActionType::IncorrectGuess => "incorrectGuess",
    }
}

/// The direction a wire name denotes.
pub open spec fn direction_from_spec(s: Seq<char>) -> Option<Direction> {
    if s == "ACROSS"@ {
        Some(Direction::Across)
    } else if s == "DOWN"@ {
        Some(Direction::Down)
    } else {
        None
    }
}

/// "ACROSS" / "DOWN" to a direction; anything else is `None`.
pub fn direction_from_str(s: &str) -> (r: Option<Direction>)
    ensures
        r == direction_from_spec(s@),
{
    if same_str(s, "ACROSS") {
        Some(Direction::Across)
    } else if same_str(s, "DOWN") {
        Some(Direction::Down)
    } else {
        None
    }
}

/// Reading back the wire name of a direction gives that direction.
pub proof fn lemma_direction_roundtrip(d: Direction)
    ensures
        direction_from_spec(dir_spec(d)) == Some(d),
{
    reveal_strlit("ACROSS");
    reveal_strlit("DOWN");
    assert("ACROSS"@.len() == 6 && "DOWN"@.len() == 4);
}

/// Sum of a byte string's bytes.
pub open spec fn byte_sum(b: Seq<u8>) -> int
    decreases b.len(),
{
    if b.len() == 0 {
        0
    } else {
        byte_sum(b.drop_last()) + b.last()
    }
}

/// The presence palette slot for remote players.
pub open spec fn remote_color(i: int) -> Seq<char> {
    if i == 0 {
        "var(--presence-1)"@
    } else if i == 1 {
        "var(--presence-2)"@
    } else if i == 2 {
        "var(--presence-3)"@
    } else {
        "var(--presence-4)"@
    }
}

/// The local player's id as a sequence, when known.
pub open spec fn my_id_view(my_id: Option<&str>) -> Option<Seq<char>> {
    match my_id {
        Some(m) => Some(m@),
        None => None,
    }
}

/// The colour of a player: the local player's own yellow, else the palette
/// slot picked by the sum of the id's UTF-8 bytes modulo the palette size.
pub open spec fn player_color_spec(user_id: Seq<char>, my_id: Option<Seq<char>>) -> Seq<char> {
    if my_id == Some(user_id) {
        "var(--pastel-yellow)"@
    } else {
        remote_color(byte_sum(vstd::utf8::encode_utf8(user_id)) % 4)
    }
}

/// Deterministic per-player colour: the local player is yellow, remote
/// players hash into the four-colour presence palette.
pub fn player_color(user_id: &str, my_id: Option<&str>) -> (r: String)
    ensures
        r@ == player_color_spec(user_id@, my_id_view(my_id)),
{
    let is_me = match my_id {
        Some(m) => same_str(m, user_id),
        None => false,
    };
    if is_me {
        return String::from_str("var(--pastel-yellow)");
    }
    let bytes = user_id.as_bytes();
    let mut acc: usize = 0;
    for i in 0..bytes.len()
        invariant
            bytes@ == user_id.spec_bytes(),
            acc < 4,
            acc == byte_sum(bytes@.take(i as int)) % 4,
    {
        let b = bytes[i];
        proof {
            assert(bytes@.take(i + 1).drop_last() =~= bytes@.take(i as int));
            let s = byte_sum(bytes@.take(i as int));
            assert((s % 4 + b) % 4 == (s + b) % 4) by (nonlinear_arith);
        }
        acc = (acc + b as usize) % 4;
    }
    assert(bytes@.take(bytes@.len() as int) =~= bytes@);
    let c = if acc == 0 {
        "var(--presence-1)"
    } else if acc == 1 {
        "var(--presence-2)"
    } else if acc == 2 {
        "var(--presence-3)"
    } else {
        "var(--presence-4)"
    };
    String::from_str(c)
}

/// A co-op member as the roster shows it.
#[derive(Debug, PartialEq, Eq)]
pub struct MemberInfo {
    pub user_id: String,
    pub user_name: String,
    pub is_owner: bool,
}

/// One `gameMembers` entry as it arrived: each field present only when it
/// had the expected JSON type.
#[derive(Debug, PartialEq, Eq)]
pub struct MemberWire {
    pub user_id: Option<String>,
    pub user_name: Option<String>,
    pub is_owner: Option<bool>,
}

/// `m` is the roster entry of wire entry `w`: its id, its name or
/// "Anonymous Player", its owner flag or false.
pub open spec fn member_of(w: MemberWire, m: MemberInfo) -> bool {
    &&& w.user_id == Some(m.user_id)
    &&& m.user_name@ == match w.user_name {
        Some(n) => n@,
        None => "Anonymous Player"@,
    }
    &&& m.is_owner == match w.is_owner {
        Some(b) => b,
        None => false,
    }
}

/// The wire entries that carry a user id, in order.
pub open spec fn with_ids(ws: Seq<MemberWire>) -> Seq<MemberWire>
    decreases ws.len(),
{
    if ws.len() == 0 {
        Seq::empty()
    } else {
        let rest = with_ids(ws.drop_last());
        if ws.last().user_id is Some {
            rest.push(ws.last())
        } else {
            rest
        }
    }
}

fn member_from(w: &MemberWire) -> (r: Option<MemberInfo>)
    ensures
        w.user_id is Some <==> r is Some,
        r matches Some(m) ==> member_of(*w, m),
{
    match &w.user_id {
        None => None,
        Some(id) => Some(
            MemberInfo {
                user_id: id.clone(),
                user_name: match &w.user_name {
                    Some(n) => n.clone(),
                    None => String::from_str("Anonymous Player"),
                },
                is_owner: match w.is_owner {
                    Some(b) => b,
                    None => false,
                },
            },
        ),
    }
}

/// The roster from the `gameMembers` entries: entries without a user id are
/// dropped, the rest keep their order with names and owner flags defaulted.
pub fn parse_members(wires: &Vec<MemberWire>) -> (r: Vec<MemberInfo>)
    ensures
        r@.len() == with_ids(wires@).len(),
        forall|k: int| 0 <= k < r@.len() ==> member_of(with_ids(wires@)[k], #[trigger] r@[k]),
{
    let mut out: Vec<MemberInfo> = Vec::new();
    for i in 0..wires.len()
        invariant
            out@.len() == with_ids(wires@.take(i as int)).len(),
            forall|k: int|
                0 <= k < out@.len() ==> member_of(with_ids(wires@.take(i as int))[k], #[trigger] out@[k]),
    {
        proof {
            assert(wires@.take(i + 1).drop_last() =~= wires@.take(i as int));
        }
        match member_from(&wires[i]) {
            Some(m) => out.push(m),
            None => {},
        }
    }
    assert(wires@.take(wires@.len() as int) =~= wires@);
    out
}

/// One letter box of the word being entered.
#[derive(Debug, PartialEq, Eq)]
pub struct ActionSlot {
    pub cord_x: i32,
    pub cord_y: i32,
    pub previous_state: String,
    pub state: String,
}

impl Clone for ActionSlot {
    fn clone(&self) -> (r: Self)
        ensures
            r == *self,
    {
        ActionSlot {
            cord_x: self.cord_x,
            cord_y: self.cord_y,
            previous_state: self.previous_state.clone(),
            state: self.state.clone(),
        }
    }
}

/// A letter placed on the board.
#[derive(Debug, PartialEq, Eq)]
pub struct GameAction {
    pub action_type: ActionType,
    pub cord_x: i32,
    pub cord_y: i32,
    pub state: String,
    pub submitted_at: String,
}

/// One entry of an `activeGame.addActions` request.
#[derive(Debug, PartialEq, Eq)]
pub struct ActionInput {
    pub active_game_id: String,
    pub cord_x: i32,
    pub cord_y: i32,
    pub action_type: &'static str,
    pub previous_state: String,
    pub state: String,
}

/// The request entry and the optimistic local action for one slot.
pub open spec fn batch_entry(
    s: ActionSlot,
    game_id: Seq<char>,
    at: ActionType,
    now: Seq<char>,
    input: ActionInput,
    local: GameAction,
) -> bool {
    &&& input.active_game_id@ == game_id
    &&& input.cord_x == s.cord_x
    &&& input.cord_y == s.cord_y
    &&& input.action_type@ == match at {
        ActionType::Placeholder => "placeholder"@,
        ActionType::CorrectGuess => "correctGuess"@,
        ActionType::IncorrectGuess => "incorrectGuess"@,
    }
    &&& input.previous_state == s.previous_state
    &&& input.state == s.state
    &&& local.action_type == at
    &&& local.cord_x == s.cord_x
    &&& local.cord_y == s.cord_y
    &&& local.state == s.state
    &&& local.submitted_at@ == now
}

/// The request entries and the optimistic local actions for a batch of
/// slots, all stamped with the same action type and time `now`.
pub fn build_action_batch(slots: &Vec<ActionSlot>, game_id: &str, at: ActionType, now: &str) -> (r:
    (Vec<ActionInput>, Vec<GameAction>))
    ensures
        r.0@.len() == slots@.len(),
        r.1@.len() == slots@.len(),
        forall|k: int|
            0 <= k < slots@.len() ==> batch_entry(
                #[trigger] slots@[k],
                game_id@,
                at,
                now@,
                r.0@[k],
                r.1@[k],
            ),
{
    let at_str = action_type_str(at);
    let mut inputs: Vec<ActionInput> = Vec::new();
    let mut local: Vec<GameAction> = Vec::new();
    for i in 0..slots.len()
        invariant
            at_str@ == match at {
                ActionType::Placeholder => "placeholder"@,
                ActionType::CorrectGuess => "correctGuess"@,
                ActionType::IncorrectGuess => "incorrectGuess"@,
            },
            inputs@.len() == i,
            local@.len() == i,
            forall|k: int|
                0 <= k < i ==> batch_entry(
                    #[trigger] slots@[k],
                    game_id@,
                    at,
                    now@,
                    inputs@[k],
                    local@[k],
                ),
    {
        let s = &slots[i];
        inputs.push(
            ActionInput {
                active_game_id: String::from_str(game_id),
                cord_x: s.cord_x,
                cord_y: s.cord_y,
                action_type: at_str,
                previous_state: s.previous_state.clone(),
                state: s.state.clone(),
            },
        );
        local.push(
            GameAction {
                action_type: at,
                cord_x: s.cord_x,
                cord_y: s.cord_y,
                state: s.state.clone(),
                submitted_at: String::from_str(now),
            },
        );
    }
    (inputs, local)
}


/// One entry of a cell's history, newest first.
#[derive(Debug, PartialEq, Eq)]
pub struct Modification {
    pub state: String,
    pub action_type: ActionType,
}

/// A board cell: its coordinates, its answer letter, its history (newest
/// first) and whether it is a block.
#[derive(Debug, PartialEq, Eq)]
pub struct Cell {
    pub cord_x: i32,
    pub cord_y: i32,
    pub correct_state: String,
    pub modifications: Vec<Modification>,
    pub is_block: bool,
}

/// A clue with the cells of its answer, in reading order.
#[derive(Debug, PartialEq, Eq)]
pub struct QuestionWithAnswerMap {
    pub question: Question,
    pub answer_map: Vec<Cell>,
}

/// The letter a cell currently shows: its newest entry, or nothing.
pub open spec fn current_letter(c: Cell) -> Seq<char> {
    if c.modifications@.len() > 0 {
        c.modifications@[0].state@
    } else {
        Seq::empty()
    }
}

/// The slot of a cell when its word is selected: pre-filled with the cell's
/// current letter, which is also what it was before editing.
pub open spec fn slot_of(c: Cell, s: ActionSlot) -> bool {
    &&& s.cord_x == c.cord_x
    &&& s.cord_y == c.cord_y
    &&& s.previous_state@ == current_letter(c)
    &&& s.state@ == current_letter(c)
}

/// The pre-filled slots of a word, one per answer cell.
pub fn slots_for(cells: &Vec<Cell>) -> (r: Vec<ActionSlot>)
    ensures
        r@.len() == cells@.len(),
        forall|k: int| 0 <= k < cells@.len() ==> slot_of(#[trigger] cells@[k], r@[k]),
{
    let mut out: Vec<ActionSlot> = Vec::new();
    for i in 0..cells.len()
        invariant
            out@.len() == i,
            forall|k: int| 0 <= k < i ==> slot_of(#[trigger] cells@[k], out@[k]),
    {
        let c = &cells[i];
        let cur = if c.modifications.len() > 0 {
            c.modifications[0].state.clone()
        } else {
            String::new()
        };
        out.push(
            ActionSlot {
                cord_x: c.cord_x,
                cord_y: c.cord_y,
                previous_state: cur.clone(),
                state: cur,
            },
        );
    }
    out
}

/// The slots whose letter the player changed, in order.
pub open spec fn changed_of(slots: Seq<ActionSlot>) -> Seq<ActionSlot>
    decreases slots.len(),
{
    if slots.len() == 0 {
        Seq::empty()
    } else {
        let rest = changed_of(slots.drop_last());
        if slots.last().state@ != slots.last().previous_state@ {
            rest.push(slots.last())
        } else {
            rest
        }
    }
}

/// The letters worth saving as placeholders: only those the player changed
/// (saving the whole pre-filled word would restamp correct guesses).
pub fn changed_slots(slots: &Vec<ActionSlot>) -> (r: Vec<ActionSlot>)
    ensures
        r@ == changed_of(slots@),
{
    let mut out: Vec<ActionSlot> = Vec::new();
    for i in 0..slots.len()
        invariant
            out@ == changed_of(slots@.take(i as int)),
    {
        proof {
            assert(slots@.take(i + 1).drop_last() =~= slots@.take(i as int));
        }
        if slots[i].state != slots[i].previous_state {
            out.push(slots[i].clone());
        }
    }
    assert(slots@.take(slots@.len() as int) =~= slots@);
    out
}

/// ASCII lowercase of a character; other characters are unchanged.
pub open spec fn ascii_lower(c: char) -> char {
    if 'A' <= c && c <= 'Z' {
        ((c as u32) + 32) as char
    } else {
        c
    }
}

/// ASCII uppercase of a character; other characters are unchanged.
pub open spec fn ascii_upper(c: char) -> char {
    if 'a' <= c && c <= 'z' {
        ((c as u32) - 32) as char
    } else {
        c
    }
}

fn to_ascii_lower(c: char) -> (r: char)
    ensures
        r == ascii_lower(c),
{
    if 'A' <= c && c <= 'Z' {
        let u: u8 = c as u8;
        let l: u8 = u + 32;
        assert(l as u32 == (c as u32) + 32);
        l as char
    } else {
        c
    }
}

fn to_ascii_upper(c: char) -> (r: char)
    ensures
        r == ascii_upper(c),
{
    if 'a' <= c && c <= 'z' {
        let u: u8 = c as u8;
        let l: u8 = u - 32;
        assert(l as u32 == (c as u32) - 32);
        l as char
    } else {
        c
    }
}

/// Equality of two strings ignoring ASCII case.
pub open spec fn eq_ignore_ascii_case_spec(a: Seq<char>, b: Seq<char>) -> bool {
    a.len() == b.len() && forall|i: int| 0 <= i < a.len() ==> ascii_lower(#[trigger] a[i])
        == ascii_lower(b[i])
}

/// Whether two strings are equal ignoring ASCII case.
pub fn eq_ignore_ascii_case(a: &str, b: &str) -> (r: bool)
    ensures
        r == eq_ignore_ascii_case_spec(a@, b@),
{
    let x = chars_of(a);
    let y = chars_of(b);
    if x.len() != y.len() {
        return false;
    }
    let mut i: usize = 0;
    while i < x.len()
        invariant
            x@ == a@,
            y@ == b@,
            x@.len() == y@.len(),
            i <= x@.len(),
            forall|j: int| 0 <= j < i ==> ascii_lower(#[trigger] x@[j]) == ascii_lower(y@[j]),
        decreases x@.len() - i,
    {
        if to_ascii_lower(x[i]) != to_ascii_lower(y[i]) {
            return false;
        }
        i = i + 1;
    }
    true
}

/// A word guess is correct when every answer cell has a slot holding its
/// letter, ignoring ASCII case.
pub open spec fn guess_correct_spec(cells: Seq<Cell>, slots: Seq<ActionSlot>) -> bool {
    forall|i: int| 0 <= i < cells.len() ==> #[trigger] letter_ok(cells, slots, i)
}

/// Answer cell `i` has a slot holding its letter, ignoring ASCII case.
pub open spec fn letter_ok(cells: Seq<Cell>, slots: Seq<ActionSlot>, i: int) -> bool {
    i < slots.len() && eq_ignore_ascii_case_spec(slots[i].state@, cells[i].correct_state@)
}

/// Whole-word check of a guess against the answer cells.
pub fn is_correct_guess(cells: &Vec<Cell>, slots: &Vec<ActionSlot>) -> (r: bool)
    ensures
        r == guess_correct_spec(cells@, slots@),
{
    let mut i: usize = 0;
    while i < cells.len()
        invariant
            i <= cells@.len(),
            forall|j: int| 0 <= j < i ==> #[trigger] letter_ok(cells@, slots@, j),
        decreases cells@.len() - i,
    {
        if i >= slots.len() {
            assert(!letter_ok(cells@, slots@, i as int));
            return false;
        }
        if !eq_ignore_ascii_case(slots[i].state.as_str(), cells[i].correct_state.as_str()) {
            assert(!letter_ok(cells@, slots@, i as int));
            return false;
        }
        i = i + 1;
    }
    true
}

/// The action type a guess is recorded with.
pub fn guess_action(correct: bool) -> (r: ActionType)
    ensures
        r == if correct {
            ActionType::CorrectGuess
        } else {
            ActionType::IncorrectGuess
        },
{
    if correct {
        ActionType::CorrectGuess
    } else {
        ActionType::IncorrectGuess
    }
}


/// What the letter box keeps of a typed input: its last character, ASCII
/// uppercased, or nothing when the input is empty.
pub open spec fn letter_of(raw: Seq<char>) -> Seq<char> {
    if raw.len() == 0 {
        Seq::empty()
    } else {
        seq![ascii_upper(raw.last())]
    }
}

/// A keyboard key the letter boxes react to.
#[derive(Debug, Clone, Copy, PartialEq, Eq, Structural)]
pub enum Key {
    Backspace,
    ArrowLeft,
    ArrowRight,
    Other,
}

/// The word being entered: one slot per answer cell, and the focused box.
#[derive(Debug, PartialEq, Eq)]
pub struct ClueEntry {
    pub slots: Vec<ActionSlot>,
    pub focused: Option<usize>,
}

/// `b` is `a` with its letter replaced by `state`.
pub open spec fn restated(a: ActionSlot, b: ActionSlot, state: Seq<char>) -> bool {
    b.cord_x == a.cord_x && b.cord_y == a.cord_y && b.previous_state == a.previous_state && b.state@
        == state
}

fn with_state(a: &ActionSlot, state: String) -> (r: ActionSlot)
    ensures
        restated(*a, r, state@),
{
    ActionSlot {
        cord_x: a.cord_x,
        cord_y: a.cord_y,
        previous_state: a.previous_state.clone(),
        state,
    }
}

impl ClueEntry {
    /// The focus, when set, is on one of the boxes.
    pub open spec fn wf(&self) -> bool {
        self.focused matches Some(i) ==> i < self.slots@.len()
    }

    /// A letter typed into box `index`: the box keeps the input's last
    /// character (ASCII uppercased; nothing for an empty input), and a
    /// non-empty letter advances the focus to the next box when there is one.
    pub fn type_letter(&mut self, index: usize, raw: &str)
        ensures
            final(self).slots@.len() == old(self).slots@.len(),
            forall|k: int|
                0 <= k < old(self).slots@.len() && k != index ==> #[trigger] final(self).slots@[k]
                    == old(self).slots@[k],
            index < old(self).slots@.len() ==> restated(
                old(self).slots@[index as int],
                final(self).slots@[index as int],
                letter_of(raw@),
            ),
            final(self).focused == if letter_of(raw@).len() > 0 && index + 1 < old(self).slots@.len() {
                Some((index + 1) as usize)
            } else {
                old(self).focused
            },
            old(self).wf() ==> final(self).wf(),
    {
        let chars = chars_of(raw);
        let mut val = String::new();
        if chars.len() > 0 {
            push_char(&mut val, to_ascii_upper(chars[chars.len() - 1]));
        }
        assert(val@ =~= letter_of(raw@));
        let len = self.slots.len();
        let nonempty = chars.len() > 0;
        if index < len {
            let slot = with_state(&self.slots[index], val);
            self.slots.set(index, slot);
        }
        if nonempty && index < len && index + 1 < len {
            self.focused = Some(index + 1);
        }
    }

    /// A key pressed in box `index`. Backspace in an empty box (or past the
    /// last one) clears the previous box and moves there; otherwise it clears
    /// this box. The arrows move the focus when a box lies that way.
    pub fn press_key(&mut self, index: usize, key: Key)
        ensures
            final(self).slots@.len() == old(self).slots@.len(),
            ({
                let len = old(self).slots@.len();
                let cur_empty = index >= len || old(self).slots@[index as int].state@.len() == 0;
                match key {
                    Key::Backspace => if cur_empty && index > 0 {
                        &&& forall|k: int|
                            0 <= k < len && k != index - 1 ==> #[trigger] final(self).slots@[k]
                                == old(self).slots@[k]
                        &&& index - 1 < len ==> restated(
                            old(self).slots@[index - 1],
                            final(self).slots@[index - 1],
                            Seq::empty(),
                        )
                        &&& final(self).focused == Some((index - 1) as usize)
                    } else {
                        &&& forall|k: int|
                            0 <= k < len && k != index ==> #[trigger] final(self).slots@[k]
                                == old(self).slots@[k]
                        &&& index < len ==> restated(
                            old(self).slots@[index as int],
                            final(self).slots@[index as int],
                            Seq::empty(),
                        )
                        &&& final(self).focused == old(self).focused
                    },
                    Key::ArrowLeft => final(self).slots@ == old(self).slots@ && final(self).focused
                        == if index > 0 {
                        Some((index - 1) as usize)
                    } else {
                        old(self).focused
                    },
                    Key::ArrowRight => final(self).slots@ == old(self).slots@ && final(self).focused
                        == if index + 1 < len {
                        Some((index + 1) as usize)
                    } else {
                        old(self).focused
                    },
                    Key::Other => final(self).slots@ == old(self).slots@
                        && final(self).focused == old(self).focused,
                }
            }),
            old(self).wf() && index < old(self).slots@.len() ==> final(self).wf(),
    {
        let len = self.slots.len();
        match key {
            Key::Backspace => {
                let cur_empty = index >= len || self.slots[index].state.as_str().is_empty();
                if cur_empty && index > 0 {
                    if index - 1 < len {
                        let slot = with_state(&self.slots[index - 1], String::new());
                        self.slots.set(index - 1, slot);
                    }
                    self.focused = Some(index - 1);
                } else if index < len {
                    let slot = with_state(&self.slots[index], String::new());
                    self.slots.set(index, slot);
                }
            },
            Key::ArrowLeft => {
                if index > 0 {
                    self.focused = Some(index - 1);
                }
            },
            Key::ArrowRight => {
                if index < len && index + 1 < len {
                    self.focused = Some(index + 1);
                }
            },
            Key::Other => {},
        }
    }
}


/// `i` is the first clue of `maps` whose key is `key`.
pub open spec fn first_with_key(maps: Seq<QuestionWithAnswerMap>, key: (i32, Direction), i: int) -> bool {
    0 <= i < maps.len() && qkey_spec(maps[i].question) == key && forall|j: int|
        0 <= j < i ==> qkey_spec((#[trigger] maps[j]).question) != key
}

/// The position of the clue with key `key`, the first when several share it.
pub fn find_question(maps: &Vec<QuestionWithAnswerMap>, key: (i32, Direction)) -> (r: Option<usize>)
    ensures
        match r {
            Some(i) => first_with_key(maps@, key, i as int),
            None => forall|j: int| 0 <= j < maps@.len() ==> qkey_spec((#[trigger] maps@[j]).question) != key,
        },
{
    let mut i: usize = 0;
    while i < maps.len()
        invariant
            i <= maps@.len(),
            forall|j: int| 0 <= j < i ==> qkey_spec((#[trigger] maps@[j]).question) != key,
        decreases maps@.len() - i,
    {
        let k = qkey(&maps[i].question);
        if k.0 == key.0 && k.1 == key.1 {
            return Some(i);
        }
        i = i + 1;
    }
    None
}

/// The answer of clue `m` covers the cell at `(x, y)`.
pub open spec fn covers(m: QuestionWithAnswerMap, x: i32, y: i32) -> bool {
    exists|k: int| 0 <= k < m.answer_map@.len() && (#[trigger] m.answer_map@[k]).cord_x == x
        && m.answer_map@[k].cord_y == y
}

fn covers_exec(m: &QuestionWithAnswerMap, x: i32, y: i32) -> (r: bool)
    ensures
        r == covers(*m, x, y),
{
    let mut k: usize = 0;
    while k < m.answer_map.len()
        invariant
            k <= m.answer_map@.len(),
            forall|j: int|
                0 <= j < k ==> !((#[trigger] m.answer_map@[j]).cord_x == x && m.answer_map@[j].cord_y
                    == y),
        decreases m.answer_map@.len() - k,
    {
        if m.answer_map[k].cord_x == x && m.answer_map[k].cord_y == y {
            return true;
        }
        k = k + 1;
    }
    false
}

/// Clue `i` is the first of `maps` that covers `(x, y)` and satisfies `in_dir`.
pub open spec fn first_covering(
    maps: Seq<QuestionWithAnswerMap>,
    x: i32,
    y: i32,
    dir: Option<Direction>,
    i: int,
) -> bool {
    &&& 0 <= i < maps.len()
    &&& covers(maps[i], x, y)
    &&& (dir matches Some(d) ==> maps[i].question.direction == d)
    &&& forall|j: int|
        0 <= j < i ==> !(covers(#[trigger] maps[j], x, y) && (dir matches Some(d)
            ==> maps[j].question.direction == d))
}

fn first_cover(maps: &Vec<QuestionWithAnswerMap>, x: i32, y: i32, dir: Option<Direction>) -> (r:
    Option<usize>)
    ensures
        match r {
            Some(i) => first_covering(maps@, x, y, dir, i as int),
            None => forall|j: int|
                0 <= j < maps@.len() ==> !(covers(#[trigger] maps@[j], x, y) && (dir matches Some(d)
                    ==> maps@[j].question.direction == d)),
        },
{
    let mut i: usize = 0;
    while i < maps.len()
        invariant
            i <= maps@.len(),
            forall|j: int|
                0 <= j < i ==> !(covers(#[trigger] maps@[j], x, y) && (dir matches Some(d)
                    ==> maps@[j].question.direction == d)),
        decreases maps@.len() - i,
    {
        let in_dir = match dir {
            Some(d) => maps[i].question.direction == d,
            None => true,
        };
        if in_dir && covers_exec(&maps[i], x, y) {
            return Some(i);
        }
        i = i + 1;
    }
    None
}

/// The clue a click on cell `(x, y)` selects: the first covering clue in
/// the current direction filter, else the first covering clue at all.
pub open spec fn clicked_clue_spec(
    maps: Seq<QuestionWithAnswerMap>,
    x: i32,
    y: i32,
    dir: Option<Direction>,
    r: Option<(i32, Direction)>,
) -> bool {
    match r {
        None => forall|j: int| 0 <= j < maps.len() ==> !covers(#[trigger] maps[j], x, y),
        Some(key) => exists|i: int| #[trigger] clicked_at(maps, x, y, dir, i) && key == qkey_spec(maps[i].question),
    }
}

/// Clue `i` is the one a click on `(x, y)` picks: the first covering clue in
/// the direction filter, or, when the filter is off or no clue in it covers
/// the cell, the first covering clue.
pub open spec fn clicked_at(maps: Seq<QuestionWithAnswerMap>, x: i32, y: i32, dir: Option<Direction>, i: int) -> bool {
    (dir is Some && first_covering(maps, x, y, dir, i)) || ((dir is None || forall|j: int|
        0 <= j < maps.len() ==> !(covers(#[trigger] maps[j], x, y) && (dir matches Some(d)
            ==> maps[j].question.direction == d))) && first_covering(maps, x, y, None, i))
}

/// The key of the clue that a click on cell `(x, y)` selects, if any.
pub fn clicked_clue(maps: &Vec<QuestionWithAnswerMap>, x: i32, y: i32, dir: Option<Direction>) -> (r:
    Option<(i32, Direction)>)
    ensures
        clicked_clue_spec(maps@, x, y, dir, r),
{
    let first = if dir.is_some() {
        first_cover(maps, x, y, dir)
    } else {
        None
    };
    match first {
        Some(i) => {
            assert(clicked_at(maps@, x, y, dir, i as int));
            Some(qkey(&maps[i].question))
        },
        None => match first_cover(maps, x, y, None) {
            Some(i) => {
                assert(clicked_at(maps@, x, y, dir, i as int));
                Some(qkey(&maps[i].question))
            },
            None => {
                assert forall|j: int| 0 <= j < maps@.len() implies !covers(#[trigger] maps@[j], x, y) by {
                    assert(!(covers(maps@[j], x, y) && (None::<Direction> matches Some(d) ==> maps@[j].question.direction == d)));
                }
                None
            },
        },
    }
}

/// What clearing a selection asks the page to do.
#[derive(Debug, PartialEq, Eq)]
pub struct ClearOutcome {
    /// Letters to persist as placeholders (only changed ones), if any.
    pub save: Option<Vec<ActionSlot>>,
    /// Whether to broadcast "no selection" to the other players.
    pub publish_none: bool,
}

/// The selection state of the play screen: the selected clue, the
/// direction filter of the clue list, and the word being entered.
#[derive(Debug, PartialEq, Eq)]
pub struct Selection {
    pub selected: Option<(i32, Direction)>,
    pub direction: Option<Direction>,
    pub entry: ClueEntry,
}

/// Some slot holds a letter.
pub open spec fn any_typed(slots: Seq<ActionSlot>) -> bool {
    exists|k: int| 0 <= k < slots.len() && (#[trigger] slots[k]).state@.len() > 0
}

fn any_typed_exec(slots: &Vec<ActionSlot>) -> (r: bool)
    ensures
        r == any_typed(slots@),
{
    let mut k: usize = 0;
    while k < slots.len()
        invariant
            k <= slots@.len(),
            forall|j: int| 0 <= j < k ==> (#[trigger] slots@[j]).state@.len() == 0,
        decreases slots@.len() - k,
    {
        if !slots[k].state.as_str().is_empty() {
            return true;
        }
        k = k + 1;
    }
    false
}

impl Selection {
    /// Nothing selected, the list filtered to Across.
    pub fn new() -> (r: Selection)
        ensures
            r.selected is None,
            r.direction == Some(Direction::Across),
            r.entry.slots@.len() == 0,
            r.entry.focused is None,
    {
        Selection {
            selected: None,
            direction: Some(Direction::Across),
            entry: ClueEntry { slots: Vec::new(), focused: None },
        }
    }

    /// Selects clue `key`: its word is snapshotted into pre-filled slots, the
    /// list follows its direction and the first box takes the focus. Returns
    /// whether the clue exists (then the selection is broadcast); otherwise
    /// nothing changes.
    pub fn select(&mut self, maps: &Vec<QuestionWithAnswerMap>, key: (i32, Direction)) -> (r: bool)
        ensures
            r == exists|i: int| 0 <= i < maps@.len() && qkey_spec((#[trigger] maps@[i]).question) == key,
            !r ==> *final(self) == *old(self),
            r ==> exists|i: int|
                #[trigger] first_with_key(maps@, key, i) && final(self).selected == Some(key)
                    && final(self).direction == Some(maps@[i].question.direction)
                    && final(self).entry.focused == Some(0usize) && final(self).entry.slots@.len()
                    == maps@[i].answer_map@.len() && forall|k: int|
                    0 <= k < maps@[i].answer_map@.len() ==> slot_of(
                        #[trigger] maps@[i].answer_map@[k],
                        final(self).entry.slots@[k],
                    ),
    {
        match find_question(maps, key) {
            None => false,
            Some(i) => {
                let m = &maps[i];
                let slots = slots_for(&m.answer_map);
                self.direction = Some(m.question.direction);
                self.entry = ClueEntry { slots, focused: Some(0) };
                self.selected = Some(key);
                assert(first_with_key(maps@, key, i as int));
                true
            },
        }
    }

    /// Drops the selection and the word being entered. When `save_progress`
    /// is set, a selection was active and some box holds a letter, the
    /// changed letters are handed back for saving; a selection that was active
    /// is un-broadcast. The direction filter is kept.
    pub fn clear(&mut self, save_progress: bool) -> (r: ClearOutcome)
        ensures
            final(self).selected is None,
            final(self).direction == old(self).direction,
            final(self).entry.slots@.len() == 0,
            final(self).entry.focused is None,
            r.publish_none == (old(self).selected is Some),
            ({
                let saving = save_progress && old(self).selected is Some && any_typed(old(self).entry.slots@)
                    && changed_of(old(self).entry.slots@).len() > 0;
                match r.save {
                    Some(v) => saving && v@ == changed_of(old(self).entry.slots@),
                    None => !saving,
                }
            }),
    {
        let was_selected = self.selected.is_some();
        let typed = any_typed_exec(&self.entry.slots);
        let save = if save_progress && was_selected && typed {
            let ch = changed_slots(&self.entry.slots);
            if ch.len() > 0 {
                Some(ch)
            } else {
                None
            }
        } else {
            None
        };
        self.selected = None;
        self.entry = ClueEntry { slots: Vec::new(), focused: None };
        ClearOutcome { save, publish_none: was_selected }
    }
}


fn clone_slots(v: &Vec<ActionSlot>) -> (r: Vec<ActionSlot>)
    ensures
        r@ == v@,
{
    let mut out: Vec<ActionSlot> = Vec::new();
    for i in 0..v.len()
        invariant
            out@ == v@.take(i as int),
    {
        out.push(v[i].clone());
        assert(out@ =~= v@.take(i + 1));
    }
    assert(v@.take(v@.len() as int) =~= v@);
    out
}

/// A submitted word guess: the letters, how they are recorded, and, for a
/// correct guess, the clearing of the selection it causes.
#[derive(Debug, PartialEq, Eq)]
pub struct Guess {
    pub action: ActionType,
    pub slots: Vec<ActionSlot>,
    pub cleared: Option<ClearOutcome>,
}

/// `g` is the guess on clue `i` (the first with the selected key) that a
/// selection `before` submits, leaving `after`.
pub open spec fn guess_ok(
    maps: Seq<QuestionWithAnswerMap>,
    before: Selection,
    after: Selection,
    g: Guess,
    i: int,
) -> bool {
    &&& first_with_key(maps, before.selected.unwrap(), i)
    &&& g.slots@ == before.entry.slots@
    &&& g.action == if guess_correct_spec(maps[i].answer_map@, before.entry.slots@) {
        ActionType::CorrectGuess
    } else {
        ActionType::IncorrectGuess
    }
    &&& g.action == ActionType::CorrectGuess ==> (g.cleared matches Some(c) && c.save is None
        && c.publish_none && after.selected is None && after.entry.slots@.len() == 0
        && after.entry.focused is None && after.direction == before.direction)
    &&& g.action == ActionType::IncorrectGuess ==> (g.cleared is None && after == before)
}

impl Selection {
    /// Toggling a direction tab: the active tab switches the filter off
    /// (showing all clues); another tab first clears the selection, saving
    /// progress, then filters to its direction.
    pub fn toggle_direction(&mut self, d: Direction) -> (r: Option<ClearOutcome>)
        ensures
            old(self).direction == Some(d) ==> r is None && final(self).direction is None
                && final(self).selected == old(self).selected && final(self).entry == old(self).entry,
            old(self).direction != Some(d) ==> r is Some && final(self).direction == Some(d)
                && final(self).selected is None && final(self).entry.slots@.len() == 0
                && final(self).entry.focused is None && r.unwrap().publish_none == (old(
                self,
            ).selected is Some),
    {
        let same = match self.direction {
            Some(cur) => cur == d,
            None => false,
        };
        if same {
            self.direction = None;
            None
        } else {
            let out = self.clear(true);
            self.direction = Some(d);
            Some(out)
        }
    }

    /// Submits the word being entered as a guess on the selected clue:
    /// nothing happens without letters, a selection, or a known clue. The
    /// whole answer must match (ignoring ASCII case) to count as correct; a
    /// correct guess clears the selection without re-saving its letters.
    pub fn submit_guess(&mut self, maps: &Vec<QuestionWithAnswerMap>) -> (r: Option<Guess>)
        ensures
            (old(self).entry.slots@.len() == 0 || old(self).selected is None || !exists|i: int|
                0 <= i < maps@.len() && qkey_spec((#[trigger] maps@[i]).question) == old(
                self,
            ).selected.unwrap()) ==> r is None && *final(self) == *old(self),
            (old(self).entry.slots@.len() > 0 && old(self).selected is Some && exists|i: int|
                0 <= i < maps@.len() && qkey_spec((#[trigger] maps@[i]).question) == old(
                self,
            ).selected.unwrap()) ==> r is Some,
            r matches Some(g) ==> exists|i: int| #[trigger] guess_ok(maps@, *old(self), *final(self), g, i),
    {
        if self.entry.slots.len() == 0 {
            return None;
        }
        let key = match self.selected {
            Some(k) => k,
            None => return None,
        };
        let i = match find_question(maps, key) {
            Some(i) => i,
            None => return None,
        };
        let slots = clone_slots(&self.entry.slots);
        let correct = is_correct_guess(&maps[i].answer_map, &slots);
        let action = guess_action(correct);
        let cleared = if correct {
            Some(self.clear(false))
        } else {
            None
        };
        assert(first_with_key(maps@, key, i as int));
        let g = Guess { action, slots, cleared };
        assert(guess_ok(maps@, *old(self), *self, g, i as int));
        Some(g)
    }
}

/// `i` is the first clue whose answer starts at `(x, y)`.
pub open spec fn first_rooted(maps: Seq<QuestionWithAnswerMap>, x: i32, y: i32, i: int) -> bool {
    0 <= i < maps.len() && maps[i].question.root_x == x && maps[i].question.root_y == y && forall|
        j: int,
    |
        0 <= j < i ==> !((#[trigger] maps[j]).question.root_x == x && maps[j].question.root_y == y)
}

/// The clue number printed in a cell: that of the first clue starting there.
pub fn cell_number(maps: &Vec<QuestionWithAnswerMap>, x: i32, y: i32) -> (r: Option<i32>)
    ensures
        match r {
            Some(n) => exists|i: int| #[trigger] first_rooted(maps@, x, y, i) && n == maps@[i].question.number,
            None => forall|j: int|
                0 <= j < maps@.len() ==> !((#[trigger] maps@[j]).question.root_x == x
                    && maps@[j].question.root_y == y),
        },
{
    let mut i: usize = 0;
    while i < maps.len()
        invariant
            i <= maps@.len(),
            forall|j: int|
                0 <= j < i ==> !((#[trigger] maps@[j]).question.root_x == x && maps@[j].question.root_y
                    == y),
        decreases maps@.len() - i,
    {
        if maps[i].question.root_x == x && maps[i].question.root_y == y {
            assert(first_rooted(maps@, x, y, i as int));
            return Some(maps[i].question.number);
        }
        i = i + 1;
    }
    None
}

/// CSS classes of a letter cell: the focused box, else the selected word,
/// else the style of the cell's newest entry.
pub open spec fn cell_class_spec(focused: bool, selected: bool, newest: Option<ActionType>) -> Seq<char> {
    if focused {
        "cw-cell cw-letter cw-focused"@
    } else if selected {
        "cw-cell cw-letter cw-selected"@
    } else {
        match newest {
            Some(ActionType::Placeholder) => "cw-cell cw-letter cw-placeholder"@,
            Some(ActionType::IncorrectGuess) => "cw-cell cw-letter cw-incorrect"@,
            Some(ActionType::CorrectGuess) => "cw-cell cw-letter cw-correct"@,
            None => "cw-cell cw-letter"@,
        }
    }
}

/// CSS classes of a letter cell.
pub fn cell_class(focused: bool, selected: bool, newest: Option<ActionType>) -> (r: &'static str)
    ensures
        r@ == cell_class_spec(focused, selected, newest),
{
    if focused {
        "cw-cell cw-letter cw-focused"
    } else if selected {
        "cw-cell cw-letter cw-selected"
    } else {
        match newest {
            Some(ActionType::Placeholder) => "cw-cell cw-letter cw-placeholder",
            Some(ActionType::IncorrectGuess) => "cw-cell cw-letter cw-incorrect",
            Some(ActionType::CorrectGuess) => "cw-cell cw-letter cw-correct",
            None => "cw-cell cw-letter",
        }
    }
}

/// Seconds after which a silent player's presence stops showing.
pub const PRESENCE_TTL_SECS: u64 = 45;

/// Another player's live selection, stamped with the local tick it arrived.
#[derive(Debug, PartialEq, Eq)]
pub struct PresenceEntry {
    pub name: String,
    pub selection: Option<(i32, Direction)>,
    pub tick: u64,
}

impl Clone for PresenceEntry {
    fn clone(&self) -> (r: Self)
        ensures
            r == *self,
    {
        PresenceEntry { name: self.name.clone(), selection: self.selection, tick: self.tick }
    }
}

/// An entry stamped `tick` still shows at local time `now`.
pub open spec fn is_fresh(tick: u64, now: u64) -> bool {
    (if now >= tick {
        now - tick
    } else {
        0
    }) <= PRESENCE_TTL_SECS
}

/// Whether an entry stamped `tick` still shows at local time `now`.
pub fn fresh(tick: u64, now: u64) -> (r: bool)
    ensures
        r == is_fresh(tick, now),
{
    now.saturating_sub(tick) <= PRESENCE_TTL_SECS
}

/// The other players' live selections, keyed by user id.
#[derive(Debug, PartialEq, Eq)]
pub struct Presence {
    pub entries: Vec<(String, PresenceEntry)>,
}

impl Presence {
    /// Each user id occurs once.
    pub open spec fn wf(&self) -> bool {
        forall|i: int, j: int|
            0 <= i < j < self.entries@.len() ==> (#[trigger] self.entries@[i]).0@ != (
            #[trigger] self.entries@[j]).0@
    }

    /// The entries as a map from user id.
    pub open spec fn view(&self) -> Map<Seq<char>, PresenceEntry> {
        Map::new(
            |u: Seq<char>| exists|i: int| 0 <= i < self.entries@.len() && (#[trigger] self.entries@[i]).0@ == u,
            |u: Seq<char>| self.entries@[choose|i: int| 0 <= i < self.entries@.len() && (#[trigger] self.entries@[i]).0@ == u].1,
        )
    }

    /// Whether each user id occurs once (what `wf` states), checked.
    pub fn keys_unique(&self) -> (r: bool)
        ensures
            r == self.wf(),
    {
        let n = self.entries.len();
        let mut i: usize = 0;
        while i < n
            invariant
                n == self.entries@.len(),
                i <= n,
                forall|a: int, b: int|
                    0 <= a < i && a < b < n ==> (#[trigger] self.entries@[a]).0@ != (#[trigger] self.entries@[b]).0@,
            decreases n - i,
        {
            let mut j: usize = i + 1;
            while j < n
                invariant
                    n == self.entries@.len(),
                    i < n,
                    i + 1 <= j <= n,
                    forall|a: int, b: int|
                        0 <= a < i && a < b < n ==> (#[trigger] self.entries@[a]).0@ != (#[trigger] self.entries@[b]).0@,
                    forall|b: int| i < b < j ==> self.entries@[i as int].0@ != (#[trigger] self.entries@[b]).0@,
                decreases n - j,
            {
                if same_str(self.entries[i].0.as_str(), self.entries[j].0.as_str()) {
                    assert(!self.wf()) by {
                        assert(self.entries@[i as int].0@ == self.entries@[j as int].0@);
                    }
                    return false;
                }
                j = j + 1;
            }
            i = i + 1;
        }
        true
    }

    /// No entries.
    pub fn new() -> (r: Presence)
        ensures
            r.wf(),
            r.view() == Map::<Seq<char>, PresenceEntry>::empty(),
    {
        let r = Presence { entries: Vec::new() };
        assert(r.view() =~= Map::<Seq<char>, PresenceEntry>::empty());
        r
    }

    /// Position of `uid`, if present.
    pub fn position(&self, uid: &str) -> (r: Option<usize>)
        ensures
            match r {
                Some(i) => i < self.entries@.len() && self.entries@[i as int].0@ == uid@,
                None => forall|i: int| 0 <= i < self.entries@.len() ==> (#[trigger] self.entries@[i]).0@ != uid@,
            },
    {
        let mut i: usize = 0;
        while i < self.entries.len()
            invariant
                i <= self.entries@.len(),
                forall|j: int| 0 <= j < i ==> (#[trigger] self.entries@[j]).0@ != uid@,
            decreases self.entries@.len() - i,
        {
            if same_str(self.entries[i].0.as_str(), uid) {
                return Some(i);
            }
            i = i + 1;
        }
        None
    }

    /// The entry of `uid`.
    pub fn get(&self, uid: &str) -> (r: Option<&PresenceEntry>)
        requires
            self.wf(),
        ensures
            match r {
                Some(e) => self.view().contains_key(uid@) && self.view()[uid@] == *e,
                None => !self.view().contains_key(uid@),
            },
    {
        match self.position(uid) {
            Some(i) => {
                proof {
                    let c = choose|k: int| 0 <= k < self.entries@.len() && (#[trigger] self.entries@[k]).0@ == uid@;
                    assert(0 <= c < self.entries@.len() && self.entries@[c].0@ == uid@);
                    if c != i {
                        if c < i {
                            assert(self.entries@[c].0@ != self.entries@[i as int].0@);
                        } else {
                            assert(self.entries@[i as int].0@ != self.entries@[c].0@);
                        }
                    }
                }
                Some(&self.entries[i].1)
            },
            None => None,
        }
    }

    /// Records `uid`'s latest presence, replacing any earlier one.
    pub fn upsert(&mut self, uid: String, e: PresenceEntry)
        requires
            old(self).wf(),
        ensures
            final(self).wf(),
            final(self).view() == old(self).view().insert(uid@, e),
    {
        let ghost u = uid@;
        let ghost old_entries = self.entries@;
        match self.position(uid.as_str()) {
            Some(i) => {
                self.entries.set(i, (uid, e));
                proof {
                    assert forall|a: int, b: int| 0 <= a < b < self.entries@.len() implies (
                    #[trigger] self.entries@[a]).0@ != (#[trigger] self.entries@[b]).0@ by {
                        if a != i && b != i {
                            assert(self.entries@[a] == old_entries[a] && self.entries@[b] == old_entries[b]);
                        } else if a == i {
                            assert(self.entries@[b] == old_entries[b]);
                            assert(old_entries[i as int].0@ == u);
                        } else {
                            assert(self.entries@[a] == old_entries[a]);
                            assert(old_entries[i as int].0@ == u);
                        }
                    }
                }
            },
            None => {
                self.entries.push((uid, e));
                proof {
                    assert forall|a: int, b: int| 0 <= a < b < self.entries@.len() implies (
                    #[trigger] self.entries@[a]).0@ != (#[trigger] self.entries@[b]).0@ by {
                        if b == old_entries.len() {
                            assert(self.entries@[a] == old_entries[a]);
                        } else {
                            assert(self.entries@[a] == old_entries[a] && self.entries@[b] == old_entries[b]);
                        }
                    }
                }
            },
        }
        proof {
            let nv = self.view();
            let ov = old(self).view().insert(u, e);
            assert forall|k: Seq<char>| #[trigger] nv.contains_key(k) <==> ov.contains_key(k) by {
                if ov.contains_key(k) && k != u {
                    let c = choose|j: int| 0 <= j < old_entries.len() && (#[trigger] old_entries[j]).0@ == k;
                    assert(self.entries@[c] == old_entries[c]);
                }
                if nv.contains_key(k) && k != u {
                    let c = choose|j: int| 0 <= j < self.entries@.len() && (#[trigger] self.entries@[j]).0@ == k;
                    assert(self.entries@[c] == old_entries[c]);
                }
                if k == u {
                    let c = if self.entries@.len() > old_entries.len() { old_entries.len() as int } else {
                        choose|j: int| 0 <= j < old_entries.len() && (#[trigger] old_entries[j]).0@ == u
                    };
                    assert(0 <= c < self.entries@.len() && self.entries@[c].0@ == u);
                }
            }
            assert forall|k: Seq<char>| #[trigger] nv.contains_key(k) implies nv[k] == ov[k] by {
                let c = choose|j: int| 0 <= j < self.entries@.len() && (#[trigger] self.entries@[j]).0@ == k;
                if k == u {
                    assert(self.entries@[c].1 == e);
                } else {
                    assert(self.entries@[c] == old_entries[c]);
                    let d = choose|j: int| 0 <= j < old_entries.len() && (#[trigger] old_entries[j]).0@ == k;
                    if c != d {
                        if c < d {
                            assert(old_entries[c].0@ != old_entries[d].0@);
                        } else {
                            assert(old_entries[d].0@ != old_entries[c].0@);
                        }
                    }
                }
            }
            assert(nv =~= ov);
        }
    }
}


impl Presence {
    /// Drops the entries that went silent: those not fresh at `now`.
    pub fn prune(&mut self, now: u64)
        requires
            old(self).wf(),
        ensures
            final(self).wf(),
            final(self).entries@ == old(self).entries@.filter(
                |p: (String, PresenceEntry)| is_fresh(p.1.tick, now),
            ),
            final(self).view() == fresh_at(old(self).view(), now),
    {
        let ghost pred = |p: (String, PresenceEntry)| is_fresh(p.1.tick, now);
        let ghost src = self.entries@;
        let mut kept: Vec<(String, PresenceEntry)> = Vec::new();
        let ghost mut idx: Seq<int> = Seq::empty();
        let n = self.entries.len();
        for i in 0..n
            invariant
                n == src.len(),
                src == self.entries@,
                forall|a: int, b: int| 0 <= a < b < src.len() ==> (#[trigger] src[a]).0@ != (#[trigger] src[b]).0@,
                pred == (|p: (String, PresenceEntry)| is_fresh(p.1.tick, now)),
                kept@ == src.take(i as int).filter(pred),
                idx.len() == kept@.len(),
                forall|k: int| 0 <= k < idx.len() ==> 0 <= #[trigger] idx[k] < i && kept@[k] == src[idx[k]],
                forall|k: int, l: int| 0 <= k < l < idx.len() ==> idx[k] < idx[l],
        {
            let p = &self.entries[i];
            proof {
                reveal(Seq::filter);
                assert(src.take(i + 1).drop_last() =~= src.take(i as int));
                assert(src.take(i + 1).last() == src[i as int]);
            }
            if fresh(p.1.tick, now) {
                kept.push((p.0.clone(), p.1.clone()));
                proof {
                    idx = idx.push(i as int);
                }
            }
        }
        assert(src.take(n as int) =~= src);
        self.entries = kept;
        proof {
            assert forall|a: int, b: int| 0 <= a < b < self.entries@.len() implies (
            #[trigger] self.entries@[a]).0@ != (#[trigger] self.entries@[b]).0@ by {
                assert(idx[a] < idx[b]);
                assert(src[idx[a]].0@ != src[idx[b]].0@);
            }
            let bv = Map::new(
                |u: Seq<char>| exists|i: int| 0 <= i < src.len() && (#[trigger] src[i]).0@ == u,
                |u: Seq<char>| src[choose|i: int| 0 <= i < src.len() && (#[trigger] src[i]).0@ == u].1,
            );
            let kv = self.view();
            let want = fresh_at(bv, now);
            assert forall|u: Seq<char>| #[trigger] kv.contains_key(u) implies want.contains_key(u) && kv[u] == want[u] by {
                let k = choose|k: int| 0 <= k < self.entries@.len() && (#[trigger] self.entries@[k]).0@ == u;
                src.lemma_filter_pred(pred, k);
                assert(src[idx[k]].0@ == u);
                assert(bv.contains_key(u));
                let c = choose|i: int| 0 <= i < src.len() && (#[trigger] src[i]).0@ == u;
                if c != idx[k] {
                    if c < idx[k] {
                        assert(src[c].0@ != src[idx[k]].0@);
                    } else {
                        assert(src[idx[k]].0@ != src[c].0@);
                    }
                }
                assert(bv[u] == src[idx[k]].1);
                assert(kv[u] == self.entries@[k].1);
            }
            assert forall|u: Seq<char>| #[trigger] want.contains_key(u) implies kv.contains_key(u) by {
                let c = choose|i: int| 0 <= i < src.len() && (#[trigger] src[i]).0@ == u;
                assert(pred(src[c]));
                src.lemma_filter_contains(pred, c);
                let k = choose|k: int| 0 <= k < self.entries@.len() && self.entries@[k] == src[c];
                assert(self.entries@[k].0@ == u);
            }
            assert(kv =~= want);
            assert(bv =~= old(self).view());
        }
    }

    /// Whether some entry went silent at `now`.
    pub fn any_stale(&self, now: u64) -> (r: bool)
        ensures
            r == exists|i: int| 0 <= i < self.entries@.len() && !is_fresh((#[trigger] self.entries@[i]).1.tick, now),
    {
        let mut i: usize = 0;
        while i < self.entries.len()
            invariant
                i <= self.entries@.len(),
                forall|j: int| 0 <= j < i ==> is_fresh((#[trigger] self.entries@[j]).1.tick, now),
            decreases self.entries@.len() - i,
        {
            if !fresh(self.entries[i].1.tick, now) {
                return true;
            }
            i = i + 1;
        }
        false
    }
}

/// The entries of `m` that are still fresh at `now`.
pub open spec fn fresh_at(m: Map<Seq<char>, PresenceEntry>, now: u64) -> Map<Seq<char>, PresenceEntry> {
    Map::new(|u: Seq<char>| m.contains_key(u) && is_fresh(m[u].tick, now), |u: Seq<char>| m[u])
}

/// A presence broadcast as it arrived: each field present only when it had
/// the expected JSON type.
#[derive(Debug, PartialEq, Eq)]
pub struct PresenceEvent {
    pub active_game_id: Option<String>,
    pub user_id: Option<String>,
    pub number: Option<i64>,
    pub direction: Option<String>,
    pub name: Option<String>,
}

/// The presence entry a broadcast records: only one for this game, from
/// another player; the selection needs both a number and a known direction;
/// a missing name reads "Anonymous Player".
pub open spec fn presence_update_spec(
    ev: PresenceEvent,
    game_id: Seq<char>,
    my_id: Option<Seq<char>>,
    tick: u64,
    r: Option<(String, PresenceEntry)>,
) -> bool {
    if !(ev.active_game_id matches Some(g) && g@ == game_id) || ev.user_id is None || my_id == Some(
        ev.user_id.unwrap()@,
    ) {
        r is None
    } else {
        r matches Some(p) && p.0 == ev.user_id.unwrap() && p.1.tick == tick && p.1.name@
            == match ev.name {
            Some(n) => n@,
            None => "Anonymous Player"@,
        } && p.1.selection == match (
            ev.number,
            match ev.direction {
                Some(d) => direction_from_spec(d@),
                None => None,
            },
        ) {
            (Some(n), Some(d)) => Some((n as i32, d)),
            _ => None,
        }
    }
}

/// The presence entry to record for a broadcast, if it is one to keep.
pub fn presence_update(ev: &PresenceEvent, game_id: &str, my_id: Option<&str>, tick: u64) -> (r:
    Option<(String, PresenceEntry)>)
    ensures
        presence_update_spec(
            *ev,
            game_id@,
            match my_id {
                Some(m) => Some(m@),
                None => None,
            },
            tick,
            r,
        ),
{
    let ours = match &ev.active_game_id {
        Some(g) => same_str(g.as_str(), game_id),
        None => false,
    };
    if !ours {
        return None;
    }
    let uid = match &ev.user_id {
        Some(u) => u,
        None => return None,
    };
    let mine = match my_id {
        Some(m) => same_str(m, uid.as_str()),
        None => false,
    };
    if mine {
        return None;
    }
    let dir = match &ev.direction {
        Some(d) => direction_from_str(d.as_str()),
        None => None,
    };
    let selection = match (ev.number, dir) {
        (Some(n), Some(d)) => Some((n as i32, d)),
        _ => None,
    };
    let name = match &ev.name {
        Some(n) => n.clone(),
        None => String::from_str("Anonymous Player"),
    };
    Some((uid.clone(), PresenceEntry { name, selection, tick }))
}

/// The game to open when a completion broadcast concerns this game.
pub fn completion_redirect(active: Option<&str>, completed: Option<&str>, game_id: &str) -> (r:
    Option<String>)
    ensures
        match r {
            Some(c) => (active matches Some(a) && a@ == game_id@) && (completed matches Some(d) && c@ == d@),
            None => !((active matches Some(a) && a@ == game_id@) && completed is Some),
        },
{
    match active {
        Some(a) => {
            if same_str(a, game_id) {
                match completed {
                    Some(c) => Some(String::from_str(c)),
                    None => None,
                }
            } else {
                None
            }
        },
        None => None,
    }
}

/// An `onAddActions` entry as it arrived: its game id when it had one, and
/// the action when it parsed.
#[derive(Debug, PartialEq, Eq)]
pub struct ActionEvent {
    pub active_game_id: Option<String>,
    pub action: Option<GameAction>,
}

/// An entry belongs to this game unless it names another one, and is kept
/// when its action parsed.
pub open spec fn incoming_keeps(e: ActionEvent, game_id: Seq<char>) -> bool {
    (e.active_game_id matches Some(g) ==> g@ == game_id) && e.action is Some
}

/// The incoming actions of this game, in order.
pub open spec fn incoming_of(evs: Seq<ActionEvent>, game_id: Seq<char>) -> Seq<GameAction>
    decreases evs.len(),
{
    if evs.len() == 0 {
        Seq::empty()
    } else {
        let rest = incoming_of(evs.drop_last(), game_id);
        if incoming_keeps(evs.last(), game_id) {
            rest.push(evs.last().action.unwrap())
        } else {
            rest
        }
    }
}

/// The actions of a broadcast batch that belong to this game.
pub fn incoming_actions(evs: Vec<ActionEvent>, game_id: &str) -> (r: Vec<GameAction>)
    ensures
        r@ == incoming_of(evs@, game_id@),
{
    let ghost all = evs@;
    let mut src = evs;
    let mut out: Vec<GameAction> = Vec::new();
    let mut i: usize = 0;
    let ghost n = all.len();
    assert(n <= usize::MAX) by {
        assert(src@.len() == src.len());
    }
    while src.len() > 0
        invariant
            n == all.len(),
            n <= usize::MAX,
            i + src@.len() == n,
            src@ == all.subrange(i as int, n as int),
            out@ == incoming_of(all.take(i as int), game_id@),
        decreases src@.len(),
    {
        let e = src.remove(0);
        assert(e == all[i as int]);
        proof {
            assert(all.take(i + 1).drop_last() =~= all.take(i as int));
        }
        let belongs = match &e.active_game_id {
            Some(g) => same_str(g.as_str(), game_id),
            None => true,
        };
        if belongs {
            match e.action {
                Some(a) => out.push(a),
                None => {},
            }
        }
        i = i + 1;
    }
    assert(all.take(n as int) =~= all);
    out
}


/// The panels of the play screen.
#[derive(Debug, Clone, Copy, PartialEq, Eq, Structural)]
pub enum PanelId {
    Board,
    Clue,
    Clues,
}

impl PanelId {
    /// Panel caption.
    pub fn title(self) -> (r: &'static str)
        ensures
            r@ == match self {
                PanelId::Board => "Board"@,
                PanelId::Clue => "Active Clue"@,
                PanelId::Clues => "Clues"@,
            },
    {
        match self {
            PanelId::Board => "Board",
            PanelId::Clue => "Active Clue",
            PanelId::Clues => "Clues",
        }
    }
}

/// The slot of `slots` at `(x, y)`, the first when several are.
pub open spec fn first_slot_at(slots: Seq<ActionSlot>, x: i32, y: i32, k: int) -> bool {
    0 <= k < slots.len() && slots[k].cord_x == x && slots[k].cord_y == y && forall|j: int|
        0 <= j < k ==> !((#[trigger] slots[j]).cord_x == x && slots[j].cord_y == y)
}

fn slot_at(slots: &Vec<ActionSlot>, x: i32, y: i32) -> (r: Option<usize>)
    ensures
        match r {
            Some(k) => first_slot_at(slots@, x, y, k as int),
            None => forall|j: int| 0 <= j < slots@.len() ==> !((#[trigger] slots@[j]).cord_x == x && slots@[j].cord_y == y),
        },
{
    let mut k: usize = 0;
    while k < slots.len()
        invariant
            k <= slots@.len(),
            forall|j: int| 0 <= j < k ==> !((#[trigger] slots@[j]).cord_x == x && slots@[j].cord_y == y),
        decreases slots@.len() - k,
    {
        if slots[k].cord_x == x && slots[k].cord_y == y {
            return Some(k);
        }
        k = k + 1;
    }
    None
}

/// Wire name of an action type, as a sequence.
pub open spec fn action_name(a: ActionType) -> Seq<char> {
    match a {
        ActionType::Placeholder => "placeholder"@,
        ActionType::CorrectGuess => "correctGuess"@,
        ActionType::IncorrectGuess => "incorrectGuess"@,
    }
}

/// The letter and style of a clue-list bubble: for the selected clue, the
/// letter being typed in that cell (styled by the cell's newest entry, or as
/// a placeholder; unstyled when empty); otherwise the cell's newest entry.
pub open spec fn bubble_spec(
    selected: Option<(i32, Direction)>,
    key: (i32, Direction),
    cell: Cell,
    slots: Seq<ActionSlot>,
    r: (Seq<char>, Seq<char>),
) -> bool {
    if selected == Some(key) && exists|k: int| #[trigger] first_slot_at(slots, cell.cord_x, cell.cord_y, k) {
        exists|k: int|
            #[trigger] first_slot_at(slots, cell.cord_x, cell.cord_y, k) && r.0 == slots[k].state@ && r.1
                == if slots[k].state@.len() == 0 {
                Seq::empty()
            } else if cell.modifications@.len() > 0 {
                action_name(cell.modifications@[0].action_type)
            } else {
                "placeholder"@
            }
    } else if cell.modifications@.len() > 0 {
        r.0 == cell.modifications@[0].state@ && r.1 == action_name(cell.modifications@[0].action_type)
    } else {
        r.0 == Seq::<char>::empty() && r.1 == Seq::<char>::empty()
    }
}

/// The letter and style of a cell's bubble in the clue list.
pub fn bubble_state(
    selected: Option<(i32, Direction)>,
    key: (i32, Direction),
    cell: &Cell,
    slots: &Vec<ActionSlot>,
) -> (r: (String, &'static str))
    ensures
        bubble_spec(selected, key, *cell, slots@, (r.0@, r.1@)),
{
    let is_sel = match selected {
        Some(k) => k.0 == key.0 && k.1 == key.1,
        None => false,
    };
    if is_sel {
        match slot_at(slots, cell.cord_x, cell.cord_y) {
            Some(k) => {
                let s = &slots[k];
                let at = if cell.modifications.len() > 0 {
                    action_type_str(cell.modifications[0].action_type)
                } else {
                    "placeholder"
                };
                let style = if s.state.as_str().is_empty() {
                    ""
                } else {
                    at
                };
                proof {
                    reveal_strlit("");
                    assert(""@ =~= Seq::<char>::empty());
                    assert(first_slot_at(slots@, cell.cord_x, cell.cord_y, k as int));
                }
                return (s.state.clone(), style);
            },
            None => {},
        }
    }
    proof {
        reveal_strlit("");
        assert(""@ =~= Seq::<char>::empty());
    }
    if cell.modifications.len() > 0 {
        (cell.modifications[0].state.clone(), action_type_str(cell.modifications[0].action_type))
    } else {
        (String::new(), "")
    }
}

/// CSS classes of a bubble from its letter and style.
pub fn bubble_class(letter: &str, style: &str) -> (r: &'static str)
    ensures
        r@ == if letter@.len() == 0 {
            "cw-bubble cw-bubble-empty"@
        } else if style@ == "incorrectGuess"@ {
            "cw-bubble cw-incorrect"@
        } else if style@ == "correctGuess"@ {
            "cw-bubble cw-correct"@
        } else {
            "cw-bubble cw-placeholder"@
        },
{
    if letter.is_empty() {
        "cw-bubble cw-bubble-empty"
    } else if same_str(style, "incorrectGuess") {
        "cw-bubble cw-incorrect"
    } else if same_str(style, "correctGuess") {
        "cw-bubble cw-correct"
    } else {
        "cw-bubble cw-placeholder"
    }
}

/// One chip of the roster bar.
#[derive(Debug, PartialEq, Eq)]
pub struct Chip {
    pub uid: String,
    pub name: String,
    pub is_owner: bool,
    pub selection: Option<(i32, Direction)>,
}

/// The live selection of `uid` at `now`: its entry's, when the entry exists
/// and is fresh.
pub open spec fn live_selection(p: Map<Seq<char>, PresenceEntry>, uid: Seq<char>, now: u64) -> Option<(i32, Direction)> {
    if p.contains_key(uid) && is_fresh(p[uid].tick, now) {
        p[uid].selection
    } else {
        None
    }
}

/// The chip of a member.
pub open spec fn member_chip(m: MemberInfo, p: Map<Seq<char>, PresenceEntry>, now: u64, c: Chip) -> bool {
    c.uid == m.user_id && c.name == m.user_name && c.is_owner == m.is_owner && c.selection
        == live_selection(p, m.user_id@, now)
}

/// A presence entry gets a chip of its own: its user is not in the roster
/// and it is fresh.
pub open spec fn presence_only(members: Seq<MemberInfo>, e: (String, PresenceEntry), now: u64) -> bool {
    (forall|k: int| 0 <= k < members.len() ==> (#[trigger] members[k]).user_id@ != e.0@) && is_fresh(e.1.tick, now)
}

/// The chip of a presence-only player (never the host).
pub open spec fn presence_chip(e: (String, PresenceEntry), c: Chip) -> bool {
    c.uid == e.0 && c.name == e.1.name && !c.is_owner && c.selection == e.1.selection
}

fn is_member(members: &Vec<MemberInfo>, uid: &str) -> (r: bool)
    ensures
        r == exists|k: int| 0 <= k < members@.len() && (#[trigger] members@[k]).user_id@ == uid@,
{
    let mut k: usize = 0;
    while k < members.len()
        invariant
            k <= members@.len(),
            forall|j: int| 0 <= j < k ==> (#[trigger] members@[j]).user_id@ != uid@,
        decreases members@.len() - k,
    {
        if same_str(members[k].user_id.as_str(), uid) {
            return true;
        }
        k = k + 1;
    }
    false
}

/// The roster bar: a chip per member (with their live selection), then a
/// chip per other player known only from a fresh presence entry.
pub fn player_chips(members: &Vec<MemberInfo>, presence: &Presence, now: u64) -> (r: Vec<Chip>)
    requires
        presence.wf(),
    ensures
        ({
            let others = presence.entries@.filter(|e: (String, PresenceEntry)| presence_only(members@, e, now));
            &&& r@.len() == members@.len() + others.len()
            &&& forall|k: int| 0 <= k < members@.len() ==> member_chip(#[trigger] members@[k], presence.view(), now, r@[k])
            &&& forall|k: int| 0 <= k < others.len() ==> presence_chip(#[trigger] others[k], r@[members@.len() + k])
        }),
{
    let mut out: Vec<Chip> = Vec::new();
    for i in 0..members.len()
        invariant
            presence.wf(),
            out@.len() == i,
            forall|k: int| 0 <= k < i ==> member_chip(#[trigger] members@[k], presence.view(), now, out@[k]),
    {
        let m = &members[i];
        let sel = match presence.get(m.user_id.as_str()) {
            Some(e) => if fresh(e.tick, now) {
                e.selection
            } else {
                None
            },
            None => None,
        };
        out.push(Chip { uid: m.user_id.clone(), name: m.user_name.clone(), is_owner: m.is_owner, selection: sel });
    }
    let ghost pred = |e: (String, PresenceEntry)| presence_only(members@, e, now);
    let mut extra: Vec<Chip> = Vec::new();
    for i in 0..presence.entries.len()
        invariant
            pred == (|e: (String, PresenceEntry)| presence_only(members@, e, now)),
            extra@.len() == presence.entries@.take(i as int).filter(pred).len(),
            forall|k: int| 0 <= k < extra@.len() ==> presence_chip(presence.entries@.take(i as int).filter(pred)[k], #[trigger] extra@[k]),
    {
        let e = &presence.entries[i];
        let member = is_member(members, e.0.as_str());
        let live = fresh(e.1.tick, now);
        proof {
            reveal(Seq::filter);
            assert(presence.entries@.take(i + 1).drop_last() =~= presence.entries@.take(i as int));
            assert(presence.entries@.take(i + 1).last() == *e);
            assert(pred(*e) == (!member && live));
        }
        if !member && live {
            extra.push(Chip { uid: e.0.clone(), name: e.1.name.clone(), is_owner: false, selection: e.1.selection });
        }
    }
    assert(presence.entries@.take(presence.entries@.len() as int) =~= presence.entries@);
    let ghost head = out@;
    let ghost tail = extra@;
    out.append(&mut extra);
    assert(out@ =~= head + tail);
    out
}

/// A remote player's focused word, for the board's coloured rings.
#[derive(Debug, PartialEq, Eq)]
pub struct RemoteSelection {
    pub key: (i32, Direction),
    pub color: String,
    pub name: String,
}

/// A presence entry shows as a ring: fresh and with a selection.
pub open spec fn shows_ring(e: (String, PresenceEntry), now: u64) -> bool {
    is_fresh(e.1.tick, now) && e.1.selection is Some
}

/// The ring drawn for a presence entry: its word, its player's colour and name.
pub open spec fn ring_of(e: (String, PresenceEntry), me: Option<Seq<char>>, r: RemoteSelection) -> bool {
    &&& r.key == e.1.selection.unwrap()
    &&& r.name == e.1.name
    &&& r.color@ == player_color_spec(e.0@, me)
}

/// The coloured rings of the other players' live selections.
pub fn remote_selections(presence: &Presence, now: u64, my_id: Option<&str>) -> (r: Vec<RemoteSelection>)
    ensures
        ({
            let shown = presence.entries@.filter(|e: (String, PresenceEntry)| shows_ring(e, now));
            &&& r@.len() == shown.len()
            &&& forall|k: int| 0 <= k < shown.len() ==> ring_of(#[trigger] shown[k], my_id_view(my_id), r@[k])
        }),
{
    let ghost pred = |e: (String, PresenceEntry)| shows_ring(e, now);
    let ghost me = my_id_view(my_id);
    let mut out: Vec<RemoteSelection> = Vec::new();
    for i in 0..presence.entries.len()
        invariant
            pred == (|e: (String, PresenceEntry)| shows_ring(e, now)),
            me == my_id_view(my_id),
            out@.len() == presence.entries@.take(i as int).filter(pred).len(),
            forall|k: int| 0 <= k < out@.len() ==> ring_of(presence.entries@.take(i as int).filter(pred)[k], me, #[trigger] out@[k]),
    {
        let e = &presence.entries[i];
        let live = fresh(e.1.tick, now);
        proof {
            reveal(Seq::filter);
            assert(presence.entries@.take(i + 1).drop_last() =~= presence.entries@.take(i as int));
            assert(presence.entries@.take(i + 1).last() == *e);
            assert(pred(*e) == (live && e.1.selection is Some));
        }
        if live {
            match e.1.selection {
                Some(key) => {
                    let color = player_color(e.0.as_str(), my_id);
                    out.push(RemoteSelection { key, color, name: e.1.name.clone() });
                },
                None => {},
            }
        }
    }
    assert(presence.entries@.take(presence.entries@.len() as int) =~= presence.entries@);
    out
}


/// A remote selection's clue covers cell `(x, y)`.
pub open spec fn ring_covers(r: RemoteSelection, maps: Seq<QuestionWithAnswerMap>, x: i32, y: i32) -> bool {
    exists|i: int| 0 <= i < maps.len() && qkey_spec(maps[i].question) == r.key && #[trigger] covers(maps[i], x, y)
}

/// The ring a cell shows: the first remote selection covering it.
pub open spec fn first_ring(remote: Seq<RemoteSelection>, maps: Seq<QuestionWithAnswerMap>, x: i32, y: i32, k: int) -> bool {
    0 <= k < remote.len() && ring_covers(remote[k], maps, x, y) && forall|j: int|
        0 <= j < k ==> !ring_covers(#[trigger] remote[j], maps, x, y)
}

fn ring_covers_exec(r: &RemoteSelection, maps: &Vec<QuestionWithAnswerMap>, x: i32, y: i32) -> (b: bool)
    ensures
        b == ring_covers(*r, maps@, x, y),
{
    let mut i: usize = 0;
    while i < maps.len()
        invariant
            i <= maps@.len(),
            forall|j: int| 0 <= j < i ==> !(qkey_spec(maps@[j].question) == r.key && #[trigger] covers(maps@[j], x, y)),
        decreases maps@.len() - i,
    {
        let k = qkey(&maps[i].question);
        if k.0 == r.key.0 && k.1 == r.key.1 && covers_exec(&maps[i], x, y) {
            return true;
        }
        i = i + 1;
    }
    false
}

fn ring_at(remote: &Vec<RemoteSelection>, maps: &Vec<QuestionWithAnswerMap>, x: i32, y: i32) -> (r: Option<usize>)
    ensures
        match r {
            Some(k) => first_ring(remote@, maps@, x, y, k as int),
            None => forall|j: int| 0 <= j < remote@.len() ==> !ring_covers(#[trigger] remote@[j], maps@, x, y),
        },
{
    let mut k: usize = 0;
    while k < remote.len()
        invariant
            k <= remote@.len(),
            forall|j: int| 0 <= j < k ==> !ring_covers(#[trigger] remote@[j], maps@, x, y),
        decreases remote@.len() - k,
    {
        if ring_covers_exec(&remote[k], maps, x, y) {
            return Some(k);
        }
        k = k + 1;
    }
    None
}

/// Cell `(x, y)` belongs to the selected clue.
pub open spec fn in_selected(sel: Option<QuestionWithAnswerMap>, x: i32, y: i32) -> bool {
    sel matches Some(m) && covers(m, x, y)
}

/// Cell `(x, y)` is the box being typed in: the selected clue's cell at the
/// focused index.
pub open spec fn focused_at(sel: Option<QuestionWithAnswerMap>, fi: Option<usize>, x: i32, y: i32) -> bool {
    sel matches Some(m) && fi matches Some(i) && i < m.answer_map@.len() && m.answer_map@[i as int].cord_x == x
        && m.answer_map@[i as int].cord_y == y
}

/// What is being typed at `(x, y)`: the state of the first entry slot
/// there, or nothing.
pub open spec fn typed_at(slots: Seq<ActionSlot>, x: i32, y: i32) -> Seq<char> {
    if exists|k: int| #[trigger] first_slot_at(slots, x, y, k) {
        slots[choose|k: int| #[trigger] first_slot_at(slots, x, y, k)].state@
    } else {
        Seq::empty()
    }
}

/// The printed number of a cell: that of the first clue starting there.
pub open spec fn number_at(maps: Seq<QuestionWithAnswerMap>, x: i32, y: i32, n: Option<i32>) -> bool {
    match n {
        Some(v) => exists|i: int| #[trigger] first_rooted(maps, x, y, i) && v == maps[i].question.number,
        None => forall|j: int| 0 <= j < maps.len() ==> !((#[trigger] maps[j]).question.root_x == x && maps[j].question.root_y == y),
    }
}

/// What a letter cell of the board shows.
#[derive(Debug, PartialEq, Eq)]
pub struct BoardCell {
    pub class: &'static str,
    pub number: Option<i32>,
    /// The ring's style and tooltip when another player works on the cell.
    pub ring: Option<(String, String)>,
    pub text: String,
}

/// The newest entry's kind of a cell.
pub open spec fn newest_kind(c: Cell) -> Option<ActionType> {
    if c.modifications@.len() > 0 {
        Some(c.modifications@[0].action_type)
    } else {
        None
    }
}

/// A letter cell of the board: focused box, selected word or the newest
/// entry's style; the clue number starting there; another player's ring;
/// and the letter (what is being typed in the selected word, else the
/// newest entry). Blocks show nothing.
pub fn board_cell(
    cell: &Cell,
    maps: &Vec<QuestionWithAnswerMap>,
    selected: &Option<QuestionWithAnswerMap>,
    slots: &Vec<ActionSlot>,
    focused_index: Option<usize>,
    remote: &Vec<RemoteSelection>,
) -> (r: Option<BoardCell>)
    ensures
        cell.is_block <==> r is None,
        r matches Some(b) ==> {
            let (x, y) = (cell.cord_x, cell.cord_y);
            let sel = in_selected(*selected, x, y);
            &&& b.class@ == cell_class_spec(focused_at(*selected, focused_index, x, y), sel, newest_kind(*cell))
            &&& number_at(maps@, x, y, b.number)
            &&& ring_spec(remote@, maps@, x, y, b.ring)
            &&& b.text@ == if sel {
                typed_at(slots@, x, y)
            } else {
                current_letter(*cell)
            }
        },
{
    if cell.is_block {
        return None;
    }
    let x = cell.cord_x;
    let y = cell.cord_y;
    let sel = match selected {
        Some(m) => covers_exec(m, x, y),
        None => false,
    };
    let focused = match (selected, focused_index) {
        (Some(m), Some(i)) => i < m.answer_map.len() && m.answer_map[i].cord_x == x && m.answer_map[i].cord_y == y,
        _ => false,
    };
    let newest = if cell.modifications.len() > 0 {
        Some(cell.modifications[0].action_type)
    } else {
        None
    };
    let class = cell_class(focused, sel, newest);
    let number = cell_number(maps, x, y);
    let ring = ring_for(remote, maps, x, y);
    let text = cell_text(cell, slots, sel);
    Some(BoardCell { class, number, ring, text })
}

/// The ring style and tooltip of cell `(x, y)`, if another player works on it.
pub open spec fn ring_spec(
    remote: Seq<RemoteSelection>,
    maps: Seq<QuestionWithAnswerMap>,
    x: i32,
    y: i32,
    ring: Option<(String, String)>,
) -> bool {
    match ring {
        Some((style, title)) => exists|k: int| #[trigger] first_ring(remote, maps, x, y, k)
            && style@ == "box-shadow: inset 0 0 0 2px "@ + remote[k].color@ + ";"@
            && title@ == remote[k].name@ + " is working here"@,
        None => forall|j: int| 0 <= j < remote.len() ==> !ring_covers(#[trigger] remote[j], maps, x, y),
    }
}

fn ring_for(remote: &Vec<RemoteSelection>, maps: &Vec<QuestionWithAnswerMap>, x: i32, y: i32) -> (r: Option<(String, String)>)
    ensures
        ring_spec(remote@, maps@, x, y, r),
{
    match ring_at(remote, maps, x, y) {
        Some(k) => {
            let mut style = String::from_str("box-shadow: inset 0 0 0 2px ");
            style.append(remote[k].color.as_str());
            style.append(";");
            let mut title = remote[k].name.clone();
            title.append(" is working here");
            Some((style, title))
        },
        None => None,
    }
}

fn cell_text(cell: &Cell, slots: &Vec<ActionSlot>, sel: bool) -> (r: String)
    ensures
        r@ == if sel {
            typed_at(slots@, cell.cord_x, cell.cord_y)
        } else {
            current_letter(*cell)
        },
{
    let x = cell.cord_x;
    let y = cell.cord_y;
    if sel {
        match slot_at(slots, x, y) {
            Some(k) => {
                proof {
                    assert(first_slot_at(slots@, x, y, k as int));
                    let c = choose|k: int| #[trigger] first_slot_at(slots@, x, y, k);
                    assert(c == k as int) by {
                        if c < k {
                            assert(!(slots@[c].cord_x == x && slots@[c].cord_y == y));
                        } else if c > k {
                            assert(!(slots@[k as int].cord_x == x && slots@[k as int].cord_y == y));
                        }
                    }
                }
                slots[k].state.clone()
            },
            None => {
                proof {
                    assert(!exists|k: int| #[trigger] first_slot_at(slots@, x, y, k));
                }
                String::new()
            },
        }
    } else if cell.modifications.len() > 0 {
        cell.modifications[0].state.clone()
    } else {
        String::new()
    }
}

/// The board's grid style: `cols` by `rows` tracks (at least one each),
/// the aspect ratio they make, and the width that fits both axes.
pub fn board_style(cols: i32, rows: i32) -> (r: String)
    ensures
        ({
            let c = dec(if cols > 1 { cols as int } else { 1 });
            let w = dec(if rows > 1 { rows as int } else { 1 });
            r@ == "grid-template-columns: repeat("@ + c + ", 1fr); grid-template-rows: repeat("@ + w
                + ", 1fr); aspect-ratio: "@ + c + " / "@ + w + "; width: min(100cqw, 100cqh * "@ + c + " / "@
                + w + ");"@
        }),
{
    let c: i64 = if cols > 1 { cols as i64 } else { 1 };
    let w: i64 = if rows > 1 { rows as i64 } else { 1 };
    let mut s = String::from_str("grid-template-columns: repeat(");
    push_dec(&mut s, c);
    s.append(", 1fr); grid-template-rows: repeat(");
    push_dec(&mut s, w);
    s.append(", 1fr); aspect-ratio: ");
    push_dec(&mut s, c);
    s.append(" / ");
    push_dec(&mut s, w);
    s.append("; width: min(100cqw, 100cqh * ");
    push_dec(&mut s, c);
    s.append(" / ");
    push_dec(&mut s, w);
    s.append(");");
    s
}


/// A direction in lowercase, as class names and chip texts use it.
pub open spec fn dir_lower(d: Direction) -> Seq<char> {
    match d {
        Direction::Across => "across"@,
        Direction::Down => "down"@,
    }
}

fn dir_lower_str(d: Direction) -> (r: &'static str)
    ensures
        r@ == dir_lower(d),
{
    match d {
        Direction::Across => "across",
        Direction::Down => "down",
    }
}

/// The head of the active clue: the direction badge's classes and the
/// caption `CLUE n · len LETTERS`.
pub fn clue_head(q: &QuestionWithAnswerMap) -> (r: (String, String))
    ensures
        r.0@ == "cw-dir-badge cw-dir-"@ + dir_lower(q.question.direction),
        r.1@ == "CLUE "@ + dec(q.question.number as int) + " · "@ + dec(q.answer_map@.len() as int) + " LETTERS"@,
{
    let mut badge = String::from_str("cw-dir-badge cw-dir-");
    badge.append(dir_lower_str(q.question.direction));
    let mut cap = String::from_str("CLUE ");
    push_dec(&mut cap, q.question.number as i64);
    cap.append(" · ");
    let n = count_string(q.answer_map.len());
    cap.append(n.as_str());
    cap.append(" LETTERS");
    (badge, cap)
}

/// Classes of a letter box of the active clue.
pub fn letter_input_class(focused: bool) -> (r: &'static str)
    ensures
        r@ == if focused {
            "cw-letter-input cw-input-focused"@
        } else {
            "cw-letter-input"@
        },
{
    if focused {
        "cw-letter-input cw-input-focused"
    } else {
        "cw-letter-input"
    }
}

/// Classes of a direction tab of the clue list: highlighted when it is the
/// selection's direction.
pub fn clue_tab_class(tab: Direction, selected: Option<Direction>) -> (r: &'static str)
    ensures
        r@ == if selected == Some(tab) {
            match tab {
                Direction::Across => "cw-tab cw-tab-active-across"@,
                Direction::Down => "cw-tab cw-tab-active-down"@,
            }
        } else {
            "cw-tab"@
        },
{
    let active = match selected {
        Some(d) => d == tab,
        None => false,
    };
    if active {
        match tab {
            Direction::Across => "cw-tab cw-tab-active-across",
            Direction::Down => "cw-tab cw-tab-active-down",
        }
    } else {
        "cw-tab"
    }
}

/// Classes of a row of the clue list.
pub fn clue_row_class(selected: bool) -> (r: &'static str)
    ensures
        r@ == if selected {
            "cw-clue-row cw-clue-row-sel"@
        } else {
            "cw-clue-row"@
        },
{
    if selected {
        "cw-clue-row cw-clue-row-sel"
    } else {
        "cw-clue-row"
    }
}

/// How a roster chip shows its player: the underline in the player's
/// colour, the `you` tag for the local player, and the clue they are on
/// as `#n direction`.
#[derive(Debug, PartialEq, Eq)]
pub struct ChipView {
    pub style: String,
    pub is_you: bool,
    pub clue: Option<String>,
}

/// The look of a roster chip.
pub fn chip_view(c: &Chip, my_id: Option<&str>) -> (r: ChipView)
    ensures
        r.style@ == "border-bottom: 2px solid "@ + player_color_spec(c.uid@, my_id_view(my_id)) + ";"@,
        r.is_you == (my_id_view(my_id) == Some(c.uid@)),
        match c.selection {
            Some((n, d)) => r.clue matches Some(t) && t@ == "#"@ + dec(n as int) + " "@ + dir_lower(d),
            None => r.clue is None,
        },
{
    let color = player_color(c.uid.as_str(), my_id);
    let mut style = String::from_str("border-bottom: 2px solid ");
    style.append(color.as_str());
    style.append(";");
    let is_you = match my_id {
        Some(m) => same_str(m, c.uid.as_str()),
        None => false,
    };
    let clue = match c.selection {
        Some((n, d)) => {
            let mut t = String::from_str("#");
            push_dec(&mut t, n as i64);
            t.append(" ");
            t.append(dir_lower_str(d));
            Some(t)
        },
        None => None,
    };
    ChipView { style, is_you, clue }
}

/// The invite button's caption.
pub fn invite_label(copied: bool) -> (r: &'static str)
    ensures
        r@ == if copied {
            "Link copied ✓"@
        } else {
            "Copy invite link"@
        },
{
    if copied {
        "Link copied ✓"
    } else {
        "Copy invite link"
    }
}

/// The join button's caption.
pub fn join_label(joining: bool) -> (r: &'static str)
    ensures
        r@ == if joining {
            "Joining…"@
        } else {
            "Join game"@
        },
{
    if joining {
        "Joining…"
    } else {
        "Join game"
    }
}


/// Pruning at `now` leaves only entries that are fresh at `now`, so a
/// pruned roster has nothing stale left to prune.
pub proof fn lemma_pruned_is_fresh(entries: Seq<(String, PresenceEntry)>, now: u64)
    ensures
        ({
            let kept = entries.filter(|p: (String, PresenceEntry)| is_fresh(p.1.tick, now));
            forall|i: int| 0 <= i < kept.len() ==> is_fresh((#[trigger] kept[i]).1.tick, now)
        }),
{
    let pred = |p: (String, PresenceEntry)| is_fresh(p.1.tick, now);
    let kept = entries.filter(pred);
    assert forall|i: int| 0 <= i < kept.len() implies is_fresh((#[trigger] kept[i]).1.tick, now) by {
        entries.lemma_filter_pred(pred, i);
    }
}


/// A presence broadcast concerns another player of this game: it names this
/// game and a user, and that user is not the local player.
pub open spec fn broadcast_kept(ev: PresenceEvent, game_id: Seq<char>, my_id: Option<Seq<char>>) -> bool {
    (ev.active_game_id matches Some(g) && g@ == game_id) && ev.user_id is Some && my_id != Some(
        ev.user_id.unwrap()@,
    )
}

impl Presence {
    /// A presence broadcast arrived at local time `clock`: another player of
    /// this game gets their entry (name, selection) stamped `clock`; any other
    /// broadcast leaves the presence as it is.
    pub fn on_broadcast(&mut self, ev: &PresenceEvent, game_id: &str, my_id: Option<&str>, clock: u64)
        requires
            old(self).wf(),
        ensures
            final(self).wf(),
            !broadcast_kept(*ev, game_id@, my_id_view(my_id)) ==> *final(self) == *old(self),
            broadcast_kept(*ev, game_id@, my_id_view(my_id)) ==> exists|p: (String, PresenceEntry)|
                #[trigger] presence_update_spec(*ev, game_id@, my_id_view(my_id), clock, Some(p))
                    && p.0 == ev.user_id.unwrap() && p.1.tick == clock
                    && final(self).view() == old(self).view().insert(p.0@, p.1),
    {
        match presence_update(ev, game_id, my_id, clock) {
            Some(p) => {
                let ghost q = p;
                self.upsert(p.0, p.1);
                assert(presence_update_spec(*ev, game_id@, my_id_view(my_id), clock, Some(q)));
            },
            None => {},
        }
    }

    /// The presence clock's five-second beat: the clock advances by five and
    /// the entries that went silent (stamped more than the time-to-live
    /// before the new time) are dropped; the new time is returned.
    pub fn tick(&mut self, clock: u64) -> (now: u64)
        requires
            old(self).wf(),
            clock <= u64::MAX - 5,
        ensures
            now == clock + 5,
            final(self).wf(),
            final(self).entries@ == old(self).entries@.filter(
                |p: (String, PresenceEntry)| is_fresh(p.1.tick, now),
            ),
            final(self).view() == fresh_at(old(self).view(), now),
    {
        let now = clock + 5;
        if self.any_stale(now) {
            self.prune(now);
        } else {
            proof {
                lemma_filter_keeps_all(self.entries@, now);
                let v = self.view();
                assert forall|u: Seq<char>| #[trigger] v.contains_key(u) implies is_fresh(v[u].tick, now) by {
                    let c = choose|i: int| 0 <= i < self.entries@.len() && (#[trigger] self.entries@[i]).0@ == u;
                    assert(is_fresh(self.entries@[c].1.tick, now));
                }
                assert(fresh_at(v, now) =~= v);
            }
        }
        now
    }
}

proof fn lemma_filter_keeps_all(entries: Seq<(String, PresenceEntry)>, now: u64)
    requires
        forall|i: int| 0 <= i < entries.len() ==> is_fresh((#[trigger] entries[i]).1.tick, now),
    ensures
        entries.filter(|p: (String, PresenceEntry)| is_fresh(p.1.tick, now)) == entries,
    decreases entries.len(),
{
    reveal(Seq::filter);
    if entries.len() > 0 {
        let d = entries.drop_last();
        assert forall|i: int| 0 <= i < d.len() implies is_fresh((#[trigger] d[i]).1.tick, now) by {
            assert(d[i] == entries[i]);
        }
        lemma_filter_keeps_all(d, now);
        assert(is_fresh(entries[entries.len() - 1].1.tick, now));
        assert(d.push(entries.last()) =~= entries);
    } else {
        assert(entries.filter(|p: (String, PresenceEntry)| is_fresh(p.1.tick, now)) =~= entries);
    }
}

/// The presence time-to-live over the clock's beat: after a beat to `now`,
/// an entry stays exactly when it is at most `PRESENCE_TTL_SECS` older than
/// `now`, and every entry left is that fresh.
pub proof fn lemma_tick_keeps_only_fresh(entries: Seq<(String, PresenceEntry)>, now: u64, i: int)
    requires
        0 <= i < entries.len(),
    ensures
        ({
            let kept = entries.filter(|p: (String, PresenceEntry)| is_fresh(p.1.tick, now));
            &&& kept.contains(entries[i]) <==> is_fresh(entries[i].1.tick, now)
            &&& forall|j: int| 0 <= j < kept.len() ==> (if now >= (#[trigger] kept[j]).1.tick {
                now - kept[j].1.tick
            } else {
                0
            }) <= PRESENCE_TTL_SECS
        }),
{
    let pred = |p: (String, PresenceEntry)| is_fresh(p.1.tick, now);
    let kept = entries.filter(pred);
    if pred(entries[i]) {
        entries.lemma_filter_contains(pred, i);
    }
    if kept.contains(entries[i]) {
        let j = choose|j: int| 0 <= j < kept.len() && kept[j] == entries[i];
        entries.lemma_filter_pred(pred, j);
    }
    assert forall|j: int| 0 <= j < kept.len() implies (if now >= (#[trigger] kept[j]).1.tick {
        now - kept[j].1.tick
    } else {
        0
    }) <= PRESENCE_TTL_SECS by {
        entries.lemma_filter_pred(pred, j);
    }
}


/// Successive beats compose: dropping the stale entries at `n1` and then at a
/// later `n2` leaves what one drop at `n2` leaves.
pub proof fn lemma_beats_compose(m: Map<Seq<char>, PresenceEntry>, n1: u64, n2: u64)
    requires
        n1 <= n2,
    ensures
        fresh_at(fresh_at(m, n1), n2) == fresh_at(m, n2),
{
    assert(fresh_at(fresh_at(m, n1), n2) =~= fresh_at(m, n2));
}

/// An entry stamped `e.tick` and not replaced since lives exactly while the
/// local time is at most `PRESENCE_TTL_SECS` past its stamp: a beat to `now`
/// keeps it, unchanged, when `now - e.tick <= PRESENCE_TTL_SECS` and drops it
/// otherwise.
pub proof fn lemma_entry_lifetime(m: Map<Seq<char>, PresenceEntry>, uid: Seq<char>, e: PresenceEntry, now: u64)
    requires
        e.tick <= now,
    ensures
        fresh_at(m.insert(uid, e), now).contains_key(uid) <==> now - e.tick <= PRESENCE_TTL_SECS,
        now - e.tick <= PRESENCE_TTL_SECS ==> fresh_at(m.insert(uid, e), now)[uid] == e,
{
}

/// One request entry as the JSON object the action mutation sends, keys in
/// the sorted order `serde_json` writes an object in.
pub open spec fn action_json(a: ActionInput) -> Seq<char> {
    "{\"actionType\":"@ + json_quoted(a.action_type@) + ",\"activeGameId\":"@ + json_quoted(
        a.active_game_id@,
    ) + ",\"cordX\":"@ + dec(a.cord_x as int) + ",\"cordY\":"@ + dec(a.cord_y as int)
        + ",\"previousState\":"@ + json_quoted(a.previous_state@) + ",\"state\":"@ + json_quoted(a.state@)
        + "}"@
}

/// The entries' JSON objects, in order.
pub open spec fn actions_json(inputs: Seq<ActionInput>) -> Seq<Seq<char>> {
    inputs.map_values(|a: ActionInput| action_json(a))
}

fn push_action_json(out: &mut String, a: &ActionInput)
    ensures
        final(out)@ == old(out)@ + action_json(*a),
{
    out.append("{\"actionType\":");
    let t = json_quote(a.action_type);
    out.append(t.as_str());
    out.append(",\"activeGameId\":");
    let g = json_quote(a.active_game_id.as_str());
    out.append(g.as_str());
    out.append(",\"cordX\":");
    push_dec(out, a.cord_x as i64);
    out.append(",\"cordY\":");
    push_dec(out, a.cord_y as i64);
    out.append(",\"previousState\":");
    let p = json_quote(a.previous_state.as_str());
    out.append(p.as_str());
    out.append(",\"state\":");
    let st = json_quote(a.state.as_str());
    out.append(st.as_str());
    out.append("}");
}

/// The JSON body of the action mutation: `{"actions":[...],"id":game}`.
pub fn action_batch_body(game_id: &str, inputs: &Vec<ActionInput>) -> (r: String)
    ensures
        r@ == "{\"actions\":["@ + join(actions_json(inputs@), ","@) + "],\"id\":"@ + json_quoted(game_id@)
            + "}"@,
{
    let mut out = String::from_str("{\"actions\":[");
    let ghost head = out@;
    for i in 0..inputs.len()
        invariant
            head == "{\"actions\":["@,
            out@ == head + join(actions_json(inputs@.take(i as int)), ","@),
    {
        let ghost before = out@;
        let ghost prev = actions_json(inputs@.take(i as int));
        if i > 0 {
            out.append(",");
        }
        let ghost mid = out@;
        push_action_json(&mut out, &inputs[i]);
        proof {
            let now = actions_json(inputs@.take(i + 1));
            assert(inputs@.take(i + 1) =~= inputs@.take(i as int).push(inputs@[i as int]));
            assert(now =~= prev.push(action_json(inputs@[i as int])));
            assert(now.drop_last() =~= prev);
            if i == 0 {
                assert(prev.len() == 0);
                assert(join(prev, ","@) =~= Seq::<char>::empty());
                assert(out@ =~= head + join(now, ","@));
            } else {
                assert(out@ =~= head + join(now, ","@));
            }
        }
    }
    assert(inputs@.take(inputs@.len() as int) =~= inputs@);
    out.append("],\"id\":");
    let g = json_quote(game_id);
    out.append(g.as_str());
    out.append("}");
    out
}

/// The placeholder save that clearing a word hands back, as the request
/// entries and the optimistic local actions; nothing when there is nothing
/// to save.
pub fn clear_batch(out: &ClearOutcome, game_id: &str, now: &str) -> (r: Option<(Vec<ActionInput>, Vec<GameAction>)>)
    ensures
        out.save is None <==> r is None,
        r matches Some(b) ==> {
            let slots = out.save.unwrap()@;
            &&& b.0@.len() == slots.len()
            &&& b.1@.len() == slots.len()
            &&& forall|k: int| 0 <= k < slots.len() ==> batch_entry(
                #[trigger] slots[k],
                game_id@,
                ActionType::Placeholder,
                now@,
                b.0@[k],
                b.1@[k],
            )
        },
{
    match &out.save {
        Some(slots) => Some(build_action_batch(slots, game_id, ActionType::Placeholder, now)),
        None => None,
    }
}

/// The JSON body of the presence mutation, keys in sorted order:
/// `{"direction":"ACROSS","id":game,"number":n}` for a selected clue,
/// `{"id":game,"number":null}` for none.
pub open spec fn presence_json(game_id: Seq<char>, selection: Option<(i32, Direction)>) -> Seq<char> {
    match selection {
        Some((n, d)) => "{\"direction\":"@ + json_quoted(dir_spec(d)) + ",\"id\":"@ + json_quoted(game_id)
            + ",\"number\":"@ + dec(n as int) + "}"@,
        None => "{\"id\":"@ + json_quoted(game_id) + ",\"number\":null}"@,
    }
}

/// The body the local player's selection is broadcast with.
pub fn presence_body(game_id: &str, selection: Option<(i32, Direction)>) -> (r: String)
    ensures
        r@ == presence_json(game_id@, selection),
{
    let g = json_quote(game_id);
    match selection {
        Some((n, d)) => {
            let mut out = String::from_str("{\"direction\":");
            let ds = json_quote(dir_str(d));
            out.append(ds.as_str());
            out.append(",\"id\":");
            out.append(g.as_str());
            out.append(",\"number\":");
            push_dec(&mut out, n as i64);
            out.append("}");
            out
        },
        None => {
            let mut out = String::from_str("{\"id\":");
            out.append(g.as_str());
            out.append(",\"number\":null}");
            out
        },
    }
}

/// Whether the local player may broadcast a selection: they are signed in
/// and a member of the game.
pub fn may_publish(members: &Vec<MemberInfo>, my_id: Option<&str>) -> (r: bool)
    ensures
        r == (my_id matches Some(u) && exists|k: int| 0 <= k < members@.len() && (#[trigger] members@[k]).user_id@ == u@),
{
    match my_id {
        Some(u) => is_member(members, u),
        None => false,
    }
}

/// Two characters agree ignoring ASCII case: equal, or one is an ASCII
/// capital and the other its small letter.
pub open spec fn same_letter(c: char, d: char) -> bool {
    c == d || ('A' <= c <= 'Z' && d as int == c as int + 32) || ('A' <= d <= 'Z' && c as int == d as int + 32)
}

/// Box `i` holds answer cell `i`'s letter: as many characters, each the
/// same letter ignoring ASCII case.
pub open spec fn box_holds(cells: Seq<Cell>, slots: Seq<ActionSlot>, i: int) -> bool {
    &&& i < slots.len()
    &&& slots[i].state@.len() == cells[i].correct_state@.len()
    &&& forall|j: int| 0 <= j < slots[i].state@.len() ==> same_letter(#[trigger] slots[i].state@[j], cells[i].correct_state@[j])
}

proof fn lemma_box_holds(cells: Seq<Cell>, slots: Seq<ActionSlot>, i: int)
    requires
        0 <= i < cells.len(),
    ensures
        letter_ok(cells, slots, i) <==> box_holds(cells, slots, i),
{
    if i < slots.len() {
        let a = slots[i].state@;
        let b = cells[i].correct_state@;
        if a.len() == b.len() {
            assert forall|j: int| 0 <= j < a.len() implies (ascii_lower(#[trigger] a[j]) == ascii_lower(b[j])) == same_letter(a[j], b[j]) by {
                let c = a[j];
                let d = b[j];
                if 'A' <= c <= 'Z' {
                    assert(ascii_lower(c) as int == c as int + 32);
                }
                if 'A' <= d <= 'Z' {
                    assert(ascii_lower(d) as int == d as int + 32);
                }
            }
        }
    }
}

/// A guess is correct exactly when every answer cell has a box at its
/// position holding its letter (as many characters, each the same letter
/// ignoring ASCII case); so a box left empty under a letter makes the guess
/// wrong.
pub proof fn lemma_guess_needs_every_letter(cells: Seq<Cell>, slots: Seq<ActionSlot>)
    ensures
        guess_correct_spec(cells, slots) <==> forall|i: int| 0 <= i < cells.len() ==> #[trigger] box_holds(cells, slots, i),
        (exists|i: int|
            0 <= i < cells.len() && i < slots.len() && (#[trigger] slots[i]).state@.len() == 0
                && cells[i].correct_state@.len() > 0) ==> !guess_correct_spec(cells, slots),
{
    assert forall|i: int| 0 <= i < cells.len() implies #[trigger] letter_ok(cells, slots, i) == box_holds(cells, slots, i) by {
        lemma_box_holds(cells, slots, i);
    }
    if guess_correct_spec(cells, slots) {
        assert forall|i: int| 0 <= i < cells.len() implies #[trigger] box_holds(cells, slots, i) by {
            assert(letter_ok(cells, slots, i));
        }
    }
    if forall|i: int| 0 <= i < cells.len() ==> #[trigger] box_holds(cells, slots, i) {
        assert forall|i: int| 0 <= i < cells.len() implies #[trigger] letter_ok(cells, slots, i) by {
            assert(box_holds(cells, slots, i));
        }
    }
    if exists|i: int|
        0 <= i < cells.len() && i < slots.len() && (#[trigger] slots[i]).state@.len() == 0
            && cells[i].correct_state@.len() > 0 {
        let i = choose|i: int|
            0 <= i < cells.len() && i < slots.len() && (#[trigger] slots[i]).state@.len() == 0
                && cells[i].correct_state@.len() > 0;
        assert(!letter_ok(cells, slots, i));
    }
}

} // verus!
