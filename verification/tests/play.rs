use crossword_web::play::{
    action_type_str, board_cell, board_style, bubble_class, bubble_state, build_action_batch,
    cell_class, cell_number, chip_view, clicked_clue, clue_head, clue_row_class, clue_tab_class,
    completion_redirect, dir_str, direction_from_str, eq_ignore_ascii_case, fresh,
    incoming_actions, invite_label, is_correct_guess, join_label, letter_input_class,
    parse_members, player_chips, player_color, presence_update, qkey, remote_selections,
    slots_for, ActionEvent, ActionSlot, ActionType, Cell, Chip, ClueEntry, Direction, GameAction,
    Key, MemberInfo, MemberWire, Modification, PanelId, Presence, PresenceEntry, PresenceEvent,
    Question, QuestionWithAnswerMap, RemoteSelection, Selection,
    action_batch_body, clear_batch, may_publish, presence_body, ActionInput, ClearOutcome,
};

fn cell(x: i32, y: i32, answer: &str, mods: Vec<(&str, ActionType)>) -> Cell {
    Cell {
        cord_x: x,
        cord_y: y,
        correct_state: answer.to_string(),
        modifications: mods
            .into_iter()
            .map(|(s, a)| Modification { state: s.to_string(), action_type: a })
            .collect(),
        is_block: false,
    }
}

fn block(x: i32, y: i32) -> Cell {
    Cell { cord_x: x, cord_y: y, correct_state: String::new(), modifications: vec![], is_block: true }
}

/// A 3x2 board: 1-Across "CAT" on row 0, 1-Down "CO" from (0,0), 2-Down "TO"
/// from (2,0).
fn maps() -> Vec<QuestionWithAnswerMap> {
    let q = |n: i32, d: Direction, x: i32, y: i32, t: &str| Question {
        number: n,
        direction: d,
        root_x: x,
        root_y: y,
        question_text: t.to_string(),
    };
    vec![
        QuestionWithAnswerMap {
            question: q(1, Direction::Across, 0, 0, "Feline"),
            answer_map: vec![
                cell(0, 0, "C", vec![("C", ActionType::CorrectGuess)]),
                cell(1, 0, "A", vec![]),
                cell(2, 0, "T", vec![("X", ActionType::IncorrectGuess)]),
            ],
        },
        QuestionWithAnswerMap {
            question: q(1, Direction::Down, 0, 0, "Company, briefly"),
            answer_map: vec![
                cell(0, 0, "C", vec![("C", ActionType::CorrectGuess)]),
                cell(0, 1, "O", vec![]),
            ],
        },
        QuestionWithAnswerMap {
            question: q(2, Direction::Down, 2, 0, "Also"),
            answer_map: vec![
                cell(2, 0, "T", vec![("X", ActionType::IncorrectGuess)]),
                cell(2, 1, "O", vec![("o", ActionType::Placeholder)]),
            ],
        },
    ]
}

fn slot(x: i32, y: i32, prev: &str, state: &str) -> ActionSlot {
    ActionSlot { cord_x: x, cord_y: y, previous_state: prev.to_string(), state: state.to_string() }
}

fn states(e: &ClueEntry) -> Vec<String> {
    e.slots.iter().map(|s| s.state.clone()).collect()
}

#[test]
fn direction_names_roundtrip() {
    for d in [Direction::Across, Direction::Down] {
        assert_eq!(direction_from_str(dir_str(d)), Some(d));
    }
    assert_eq!(dir_str(Direction::Across), "ACROSS");
    assert_eq!(direction_from_str("across"), None);
    assert_eq!(action_type_str(ActionType::CorrectGuess), "correctGuess");
    assert_eq!(action_type_str(ActionType::IncorrectGuess), "incorrectGuess");
    assert_eq!(action_type_str(ActionType::Placeholder), "placeholder");
    assert_eq!(qkey(&maps()[1].question), (1, Direction::Down));
    assert_eq!(PanelId::Clue.title(), "Active Clue");
}

#[test]
fn player_colour_is_yellow_for_me_and_hashed_otherwise() {
    assert_eq!(player_color("u1", Some("u1")), "var(--pastel-yellow)");
    // 'a' = 97 → 97 % 4 = 1
    assert_eq!(player_color("a", None), "var(--presence-2)");
    // 'a' + 'b' = 195 → 3
    assert_eq!(player_color("ab", Some("zz")), "var(--presence-4)");
    // "é" is two UTF-8 bytes: 0xC3 + 0xA9 = 364 → 0
    assert_eq!(player_color("é", None), "var(--presence-1)");
}

#[test]
fn roster_drops_entries_without_id_and_defaults_the_rest() {
    let wires = vec![
        MemberWire { user_id: Some("u1".into()), user_name: Some("Ann".into()), is_owner: Some(true) },
        MemberWire { user_id: None, user_name: Some("Ghost".into()), is_owner: Some(false) },
        MemberWire { user_id: Some("u2".into()), user_name: None, is_owner: None },
    ];
    let ms = parse_members(&wires);
    assert_eq!(ms.len(), 2);
    assert_eq!(ms[0], MemberInfo { user_id: "u1".into(), user_name: "Ann".into(), is_owner: true });
    assert_eq!(
        ms[1],
        MemberInfo { user_id: "u2".into(), user_name: "Anonymous Player".into(), is_owner: false }
    );
}

#[test]
fn action_batch_stamps_every_slot() {
    let slots = vec![slot(0, 0, "", "C"), slot(1, 0, "B", "A")];
    let (inputs, local) = build_action_batch(&slots, "g1", ActionType::Placeholder, "2024-01-01T00:00:00Z");
    assert_eq!(inputs.len(), 2);
    assert_eq!(inputs[1].active_game_id, "g1");
    assert_eq!(inputs[1].action_type, "placeholder");
    assert_eq!(inputs[1].previous_state, "B");
    assert_eq!(inputs[1].state, "A");
    assert_eq!(
        local[0],
        GameAction {
            action_type: ActionType::Placeholder,
            cord_x: 0,
            cord_y: 0,
            state: "C".into(),
            submitted_at: "2024-01-01T00:00:00Z".into(),
        }
    );
}

#[test]
fn typing_keeps_the_last_letter_uppercased_and_advances() {
    let m = &maps()[0];
    let mut e = ClueEntry { slots: slots_for(&m.answer_map), focused: Some(0) };
    assert_eq!(states(&e), vec!["C", "", "X"]);
    e.type_letter(1, "qa");
    assert_eq!(states(&e), vec!["C", "A", "X"]);
    assert_eq!(e.focused, Some(2));
    // the last box does not advance past the end
    e.type_letter(2, "t");
    assert_eq!(states(&e), vec!["C", "A", "T"]);
    assert_eq!(e.focused, Some(2));
    // an empty input clears the box and keeps the focus
    e.type_letter(0, "");
    assert_eq!(states(&e), vec!["", "A", "T"]);
    assert_eq!(e.focused, Some(2));
    assert_eq!(e.slots[0].previous_state, "C");
}

#[test]
fn backspace_and_arrows_move_between_boxes() {
    let mut e = ClueEntry { slots: vec![slot(0, 0, "", "C"), slot(1, 0, "", ""), slot(2, 0, "", "T")], focused: Some(1) };
    // backspace in an empty box clears the previous one and moves there
    e.press_key(1, Key::Backspace);
    assert_eq!(states(&e), vec!["", "", "T"]);
    assert_eq!(e.focused, Some(0));
    // backspace in a filled box clears it in place
    e.press_key(2, Key::Backspace);
    assert_eq!(states(&e), vec!["", "", ""]);
    assert_eq!(e.focused, Some(0));
    e.press_key(0, Key::ArrowRight);
    assert_eq!(e.focused, Some(1));
    e.press_key(1, Key::ArrowLeft);
    assert_eq!(e.focused, Some(0));
    e.press_key(0, Key::ArrowLeft);
    assert_eq!(e.focused, Some(0));
    e.press_key(2, Key::ArrowRight);
    assert_eq!(e.focused, Some(0));
    e.press_key(0, Key::Other);
    assert_eq!(e.focused, Some(0));
}

#[test]
fn guesses_compare_whole_words_ignoring_ascii_case() {
    let m = &maps()[0];
    assert!(is_correct_guess(&m.answer_map, &vec![slot(0, 0, "", "c"), slot(1, 0, "", "A"), slot(2, 0, "", "t")]));
    assert!(!is_correct_guess(&m.answer_map, &vec![slot(0, 0, "", "C"), slot(1, 0, "", "A")]));
    assert!(!is_correct_guess(&m.answer_map, &vec![slot(0, 0, "", "C"), slot(1, 0, "", "O"), slot(2, 0, "", "T")]));
    assert!(eq_ignore_ascii_case("ÉtÉ", "ÉTÉ"));
    assert!(!eq_ignore_ascii_case("é", "É"));
}

#[test]
fn selecting_a_clue_snapshots_its_word() {
    let ms = maps();
    let mut s = Selection::new();
    assert!(!s.select(&ms, (9, Direction::Across)));
    assert_eq!(s.selected, None);
    assert!(s.select(&ms, (2, Direction::Down)));
    assert_eq!(s.selected, Some((2, Direction::Down)));
    assert_eq!(s.direction, Some(Direction::Down));
    assert_eq!(s.entry.focused, Some(0));
    assert_eq!(states(&s.entry), vec!["X", "o"]);
}

#[test]
fn clearing_saves_only_changed_letters() {
    let ms = maps();
    let mut s = Selection::new();
    s.select(&ms, (1, Direction::Across));
    s.entry.type_letter(1, "a");
    let out = s.clear(true);
    assert!(out.publish_none);
    let saved = out.save.unwrap();
    assert_eq!(saved.len(), 1);
    assert_eq!((saved[0].cord_x, saved[0].state.as_str()), (1, "A"));
    assert_eq!(s.selected, None);
    assert!(s.entry.slots.is_empty());
    // nothing selected: nothing to save or un-broadcast
    let again = s.clear(true);
    assert!(again.save.is_none());
    assert!(!again.publish_none);
}

#[test]
fn toggling_a_tab_twice_turns_the_filter_off() {
    let ms = maps();
    let mut s = Selection::new();
    s.select(&ms, (1, Direction::Across));
    let first = s.toggle_direction(Direction::Down).unwrap();
    assert!(first.publish_none);
    assert_eq!(s.direction, Some(Direction::Down));
    assert_eq!(s.selected, None);
    assert!(s.toggle_direction(Direction::Down).is_none());
    assert_eq!(s.direction, None);
}

#[test]
fn a_correct_guess_clears_and_an_incorrect_one_keeps_the_word() {
    let ms = maps();
    let mut s = Selection::new();
    assert!(s.submit_guess(&ms).is_none());
    s.select(&ms, (1, Direction::Down));
    s.entry.type_letter(1, "x");
    let g = s.submit_guess(&ms).unwrap();
    assert_eq!(g.action, ActionType::IncorrectGuess);
    assert!(g.cleared.is_none());
    assert_eq!(s.selected, Some((1, Direction::Down)));
    s.entry.type_letter(1, "o");
    let g = s.submit_guess(&ms).unwrap();
    assert_eq!(g.action, ActionType::CorrectGuess);
    let c = g.cleared.unwrap();
    assert!(c.save.is_none());
    assert!(c.publish_none);
    assert_eq!(s.selected, None);
    assert_eq!(s.direction, Some(Direction::Down));
}

#[test]
fn clicks_pick_a_clue_in_the_filter_or_fall_back() {
    let ms = maps();
    assert_eq!(clicked_clue(&ms, 0, 0, None), Some((1, Direction::Across)));
    assert_eq!(clicked_clue(&ms, 0, 0, Some(Direction::Down)), Some((1, Direction::Down)));
    // no down clue covers (1, 0): falls back to the first covering clue
    assert_eq!(clicked_clue(&ms, 1, 0, Some(Direction::Down)), Some((1, Direction::Across)));
    assert_eq!(clicked_clue(&ms, 1, 1, None), None);
}

#[test]
fn cell_numbers_and_classes() {
    let ms = maps();
    assert_eq!(cell_number(&ms, 0, 0), Some(1));
    assert_eq!(cell_number(&ms, 2, 0), Some(2));
    assert_eq!(cell_number(&ms, 1, 0), None);
    assert_eq!(cell_class(true, true, Some(ActionType::CorrectGuess)), "cw-cell cw-letter cw-focused");
    assert_eq!(cell_class(false, true, None), "cw-cell cw-letter cw-selected");
    assert_eq!(cell_class(false, false, Some(ActionType::IncorrectGuess)), "cw-cell cw-letter cw-incorrect");
    assert_eq!(cell_class(false, false, None), "cw-cell cw-letter");
}

#[test]
fn presence_upsert_reads_back_and_prunes_stale_entries() {
    let mut p = Presence::new();
    let e = |n: &str, t: u64| PresenceEntry { name: n.to_string(), selection: Some((1, Direction::Across)), tick: t };
    p.upsert("u1".to_string(), e("Ann", 10));
    p.upsert("u2".to_string(), e("Bob", 100));
    p.upsert("u1".to_string(), e("Ann B", 20));
    assert_eq!(p.entries.len(), 2);
    assert_eq!(p.get("u1").unwrap().name, "Ann B");
    assert_eq!(p.get("u1").unwrap().tick, 20);
    assert!(p.get("u3").is_none());
    assert!(p.any_stale(70));
    p.prune(70);
    assert_eq!(p.entries.len(), 1);
    assert_eq!(p.entries[0].0, "u2");
    assert!(!p.any_stale(70));
    assert!(fresh(100, 145));
    assert!(!fresh(100, 146));
    assert!(fresh(100, 5));
}

#[test]
fn presence_broadcasts_are_filtered_and_defaulted() {
    let ev = |g: &str, u: Option<&str>| PresenceEvent {
        active_game_id: Some(g.to_string()),
        user_id: u.map(String::from),
        number: Some(3),
        direction: Some("DOWN".to_string()),
        name: None,
    };
    assert!(presence_update(&ev("other", Some("u2")), "g1", Some("u1"), 7).is_none());
    assert!(presence_update(&ev("g1", None), "g1", Some("u1"), 7).is_none());
    assert!(presence_update(&ev("g1", Some("u1")), "g1", Some("u1"), 7).is_none());
    let (uid, entry) = presence_update(&ev("g1", Some("u2")), "g1", Some("u1"), 7).unwrap();
    assert_eq!(uid, "u2");
    assert_eq!(entry.name, "Anonymous Player");
    assert_eq!(entry.selection, Some((3, Direction::Down)));
    assert_eq!(entry.tick, 7);
    let mut odd = ev("g1", Some("u2"));
    odd.direction = Some("sideways".to_string());
    assert_eq!(presence_update(&odd, "g1", None, 7).unwrap().1.selection, None);
}

#[test]
fn completion_and_incoming_actions_concern_this_game_only() {
    assert_eq!(completion_redirect(Some("a1"), Some("c1"), "a1"), Some("c1".to_string()));
    assert_eq!(completion_redirect(Some("a2"), Some("c1"), "a1"), None);
    assert_eq!(completion_redirect(Some("a1"), None, "a1"), None);
    assert_eq!(completion_redirect(None, Some("c1"), "a1"), None);
    let act = |s: &str| GameAction {
        action_type: ActionType::CorrectGuess,
        cord_x: 0,
        cord_y: 0,
        state: s.to_string(),
        submitted_at: "t".to_string(),
    };
    let evs = vec![
        ActionEvent { active_game_id: Some("g1".into()), action: Some(act("A")) },
        ActionEvent { active_game_id: Some("g2".into()), action: Some(act("B")) },
        ActionEvent { active_game_id: None, action: Some(act("C")) },
        ActionEvent { active_game_id: Some("g1".into()), action: None },
    ];
    let got: Vec<String> = incoming_actions(evs, "g1").into_iter().map(|a| a.state).collect();
    assert_eq!(got, vec!["A", "C"]);
}

#[test]
fn bubbles_prefer_the_word_being_typed() {
    let ms = maps();
    let c = &ms[0].answer_map[2]; // (2,0), newest "X" incorrect
    let slots = vec![slot(2, 0, "X", "T")];
    let key = (1, Direction::Across);
    let (l, s) = bubble_state(Some(key), key, c, &slots);
    assert_eq!((l.as_str(), s), ("T", "incorrectGuess"));
    let (l, s) = bubble_state(None, key, c, &slots);
    assert_eq!((l.as_str(), s), ("X", "incorrectGuess"));
    let empty = cell(1, 0, "A", vec![]);
    let (l, s) = bubble_state(Some(key), key, &empty, &vec![slot(1, 0, "", "Q")]);
    assert_eq!((l.as_str(), s), ("Q", "placeholder"));
    let (l, s) = bubble_state(Some(key), key, &empty, &vec![slot(1, 0, "", "")]);
    assert_eq!((l.as_str(), s), ("", ""));
    assert_eq!(bubble_class("", "correctGuess"), "cw-bubble cw-bubble-empty");
    assert_eq!(bubble_class("A", "incorrectGuess"), "cw-bubble cw-incorrect");
    assert_eq!(bubble_class("A", "correctGuess"), "cw-bubble cw-correct");
    assert_eq!(bubble_class("A", ""), "cw-bubble cw-placeholder");
}

#[test]
fn roster_chips_and_rings_follow_presence() {
    let members = vec![
        MemberInfo { user_id: "u1".into(), user_name: "Ann".into(), is_owner: true },
        MemberInfo { user_id: "u2".into(), user_name: "Bob".into(), is_owner: false },
    ];
    let mut p = Presence::new();
    p.upsert("u2".into(), PresenceEntry { name: "Bob".into(), selection: Some((2, Direction::Down)), tick: 100 });
    p.upsert("u3".into(), PresenceEntry { name: "Cy".into(), selection: Some((1, Direction::Across)), tick: 100 });
    p.upsert("u4".into(), PresenceEntry { name: "Old".into(), selection: Some((1, Direction::Down)), tick: 1 });
    let chips = player_chips(&members, &p, 110);
    assert_eq!(chips.len(), 3);
    assert_eq!(chips[0], Chip { uid: "u1".into(), name: "Ann".into(), is_owner: true, selection: None });
    assert_eq!(chips[1].selection, Some((2, Direction::Down)));
    assert_eq!(chips[2], Chip { uid: "u3".into(), name: "Cy".into(), is_owner: false, selection: Some((1, Direction::Across)) });

    let rings = remote_selections(&p, 110, Some("u3"));
    assert_eq!(rings.len(), 2);
    assert_eq!(rings[0].key, (2, Direction::Down));
    assert_eq!(rings[0].name, "Bob");
    assert_eq!(rings[1].color, "var(--pastel-yellow)");

    let v = chip_view(&chips[1], Some("u1"));
    assert!(!v.is_you);
    assert_eq!(v.clue.as_deref(), Some("#2 down"));
    assert_eq!(v.style, format!("border-bottom: 2px solid {};", player_color("u2", Some("u1"))));
    assert!(chip_view(&chips[0], Some("u1")).is_you);
    assert_eq!(chip_view(&chips[0], None).clue, None);
}

#[test]
fn board_cells_show_focus_rings_and_typed_letters() {
    let ms = maps();
    let sel = Some(QuestionWithAnswerMap {
        question: Question {
            number: 1,
            direction: Direction::Across,
            root_x: 0,
            root_y: 0,
            question_text: "Feline".to_string(),
        },
        answer_map: vec![
            cell(0, 0, "C", vec![("C", ActionType::CorrectGuess)]),
            cell(1, 0, "A", vec![]),
            cell(2, 0, "T", vec![("X", ActionType::IncorrectGuess)]),
        ],
    });
    let slots = vec![slot(0, 0, "C", "C"), slot(1, 0, "", "A"), slot(2, 0, "X", "X")];
    let remote = vec![RemoteSelection { key: (2, Direction::Down), color: "red".into(), name: "Bob".into() }];
    assert!(board_cell(&block(1, 1), &ms, &sel, &slots, Some(1), &remote).is_none());
    let b = board_cell(&ms[0].answer_map[1], &ms, &sel, &slots, Some(1), &remote).unwrap();
    assert_eq!(b.class, "cw-cell cw-letter cw-focused");
    assert_eq!(b.number, None);
    assert_eq!(b.text, "A");
    assert!(b.ring.is_none());
    let t = board_cell(&ms[0].answer_map[2], &ms, &sel, &slots, Some(1), &remote).unwrap();
    assert_eq!(t.class, "cw-cell cw-letter cw-selected");
    assert_eq!(t.number, Some(2));
    assert_eq!(
        t.ring,
        Some(("box-shadow: inset 0 0 0 2px red;".to_string(), "Bob is working here".to_string()))
    );
    let o = board_cell(&ms[2].answer_map[1], &ms, &None, &slots, None, &vec![]).unwrap();
    assert_eq!(o.class, "cw-cell cw-letter cw-placeholder");
    assert_eq!(o.text, "o");
    assert_eq!(
        board_style(0, 15),
        "grid-template-columns: repeat(1, 1fr); grid-template-rows: repeat(15, 1fr); aspect-ratio: 1 / 15; width: min(100cqw, 100cqh * 1 / 15);"
    );
}

#[test]
fn clue_panel_texts() {
    let ms = maps();
    let (badge, cap) = clue_head(&ms[0]);
    assert_eq!(badge, "cw-dir-badge cw-dir-across");
    assert_eq!(cap, "CLUE 1 · 3 LETTERS");
    assert_eq!(letter_input_class(true), "cw-letter-input cw-input-focused");
    assert_eq!(letter_input_class(false), "cw-letter-input");
    assert_eq!(clue_tab_class(Direction::Down, Some(Direction::Down)), "cw-tab cw-tab-active-down");
    assert_eq!(clue_tab_class(Direction::Across, Some(Direction::Down)), "cw-tab");
    assert_eq!(clue_tab_class(Direction::Across, None), "cw-tab");
    assert_eq!(clue_row_class(true), "cw-clue-row cw-clue-row-sel");
    assert_eq!(invite_label(true), "Link copied ✓");
    assert_eq!(join_label(false), "Join game");
}

fn broadcast(g: &str, u: Option<&str>, name: &str) -> PresenceEvent {
    PresenceEvent {
        active_game_id: Some(g.to_string()),
        user_id: u.map(String::from),
        number: Some(4),
        direction: Some("ACROSS".to_string()),
        name: Some(name.to_string()),
    }
}

#[test]
fn broadcasts_of_other_games_or_of_me_leave_presence_unchanged() {
    let mut p = Presence::new();
    p.on_broadcast(&broadcast("g1", Some("u2"), "Bob"), "g1", Some("u1"), 10);
    assert_eq!(p.entries.len(), 1);
    p.on_broadcast(&broadcast("g2", Some("u3"), "Cy"), "g1", Some("u1"), 10);
    p.on_broadcast(&broadcast("g1", None, "Nobody"), "g1", Some("u1"), 10);
    p.on_broadcast(&broadcast("g1", Some("u1"), "Me"), "g1", Some("u1"), 10);
    assert_eq!(p.entries.len(), 1);
    let e = p.get("u2").unwrap();
    assert_eq!(e.name, "Bob");
    assert_eq!(e.selection, Some((4, Direction::Across)));
    assert_eq!(e.tick, 10);
    p.on_broadcast(&broadcast("g1", Some("u2"), "Bob B"), "g1", Some("u1"), 15);
    assert_eq!(p.entries.len(), 1);
    assert_eq!(p.get("u2").unwrap().tick, 15);
}

#[test]
fn presence_entry_lives_forty_five_seconds_over_the_beat() {
    let mut p = Presence::new();
    let mut clock: u64 = 0;
    p.on_broadcast(&broadcast("g1", Some("u2"), "Bob"), "g1", Some("u1"), clock);
    for _ in 0..9 {
        clock = p.tick(clock);
        assert!(p.get("u2").is_some());
    }
    assert_eq!(clock, 45);
    clock = p.tick(clock);
    assert_eq!(clock, 50);
    assert!(p.get("u2").is_none());
    assert!(p.entries.is_empty());
}

#[test]
fn tick_advances_by_five_and_drops_only_silent_entries() {
    let mut p = Presence::new();
    p.on_broadcast(&broadcast("g1", Some("u2"), "Bob"), "g1", None, 0);
    p.on_broadcast(&broadcast("g1", Some("u3"), "Cy"), "g1", None, 40);
    assert_eq!(p.tick(45), 50);
    assert_eq!(p.entries.len(), 1);
    assert_eq!(p.entries[0].0, "u3");
}

fn input(x: i32, prev: &str, state: &str) -> ActionInput {
    ActionInput {
        active_game_id: "g1".to_string(),
        cord_x: x,
        cord_y: 2,
        action_type: "placeholder",
        previous_state: prev.to_string(),
        state: state.to_string(),
    }
}

#[test]
fn action_batch_body_writes_sorted_keys() {
    assert_eq!(action_batch_body("g1", &vec![]), "{\"actions\":[],\"id\":\"g1\"}");
    assert_eq!(
        action_batch_body("g1", &vec![input(0, "", "C")]),
        "{\"actions\":[{\"actionType\":\"placeholder\",\"activeGameId\":\"g1\",\"cordX\":0,\"cordY\":2,\"previousState\":\"\",\"state\":\"C\"}],\"id\":\"g1\"}"
    );
    assert_eq!(
        action_batch_body("g\"1", &vec![input(-1, "A", "B"), input(3, "", "Q")]),
        "{\"actions\":[{\"actionType\":\"placeholder\",\"activeGameId\":\"g1\",\"cordX\":-1,\"cordY\":2,\"previousState\":\"A\",\"state\":\"B\"},{\"actionType\":\"placeholder\",\"activeGameId\":\"g1\",\"cordX\":3,\"cordY\":2,\"previousState\":\"\",\"state\":\"Q\"}],\"id\":\"g\\\"1\"}"
    );
}

#[test]
fn clearing_a_word_saves_placeholders_only_when_asked() {
    let slot = ActionSlot { cord_x: 1, cord_y: 2, previous_state: "".to_string(), state: "X".to_string() };
    let saved = ClearOutcome { save: Some(vec![slot]), publish_none: true };
    let (inputs, local) = clear_batch(&saved, "g1", "2024-01-01T00:00:00Z").unwrap();
    assert_eq!(inputs.len(), 1);
    assert_eq!(inputs[0].action_type, "placeholder");
    assert_eq!(inputs[0].state, "X");
    assert_eq!(inputs[0].active_game_id, "g1");
    assert_eq!(local[0].action_type, ActionType::Placeholder);
    assert_eq!(local[0].submitted_at, "2024-01-01T00:00:00Z");
    let nothing = ClearOutcome { save: None, publish_none: true };
    assert!(clear_batch(&nothing, "g1", "t").is_none());
}

#[test]
fn presence_body_and_who_may_publish() {
    assert_eq!(presence_body("g1", Some((12, Direction::Down))), "{\"direction\":\"DOWN\",\"id\":\"g1\",\"number\":12}");
    assert_eq!(presence_body("g1", None), "{\"id\":\"g1\",\"number\":null}");
    let members = vec![MemberInfo { user_id: "u1".to_string(), user_name: "Ann".to_string(), is_owner: true }];
    assert!(may_publish(&members, Some("u1")));
    assert!(!may_publish(&members, Some("u2")));
    assert!(!may_publish(&members, None));
}
