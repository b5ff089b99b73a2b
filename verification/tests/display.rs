use next_tramway::bounded::PassageList;
use next_tramway::display::{
    apply_ui_command, has_room_for, TramNextPassage, UiCommand, UiState,
};
use next_tramway::text::BoundedString;
use next_tramway::wire::parse_mqtt_event;

fn text_of<const N: usize>(s: &BoundedString<N>) -> String {
    s.as_chars().iter().collect()
}

fn update(line: &str, id: usize, minutes: &[u8], at: &str) -> UiCommand {
    let mut next_passages = PassageList::new();
    for m in minutes {
        let _ = next_passages.push(TramNextPassage {
            destination: BoundedString::truncated("Gare"),
            relative_arrival: *m,
        });
    }
    UiCommand::UpdateDirection {
        line: BoundedString::truncated(line),
        direction_id: id,
        next_passages,
        update_at: BoundedString::truncated(at),
    }
}

fn shape(state: &UiState) -> Vec<(String, Vec<(usize, usize, String)>)> {
    let mut out = Vec::new();
    let mut i = 0;
    while let Some(line) = state.lines.get(i) {
        let mut dirs = Vec::new();
        let mut j = 0;
        while let Some(d) = line.directions.get(j) {
            dirs.push((d.direction_id, d.next_passages.len(), text_of(&d.update_at)));
            j += 1;
        }
        out.push((text_of(&line.line), dirs));
        i += 1;
    }
    out
}

#[test]
fn starts_empty() {
    let state = UiState::new();
    assert_eq!(state.lines.len(), 0);
    assert!(state.lines.is_empty());
    assert!(state.current_message.is_none());
    assert_eq!((state.current_line, state.current_direction_id), (0, 0));
}

#[test]
fn an_update_for_an_unknown_line_appends_it() {
    let mut state = UiState::new();
    apply_ui_command(&mut state, update("A", 2, &[4, 9], "12:45"));
    apply_ui_command(&mut state, update("B", 1, &[], "12:46"));
    assert_eq!(
        shape(&state),
        vec![
            ("A".to_string(), vec![(2, 2, "12:45".to_string())]),
            ("B".to_string(), vec![(1, 0, "12:46".to_string())]),
        ]
    );
}

#[test]
fn an_update_for_a_known_direction_replaces_it_in_place() {
    let mut state = UiState::new();
    apply_ui_command(&mut state, update("A", 2, &[4, 9], "12:45"));
    apply_ui_command(&mut state, update("A", 1, &[7], "12:45"));
    apply_ui_command(&mut state, update("B", 1, &[1], "12:45"));
    apply_ui_command(&mut state, update("A", 2, &[3, 8, 20], "12:50"));
    apply_ui_command(&mut state, update("A", 2, &[2], "12:51"));
    assert_eq!(
        shape(&state),
        vec![
            (
                "A".to_string(),
                vec![(2, 1, "12:51".to_string()), (1, 1, "12:45".to_string())]
            ),
            ("B".to_string(), vec![(1, 1, "12:45".to_string())]),
        ]
    );
    let first = state.lines.get(0).unwrap().directions.get(0).unwrap();
    assert_eq!(first.next_passages.get(0).unwrap().relative_arrival, 2);
}

#[test]
fn a_third_direction_is_dropped() {
    let mut state = UiState::new();
    apply_ui_command(&mut state, update("A", 1, &[1], "t"));
    apply_ui_command(&mut state, update("A", 2, &[2], "t"));
    apply_ui_command(&mut state, update("A", 3, &[3], "t"));
    assert_eq!(
        shape(&state),
        vec![("A".to_string(), vec![(1, 1, "t".to_string()), (2, 1, "t".to_string())])]
    );
}

#[test]
fn a_ninth_line_is_dropped() {
    let mut state = UiState::new();
    for name in ["1", "2", "3", "4", "5", "6", "7", "8", "9"] {
        apply_ui_command(&mut state, update(name, 0, &[1], "t"));
    }
    assert_eq!(state.lines.len(), 8);
    assert_eq!(text_of(&state.lines.get(7).unwrap().line), "8");
    assert!(!has_room_for(&state, &BoundedString::truncated("9"), 0));
    assert!(has_room_for(&state, &BoundedString::truncated("3"), 0));
    assert!(has_room_for(&state, &BoundedString::truncated("3"), 5));
    apply_ui_command(&mut state, update("3", 5, &[1, 2], "u"));
    assert_eq!(state.lines.len(), 8);
    assert_eq!(state.lines.get(2).unwrap().directions.len(), 2);
    assert!(!has_room_for(&state, &BoundedString::truncated("3"), 6));
    assert!(has_room_for(&state, &BoundedString::truncated("3"), 5));
}

#[test]
fn a_message_replaces_the_one_before() {
    let mut state = UiState::new();
    apply_ui_command(&mut state, UiCommand::UpdateMessage(BoundedString::truncated("Wifi connected !")));
    assert_eq!(text_of(state.current_message.as_ref().unwrap()), "Wifi connected !");
    apply_ui_command(&mut state, UiCommand::UpdateMessage(BoundedString::truncated("")));
    assert_eq!(text_of(state.current_message.as_ref().unwrap()), "");
    assert_eq!(state.lines.len(), 0);
}

#[test]
fn next_screen_without_lines_changes_nothing() {
    let mut state = UiState::new();
    apply_ui_command(&mut state, UiCommand::NextScreen);
    assert_eq!((state.current_line, state.current_direction_id), (0, 0));
}

#[test]
fn next_screen_goes_round_all_screens() {
    let mut state = UiState::new();
    apply_ui_command(&mut state, update("A", 1, &[1], "t"));
    apply_ui_command(&mut state, update("A", 2, &[1], "t"));
    apply_ui_command(&mut state, update("B", 1, &[1], "t"));
    apply_ui_command(&mut state, update("C", 1, &[1], "t"));
    apply_ui_command(&mut state, update("C", 2, &[1], "t"));
    let mut seen = Vec::new();
    for _ in 0..5 {
        apply_ui_command(&mut state, UiCommand::NextScreen);
        seen.push((state.current_line, state.current_direction_id));
    }
    assert_eq!(seen, vec![(0, 1), (1, 0), (2, 0), (2, 1), (0, 0)]);
}

#[test]
fn next_screen_brings_a_stray_cursor_back() {
    let mut state = UiState::new();
    apply_ui_command(&mut state, update("A", 1, &[1], "t"));
    apply_ui_command(&mut state, update("B", 1, &[1], "t"));
    state.current_line = 7;
    state.current_direction_id = 5;
    apply_ui_command(&mut state, UiCommand::NextScreen);
    assert_eq!((state.current_line, state.current_direction_id), (0, 0));
    state.current_line = usize::MAX;
    apply_ui_command(&mut state, UiCommand::NextScreen);
    assert_eq!((state.current_line, state.current_direction_id), (0, 0));
    state.current_direction_id = usize::MAX;
    apply_ui_command(&mut state, UiCommand::NextScreen);
    assert_eq!((state.current_line, state.current_direction_id), (1, 0));
}

#[test]
fn a_decoded_update_is_stored() {
    let mut state = UiState::new();
    let cmd = parse_mqtt_event("x/LineA/2", "A|1|x\nB|2|x\nC|3|x\nD|4|x\n2026-10-28T09:00").unwrap();
    apply_ui_command(&mut state, cmd);
    assert_eq!(
        shape(&state),
        vec![("LineA".to_string(), vec![(2, 3, "2026-10-28".to_string())])]
    );
}

#[test]
fn a_full_passage_list_hands_the_item_back() {
    let mut list = PassageList::new();
    for m in 0..3u8 {
        let r = list.push(TramNextPassage {
            destination: BoundedString::truncated("Gare"),
            relative_arrival: m,
        });
        assert!(r.is_ok());
    }
    let back = list
        .push(TramNextPassage { destination: BoundedString::truncated("Plaine"), relative_arrival: 9 })
        .unwrap_err();
    assert_eq!(back.relative_arrival, 9);
    assert_eq!(text_of(&back.destination), "Plaine");
    assert_eq!(list.len(), 3);
    assert!(list.get(3).is_none());
    assert_eq!(list.get(0).unwrap().relative_arrival, 0);
    assert_eq!(list.get(2).unwrap().relative_arrival, 2);
    let copy = list.clone();
    assert_eq!(copy.get(1).unwrap().relative_arrival, 1);
    assert!(copy == list);
}
