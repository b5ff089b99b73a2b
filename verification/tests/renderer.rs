use next_tramway::bounded::PassageList;
use next_tramway::display::{
    apply_ui_command, TramDirectionState, TramNextPassage, UiCommand, UiState,
};
use next_tramway::lcd::{BusStep, Lcd, LcdGeometry};
use next_tramway::renderer::{
    compose_rows, decimal_chars, wrap_text, DisplayWrite, LcdRenderer, TramDisplay,
};
use next_tramway::text::BoundedString;

fn text_of<const N: usize>(s: &BoundedString<N>) -> String {
    s.as_chars().iter().collect()
}

fn update(line: &str, id: usize, passages: &[(&str, u8)], at: &str) -> UiCommand {
    let mut next_passages = PassageList::new();
    for (d, m) in passages {
        let _ = next_passages.push(TramNextPassage {
            destination: BoundedString::truncated(d),
            relative_arrival: *m,
        });
    }
    UiCommand::UpdateDirection {
        line: BoundedString::truncated(line),
        direction_id: id,
        next_passages,
        update_at: BoundedString::truncated(at),
    }
}

fn rows_of(writes: &Vec<DisplayWrite>) -> Vec<(u8, String)> {
    writes
        .iter()
        .map(|w| match w {
            DisplayWrite::Row { row, text } => (*row, text_of(text)),
            DisplayWrite::Message(_) => panic!("a message"),
        })
        .collect()
}

fn wrapped(input: &str, width: usize) -> String {
    let mut out: BoundedString<80> = BoundedString::new();
    wrap_text(input, width, &mut out);
    text_of(&out)
}

#[test]
fn wraps_at_the_width() {
    assert_eq!(wrapped("abcdefgh", 3), "abc\ndef\ngh");
    assert_eq!(wrapped("abcdef", 3), "abc\ndef");
    assert_eq!(wrapped("ab", 3), "ab");
    assert_eq!(wrapped("", 3), "");
    assert_eq!(wrapped("ab", 0), "\na\nb");
    assert_eq!(wrapped("Waiting to get IP address...", 20), "Waiting to get IP ad\ndress...");
}

#[test]
fn wrapping_leaves_out_what_does_not_fit() {
    let mut out: BoundedString<5> = BoundedString::new();
    wrap_text("abcdefgh", 3, &mut out);
    assert_eq!(text_of(&out), "abc\nd");
    let mut small: BoundedString<4> = BoundedString::truncated("zz");
    wrap_text("abcdef", 3, &mut small);
    assert_eq!(text_of(&small), "abc\n");
}

#[test]
fn writes_numbers_in_decimal() {
    let s = |n: u8| decimal_chars(n).iter().collect::<String>();
    assert_eq!(s(0), "0");
    assert_eq!(s(9), "9");
    assert_eq!(s(10), "10");
    assert_eq!(s(99), "99");
    assert_eq!(s(100), "100");
    assert_eq!(s(255), "255");
}

#[test]
fn composes_four_rows_of_twenty_columns() {
    let mut next_passages = PassageList::new();
    let _ = next_passages.push(TramNextPassage {
        destination: BoundedString::truncated("Downtown"),
        relative_arrival: 4,
    });
    let _ = next_passages.push(TramNextPassage {
        destination: BoundedString::truncated("A destination of many characters"),
        relative_arrival: 120,
    });
    let d = TramDirectionState {
        update_at: BoundedString::truncated("12:45"),
        direction_id: 2,
        next_passages,
    };
    let rows = compose_rows(&BoundedString::truncated("LineA"), &d);
    let rows: Vec<String> = rows.iter().map(|r| text_of(r)).collect();
    assert_eq!(
        rows,
        vec![
            "LineA               ",
            "Downtown           4",
            "A destination of 120",
            "               12:45",
        ]
    );
}

#[test]
fn a_third_passage_takes_the_last_row() {
    let mut state = UiState::new();
    apply_ui_command(&mut state, update("Tram C", 1, &[("Gare", 1), ("Plaine", 12), ("Condillac", 25)], "09:00"));
    let mut renderer = LcdRenderer::new();
    let writes = renderer.render(&state);
    assert_eq!(
        rows_of(&writes),
        vec![
            (0, "Tram C              ".to_string()),
            (1, "Gare               1".to_string()),
            (2, "Plaine            12".to_string()),
            (3, "Condillac         25".to_string()),
        ]
    );
}

#[test]
fn without_passages_says_so() {
    let mut state = UiState::new();
    apply_ui_command(&mut state, update("Tram C", 1, &[], "09:00"));
    let mut renderer = LcdRenderer::new();
    let writes = renderer.render(&state);
    assert_eq!(
        rows_of(&writes),
        vec![
            (0, "Tram C              ".to_string()),
            (1, "Pas de passage dans ".to_string()),
            (2, "l'heure...          ".to_string()),
            (3, "               09:00".to_string()),
        ]
    );
}

#[test]
fn the_second_render_writes_nothing() {
    let mut state = UiState::new();
    apply_ui_command(&mut state, update("Tram C", 1, &[("Gare", 1)], "09:00"));
    let mut renderer = LcdRenderer::new();
    assert_eq!(renderer.render(&state).len(), 4);
    assert_eq!(renderer.render(&state).len(), 0);
    assert_eq!(renderer.plan(&state).len(), 0);
}

#[test]
fn only_rows_that_differ_are_written() {
    let mut state = UiState::new();
    apply_ui_command(&mut state, update("Tram C", 1, &[("Gare", 5), ("Plaine", 12)], "09:00"));
    let mut renderer = LcdRenderer::new();
    let _ = renderer.render(&state);
    apply_ui_command(&mut state, update("Tram C", 1, &[("Gare", 4), ("Plaine", 12)], "09:01"));
    let writes = renderer.render(&state);
    assert_eq!(
        rows_of(&writes),
        vec![
            (1, "Gare               4".to_string()),
            (3, "               09:01".to_string()),
        ]
    );
}

#[test]
fn emptied_passages_leave_nothing_behind() {
    let mut state = UiState::new();
    apply_ui_command(
        &mut state,
        update("Tram C", 1, &[("Gare", 1), ("Plaine", 12), ("Condillac", 25)], "09:00"),
    );
    let mut renderer = LcdRenderer::new();
    let _ = renderer.render(&state);
    apply_ui_command(&mut state, update("Tram C", 1, &[], "09:00"));
    let writes = renderer.render(&state);
    assert_eq!(
        rows_of(&writes),
        vec![
            (1, "Pas de passage dans ".to_string()),
            (2, "l'heure...          ".to_string()),
            (3, "               09:00".to_string()),
        ]
    );
}

#[test]
fn fewer_passages_blank_their_rows() {
    let mut state = UiState::new();
    apply_ui_command(&mut state, update("Tram C", 1, &[("Gare", 1), ("Plaine", 12)], "09:00"));
    let mut renderer = LcdRenderer::new();
    let _ = renderer.render(&state);
    apply_ui_command(&mut state, update("Tram C", 1, &[("Gare", 1)], "09:00"));
    let writes = renderer.render(&state);
    assert_eq!(rows_of(&writes), vec![(2, "                    ".to_string())]);
}

#[test]
fn without_lines_the_message_is_written_wrapped() {
    let mut state = UiState::new();
    let mut renderer = LcdRenderer::new();
    assert_eq!(renderer.render(&state).len(), 0);
    apply_ui_command(
        &mut state,
        UiCommand::UpdateMessage(BoundedString::truncated("Waiting to get IP address...")),
    );
    let writes = renderer.render(&state);
    assert_eq!(writes.len(), 1);
    match &writes[0] {
        DisplayWrite::Message(text) => assert_eq!(text_of(text), "Waiting to get IP ad\ndress..."),
        _ => panic!("a row"),
    }
    assert_eq!(renderer.render(&state).len(), 1);
}

#[test]
fn a_message_of_eighty_characters_is_written_in_full() {
    let message: String = (0..80).map(|i| char::from(b'a' + (i % 26) as u8)).collect();
    let mut state = UiState::new();
    apply_ui_command(&mut state, UiCommand::UpdateMessage(BoundedString::truncated(&message)));
    let mut renderer = LcdRenderer::new();
    let writes = renderer.render(&state);
    assert_eq!(writes.len(), 1);
    let text = match &writes[0] {
        DisplayWrite::Message(text) => text_of(text),
        _ => panic!("a row"),
    };
    assert_eq!(text.chars().count(), 83);
    let rows: Vec<&str> = text.split('\n').collect();
    assert_eq!(rows, vec![&message[0..20], &message[20..40], &message[40..60], &message[60..80]]);
    for n in [78usize, 79] {
        let mut state = UiState::new();
        apply_ui_command(&mut state, UiCommand::UpdateMessage(BoundedString::truncated(&message[..n])));
        let writes = renderer.plan(&state);
        let text = match &writes[0] {
            DisplayWrite::Message(text) => text_of(text),
            _ => panic!("a row"),
        };
        assert_eq!(text.replace('\n', ""), &message[..n]);
        assert_eq!(text.chars().count(), n + 3);
    }
}

#[test]
fn a_message_written_on_the_display_fills_its_rows() {
    let message: String = (0..80).map(|i| char::from(b'a' + (i % 26) as u8)).collect();
    let mut state = UiState::new();
    apply_ui_command(&mut state, UiCommand::UpdateMessage(BoundedString::truncated(&message)));
    let mut renderer = LcdRenderer::new();
    let writes = renderer.render(&state);
    let mut lcd = Lcd::new(0x27, LcdGeometry::L2004);
    let steps = lcd.show(&writes[0]);
    assert_eq!(lcd.cursor(), (3, 20));
    // Each character goes out as data, in two halves with the register
    // select bit set: the upper half comes first.
    let mut sent = Vec::new();
    let data: Vec<u8> = steps
        .iter()
        .filter_map(|s| match s {
            BusStep::Write(b) if b & 0x05 == 0x01 => Some(*b),
            _ => None,
        })
        .collect();
    for pair in data.chunks(4) {
        sent.push((pair[0] & 0xF0) | (pair[2] >> 4));
    }
    assert_eq!(sent, message.as_bytes());
}

#[test]
fn the_outcome_of_each_write_is_remembered() {
    let mut state = UiState::new();
    apply_ui_command(&mut state, update("Tram C", 1, &[("Gare", 5)], "09:00"));
    let mut renderer = LcdRenderer::new();
    let writes = renderer.plan(&state);
    assert_eq!(writes.len(), 4);
    for w in &writes {
        let taken = !matches!(w, DisplayWrite::Row { row: 1, .. });
        renderer.write_outcome(w, taken);
    }
    renderer.frame_outcome(&state, false);
    let again = renderer.plan(&state);
    assert_eq!(rows_of(&again), vec![(1, "Gare               5".to_string())]);
    renderer.write_outcome(&again[0], true);
    renderer.frame_outcome(&state, true);
    assert_eq!(renderer.plan(&state).len(), 0);
}

#[test]
fn the_cursor_selects_what_is_rendered() {
    let mut state = UiState::new();
    apply_ui_command(&mut state, update("A", 1, &[("Gare", 1)], "09:00"));
    apply_ui_command(&mut state, update("B", 1, &[("Gare", 1)], "09:00"));
    let mut renderer = LcdRenderer::new();
    let _ = renderer.render(&state);
    apply_ui_command(&mut state, UiCommand::NextScreen);
    let writes = renderer.render(&state);
    assert_eq!(rows_of(&writes), vec![(0, "B                   ".to_string())]);
    state.current_line = 9;
    state.current_direction_id = 9;
    let writes = renderer.render(&state);
    assert_eq!(rows_of(&writes), vec![(0, "A                   ".to_string())]);
}

#[test]
fn a_row_that_failed_is_written_again() {
    let mut state = UiState::new();
    apply_ui_command(&mut state, update("Tram C", 1, &[("Gare", 5)], "09:00"));
    let mut renderer = LcdRenderer::new();
    let writes = renderer.plan(&state);
    assert_eq!(writes.len(), 4);
    for w in &writes {
        match w {
            DisplayWrite::Row { row: 2, .. } => {}
            _ => renderer.written(w),
        }
    }
    let again = renderer.plan(&state);
    assert_eq!(rows_of(&again), vec![(2, "                    ".to_string())]);
    renderer.written(&again[0]);
    renderer.frame_done(&state);
    assert_eq!(renderer.plan(&state).len(), 0);
    assert_eq!(renderer.render(&state).len(), 0);
}
