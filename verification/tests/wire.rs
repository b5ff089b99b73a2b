use next_tramway::display::UiCommand;
use next_tramway::text::BoundedString;
use next_tramway::wire::{
    count_passages, count_passages_in_text, decode, parse_mqtt_event, parse_payload, parse_topic,
    DecodeError,
};

fn text_of<const N: usize>(s: &BoundedString<N>) -> String {
    s.as_chars().iter().collect()
}

fn passages_of(cmd: &UiCommand) -> Vec<(String, u8)> {
    match cmd {
        UiCommand::UpdateDirection { next_passages, .. } => {
            let mut out = Vec::new();
            let mut i = 0;
            while let Some(p) = next_passages.get(i) {
                out.push((text_of(&p.destination), p.relative_arrival));
                i += 1;
            }
            out
        }
        _ => panic!("not an update"),
    }
}

#[test]
fn decodes_the_update_of_a_direction() {
    let cmd = parse_mqtt_event("x/LineA/2", "Downtown|4|x\nUptown|9|x\n12:45").unwrap();
    match &cmd {
        UiCommand::UpdateDirection { line, direction_id, next_passages, update_at } => {
            assert_eq!(text_of(line), "LineA");
            assert_eq!(*direction_id, 2);
            assert_eq!(next_passages.len(), 2);
            assert_eq!(text_of(update_at), "12:45");
        }
        _ => panic!("not an update"),
    }
    assert_eq!(
        passages_of(&cmd),
        vec![("Downtown".to_string(), 4), ("Uptown".to_string(), 9)]
    );
}

#[test]
fn decodes_the_same_from_bytes() {
    let cmd = decode("x/LineA/2", "Downtown|4|x\nUptown|9|x\n12:45".as_bytes()).unwrap();
    assert_eq!(
        passages_of(&cmd),
        vec![("Downtown".to_string(), 4), ("Uptown".to_string(), 9)]
    );
}

#[test]
fn rejects_a_direction_that_is_no_number() {
    assert_eq!(
        parse_mqtt_event("x/LineA/bad", "Downtown|4|x\n12:45").err(),
        Some(DecodeError::MalformedDirectionId)
    );
    assert_eq!(
        parse_mqtt_event("x/LineA/bad", "").err(),
        Some(DecodeError::MalformedDirectionId)
    );
    assert_eq!(
        parse_mqtt_event("x/LineA/bad", "Downtown|soon|x\n12:45").err(),
        Some(DecodeError::MalformedDirectionId)
    );
    assert_eq!(
        decode("x/LineA/bad", &[0xff, 0xfe]).err(),
        Some(DecodeError::MalformedDirectionId)
    );
    assert_eq!(parse_mqtt_event("x/LineA/", "12:45").err(), Some(DecodeError::MalformedDirectionId));
    assert_eq!(parse_mqtt_event("x/LineA/-1", "12:45").err(), Some(DecodeError::MalformedDirectionId));
    assert_eq!(parse_mqtt_event("x/LineA/1 ", "12:45").err(), Some(DecodeError::MalformedDirectionId));
    assert_eq!(
        parse_mqtt_event("x/LineA/99999999999999999999999999", "12:45").err(),
        Some(DecodeError::MalformedDirectionId)
    );
}

#[test]
fn rejects_a_topic_of_one_component() {
    assert_eq!(parse_mqtt_event("LineA", "12:45").err(), Some(DecodeError::MalformedTopic));
    assert_eq!(parse_mqtt_event("", "12:45").err(), Some(DecodeError::MalformedTopic));
    assert_eq!(parse_mqtt_event("2", "Downtown|4|x\n12:45").err(), Some(DecodeError::MalformedTopic));
    assert_eq!(decode("2", b"12:45").err(), Some(DecodeError::MalformedTopic));
}

#[test]
fn accepts_a_topic_of_two_components() {
    let (line, id) = parse_topic("LineA/7").unwrap();
    assert_eq!(text_of(&line), "LineA");
    assert_eq!(id, 7);
    let (line, id) = parse_topic("a/b/c/Tram C/+12").unwrap();
    assert_eq!(text_of(&line), "Tram C");
    assert_eq!(id, 12);
    let (line, id) = parse_topic("/0").unwrap();
    assert_eq!(text_of(&line), "");
    assert_eq!(id, 0);
}

#[test]
fn rejects_minutes_that_are_no_number() {
    assert_eq!(
        parse_mqtt_event("x/LineA/2", "Downtown|soon|x\n12:45").err(),
        Some(DecodeError::MalformedArrival)
    );
    assert_eq!(
        parse_mqtt_event("x/LineA/2", "Downtown|256|x\n12:45").err(),
        Some(DecodeError::MalformedArrival)
    );
    assert_eq!(
        parse_mqtt_event("x/LineA/2", "Downtown||x\n12:45").err(),
        Some(DecodeError::MalformedArrival)
    );
    assert_eq!(
        parse_mqtt_event("x/LineA/2", "A|1\nB|2\nC|3\nD|4\nE|x\n12:45").err(),
        Some(DecodeError::MalformedArrival)
    );
}

#[test]
fn rejects_a_payload_that_is_no_text() {
    assert_eq!(decode("x/LineA/2", &[0x41, 0xff]).err(), Some(DecodeError::MalformedPayload));
    assert_eq!(decode("x/LineA/2", &[0xc3]).err(), Some(DecodeError::MalformedPayload));
}

#[test]
fn reads_minutes_up_to_the_largest() {
    let cmd = parse_mqtt_event("x/L/1", "A|0\nB|255\nC|+7|z|z\n1").unwrap();
    assert_eq!(
        passages_of(&cmd),
        vec![("A".to_string(), 0), ("B".to_string(), 255), ("C".to_string(), 7)]
    );
}

#[test]
fn passes_over_a_record_of_one_field() {
    let cmd = parse_mqtt_event("x/L/1", "no bar here\nA|3|x\n\n09:00").unwrap();
    assert_eq!(passages_of(&cmd), vec![("A".to_string(), 3)]);
}

#[test]
fn keeps_the_first_three_passages() {
    let cmd = parse_mqtt_event("x/L/1", "A|1|x\nB|2|x\nC|3|x\nD|4|x\nE|5|x\n09:00").unwrap();
    assert_eq!(
        passages_of(&cmd),
        vec![("A".to_string(), 1), ("B".to_string(), 2), ("C".to_string(), 3)]
    );
}

#[test]
fn counts_the_passages_that_a_payload_gives() {
    assert_eq!(count_passages_in_text("A|1|x\nB|2|x\nC|3|x\nD|4|x\nE|5|x\n09:00"), Ok(5));
    assert_eq!(count_passages_in_text("A|1|x\nno bar\n\nB|2\n09:00"), Ok(2));
    assert_eq!(count_passages_in_text("09:00"), Ok(0));
    assert_eq!(count_passages_in_text(""), Ok(0));
    assert_eq!(count_passages_in_text("A|1\n"), Ok(1));
    assert_eq!(count_passages_in_text("A|1\nB|x\n09:00"), Err(DecodeError::MalformedArrival));
    assert_eq!(count_passages(b"A|1|x\nB|2|x\n09:00"), Ok(2));
    assert_eq!(count_passages(&[0x41, 0xff]), Err(DecodeError::MalformedPayload));
}

#[test]
fn a_payload_of_one_record_is_the_time_alone() {
    let (passages, at) = parse_payload("09:00").unwrap();
    assert_eq!(passages.len(), 0);
    assert_eq!(text_of(&at), "09:00");
    let (passages, at) = parse_payload("").unwrap();
    assert_eq!(passages.len(), 0);
    assert_eq!(text_of(&at), "");
    let (passages, at) = parse_payload("A|1|x\n").unwrap();
    assert_eq!(passages.len(), 1);
    assert_eq!(text_of(&at), "");
}

#[test]
fn cuts_what_is_too_long() {
    let cmd = parse_mqtt_event(
        "x/A line name of many characters/3",
        "A destination of more than thirty-two characters|1|x\n2026-10-28T09:00:00",
    )
    .unwrap();
    match &cmd {
        UiCommand::UpdateDirection { line, update_at, .. } => {
            assert_eq!(text_of(line), "A line name of m");
            assert_eq!(text_of(update_at), "2026-10-28");
        }
        _ => panic!("not an update"),
    }
    assert_eq!(
        passages_of(&cmd),
        vec![("A destination of more than thirt".to_string(), 1)]
    );
}

#[test]
fn counts_characters_not_bytes() {
    let cmd = parse_mqtt_event("x/Ligne é/1", "Gare de l'Évêché à Échirolles-Été, arrêt Évêché|5|x\n12:45").unwrap();
    match &cmd {
        UiCommand::UpdateDirection { line, .. } => assert_eq!(text_of(line), "Ligne é"),
        _ => panic!("not an update"),
    }
    assert_eq!(
        passages_of(&cmd),
        vec![("Gare de l'Évêché à Échirolles-Ét".to_string(), 5)]
    );
}
