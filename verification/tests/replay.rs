use ttyrec_log::container::{ContainerError, TtyrecRecord};
use ttyrec_log::logger::LogLine;
use ttyrec_log::replay::{classify_frame, extract_log, replay_capture, Replay};
use ttyrec_log::sampler::GameState;
use ttyrec_log::screen::Screen;

fn record(data: &[u8]) -> TtyrecRecord {
    TtyrecRecord { seconds: 0, micros: 0, data: data.to_vec() }
}

fn capture(payloads: &[&[u8]]) -> Vec<u8> {
    let mut bytes = Vec::new();
    for (i, payload) in payloads.iter().enumerate() {
        bytes.extend_from_slice(&(i as u32).to_le_bytes());
        bytes.extend_from_slice(&0u32.to_le_bytes());
        bytes.extend_from_slice(&(payload.len() as u32).to_le_bytes());
        bytes.extend_from_slice(payload);
    }
    bytes
}

const UNKNOWN: &str = "[Turn: 0, HP: Unknown, Pw: Unknown, class: Unknown, user: Unknown] ";

#[test]
fn three_frame_capture_gives_two_lines() {
    let frames: [&[u8]; 3] =
        [b"\x1b[24;1HHP:10(10) Pw:0(0) T:1", b"You see here a scroll.", b"s"];
    let expected = vec![
        "[Turn: 1, HP: 10/10, Pw: 0/0, class: Unknown, user: Unknown] You see here a scroll."
            .to_string(),
        "[Turn: 1, HP: 10/10, Pw: 0/0, class: Unknown, user: Unknown] You spent time searching"
            .to_string(),
    ];
    let records: Vec<TtyrecRecord> = frames.iter().map(|f| record(f)).collect();
    assert_eq!(extract_log(&records), expected);
    assert_eq!(replay_capture(&capture(&frames)), Ok(expected));
}

#[test]
fn empty_capture_gives_an_empty_log() {
    assert_eq!(extract_log(&Vec::new()), Vec::<String>::new());
    assert_eq!(replay_capture(&[]), Ok(Vec::new()));
}

#[test]
fn empty_payload_logs_nothing() {
    assert_eq!(extract_log(&vec![record(b""), record(b"")]), Vec::<String>::new());
}

#[test]
fn truncated_capture_is_an_error() {
    let mut bytes = capture(&[b"You see here a scroll."]);
    let at = bytes.len();
    bytes.extend_from_slice(&[0, 0, 0, 0, 0, 0, 0, 0, 9, 0, 0, 0, b'x']);
    assert_eq!(
        replay_capture(&bytes),
        Err(ContainerError::TruncatedPayload { offset: at, declared: 9, available: 1 })
    );
}

#[test]
fn screen_is_cleared_before_every_frame() {
    let records = vec![record(b"You see here a scroll."), record(b"\x1b[5;1Hnoise")];
    assert_eq!(extract_log(&records), vec![format!("{}You see here a scroll.", UNKNOWN)]);
}

#[test]
fn state_is_sampled_before_the_frame_is_classified() {
    let records = vec![record(
        b"You see a newt.\x1b[23;1HBob the Knight St:18\x1b[24;1HDlvl:1 HP:16(16) Pw:5(5) T:12",
    )];
    assert_eq!(
        extract_log(&records),
        vec!["[Turn: 12, HP: 16/16, Pw: 5/5, class: Knight, user: Bob] You see a newt.".to_string()]
    );
}

#[test]
fn state_persists_across_frames() {
    let records = vec![
        record(b"\x1b[23;1HBob the Knight\x1b[24;1HHP:16(16) Pw:5(5) T:12"),
        record(b"The newt bites!"),
        record(b"The newt bites!\x1b[24;1HHP:14(16) T:13"),
        record(b"The newt bites!\x1b[24;1HHP:12(16) Pw:5(5) T:14"),
    ];
    assert_eq!(
        extract_log(&records),
        vec![
            "[Turn: 12, HP: 16/16, Pw: 5/5, class: Knight, user: Bob] The newt bites!".to_string(),
            "[Turn: 13, HP: 16/16, Pw: 5/5, class: Knight, user: Bob] The newt bites!".to_string(),
            "[Turn: 14, HP: 12/16, Pw: 5/5, class: Knight, user: Bob] The newt bites!".to_string(),
        ]
    );
}

#[test]
fn repeated_frames_are_logged_once() {
    let records = vec![
        record(b"You see here a scroll."),
        record(b"You see here a scroll."),
        record(b"s"),
        record(b"The door opens."),
        record(b"s"),
        record(b"You see here a scroll."),
    ];
    assert_eq!(
        extract_log(&records),
        vec![
            format!("{}You see here a scroll.", UNKNOWN),
            format!("{}You spent time searching", UNKNOWN),
            format!("{}The door opens.", UNKNOWN),
        ]
    );
}

#[test]
fn failed_action_replaces_the_message() {
    let records = vec![record(b"You don't have anything to zap.--More--")];
    assert_eq!(
        extract_log(&records),
        vec![format!("{}You tried to zap a wand that was not in your inventory", UNKNOWN)]
    );
}

#[test]
fn header_row_is_never_logged() {
    for row in ["Weapons", "WEAPONS", "weapons", " Armor", "Scrolls--More--"] {
        assert_eq!(extract_log(&vec![record(row.as_bytes())]), Vec::<String>::new());
    }
}

#[test]
fn excluded_prompt_is_never_logged() {
    let records = vec![record(b"What do you want to use or apply? [abc or ?*]")];
    assert_eq!(extract_log(&records), Vec::<String>::new());
}

#[test]
fn control_sequence_split_over_two_frames_is_completed() {
    let records = vec![record(b"\x1b[24;"), record(b"1HHP:3(4) Pw:1(2) T:8"), record(b"z")];
    assert_eq!(
        extract_log(&records),
        vec!["[Turn: 8, HP: 3/4, Pw: 1/2, class: Unknown, user: Unknown] You zap a wand"
            .to_string()]
    );
}

#[test]
fn replay_exposes_state_and_lines() {
    let mut replay = Replay::new();
    assert_eq!(*replay.state(), GameState::new());
    assert!(replay.lines().is_empty());
    replay.process_frame(b"The door opens.\x1b[24;1HT:3");
    replay.process_frame(b"o");
    replay.process_frame(b"o");
    assert_eq!(replay.state().turn, 3);
    let prefix = "[Turn: 3, HP: Unknown, Pw: Unknown, class: Unknown, user: Unknown] ".to_string();
    assert_eq!(
        *replay.lines(),
        vec![
            LogLine { prefix: prefix.clone(), body: "The door opens.".to_string() },
            LogLine { prefix: prefix.clone(), body: "You try to open something".to_string() },
            LogLine { prefix: prefix.clone(), body: "You try to open something".to_string() },
        ]
    );
    assert_eq!(
        replay.finish(),
        vec![format!("{}The door opens.", prefix), format!("{}You try to open something", prefix)]
    );
}

#[test]
fn frame_can_log_a_keystroke_and_a_message() {
    let state = GameState::new();
    let mut screen = Screen::new();
    for c in "You see here a scroll.".chars() {
        screen.print(c);
    }
    assert_eq!(
        classify_frame(&state, &screen, b"s"),
        vec![
            LogLine { prefix: UNKNOWN.to_string(), body: "You spent time searching".to_string() },
            LogLine { prefix: UNKNOWN.to_string(), body: "You see here a scroll.".to_string() },
        ]
    );
    assert_eq!(classify_frame(&state, &Screen::new(), b"q"), Vec::new());
    assert_eq!(
        classify_frame(&state, &screen, b""),
        vec![LogLine { prefix: UNKNOWN.to_string(), body: "You see here a scroll.".to_string() }]
    );
}
