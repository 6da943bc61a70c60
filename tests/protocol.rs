use omnitiles::protocol::{Command, Parser, MSG_TELEMETRY, START_BYTE};

fn feed(parser: &mut Parser, bytes: &[u8]) -> Vec<Option<Command>> {
    bytes.iter().map(|b| parser.push(*b)).collect()
}

#[test]
fn ping_frame_yields_ping_at_last_byte() {
    let mut p = Parser::new();
    assert_eq!(feed(&mut p, &[0xA5, 0x50, 0x50]), vec![None, None, Some(Command::Ping)]);
}

#[test]
fn extend_frame_with_payload() {
    let mut p = Parser::new();
    assert_eq!(
        feed(&mut p, &[0xA5, 0x30, 0x80, 0xB0]),
        vec![None, None, None, Some(Command::M1Extend(128))]
    );
}

#[test]
fn every_command_round_trips() {
    let cases: Vec<(Vec<u8>, Command)> = vec![
        (vec![0x31, 0x10], Command::M1Retract(0x10)),
        (vec![0x32], Command::M1Brake),
        (vec![0x33, 0x7F], Command::M1SetPosition(0x7F)),
        (vec![0x40, 0xFF], Command::M2Extend(0xFF)),
        (vec![0x41, 0x00], Command::M2Retract(0)),
        (vec![0x42], Command::M2Brake),
        (vec![0x43, 0x05], Command::M2SetPosition(5)),
        (vec![0x50], Command::Ping),
    ];
    let mut p = Parser::new();
    for (body, cmd) in cases {
        let sum = body.iter().fold(0u8, |a, b| a.wrapping_add(*b));
        let mut frame = vec![START_BYTE];
        frame.extend_from_slice(&body);
        frame.push(sum);
        let out = feed(&mut p, &frame);
        assert_eq!(out.last().copied().flatten(), Some(cmd));
        assert!(out[..out.len() - 1].iter().all(|o| o.is_none()));
    }
}

#[test]
fn checksum_wraps_mod_256() {
    let mut p = Parser::new();
    // 0x40 + 0xFF = 0x13F -> 0x3F
    assert_eq!(
        feed(&mut p, &[0xA5, 0x40, 0xFF, 0x3F]),
        vec![None, None, None, Some(Command::M2Extend(0xFF))]
    );
}

#[test]
fn resync_after_unknown_id() {
    let mut p = Parser::new();
    assert_eq!(
        feed(&mut p, &[0xA5, 0xFF, 0xA5, 0x50, 0x50]),
        vec![None, None, None, None, Some(Command::Ping)]
    );
}

#[test]
fn bad_checksum_is_dropped_then_parser_resyncs() {
    let mut p = Parser::new();
    assert_eq!(feed(&mut p, &[0xA5, 0x30, 0x80, 0xB1]), vec![None; 4]);
    assert_eq!(feed(&mut p, &[0xA5, 0x50, 0x50]), vec![None, None, Some(Command::Ping)]);
}

#[test]
fn every_wrong_checksum_is_dropped() {
    for bad in 0u16..=255 {
        let bad = bad as u8;
        if bad == 0x50 {
            continue;
        }
        let mut p = Parser::new();
        assert_eq!(feed(&mut p, &[0xA5, 0x50, bad]), vec![None; 3]);
        assert_eq!(feed(&mut p, &[0xA5, 0x42, 0x42]), vec![None, None, Some(Command::M2Brake)]);
    }
}

#[test]
fn stray_bytes_before_start_are_ignored() {
    let mut p = Parser::new();
    assert_eq!(
        feed(&mut p, &[0x00, 0x50, 0x13, 0xA5, 0x32, 0x32]),
        vec![None, None, None, None, None, Some(Command::M1Brake)]
    );
}

#[test]
fn unknown_id_is_not_taken_as_a_start_byte() {
    let mut p = Parser::new();
    // The second 0xA5 is an unknown ID; the following ping bytes then arrive
    // while waiting for a start byte and are ignored.
    assert_eq!(feed(&mut p, &[0xA5, 0xA5, 0x50, 0x50]), vec![None; 4]);
}

#[test]
fn telemetry_id_is_not_accepted() {
    let mut p = Parser::new();
    assert_eq!(feed(&mut p, &[0xA5, MSG_TELEMETRY, MSG_TELEMETRY]), vec![None; 3]);
}

#[test]
fn truncated_frame_then_new_frame_inside_payload() {
    let mut p = Parser::new();
    // A start byte inside a payload slot is taken as payload.
    assert_eq!(
        feed(&mut p, &[0xA5, 0x30, 0xA5, 0xD5]),
        vec![None, None, None, Some(Command::M1Extend(0xA5))]
    );
}
