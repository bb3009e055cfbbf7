use haxball_live_protocol::envelope::Payload;
use haxball_live_protocol::{
    decode_frame, encode_frame, validate, AudioCueKind, Checkpoint, DiscState, DynamicFrame,
    DynamicState, Envelope, GameState, GameStatus, PlayerState, ProtocolError, Team, TeamColors,
    Vec2, MAX_AUDIO_CUES, MAX_DISCS, MAX_FRAME_BYTES, MAX_PLAYERS, MAX_STADIUM_JSON_BYTES,
    PROTOCOL_VERSION,
};

/// A small deterministic generator, so that the generated cases repeat.
struct Lcg(u64);

impl Lcg {
    fn next(&mut self) -> u64 {
        self.0 = self.0.wrapping_mul(6364136223846793005).wrapping_add(1442695040888963407);
        self.0 >> 11
    }

    fn below(&mut self, n: u64) -> u64 {
        self.next() % n
    }

    fn double(&mut self, bound: f64) -> u64 {
        let unit = (self.next() % 1_000_001) as f64 / 1_000_000.0;
        (unit * 2.0 * bound - bound).to_bits()
    }
}

fn vec2(x: f64, y: f64) -> Vec2 {
    Vec2 { x: x.to_bits(), y: y.to_bits() }
}

fn dynamic_envelope(state: Option<DynamicState>) -> Envelope {
    Envelope {
        protocol_version: PROTOCOL_VERSION,
        epoch: 3,
        sequence: 9,
        source_tick: 1_000,
        source_time_micros: 16_666,
        audio_cues: vec![AudioCueKind::Goal as i32, AudioCueKind::Chat as i32],
        payload: Some(Payload::Dynamic(DynamicFrame { checkpoint_sequence: 8, state })),
    }
}

fn busy_state() -> DynamicState {
    DynamicState {
        game: Some(GameState {
            status: GameStatus::Running as i32,
            red_score: 2,
            blue_score: 1,
            elapsed_seconds: 93.25f64.to_bits(),
            paused_ticks: 17,
            kickoff_team: Team::Blue as i32,
            active_ticks: 5_595,
            countdown_ticks: -3,
            phase_code: -70_000,
        }),
        players: vec![
            PlayerState {
                id: 7,
                name: "célia".into(),
                team: Team::Blue as i32,
                admin: true,
                player_number: -2,
                activity: true,
                position: Some(vec2(-150.5, 42.0)),
                disc_index: Some(0),
                avatar: Some("⚽".into()),
                input: 31,
            },
            PlayerState {
                id: 8,
                name: "x".into(),
                team: Team::Spectators as i32,
                admin: false,
                player_number: 0,
                activity: false,
                position: None,
                disc_index: None,
                avatar: Some(String::new()),
                input: 0,
            },
        ],
        discs: vec![DiscState {
            index: 0,
            position: Some(vec2(0.0, 0.0)),
            speed: Some(vec2(1.5, -2.25)),
            gravity: None,
            radius: 10.0f64.to_bits(),
            bounce: 0.5f64.to_bits(),
            inverse_mass: 1.0f64.to_bits(),
            damping: 0.99f64.to_bits(),
            color: -1,
            collision_mask: 63,
            collision_group: i32::MIN,
        }],
    }
}

fn checkpoint_envelope() -> Envelope {
    Envelope {
        protocol_version: PROTOCOL_VERSION,
        epoch: u64::MAX,
        sequence: 1,
        source_tick: 0,
        source_time_micros: 1,
        audio_cues: Vec::new(),
        payload: Some(Payload::Checkpoint(Checkpoint {
            room_name: "room".into(),
            max_players: 12,
            stadium_json: "{\"name\":\"Big\"}".into(),
            score_limit: 5,
            time_limit_seconds: 300,
            teams_locked: true,
            red_team_colors: Some(TeamColors { angle: 90, text_color: 0xffffff, colors: vec![0xe56e56, 0] }),
            blue_team_colors: Some(TeamColors { angle: -45, text_color: 0, colors: Vec::new() }),
            dynamic: Some(busy_state()),
            initial_replay: vec![0, 1, 2, 255],
        })),
    }
}

fn checkpoint_of(value: &mut Envelope) -> &mut Checkpoint {
    match value.payload.as_mut() {
        Some(Payload::Checkpoint(checkpoint)) => checkpoint,
        _ => unreachable!(),
    }
}

fn round_trip(value: &Envelope) -> Envelope {
    decode_frame(&encode_frame(value).unwrap()).unwrap()
}

#[test]
fn round_trips_dynamic_frame() {
    let value = dynamic_envelope(Some(busy_state()));
    assert_eq!(round_trip(&value), value);
}

#[test]
fn round_trips_full_checkpoint() {
    let value = checkpoint_envelope();
    assert_eq!(round_trip(&value), value);
}

#[test]
fn round_trips_every_audio_cue() {
    let mut value = dynamic_envelope(Some(DynamicState::default()));
    value.audio_cues = (0..6).collect();
    assert_eq!(round_trip(&value), value);
}

#[test]
fn encodes_exact_bytes() {
    let value = Envelope {
        protocol_version: 1,
        epoch: 0,
        sequence: 1,
        source_tick: 300,
        source_time_micros: 0,
        audio_cues: vec![2, 3],
        payload: Some(Payload::Dynamic(DynamicFrame {
            checkpoint_sequence: 0,
            state: Some(DynamicState::default()),
        })),
    };
    let bytes = encode_frame(&value).unwrap();
    assert_eq!(bytes, vec![0x08, 0x01, 0x18, 0x01, 0x20, 0xac, 0x02, 0x32, 0x02, 0x02, 0x03, 0x5a, 0x02, 0x12, 0x00]);
    assert_eq!(value.encode_to_vec(), bytes);
}

#[test]
fn encodes_doubles_little_endian() {
    let mut state = DynamicState::default();
    state.players.push(PlayerState {
        position: Some(vec2(1.0, 0.0)),
        ..PlayerState::default()
    });
    let value = dynamic_envelope(Some(state));
    let bytes = encode_frame(&value).unwrap();
    let vec2_bytes = [0x09, 0, 0, 0, 0, 0, 0, 0xf0, 0x3f];
    assert!(bytes.windows(vec2_bytes.len()).any(|w| w == vec2_bytes));
    assert_eq!(round_trip(&value), value);
}

#[test]
fn negative_zero_reads_back_as_zero() {
    let mut state = busy_state();
    state.game.as_mut().unwrap().elapsed_seconds = (-0.0f64).to_bits();
    let value = dynamic_envelope(Some(state));
    let decoded = round_trip(&value);
    let mut expected = value.clone();
    match expected.payload.as_mut() {
        Some(Payload::Dynamic(frame)) => frame.state.as_mut().unwrap().game.as_mut().unwrap().elapsed_seconds = 0,
        _ => unreachable!(),
    }
    assert_eq!(decoded, expected);
    assert_eq!(decoded, value);
}

#[test]
fn decodes_unpacked_audio_cues_and_skips_unknown_fields() {
    let bytes = vec![
        0x08, 0x01, // protocol_version = 1
        0x18, 0x05, // sequence = 5
        0x30, 0x04, // audio cue 4, unpacked
        0x78, 0x96, 0x01, // unknown field 15, varint
        0x30, 0x01, // audio cue 1, unpacked
        0x81, 0x01, 1, 2, 3, 4, 5, 6, 7, 8, // unknown field 16, 64-bit
        0x5a, 0x02, 0x12, 0x00, // dynamic frame with an empty state
    ];
    let decoded = decode_frame(&bytes).unwrap();
    assert_eq!(decoded.sequence, 5);
    assert_eq!(decoded.audio_cues, vec![4, 1]);
    assert_eq!(
        decoded.payload,
        Some(Payload::Dynamic(DynamicFrame { checkpoint_sequence: 0, state: Some(DynamicState::default()) }))
    );
}

#[test]
fn later_scalar_fields_win() {
    let bytes = vec![0x08, 0x01, 0x18, 0x05, 0x18, 0x07, 0x5a, 0x02, 0x12, 0x00];
    assert_eq!(decode_frame(&bytes).unwrap().sequence, 7);
}

#[test]
fn rejects_oversized_frames_before_decoding() {
    let bytes = vec![0xffu8; MAX_FRAME_BYTES + 1];
    assert_eq!(decode_frame(&bytes), Err(ProtocolError::FrameTooLarge));
}

#[test]
fn rejects_frames_whose_encoding_is_too_large() {
    let mut value = checkpoint_envelope();
    let checkpoint = checkpoint_of(&mut value);
    checkpoint.stadium_json = "a".repeat(MAX_STADIUM_JSON_BYTES);
    checkpoint.initial_replay = vec![7; MAX_STADIUM_JSON_BYTES];
    assert_eq!(validate(&value), Ok(()));
    assert_eq!(encode_frame(&value), Err(ProtocolError::FrameTooLarge));
}

#[test]
fn rejects_malformed_bytes() {
    for bytes in [vec![0xff], vec![0x08], vec![0x0f, 0x00], vec![0x5a, 0x05, 0x12], vec![0x00, 0x01]] {
        assert!(matches!(decode_frame(&bytes), Err(ProtocolError::Decode(_))), "{bytes:?}");
    }
}

#[test]
fn decode_error_carries_a_message() {
    match decode_frame(&[0x5a, 0x05, 0x12]) {
        Err(ProtocolError::Decode(text)) => assert!(!text.is_empty()),
        other => panic!("unexpected {other:?}"),
    }
}

#[test]
fn rejects_empty_frame_without_payload() {
    assert_eq!(decode_frame(&[]), Err(ProtocolError::UnsupportedVersion(0)));
    assert_eq!(decode_frame(&[0x08, 0x01]), Err(ProtocolError::InvalidSequence));
    assert_eq!(decode_frame(&[0x08, 0x01, 0x18, 0x01]), Err(ProtocolError::MissingPayload));
}

#[test]
fn rejects_invalid_sequence() {
    let mut value = dynamic_envelope(Some(busy_state()));
    value.sequence = 0;
    assert_eq!(encode_frame(&value), Err(ProtocolError::InvalidSequence));
}

#[test]
fn rejects_missing_payload() {
    let mut value = dynamic_envelope(Some(busy_state()));
    value.payload = None;
    assert_eq!(validate(&value), Err(ProtocolError::MissingPayload));
}

#[test]
fn rejects_missing_states() {
    assert_eq!(encode_frame(&dynamic_envelope(None)), Err(ProtocolError::MissingDynamicState));
    let mut value = checkpoint_envelope();
    checkpoint_of(&mut value).dynamic = None;
    assert_eq!(encode_frame(&value), Err(ProtocolError::MissingCheckpointState));
}

#[test]
fn rejects_audio_cues_out_of_range() {
    let mut value = dynamic_envelope(Some(busy_state()));
    value.audio_cues = vec![0; MAX_AUDIO_CUES + 1];
    assert_eq!(encode_frame(&value), Err(ProtocolError::TooManyAudioCues));
    value.audio_cues = vec![0; MAX_AUDIO_CUES];
    assert!(encode_frame(&value).is_ok());
    value.audio_cues = vec![1, 6];
    assert_eq!(encode_frame(&value), Err(ProtocolError::UnknownAudioCue));
    value.audio_cues = vec![-1];
    assert_eq!(encode_frame(&value), Err(ProtocolError::UnknownAudioCue));
}

#[test]
fn rejects_oversized_stadium_and_bootstrap() {
    let mut value = checkpoint_envelope();
    checkpoint_of(&mut value).stadium_json = "é".repeat(MAX_STADIUM_JSON_BYTES / 2 + 1);
    assert_eq!(encode_frame(&value), Err(ProtocolError::StadiumTooLarge));
    let mut value = checkpoint_envelope();
    checkpoint_of(&mut value).initial_replay = vec![0; MAX_STADIUM_JSON_BYTES + 1];
    assert_eq!(encode_frame(&value), Err(ProtocolError::BootstrapTooLarge));
}

#[test]
fn rejects_too_many_discs() {
    let mut state = DynamicState::default();
    state.discs = vec![DiscState::default(); MAX_DISCS + 1];
    assert_eq!(encode_frame(&dynamic_envelope(Some(state))), Err(ProtocolError::TooManyDiscs));
    let mut state = DynamicState::default();
    state.discs = vec![DiscState::default(); MAX_DISCS];
    state.players = vec![PlayerState::default(); MAX_PLAYERS];
    let value = dynamic_envelope(Some(state));
    assert_eq!(round_trip(&value), value);
}

#[test]
fn checks_the_rules_in_order() {
    let mut value = dynamic_envelope(None);
    value.protocol_version = 2;
    value.sequence = 0;
    assert_eq!(validate(&value), Err(ProtocolError::UnsupportedVersion(2)));
    value.protocol_version = PROTOCOL_VERSION;
    assert_eq!(validate(&value), Err(ProtocolError::InvalidSequence));
    value.sequence = 1;
    value.audio_cues = vec![9];
    assert_eq!(validate(&value), Err(ProtocolError::UnknownAudioCue));
    value.audio_cues = Vec::new();
    assert_eq!(validate(&value), Err(ProtocolError::MissingDynamicState));
}

#[test]
fn decoded_frames_obey_the_rules() {
    let mut value = dynamic_envelope(Some(busy_state()));
    value.protocol_version = 5;
    let bytes = value.encode_to_vec();
    assert_eq!(decode_frame(&bytes), Err(ProtocolError::UnsupportedVersion(5)));
}

#[test]
fn enum_wire_numbers() {
    for n in 0..6 {
        assert_eq!(AudioCueKind::try_from_i32(n).unwrap().as_i32(), n);
    }
    assert_eq!(AudioCueKind::try_from_i32(6), None);
    assert_eq!(AudioCueKind::Notification.as_i32(), 5);
    assert_eq!(Team::try_from_i32(2), Some(Team::Blue));
    assert_eq!(Team::try_from_i32(3), None);
    assert_eq!(GameStatus::try_from_i32(3), Some(GameStatus::Resuming));
    assert_eq!(GameStatus::Paused.as_i32(), 2);
    assert_eq!(GameStatus::try_from_i32(-1), None);
}

#[test]
fn generated_checkpoints_round_trip() {
    let mut rng = Lcg(0x5eed);
    for _ in 0..64 {
        let players = (0..rng.below(16))
            .map(|_| PlayerState {
                id: rng.next() as u32,
                name: (0..rng.below(12)).map(|_| (b' ' + rng.below(95) as u8) as char).collect(),
                team: rng.below(3) as i32,
                admin: rng.below(2) == 1,
                player_number: rng.next() as i32,
                activity: rng.below(2) == 1,
                position: if rng.below(2) == 1 { Some(Vec2 { x: rng.double(1e6), y: rng.double(1e6) }) } else { None },
                disc_index: if rng.below(2) == 1 { Some(rng.next() as u32) } else { None },
                avatar: if rng.below(2) == 1 { Some("ab".into()) } else { None },
                input: rng.next() as u32,
            })
            .collect();
        let discs = (0..rng.below(32))
            .map(|_| DiscState {
                index: rng.next() as u32,
                position: Some(Vec2 { x: rng.double(1e4), y: rng.double(1e4) }),
                speed: if rng.below(2) == 1 { Some(Vec2 { x: rng.double(1e4), y: rng.double(1e4) }) } else { None },
                gravity: None,
                radius: rng.double(1e4),
                bounce: rng.double(1e4),
                inverse_mass: rng.double(1e4),
                damping: rng.double(1e4),
                color: rng.next() as i32,
                collision_mask: rng.next() as i32,
                collision_group: rng.next() as i32,
            })
            .collect();
        let value = Envelope {
            protocol_version: PROTOCOL_VERSION,
            epoch: rng.next(),
            sequence: rng.next().max(1),
            source_tick: rng.next(),
            source_time_micros: rng.next(),
            audio_cues: Vec::new(),
            payload: Some(Payload::Checkpoint(Checkpoint {
                room_name: (0..rng.below(64)).map(|_| (b' ' + rng.below(95) as u8) as char).collect(),
                max_players: MAX_PLAYERS as u32,
                stadium_json: "{}".into(),
                score_limit: 3,
                time_limit_seconds: 180,
                teams_locked: false,
                red_team_colors: None,
                blue_team_colors: None,
                dynamic: Some(DynamicState { game: None, players, discs }),
                initial_replay: (0..rng.below(512)).map(|_| rng.next() as u8).collect(),
            })),
        };
        let encoded = encode_frame(&value).unwrap();
        assert_eq!(decode_frame(&encoded).unwrap(), value);
    }
}

#[test]
fn arbitrary_bytes_fail_deterministically() {
    let mut rng = Lcg(0xb17e5);
    for _ in 0..256 {
        let bytes: Vec<u8> = (0..rng.below(4096)).map(|_| rng.next() as u8).collect();
        assert_eq!(decode_frame(&bytes), decode_frame(&bytes));
    }
}

#[test]
fn skips_unknown_groups() {
    let bytes = vec![
        0x08, 0x01, 0x18, 0x02, // version 1, sequence 2
        0x7b, 0x08, 0x05, 0x7b, 0x7c, 0x7c, // group 15 holding a varint and an empty group 15
        0x5a, 0x02, 0x12, 0x00, // dynamic frame with an empty state
    ];
    let decoded = decode_frame(&bytes).unwrap();
    assert_eq!(decoded.sequence, 2);
    assert!(matches!(decode_frame(&[0x7b, 0x08, 0x05]), Err(ProtocolError::Decode(_))));
    assert!(matches!(decode_frame(&[0x7b, 0x84, 0x01]), Err(ProtocolError::Decode(_))));
}

#[test]
fn rejects_a_message_field_of_the_wrong_wire_type() {
    assert!(matches!(decode_frame(&[0x08, 0x01, 0x18, 0x01, 0x50, 0x01]), Err(ProtocolError::Decode(_))));
    assert!(matches!(decode_frame(&[0x08, 0x01, 0x19, 1, 0, 0, 0, 0, 0, 0, 0]), Err(ProtocolError::Decode(_))));
}

#[test]
fn decode_error_names_the_field() {
    let bytes = [0x08, 0x01, 0x18, 0x01, 0x52, 0x03, 0x0a, 0x01, 0xff];
    assert_eq!(
        decode_frame(&bytes),
        Err(ProtocolError::Decode(
            "failed to decode Protobuf message: Checkpoint.room_name: Envelope.payload: invalid string value: data is not UTF-8 encoded"
                .into()
        ))
    );
}

#[test]
fn rejects_overlong_varints() {
    let mut bytes = vec![0x08];
    bytes.extend([0xff; 9]);
    bytes.push(0x02);
    assert!(matches!(decode_frame(&bytes), Err(ProtocolError::Decode(_))));
    let mut bytes = vec![0x10];
    bytes.extend([0xff; 9]);
    bytes.push(0x01);
    bytes.extend([0x08, 0x01, 0x18, 0x01]);
    assert_eq!(decode_frame(&bytes), Err(ProtocolError::MissingPayload));
}

#[test]
fn message_bodies_must_end_where_their_length_says() {
    // a checkpoint whose last field runs past the checkpoint's length
    let bytes = [0x08, 0x01, 0x18, 0x01, 0x52, 0x02, 0x10, 0x80, 0x01];
    assert!(matches!(decode_frame(&bytes), Err(ProtocolError::Decode(_))));
}

fn varint(mut n: usize) -> Vec<u8> {
    let mut out = Vec::new();
    while n >= 0x80 {
        out.push((n as u8 & 0x7f) | 0x80);
        n >>= 7;
    }
    out.push(n as u8);
    out
}

fn delimited(key: u8, body: Vec<u8>) -> Vec<u8> {
    let mut out = vec![key];
    out.extend(varint(body.len()));
    out.extend(body);
    out
}

fn nested_groups(depth: usize) -> Vec<u8> {
    let mut out = vec![0x7b; depth];
    out.extend(vec![0x7c; depth]);
    out
}

fn decode_text(bytes: &[u8]) -> String {
    match decode_frame(bytes) {
        Err(ProtocolError::Decode(text)) => text,
        other => panic!("unexpected {other:?}"),
    }
}

#[test]
fn nested_groups_reach_the_recursion_limit() {
    let mut bytes = vec![0x08, 0x01, 0x18, 0x01];
    bytes.extend(nested_groups(100));
    bytes.extend([0x5a, 0x02, 0x12, 0x00]);
    assert!(decode_frame(&bytes).is_ok());
    let mut bytes = vec![0x08, 0x01, 0x18, 0x01];
    bytes.extend(nested_groups(101));
    assert_eq!(decode_text(&bytes), "failed to decode Protobuf message: recursion limit reached");
}

#[test]
fn the_recursion_limit_counts_the_enclosing_messages() {
    let frame = |depth: usize| {
        let position = delimited(0x3a, nested_groups(depth));
        let state = delimited(0x12, position);
        let checkpoint = delimited(0x4a, state);
        let mut bytes = vec![0x08, 0x01, 0x18, 0x01];
        bytes.extend(delimited(0x52, checkpoint));
        bytes
    };
    assert!(decode_frame(&frame(96)).is_ok());
    assert_eq!(
        decode_text(&frame(97)),
        "failed to decode Protobuf message: PlayerState.position: DynamicState.players: Checkpoint.dynamic: Envelope.payload: recursion limit reached"
    );
}

#[test]
fn decode_errors_carry_prost_texts() {
    let prefix = "failed to decode Protobuf message: ";
    let cases: Vec<(Vec<u8>, &str)> = vec![
        (vec![0x0f, 0x00], "invalid wire type value: 7"),
        (vec![0x00, 0x01], "invalid tag value: 0"),
        (vec![0x80, 0x80, 0x80, 0x80, 0x10], "invalid key value: 4294967296"),
        (vec![0xff], "invalid varint"),
        (vec![0x0a, 0x00], "Envelope.protocol_version: invalid wire type: LengthDelimited (expected Varint)"),
        (vec![0x08], "Envelope.protocol_version: invalid varint"),
        (vec![0x32, 0x01, 0x80, 0x01], "Envelope.audio_cues: delimited length exceeded"),
        (vec![0x32, 0x05, 0x01], "Envelope.audio_cues: buffer underflow"),
        (vec![0x31], "Envelope.audio_cues: invalid wire type: SixtyFourBit (expected Varint)"),
        (vec![0x50, 0x01], "Envelope.payload: invalid wire type: Varint (expected LengthDelimited)"),
        (vec![0x5a, 0x05, 0x12], "Envelope.payload: buffer underflow"),
        (vec![0x52, 0x02, 0x10, 0x80, 0x01], "Envelope.payload: delimited length exceeded"),
        (
            vec![0x52, 0x02, 0x50, 0x00],
            "Checkpoint.initial_replay: Envelope.payload: invalid wire type: Varint (expected LengthDelimited)",
        ),
        (
            vec![0x52, 0x02, 0x08, 0x00],
            "Checkpoint.room_name: Envelope.payload: invalid wire type: Varint (expected LengthDelimited)",
        ),
        (
            vec![0x5a, 0x06, 0x12, 0x04, 0x0a, 0x02, 0x20, 0x00],
            "GameState.elapsed_seconds: DynamicState.game: DynamicFrame.state: Envelope.payload: invalid wire type: Varint (expected SixtyFourBit)",
        ),
        (vec![0x5a, 0x03, 0x12, 0x01, 0x0a], "DynamicState.game: DynamicFrame.state: Envelope.payload: invalid varint"),
        (vec![0x7c], "unexpected end group tag"),
        (vec![0x79, 0x00], "buffer underflow"),
        (vec![0x7b, 0x84, 0x01], "unexpected end group tag"),
    ];
    for (bytes, description) in cases {
        assert_eq!(decode_text(&bytes), format!("{prefix}{description}"), "{bytes:?}");
    }
}

#[test]
fn error_messages() {
    assert_eq!(ProtocolError::FrameTooLarge.message(), "live frame exceeds the 4194304-byte limit");
    assert_eq!(
        ProtocolError::Decode("boom".into()).message(),
        "live frame could not be decoded: boom"
    );
    assert_eq!(ProtocolError::UnsupportedVersion(17).message(), "unsupported live protocol version 17");
    assert_eq!(ProtocolError::MissingPayload.message(), "live frame has no payload");
    assert_eq!(ProtocolError::MissingCheckpointState.message(), "checkpoint has no dynamic state");
    assert_eq!(ProtocolError::MissingDynamicState.message(), "dynamic frame has no state");
    assert_eq!(ProtocolError::TooManyPlayers.message(), "live frame contains too many players");
    assert_eq!(ProtocolError::TooManyDiscs.message(), "live frame contains too many discs");
    assert_eq!(ProtocolError::TooManyAudioCues.message(), "live frame contains too many audio cues");
    assert_eq!(ProtocolError::UnknownAudioCue.message(), "live frame contains an unknown audio cue");
    assert_eq!(ProtocolError::StadiumTooLarge.message(), "checkpoint stadium exceeds the size limit");
    assert_eq!(ProtocolError::BootstrapTooLarge.message(), "checkpoint bootstrap exceeds the size limit");
    assert_eq!(ProtocolError::InvalidSequence.message(), "live frame sequence must be positive");
}

#[test]
fn enum_validity_and_encoded_len() {
    assert!(AudioCueKind::is_valid(5));
    assert!(!AudioCueKind::is_valid(6));
    assert!(Team::is_valid(0));
    assert!(!Team::is_valid(-1));
    assert!(GameStatus::is_valid(3));
    assert!(!GameStatus::is_valid(4));
    assert_eq!(AudioCueKind::default(), AudioCueKind::PlayerJoin);
    assert_eq!(Team::default(), Team::Spectators);
    assert_eq!(GameStatus::default(), GameStatus::Stopped);
    let value = checkpoint_envelope();
    assert_eq!(value.encoded_len(), encode_frame(&value).unwrap().len());
}

#[test]
fn doubles_compare_as_f64() {
    assert_eq!(vec2(0.0, 1.5), vec2(-0.0, 1.5));
    assert_ne!(vec2(f64::NAN, 1.5), vec2(f64::NAN, 1.5));
    assert_ne!(vec2(1.0, 2.0), vec2(1.0, 2.5));
    let game = busy_state().game.unwrap();
    let mut other = game.clone();
    assert_eq!(game, other);
    other.elapsed_seconds = f64::NAN.to_bits();
    assert_ne!(game, other);
    let mut nan_game = other.clone();
    assert_ne!(nan_game, other);
    nan_game.elapsed_seconds = 0;
    other.elapsed_seconds = (-0.0f64).to_bits();
    assert_eq!(nan_game, other);
    let disc = busy_state().discs[0].clone();
    let mut other = disc.clone();
    assert_eq!(disc, other);
    other.position = Some(vec2(-0.0, 0.0));
    assert_eq!(disc, other);
    other.gravity = Some(vec2(0.0, 0.0));
    assert_ne!(disc, other);
    other.gravity = None;
    other.damping = f64::NAN.to_bits();
    assert_ne!(disc, other);
}
