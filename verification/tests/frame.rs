use haxball_live_protocol::envelope::Payload;
use haxball_live_protocol::{
    decode_frame, encode_frame, validate, AudioCueKind, Checkpoint, DiscState, DynamicFrame,
    DynamicState, Envelope, GameState, GameStatus, PlayerState, ProtocolError, Team, TeamColors,
    Vec2, MAX_AUDIO_CUES, MAX_DISCS, MAX_FRAME_BYTES, MAX_PLAYERS, MAX_STADIUM_JSON_BYTES,
    PROTOCOL_VERSION,
};

fn fixture() -> Envelope {
    Envelope {
        protocol_version: PROTOCOL_VERSION,
        epoch: 7,
        sequence: 1,
        source_tick: 42,
        source_time_micros: 700_000,
        audio_cues: vec![AudioCueKind::BallKick as i32],
        payload: Some(Payload::Checkpoint(Checkpoint {
            room_name: "BFL".into(),
            max_players: 16,
            stadium_json: "{}".into(),
            score_limit: 3,
            time_limit_seconds: 180,
            teams_locked: false,
            red_team_colors: None,
            blue_team_colors: None,
            dynamic: Some(DynamicState {
                game: None,
                players: vec![PlayerState {
                    id: 1,
                    name: "gabinho".into(),
                    team: Team::Red as i32,
                    admin: false,
                    player_number: 1,
                    activity: true,
                    position: Some(Vec2 { x: 10.0f64.to_bits(), y: 20.0f64.to_bits() }),
                    disc_index: Some(4),
                    avatar: None,
                    input: 8,
                }],
                discs: vec![],
            }),
            initial_replay: Vec::new(),
        })),
    }
}

fn quiet_player() -> PlayerState {
    PlayerState {
        id: 0,
        name: String::new(),
        team: Team::Spectators as i32,
        admin: false,
        player_number: 0,
        activity: false,
        position: None,
        disc_index: None,
        avatar: None,
        input: 0,
    }
}

fn checkpoint_of(value: &mut Envelope) -> &mut Checkpoint {
    match value.payload.as_mut() {
        Some(Payload::Checkpoint(checkpoint)) => checkpoint,
        _ => unreachable!(),
    }
}

#[test]
fn round_trips_checkpoint() {
    let value = fixture();
    let decoded = decode_frame(&encode_frame(&value).unwrap()).unwrap();
    assert_eq!(decoded, value);
}

#[test]
fn rejects_unknown_versions() {
    let mut value = fixture();
    value.protocol_version = PROTOCOL_VERSION + 1;
    assert_eq!(
        encode_frame(&value),
        Err(ProtocolError::UnsupportedVersion(PROTOCOL_VERSION + 1))
    );
}

#[test]
fn rejects_private_scale_payloads() {
    let mut value = fixture();
    let checkpoint = checkpoint_of(&mut value);
    checkpoint.dynamic.as_mut().unwrap().players = (0..=MAX_PLAYERS).map(|_| quiet_player()).collect();
    assert_eq!(encode_frame(&value), Err(ProtocolError::TooManyPlayers));
}
