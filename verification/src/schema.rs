//! Laws that pin the library to the protocol's schema and rules: which
//! frames are accepted and which error each refused frame gets, which tag
//! each field is written under, the wire number of each enumeration value,
//! and what `==` compares.

use vstd::prelude::*;
use vstd::std_specs::cmp::PartialEqSpec;

use crate::encode::{
    bool_field, bytes_field, checkpoint_bytes, disc_state_bytes, discs_bytes, double_field,
    dynamic_frame_bytes, players_bytes,
    dynamic_state_bytes, envelope_bytes, game_state_bytes, int32_field, opt_game_field,
    opt_state_field, opt_string_field, opt_team_colors_field, opt_uint32_field, opt_vec2_field,
    player_state_bytes, string_field, team_colors_bytes, uint32_field, uint64_field, vec2_bytes,
};
use crate::envelope::PayloadView;
use crate::frame::{envelope_check, utf8_len, ProtocolError};
use crate::messages::{
    checkpoint_default, disc_state_default, dynamic_frame_default, dynamic_state_default,
    envelope_default, game_state_default, player_state_default, team_colors_default,
    vec2_default, CheckpointView, DiscState, DynamicFrameView, DynamicStateView, EnvelopeView,
    GameState, PlayerStateView, TeamColorsView, Vec2, AudioCueKind, Team, GameStatus, is_audio_cue,
};
use crate::equality::{is_nan, same_double};
use crate::decode::game_state_merge;
use crate::laws::lemma_game_state_round_trip;
use crate::wire::{delimited_field, int32_wires, packed_field, uint32_wires};
use crate::{
    MAX_AUDIO_CUES, MAX_DISCS, MAX_PLAYERS, MAX_STADIUM_JSON_BYTES, PROTOCOL_VERSION,
};

verus! {

// ----------------------------------------------------------------------------
// The rules of the protocol
// ----------------------------------------------------------------------------

/// A state within the limits of the protocol.
pub open spec fn bounded_state(s: DynamicStateView) -> bool {
    s.players.len() <= 128 && s.discs.len() <= 4096
}

/// The state that an envelope carries, whichever payload carries it.
pub open spec fn carried_state(e: EnvelopeView) -> Option<DynamicStateView> {
    match e.payload {
        Some(PayloadView::Checkpoint(c)) => c.dynamic,
        Some(PayloadView::Dynamic(f)) => f.state,
        None => None,
    }
}

/// The header of an envelope obeys the rules: version 1, a positive
/// sequence, at most 64 audio cues, each from 0 to 5.
pub open spec fn valid_header(e: EnvelopeView) -> bool {
    &&& e.protocol_version == 1
    &&& e.sequence > 0
    &&& e.audio_cues.len() <= 64
    &&& forall|i: int| 0 <= i < e.audio_cues.len() ==> 0 <= #[trigger] e.audio_cues[i] <= 5
}

/// A checkpoint's stadium and bootstrap are at most 2 MiB each; other
/// payloads have none.
pub open spec fn small_checkpoint(e: EnvelopeView) -> bool {
    match e.payload {
        Some(PayloadView::Checkpoint(c)) => utf8_len(c.stadium_json) <= 2 * 1024 * 1024
            && c.initial_replay.len() <= 2 * 1024 * 1024,
        _ => true,
    }
}

/// An envelope is accepted exactly when its header obeys the rules, it has a
/// payload that carries a state of at most 128 players and 4096 discs, and
/// a checkpoint's stadium and bootstrap are at most 2 MiB each.
pub proof fn law_accepted_envelopes(e: EnvelopeView)
    ensures
        envelope_check(e) is Ok <==> {
            &&& valid_header(e)
            &&& carried_state(e) is Some
            &&& bounded_state(carried_state(e)->0)
            &&& small_checkpoint(e)
        },
{
    assert(PROTOCOL_VERSION == 1 && MAX_PLAYERS == 128 && MAX_DISCS == 4096 && MAX_AUDIO_CUES == 64
        && MAX_STADIUM_JSON_BYTES == 2 * 1024 * 1024);
}

/// Which error a refused envelope gets: the first rule it breaks, in the
/// order version, sequence, number of cues, kinds of cues, payload, the
/// checkpoint's stadium and bootstrap, presence of the state, players,
/// discs.
pub proof fn law_refused_envelopes(e: EnvelopeView)
    ensures
        e.protocol_version != 1 ==> envelope_check(e) == Err::<(), ProtocolError>(
            ProtocolError::UnsupportedVersion(e.protocol_version),
        ),
        e.protocol_version == 1 && e.sequence == 0 ==> envelope_check(e) == Err::<(), ProtocolError>(
            ProtocolError::InvalidSequence,
        ),
        e.protocol_version == 1 && e.sequence > 0 && e.audio_cues.len() > 64 ==> envelope_check(e)
            == Err::<(), ProtocolError>(ProtocolError::TooManyAudioCues),
        e.protocol_version == 1 && e.sequence > 0 && e.audio_cues.len() <= 64 && (exists|i: int|
            0 <= i < e.audio_cues.len() && !(0 <= #[trigger] e.audio_cues[i] <= 5)) ==> envelope_check(e)
            == Err::<(), ProtocolError>(ProtocolError::UnknownAudioCue),
        valid_header(e) && e.payload is None ==> envelope_check(e) == Err::<(), ProtocolError>(
            ProtocolError::MissingPayload,
        ),
        match e.payload {
            Some(PayloadView::Checkpoint(c)) => valid_header(e) ==> {
                &&& utf8_len(c.stadium_json) > 2 * 1024 * 1024 ==> envelope_check(e) == Err::<
                    (),
                    ProtocolError,
                >(ProtocolError::StadiumTooLarge)
                &&& utf8_len(c.stadium_json) <= 2 * 1024 * 1024 && c.initial_replay.len() > 2
                    * 1024 * 1024 ==> envelope_check(e) == Err::<(), ProtocolError>(
                    ProtocolError::BootstrapTooLarge,
                )
                &&& small_checkpoint(e) && c.dynamic is None ==> envelope_check(e) == Err::<
                    (),
                    ProtocolError,
                >(ProtocolError::MissingCheckpointState)
            },
            Some(PayloadView::Dynamic(f)) => valid_header(e) && f.state is None ==> envelope_check(e)
                == Err::<(), ProtocolError>(ProtocolError::MissingDynamicState),
            None => true,
        },
        valid_header(e) && small_checkpoint(e) && carried_state(e) is Some
            && carried_state(e)->0.players.len() > 128 ==> envelope_check(e) == Err::<(), ProtocolError>(
            ProtocolError::TooManyPlayers,
        ),
        valid_header(e) && small_checkpoint(e) && carried_state(e) is Some
            && carried_state(e)->0.players.len() <= 128 && carried_state(e)->0.discs.len() > 4096
            ==> envelope_check(e) == Err::<(), ProtocolError>(ProtocolError::TooManyDiscs),
{
    assert(PROTOCOL_VERSION == 1 && MAX_PLAYERS == 128 && MAX_DISCS == 4096 && MAX_AUDIO_CUES == 64
        && MAX_STADIUM_JSON_BYTES == 2 * 1024 * 1024);
}

/// Whatever payload carries it, an accepted envelope's state is within the
/// limits of the protocol.
pub proof fn law_accepted_states_are_bounded(e: EnvelopeView)
    requires
        envelope_check(e) is Ok,
    ensures
        carried_state(e) is Some,
        carried_state(e)->0.players.len() <= MAX_PLAYERS,
        carried_state(e)->0.discs.len() <= MAX_DISCS,
{
    law_accepted_envelopes(e);
}

// ----------------------------------------------------------------------------
// The tag of each field
// ----------------------------------------------------------------------------

/// A message holding only one field, the others at their defaults, is
/// written as that field alone, under the field's tag in the schema.
pub proof fn law_vec2_tags(x: u64, y: u64)
    ensures
        vec2_bytes(Vec2 { x: x, ..vec2_default() }) == double_field(1, x),
        vec2_bytes(Vec2 { y: y, ..vec2_default() }) == double_field(2, y),
{
    assert(vec2_bytes(Vec2 { x: x, ..vec2_default() }) =~= double_field(1, x));
    assert(vec2_bytes(Vec2 { y: y, ..vec2_default() }) =~= double_field(2, y));
}

/// A message holding only one field, the others at their defaults, is
/// written as that field alone, under the field's tag in the schema.
pub proof fn law_team_colors_tags(angle: i32, text_color: u32, colors: Seq<u32>)
    ensures
        team_colors_bytes(TeamColorsView { angle: angle, ..team_colors_default() }) == int32_field(1, angle),
        team_colors_bytes(TeamColorsView { text_color: text_color, ..team_colors_default() }) == uint32_field(2, text_color),
        team_colors_bytes(TeamColorsView { colors: colors, ..team_colors_default() }) == packed_field(3, uint32_wires(colors)),
{
    assert(team_colors_bytes(TeamColorsView { angle: angle, ..team_colors_default() }) =~= int32_field(1, angle));
    assert(team_colors_bytes(TeamColorsView { text_color: text_color, ..team_colors_default() }) =~= uint32_field(2, text_color));
    assert(team_colors_bytes(TeamColorsView { colors: colors, ..team_colors_default() }) =~= packed_field(3, uint32_wires(colors)));
}

/// A message holding only one field, the others at their defaults, is
/// written as that field alone, under the field's tag in the schema.
pub proof fn law_game_state_tags(status: i32, red_score: u32, blue_score: u32, elapsed_seconds: u64, paused_ticks: u32, kickoff_team: i32, active_ticks: u64, countdown_ticks: i32, phase_code: i32)
    ensures
        game_state_bytes(GameState { status: status, ..game_state_default() }) == int32_field(1, status),
        game_state_bytes(GameState { red_score: red_score, ..game_state_default() }) == uint32_field(2, red_score),
        game_state_bytes(GameState { blue_score: blue_score, ..game_state_default() }) == uint32_field(3, blue_score),
        game_state_bytes(GameState { elapsed_seconds: elapsed_seconds, ..game_state_default() }) == double_field(4, elapsed_seconds),
        game_state_bytes(GameState { paused_ticks: paused_ticks, ..game_state_default() }) == uint32_field(5, paused_ticks),
        game_state_bytes(GameState { kickoff_team: kickoff_team, ..game_state_default() }) == int32_field(6, kickoff_team),
        game_state_bytes(GameState { active_ticks: active_ticks, ..game_state_default() }) == uint64_field(7, active_ticks),
        game_state_bytes(GameState { countdown_ticks: countdown_ticks, ..game_state_default() }) == int32_field(8, countdown_ticks),
        game_state_bytes(GameState { phase_code: phase_code, ..game_state_default() }) == int32_field(9, phase_code),
{
    assert(game_state_bytes(GameState { status: status, ..game_state_default() }) =~= int32_field(1, status));
    assert(game_state_bytes(GameState { red_score: red_score, ..game_state_default() }) =~= uint32_field(2, red_score));
    assert(game_state_bytes(GameState { blue_score: blue_score, ..game_state_default() }) =~= uint32_field(3, blue_score));
    assert(game_state_bytes(GameState { elapsed_seconds: elapsed_seconds, ..game_state_default() }) =~= double_field(4, elapsed_seconds));
    assert(game_state_bytes(GameState { paused_ticks: paused_ticks, ..game_state_default() }) =~= uint32_field(5, paused_ticks));
    assert(game_state_bytes(GameState { kickoff_team: kickoff_team, ..game_state_default() }) =~= int32_field(6, kickoff_team));
    assert(game_state_bytes(GameState { active_ticks: active_ticks, ..game_state_default() }) =~= uint64_field(7, active_ticks));
    assert(game_state_bytes(GameState { countdown_ticks: countdown_ticks, ..game_state_default() }) =~= int32_field(8, countdown_ticks));
    assert(game_state_bytes(GameState { phase_code: phase_code, ..game_state_default() }) =~= int32_field(9, phase_code));
}

/// A message holding only one field, the others at their defaults, is
/// written as that field alone, under the field's tag in the schema.
pub proof fn law_player_state_tags(id: u32, name: Seq<char>, team: i32, admin: bool, player_number: i32, activity: bool, position: Option<Vec2>, disc_index: Option<u32>, avatar: Option<Seq<char>>, input: u32)
    ensures
        player_state_bytes(PlayerStateView { id: id, ..player_state_default() }) == uint32_field(1, id),
        player_state_bytes(PlayerStateView { name: name, ..player_state_default() }) == string_field(2, name),
        player_state_bytes(PlayerStateView { team: team, ..player_state_default() }) == int32_field(3, team),
        player_state_bytes(PlayerStateView { admin: admin, ..player_state_default() }) == bool_field(4, admin),
        player_state_bytes(PlayerStateView { player_number: player_number, ..player_state_default() }) == int32_field(5, player_number),
        player_state_bytes(PlayerStateView { activity: activity, ..player_state_default() }) == bool_field(6, activity),
        player_state_bytes(PlayerStateView { position: position, ..player_state_default() }) == opt_vec2_field(7, position),
        player_state_bytes(PlayerStateView { disc_index: disc_index, ..player_state_default() }) == opt_uint32_field(8, disc_index),
        player_state_bytes(PlayerStateView { avatar: avatar, ..player_state_default() }) == opt_string_field(9, avatar),
        player_state_bytes(PlayerStateView { input: input, ..player_state_default() }) == uint32_field(10, input),
{
    assert(player_state_bytes(PlayerStateView { id: id, ..player_state_default() }) =~= uint32_field(1, id));
    assert(player_state_bytes(PlayerStateView { name: name, ..player_state_default() }) =~= string_field(2, name));
    assert(player_state_bytes(PlayerStateView { team: team, ..player_state_default() }) =~= int32_field(3, team));
    assert(player_state_bytes(PlayerStateView { admin: admin, ..player_state_default() }) =~= bool_field(4, admin));
    assert(player_state_bytes(PlayerStateView { player_number: player_number, ..player_state_default() }) =~= int32_field(5, player_number));
    assert(player_state_bytes(PlayerStateView { activity: activity, ..player_state_default() }) =~= bool_field(6, activity));
    assert(player_state_bytes(PlayerStateView { position: position, ..player_state_default() }) =~= opt_vec2_field(7, position));
    assert(player_state_bytes(PlayerStateView { disc_index: disc_index, ..player_state_default() }) =~= opt_uint32_field(8, disc_index));
    assert(player_state_bytes(PlayerStateView { avatar: avatar, ..player_state_default() }) =~= opt_string_field(9, avatar));
    assert(player_state_bytes(PlayerStateView { input: input, ..player_state_default() }) =~= uint32_field(10, input));
}

/// A message holding only one field, the others at their defaults, is
/// written as that field alone, under the field's tag in the schema.
pub proof fn law_disc_state_tags(index: u32, position: Option<Vec2>, speed: Option<Vec2>, gravity: Option<Vec2>, radius: u64, bounce: u64, inverse_mass: u64, damping: u64, color: i32, collision_mask: i32, collision_group: i32)
    ensures
        disc_state_bytes(DiscState { index: index, ..disc_state_default() }) == uint32_field(1, index),
        disc_state_bytes(DiscState { position: position, ..disc_state_default() }) == opt_vec2_field(2, position),
        disc_state_bytes(DiscState { speed: speed, ..disc_state_default() }) == opt_vec2_field(3, speed),
        disc_state_bytes(DiscState { gravity: gravity, ..disc_state_default() }) == opt_vec2_field(4, gravity),
        disc_state_bytes(DiscState { radius: radius, ..disc_state_default() }) == double_field(5, radius),
        disc_state_bytes(DiscState { bounce: bounce, ..disc_state_default() }) == double_field(6, bounce),
        disc_state_bytes(DiscState { inverse_mass: inverse_mass, ..disc_state_default() }) == double_field(7, inverse_mass),
        disc_state_bytes(DiscState { damping: damping, ..disc_state_default() }) == double_field(8, damping),
        disc_state_bytes(DiscState { color: color, ..disc_state_default() }) == int32_field(9, color),
        disc_state_bytes(DiscState { collision_mask: collision_mask, ..disc_state_default() }) == int32_field(10, collision_mask),
        disc_state_bytes(DiscState { collision_group: collision_group, ..disc_state_default() }) == int32_field(11, collision_group),
{
    assert(disc_state_bytes(DiscState { index: index, ..disc_state_default() }) =~= uint32_field(1, index));
    assert(disc_state_bytes(DiscState { position: position, ..disc_state_default() }) =~= opt_vec2_field(2, position));
    assert(disc_state_bytes(DiscState { speed: speed, ..disc_state_default() }) =~= opt_vec2_field(3, speed));
    assert(disc_state_bytes(DiscState { gravity: gravity, ..disc_state_default() }) =~= opt_vec2_field(4, gravity));
    assert(disc_state_bytes(DiscState { radius: radius, ..disc_state_default() }) =~= double_field(5, radius));
    assert(disc_state_bytes(DiscState { bounce: bounce, ..disc_state_default() }) =~= double_field(6, bounce));
    assert(disc_state_bytes(DiscState { inverse_mass: inverse_mass, ..disc_state_default() }) =~= double_field(7, inverse_mass));
    assert(disc_state_bytes(DiscState { damping: damping, ..disc_state_default() }) =~= double_field(8, damping));
    assert(disc_state_bytes(DiscState { color: color, ..disc_state_default() }) =~= int32_field(9, color));
    assert(disc_state_bytes(DiscState { collision_mask: collision_mask, ..disc_state_default() }) =~= int32_field(10, collision_mask));
    assert(disc_state_bytes(DiscState { collision_group: collision_group, ..disc_state_default() }) =~= int32_field(11, collision_group));
}

/// A message holding only one field, the others at their defaults, is
/// written as that field alone, under the field's tag in the schema.
pub proof fn law_dynamic_state_tags(game: Option<GameState>, players: PlayerStateView, discs: DiscState)
    ensures
        dynamic_state_bytes(DynamicStateView { game: game, ..dynamic_state_default() }) == opt_game_field(1, game),
        dynamic_state_bytes(DynamicStateView { players: seq![players], ..dynamic_state_default() }) == delimited_field(2, player_state_bytes(players)),
        dynamic_state_bytes(DynamicStateView { discs: seq![discs], ..dynamic_state_default() }) == delimited_field(3, disc_state_bytes(discs)),
{
    let s1 = DynamicStateView { game, ..dynamic_state_default() };
    assert(dynamic_state_bytes(s1) =~= opt_game_field(1, game));
    let ps = seq![players];
    assert(ps.drop_last() =~= Seq::<PlayerStateView>::empty());
    assert(players_bytes(ps) =~= delimited_field(2, player_state_bytes(players)));
    let s2 = DynamicStateView { players: ps, ..dynamic_state_default() };
    assert(dynamic_state_bytes(s2) =~= delimited_field(2, player_state_bytes(players)));
    let ds = seq![discs];
    assert(ds.drop_last() =~= Seq::<DiscState>::empty());
    assert(discs_bytes(ds) =~= delimited_field(3, disc_state_bytes(discs)));
    let s3 = DynamicStateView { discs: ds, ..dynamic_state_default() };
    assert(dynamic_state_bytes(s3) =~= delimited_field(3, disc_state_bytes(discs)));
}

/// A message holding only one field, the others at their defaults, is
/// written as that field alone, under the field's tag in the schema.
pub proof fn law_checkpoint_tags(room_name: Seq<char>, max_players: u32, stadium_json: Seq<char>, score_limit: u32, time_limit_seconds: u32, teams_locked: bool, red_team_colors: Option<TeamColorsView>, blue_team_colors: Option<TeamColorsView>, dynamic: Option<DynamicStateView>, initial_replay: Seq<u8>)
    ensures
        checkpoint_bytes(CheckpointView { room_name: room_name, ..checkpoint_default() }) == string_field(1, room_name),
        checkpoint_bytes(CheckpointView { max_players: max_players, ..checkpoint_default() }) == uint32_field(2, max_players),
        checkpoint_bytes(CheckpointView { stadium_json: stadium_json, ..checkpoint_default() }) == string_field(3, stadium_json),
        checkpoint_bytes(CheckpointView { score_limit: score_limit, ..checkpoint_default() }) == uint32_field(4, score_limit),
        checkpoint_bytes(CheckpointView { time_limit_seconds: time_limit_seconds, ..checkpoint_default() }) == uint32_field(5, time_limit_seconds),
        checkpoint_bytes(CheckpointView { teams_locked: teams_locked, ..checkpoint_default() }) == bool_field(6, teams_locked),
        checkpoint_bytes(CheckpointView { red_team_colors: red_team_colors, ..checkpoint_default() }) == opt_team_colors_field(7, red_team_colors),
        checkpoint_bytes(CheckpointView { blue_team_colors: blue_team_colors, ..checkpoint_default() }) == opt_team_colors_field(8, blue_team_colors),
        checkpoint_bytes(CheckpointView { dynamic: dynamic, ..checkpoint_default() }) == opt_state_field(9, dynamic),
        checkpoint_bytes(CheckpointView { initial_replay: initial_replay, ..checkpoint_default() }) == bytes_field(10, initial_replay),
{
    assert(checkpoint_bytes(CheckpointView { room_name: room_name, ..checkpoint_default() }) =~= string_field(1, room_name));
    assert(checkpoint_bytes(CheckpointView { max_players: max_players, ..checkpoint_default() }) =~= uint32_field(2, max_players));
    assert(checkpoint_bytes(CheckpointView { stadium_json: stadium_json, ..checkpoint_default() }) =~= string_field(3, stadium_json));
    assert(checkpoint_bytes(CheckpointView { score_limit: score_limit, ..checkpoint_default() }) =~= uint32_field(4, score_limit));
    assert(checkpoint_bytes(CheckpointView { time_limit_seconds: time_limit_seconds, ..checkpoint_default() }) =~= uint32_field(5, time_limit_seconds));
    assert(checkpoint_bytes(CheckpointView { teams_locked: teams_locked, ..checkpoint_default() }) =~= bool_field(6, teams_locked));
    assert(checkpoint_bytes(CheckpointView { red_team_colors: red_team_colors, ..checkpoint_default() }) =~= opt_team_colors_field(7, red_team_colors));
    assert(checkpoint_bytes(CheckpointView { blue_team_colors: blue_team_colors, ..checkpoint_default() }) =~= opt_team_colors_field(8, blue_team_colors));
    assert(checkpoint_bytes(CheckpointView { dynamic: dynamic, ..checkpoint_default() }) =~= opt_state_field(9, dynamic));
    assert(checkpoint_bytes(CheckpointView { initial_replay: initial_replay, ..checkpoint_default() }) =~= bytes_field(10, initial_replay));
}

/// A message holding only one field, the others at their defaults, is
/// written as that field alone, under the field's tag in the schema.
pub proof fn law_dynamic_frame_tags(checkpoint_sequence: u64, state: Option<DynamicStateView>)
    ensures
        dynamic_frame_bytes(DynamicFrameView { checkpoint_sequence: checkpoint_sequence, ..dynamic_frame_default() }) == uint64_field(1, checkpoint_sequence),
        dynamic_frame_bytes(DynamicFrameView { state: state, ..dynamic_frame_default() }) == opt_state_field(2, state),
{
    assert(dynamic_frame_bytes(DynamicFrameView { checkpoint_sequence: checkpoint_sequence, ..dynamic_frame_default() }) =~= uint64_field(1, checkpoint_sequence));
    assert(dynamic_frame_bytes(DynamicFrameView { state: state, ..dynamic_frame_default() }) =~= opt_state_field(2, state));
}

/// A message holding only one field, the others at their defaults, is
/// written as that field alone, under the field's tag in the schema.
pub proof fn law_envelope_tags(protocol_version: u32, epoch: u64, sequence: u64, source_tick: u64, source_time_micros: u64, audio_cues: Seq<i32>, checkpoint: CheckpointView, dynamic: DynamicFrameView)
    ensures
        envelope_bytes(EnvelopeView { protocol_version: protocol_version, ..envelope_default() }) == uint32_field(1, protocol_version),
        envelope_bytes(EnvelopeView { epoch: epoch, ..envelope_default() }) == uint64_field(2, epoch),
        envelope_bytes(EnvelopeView { sequence: sequence, ..envelope_default() }) == uint64_field(3, sequence),
        envelope_bytes(EnvelopeView { source_tick: source_tick, ..envelope_default() }) == uint64_field(4, source_tick),
        envelope_bytes(EnvelopeView { source_time_micros: source_time_micros, ..envelope_default() }) == uint64_field(5, source_time_micros),
        envelope_bytes(EnvelopeView { audio_cues: audio_cues, ..envelope_default() }) == packed_field(6, int32_wires(audio_cues)),
        envelope_bytes(EnvelopeView { payload: Some(PayloadView::Checkpoint(checkpoint)), ..envelope_default() }) == delimited_field(10, checkpoint_bytes(checkpoint)),
        envelope_bytes(EnvelopeView { payload: Some(PayloadView::Dynamic(dynamic)), ..envelope_default() }) == delimited_field(11, dynamic_frame_bytes(dynamic)),
{
    assert(envelope_bytes(EnvelopeView { protocol_version: protocol_version, ..envelope_default() }) =~= uint32_field(1, protocol_version));
    assert(envelope_bytes(EnvelopeView { epoch: epoch, ..envelope_default() }) =~= uint64_field(2, epoch));
    assert(envelope_bytes(EnvelopeView { sequence: sequence, ..envelope_default() }) =~= uint64_field(3, sequence));
    assert(envelope_bytes(EnvelopeView { source_tick: source_tick, ..envelope_default() }) =~= uint64_field(4, source_tick));
    assert(envelope_bytes(EnvelopeView { source_time_micros: source_time_micros, ..envelope_default() }) =~= uint64_field(5, source_time_micros));
    assert(envelope_bytes(EnvelopeView { audio_cues: audio_cues, ..envelope_default() }) =~= packed_field(6, int32_wires(audio_cues)));
    assert(envelope_bytes(EnvelopeView { payload: Some(PayloadView::Checkpoint(checkpoint)), ..envelope_default() }) =~= delimited_field(10, checkpoint_bytes(checkpoint)));
    assert(envelope_bytes(EnvelopeView { payload: Some(PayloadView::Dynamic(dynamic)), ..envelope_default() }) =~= delimited_field(11, dynamic_frame_bytes(dynamic)));
}

/// Reading the field written under a tag of a game state sets the field of
/// that tag in the schema, and only it.
pub proof fn law_game_state_reads_tags(status: i32, red_score: u32, blue_score: u32, elapsed_seconds: u64, paused_ticks: u32, kickoff_team: i32, active_ticks: u64, countdown_ticks: i32, phase_code: i32)
    requires
        elapsed_seconds != 0x8000_0000_0000_0000,
    ensures
        game_state_merge(game_state_default(), int32_field(1, status), 0) == Some(GameState { status, ..game_state_default() }),
        game_state_merge(game_state_default(), uint32_field(2, red_score), 0) == Some(GameState { red_score, ..game_state_default() }),
        game_state_merge(game_state_default(), uint32_field(3, blue_score), 0) == Some(GameState { blue_score, ..game_state_default() }),
        game_state_merge(game_state_default(), double_field(4, elapsed_seconds), 0) == Some(GameState { elapsed_seconds, ..game_state_default() }),
        game_state_merge(game_state_default(), uint32_field(5, paused_ticks), 0) == Some(GameState { paused_ticks, ..game_state_default() }),
        game_state_merge(game_state_default(), int32_field(6, kickoff_team), 0) == Some(GameState { kickoff_team, ..game_state_default() }),
        game_state_merge(game_state_default(), uint64_field(7, active_ticks), 0) == Some(GameState { active_ticks, ..game_state_default() }),
        game_state_merge(game_state_default(), int32_field(8, countdown_ticks), 0) == Some(GameState { countdown_ticks, ..game_state_default() }),
        game_state_merge(game_state_default(), int32_field(9, phase_code), 0) == Some(GameState { phase_code, ..game_state_default() }),
{
    law_game_state_tags(status, red_score, blue_score, elapsed_seconds, paused_ticks, kickoff_team, active_ticks, countdown_ticks, phase_code);
    let g = GameState { status, ..game_state_default() };
    lemma_game_state_round_trip(g, Seq::empty());
    assert(game_state_bytes(g) + Seq::<u8>::empty() =~= int32_field(1, status));
    let g = GameState { red_score, ..game_state_default() };
    lemma_game_state_round_trip(g, Seq::empty());
    assert(game_state_bytes(g) + Seq::<u8>::empty() =~= uint32_field(2, red_score));
    let g = GameState { blue_score, ..game_state_default() };
    lemma_game_state_round_trip(g, Seq::empty());
    assert(game_state_bytes(g) + Seq::<u8>::empty() =~= uint32_field(3, blue_score));
    let g = GameState { elapsed_seconds, ..game_state_default() };
    lemma_game_state_round_trip(g, Seq::empty());
    assert(game_state_bytes(g) + Seq::<u8>::empty() =~= double_field(4, elapsed_seconds));
    let g = GameState { paused_ticks, ..game_state_default() };
    lemma_game_state_round_trip(g, Seq::empty());
    assert(game_state_bytes(g) + Seq::<u8>::empty() =~= uint32_field(5, paused_ticks));
    let g = GameState { kickoff_team, ..game_state_default() };
    lemma_game_state_round_trip(g, Seq::empty());
    assert(game_state_bytes(g) + Seq::<u8>::empty() =~= int32_field(6, kickoff_team));
    let g = GameState { active_ticks, ..game_state_default() };
    lemma_game_state_round_trip(g, Seq::empty());
    assert(game_state_bytes(g) + Seq::<u8>::empty() =~= uint64_field(7, active_ticks));
    let g = GameState { countdown_ticks, ..game_state_default() };
    lemma_game_state_round_trip(g, Seq::empty());
    assert(game_state_bytes(g) + Seq::<u8>::empty() =~= int32_field(8, countdown_ticks));
    let g = GameState { phase_code, ..game_state_default() };
    lemma_game_state_round_trip(g, Seq::empty());
    assert(game_state_bytes(g) + Seq::<u8>::empty() =~= int32_field(9, phase_code));
}

// ----------------------------------------------------------------------------
// Wire numbers of the enumerations
// ----------------------------------------------------------------------------

/// Each audio cue has the wire number of the schema, and the numbers 0 to 5
/// are exactly those of the cues.
pub proof fn law_audio_cue_numbers(value: i32)
    ensures
        AudioCueKind::PlayerJoin.wire_number() == 0,
        AudioCueKind::PlayerLeave.wire_number() == 1,
        AudioCueKind::BallKick.wire_number() == 2,
        AudioCueKind::Goal.wire_number() == 3,
        AudioCueKind::Chat.wire_number() == 4,
        AudioCueKind::Notification.wire_number() == 5,
        is_audio_cue(value) <==> 0 <= value <= 5,
{
}

/// Each team has the wire number of the schema.
pub proof fn law_team_numbers()
    ensures
        Team::Spectators.wire_number() == 0,
        Team::Red.wire_number() == 1,
        Team::Blue.wire_number() == 2,
{
}

/// Each game status has the wire number of the schema.
pub proof fn law_game_status_numbers()
    ensures
        GameStatus::Stopped.wire_number() == 0,
        GameStatus::Running.wire_number() == 1,
        GameStatus::Paused.wire_number() == 2,
        GameStatus::Resuming.wire_number() == 3,
{
}

/// Distinct values of an enumeration have distinct wire numbers.
pub proof fn law_wire_numbers_are_distinct(a: AudioCueKind, b: AudioCueKind, c: Team, d: Team, g: GameStatus, h: GameStatus)
    ensures
        a != b ==> a.wire_number() != b.wire_number(),
        c != d ==> c.wire_number() != d.wire_number(),
        g != h ==> g.wire_number() != h.wire_number(),
{
}

// ----------------------------------------------------------------------------
// Equality
// ----------------------------------------------------------------------------

/// Two doubles are equal as `f64`s when neither is a NaN (all exponent bits
/// set, fraction nonzero) and their bits agree or both are zeros of either
/// sign.
pub proof fn law_double_equality(a: u64, b: u64)
    ensures
        same_double(a, b) <==> {
            &&& !((a & 0x7ff0_0000_0000_0000) == 0x7ff0_0000_0000_0000 && (a & 0x000f_ffff_ffff_ffff) != 0)
            &&& !((b & 0x7ff0_0000_0000_0000) == 0x7ff0_0000_0000_0000 && (b & 0x000f_ffff_ffff_ffff) != 0)
            &&& (a == b || (a & 0x7fff_ffff_ffff_ffff) == 0 && (b & 0x7fff_ffff_ffff_ffff) == 0)
        },
        same_double(0, 0x8000_0000_0000_0000),
        !same_double(0x7ff8_0000_0000_0000, 0x7ff8_0000_0000_0000),
{
    assert(0u64 & 0x7fff_ffff_ffff_ffff == 0) by (bit_vector);
    assert(0x8000_0000_0000_0000u64 & 0x7fff_ffff_ffff_ffff == 0) by (bit_vector);
    assert(0x8000_0000_0000_0000u64 & 0x7ff0_0000_0000_0000 != 0x7ff0_0000_0000_0000) by (bit_vector);
    assert(0u64 & 0x7ff0_0000_0000_0000 != 0x7ff0_0000_0000_0000) by (bit_vector);
    assert(0x7ff8_0000_0000_0000u64 & 0x7ff0_0000_0000_0000 == 0x7ff0_0000_0000_0000) by (bit_vector);
    assert(0x7ff8_0000_0000_0000u64 & 0x000f_ffff_ffff_ffff != 0) by (bit_vector);
}

/// Two vectors are `==` exactly when both coordinates are equal as `f64`s.
pub proof fn law_vec2_equality(a: Vec2, b: Vec2)
    ensures
        a.eq_spec(&b) <==> same_double(a.x, b.x) && same_double(a.y, b.y),
{
}

/// Two game states are `==` exactly when every integer field is equal and
/// the elapsed seconds are equal as `f64`s.
pub proof fn law_game_state_equality(a: GameState, b: GameState)
    ensures
        a.eq_spec(&b) <==> {
            &&& a.status == b.status
            &&& a.red_score == b.red_score
            &&& a.blue_score == b.blue_score
            &&& same_double(a.elapsed_seconds, b.elapsed_seconds)
            &&& a.paused_ticks == b.paused_ticks
            &&& a.kickoff_team == b.kickoff_team
            &&& a.active_ticks == b.active_ticks
            &&& a.countdown_ticks == b.countdown_ticks
            &&& a.phase_code == b.phase_code
        },
{
}

/// Both absent, or both present and `==`.
pub open spec fn equal_opt_vec2(a: Option<Vec2>, b: Option<Vec2>) -> bool {
    (a is None && b is None) || (a is Some && b is Some && a->0.eq_spec(&b->0))
}

/// Two discs are `==` exactly when every integer field is equal, each
/// optional vector is absent in both or `==`, and each double is equal as
/// an `f64`.
pub proof fn law_disc_state_equality(a: DiscState, b: DiscState)
    ensures
        a.eq_spec(&b) <==> {
            &&& a.index == b.index
            &&& equal_opt_vec2(a.position, b.position)
            &&& equal_opt_vec2(a.speed, b.speed)
            &&& equal_opt_vec2(a.gravity, b.gravity)
            &&& same_double(a.radius, b.radius)
            &&& same_double(a.bounce, b.bounce)
            &&& same_double(a.inverse_mass, b.inverse_mass)
            &&& same_double(a.damping, b.damping)
            &&& a.color == b.color
            &&& a.collision_mask == b.collision_mask
            &&& a.collision_group == b.collision_group
        },
{
}

/// `==` on each of these messages is reflexive wherever no double is a NaN.
pub proof fn law_equality_is_reflexive(v: Vec2, g: GameState)
    requires
        !is_nan(v.x) && !is_nan(v.y),
        !is_nan(g.elapsed_seconds),
    ensures
        v.eq_spec(&v),
        g.eq_spec(&g),
{
}

} // verus!
