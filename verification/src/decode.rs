//! Reading messages, as `prost` reads them: fields in any order, the last
//! of a repeated scalar wins, a repeated embedded message is merged into the
//! one already read, repeated fields grow, and unknown fields are passed over.
//!
//! Each message is read by a loop over its fields that stops when exactly
//! `limit` bytes of the input remain; a field may not run past that point.
//! A whole frame is read with `limit` 0.

use vstd::prelude::*;

use crate::envelope::{Payload, PayloadView};
use crate::messages::{
    checkpoint_default, disc_state_default, dynamic_frame_default, dynamic_state_default,
    envelope_default, game_state_default, player_state_default, team_colors_default,
    vec2_default, Checkpoint, CheckpointView, DiscState, DynamicFrame, DynamicFrameView,
    DynamicState, DynamicStateView, Envelope, EnvelopeView, GameState, PlayerState,
    PlayerStateView, TeamColors, TeamColorsView, Vec2,
};
use crate::failure::{failure, in_field, within, DecodeFailure, DecodeFailureView};
use crate::varint::read_varint;
use crate::wire::{
    check_wire_type, consumed, delimited_error, fixed64_error, group_outcome, key_error,
    read_delimited, read_fixed64, read_key, read_repeated_varint, read_string, read_varint_field,
    repeated_varint_error, skip_field, skip_outcome, string_error, take_bool, take_bytes,
    take_fixed64, take_int32, take_key, take_repeated_int32, take_repeated_uint32, take_string,
    take_uint32, take_uint64, take_varint, varint_error, varint_field_error, wire_type_error,
    END_GROUP, LENGTH_DELIMITED, START_GROUP,
};

verus! {

broadcast use crate::failure::lemma_error_display;

// ----------------------------------------------------------------------------
// Fields of each message: the message after one field, and the bytes read
// ----------------------------------------------------------------------------

/// An unknown field, passed over with `count` more levels of nesting
/// allowed: the message unchanged.
pub open spec fn skipped<M>(m: M, wire_type: u8, tag: u32, s: Seq<u8>, count: nat) -> Option<(M, nat)> {
    match skip_outcome(wire_type, tag, s, count) {
        Ok(k) => Some((m, k)),
        Err(_) => None,
    }
}

#[verifier::opaque]
pub open spec fn vec2_field(m: Vec2, tag: u32, wire_type: u8, s: Seq<u8>) -> Option<(Vec2, nat)> {
    if tag == 1 {
        match read_fixed64(wire_type, s) {
            Some((v, k)) => Some((Vec2 { x: v, ..m }, k)),
            None => None,
        }
    } else if tag == 2 {
        match read_fixed64(wire_type, s) {
            Some((v, k)) => Some((Vec2 { y: v, ..m }, k)),
            None => None,
        }
    } else {
        skipped(m, wire_type, tag, s, 96)
    }
}

#[verifier::opaque]
pub open spec fn team_colors_field(m: TeamColorsView, tag: u32, wire_type: u8, s: Seq<u8>) -> Option<
    (TeamColorsView, nat),
> {
    if tag == 1 {
        match read_varint_field(wire_type, s) {
            Some((v, k)) => Some((TeamColorsView { angle: v as i32, ..m }, k)),
            None => None,
        }
    } else if tag == 2 {
        match read_varint_field(wire_type, s) {
            Some((v, k)) => Some((TeamColorsView { text_color: v as u32, ..m }, k)),
            None => None,
        }
    } else if tag == 3 {
        match read_repeated_varint(wire_type, s) {
            Some((vs, k)) => Some(
                (TeamColorsView { colors: m.colors + vs.map_values(|w: u64| w as u32), ..m }, k),
            ),
            None => None,
        }
    } else {
        skipped(m, wire_type, tag, s, 98)
    }
}

#[verifier::opaque]
pub open spec fn game_state_field(m: GameState, tag: u32, wire_type: u8, s: Seq<u8>) -> Option<(GameState, nat)> {
    if tag == 4 {
        match read_fixed64(wire_type, s) {
            Some((v, k)) => Some((GameState { elapsed_seconds: v, ..m }, k)),
            None => None,
        }
    } else if 1 <= tag <= 9 {
        match read_varint_field(wire_type, s) {
            Some((v, k)) => Some(
                (
                    if tag == 1 {
                        GameState { status: v as i32, ..m }
                    } else if tag == 2 {
                        GameState { red_score: v as u32, ..m }
                    } else if tag == 3 {
                        GameState { blue_score: v as u32, ..m }
                    } else if tag == 5 {
                        GameState { paused_ticks: v as u32, ..m }
                    } else if tag == 6 {
                        GameState { kickoff_team: v as i32, ..m }
                    } else if tag == 7 {
                        GameState { active_ticks: v, ..m }
                    } else if tag == 8 {
                        GameState { countdown_ticks: v as i32, ..m }
                    } else {
                        GameState { phase_code: v as i32, ..m }
                    },
                    k,
                ),
            ),
            None => None,
        }
    } else {
        skipped(m, wire_type, tag, s, 97)
    }
}

#[verifier::opaque]
pub open spec fn player_state_field(m: PlayerStateView, tag: u32, wire_type: u8, s: Seq<u8>) -> Option<
    (PlayerStateView, nat),
> {
    if tag == 2 {
        match read_string(wire_type, s) {
            Some((v, k)) => Some((PlayerStateView { name: v, ..m }, k)),
            None => None,
        }
    } else if tag == 7 {
        let start = match m.position {
            Some(p) => p,
            None => vec2_default(),
        };
        match vec2_message(start, wire_type, s) {
            Some((v, k)) => Some((PlayerStateView { position: Some(v), ..m }, k)),
            None => None,
        }
    } else if tag == 9 {
        match read_string(wire_type, s) {
            Some((v, k)) => Some((PlayerStateView { avatar: Some(v), ..m }, k)),
            None => None,
        }
    } else if 1 <= tag <= 10 {
        match read_varint_field(wire_type, s) {
            Some((v, k)) => Some(
                (
                    if tag == 1 {
                        PlayerStateView { id: v as u32, ..m }
                    } else if tag == 3 {
                        PlayerStateView { team: v as i32, ..m }
                    } else if tag == 4 {
                        PlayerStateView { admin: v != 0, ..m }
                    } else if tag == 5 {
                        PlayerStateView { player_number: v as i32, ..m }
                    } else if tag == 6 {
                        PlayerStateView { activity: v != 0, ..m }
                    } else if tag == 8 {
                        PlayerStateView { disc_index: Some(v as u32), ..m }
                    } else {
                        PlayerStateView { input: v as u32, ..m }
                    },
                    k,
                ),
            ),
            None => None,
        }
    } else {
        skipped(m, wire_type, tag, s, 97)
    }
}

/// The embedded vector of a disc with the given tag (2, 3 or 4).
pub open spec fn disc_vec2(m: DiscState, tag: u32) -> Option<Vec2> {
    if tag == 2 {
        m.position
    } else if tag == 3 {
        m.speed
    } else {
        m.gravity
    }
}

#[verifier::opaque]
pub open spec fn disc_state_field(m: DiscState, tag: u32, wire_type: u8, s: Seq<u8>) -> Option<(DiscState, nat)> {
    if 2 <= tag <= 4 {
        let start = match disc_vec2(m, tag) {
            Some(p) => p,
            None => vec2_default(),
        };
        match vec2_message(start, wire_type, s) {
            Some((v, k)) => Some(
                (
                    if tag == 2 {
                        DiscState { position: Some(v), ..m }
                    } else if tag == 3 {
                        DiscState { speed: Some(v), ..m }
                    } else {
                        DiscState { gravity: Some(v), ..m }
                    },
                    k,
                ),
            ),
            None => None,
        }
    } else if 5 <= tag <= 8 {
        match read_fixed64(wire_type, s) {
            Some((v, k)) => Some(
                (
                    if tag == 5 {
                        DiscState { radius: v, ..m }
                    } else if tag == 6 {
                        DiscState { bounce: v, ..m }
                    } else if tag == 7 {
                        DiscState { inverse_mass: v, ..m }
                    } else {
                        DiscState { damping: v, ..m }
                    },
                    k,
                ),
            ),
            None => None,
        }
    } else if tag == 1 || 9 <= tag <= 11 {
        match read_varint_field(wire_type, s) {
            Some((v, k)) => Some(
                (
                    if tag == 1 {
                        DiscState { index: v as u32, ..m }
                    } else if tag == 9 {
                        DiscState { color: v as i32, ..m }
                    } else if tag == 10 {
                        DiscState { collision_mask: v as i32, ..m }
                    } else {
                        DiscState { collision_group: v as i32, ..m }
                    },
                    k,
                ),
            ),
            None => None,
        }
    } else {
        skipped(m, wire_type, tag, s, 97)
    }
}

#[verifier::opaque]
pub open spec fn dynamic_state_field(m: DynamicStateView, tag: u32, wire_type: u8, s: Seq<u8>) -> Option<
    (DynamicStateView, nat),
> {
    if tag == 1 {
        let start = match m.game {
            Some(g) => g,
            None => game_state_default(),
        };
        match game_state_message(start, wire_type, s) {
            Some((v, k)) => Some((DynamicStateView { game: Some(v), ..m }, k)),
            None => None,
        }
    } else if tag == 2 {
        match player_state_message(player_state_default(), wire_type, s) {
            Some((v, k)) => Some((DynamicStateView { players: m.players.push(v), ..m }, k)),
            None => None,
        }
    } else if tag == 3 {
        match disc_state_message(disc_state_default(), wire_type, s) {
            Some((v, k)) => Some((DynamicStateView { discs: m.discs.push(v), ..m }, k)),
            None => None,
        }
    } else {
        skipped(m, wire_type, tag, s, 98)
    }
}

#[verifier::opaque]
pub open spec fn checkpoint_field(m: CheckpointView, tag: u32, wire_type: u8, s: Seq<u8>) -> Option<
    (CheckpointView, nat),
> {
    if tag == 1 || tag == 3 {
        match read_string(wire_type, s) {
            Some((v, k)) => Some(
                (
                    if tag == 1 {
                        CheckpointView { room_name: v, ..m }
                    } else {
                        CheckpointView { stadium_json: v, ..m }
                    },
                    k,
                ),
            ),
            None => None,
        }
    } else if tag == 2 || tag == 4 || tag == 5 || tag == 6 {
        match read_varint_field(wire_type, s) {
            Some((v, k)) => Some(
                (
                    if tag == 2 {
                        CheckpointView { max_players: v as u32, ..m }
                    } else if tag == 4 {
                        CheckpointView { score_limit: v as u32, ..m }
                    } else if tag == 5 {
                        CheckpointView { time_limit_seconds: v as u32, ..m }
                    } else {
                        CheckpointView { teams_locked: v != 0, ..m }
                    },
                    k,
                ),
            ),
            None => None,
        }
    } else if tag == 7 || tag == 8 {
        let current = if tag == 7 {
            m.red_team_colors
        } else {
            m.blue_team_colors
        };
        let start = match current {
            Some(c) => c,
            None => team_colors_default(),
        };
        match team_colors_message(start, wire_type, s) {
            Some((v, k)) => Some(
                (
                    if tag == 7 {
                        CheckpointView { red_team_colors: Some(v), ..m }
                    } else {
                        CheckpointView { blue_team_colors: Some(v), ..m }
                    },
                    k,
                ),
            ),
            None => None,
        }
    } else if tag == 9 {
        let start = match m.dynamic {
            Some(d) => d,
            None => dynamic_state_default(),
        };
        match dynamic_state_message(start, wire_type, s) {
            Some((v, k)) => Some((CheckpointView { dynamic: Some(v), ..m }, k)),
            None => None,
        }
    } else if tag == 10 {
        match read_delimited(wire_type, s) {
            Some((v, k)) => Some((CheckpointView { initial_replay: v, ..m }, k)),
            None => None,
        }
    } else {
        skipped(m, wire_type, tag, s, 99)
    }
}

#[verifier::opaque]
pub open spec fn dynamic_frame_field(m: DynamicFrameView, tag: u32, wire_type: u8, s: Seq<u8>) -> Option<
    (DynamicFrameView, nat),
> {
    if tag == 1 {
        match read_varint_field(wire_type, s) {
            Some((v, k)) => Some((DynamicFrameView { checkpoint_sequence: v, ..m }, k)),
            None => None,
        }
    } else if tag == 2 {
        let start = match m.state {
            Some(d) => d,
            None => dynamic_state_default(),
        };
        match dynamic_state_message(start, wire_type, s) {
            Some((v, k)) => Some((DynamicFrameView { state: Some(v), ..m }, k)),
            None => None,
        }
    } else {
        skipped(m, wire_type, tag, s, 99)
    }
}

#[verifier::opaque]
pub open spec fn envelope_field(m: EnvelopeView, tag: u32, wire_type: u8, s: Seq<u8>) -> Option<
    (EnvelopeView, nat),
> {
    if 1 <= tag <= 5 {
        match read_varint_field(wire_type, s) {
            Some((v, k)) => Some(
                (
                    if tag == 1 {
                        EnvelopeView { protocol_version: v as u32, ..m }
                    } else if tag == 2 {
                        EnvelopeView { epoch: v, ..m }
                    } else if tag == 3 {
                        EnvelopeView { sequence: v, ..m }
                    } else if tag == 4 {
                        EnvelopeView { source_tick: v, ..m }
                    } else {
                        EnvelopeView { source_time_micros: v, ..m }
                    },
                    k,
                ),
            ),
            None => None,
        }
    } else if tag == 6 {
        match read_repeated_varint(wire_type, s) {
            Some((vs, k)) => Some(
                (
                    EnvelopeView {
                        audio_cues: m.audio_cues + vs.map_values(|w: u64| w as i32),
                        ..m
                    },
                    k,
                ),
            ),
            None => None,
        }
    } else if tag == 10 {
        let start = match m.payload {
            Some(PayloadView::Checkpoint(c)) => c,
            _ => checkpoint_default(),
        };
        match checkpoint_message(start, wire_type, s) {
            Some((v, k)) => Some((EnvelopeView { payload: Some(PayloadView::Checkpoint(v)), ..m }, k)),
            None => None,
        }
    } else if tag == 11 {
        let start = match m.payload {
            Some(PayloadView::Dynamic(d)) => d,
            _ => dynamic_frame_default(),
        };
        match dynamic_frame_message(start, wire_type, s) {
            Some((v, k)) => Some((EnvelopeView { payload: Some(PayloadView::Dynamic(v)), ..m }, k)),
            None => None,
        }
    } else {
        skipped(m, wire_type, tag, s, 100)
    }
}

// ----------------------------------------------------------------------------
// Messages: fields until exactly `limit` bytes remain
// ----------------------------------------------------------------------------

/// A message read field by field, each field given by `field`, from `m`
/// until exactly `limit` bytes of `s` remain.
pub open spec fn merge_fields<M>(
    field: spec_fn(M, u32, u8, Seq<u8>) -> Option<(M, nat)>,
    m: M,
    s: Seq<u8>,
    limit: nat,
) -> Option<M>
    decreases s.len(),
{
    if s.len() <= limit {
        if s.len() == limit {
            Some(m)
        } else {
            None
        }
    } else {
        match read_key(s) {
            None => None,
            Some((tag, wire_type, n)) => if 1 <= n <= s.len() {
                match field(m, tag, wire_type, s.skip(n as int)) {
                    Some((m2, k)) => if k <= s.len() - n {
                        merge_fields(field, m2, s.skip((n + k) as int), limit)
                    } else {
                        None
                    },
                    None => None,
                }
            } else {
                None
            },
        }
    }
}

/// An embedded message: a length-delimited field whose body is read into
/// `start` by `field`.
pub open spec fn read_message<M>(
    field: spec_fn(M, u32, u8, Seq<u8>) -> Option<(M, nat)>,
    start: M,
    wire_type: u8,
    s: Seq<u8>,
) -> Option<(M, nat)> {
    if wire_type != LENGTH_DELIMITED {
        None
    } else {
        match read_varint(s) {
            None => None,
            Some((len, n)) => if n <= s.len() && len <= s.len() - n {
                match merge_fields(field, start, s.skip(n as int), (s.len() - n - len) as nat) {
                    Some(v) => Some((v, n + len as nat)),
                    None => None,
                }
            } else {
                None
            },
        }
    }
}

pub open spec fn vec2_fields() -> spec_fn(Vec2, u32, u8, Seq<u8>) -> Option<(Vec2, nat)> {
    |m: Vec2, tag: u32, wire_type: u8, s: Seq<u8>| vec2_field(m, tag, wire_type, s)
}

pub open spec fn vec2_merge(m: Vec2, s: Seq<u8>, limit: nat) -> Option<Vec2> {
    merge_fields(vec2_fields(), m, s, limit)
}

pub open spec fn vec2_message(start: Vec2, wire_type: u8, s: Seq<u8>) -> Option<(Vec2, nat)> {
    read_message(vec2_fields(), start, wire_type, s)
}

pub open spec fn team_colors_fields() -> spec_fn(TeamColorsView, u32, u8, Seq<u8>) -> Option<(TeamColorsView, nat)> {
    |m: TeamColorsView, tag: u32, wire_type: u8, s: Seq<u8>| team_colors_field(m, tag, wire_type, s)
}

pub open spec fn team_colors_merge(m: TeamColorsView, s: Seq<u8>, limit: nat) -> Option<TeamColorsView> {
    merge_fields(team_colors_fields(), m, s, limit)
}

pub open spec fn team_colors_message(start: TeamColorsView, wire_type: u8, s: Seq<u8>) -> Option<(TeamColorsView, nat)> {
    read_message(team_colors_fields(), start, wire_type, s)
}

pub open spec fn game_state_fields() -> spec_fn(GameState, u32, u8, Seq<u8>) -> Option<(GameState, nat)> {
    |m: GameState, tag: u32, wire_type: u8, s: Seq<u8>| game_state_field(m, tag, wire_type, s)
}

pub open spec fn game_state_merge(m: GameState, s: Seq<u8>, limit: nat) -> Option<GameState> {
    merge_fields(game_state_fields(), m, s, limit)
}

pub open spec fn game_state_message(start: GameState, wire_type: u8, s: Seq<u8>) -> Option<(GameState, nat)> {
    read_message(game_state_fields(), start, wire_type, s)
}

pub open spec fn player_state_fields() -> spec_fn(PlayerStateView, u32, u8, Seq<u8>) -> Option<(PlayerStateView, nat)> {
    |m: PlayerStateView, tag: u32, wire_type: u8, s: Seq<u8>| player_state_field(m, tag, wire_type, s)
}

pub open spec fn player_state_merge(m: PlayerStateView, s: Seq<u8>, limit: nat) -> Option<PlayerStateView> {
    merge_fields(player_state_fields(), m, s, limit)
}

pub open spec fn player_state_message(start: PlayerStateView, wire_type: u8, s: Seq<u8>) -> Option<(PlayerStateView, nat)> {
    read_message(player_state_fields(), start, wire_type, s)
}

pub open spec fn disc_state_fields() -> spec_fn(DiscState, u32, u8, Seq<u8>) -> Option<(DiscState, nat)> {
    |m: DiscState, tag: u32, wire_type: u8, s: Seq<u8>| disc_state_field(m, tag, wire_type, s)
}

pub open spec fn disc_state_merge(m: DiscState, s: Seq<u8>, limit: nat) -> Option<DiscState> {
    merge_fields(disc_state_fields(), m, s, limit)
}

pub open spec fn disc_state_message(start: DiscState, wire_type: u8, s: Seq<u8>) -> Option<(DiscState, nat)> {
    read_message(disc_state_fields(), start, wire_type, s)
}

pub open spec fn dynamic_state_fields() -> spec_fn(DynamicStateView, u32, u8, Seq<u8>) -> Option<(DynamicStateView, nat)> {
    |m: DynamicStateView, tag: u32, wire_type: u8, s: Seq<u8>| dynamic_state_field(m, tag, wire_type, s)
}

pub open spec fn dynamic_state_merge(m: DynamicStateView, s: Seq<u8>, limit: nat) -> Option<DynamicStateView> {
    merge_fields(dynamic_state_fields(), m, s, limit)
}

pub open spec fn dynamic_state_message(start: DynamicStateView, wire_type: u8, s: Seq<u8>) -> Option<(DynamicStateView, nat)> {
    read_message(dynamic_state_fields(), start, wire_type, s)
}

pub open spec fn checkpoint_fields() -> spec_fn(CheckpointView, u32, u8, Seq<u8>) -> Option<(CheckpointView, nat)> {
    |m: CheckpointView, tag: u32, wire_type: u8, s: Seq<u8>| checkpoint_field(m, tag, wire_type, s)
}

pub open spec fn checkpoint_merge(m: CheckpointView, s: Seq<u8>, limit: nat) -> Option<CheckpointView> {
    merge_fields(checkpoint_fields(), m, s, limit)
}

pub open spec fn checkpoint_message(start: CheckpointView, wire_type: u8, s: Seq<u8>) -> Option<(CheckpointView, nat)> {
    read_message(checkpoint_fields(), start, wire_type, s)
}

pub open spec fn dynamic_frame_fields() -> spec_fn(DynamicFrameView, u32, u8, Seq<u8>) -> Option<(DynamicFrameView, nat)> {
    |m: DynamicFrameView, tag: u32, wire_type: u8, s: Seq<u8>| dynamic_frame_field(m, tag, wire_type, s)
}

pub open spec fn dynamic_frame_merge(m: DynamicFrameView, s: Seq<u8>, limit: nat) -> Option<DynamicFrameView> {
    merge_fields(dynamic_frame_fields(), m, s, limit)
}

pub open spec fn dynamic_frame_message(start: DynamicFrameView, wire_type: u8, s: Seq<u8>) -> Option<(DynamicFrameView, nat)> {
    read_message(dynamic_frame_fields(), start, wire_type, s)
}

pub open spec fn envelope_fields() -> spec_fn(EnvelopeView, u32, u8, Seq<u8>) -> Option<(EnvelopeView, nat)> {
    |m: EnvelopeView, tag: u32, wire_type: u8, s: Seq<u8>| envelope_field(m, tag, wire_type, s)
}

pub open spec fn envelope_merge(m: EnvelopeView, s: Seq<u8>, limit: nat) -> Option<EnvelopeView> {
    merge_fields(envelope_fields(), m, s, limit)
}

// ----------------------------------------------------------------------------
// Why a message cannot be read
// ----------------------------------------------------------------------------

/// Why an unknown field cannot be passed over.
pub open spec fn skip_failure(wire_type: u8, tag: u32, s: Seq<u8>, count: nat) -> DecodeFailureView {
    match skip_outcome(wire_type, tag, s, count) {
        Err(d) => failure(d),
        Ok(_) => failure(seq![]),
    }
}

/// Why a message cannot be read field by field, each field given by
/// `field` and its failure by `fail`, from `m` until exactly `limit` bytes
/// of `s` remain: the first field that fails, or the last field running
/// past `limit`.
pub open spec fn merge_failure<M>(
    field: spec_fn(M, u32, u8, Seq<u8>) -> Option<(M, nat)>,
    fail: spec_fn(M, u32, u8, Seq<u8>) -> DecodeFailureView,
    m: M,
    s: Seq<u8>,
    limit: nat,
) -> DecodeFailureView
    decreases s.len(),
{
    if s.len() <= limit {
        failure("delimited length exceeded"@)
    } else {
        match read_key(s) {
            None => failure(key_error(s)),
            Some((tag, wire_type, n)) => if 1 <= n <= s.len() {
                match field(m, tag, wire_type, s.skip(n as int)) {
                    Some((m2, k)) => if k <= s.len() - n {
                        merge_failure(field, fail, m2, s.skip((n + k) as int), limit)
                    } else {
                        failure(seq![])
                    },
                    None => fail(m, tag, wire_type, s.skip(n as int)),
                }
            } else {
                failure(seq![])
            },
        }
    }
}

/// Why an embedded message cannot be read.
pub open spec fn message_failure<M>(
    field: spec_fn(M, u32, u8, Seq<u8>) -> Option<(M, nat)>,
    fail: spec_fn(M, u32, u8, Seq<u8>) -> DecodeFailureView,
    start: M,
    wire_type: u8,
    s: Seq<u8>,
) -> DecodeFailureView {
    if wire_type != LENGTH_DELIMITED {
        failure(wire_type_error(LENGTH_DELIMITED, wire_type))
    } else {
        match read_varint(s) {
            None => failure(varint_error()),
            Some((len, n)) => if n <= s.len() && len <= s.len() - n {
                merge_failure(field, fail, start, s.skip(n as int), (s.len() - n - len) as nat)
            } else {
                failure("buffer underflow"@)
            },
        }
    }
}

#[verifier::opaque]
pub open spec fn vec2_field_failure(m: Vec2, tag: u32, wire_type: u8, s: Seq<u8>) -> DecodeFailureView {
    if tag == 1 {
        within(failure(fixed64_error(wire_type)), "Vec2"@, "x"@)
    } else if tag == 2 {
        within(failure(fixed64_error(wire_type)), "Vec2"@, "y"@)
    } else {
        skip_failure(wire_type, tag, s, 96)
    }
}

pub open spec fn vec2_failures() -> spec_fn(Vec2, u32, u8, Seq<u8>) -> DecodeFailureView {
    |m: Vec2, tag: u32, wire_type: u8, s: Seq<u8>| vec2_field_failure(m, tag, wire_type, s)
}

pub open spec fn vec2_merge_failure(m: Vec2, s: Seq<u8>, limit: nat) -> DecodeFailureView {
    merge_failure(vec2_fields(), vec2_failures(), m, s, limit)
}

pub open spec fn vec2_message_failure(start: Vec2, wire_type: u8, s: Seq<u8>) -> DecodeFailureView {
    message_failure(vec2_fields(), vec2_failures(), start, wire_type, s)
}

#[verifier::opaque]
pub open spec fn team_colors_field_failure(m: TeamColorsView, tag: u32, wire_type: u8, s: Seq<u8>) -> DecodeFailureView {
    if tag == 1 {
        within(failure(varint_field_error(wire_type)), "TeamColors"@, "angle"@)
    } else if tag == 2 {
        within(failure(varint_field_error(wire_type)), "TeamColors"@, "text_color"@)
    } else if tag == 3 {
        within(failure(repeated_varint_error(wire_type, s)), "TeamColors"@, "colors"@)
    } else {
        skip_failure(wire_type, tag, s, 98)
    }
}

pub open spec fn team_colors_failures() -> spec_fn(TeamColorsView, u32, u8, Seq<u8>) -> DecodeFailureView {
    |m: TeamColorsView, tag: u32, wire_type: u8, s: Seq<u8>| team_colors_field_failure(m, tag, wire_type, s)
}

pub open spec fn team_colors_merge_failure(m: TeamColorsView, s: Seq<u8>, limit: nat) -> DecodeFailureView {
    merge_failure(team_colors_fields(), team_colors_failures(), m, s, limit)
}

pub open spec fn team_colors_message_failure(start: TeamColorsView, wire_type: u8, s: Seq<u8>) -> DecodeFailureView {
    message_failure(team_colors_fields(), team_colors_failures(), start, wire_type, s)
}

/// Names of the fields of a game state, by tag.
pub open spec fn game_state_field_name(tag: u32) -> Seq<char> {
    if tag == 1 {
        "status"@
    } else if tag == 2 {
        "red_score"@
    } else if tag == 3 {
        "blue_score"@
    } else if tag == 4 {
        "elapsed_seconds"@
    } else if tag == 5 {
        "paused_ticks"@
    } else if tag == 6 {
        "kickoff_team"@
    } else if tag == 7 {
        "active_ticks"@
    } else if tag == 8 {
        "countdown_ticks"@
    } else {
        "phase_code"@
    }
}

#[verifier::opaque]
pub open spec fn game_state_field_failure(m: GameState, tag: u32, wire_type: u8, s: Seq<u8>) -> DecodeFailureView {
    if tag == 4 {
        within(failure(fixed64_error(wire_type)), "GameState"@, game_state_field_name(tag))
    } else if 1 <= tag <= 9 {
        within(failure(varint_field_error(wire_type)), "GameState"@, game_state_field_name(tag))
    } else {
        skip_failure(wire_type, tag, s, 97)
    }
}

pub open spec fn game_state_failures() -> spec_fn(GameState, u32, u8, Seq<u8>) -> DecodeFailureView {
    |m: GameState, tag: u32, wire_type: u8, s: Seq<u8>| game_state_field_failure(m, tag, wire_type, s)
}

pub open spec fn game_state_merge_failure(m: GameState, s: Seq<u8>, limit: nat) -> DecodeFailureView {
    merge_failure(game_state_fields(), game_state_failures(), m, s, limit)
}

pub open spec fn game_state_message_failure(start: GameState, wire_type: u8, s: Seq<u8>) -> DecodeFailureView {
    message_failure(game_state_fields(), game_state_failures(), start, wire_type, s)
}

/// Names of the fields of a player, by tag.
pub open spec fn player_state_field_name(tag: u32) -> Seq<char> {
    if tag == 1 {
        "id"@
    } else if tag == 2 {
        "name"@
    } else if tag == 3 {
        "team"@
    } else if tag == 4 {
        "admin"@
    } else if tag == 5 {
        "player_number"@
    } else if tag == 6 {
        "activity"@
    } else if tag == 7 {
        "position"@
    } else if tag == 8 {
        "disc_index"@
    } else if tag == 9 {
        "avatar"@
    } else {
        "input"@
    }
}

#[verifier::opaque]
pub open spec fn player_state_field_failure(m: PlayerStateView, tag: u32, wire_type: u8, s: Seq<u8>) -> DecodeFailureView {
    if tag == 2 || tag == 9 {
        within(failure(string_error(wire_type, s)), "PlayerState"@, player_state_field_name(tag))
    } else if tag == 7 {
        let start = match m.position {
            Some(p) => p,
            None => vec2_default(),
        };
        within(vec2_message_failure(start, wire_type, s), "PlayerState"@, "position"@)
    } else if 1 <= tag <= 10 {
        within(failure(varint_field_error(wire_type)), "PlayerState"@, player_state_field_name(tag))
    } else {
        skip_failure(wire_type, tag, s, 97)
    }
}

pub open spec fn player_state_failures() -> spec_fn(PlayerStateView, u32, u8, Seq<u8>) -> DecodeFailureView {
    |m: PlayerStateView, tag: u32, wire_type: u8, s: Seq<u8>| player_state_field_failure(m, tag, wire_type, s)
}

pub open spec fn player_state_merge_failure(m: PlayerStateView, s: Seq<u8>, limit: nat) -> DecodeFailureView {
    merge_failure(player_state_fields(), player_state_failures(), m, s, limit)
}

pub open spec fn player_state_message_failure(start: PlayerStateView, wire_type: u8, s: Seq<u8>) -> DecodeFailureView {
    message_failure(player_state_fields(), player_state_failures(), start, wire_type, s)
}

/// Names of the fields of a disc, by tag.
pub open spec fn disc_state_field_name(tag: u32) -> Seq<char> {
    if tag == 1 {
        "index"@
    } else if tag == 2 {
        "position"@
    } else if tag == 3 {
        "speed"@
    } else if tag == 4 {
        "gravity"@
    } else if tag == 5 {
        "radius"@
    } else if tag == 6 {
        "bounce"@
    } else if tag == 7 {
        "inverse_mass"@
    } else if tag == 8 {
        "damping"@
    } else if tag == 9 {
        "color"@
    } else if tag == 10 {
        "collision_mask"@
    } else {
        "collision_group"@
    }
}

#[verifier::opaque]
pub open spec fn disc_state_field_failure(m: DiscState, tag: u32, wire_type: u8, s: Seq<u8>) -> DecodeFailureView {
    if 2 <= tag <= 4 {
        let start = match disc_vec2(m, tag) {
            Some(p) => p,
            None => vec2_default(),
        };
        within(vec2_message_failure(start, wire_type, s), "DiscState"@, disc_state_field_name(tag))
    } else if 5 <= tag <= 8 {
        within(failure(fixed64_error(wire_type)), "DiscState"@, disc_state_field_name(tag))
    } else if tag == 1 || 9 <= tag <= 11 {
        within(failure(varint_field_error(wire_type)), "DiscState"@, disc_state_field_name(tag))
    } else {
        skip_failure(wire_type, tag, s, 97)
    }
}

pub open spec fn disc_state_failures() -> spec_fn(DiscState, u32, u8, Seq<u8>) -> DecodeFailureView {
    |m: DiscState, tag: u32, wire_type: u8, s: Seq<u8>| disc_state_field_failure(m, tag, wire_type, s)
}

pub open spec fn disc_state_merge_failure(m: DiscState, s: Seq<u8>, limit: nat) -> DecodeFailureView {
    merge_failure(disc_state_fields(), disc_state_failures(), m, s, limit)
}

pub open spec fn disc_state_message_failure(start: DiscState, wire_type: u8, s: Seq<u8>) -> DecodeFailureView {
    message_failure(disc_state_fields(), disc_state_failures(), start, wire_type, s)
}

#[verifier::opaque]
pub open spec fn dynamic_state_field_failure(m: DynamicStateView, tag: u32, wire_type: u8, s: Seq<u8>) -> DecodeFailureView {
    if tag == 1 {
        let start = match m.game {
            Some(g) => g,
            None => game_state_default(),
        };
        within(game_state_message_failure(start, wire_type, s), "DynamicState"@, "game"@)
    } else if tag == 2 {
        within(
            player_state_message_failure(player_state_default(), wire_type, s),
            "DynamicState"@,
            "players"@,
        )
    } else if tag == 3 {
        within(disc_state_message_failure(disc_state_default(), wire_type, s), "DynamicState"@, "discs"@)
    } else {
        skip_failure(wire_type, tag, s, 98)
    }
}

pub open spec fn dynamic_state_failures() -> spec_fn(DynamicStateView, u32, u8, Seq<u8>) -> DecodeFailureView {
    |m: DynamicStateView, tag: u32, wire_type: u8, s: Seq<u8>| dynamic_state_field_failure(m, tag, wire_type, s)
}

pub open spec fn dynamic_state_merge_failure(m: DynamicStateView, s: Seq<u8>, limit: nat) -> DecodeFailureView {
    merge_failure(dynamic_state_fields(), dynamic_state_failures(), m, s, limit)
}

pub open spec fn dynamic_state_message_failure(start: DynamicStateView, wire_type: u8, s: Seq<u8>) -> DecodeFailureView {
    message_failure(dynamic_state_fields(), dynamic_state_failures(), start, wire_type, s)
}

/// Names of the fields of a checkpoint, by tag.
pub open spec fn checkpoint_field_name(tag: u32) -> Seq<char> {
    if tag == 1 {
        "room_name"@
    } else if tag == 2 {
        "max_players"@
    } else if tag == 3 {
        "stadium_json"@
    } else if tag == 4 {
        "score_limit"@
    } else if tag == 5 {
        "time_limit_seconds"@
    } else if tag == 6 {
        "teams_locked"@
    } else if tag == 7 {
        "red_team_colors"@
    } else if tag == 8 {
        "blue_team_colors"@
    } else if tag == 9 {
        "dynamic"@
    } else {
        "initial_replay"@
    }
}

#[verifier::opaque]
pub open spec fn checkpoint_field_failure(m: CheckpointView, tag: u32, wire_type: u8, s: Seq<u8>) -> DecodeFailureView {
    if tag == 1 || tag == 3 {
        within(failure(string_error(wire_type, s)), "Checkpoint"@, checkpoint_field_name(tag))
    } else if tag == 2 || tag == 4 || tag == 5 || tag == 6 {
        within(failure(varint_field_error(wire_type)), "Checkpoint"@, checkpoint_field_name(tag))
    } else if tag == 7 || tag == 8 {
        let current = if tag == 7 {
            m.red_team_colors
        } else {
            m.blue_team_colors
        };
        let start = match current {
            Some(c) => c,
            None => team_colors_default(),
        };
        within(team_colors_message_failure(start, wire_type, s), "Checkpoint"@, checkpoint_field_name(tag))
    } else if tag == 9 {
        let start = match m.dynamic {
            Some(d) => d,
            None => dynamic_state_default(),
        };
        within(dynamic_state_message_failure(start, wire_type, s), "Checkpoint"@, "dynamic"@)
    } else if tag == 10 {
        within(failure(delimited_error(wire_type, s)), "Checkpoint"@, "initial_replay"@)
    } else {
        skip_failure(wire_type, tag, s, 99)
    }
}

pub open spec fn checkpoint_failures() -> spec_fn(CheckpointView, u32, u8, Seq<u8>) -> DecodeFailureView {
    |m: CheckpointView, tag: u32, wire_type: u8, s: Seq<u8>| checkpoint_field_failure(m, tag, wire_type, s)
}

pub open spec fn checkpoint_merge_failure(m: CheckpointView, s: Seq<u8>, limit: nat) -> DecodeFailureView {
    merge_failure(checkpoint_fields(), checkpoint_failures(), m, s, limit)
}

pub open spec fn checkpoint_message_failure(start: CheckpointView, wire_type: u8, s: Seq<u8>) -> DecodeFailureView {
    message_failure(checkpoint_fields(), checkpoint_failures(), start, wire_type, s)
}

#[verifier::opaque]
pub open spec fn dynamic_frame_field_failure(m: DynamicFrameView, tag: u32, wire_type: u8, s: Seq<u8>) -> DecodeFailureView {
    if tag == 1 {
        within(failure(varint_field_error(wire_type)), "DynamicFrame"@, "checkpoint_sequence"@)
    } else if tag == 2 {
        let start = match m.state {
            Some(d) => d,
            None => dynamic_state_default(),
        };
        within(dynamic_state_message_failure(start, wire_type, s), "DynamicFrame"@, "state"@)
    } else {
        skip_failure(wire_type, tag, s, 99)
    }
}

pub open spec fn dynamic_frame_failures() -> spec_fn(DynamicFrameView, u32, u8, Seq<u8>) -> DecodeFailureView {
    |m: DynamicFrameView, tag: u32, wire_type: u8, s: Seq<u8>| dynamic_frame_field_failure(m, tag, wire_type, s)
}

pub open spec fn dynamic_frame_merge_failure(m: DynamicFrameView, s: Seq<u8>, limit: nat) -> DecodeFailureView {
    merge_failure(dynamic_frame_fields(), dynamic_frame_failures(), m, s, limit)
}

pub open spec fn dynamic_frame_message_failure(start: DynamicFrameView, wire_type: u8, s: Seq<u8>) -> DecodeFailureView {
    message_failure(dynamic_frame_fields(), dynamic_frame_failures(), start, wire_type, s)
}

/// Names of the fields of an envelope, by tag.
pub open spec fn envelope_field_name(tag: u32) -> Seq<char> {
    if tag == 1 {
        "protocol_version"@
    } else if tag == 2 {
        "epoch"@
    } else if tag == 3 {
        "sequence"@
    } else if tag == 4 {
        "source_tick"@
    } else if tag == 5 {
        "source_time_micros"@
    } else if tag == 6 {
        "audio_cues"@
    } else {
        "payload"@
    }
}

#[verifier::opaque]
pub open spec fn envelope_field_failure(m: EnvelopeView, tag: u32, wire_type: u8, s: Seq<u8>) -> DecodeFailureView {
    if 1 <= tag <= 5 {
        within(failure(varint_field_error(wire_type)), "Envelope"@, envelope_field_name(tag))
    } else if tag == 6 {
        within(failure(repeated_varint_error(wire_type, s)), "Envelope"@, "audio_cues"@)
    } else if tag == 10 {
        let start = match m.payload {
            Some(PayloadView::Checkpoint(c)) => c,
            _ => checkpoint_default(),
        };
        within(checkpoint_message_failure(start, wire_type, s), "Envelope"@, "payload"@)
    } else if tag == 11 {
        let start = match m.payload {
            Some(PayloadView::Dynamic(d)) => d,
            _ => dynamic_frame_default(),
        };
        within(dynamic_frame_message_failure(start, wire_type, s), "Envelope"@, "payload"@)
    } else {
        skip_failure(wire_type, tag, s, 100)
    }
}

pub open spec fn envelope_failures() -> spec_fn(EnvelopeView, u32, u8, Seq<u8>) -> DecodeFailureView {
    |m: EnvelopeView, tag: u32, wire_type: u8, s: Seq<u8>| envelope_field_failure(m, tag, wire_type, s)
}

pub open spec fn envelope_merge_failure(m: EnvelopeView, s: Seq<u8>, limit: nat) -> DecodeFailureView {
    merge_failure(envelope_fields(), envelope_failures(), m, s, limit)
}

// ----------------------------------------------------------------------------
// Readers
// ----------------------------------------------------------------------------

proof fn lemma_read_key(s: Seq<u8>)
    ensures
        read_key(s) matches Some((tag, wire_type, n)) ==> 1 <= n <= s.len() && wire_type <= 5,
{
    crate::varint::lemma_read_varint(s);
}

proof fn lemma_skip_skip(s: Seq<u8>, a: int, b: int)
    requires
        0 <= a,
        0 <= b,
        a + b <= s.len(),
    ensures
        s.skip(a).skip(b) == s.skip(a + b),
{
    assert(s.skip(a).skip(b) =~= s.skip(a + b));
}

/// `r` with `d` more bytes counted, if it is a count.
pub open spec fn counted(r: Result<nat, Seq<char>>, d: nat) -> Result<nat, Seq<char>> {
    match r {
        Ok(k) => Ok(k + d),
        Err(e) => Err(e),
    }
}

/// Passes over an unknown field at `bytes[pos..]` with `count` more levels
/// of nesting allowed, as `prost::encoding::skip_field` does with a decoding
/// context of that count: gives how many bytes remain.
fn skip_unknown(wire_type: u8, tag: u32, bytes: &[u8], pos: usize, count: u32) -> (res: Result<usize, DecodeFailure>)
    requires
        wire_type <= 5,
        pos <= bytes.len(),
    ensures
        res matches Ok(rest) ==> rest <= bytes.len() - pos && skip_outcome(
            wire_type,
            tag,
            bytes@.skip(pos as int),
            count as nat,
        ) == Ok::<nat, Seq<char>>(consumed(bytes@, pos, rest)),
        res matches Err(f) ==> (skip_outcome(wire_type, tag, bytes@.skip(pos as int), count as nat) matches Err(d)
            && f@ == failure(d)),
    decreases bytes.len() - pos, 1nat,
{
    if count == 0 {
        return Err(DecodeFailure::new("recursion limit reached"));
    }
    if wire_type != START_GROUP {
        return match skip_field(wire_type, tag, bytes, pos) {
            Ok(rest) => Ok(rest),
            Err(text) => Err(DecodeFailure::from_text(text)),
        };
    }
    skip_group(tag, bytes, pos, count)
}

/// Passes over the rest of a group with the given tag at `bytes[pos..]`,
/// its fields with one level of nesting less allowed, up to and including
/// its end-group key.
fn skip_group(tag: u32, bytes: &[u8], pos: usize, count: u32) -> (res: Result<usize, DecodeFailure>)
    requires
        pos <= bytes.len(),
        count > 0,
    ensures
        res matches Ok(rest) ==> rest <= bytes.len() - pos && group_outcome(
            tag,
            bytes@.skip(pos as int),
            count as nat,
        ) == Ok::<nat, Seq<char>>(consumed(bytes@, pos, rest)),
        res matches Err(f) ==> (group_outcome(tag, bytes@.skip(pos as int), count as nat) matches Err(d)
            && f@ == failure(d)),
    decreases bytes.len() - pos, 0nat,
{
    let mut at = pos;
    loop
        invariant
            pos <= at <= bytes.len(),
            count > 0,
            group_outcome(tag, bytes@.skip(pos as int), count as nat) == counted(
                group_outcome(tag, bytes@.skip(at as int), count as nat),
                (at - pos) as nat,
            ),
        decreases bytes.len() - at,
    {
        let ghost s = bytes@.skip(at as int);
        let (inner_tag, inner_wire_type, rest) = match take_key(bytes, at) {
            Ok(key) => key,
            Err(text) => return Err(DecodeFailure::from_text(text)),
        };
        proof {
            lemma_read_key(s);
        }
        let p = bytes.len() - rest;
        proof {
            lemma_skip_skip(bytes@, at as int, p - at);
        }
        if inner_wire_type == END_GROUP {
            if inner_tag != tag {
                return Err(DecodeFailure::new("unexpected end group tag"));
            }
            return Ok(rest);
        }
        let rest2 = skip_unknown(inner_wire_type, inner_tag, bytes, p, count - 1)?;
        proof {
            lemma_skip_skip(bytes@, at as int, bytes.len() - rest2 - at);
        }
        at = bytes.len() - rest2;
    }
}

fn vec2_step(m: Vec2, tag: u32, wire_type: u8, bytes: &[u8], pos: usize) -> (res: Result<(Vec2, usize), DecodeFailure>)
    requires
        wire_type <= 5,
        pos <= bytes.len(),
    ensures
        res matches Ok((v, rest)) ==> rest <= bytes.len() - pos && vec2_field(
            m,
            tag,
            wire_type,
            bytes@.skip(pos as int),
        ) == Some((v, consumed(bytes@, pos, rest))),
        res is Err ==> vec2_field(m, tag, wire_type, bytes@.skip(pos as int)) is None,
        res matches Err(f) ==> f@ == vec2_field_failure(m, tag, wire_type, bytes@.skip(pos as int)),
{
    proof {
        reveal(vec2_field);
        reveal(vec2_field_failure);
    }
    let mut m = m;
    if tag == 1 {
        match take_fixed64(wire_type, bytes, pos) {
            Ok((v, rest)) => {
                m.x = v;
                Ok((m, rest))
            },
            Err(e) => Err(in_field(e, "Vec2", "x")),
        }
    } else if tag == 2 {
        match take_fixed64(wire_type, bytes, pos) {
            Ok((v, rest)) => {
                m.y = v;
                Ok((m, rest))
            },
            Err(e) => Err(in_field(e, "Vec2", "y")),
        }
    } else {
        let rest = skip_unknown(wire_type, tag, bytes, pos, 96)?;
        Ok((m, rest))
    }
}

fn merge_vec2(m: Vec2, bytes: &[u8], pos: usize, limit: usize) -> (res: Result<Vec2, DecodeFailure>)
    requires
        pos <= bytes.len(),
    ensures
        res matches Ok(v) ==> vec2_merge(m, bytes@.skip(pos as int), limit as nat) == Some(v),
        res is Err ==> vec2_merge(m, bytes@.skip(pos as int), limit as nat) is None,
        res matches Err(f) ==> f@ == vec2_merge_failure(m, bytes@.skip(pos as int), limit as nat),
{
    let mut cur = m;
    let mut at = pos;
    while bytes.len() - at > limit
        invariant
            at <= bytes.len(),
            vec2_merge(m, bytes@.skip(pos as int), limit as nat) == vec2_merge(
                cur,
                bytes@.skip(at as int),
                limit as nat,
            ),
            vec2_merge_failure(m, bytes@.skip(pos as int), limit as nat) == vec2_merge_failure(
                cur,
                bytes@.skip(at as int),
                limit as nat,
            ),
        decreases bytes.len() - at,
    {
        let ghost s = bytes@.skip(at as int);
        let (tag, wire_type, rest) = match take_key(bytes, at) {
            Ok(key) => key,
            Err(text) => return Err(DecodeFailure::from_text(text)),
        };
        proof {
            lemma_read_key(s);
        }
        let p = bytes.len() - rest;
        proof {
            lemma_skip_skip(bytes@, at as int, p - at);
        }
        let (next, rest2) = vec2_step(cur, tag, wire_type, bytes, p)?;
        proof {
            lemma_skip_skip(bytes@, at as int, bytes.len() - rest2 - at);
        }
        cur = next;
        at = bytes.len() - rest2;
    }
    if bytes.len() - at != limit {
        return Err(DecodeFailure::new("delimited length exceeded"));
    }
    Ok(cur)
}

fn take_vec2(start: Vec2, wire_type: u8, bytes: &[u8], pos: usize) -> (res: Result<(Vec2, usize), DecodeFailure>)
    requires
        wire_type <= 5,
        pos <= bytes.len(),
    ensures
        res matches Ok((v, rest)) ==> rest <= bytes.len() - pos && vec2_message(
            start,
            wire_type,
            bytes@.skip(pos as int),
        ) == Some((v, consumed(bytes@, pos, rest))),
        res is Err ==> vec2_message(start, wire_type, bytes@.skip(pos as int)) is None,
        res matches Err(f) ==> f@ == vec2_message_failure(start, wire_type, bytes@.skip(pos as int)),
{
    match check_wire_type(LENGTH_DELIMITED, wire_type) {
        Ok(()) => {},
        Err(text) => return Err(DecodeFailure::from_text(text)),
    }
    let (len, rest) = match take_varint(bytes, pos) {
        Ok(read) => read,
        Err(text) => return Err(DecodeFailure::from_text(text)),
    };
    if len > rest as u64 {
        return Err(DecodeFailure::new("buffer underflow"));
    }
    let limit = rest - len as usize;
    let body = bytes.len() - rest;
    proof {
        lemma_skip_skip(bytes@, pos as int, body - pos);
    }
    let v = merge_vec2(start, bytes, body, limit)?;
    Ok((v, limit))
}

fn merge_team_colors(m: TeamColors, bytes: &[u8], pos: usize, limit: usize) -> (res: Result<TeamColors, DecodeFailure>)
    requires
        pos <= bytes.len(),
    ensures
        res matches Ok(v) ==> team_colors_merge(m@, bytes@.skip(pos as int), limit as nat) == Some(v@),
        res is Err ==> team_colors_merge(m@, bytes@.skip(pos as int), limit as nat) is None,
        res matches Err(f) ==> f@ == team_colors_merge_failure(m@, bytes@.skip(pos as int), limit as nat),
{
    let mut cur = m;
    let mut at = pos;
    while bytes.len() - at > limit
        invariant
            at <= bytes.len(),
            team_colors_merge(m@, bytes@.skip(pos as int), limit as nat) == team_colors_merge(
                cur@,
                bytes@.skip(at as int),
                limit as nat,
            ),
            team_colors_merge_failure(m@, bytes@.skip(pos as int), limit as nat) == team_colors_merge_failure(
                cur@,
                bytes@.skip(at as int),
                limit as nat,
            ),
        decreases bytes.len() - at,
    {
        let ghost s = bytes@.skip(at as int);
        let (tag, wire_type, rest) = match take_key(bytes, at) {
            Ok(key) => key,
            Err(text) => return Err(DecodeFailure::from_text(text)),
        };
        proof {
            lemma_read_key(s);
        }
        let p = bytes.len() - rest;
        proof {
            lemma_skip_skip(bytes@, at as int, p - at);
        }
        let (next, rest2) = team_colors_step(cur, tag, wire_type, bytes, p)?;
        proof {
            lemma_skip_skip(bytes@, at as int, bytes.len() - rest2 - at);
        }
        cur = next;
        at = bytes.len() - rest2;
    }
    if bytes.len() - at != limit {
        return Err(DecodeFailure::new("delimited length exceeded"));
    }
    Ok(cur)
}

fn take_team_colors(start: TeamColors, wire_type: u8, bytes: &[u8], pos: usize) -> (res: Result<(TeamColors, usize), DecodeFailure>)
    requires
        wire_type <= 5,
        pos <= bytes.len(),
    ensures
        res matches Ok((v, rest)) ==> rest <= bytes.len() - pos && team_colors_message(
            start@,
            wire_type,
            bytes@.skip(pos as int),
        ) == Some((v@, consumed(bytes@, pos, rest))),
        res is Err ==> team_colors_message(start@, wire_type, bytes@.skip(pos as int)) is None,
        res matches Err(f) ==> f@ == team_colors_message_failure(start@, wire_type, bytes@.skip(pos as int)),
{
    match check_wire_type(LENGTH_DELIMITED, wire_type) {
        Ok(()) => {},
        Err(text) => return Err(DecodeFailure::from_text(text)),
    }
    let (len, rest) = match take_varint(bytes, pos) {
        Ok(read) => read,
        Err(text) => return Err(DecodeFailure::from_text(text)),
    };
    if len > rest as u64 {
        return Err(DecodeFailure::new("buffer underflow"));
    }
    let limit = rest - len as usize;
    let body = bytes.len() - rest;
    proof {
        lemma_skip_skip(bytes@, pos as int, body - pos);
    }
    let v = merge_team_colors(start, bytes, body, limit)?;
    Ok((v, limit))
}

fn merge_game_state(m: GameState, bytes: &[u8], pos: usize, limit: usize) -> (res: Result<GameState, DecodeFailure>)
    requires
        pos <= bytes.len(),
    ensures
        res matches Ok(v) ==> game_state_merge(m, bytes@.skip(pos as int), limit as nat) == Some(v),
        res is Err ==> game_state_merge(m, bytes@.skip(pos as int), limit as nat) is None,
        res matches Err(f) ==> f@ == game_state_merge_failure(m, bytes@.skip(pos as int), limit as nat),
{
    let mut cur = m;
    let mut at = pos;
    while bytes.len() - at > limit
        invariant
            at <= bytes.len(),
            game_state_merge(m, bytes@.skip(pos as int), limit as nat) == game_state_merge(
                cur,
                bytes@.skip(at as int),
                limit as nat,
            ),
            game_state_merge_failure(m, bytes@.skip(pos as int), limit as nat) == game_state_merge_failure(
                cur,
                bytes@.skip(at as int),
                limit as nat,
            ),
        decreases bytes.len() - at,
    {
        let ghost s = bytes@.skip(at as int);
        let (tag, wire_type, rest) = match take_key(bytes, at) {
            Ok(key) => key,
            Err(text) => return Err(DecodeFailure::from_text(text)),
        };
        proof {
            lemma_read_key(s);
        }
        let p = bytes.len() - rest;
        proof {
            lemma_skip_skip(bytes@, at as int, p - at);
        }
        let (next, rest2) = game_state_step(cur, tag, wire_type, bytes, p)?;
        proof {
            lemma_skip_skip(bytes@, at as int, bytes.len() - rest2 - at);
        }
        cur = next;
        at = bytes.len() - rest2;
    }
    if bytes.len() - at != limit {
        return Err(DecodeFailure::new("delimited length exceeded"));
    }
    Ok(cur)
}

fn take_game_state(start: GameState, wire_type: u8, bytes: &[u8], pos: usize) -> (res: Result<(GameState, usize), DecodeFailure>)
    requires
        wire_type <= 5,
        pos <= bytes.len(),
    ensures
        res matches Ok((v, rest)) ==> rest <= bytes.len() - pos && game_state_message(
            start,
            wire_type,
            bytes@.skip(pos as int),
        ) == Some((v, consumed(bytes@, pos, rest))),
        res is Err ==> game_state_message(start, wire_type, bytes@.skip(pos as int)) is None,
        res matches Err(f) ==> f@ == game_state_message_failure(start, wire_type, bytes@.skip(pos as int)),
{
    match check_wire_type(LENGTH_DELIMITED, wire_type) {
        Ok(()) => {},
        Err(text) => return Err(DecodeFailure::from_text(text)),
    }
    let (len, rest) = match take_varint(bytes, pos) {
        Ok(read) => read,
        Err(text) => return Err(DecodeFailure::from_text(text)),
    };
    if len > rest as u64 {
        return Err(DecodeFailure::new("buffer underflow"));
    }
    let limit = rest - len as usize;
    let body = bytes.len() - rest;
    proof {
        lemma_skip_skip(bytes@, pos as int, body - pos);
    }
    let v = merge_game_state(start, bytes, body, limit)?;
    Ok((v, limit))
}

fn merge_player_state(m: PlayerState, bytes: &[u8], pos: usize, limit: usize) -> (res: Result<PlayerState, DecodeFailure>)
    requires
        pos <= bytes.len(),
    ensures
        res matches Ok(v) ==> player_state_merge(m@, bytes@.skip(pos as int), limit as nat) == Some(v@),
        res is Err ==> player_state_merge(m@, bytes@.skip(pos as int), limit as nat) is None,
        res matches Err(f) ==> f@ == player_state_merge_failure(m@, bytes@.skip(pos as int), limit as nat),
{
    let mut cur = m;
    let mut at = pos;
    while bytes.len() - at > limit
        invariant
            at <= bytes.len(),
            player_state_merge(m@, bytes@.skip(pos as int), limit as nat) == player_state_merge(
                cur@,
                bytes@.skip(at as int),
                limit as nat,
            ),
            player_state_merge_failure(m@, bytes@.skip(pos as int), limit as nat) == player_state_merge_failure(
                cur@,
                bytes@.skip(at as int),
                limit as nat,
            ),
        decreases bytes.len() - at,
    {
        let ghost s = bytes@.skip(at as int);
        let (tag, wire_type, rest) = match take_key(bytes, at) {
            Ok(key) => key,
            Err(text) => return Err(DecodeFailure::from_text(text)),
        };
        proof {
            lemma_read_key(s);
        }
        let p = bytes.len() - rest;
        proof {
            lemma_skip_skip(bytes@, at as int, p - at);
        }
        let (next, rest2) = player_state_step(cur, tag, wire_type, bytes, p)?;
        proof {
            lemma_skip_skip(bytes@, at as int, bytes.len() - rest2 - at);
        }
        cur = next;
        at = bytes.len() - rest2;
    }
    if bytes.len() - at != limit {
        return Err(DecodeFailure::new("delimited length exceeded"));
    }
    Ok(cur)
}

fn take_player_state(start: PlayerState, wire_type: u8, bytes: &[u8], pos: usize) -> (res: Result<(PlayerState, usize), DecodeFailure>)
    requires
        wire_type <= 5,
        pos <= bytes.len(),
    ensures
        res matches Ok((v, rest)) ==> rest <= bytes.len() - pos && player_state_message(
            start@,
            wire_type,
            bytes@.skip(pos as int),
        ) == Some((v@, consumed(bytes@, pos, rest))),
        res is Err ==> player_state_message(start@, wire_type, bytes@.skip(pos as int)) is None,
        res matches Err(f) ==> f@ == player_state_message_failure(start@, wire_type, bytes@.skip(pos as int)),
{
    match check_wire_type(LENGTH_DELIMITED, wire_type) {
        Ok(()) => {},
        Err(text) => return Err(DecodeFailure::from_text(text)),
    }
    let (len, rest) = match take_varint(bytes, pos) {
        Ok(read) => read,
        Err(text) => return Err(DecodeFailure::from_text(text)),
    };
    if len > rest as u64 {
        return Err(DecodeFailure::new("buffer underflow"));
    }
    let limit = rest - len as usize;
    let body = bytes.len() - rest;
    proof {
        lemma_skip_skip(bytes@, pos as int, body - pos);
    }
    let v = merge_player_state(start, bytes, body, limit)?;
    Ok((v, limit))
}

fn merge_disc_state(m: DiscState, bytes: &[u8], pos: usize, limit: usize) -> (res: Result<DiscState, DecodeFailure>)
    requires
        pos <= bytes.len(),
    ensures
        res matches Ok(v) ==> disc_state_merge(m, bytes@.skip(pos as int), limit as nat) == Some(v),
        res is Err ==> disc_state_merge(m, bytes@.skip(pos as int), limit as nat) is None,
        res matches Err(f) ==> f@ == disc_state_merge_failure(m, bytes@.skip(pos as int), limit as nat),
{
    let mut cur = m;
    let mut at = pos;
    while bytes.len() - at > limit
        invariant
            at <= bytes.len(),
            disc_state_merge(m, bytes@.skip(pos as int), limit as nat) == disc_state_merge(
                cur,
                bytes@.skip(at as int),
                limit as nat,
            ),
            disc_state_merge_failure(m, bytes@.skip(pos as int), limit as nat) == disc_state_merge_failure(
                cur,
                bytes@.skip(at as int),
                limit as nat,
            ),
        decreases bytes.len() - at,
    {
        let ghost s = bytes@.skip(at as int);
        let (tag, wire_type, rest) = match take_key(bytes, at) {
            Ok(key) => key,
            Err(text) => return Err(DecodeFailure::from_text(text)),
        };
        proof {
            lemma_read_key(s);
        }
        let p = bytes.len() - rest;
        proof {
            lemma_skip_skip(bytes@, at as int, p - at);
        }
        let (next, rest2) = disc_state_step(cur, tag, wire_type, bytes, p)?;
        proof {
            lemma_skip_skip(bytes@, at as int, bytes.len() - rest2 - at);
        }
        cur = next;
        at = bytes.len() - rest2;
    }
    if bytes.len() - at != limit {
        return Err(DecodeFailure::new("delimited length exceeded"));
    }
    Ok(cur)
}

fn take_disc_state(start: DiscState, wire_type: u8, bytes: &[u8], pos: usize) -> (res: Result<(DiscState, usize), DecodeFailure>)
    requires
        wire_type <= 5,
        pos <= bytes.len(),
    ensures
        res matches Ok((v, rest)) ==> rest <= bytes.len() - pos && disc_state_message(
            start,
            wire_type,
            bytes@.skip(pos as int),
        ) == Some((v, consumed(bytes@, pos, rest))),
        res is Err ==> disc_state_message(start, wire_type, bytes@.skip(pos as int)) is None,
        res matches Err(f) ==> f@ == disc_state_message_failure(start, wire_type, bytes@.skip(pos as int)),
{
    match check_wire_type(LENGTH_DELIMITED, wire_type) {
        Ok(()) => {},
        Err(text) => return Err(DecodeFailure::from_text(text)),
    }
    let (len, rest) = match take_varint(bytes, pos) {
        Ok(read) => read,
        Err(text) => return Err(DecodeFailure::from_text(text)),
    };
    if len > rest as u64 {
        return Err(DecodeFailure::new("buffer underflow"));
    }
    let limit = rest - len as usize;
    let body = bytes.len() - rest;
    proof {
        lemma_skip_skip(bytes@, pos as int, body - pos);
    }
    let v = merge_disc_state(start, bytes, body, limit)?;
    Ok((v, limit))
}

fn merge_dynamic_state(m: DynamicState, bytes: &[u8], pos: usize, limit: usize) -> (res: Result<DynamicState, DecodeFailure>)
    requires
        pos <= bytes.len(),
    ensures
        res matches Ok(v) ==> dynamic_state_merge(m@, bytes@.skip(pos as int), limit as nat) == Some(v@),
        res is Err ==> dynamic_state_merge(m@, bytes@.skip(pos as int), limit as nat) is None,
        res matches Err(f) ==> f@ == dynamic_state_merge_failure(m@, bytes@.skip(pos as int), limit as nat),
{
    let mut cur = m;
    let mut at = pos;
    while bytes.len() - at > limit
        invariant
            at <= bytes.len(),
            dynamic_state_merge(m@, bytes@.skip(pos as int), limit as nat) == dynamic_state_merge(
                cur@,
                bytes@.skip(at as int),
                limit as nat,
            ),
            dynamic_state_merge_failure(m@, bytes@.skip(pos as int), limit as nat) == dynamic_state_merge_failure(
                cur@,
                bytes@.skip(at as int),
                limit as nat,
            ),
        decreases bytes.len() - at,
    {
        let ghost s = bytes@.skip(at as int);
        let (tag, wire_type, rest) = match take_key(bytes, at) {
            Ok(key) => key,
            Err(text) => return Err(DecodeFailure::from_text(text)),
        };
        proof {
            lemma_read_key(s);
        }
        let p = bytes.len() - rest;
        proof {
            lemma_skip_skip(bytes@, at as int, p - at);
        }
        let (next, rest2) = dynamic_state_step(cur, tag, wire_type, bytes, p)?;
        proof {
            lemma_skip_skip(bytes@, at as int, bytes.len() - rest2 - at);
        }
        cur = next;
        at = bytes.len() - rest2;
    }
    if bytes.len() - at != limit {
        return Err(DecodeFailure::new("delimited length exceeded"));
    }
    Ok(cur)
}

fn take_dynamic_state(start: DynamicState, wire_type: u8, bytes: &[u8], pos: usize) -> (res: Result<(DynamicState, usize), DecodeFailure>)
    requires
        wire_type <= 5,
        pos <= bytes.len(),
    ensures
        res matches Ok((v, rest)) ==> rest <= bytes.len() - pos && dynamic_state_message(
            start@,
            wire_type,
            bytes@.skip(pos as int),
        ) == Some((v@, consumed(bytes@, pos, rest))),
        res is Err ==> dynamic_state_message(start@, wire_type, bytes@.skip(pos as int)) is None,
        res matches Err(f) ==> f@ == dynamic_state_message_failure(start@, wire_type, bytes@.skip(pos as int)),
{
    match check_wire_type(LENGTH_DELIMITED, wire_type) {
        Ok(()) => {},
        Err(text) => return Err(DecodeFailure::from_text(text)),
    }
    let (len, rest) = match take_varint(bytes, pos) {
        Ok(read) => read,
        Err(text) => return Err(DecodeFailure::from_text(text)),
    };
    if len > rest as u64 {
        return Err(DecodeFailure::new("buffer underflow"));
    }
    let limit = rest - len as usize;
    let body = bytes.len() - rest;
    proof {
        lemma_skip_skip(bytes@, pos as int, body - pos);
    }
    let v = merge_dynamic_state(start, bytes, body, limit)?;
    Ok((v, limit))
}

fn merge_checkpoint(m: Checkpoint, bytes: &[u8], pos: usize, limit: usize) -> (res: Result<Checkpoint, DecodeFailure>)
    requires
        pos <= bytes.len(),
    ensures
        res matches Ok(v) ==> checkpoint_merge(m@, bytes@.skip(pos as int), limit as nat) == Some(v@),
        res is Err ==> checkpoint_merge(m@, bytes@.skip(pos as int), limit as nat) is None,
        res matches Err(f) ==> f@ == checkpoint_merge_failure(m@, bytes@.skip(pos as int), limit as nat),
{
    let mut cur = m;
    let mut at = pos;
    while bytes.len() - at > limit
        invariant
            at <= bytes.len(),
            checkpoint_merge(m@, bytes@.skip(pos as int), limit as nat) == checkpoint_merge(
                cur@,
                bytes@.skip(at as int),
                limit as nat,
            ),
            checkpoint_merge_failure(m@, bytes@.skip(pos as int), limit as nat) == checkpoint_merge_failure(
                cur@,
                bytes@.skip(at as int),
                limit as nat,
            ),
        decreases bytes.len() - at,
    {
        let ghost s = bytes@.skip(at as int);
        let (tag, wire_type, rest) = match take_key(bytes, at) {
            Ok(key) => key,
            Err(text) => return Err(DecodeFailure::from_text(text)),
        };
        proof {
            lemma_read_key(s);
        }
        let p = bytes.len() - rest;
        proof {
            lemma_skip_skip(bytes@, at as int, p - at);
        }
        let (next, rest2) = checkpoint_step(cur, tag, wire_type, bytes, p)?;
        proof {
            lemma_skip_skip(bytes@, at as int, bytes.len() - rest2 - at);
        }
        cur = next;
        at = bytes.len() - rest2;
    }
    if bytes.len() - at != limit {
        return Err(DecodeFailure::new("delimited length exceeded"));
    }
    Ok(cur)
}

fn take_checkpoint(start: Checkpoint, wire_type: u8, bytes: &[u8], pos: usize) -> (res: Result<(Checkpoint, usize), DecodeFailure>)
    requires
        wire_type <= 5,
        pos <= bytes.len(),
    ensures
        res matches Ok((v, rest)) ==> rest <= bytes.len() - pos && checkpoint_message(
            start@,
            wire_type,
            bytes@.skip(pos as int),
        ) == Some((v@, consumed(bytes@, pos, rest))),
        res is Err ==> checkpoint_message(start@, wire_type, bytes@.skip(pos as int)) is None,
        res matches Err(f) ==> f@ == checkpoint_message_failure(start@, wire_type, bytes@.skip(pos as int)),
{
    match check_wire_type(LENGTH_DELIMITED, wire_type) {
        Ok(()) => {},
        Err(text) => return Err(DecodeFailure::from_text(text)),
    }
    let (len, rest) = match take_varint(bytes, pos) {
        Ok(read) => read,
        Err(text) => return Err(DecodeFailure::from_text(text)),
    };
    if len > rest as u64 {
        return Err(DecodeFailure::new("buffer underflow"));
    }
    let limit = rest - len as usize;
    let body = bytes.len() - rest;
    proof {
        lemma_skip_skip(bytes@, pos as int, body - pos);
    }
    let v = merge_checkpoint(start, bytes, body, limit)?;
    Ok((v, limit))
}

fn merge_dynamic_frame(m: DynamicFrame, bytes: &[u8], pos: usize, limit: usize) -> (res: Result<DynamicFrame, DecodeFailure>)
    requires
        pos <= bytes.len(),
    ensures
        res matches Ok(v) ==> dynamic_frame_merge(m@, bytes@.skip(pos as int), limit as nat) == Some(v@),
        res is Err ==> dynamic_frame_merge(m@, bytes@.skip(pos as int), limit as nat) is None,
        res matches Err(f) ==> f@ == dynamic_frame_merge_failure(m@, bytes@.skip(pos as int), limit as nat),
{
    let mut cur = m;
    let mut at = pos;
    while bytes.len() - at > limit
        invariant
            at <= bytes.len(),
            dynamic_frame_merge(m@, bytes@.skip(pos as int), limit as nat) == dynamic_frame_merge(
                cur@,
                bytes@.skip(at as int),
                limit as nat,
            ),
            dynamic_frame_merge_failure(m@, bytes@.skip(pos as int), limit as nat) == dynamic_frame_merge_failure(
                cur@,
                bytes@.skip(at as int),
                limit as nat,
            ),
        decreases bytes.len() - at,
    {
        let ghost s = bytes@.skip(at as int);
        let (tag, wire_type, rest) = match take_key(bytes, at) {
            Ok(key) => key,
            Err(text) => return Err(DecodeFailure::from_text(text)),
        };
        proof {
            lemma_read_key(s);
        }
        let p = bytes.len() - rest;
        proof {
            lemma_skip_skip(bytes@, at as int, p - at);
        }
        let (next, rest2) = dynamic_frame_step(cur, tag, wire_type, bytes, p)?;
        proof {
            lemma_skip_skip(bytes@, at as int, bytes.len() - rest2 - at);
        }
        cur = next;
        at = bytes.len() - rest2;
    }
    if bytes.len() - at != limit {
        return Err(DecodeFailure::new("delimited length exceeded"));
    }
    Ok(cur)
}

fn take_dynamic_frame(start: DynamicFrame, wire_type: u8, bytes: &[u8], pos: usize) -> (res: Result<(DynamicFrame, usize), DecodeFailure>)
    requires
        wire_type <= 5,
        pos <= bytes.len(),
    ensures
        res matches Ok((v, rest)) ==> rest <= bytes.len() - pos && dynamic_frame_message(
            start@,
            wire_type,
            bytes@.skip(pos as int),
        ) == Some((v@, consumed(bytes@, pos, rest))),
        res is Err ==> dynamic_frame_message(start@, wire_type, bytes@.skip(pos as int)) is None,
        res matches Err(f) ==> f@ == dynamic_frame_message_failure(start@, wire_type, bytes@.skip(pos as int)),
{
    match check_wire_type(LENGTH_DELIMITED, wire_type) {
        Ok(()) => {},
        Err(text) => return Err(DecodeFailure::from_text(text)),
    }
    let (len, rest) = match take_varint(bytes, pos) {
        Ok(read) => read,
        Err(text) => return Err(DecodeFailure::from_text(text)),
    };
    if len > rest as u64 {
        return Err(DecodeFailure::new("buffer underflow"));
    }
    let limit = rest - len as usize;
    let body = bytes.len() - rest;
    proof {
        lemma_skip_skip(bytes@, pos as int, body - pos);
    }
    let v = merge_dynamic_frame(start, bytes, body, limit)?;
    Ok((v, limit))
}

fn merge_envelope(m: Envelope, bytes: &[u8], pos: usize, limit: usize) -> (res: Result<Envelope, DecodeFailure>)
    requires
        pos <= bytes.len(),
    ensures
        res matches Ok(v) ==> envelope_merge(m@, bytes@.skip(pos as int), limit as nat) == Some(v@),
        res is Err ==> envelope_merge(m@, bytes@.skip(pos as int), limit as nat) is None,
        res matches Err(f) ==> f@ == envelope_merge_failure(m@, bytes@.skip(pos as int), limit as nat),
{
    let mut cur = m;
    let mut at = pos;
    while bytes.len() - at > limit
        invariant
            at <= bytes.len(),
            envelope_merge(m@, bytes@.skip(pos as int), limit as nat) == envelope_merge(
                cur@,
                bytes@.skip(at as int),
                limit as nat,
            ),
            envelope_merge_failure(m@, bytes@.skip(pos as int), limit as nat) == envelope_merge_failure(
                cur@,
                bytes@.skip(at as int),
                limit as nat,
            ),
        decreases bytes.len() - at,
    {
        let ghost s = bytes@.skip(at as int);
        let (tag, wire_type, rest) = match take_key(bytes, at) {
            Ok(key) => key,
            Err(text) => return Err(DecodeFailure::from_text(text)),
        };
        proof {
            lemma_read_key(s);
        }
        let p = bytes.len() - rest;
        proof {
            lemma_skip_skip(bytes@, at as int, p - at);
        }
        let (next, rest2) = envelope_step(cur, tag, wire_type, bytes, p)?;
        proof {
            lemma_skip_skip(bytes@, at as int, bytes.len() - rest2 - at);
        }
        cur = next;
        at = bytes.len() - rest2;
    }
    if bytes.len() - at != limit {
        return Err(DecodeFailure::new("delimited length exceeded"));
    }
    Ok(cur)
}

fn team_colors_step(m: TeamColors, tag: u32, wire_type: u8, bytes: &[u8], pos: usize) -> (res: Result<(TeamColors, usize), DecodeFailure>)
    requires
        wire_type <= 5,
        pos <= bytes.len(),
    ensures
        res matches Ok((v, rest)) ==> rest <= bytes.len() - pos && team_colors_field(
            m@,
            tag,
            wire_type,
            bytes@.skip(pos as int),
        ) == Some((v@, consumed(bytes@, pos, rest))),
        res is Err ==> team_colors_field(m@, tag, wire_type, bytes@.skip(pos as int)) is None,
        res matches Err(f) ==> f@ == team_colors_field_failure(m@, tag, wire_type, bytes@.skip(pos as int)),
{
    proof {
        reveal(team_colors_field);
        reveal(team_colors_field_failure);
    }
    let mut m = m;
    if tag == 1 {
        match take_int32(wire_type, bytes, pos) {
            Ok((v, rest)) => {
                m.angle = v;
                Ok((m, rest))
            },
            Err(e) => Err(in_field(e, "TeamColors", "angle")),
        }
    } else if tag == 2 {
        match take_uint32(wire_type, bytes, pos) {
            Ok((v, rest)) => {
                m.text_color = v;
                Ok((m, rest))
            },
            Err(e) => Err(in_field(e, "TeamColors", "text_color")),
        }
    } else if tag == 3 {
        match take_repeated_uint32(wire_type, &mut m.colors, bytes, pos) {
            Ok(rest) => Ok((m, rest)),
            Err(e) => Err(in_field(e, "TeamColors", "colors")),
        }
    } else {
        let rest = skip_unknown(wire_type, tag, bytes, pos, 98)?;
        Ok((m, rest))
    }
}

fn game_state_step(m: GameState, tag: u32, wire_type: u8, bytes: &[u8], pos: usize) -> (res: Result<(GameState, usize), DecodeFailure>)
    requires
        wire_type <= 5,
        pos <= bytes.len(),
    ensures
        res matches Ok((v, rest)) ==> rest <= bytes.len() - pos && game_state_field(
            m,
            tag,
            wire_type,
            bytes@.skip(pos as int),
        ) == Some((v, consumed(bytes@, pos, rest))),
        res is Err ==> game_state_field(m, tag, wire_type, bytes@.skip(pos as int)) is None,
        res matches Err(f) ==> f@ == game_state_field_failure(m, tag, wire_type, bytes@.skip(pos as int)),
{
    proof {
        reveal(game_state_field);
        reveal(game_state_field_failure);
    }
    let mut m = m;
    if tag == 1 {
        match take_int32(wire_type, bytes, pos) {
            Ok((v, rest)) => {
                m.status = v;
                Ok((m, rest))
            },
            Err(e) => Err(in_field(e, "GameState", "status")),
        }
    } else if tag == 2 {
        match take_uint32(wire_type, bytes, pos) {
            Ok((v, rest)) => {
                m.red_score = v;
                Ok((m, rest))
            },
            Err(e) => Err(in_field(e, "GameState", "red_score")),
        }
    } else if tag == 3 {
        match take_uint32(wire_type, bytes, pos) {
            Ok((v, rest)) => {
                m.blue_score = v;
                Ok((m, rest))
            },
            Err(e) => Err(in_field(e, "GameState", "blue_score")),
        }
    } else if tag == 4 {
        match take_fixed64(wire_type, bytes, pos) {
            Ok((v, rest)) => {
                m.elapsed_seconds = v;
                Ok((m, rest))
            },
            Err(e) => Err(in_field(e, "GameState", "elapsed_seconds")),
        }
    } else if tag == 5 {
        match take_uint32(wire_type, bytes, pos) {
            Ok((v, rest)) => {
                m.paused_ticks = v;
                Ok((m, rest))
            },
            Err(e) => Err(in_field(e, "GameState", "paused_ticks")),
        }
    } else if tag == 6 {
        match take_int32(wire_type, bytes, pos) {
            Ok((v, rest)) => {
                m.kickoff_team = v;
                Ok((m, rest))
            },
            Err(e) => Err(in_field(e, "GameState", "kickoff_team")),
        }
    } else if tag == 7 {
        match take_uint64(wire_type, bytes, pos) {
            Ok((v, rest)) => {
                m.active_ticks = v;
                Ok((m, rest))
            },
            Err(e) => Err(in_field(e, "GameState", "active_ticks")),
        }
    } else if tag == 8 {
        match take_int32(wire_type, bytes, pos) {
            Ok((v, rest)) => {
                m.countdown_ticks = v;
                Ok((m, rest))
            },
            Err(e) => Err(in_field(e, "GameState", "countdown_ticks")),
        }
    } else if tag == 9 {
        match take_int32(wire_type, bytes, pos) {
            Ok((v, rest)) => {
                m.phase_code = v;
                Ok((m, rest))
            },
            Err(e) => Err(in_field(e, "GameState", "phase_code")),
        }
    } else {
        let rest = skip_unknown(wire_type, tag, bytes, pos, 97)?;
        Ok((m, rest))
    }
}

fn player_state_step(m: PlayerState, tag: u32, wire_type: u8, bytes: &[u8], pos: usize) -> (res: Result<(PlayerState, usize), DecodeFailure>)
    requires
        wire_type <= 5,
        pos <= bytes.len(),
    ensures
        res matches Ok((v, rest)) ==> rest <= bytes.len() - pos && player_state_field(
            m@,
            tag,
            wire_type,
            bytes@.skip(pos as int),
        ) == Some((v@, consumed(bytes@, pos, rest))),
        res is Err ==> player_state_field(m@, tag, wire_type, bytes@.skip(pos as int)) is None,
        res matches Err(f) ==> f@ == player_state_field_failure(m@, tag, wire_type, bytes@.skip(pos as int)),
{
    proof {
        reveal(player_state_field);
        reveal(player_state_field_failure);
    }
    let mut m = m;
    if tag == 1 {
        match take_uint32(wire_type, bytes, pos) {
            Ok((v, rest)) => {
                m.id = v;
                Ok((m, rest))
            },
            Err(e) => Err(in_field(e, "PlayerState", "id")),
        }
    } else if tag == 2 {
        match take_string(wire_type, bytes, pos) {
            Ok((v, rest)) => {
                m.name = v;
                Ok((m, rest))
            },
            Err(e) => Err(in_field(e, "PlayerState", "name")),
        }
    } else if tag == 3 {
        match take_int32(wire_type, bytes, pos) {
            Ok((v, rest)) => {
                m.team = v;
                Ok((m, rest))
            },
            Err(e) => Err(in_field(e, "PlayerState", "team")),
        }
    } else if tag == 4 {
        match take_bool(wire_type, bytes, pos) {
            Ok((v, rest)) => {
                m.admin = v;
                Ok((m, rest))
            },
            Err(e) => Err(in_field(e, "PlayerState", "admin")),
        }
    } else if tag == 5 {
        match take_int32(wire_type, bytes, pos) {
            Ok((v, rest)) => {
                m.player_number = v;
                Ok((m, rest))
            },
            Err(e) => Err(in_field(e, "PlayerState", "player_number")),
        }
    } else if tag == 6 {
        match take_bool(wire_type, bytes, pos) {
            Ok((v, rest)) => {
                m.activity = v;
                Ok((m, rest))
            },
            Err(e) => Err(in_field(e, "PlayerState", "activity")),
        }
    } else if tag == 7 {
        let start = match m.position {
            Some(p) => p,
            None => Vec2::default(),
        };
        match take_vec2(start, wire_type, bytes, pos) {
            Ok((v, rest)) => {
                m.position = Some(v);
                Ok((m, rest))
            },
            Err(e) => Err(e.within("PlayerState", "position")),
        }
    } else if tag == 8 {
        match take_uint32(wire_type, bytes, pos) {
            Ok((v, rest)) => {
                m.disc_index = Some(v);
                Ok((m, rest))
            },
            Err(e) => Err(in_field(e, "PlayerState", "disc_index")),
        }
    } else if tag == 9 {
        match take_string(wire_type, bytes, pos) {
            Ok((v, rest)) => {
                m.avatar = Some(v);
                Ok((m, rest))
            },
            Err(e) => Err(in_field(e, "PlayerState", "avatar")),
        }
    } else if tag == 10 {
        match take_uint32(wire_type, bytes, pos) {
            Ok((v, rest)) => {
                m.input = v;
                Ok((m, rest))
            },
            Err(e) => Err(in_field(e, "PlayerState", "input")),
        }
    } else {
        let rest = skip_unknown(wire_type, tag, bytes, pos, 97)?;
        Ok((m, rest))
    }
}

fn disc_state_step(m: DiscState, tag: u32, wire_type: u8, bytes: &[u8], pos: usize) -> (res: Result<(DiscState, usize), DecodeFailure>)
    requires
        wire_type <= 5,
        pos <= bytes.len(),
    ensures
        res matches Ok((v, rest)) ==> rest <= bytes.len() - pos && disc_state_field(
            m,
            tag,
            wire_type,
            bytes@.skip(pos as int),
        ) == Some((v, consumed(bytes@, pos, rest))),
        res is Err ==> disc_state_field(m, tag, wire_type, bytes@.skip(pos as int)) is None,
        res matches Err(f) ==> f@ == disc_state_field_failure(m, tag, wire_type, bytes@.skip(pos as int)),
{
    proof {
        reveal(disc_state_field);
        reveal(disc_state_field_failure);
    }
    let mut m = m;
    if tag == 1 {
        match take_uint32(wire_type, bytes, pos) {
            Ok((v, rest)) => {
                m.index = v;
                Ok((m, rest))
            },
            Err(e) => Err(in_field(e, "DiscState", "index")),
        }
    } else if tag == 2 {
        let start = match m.position {
            Some(p) => p,
            None => Vec2::default(),
        };
        match take_vec2(start, wire_type, bytes, pos) {
            Ok((v, rest)) => {
                m.position = Some(v);
                Ok((m, rest))
            },
            Err(e) => Err(e.within("DiscState", "position")),
        }
    } else if tag == 3 {
        let start = match m.speed {
            Some(p) => p,
            None => Vec2::default(),
        };
        match take_vec2(start, wire_type, bytes, pos) {
            Ok((v, rest)) => {
                m.speed = Some(v);
                Ok((m, rest))
            },
            Err(e) => Err(e.within("DiscState", "speed")),
        }
    } else if tag == 4 {
        let start = match m.gravity {
            Some(p) => p,
            None => Vec2::default(),
        };
        match take_vec2(start, wire_type, bytes, pos) {
            Ok((v, rest)) => {
                m.gravity = Some(v);
                Ok((m, rest))
            },
            Err(e) => Err(e.within("DiscState", "gravity")),
        }
    } else if tag == 5 {
        match take_fixed64(wire_type, bytes, pos) {
            Ok((v, rest)) => {
                m.radius = v;
                Ok((m, rest))
            },
            Err(e) => Err(in_field(e, "DiscState", "radius")),
        }
    } else if tag == 6 {
        match take_fixed64(wire_type, bytes, pos) {
            Ok((v, rest)) => {
                m.bounce = v;
                Ok((m, rest))
            },
            Err(e) => Err(in_field(e, "DiscState", "bounce")),
        }
    } else if tag == 7 {
        match take_fixed64(wire_type, bytes, pos) {
            Ok((v, rest)) => {
                m.inverse_mass = v;
                Ok((m, rest))
            },
            Err(e) => Err(in_field(e, "DiscState", "inverse_mass")),
        }
    } else if tag == 8 {
        match take_fixed64(wire_type, bytes, pos) {
            Ok((v, rest)) => {
                m.damping = v;
                Ok((m, rest))
            },
            Err(e) => Err(in_field(e, "DiscState", "damping")),
        }
    } else if tag == 9 {
        match take_int32(wire_type, bytes, pos) {
            Ok((v, rest)) => {
                m.color = v;
                Ok((m, rest))
            },
            Err(e) => Err(in_field(e, "DiscState", "color")),
        }
    } else if tag == 10 {
        match take_int32(wire_type, bytes, pos) {
            Ok((v, rest)) => {
                m.collision_mask = v;
                Ok((m, rest))
            },
            Err(e) => Err(in_field(e, "DiscState", "collision_mask")),
        }
    } else if tag == 11 {
        match take_int32(wire_type, bytes, pos) {
            Ok((v, rest)) => {
                m.collision_group = v;
                Ok((m, rest))
            },
            Err(e) => Err(in_field(e, "DiscState", "collision_group")),
        }
    } else {
        let rest = skip_unknown(wire_type, tag, bytes, pos, 97)?;
        Ok((m, rest))
    }
}

fn dynamic_state_step(m: DynamicState, tag: u32, wire_type: u8, bytes: &[u8], pos: usize) -> (res: Result<(DynamicState, usize), DecodeFailure>)
    requires
        wire_type <= 5,
        pos <= bytes.len(),
    ensures
        res matches Ok((v, rest)) ==> rest <= bytes.len() - pos && dynamic_state_field(
            m@,
            tag,
            wire_type,
            bytes@.skip(pos as int),
        ) == Some((v@, consumed(bytes@, pos, rest))),
        res is Err ==> dynamic_state_field(m@, tag, wire_type, bytes@.skip(pos as int)) is None,
        res matches Err(f) ==> f@ == dynamic_state_field_failure(m@, tag, wire_type, bytes@.skip(pos as int)),
{
    proof {
        reveal(dynamic_state_field);
        reveal(dynamic_state_field_failure);
    }
    let mut m = m;
    if tag == 1 {
        let mut current: Option<GameState> = None;
        std::mem::swap(&mut current, &mut m.game);
        let start = match current {
            Some(g) => g,
            None => GameState::default(),
        };
        match take_game_state(start, wire_type, bytes, pos) {
            Ok((v, rest)) => {
                m.game = Some(v);
                Ok((m, rest))
            },
            Err(e) => Err(e.within("DynamicState", "game")),
        }
    } else if tag == 2 {
        match take_player_state(PlayerState::default(), wire_type, bytes, pos) {
            Ok((v, rest)) => {
                let ghost before = m.players@;
                m.players.push(v);
                assert(m.players@.map_values(|p: PlayerState| p@) =~= before.map_values(
                    |p: PlayerState| p@,
                ).push(v@));
                Ok((m, rest))
            },
            Err(e) => Err(e.within("DynamicState", "players")),
        }
    } else if tag == 3 {
        match take_disc_state(DiscState::default(), wire_type, bytes, pos) {
            Ok((v, rest)) => {
                m.discs.push(v);
                Ok((m, rest))
            },
            Err(e) => Err(e.within("DynamicState", "discs")),
        }
    } else {
        let rest = skip_unknown(wire_type, tag, bytes, pos, 98)?;
        Ok((m, rest))
    }
}

fn checkpoint_step(m: Checkpoint, tag: u32, wire_type: u8, bytes: &[u8], pos: usize) -> (res: Result<(Checkpoint, usize), DecodeFailure>)
    requires
        wire_type <= 5,
        pos <= bytes.len(),
    ensures
        res matches Ok((v, rest)) ==> rest <= bytes.len() - pos && checkpoint_field(
            m@,
            tag,
            wire_type,
            bytes@.skip(pos as int),
        ) == Some((v@, consumed(bytes@, pos, rest))),
        res is Err ==> checkpoint_field(m@, tag, wire_type, bytes@.skip(pos as int)) is None,
        res matches Err(f) ==> f@ == checkpoint_field_failure(m@, tag, wire_type, bytes@.skip(pos as int)),
{
    proof {
        reveal(checkpoint_field);
        reveal(checkpoint_field_failure);
    }
    let mut m = m;
    if tag == 1 {
        match take_string(wire_type, bytes, pos) {
            Ok((v, rest)) => {
                m.room_name = v;
                Ok((m, rest))
            },
            Err(e) => Err(in_field(e, "Checkpoint", "room_name")),
        }
    } else if tag == 2 {
        match take_uint32(wire_type, bytes, pos) {
            Ok((v, rest)) => {
                m.max_players = v;
                Ok((m, rest))
            },
            Err(e) => Err(in_field(e, "Checkpoint", "max_players")),
        }
    } else if tag == 3 {
        match take_string(wire_type, bytes, pos) {
            Ok((v, rest)) => {
                m.stadium_json = v;
                Ok((m, rest))
            },
            Err(e) => Err(in_field(e, "Checkpoint", "stadium_json")),
        }
    } else if tag == 4 {
        match take_uint32(wire_type, bytes, pos) {
            Ok((v, rest)) => {
                m.score_limit = v;
                Ok((m, rest))
            },
            Err(e) => Err(in_field(e, "Checkpoint", "score_limit")),
        }
    } else if tag == 5 {
        match take_uint32(wire_type, bytes, pos) {
            Ok((v, rest)) => {
                m.time_limit_seconds = v;
                Ok((m, rest))
            },
            Err(e) => Err(in_field(e, "Checkpoint", "time_limit_seconds")),
        }
    } else if tag == 6 {
        match take_bool(wire_type, bytes, pos) {
            Ok((v, rest)) => {
                m.teams_locked = v;
                Ok((m, rest))
            },
            Err(e) => Err(in_field(e, "Checkpoint", "teams_locked")),
        }
    } else if tag == 7 {
        let mut current: Option<TeamColors> = None;
        std::mem::swap(&mut current, &mut m.red_team_colors);
        let start = match current {
            Some(c) => c,
            None => TeamColors::default(),
        };
        match take_team_colors(start, wire_type, bytes, pos) {
            Ok((v, rest)) => {
                m.red_team_colors = Some(v);
                Ok((m, rest))
            },
            Err(e) => Err(e.within("Checkpoint", "red_team_colors")),
        }
    } else if tag == 8 {
        let mut current: Option<TeamColors> = None;
        std::mem::swap(&mut current, &mut m.blue_team_colors);
        let start = match current {
            Some(c) => c,
            None => TeamColors::default(),
        };
        match take_team_colors(start, wire_type, bytes, pos) {
            Ok((v, rest)) => {
                m.blue_team_colors = Some(v);
                Ok((m, rest))
            },
            Err(e) => Err(e.within("Checkpoint", "blue_team_colors")),
        }
    } else if tag == 9 {
        let mut current: Option<DynamicState> = None;
        std::mem::swap(&mut current, &mut m.dynamic);
        let start = match current {
            Some(d) => d,
            None => DynamicState::default(),
        };
        match take_dynamic_state(start, wire_type, bytes, pos) {
            Ok((v, rest)) => {
                m.dynamic = Some(v);
                Ok((m, rest))
            },
            Err(e) => Err(e.within("Checkpoint", "dynamic")),
        }
    } else if tag == 10 {
        match take_bytes(wire_type, bytes, pos) {
            Ok((v, rest)) => {
                m.initial_replay = v;
                Ok((m, rest))
            },
            Err(e) => Err(in_field(e, "Checkpoint", "initial_replay")),
        }
    } else {
        let rest = skip_unknown(wire_type, tag, bytes, pos, 99)?;
        Ok((m, rest))
    }
}

fn dynamic_frame_step(m: DynamicFrame, tag: u32, wire_type: u8, bytes: &[u8], pos: usize) -> (res: Result<(DynamicFrame, usize), DecodeFailure>)
    requires
        wire_type <= 5,
        pos <= bytes.len(),
    ensures
        res matches Ok((v, rest)) ==> rest <= bytes.len() - pos && dynamic_frame_field(
            m@,
            tag,
            wire_type,
            bytes@.skip(pos as int),
        ) == Some((v@, consumed(bytes@, pos, rest))),
        res is Err ==> dynamic_frame_field(m@, tag, wire_type, bytes@.skip(pos as int)) is None,
        res matches Err(f) ==> f@ == dynamic_frame_field_failure(m@, tag, wire_type, bytes@.skip(pos as int)),
{
    proof {
        reveal(dynamic_frame_field);
        reveal(dynamic_frame_field_failure);
    }
    let mut m = m;
    if tag == 1 {
        match take_uint64(wire_type, bytes, pos) {
            Ok((v, rest)) => {
                m.checkpoint_sequence = v;
                Ok((m, rest))
            },
            Err(e) => Err(in_field(e, "DynamicFrame", "checkpoint_sequence")),
        }
    } else if tag == 2 {
        let mut current: Option<DynamicState> = None;
        std::mem::swap(&mut current, &mut m.state);
        let start = match current {
            Some(d) => d,
            None => DynamicState::default(),
        };
        match take_dynamic_state(start, wire_type, bytes, pos) {
            Ok((v, rest)) => {
                m.state = Some(v);
                Ok((m, rest))
            },
            Err(e) => Err(e.within("DynamicFrame", "state")),
        }
    } else {
        let rest = skip_unknown(wire_type, tag, bytes, pos, 99)?;
        Ok((m, rest))
    }
}

fn envelope_step(m: Envelope, tag: u32, wire_type: u8, bytes: &[u8], pos: usize) -> (res: Result<(Envelope, usize), DecodeFailure>)
    requires
        wire_type <= 5,
        pos <= bytes.len(),
    ensures
        res matches Ok((v, rest)) ==> rest <= bytes.len() - pos && envelope_field(
            m@,
            tag,
            wire_type,
            bytes@.skip(pos as int),
        ) == Some((v@, consumed(bytes@, pos, rest))),
        res is Err ==> envelope_field(m@, tag, wire_type, bytes@.skip(pos as int)) is None,
        res matches Err(f) ==> f@ == envelope_field_failure(m@, tag, wire_type, bytes@.skip(pos as int)),
{
    proof {
        reveal(envelope_field);
        reveal(envelope_field_failure);
    }
    let mut m = m;
    if tag == 1 {
        match take_uint32(wire_type, bytes, pos) {
            Ok((v, rest)) => {
                m.protocol_version = v;
                Ok((m, rest))
            },
            Err(e) => Err(in_field(e, "Envelope", "protocol_version")),
        }
    } else if tag == 2 {
        match take_uint64(wire_type, bytes, pos) {
            Ok((v, rest)) => {
                m.epoch = v;
                Ok((m, rest))
            },
            Err(e) => Err(in_field(e, "Envelope", "epoch")),
        }
    } else if tag == 3 {
        match take_uint64(wire_type, bytes, pos) {
            Ok((v, rest)) => {
                m.sequence = v;
                Ok((m, rest))
            },
            Err(e) => Err(in_field(e, "Envelope", "sequence")),
        }
    } else if tag == 4 {
        match take_uint64(wire_type, bytes, pos) {
            Ok((v, rest)) => {
                m.source_tick = v;
                Ok((m, rest))
            },
            Err(e) => Err(in_field(e, "Envelope", "source_tick")),
        }
    } else if tag == 5 {
        match take_uint64(wire_type, bytes, pos) {
            Ok((v, rest)) => {
                m.source_time_micros = v;
                Ok((m, rest))
            },
            Err(e) => Err(in_field(e, "Envelope", "source_time_micros")),
        }
    } else if tag == 6 {
        match take_repeated_int32(wire_type, &mut m.audio_cues, bytes, pos) {
            Ok(rest) => Ok((m, rest)),
            Err(e) => Err(in_field(e, "Envelope", "audio_cues")),
        }
    } else if tag == 10 {
        let mut current: Option<Payload> = None;
        std::mem::swap(&mut current, &mut m.payload);
        let start = match current {
            Some(Payload::Checkpoint(c)) => c,
            _ => Checkpoint::default(),
        };
        match take_checkpoint(start, wire_type, bytes, pos) {
            Ok((v, rest)) => {
                m.payload = Some(Payload::Checkpoint(v));
                Ok((m, rest))
            },
            Err(e) => Err(e.within("Envelope", "payload")),
        }
    } else if tag == 11 {
        let mut current: Option<Payload> = None;
        std::mem::swap(&mut current, &mut m.payload);
        let start = match current {
            Some(Payload::Dynamic(d)) => d,
            _ => DynamicFrame::default(),
        };
        match take_dynamic_frame(start, wire_type, bytes, pos) {
            Ok((v, rest)) => {
                m.payload = Some(Payload::Dynamic(v));
                Ok((m, rest))
            },
            Err(e) => Err(e.within("Envelope", "payload")),
        }
    } else {
        let rest = skip_unknown(wire_type, tag, bytes, pos, 100)?;
        Ok((m, rest))
    }
}

/// The envelope that a whole buffer holds, read into the default envelope.
pub open spec fn envelope_decoding(bytes: Seq<u8>) -> Option<EnvelopeView> {
    envelope_merge(envelope_default(), bytes, 0)
}

/// Why `bytes` are no envelope, where `envelope_decoding(bytes)` is `None`.
pub open spec fn envelope_decode_failure(bytes: Seq<u8>) -> DecodeFailureView {
    envelope_merge_failure(envelope_default(), bytes, 0)
}

impl Envelope {
    /// Reads an envelope from the whole of `bytes`, as `prost::Message::decode`
    /// does.
    pub fn decode(bytes: &[u8]) -> (res: Result<Envelope, DecodeFailure>)
        ensures
            res matches Ok(e) ==> envelope_decoding(bytes@) == Some(e@),
            res is Err ==> envelope_decoding(bytes@) is None,
            res matches Err(f) ==> f@ == envelope_decode_failure(bytes@),
    {
        assert(bytes@.skip(0) =~= bytes@);
        merge_envelope(Envelope::default(), bytes, 0, 0)
    }
}

} // verus!
