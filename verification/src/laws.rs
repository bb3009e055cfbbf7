//! What writing and reading promise of each other: reading back the bytes
//! of a message gives the message.

use vstd::prelude::*;

use crate::decode::{
    checkpoint_field, checkpoint_fields, checkpoint_message, disc_state_field, disc_state_fields,
    disc_state_message, dynamic_frame_field, dynamic_frame_fields, dynamic_frame_message,
    dynamic_state_field, dynamic_state_fields, dynamic_state_message, envelope_decoding, envelope_field,
    envelope_fields, game_state_field, game_state_fields, game_state_message, merge_fields,
    player_state_field, player_state_fields, player_state_message, read_message,
    team_colors_field, team_colors_fields, team_colors_message, vec2_field, vec2_fields,
    vec2_message,
};
use crate::encode::{
    bool_field, bytes_field, checkpoint_bytes, disc_state_bytes, discs_bytes, double_field,
    dynamic_frame_bytes, dynamic_state_bytes, envelope_bytes, game_state_bytes, int32_field,
    is_zero_double, opt_game_field, opt_state_field, opt_string_field, opt_team_colors_field,
    opt_uint32_field, opt_vec2_field, payload_field, player_state_bytes, players_bytes,
    string_field, team_colors_bytes, uint32_field, uint64_field, vec2_bytes, NEGATIVE_ZERO_BITS,
};
use crate::envelope::PayloadView;
use crate::frame::{encoded_frame, envelope_check, ProtocolError};
use crate::MAX_FRAME_BYTES;
use crate::messages::{
    checkpoint_default, disc_state_default, dynamic_frame_default, dynamic_state_default,
    envelope_default, game_state_default, player_state_default, team_colors_default,
    vec2_default, CheckpointView, DiscState, DynamicFrameView, DynamicStateView, EnvelopeView,
    GameState, PlayerStateView, TeamColorsView, Vec2,
};
use crate::varint::{lemma_varint_round_trip, varint_bytes};
use crate::wire::{
    bool_wire, delimited_field, fixed64_field, int32_wire, int32_wires, key_bytes, le_bytes,
    packed_field, read_delimited, read_fixed64, read_key, read_packed, read_repeated_varint,
    read_string, read_varint_field, uint32_wires, utf8, varint_field, varints, LENGTH_DELIMITED,
    MAX_TAG, SIXTY_FOUR_BIT, VARINT,
};

verus! {

/// `(a + b) + c == a + (b + c)`.
pub proof fn lemma_regroup(a: Seq<u8>, b: Seq<u8>, c: Seq<u8>)
    ensures
        (a + b) + c == a + (b + c),
{
    vstd::seq_lib::lemma_concat_associative(a, b, c);
}

/// Whether `n` bytes can be counted by a varint.
pub open spec fn fits_u64(n: nat) -> bool {
    n <= u64::MAX
}

// ----------------------------------------------------------------------------
// Keys and field values
// ----------------------------------------------------------------------------

pub proof fn lemma_key(tag: u32, wire_type: u8, rest: Seq<u8>)
    requires
        1 <= tag <= MAX_TAG,
        wire_type <= 5,
    ensures
        read_key(key_bytes(tag, wire_type) + rest) == Some(
            (tag, wire_type, key_bytes(tag, wire_type).len()),
        ),
        1 <= key_bytes(tag, wire_type).len() <= 10,
{
    let k: nat = tag as nat * 8 + wire_type as nat;
    assert(k < 0x1_0000_0000);
    lemma_varint_round_trip(k as u64, rest);
    assert((k as u64) as nat == k);
    assert(k % 8 == wire_type as nat);
    assert(k / 8 == tag as nat);
}

pub proof fn lemma_le(v: u64, rest: Seq<u8>)
    ensures
        read_fixed64(SIXTY_FOUR_BIT, le_bytes(v) + rest) == Some((v, 8nat)),
{
    let s = le_bytes(v) + rest;
    assert(s.take(8) =~= le_bytes(v));
    let b0 = v as u8;
    let b1 = (v >> 8u64) as u8;
    let b2 = (v >> 16u64) as u8;
    let b3 = (v >> 24u64) as u8;
    let b4 = (v >> 32u64) as u8;
    let b5 = (v >> 40u64) as u8;
    let b6 = (v >> 48u64) as u8;
    let b7 = (v >> 56u64) as u8;
    assert((b0 as u64) | ((b1 as u64) << 8u64) | ((b2 as u64) << 16u64) | ((b3 as u64) << 24u64)
        | ((b4 as u64) << 32u64) | ((b5 as u64) << 40u64) | ((b6 as u64) << 48u64) | ((b7 as u64)
        << 56u64) == v) by (bit_vector)
        requires
            b0 == v as u8,
            b1 == (v >> 8u64) as u8,
            b2 == (v >> 16u64) as u8,
            b3 == (v >> 24u64) as u8,
            b4 == (v >> 32u64) as u8,
            b5 == (v >> 40u64) as u8,
            b6 == (v >> 48u64) as u8,
            b7 == (v >> 56u64) as u8,
    ;
}

pub proof fn lemma_read_varint_field(v: u64, rest: Seq<u8>)
    ensures
        read_varint_field(VARINT, varint_bytes(v as nat) + rest) == Some(
            (v, varint_bytes(v as nat).len()),
        ),
{
    lemma_varint_round_trip(v, rest);
}

pub proof fn lemma_int32_wire(v: i32)
    ensures
        int32_wire(v) as i32 == v,
{
    assert((v as u64) as i32 == v) by (bit_vector);
}

pub proof fn lemma_read_delimited(body: Seq<u8>, rest: Seq<u8>)
    requires
        fits_u64(body.len()),
    ensures
        read_delimited(LENGTH_DELIMITED, varint_bytes(body.len()) + body + rest) == Some(
            (body, varint_bytes(body.len()).len() + body.len()),
        ),
{
    let len = body.len() as u64;
    let s = varint_bytes(body.len()) + body + rest;
    lemma_varint_round_trip(len, body + rest);
    assert(s =~= varint_bytes(len as nat) + (body + rest));
    let n = varint_bytes(len as nat).len();
    assert(s.subrange(n as int, n + len) =~= body);
}

pub proof fn lemma_read_string(text: Seq<char>, rest: Seq<u8>)
    requires
        fits_u64(utf8(text).len()),
    ensures
        read_string(LENGTH_DELIMITED, varint_bytes(utf8(text).len()) + utf8(text) + rest) == Some(
            (text, varint_bytes(utf8(text).len()).len() + utf8(text).len()),
        ),
{
    lemma_read_delimited(utf8(text), rest);
    vstd::utf8::encode_utf8_valid_utf8(text);
    vstd::utf8::encode_utf8_decode_utf8(text);
}

pub proof fn lemma_read_packed(ws: Seq<u64>, rest: Seq<u8>)
    ensures
        read_packed(varints(ws) + rest, rest.len()) == Some(ws),
    decreases ws.len(),
{
    let s = varints(ws) + rest;
    if ws.len() == 0 {
        assert(s =~= rest);
    } else {
        let tail = ws.drop_first();
        lemma_varint_round_trip(ws[0], varints(tail) + rest);
        assert(s =~= varint_bytes(ws[0] as nat) + (varints(tail) + rest));
        let n = varint_bytes(ws[0] as nat).len();
        assert(s.skip(n as int) =~= varints(tail) + rest);
        lemma_read_packed(tail, rest);
        assert(seq![ws[0]] + tail =~= ws);
    }
}

pub proof fn lemma_read_packed_field(ws: Seq<u64>, rest: Seq<u8>)
    requires
        fits_u64(varints(ws).len()),
    ensures
        read_repeated_varint(
            LENGTH_DELIMITED,
            varint_bytes(varints(ws).len()) + varints(ws) + rest,
        ) == Some((ws, varint_bytes(varints(ws).len()).len() + varints(ws).len())),
{
    let body = varints(ws);
    let len = body.len() as u64;
    let s = varint_bytes(body.len()) + body + rest;
    lemma_varint_round_trip(len, body + rest);
    assert(s =~= varint_bytes(len as nat) + (body + rest));
    let n = varint_bytes(len as nat).len();
    assert(s.skip(n as int) =~= body + rest);
    lemma_read_packed(ws, rest);
}

// ----------------------------------------------------------------------------
// One field of a message
// ----------------------------------------------------------------------------

/// The bytes of a message that are exactly `rest` at the limit are read as
/// the message so far.
pub proof fn lemma_merge_end<M>(field: spec_fn(M, u32, u8, Seq<u8>) -> Option<(M, nat)>, m: M, rest: Seq<u8>)
    ensures
        merge_fields(field, m, rest, rest.len()) == Some(m),
{
}

/// Reading a message over one whole field `c` (key `tag`, wire type
/// `wire_type`) that takes the message from `m` to `m2`.
pub proof fn lemma_merge_step<M>(
    field: spec_fn(M, u32, u8, Seq<u8>) -> Option<(M, nat)>,
    m: M,
    m2: M,
    tag: u32,
    wire_type: u8,
    payload: Seq<u8>,
    rest: Seq<u8>,
    limit: nat,
)
    requires
        1 <= tag <= MAX_TAG,
        wire_type <= 5,
        limit <= rest.len(),
        field(m, tag, wire_type, payload + rest) == Some((m2, payload.len())),
    ensures
        merge_fields(field, m, key_bytes(tag, wire_type) + payload + rest, limit) == merge_fields(
            field,
            m2,
            rest,
            limit,
        ),
{
    let key = key_bytes(tag, wire_type);
    let s = key + payload + rest;
    lemma_key(tag, wire_type, payload + rest);
    assert(s =~= key + (payload + rest));
    assert(s.skip(key.len() as int) =~= payload + rest);
    assert(s.skip((key.len() + payload.len()) as int) =~= rest);
}

pub proof fn lemma_varint_step<M>(
    field: spec_fn(M, u32, u8, Seq<u8>) -> Option<(M, nat)>,
    m: M,
    m2: M,
    tag: u32,
    v: u64,
    rest: Seq<u8>,
    limit: nat,
)
    requires
        1 <= tag <= MAX_TAG,
        limit <= rest.len(),
        field(m, tag, VARINT, varint_bytes(v as nat) + rest) == Some(
            (m2, varint_bytes(v as nat).len()),
        ),
    ensures
        merge_fields(field, m, varint_field(tag, v) + rest, limit) == merge_fields(field, m2, rest, limit),
{
    lemma_merge_step(field, m, m2, tag, VARINT, varint_bytes(v as nat), rest, limit);
}

pub proof fn lemma_fixed64_step<M>(
    field: spec_fn(M, u32, u8, Seq<u8>) -> Option<(M, nat)>,
    m: M,
    m2: M,
    tag: u32,
    v: u64,
    rest: Seq<u8>,
    limit: nat,
)
    requires
        1 <= tag <= MAX_TAG,
        limit <= rest.len(),
        field(m, tag, SIXTY_FOUR_BIT, le_bytes(v) + rest) == Some((m2, 8nat)),
    ensures
        merge_fields(field, m, fixed64_field(tag, v) + rest, limit) == merge_fields(field, m2, rest, limit),
{
    lemma_merge_step(field, m, m2, tag, SIXTY_FOUR_BIT, le_bytes(v), rest, limit);
}

pub proof fn lemma_delimited_step<M>(
    field: spec_fn(M, u32, u8, Seq<u8>) -> Option<(M, nat)>,
    m: M,
    m2: M,
    tag: u32,
    body: Seq<u8>,
    rest: Seq<u8>,
    limit: nat,
)
    requires
        1 <= tag <= MAX_TAG,
        limit <= rest.len(),
        field(m, tag, LENGTH_DELIMITED, varint_bytes(body.len()) + body + rest) == Some(
            (m2, varint_bytes(body.len()).len() + body.len()),
        ),
    ensures
        merge_fields(field, m, delimited_field(tag, body) + rest, limit) == merge_fields(
            field,
            m2,
            rest,
            limit,
        ),
{
    let payload = varint_bytes(body.len()) + body;
    assert(payload + rest =~= varint_bytes(body.len()) + body + rest);
    assert(delimited_field(tag, body) =~= key_bytes(tag, LENGTH_DELIMITED) + payload);
    lemma_merge_step(field, m, m2, tag, LENGTH_DELIMITED, payload, rest, limit);
}

/// The payload of a length-delimited field read as an embedded message.
pub proof fn lemma_read_message<M>(
    field: spec_fn(M, u32, u8, Seq<u8>) -> Option<(M, nat)>,
    start: M,
    body: Seq<u8>,
    rest: Seq<u8>,
)
    requires
        fits_u64(body.len()),
    ensures
        read_message(field, start, LENGTH_DELIMITED, varint_bytes(body.len()) + body + rest) == match merge_fields(
            field,
            start,
            body + rest,
            rest.len(),
        ) {
            Some(v) => Some((v, varint_bytes(body.len()).len() + body.len())),
            None => None,
        },
{
    let len = body.len() as u64;
    let s = varint_bytes(body.len()) + body + rest;
    lemma_varint_round_trip(len, body + rest);
    assert(s =~= varint_bytes(len as nat) + (body + rest));
    let n = varint_bytes(len as nat).len();
    assert(s.skip(n as int) =~= body + rest);
}

/// A varint field that is written only when `present`.
pub proof fn lemma_opt_varint_step<M>(
    field: spec_fn(M, u32, u8, Seq<u8>) -> Option<(M, nat)>,
    m: M,
    m2: M,
    tag: u32,
    present: bool,
    w: u64,
    chunk: Seq<u8>,
    rest: Seq<u8>,
    limit: nat,
)
    requires
        1 <= tag <= MAX_TAG,
        limit <= rest.len(),
        chunk == if present {
            varint_field(tag, w)
        } else {
            seq![]
        },
        present ==> field(m, tag, VARINT, varint_bytes(w as nat) + rest) == Some(
            (m2, varint_bytes(w as nat).len()),
        ),
        !present ==> m2 == m,
    ensures
        merge_fields(field, m, chunk + rest, limit) == merge_fields(field, m2, rest, limit),
{
    if present {
        lemma_varint_step(field, m, m2, tag, w, rest, limit);
    } else {
        assert(chunk + rest =~= rest);
    }
}

/// A length-delimited field that is written only when `present`.
pub proof fn lemma_opt_delimited_step<M>(
    field: spec_fn(M, u32, u8, Seq<u8>) -> Option<(M, nat)>,
    m: M,
    m2: M,
    tag: u32,
    present: bool,
    body: Seq<u8>,
    chunk: Seq<u8>,
    rest: Seq<u8>,
    limit: nat,
)
    requires
        1 <= tag <= MAX_TAG,
        limit <= rest.len(),
        chunk == if present {
            delimited_field(tag, body)
        } else {
            seq![]
        },
        present ==> field(m, tag, LENGTH_DELIMITED, varint_bytes(body.len()) + body + rest) == Some(
            (m2, varint_bytes(body.len()).len() + body.len()),
        ),
        !present ==> m2 == m,
    ensures
        merge_fields(field, m, chunk + rest, limit) == merge_fields(field, m2, rest, limit),
{
    if present {
        lemma_delimited_step(field, m, m2, tag, body, rest, limit);
    } else {
        assert(chunk + rest =~= rest);
    }
}

// ----------------------------------------------------------------------------
// Messages
// ----------------------------------------------------------------------------

/// Whether the bit pattern is that of negative zero, which `prost` leaves
/// out of the encoding as it compares equal to the default zero.
pub open spec fn is_negative_zero(bits: u64) -> bool {
    bits == NEGATIVE_ZERO_BITS
}

pub open spec fn vec2_no_negative_zero(v: Vec2) -> bool {
    !is_negative_zero(v.x) && !is_negative_zero(v.y)
}

/// A double field over a message whose value for that field, so far, is the
/// default zero.
proof fn lemma_double_step<M>(
    field: spec_fn(M, u32, u8, Seq<u8>) -> Option<(M, nat)>,
    m: M,
    m2: M,
    tag: u32,
    bits: u64,
    rest: Seq<u8>,
    limit: nat,
)
    requires
        1 <= tag <= MAX_TAG,
        limit <= rest.len(),
        !is_zero_double(bits) ==> field(m, tag, SIXTY_FOUR_BIT, le_bytes(bits) + rest) == Some(
            (m2, 8nat),
        ),
        is_zero_double(bits) ==> m2 == m,
    ensures
        merge_fields(field, m, double_field(tag, bits) + rest, limit) == merge_fields(field, m2, rest, limit),
{
    if is_zero_double(bits) {
        assert(double_field(tag, bits) + rest =~= rest);
    } else {
        lemma_fixed64_step(field, m, m2, tag, bits, rest, limit);
    }
}

pub proof fn lemma_vec2_round_trip(v: Vec2, rest: Seq<u8>)
    requires
        vec2_no_negative_zero(v),
    ensures
        merge_fields(vec2_fields(), vec2_default(), vec2_bytes(v) + rest, rest.len()) == Some(v),
{
    reveal(vec2_field);
    let f = vec2_fields();
    let m0 = vec2_default();
    let m1 = Vec2 { x: v.x, ..m0 };
    let a = double_field(1, v.x);
    let b = double_field(2, v.y);
    assert(vec2_bytes(v) + rest =~= a + (b + rest));
    lemma_le(v.x, b + rest);
    lemma_double_step(f, m0, m1, 1, v.x, b + rest, rest.len());
    lemma_le(v.y, rest);
    lemma_double_step(f, m1, v, 2, v.y, rest, rest.len());
    lemma_merge_end(f, v, rest);
}

pub proof fn lemma_team_colors_round_trip(c: TeamColorsView, rest: Seq<u8>)
    requires
        fits_u64(team_colors_bytes(c).len()),
    ensures
        merge_fields(team_colors_fields(), team_colors_default(), team_colors_bytes(c) + rest, rest.len())
            == Some(c),
{
    reveal(team_colors_field);
    let f = team_colors_fields();
    let m0 = team_colors_default();
    let a = int32_field(1, c.angle);
    let b = uint32_field(2, c.text_color);
    let ws = uint32_wires(c.colors);
    let d = packed_field(3, ws);
    assert(team_colors_bytes(c) + rest =~= a + (b + (d + rest)));
    let m1 = TeamColorsView { angle: c.angle, ..m0 };
    lemma_read_varint_field(int32_wire(c.angle), b + (d + rest));
    lemma_int32_wire(c.angle);
    lemma_opt_varint_step(f, m0, m1, 1, c.angle != 0, int32_wire(c.angle), a, b + (d + rest), rest.len());
    let m2 = TeamColorsView { text_color: c.text_color, ..m1 };
    lemma_read_varint_field(c.text_color as u64, d + rest);
    lemma_opt_varint_step(f, m1, m2, 2, c.text_color != 0, c.text_color as u64, b, d + rest, rest.len());
    if ws.len() > 0 {
        assert(d.len() >= varints(ws).len());
        lemma_read_packed_field(ws, rest);
        assert(ws.map_values(|w: u64| w as u32) =~= c.colors);
        assert(m2.colors + ws.map_values(|w: u64| w as u32) =~= c.colors);
    } else {
        assert(c.colors =~= m2.colors);
    }
    assert(c =~= TeamColorsView { colors: c.colors, ..m2 });
    lemma_opt_delimited_step(f, m2, c, 3, ws.len() > 0, varints(ws), d, rest, rest.len());
    lemma_merge_end(f, c, rest);
}

pub proof fn lemma_game_state_round_trip(g: GameState, rest: Seq<u8>)
    requires
        !is_negative_zero(g.elapsed_seconds),
    ensures
        merge_fields(game_state_fields(), game_state_default(), game_state_bytes(g) + rest, rest.len())
            == Some(g),
{
    let f = game_state_fields();
    let c1 = int32_field(1, g.status);
    let c2 = uint32_field(2, g.red_score);
    let c3 = uint32_field(3, g.blue_score);
    let c4 = double_field(4, g.elapsed_seconds);
    let c5 = uint32_field(5, g.paused_ticks);
    let c6 = int32_field(6, g.kickoff_team);
    let c7 = uint64_field(7, g.active_ticks);
    let c8 = int32_field(8, g.countdown_ticks);
    let c9 = int32_field(9, g.phase_code);
    let r9 = c9 + rest;
    let r8 = c8 + r9;
    let r7 = c7 + r8;
    let r6 = c6 + r7;
    let r5 = c5 + r6;
    let r4 = c4 + r5;
    let r3 = c3 + r4;
    let r2 = c2 + r3;
    assert(game_state_bytes(g) + rest == c1 + r2) by {
        let s1 = c1 + c2;
        let s2 = s1 + c3;
        let s3 = s2 + c4;
        let s4 = s3 + c5;
        let s5 = s4 + c6;
        let s6 = s5 + c7;
        let s7 = s6 + c8;
        assert(game_state_bytes(g) == s7 + c9);
        lemma_regroup(s7, c9, rest);
        lemma_regroup(s6, c8, r9);
        lemma_regroup(s5, c7, r8);
        lemma_regroup(s4, c6, r7);
        lemma_regroup(s3, c5, r6);
        lemma_regroup(s2, c4, r5);
        lemma_regroup(s1, c3, r4);
        lemma_regroup(c1, c2, r3);
    }
    let l = rest.len();
    let m0 = game_state_default();
    let m1 = GameState { status: g.status, ..m0 };
    let m2 = GameState { red_score: g.red_score, ..m1 };
    let m3 = GameState { blue_score: g.blue_score, ..m2 };
    let m4 = GameState { elapsed_seconds: g.elapsed_seconds, ..m3 };
    let m5 = GameState { paused_ticks: g.paused_ticks, ..m4 };
    let m6 = GameState { kickoff_team: g.kickoff_team, ..m5 };
    let m7 = GameState { active_ticks: g.active_ticks, ..m6 };
    let m8 = GameState { countdown_ticks: g.countdown_ticks, ..m7 };
    assert(merge_fields(f, m0, c1 + r2, l) == merge_fields(f, m1, r2, l)) by {
        reveal(game_state_field);
        lemma_read_varint_field(int32_wire(g.status), r2);
        lemma_int32_wire(g.status);
        lemma_opt_varint_step(f, m0, m1, 1, g.status != 0, int32_wire(g.status), c1, r2, l);
    }
    assert(merge_fields(f, m1, r2, l) == merge_fields(f, m2, r3, l)) by {
        reveal(game_state_field);
        lemma_read_varint_field(g.red_score as u64, r3);
        lemma_opt_varint_step(f, m1, m2, 2, g.red_score != 0, g.red_score as u64, c2, r3, l);
    }
    assert(merge_fields(f, m2, r3, l) == merge_fields(f, m3, r4, l)) by {
        reveal(game_state_field);
        lemma_read_varint_field(g.blue_score as u64, r4);
        lemma_opt_varint_step(f, m2, m3, 3, g.blue_score != 0, g.blue_score as u64, c3, r4, l);
    }
    assert(merge_fields(f, m3, r4, l) == merge_fields(f, m4, r5, l)) by {
        reveal(game_state_field);
        lemma_le(g.elapsed_seconds, r5);
        lemma_double_step(f, m3, m4, 4, g.elapsed_seconds, r5, l);
    }
    assert(merge_fields(f, m4, r5, l) == merge_fields(f, m5, r6, l)) by {
        reveal(game_state_field);
        lemma_read_varint_field(g.paused_ticks as u64, r6);
        lemma_opt_varint_step(f, m4, m5, 5, g.paused_ticks != 0, g.paused_ticks as u64, c5, r6, l);
    }
    assert(merge_fields(f, m5, r6, l) == merge_fields(f, m6, r7, l)) by {
        reveal(game_state_field);
        lemma_read_varint_field(int32_wire(g.kickoff_team), r7);
        lemma_int32_wire(g.kickoff_team);
        lemma_opt_varint_step(f, m5, m6, 6, g.kickoff_team != 0, int32_wire(g.kickoff_team), c6, r7, l);
    }
    assert(merge_fields(f, m6, r7, l) == merge_fields(f, m7, r8, l)) by {
        reveal(game_state_field);
        lemma_read_varint_field(g.active_ticks, r8);
        lemma_opt_varint_step(f, m6, m7, 7, g.active_ticks != 0, g.active_ticks, c7, r8, l);
    }
    assert(merge_fields(f, m7, r8, l) == merge_fields(f, m8, r9, l)) by {
        reveal(game_state_field);
        lemma_read_varint_field(int32_wire(g.countdown_ticks), r9);
        lemma_int32_wire(g.countdown_ticks);
        lemma_opt_varint_step(f, m7, m8, 8, g.countdown_ticks != 0, int32_wire(g.countdown_ticks), c8, r9, l);
    }
    assert(merge_fields(f, m8, r9, l) == merge_fields(f, g, rest, l)) by {
        reveal(game_state_field);
        lemma_read_varint_field(int32_wire(g.phase_code), rest);
        lemma_int32_wire(g.phase_code);
        lemma_opt_varint_step(f, m8, g, 9, g.phase_code != 0, int32_wire(g.phase_code), c9, rest, l);
    }
    lemma_merge_end(f, g, rest);
}

pub open spec fn opt_vec2_no_negative_zero(o: Option<Vec2>) -> bool {
    match o {
        Some(v) => vec2_no_negative_zero(v),
        None => true,
    }
}

/// A vector embedded in a length-delimited field reads back as itself.
pub proof fn lemma_vec2_message(v: Vec2, rest: Seq<u8>)
    requires
        vec2_no_negative_zero(v),
    ensures
        vec2_message(vec2_default(), LENGTH_DELIMITED, varint_bytes(vec2_bytes(v).len()) + vec2_bytes(v) + rest)
            == Some((v, varint_bytes(vec2_bytes(v).len()).len() + vec2_bytes(v).len())),
        fits_u64(vec2_bytes(v).len()),
{
    assert(vec2_bytes(v).len() <= 100);
    lemma_read_message(vec2_fields(), vec2_default(), vec2_bytes(v), rest);
    lemma_vec2_round_trip(v, rest);
}

/// The body of an optional embedded vector; nothing when absent.
pub open spec fn opt_vec2_body(o: Option<Vec2>) -> Seq<u8> {
    match o {
        Some(v) => vec2_bytes(v),
        None => seq![],
    }
}

pub open spec fn opt_text_body(o: Option<Seq<char>>) -> Seq<u8> {
    match o {
        Some(t) => utf8(t),
        None => seq![],
    }
}

pub open spec fn player_no_negative_zero(p: PlayerStateView) -> bool {
    opt_vec2_no_negative_zero(p.position)
}

pub proof fn lemma_player_state_round_trip(p: PlayerStateView, rest: Seq<u8>)
    requires
        player_no_negative_zero(p),
        fits_u64(player_state_bytes(p).len()),
    ensures
        merge_fields(player_state_fields(), player_state_default(), player_state_bytes(p) + rest, rest.len())
            == Some(p),
{
    let f = player_state_fields();
    let c1 = uint32_field(1, p.id);
    let c2 = string_field(2, p.name);
    let c3 = int32_field(3, p.team);
    let c4 = bool_field(4, p.admin);
    let c5 = int32_field(5, p.player_number);
    let c6 = bool_field(6, p.activity);
    let c7 = opt_vec2_field(7, p.position);
    let c8 = opt_uint32_field(8, p.disc_index);
    let c9 = opt_string_field(9, p.avatar);
    let c10 = uint32_field(10, p.input);
    let r10 = c10 + rest;
    let r9 = c9 + r10;
    let r8 = c8 + r9;
    let r7 = c7 + r8;
    let r6 = c6 + r7;
    let r5 = c5 + r6;
    let r4 = c4 + r5;
    let r3 = c3 + r4;
    let r2 = c2 + r3;
    assert(player_state_bytes(p) + rest == c1 + r2) by {
        let s1 = c1 + c2;
        let s2 = s1 + c3;
        let s3 = s2 + c4;
        let s4 = s3 + c5;
        let s5 = s4 + c6;
        let s6 = s5 + c7;
        let s7 = s6 + c8;
        let s8 = s7 + c9;
        assert(player_state_bytes(p) == s8 + c10);
        lemma_regroup(s8, c10, rest);
        lemma_regroup(s7, c9, r10);
        lemma_regroup(s6, c8, r9);
        lemma_regroup(s5, c7, r8);
        lemma_regroup(s4, c6, r7);
        lemma_regroup(s3, c5, r6);
        lemma_regroup(s2, c4, r5);
        lemma_regroup(s1, c3, r4);
        lemma_regroup(c1, c2, r3);
    }
    let l = rest.len();
    let m0 = player_state_default();
    let m1 = PlayerStateView { id: p.id, ..m0 };
    let m2 = PlayerStateView { name: p.name, ..m1 };
    let m3 = PlayerStateView { team: p.team, ..m2 };
    let m4 = PlayerStateView { admin: p.admin, ..m3 };
    let m5 = PlayerStateView { player_number: p.player_number, ..m4 };
    let m6 = PlayerStateView { activity: p.activity, ..m5 };
    let m7 = PlayerStateView { position: p.position, ..m6 };
    let m8 = PlayerStateView { disc_index: p.disc_index, ..m7 };
    let m9 = PlayerStateView { avatar: p.avatar, ..m8 };
    assert(m9.input == 0);
    assert(merge_fields(f, m0, c1 + r2, l) == merge_fields(f, m1, r2, l)) by {
        reveal(player_state_field);
        lemma_read_varint_field(p.id as u64, r2);
        lemma_opt_varint_step(f, m0, m1, 1, p.id != 0, p.id as u64, c1, r2, l);
    }
    assert(merge_fields(f, m1, r2, l) == merge_fields(f, m2, r3, l)) by {
        reveal(player_state_field);
        if p.name.len() != 0 {
            lemma_read_string(p.name, r3);
        } else {
            assert(p.name =~= m1.name);
        }
        lemma_opt_delimited_step(f, m1, m2, 2, p.name.len() != 0, utf8(p.name), c2, r3, l);
    }
    assert(merge_fields(f, m2, r3, l) == merge_fields(f, m3, r4, l)) by {
        reveal(player_state_field);
        lemma_read_varint_field(int32_wire(p.team), r4);
        lemma_int32_wire(p.team);
        lemma_opt_varint_step(f, m2, m3, 3, p.team != 0, int32_wire(p.team), c3, r4, l);
    }
    assert(merge_fields(f, m3, r4, l) == merge_fields(f, m4, r5, l)) by {
        reveal(player_state_field);
        lemma_read_varint_field(bool_wire(p.admin), r5);
        lemma_opt_varint_step(f, m3, m4, 4, p.admin, bool_wire(p.admin), c4, r5, l);
    }
    assert(merge_fields(f, m4, r5, l) == merge_fields(f, m5, r6, l)) by {
        reveal(player_state_field);
        lemma_read_varint_field(int32_wire(p.player_number), r6);
        lemma_int32_wire(p.player_number);
        lemma_opt_varint_step(f, m4, m5, 5, p.player_number != 0, int32_wire(p.player_number), c5, r6, l);
    }
    assert(merge_fields(f, m5, r6, l) == merge_fields(f, m6, r7, l)) by {
        reveal(player_state_field);
        lemma_read_varint_field(bool_wire(p.activity), r7);
        lemma_opt_varint_step(f, m5, m6, 6, p.activity, bool_wire(p.activity), c6, r7, l);
    }
    assert(merge_fields(f, m6, r7, l) == merge_fields(f, m7, r8, l)) by {
        reveal(player_state_field);
        if let Some(v) = p.position {
            lemma_vec2_message(v, r8);
        }
        lemma_opt_delimited_step(f, m6, m7, 7, p.position is Some, opt_vec2_body(p.position), c7, r8, l);
    }
    assert(merge_fields(f, m7, r8, l) == merge_fields(f, m8, r9, l)) by {
        reveal(player_state_field);
        let w: u64 = match p.disc_index {
            Some(i) => i as u64,
            None => 0,
        };
        lemma_read_varint_field(w, r9);
        lemma_opt_varint_step(f, m7, m8, 8, p.disc_index is Some, w, c8, r9, l);
    }
    assert(merge_fields(f, m8, r9, l) == merge_fields(f, m9, r10, l)) by {
        reveal(player_state_field);
        if let Some(t) = p.avatar {
            lemma_read_string(t, r10);
        }
        lemma_opt_delimited_step(f, m8, m9, 9, p.avatar is Some, opt_text_body(p.avatar), c9, r10, l);
    }
    assert(merge_fields(f, m9, r10, l) == merge_fields(f, p, rest, l)) by {
        reveal(player_state_field);
        lemma_read_varint_field(p.input as u64, rest);
        assert(p =~= PlayerStateView { input: p.input, ..m9 });
        lemma_opt_varint_step(f, m9, p, 10, p.input != 0, p.input as u64, c10, rest, l);
    }
    lemma_merge_end(f, p, rest);
}

pub open spec fn disc_no_negative_zero(d: DiscState) -> bool {
    &&& opt_vec2_no_negative_zero(d.position)
    &&& opt_vec2_no_negative_zero(d.speed)
    &&& opt_vec2_no_negative_zero(d.gravity)
    &&& !is_negative_zero(d.radius)
    &&& !is_negative_zero(d.bounce)
    &&& !is_negative_zero(d.inverse_mass)
    &&& !is_negative_zero(d.damping)
}

pub proof fn lemma_disc_state_round_trip(d: DiscState, rest: Seq<u8>)
    requires
        disc_no_negative_zero(d),
    ensures
        merge_fields(disc_state_fields(), disc_state_default(), disc_state_bytes(d) + rest, rest.len())
            == Some(d),
{
    let f = disc_state_fields();
    let c1 = uint32_field(1, d.index);
    let c2 = opt_vec2_field(2, d.position);
    let c3 = opt_vec2_field(3, d.speed);
    let c4 = opt_vec2_field(4, d.gravity);
    let c5 = double_field(5, d.radius);
    let c6 = double_field(6, d.bounce);
    let c7 = double_field(7, d.inverse_mass);
    let c8 = double_field(8, d.damping);
    let c9 = int32_field(9, d.color);
    let c10 = int32_field(10, d.collision_mask);
    let c11 = int32_field(11, d.collision_group);
    let r11 = c11 + rest;
    let r10 = c10 + r11;
    let r9 = c9 + r10;
    let r8 = c8 + r9;
    let r7 = c7 + r8;
    let r6 = c6 + r7;
    let r5 = c5 + r6;
    let r4 = c4 + r5;
    let r3 = c3 + r4;
    let r2 = c2 + r3;
    assert(disc_state_bytes(d) + rest == c1 + r2) by {
        let s1 = c1 + c2;
        let s2 = s1 + c3;
        let s3 = s2 + c4;
        let s4 = s3 + c5;
        let s5 = s4 + c6;
        let s6 = s5 + c7;
        let s7 = s6 + c8;
        let s8 = s7 + c9;
        let s9 = s8 + c10;
        assert(disc_state_bytes(d) == s9 + c11);
        lemma_regroup(s9, c11, rest);
        lemma_regroup(s8, c10, r11);
        lemma_regroup(s7, c9, r10);
        lemma_regroup(s6, c8, r9);
        lemma_regroup(s5, c7, r8);
        lemma_regroup(s4, c6, r7);
        lemma_regroup(s3, c5, r6);
        lemma_regroup(s2, c4, r5);
        lemma_regroup(s1, c3, r4);
        lemma_regroup(c1, c2, r3);
    }
    let l = rest.len();
    let m0 = disc_state_default();
    let m1 = DiscState { index: d.index, ..m0 };
    let m2 = DiscState { position: d.position, ..m1 };
    let m3 = DiscState { speed: d.speed, ..m2 };
    let m4 = DiscState { gravity: d.gravity, ..m3 };
    let m5 = DiscState { radius: d.radius, ..m4 };
    let m6 = DiscState { bounce: d.bounce, ..m5 };
    let m7 = DiscState { inverse_mass: d.inverse_mass, ..m6 };
    let m8 = DiscState { damping: d.damping, ..m7 };
    let m9 = DiscState { color: d.color, ..m8 };
    let m10 = DiscState { collision_mask: d.collision_mask, ..m9 };
    assert(merge_fields(f, m0, c1 + r2, l) == merge_fields(f, m1, r2, l)) by {
        reveal(disc_state_field);
        lemma_read_varint_field(d.index as u64, r2);
        lemma_opt_varint_step(f, m0, m1, 1, d.index != 0, d.index as u64, c1, r2, l);
    }
    assert(merge_fields(f, m1, r2, l) == merge_fields(f, m2, r3, l)) by {
        reveal(disc_state_field);
        if let Some(v) = d.position {
            lemma_vec2_message(v, r3);
        }
        lemma_opt_delimited_step(f, m1, m2, 2, d.position is Some, opt_vec2_body(d.position), c2, r3, l);
    }
    assert(merge_fields(f, m2, r3, l) == merge_fields(f, m3, r4, l)) by {
        reveal(disc_state_field);
        if let Some(v) = d.speed {
            lemma_vec2_message(v, r4);
        }
        lemma_opt_delimited_step(f, m2, m3, 3, d.speed is Some, opt_vec2_body(d.speed), c3, r4, l);
    }
    assert(merge_fields(f, m3, r4, l) == merge_fields(f, m4, r5, l)) by {
        reveal(disc_state_field);
        if let Some(v) = d.gravity {
            lemma_vec2_message(v, r5);
        }
        lemma_opt_delimited_step(f, m3, m4, 4, d.gravity is Some, opt_vec2_body(d.gravity), c4, r5, l);
    }
    assert(merge_fields(f, m4, r5, l) == merge_fields(f, m5, r6, l)) by {
        reveal(disc_state_field);
        lemma_le(d.radius, r6);
        lemma_double_step(f, m4, m5, 5, d.radius, r6, l);
    }
    assert(merge_fields(f, m5, r6, l) == merge_fields(f, m6, r7, l)) by {
        reveal(disc_state_field);
        lemma_le(d.bounce, r7);
        lemma_double_step(f, m5, m6, 6, d.bounce, r7, l);
    }
    assert(merge_fields(f, m6, r7, l) == merge_fields(f, m7, r8, l)) by {
        reveal(disc_state_field);
        lemma_le(d.inverse_mass, r8);
        lemma_double_step(f, m6, m7, 7, d.inverse_mass, r8, l);
    }
    assert(merge_fields(f, m7, r8, l) == merge_fields(f, m8, r9, l)) by {
        reveal(disc_state_field);
        lemma_le(d.damping, r9);
        lemma_double_step(f, m7, m8, 8, d.damping, r9, l);
    }
    assert(merge_fields(f, m8, r9, l) == merge_fields(f, m9, r10, l)) by {
        reveal(disc_state_field);
        lemma_read_varint_field(int32_wire(d.color), r10);
        lemma_int32_wire(d.color);
        lemma_opt_varint_step(f, m8, m9, 9, d.color != 0, int32_wire(d.color), c9, r10, l);
    }
    assert(merge_fields(f, m9, r10, l) == merge_fields(f, m10, r11, l)) by {
        reveal(disc_state_field);
        lemma_read_varint_field(int32_wire(d.collision_mask), r11);
        lemma_int32_wire(d.collision_mask);
        lemma_opt_varint_step(f, m9, m10, 10, d.collision_mask != 0, int32_wire(d.collision_mask), c10, r11, l);
    }
    assert(merge_fields(f, m10, r11, l) == merge_fields(f, d, rest, l)) by {
        reveal(disc_state_field);
        lemma_read_varint_field(int32_wire(d.collision_group), rest);
        lemma_int32_wire(d.collision_group);
        lemma_opt_varint_step(f, m10, d, 11, d.collision_group != 0, int32_wire(d.collision_group), c11, rest, l);
    }
    lemma_merge_end(f, d, rest);
}

/// The bytes of the message embedded in a length-delimited field read back
/// as the message.
pub proof fn lemma_team_colors_message(x: TeamColorsView, rest: Seq<u8>)
    requires
        fits_u64(team_colors_bytes(x).len()),
    ensures
        team_colors_message(team_colors_default(), LENGTH_DELIMITED, varint_bytes(team_colors_bytes(x).len()) + team_colors_bytes(x) + rest)
            == Some((x, varint_bytes(team_colors_bytes(x).len()).len() + team_colors_bytes(x).len())),
{
    lemma_read_message(team_colors_fields(), team_colors_default(), team_colors_bytes(x), rest);
    lemma_team_colors_round_trip(x, rest);
}

/// The bytes of the message embedded in a length-delimited field read back
/// as the message.
pub proof fn lemma_game_state_message(x: GameState, rest: Seq<u8>)
    requires
        !is_negative_zero(x.elapsed_seconds),
        fits_u64(game_state_bytes(x).len()),
    ensures
        game_state_message(game_state_default(), LENGTH_DELIMITED, varint_bytes(game_state_bytes(x).len()) + game_state_bytes(x) + rest)
            == Some((x, varint_bytes(game_state_bytes(x).len()).len() + game_state_bytes(x).len())),
{
    lemma_read_message(game_state_fields(), game_state_default(), game_state_bytes(x), rest);
    lemma_game_state_round_trip(x, rest);
}

/// The bytes of the message embedded in a length-delimited field read back
/// as the message.
pub proof fn lemma_player_state_message(x: PlayerStateView, rest: Seq<u8>)
    requires
        player_no_negative_zero(x),
        fits_u64(player_state_bytes(x).len()),
    ensures
        player_state_message(player_state_default(), LENGTH_DELIMITED, varint_bytes(player_state_bytes(x).len()) + player_state_bytes(x) + rest)
            == Some((x, varint_bytes(player_state_bytes(x).len()).len() + player_state_bytes(x).len())),
{
    lemma_read_message(player_state_fields(), player_state_default(), player_state_bytes(x), rest);
    lemma_player_state_round_trip(x, rest);
}

/// The bytes of the message embedded in a length-delimited field read back
/// as the message.
pub proof fn lemma_disc_state_message(x: DiscState, rest: Seq<u8>)
    requires
        disc_no_negative_zero(x),
        fits_u64(disc_state_bytes(x).len()),
    ensures
        disc_state_message(disc_state_default(), LENGTH_DELIMITED, varint_bytes(disc_state_bytes(x).len()) + disc_state_bytes(x) + rest)
            == Some((x, varint_bytes(disc_state_bytes(x).len()).len() + disc_state_bytes(x).len())),
{
    lemma_read_message(disc_state_fields(), disc_state_default(), disc_state_bytes(x), rest);
    lemma_disc_state_round_trip(x, rest);
}

pub open spec fn game_no_negative_zero(o: Option<GameState>) -> bool {
    match o {
        Some(g) => !is_negative_zero(g.elapsed_seconds),
        None => true,
    }
}

pub open spec fn state_no_negative_zero(d: DynamicStateView) -> bool {
    &&& game_no_negative_zero(d.game)
    &&& forall|i: int| 0 <= i < d.players.len() ==> player_no_negative_zero(#[trigger] d.players[i])
    &&& forall|i: int| 0 <= i < d.discs.len() ==> disc_no_negative_zero(#[trigger] d.discs[i])
}

proof fn lemma_players_read(m: DynamicStateView, ps: Seq<PlayerStateView>, rest: Seq<u8>, l: nat)
    requires
        l <= rest.len(),
        forall|i: int| 0 <= i < ps.len() ==> player_no_negative_zero(#[trigger] ps[i]),
        fits_u64(players_bytes(ps).len()),
    ensures
        merge_fields(dynamic_state_fields(), m, players_bytes(ps) + rest, l) == merge_fields(
            dynamic_state_fields(),
            DynamicStateView { players: m.players + ps, ..m },
            rest,
            l,
        ),
    decreases ps.len(),
{
    let f = dynamic_state_fields();
    if ps.len() == 0 {
        assert(players_bytes(ps) + rest =~= rest);
        assert(m =~= DynamicStateView { players: m.players + ps, ..m });
    } else {
        let init = ps.drop_last();
        let last = ps.last();
        let body = player_state_bytes(last);
        let c = delimited_field(2, body);
        assert(players_bytes(ps) == players_bytes(init) + c);
        lemma_regroup(players_bytes(init), c, rest);
        assert forall|i: int| 0 <= i < init.len() implies player_no_negative_zero(#[trigger] init[i]) by {
            assert(init[i] == ps[i]);
        }
        lemma_players_read(m, init, c + rest, l);
        let m1 = DynamicStateView { players: m.players + init, ..m };
        let m2 = DynamicStateView { players: m.players + ps, ..m };
        assert(player_no_negative_zero(ps[ps.len() - 1]));
        assert(m1.players.push(last) =~= m.players + ps);
        assert(merge_fields(f, m1, c + rest, l) == merge_fields(f, m2, rest, l)) by {
            reveal(dynamic_state_field);
            lemma_player_state_message(last, rest);
            lemma_delimited_step(f, m1, m2, 2, body, rest, l);
        }
    }
}

proof fn lemma_discs_read(m: DynamicStateView, ds: Seq<DiscState>, rest: Seq<u8>, l: nat)
    requires
        l <= rest.len(),
        forall|i: int| 0 <= i < ds.len() ==> disc_no_negative_zero(#[trigger] ds[i]),
        fits_u64(discs_bytes(ds).len()),
    ensures
        merge_fields(dynamic_state_fields(), m, discs_bytes(ds) + rest, l) == merge_fields(
            dynamic_state_fields(),
            DynamicStateView { discs: m.discs + ds, ..m },
            rest,
            l,
        ),
    decreases ds.len(),
{
    let f = dynamic_state_fields();
    if ds.len() == 0 {
        assert(discs_bytes(ds) + rest =~= rest);
        assert(m =~= DynamicStateView { discs: m.discs + ds, ..m });
    } else {
        let init = ds.drop_last();
        let last = ds.last();
        let body = disc_state_bytes(last);
        let c = delimited_field(3, body);
        assert(discs_bytes(ds) == discs_bytes(init) + c);
        lemma_regroup(discs_bytes(init), c, rest);
        assert forall|i: int| 0 <= i < init.len() implies disc_no_negative_zero(#[trigger] init[i]) by {
            assert(init[i] == ds[i]);
        }
        lemma_discs_read(m, init, c + rest, l);
        let m1 = DynamicStateView { discs: m.discs + init, ..m };
        let m2 = DynamicStateView { discs: m.discs + ds, ..m };
        assert(disc_no_negative_zero(ds[ds.len() - 1]));
        assert(m1.discs.push(last) =~= m.discs + ds);
        assert(merge_fields(f, m1, c + rest, l) == merge_fields(f, m2, rest, l)) by {
            reveal(dynamic_state_field);
            lemma_disc_state_message(last, rest);
            lemma_delimited_step(f, m1, m2, 3, body, rest, l);
        }
    }
}

pub open spec fn opt_game_body(o: Option<GameState>) -> Seq<u8> {
    match o {
        Some(g) => game_state_bytes(g),
        None => seq![],
    }
}

pub proof fn lemma_dynamic_state_round_trip(x: DynamicStateView, rest: Seq<u8>)
    requires
        state_no_negative_zero(x),
        fits_u64(dynamic_state_bytes(x).len()),
    ensures
        merge_fields(dynamic_state_fields(), dynamic_state_default(), dynamic_state_bytes(x) + rest, rest.len())
            == Some(x),
{
    let f = dynamic_state_fields();
    let c1 = opt_game_field(1, x.game);
    let c2 = players_bytes(x.players);
    let c3 = discs_bytes(x.discs);
    let r3 = c3 + rest;
    let r2 = c2 + r3;
    assert(dynamic_state_bytes(x) + rest == c1 + r2) by {
        lemma_regroup(c1 + c2, c3, rest);
        lemma_regroup(c1, c2, r3);
    }
    let l = rest.len();
    let m0 = dynamic_state_default();
    let m1 = DynamicStateView { game: x.game, ..m0 };
    let m2 = DynamicStateView { players: m1.players + x.players, ..m1 };
    let m3 = DynamicStateView { discs: m2.discs + x.discs, ..m2 };
    assert(merge_fields(f, m0, c1 + r2, l) == merge_fields(f, m1, r2, l)) by {
        reveal(dynamic_state_field);
        if let Some(g) = x.game {
            lemma_game_state_message(g, r2);
        }
        lemma_opt_delimited_step(f, m0, m1, 1, x.game is Some, opt_game_body(x.game), c1, r2, l);
    }
    lemma_players_read(m1, x.players, r3, l);
    lemma_discs_read(m2, x.discs, rest, l);
    assert(m3 =~= x);
    lemma_merge_end(f, x, rest);
}

/// The bytes of the message embedded in a length-delimited field read back
/// as the message.
pub proof fn lemma_dynamic_state_message(x: DynamicStateView, rest: Seq<u8>)
    requires
        state_no_negative_zero(x),
        fits_u64(dynamic_state_bytes(x).len()),
    ensures
        dynamic_state_message(dynamic_state_default(), LENGTH_DELIMITED, varint_bytes(dynamic_state_bytes(x).len()) + dynamic_state_bytes(x) + rest)
            == Some((x, varint_bytes(dynamic_state_bytes(x).len()).len() + dynamic_state_bytes(x).len())),
{
    lemma_read_message(dynamic_state_fields(), dynamic_state_default(), dynamic_state_bytes(x), rest);
    lemma_dynamic_state_round_trip(x, rest);
}

pub open spec fn opt_state_no_negative_zero(o: Option<DynamicStateView>) -> bool {
    match o {
        Some(d) => state_no_negative_zero(d),
        None => true,
    }
}

pub open spec fn opt_team_colors_body(o: Option<TeamColorsView>) -> Seq<u8> {
    match o {
        Some(c) => team_colors_bytes(c),
        None => seq![],
    }
}

pub open spec fn opt_state_body(o: Option<DynamicStateView>) -> Seq<u8> {
    match o {
        Some(d) => dynamic_state_bytes(d),
        None => seq![],
    }
}

proof fn lemma_checkpoint_first_fields(x: CheckpointView, rest: Seq<u8>)
    requires
        opt_state_no_negative_zero(x.dynamic),
        fits_u64(checkpoint_bytes(x).len()),
    ensures
        ({
            let c7 = opt_team_colors_field(7, x.red_team_colors);
            let c8 = opt_team_colors_field(8, x.blue_team_colors);
            let c9 = opt_state_field(9, x.dynamic);
            let c10 = bytes_field(10, x.initial_replay);
            let r7 = c7 + (c8 + (c9 + (c10 + rest)));
            let m6 = CheckpointView {
                room_name: x.room_name,
                max_players: x.max_players,
                stadium_json: x.stadium_json,
                score_limit: x.score_limit,
                time_limit_seconds: x.time_limit_seconds,
                teams_locked: x.teams_locked,
                ..checkpoint_default()
            };
            merge_fields(checkpoint_fields(), checkpoint_default(), string_field(1, x.room_name) + (
            uint32_field(2, x.max_players) + (string_field(3, x.stadium_json) + (uint32_field(
                4,
                x.score_limit,
            ) + (uint32_field(5, x.time_limit_seconds) + (bool_field(6, x.teams_locked) + r7))))),
            rest.len()) == merge_fields(checkpoint_fields(), m6, r7, rest.len())
        }),
{
    let f = checkpoint_fields();
    let c1 = string_field(1, x.room_name);
    let c2 = uint32_field(2, x.max_players);
    let c3 = string_field(3, x.stadium_json);
    let c4 = uint32_field(4, x.score_limit);
    let c5 = uint32_field(5, x.time_limit_seconds);
    let c6 = bool_field(6, x.teams_locked);
    let c7 = opt_team_colors_field(7, x.red_team_colors);
    let c8 = opt_team_colors_field(8, x.blue_team_colors);
    let c9 = opt_state_field(9, x.dynamic);
    let c10 = bytes_field(10, x.initial_replay);
    let r10 = c10 + rest;
    let r9 = c9 + r10;
    let r8 = c8 + r9;
    let r7 = c7 + r8;
    let r6 = c6 + r7;
    let r5 = c5 + r6;
    let r4 = c4 + r5;
    let r3 = c3 + r4;
    let r2 = c2 + r3;
    let l = rest.len();
    let m0 = checkpoint_default();
    let m1 = CheckpointView { room_name: x.room_name, ..m0 };
    let m2 = CheckpointView { max_players: x.max_players, ..m1 };
    let m3 = CheckpointView { stadium_json: x.stadium_json, ..m2 };
    let m4 = CheckpointView { score_limit: x.score_limit, ..m3 };
    let m5 = CheckpointView { time_limit_seconds: x.time_limit_seconds, ..m4 };
    let m6 = CheckpointView { teams_locked: x.teams_locked, ..m5 };
    let m7 = CheckpointView { red_team_colors: x.red_team_colors, ..m6 };
    let m8 = CheckpointView { blue_team_colors: x.blue_team_colors, ..m7 };
    let m9 = CheckpointView { dynamic: x.dynamic, ..m8 };
    assert(merge_fields(f, m0, c1 + r2, l) == merge_fields(f, m1, r2, l)) by {
        reveal(checkpoint_field);
        if x.room_name.len() != 0 {
            lemma_read_string(x.room_name, r2);
        } else {
            assert(x.room_name =~= m0.room_name);
        }
        lemma_opt_delimited_step(f, m0, m1, 1, x.room_name.len() != 0, utf8(x.room_name), c1, r2, l);
    }
    assert(merge_fields(f, m1, r2, l) == merge_fields(f, m2, r3, l)) by {
        reveal(checkpoint_field);
        lemma_read_varint_field(x.max_players as u64, r3);
        lemma_opt_varint_step(f, m1, m2, 2, x.max_players != 0, x.max_players as u64, c2, r3, l);
    }
    assert(merge_fields(f, m2, r3, l) == merge_fields(f, m3, r4, l)) by {
        reveal(checkpoint_field);
        if x.stadium_json.len() != 0 {
            lemma_read_string(x.stadium_json, r4);
        } else {
            assert(x.stadium_json =~= m2.stadium_json);
        }
        lemma_opt_delimited_step(f, m2, m3, 3, x.stadium_json.len() != 0, utf8(x.stadium_json), c3, r4, l);
    }
    assert(merge_fields(f, m3, r4, l) == merge_fields(f, m4, r5, l)) by {
        reveal(checkpoint_field);
        lemma_read_varint_field(x.score_limit as u64, r5);
        lemma_opt_varint_step(f, m3, m4, 4, x.score_limit != 0, x.score_limit as u64, c4, r5, l);
    }
    assert(merge_fields(f, m4, r5, l) == merge_fields(f, m5, r6, l)) by {
        reveal(checkpoint_field);
        lemma_read_varint_field(x.time_limit_seconds as u64, r6);
        lemma_opt_varint_step(f, m4, m5, 5, x.time_limit_seconds != 0, x.time_limit_seconds as u64, c5, r6, l);
    }
    assert(merge_fields(f, m5, r6, l) == merge_fields(f, m6, r7, l)) by {
        reveal(checkpoint_field);
        lemma_read_varint_field(bool_wire(x.teams_locked), r7);
        lemma_opt_varint_step(f, m5, m6, 6, x.teams_locked, bool_wire(x.teams_locked), c6, r7, l);
    }
    assert(m6 == CheckpointView {
        room_name: x.room_name,
        max_players: x.max_players,
        stadium_json: x.stadium_json,
        score_limit: x.score_limit,
        time_limit_seconds: x.time_limit_seconds,
        teams_locked: x.teams_locked,
        ..checkpoint_default()
    });
}

proof fn lemma_checkpoint_red(m: CheckpointView, o: Option<TeamColorsView>, rest: Seq<u8>, l: nat)
    requires
        l <= rest.len(),
        m.red_team_colors is None,
        fits_u64(opt_team_colors_body(o).len()),
    ensures
        merge_fields(checkpoint_fields(), m, opt_team_colors_field(7, o) + rest, l) == merge_fields(
            checkpoint_fields(),
            CheckpointView { red_team_colors: o, ..m },
            rest,
            l,
        ),
{
    reveal(checkpoint_field);
    if let Some(c) = o {
        lemma_team_colors_message(c, rest);
    }
    lemma_opt_delimited_step(
        checkpoint_fields(),
        m,
        CheckpointView { red_team_colors: o, ..m },
        7,
        o is Some,
        opt_team_colors_body(o),
        opt_team_colors_field(7, o),
        rest,
        l,
    );
}

proof fn lemma_checkpoint_blue(m: CheckpointView, o: Option<TeamColorsView>, rest: Seq<u8>, l: nat)
    requires
        l <= rest.len(),
        m.blue_team_colors is None,
        fits_u64(opt_team_colors_body(o).len()),
    ensures
        merge_fields(checkpoint_fields(), m, opt_team_colors_field(8, o) + rest, l) == merge_fields(
            checkpoint_fields(),
            CheckpointView { blue_team_colors: o, ..m },
            rest,
            l,
        ),
{
    reveal(checkpoint_field);
    if let Some(c) = o {
        lemma_team_colors_message(c, rest);
    }
    lemma_opt_delimited_step(
        checkpoint_fields(),
        m,
        CheckpointView { blue_team_colors: o, ..m },
        8,
        o is Some,
        opt_team_colors_body(o),
        opt_team_colors_field(8, o),
        rest,
        l,
    );
}

proof fn lemma_checkpoint_dynamic(m: CheckpointView, o: Option<DynamicStateView>, rest: Seq<u8>, l: nat)
    requires
        l <= rest.len(),
        m.dynamic is None,
        opt_state_no_negative_zero(o),
        fits_u64(opt_state_body(o).len()),
    ensures
        merge_fields(checkpoint_fields(), m, opt_state_field(9, o) + rest, l) == merge_fields(
            checkpoint_fields(),
            CheckpointView { dynamic: o, ..m },
            rest,
            l,
        ),
{
    reveal(checkpoint_field);
    if let Some(d) = o {
        lemma_dynamic_state_message(d, rest);
    }
    lemma_opt_delimited_step(
        checkpoint_fields(),
        m,
        CheckpointView { dynamic: o, ..m },
        9,
        o is Some,
        opt_state_body(o),
        opt_state_field(9, o),
        rest,
        l,
    );
}

proof fn lemma_checkpoint_replay(m: CheckpointView, b: Seq<u8>, rest: Seq<u8>, l: nat)
    requires
        l <= rest.len(),
        m.initial_replay.len() == 0,
        fits_u64(b.len()),
    ensures
        merge_fields(checkpoint_fields(), m, bytes_field(10, b) + rest, l) == merge_fields(
            checkpoint_fields(),
            CheckpointView { initial_replay: b, ..m },
            rest,
            l,
        ),
{
    reveal(checkpoint_field);
    if b.len() != 0 {
        lemma_read_delimited(b, rest);
    } else {
        assert(m =~= CheckpointView { initial_replay: b, ..m });
    }
    lemma_opt_delimited_step(
        checkpoint_fields(),
        m,
        CheckpointView { initial_replay: b, ..m },
        10,
        b.len() != 0,
        b,
        bytes_field(10, b),
        rest,
        l,
    );
}

proof fn lemma_checkpoint_last_fields(x: CheckpointView, rest: Seq<u8>)
    requires
        opt_state_no_negative_zero(x.dynamic),
        fits_u64(checkpoint_bytes(x).len()),
    ensures
        ({
            let c7 = opt_team_colors_field(7, x.red_team_colors);
            let c8 = opt_team_colors_field(8, x.blue_team_colors);
            let c9 = opt_state_field(9, x.dynamic);
            let c10 = bytes_field(10, x.initial_replay);
            let m6 = CheckpointView {
                room_name: x.room_name,
                max_players: x.max_players,
                stadium_json: x.stadium_json,
                score_limit: x.score_limit,
                time_limit_seconds: x.time_limit_seconds,
                teams_locked: x.teams_locked,
                ..checkpoint_default()
            };
            merge_fields(checkpoint_fields(), m6, c7 + (c8 + (c9 + (c10 + rest))), rest.len())
                == merge_fields(checkpoint_fields(), x, rest, rest.len())
        }),
{
    let c7 = opt_team_colors_field(7, x.red_team_colors);
    let c8 = opt_team_colors_field(8, x.blue_team_colors);
    let c9 = opt_state_field(9, x.dynamic);
    let c10 = bytes_field(10, x.initial_replay);
    let l = rest.len();
    let m6 = CheckpointView {
        room_name: x.room_name,
        max_players: x.max_players,
        stadium_json: x.stadium_json,
        score_limit: x.score_limit,
        time_limit_seconds: x.time_limit_seconds,
        teams_locked: x.teams_locked,
        ..checkpoint_default()
    };
    let m7 = CheckpointView { red_team_colors: x.red_team_colors, ..m6 };
    let m8 = CheckpointView { blue_team_colors: x.blue_team_colors, ..m7 };
    let m9 = CheckpointView { dynamic: x.dynamic, ..m8 };
    assert(checkpoint_bytes(x).len() >= c7.len() + c8.len() + c9.len() + c10.len());
    assert(c7.len() >= opt_team_colors_body(x.red_team_colors).len());
    assert(c8.len() >= opt_team_colors_body(x.blue_team_colors).len());
    assert(c9.len() >= opt_state_body(x.dynamic).len());
    assert(c10.len() >= x.initial_replay.len());
    lemma_checkpoint_red(m6, x.red_team_colors, c8 + (c9 + (c10 + rest)), l);
    lemma_checkpoint_blue(m7, x.blue_team_colors, c9 + (c10 + rest), l);
    lemma_checkpoint_dynamic(m8, x.dynamic, c10 + rest, l);
    lemma_checkpoint_replay(m9, x.initial_replay, rest, l);
    assert(CheckpointView { initial_replay: x.initial_replay, ..m9 } =~= x);
}

pub proof fn lemma_checkpoint_round_trip(x: CheckpointView, rest: Seq<u8>)
    requires
        opt_state_no_negative_zero(x.dynamic),
        fits_u64(checkpoint_bytes(x).len()),
    ensures
        merge_fields(checkpoint_fields(), checkpoint_default(), checkpoint_bytes(x) + rest, rest.len())
            == Some(x),
{
    let f = checkpoint_fields();
    let c1 = string_field(1, x.room_name);
    let c2 = uint32_field(2, x.max_players);
    let c3 = string_field(3, x.stadium_json);
    let c4 = uint32_field(4, x.score_limit);
    let c5 = uint32_field(5, x.time_limit_seconds);
    let c6 = bool_field(6, x.teams_locked);
    let c7 = opt_team_colors_field(7, x.red_team_colors);
    let c8 = opt_team_colors_field(8, x.blue_team_colors);
    let c9 = opt_state_field(9, x.dynamic);
    let c10 = bytes_field(10, x.initial_replay);
    let r10 = c10 + rest;
    let r9 = c9 + r10;
    let r8 = c8 + r9;
    let r7 = c7 + r8;
    let r6 = c6 + r7;
    let r5 = c5 + r6;
    let r4 = c4 + r5;
    let r3 = c3 + r4;
    let r2 = c2 + r3;
    assert(checkpoint_bytes(x) + rest == c1 + r2) by {
        let s1 = c1 + c2;
        let s2 = s1 + c3;
        let s3 = s2 + c4;
        let s4 = s3 + c5;
        let s5 = s4 + c6;
        let s6 = s5 + c7;
        let s7 = s6 + c8;
        let s8 = s7 + c9;
        assert(checkpoint_bytes(x) == s8 + c10);
        lemma_regroup(s8, c10, rest);
        lemma_regroup(s7, c9, r10);
        lemma_regroup(s6, c8, r9);
        lemma_regroup(s5, c7, r8);
        lemma_regroup(s4, c6, r7);
        lemma_regroup(s3, c5, r6);
        lemma_regroup(s2, c4, r5);
        lemma_regroup(s1, c3, r4);
        lemma_regroup(c1, c2, r3);
    }
    lemma_checkpoint_first_fields(x, rest);
    lemma_checkpoint_last_fields(x, rest);
    lemma_merge_end(f, x, rest);
}

pub proof fn lemma_dynamic_frame_round_trip(x: DynamicFrameView, rest: Seq<u8>)
    requires
        opt_state_no_negative_zero(x.state),
        fits_u64(dynamic_frame_bytes(x).len()),
    ensures
        merge_fields(dynamic_frame_fields(), dynamic_frame_default(), dynamic_frame_bytes(x) + rest, rest.len())
            == Some(x),
{
    let f = dynamic_frame_fields();
    let c1 = uint64_field(1, x.checkpoint_sequence);
    let c2 = opt_state_field(2, x.state);
    let r2 = c2 + rest;
    lemma_regroup(c1, c2, rest);
    let l = rest.len();
    let m0 = dynamic_frame_default();
    let m1 = DynamicFrameView { checkpoint_sequence: x.checkpoint_sequence, ..m0 };
    assert(merge_fields(f, m0, c1 + r2, l) == merge_fields(f, m1, r2, l)) by {
        reveal(dynamic_frame_field);
        lemma_read_varint_field(x.checkpoint_sequence, r2);
        lemma_opt_varint_step(f, m0, m1, 1, x.checkpoint_sequence != 0, x.checkpoint_sequence, c1, r2, l);
    }
    assert(merge_fields(f, m1, r2, l) == merge_fields(f, x, rest, l)) by {
        reveal(dynamic_frame_field);
        if let Some(d) = x.state {
            lemma_dynamic_state_message(d, rest);
        }
        lemma_opt_delimited_step(f, m1, x, 2, x.state is Some, opt_state_body(x.state), c2, rest, l);
    }
    lemma_merge_end(f, x, rest);
}

/// The bytes of the message embedded in a length-delimited field read back
/// as the message.
pub proof fn lemma_checkpoint_message(x: CheckpointView, rest: Seq<u8>)
    requires
        opt_state_no_negative_zero(x.dynamic),
        fits_u64(checkpoint_bytes(x).len()),
    ensures
        checkpoint_message(checkpoint_default(), LENGTH_DELIMITED, varint_bytes(checkpoint_bytes(x).len()) + checkpoint_bytes(x) + rest)
            == Some((x, varint_bytes(checkpoint_bytes(x).len()).len() + checkpoint_bytes(x).len())),
{
    lemma_read_message(checkpoint_fields(), checkpoint_default(), checkpoint_bytes(x), rest);
    lemma_checkpoint_round_trip(x, rest);
}

/// The bytes of the message embedded in a length-delimited field read back
/// as the message.
pub proof fn lemma_dynamic_frame_message(x: DynamicFrameView, rest: Seq<u8>)
    requires
        opt_state_no_negative_zero(x.state),
        fits_u64(dynamic_frame_bytes(x).len()),
    ensures
        dynamic_frame_message(dynamic_frame_default(), LENGTH_DELIMITED, varint_bytes(dynamic_frame_bytes(x).len()) + dynamic_frame_bytes(x) + rest)
            == Some((x, varint_bytes(dynamic_frame_bytes(x).len()).len() + dynamic_frame_bytes(x).len())),
{
    lemma_read_message(dynamic_frame_fields(), dynamic_frame_default(), dynamic_frame_bytes(x), rest);
    lemma_dynamic_frame_round_trip(x, rest);
}

/// Whether no `double` in the envelope holds the bit pattern of negative
/// zero, the one value that the encoding does not keep apart from zero.
pub open spec fn envelope_no_negative_zero(e: EnvelopeView) -> bool {
    match e.payload {
        Some(PayloadView::Checkpoint(c)) => opt_state_no_negative_zero(c.dynamic),
        Some(PayloadView::Dynamic(d)) => opt_state_no_negative_zero(d.state),
        None => true,
    }
}

pub proof fn lemma_envelope_round_trip(x: EnvelopeView, rest: Seq<u8>)
    requires
        envelope_no_negative_zero(x),
        fits_u64(envelope_bytes(x).len()),
    ensures
        merge_fields(envelope_fields(), envelope_default(), envelope_bytes(x) + rest, rest.len())
            == Some(x),
{
    let f = envelope_fields();
    let ws = int32_wires(x.audio_cues);
    let c1 = uint32_field(1, x.protocol_version);
    let c2 = uint64_field(2, x.epoch);
    let c3 = uint64_field(3, x.sequence);
    let c4 = uint64_field(4, x.source_tick);
    let c5 = uint64_field(5, x.source_time_micros);
    let c6 = packed_field(6, ws);
    let c7 = payload_field(x.payload);
    let r7 = c7 + rest;
    let r6 = c6 + r7;
    let r5 = c5 + r6;
    let r4 = c4 + r5;
    let r3 = c3 + r4;
    let r2 = c2 + r3;
    assert(envelope_bytes(x) + rest == c1 + r2) by {
        let s1 = c1 + c2;
        let s2 = s1 + c3;
        let s3 = s2 + c4;
        let s4 = s3 + c5;
        let s5 = s4 + c6;
        assert(envelope_bytes(x) == s5 + c7);
        lemma_regroup(s5, c7, rest);
        lemma_regroup(s4, c6, r7);
        lemma_regroup(s3, c5, r6);
        lemma_regroup(s2, c4, r5);
        lemma_regroup(s1, c3, r4);
        lemma_regroup(c1, c2, r3);
    }
    let l = rest.len();
    let m0 = envelope_default();
    let m1 = EnvelopeView { protocol_version: x.protocol_version, ..m0 };
    let m2 = EnvelopeView { epoch: x.epoch, ..m1 };
    let m3 = EnvelopeView { sequence: x.sequence, ..m2 };
    let m4 = EnvelopeView { source_tick: x.source_tick, ..m3 };
    let m5 = EnvelopeView { source_time_micros: x.source_time_micros, ..m4 };
    let m6 = EnvelopeView { audio_cues: x.audio_cues, ..m5 };
    assert(merge_fields(f, m0, c1 + r2, l) == merge_fields(f, m1, r2, l)) by {
        reveal(envelope_field);
        lemma_read_varint_field(x.protocol_version as u64, r2);
        lemma_opt_varint_step(f, m0, m1, 1, x.protocol_version != 0, x.protocol_version as u64, c1, r2, l);
    }
    assert(merge_fields(f, m1, r2, l) == merge_fields(f, m2, r3, l)) by {
        reveal(envelope_field);
        lemma_read_varint_field(x.epoch, r3);
        lemma_opt_varint_step(f, m1, m2, 2, x.epoch != 0, x.epoch, c2, r3, l);
    }
    assert(merge_fields(f, m2, r3, l) == merge_fields(f, m3, r4, l)) by {
        reveal(envelope_field);
        lemma_read_varint_field(x.sequence, r4);
        lemma_opt_varint_step(f, m2, m3, 3, x.sequence != 0, x.sequence, c3, r4, l);
    }
    assert(merge_fields(f, m3, r4, l) == merge_fields(f, m4, r5, l)) by {
        reveal(envelope_field);
        lemma_read_varint_field(x.source_tick, r5);
        lemma_opt_varint_step(f, m3, m4, 4, x.source_tick != 0, x.source_tick, c4, r5, l);
    }
    assert(merge_fields(f, m4, r5, l) == merge_fields(f, m5, r6, l)) by {
        reveal(envelope_field);
        lemma_read_varint_field(x.source_time_micros, r6);
        lemma_opt_varint_step(f, m4, m5, 5, x.source_time_micros != 0, x.source_time_micros, c5, r6, l);
    }
    assert(merge_fields(f, m5, r6, l) == merge_fields(f, m6, r7, l)) by {
        reveal(envelope_field);
        if ws.len() > 0 {
            lemma_read_packed_field(ws, r7);
            assert forall|i: int| 0 <= i < x.audio_cues.len() implies (#[trigger] ws[i]) as i32
                == x.audio_cues[i] by {
                lemma_int32_wire(x.audio_cues[i]);
            }
            assert(m5.audio_cues + ws.map_values(|w: u64| w as i32) =~= x.audio_cues);
        } else {
            assert(x.audio_cues =~= m5.audio_cues);
        }
        lemma_opt_delimited_step(f, m5, m6, 6, ws.len() > 0, varints(ws), c6, r7, l);
    }
    assert(merge_fields(f, m6, r7, l) == merge_fields(f, x, rest, l)) by {
        reveal(envelope_field);
        match x.payload {
            Some(PayloadView::Checkpoint(c)) => {
                lemma_checkpoint_message(c, rest);
                lemma_delimited_step(f, m6, x, 10, checkpoint_bytes(c), rest, l);
            },
            Some(PayloadView::Dynamic(d)) => {
                lemma_dynamic_frame_message(d, rest);
                lemma_delimited_step(f, m6, x, 11, dynamic_frame_bytes(d), rest, l);
            },
            None => {
                assert(c7 + rest =~= rest);
                assert(m6 =~= x);
            },
        }
    }
    lemma_merge_end(f, x, rest);
}

// ----------------------------------------------------------------------------
// Negative zero: written as zero, so read back as zero
// ----------------------------------------------------------------------------

/// The bit pattern of a `double` with negative zero replaced by zero, which
/// is equal to it as an `f64`.
pub open spec fn zero_normal(bits: u64) -> u64 {
    if is_negative_zero(bits) {
        0
    } else {
        bits
    }
}

pub open spec fn vec2_normal(v: Vec2) -> Vec2 {
    Vec2 { x: zero_normal(v.x), y: zero_normal(v.y) }
}

pub open spec fn opt_vec2_normal(o: Option<Vec2>) -> Option<Vec2> {
    match o {
        Some(v) => Some(vec2_normal(v)),
        None => None,
    }
}

pub open spec fn game_normal(g: GameState) -> GameState {
    GameState { elapsed_seconds: zero_normal(g.elapsed_seconds), ..g }
}

pub open spec fn player_normal(p: PlayerStateView) -> PlayerStateView {
    PlayerStateView { position: opt_vec2_normal(p.position), ..p }
}

pub open spec fn disc_normal(d: DiscState) -> DiscState {
    DiscState {
        position: opt_vec2_normal(d.position),
        speed: opt_vec2_normal(d.speed),
        gravity: opt_vec2_normal(d.gravity),
        radius: zero_normal(d.radius),
        bounce: zero_normal(d.bounce),
        inverse_mass: zero_normal(d.inverse_mass),
        damping: zero_normal(d.damping),
        ..d
    }
}

pub open spec fn state_normal(s: DynamicStateView) -> DynamicStateView {
    DynamicStateView {
        game: match s.game {
            Some(g) => Some(game_normal(g)),
            None => None,
        },
        players: s.players.map_values(|p: PlayerStateView| player_normal(p)),
        discs: s.discs.map_values(|d: DiscState| disc_normal(d)),
    }
}

pub open spec fn opt_state_normal(o: Option<DynamicStateView>) -> Option<DynamicStateView> {
    match o {
        Some(s) => Some(state_normal(s)),
        None => None,
    }
}

pub open spec fn payload_normal(p: Option<PayloadView>) -> Option<PayloadView> {
    match p {
        Some(PayloadView::Checkpoint(c)) => Some(
            PayloadView::Checkpoint(CheckpointView { dynamic: opt_state_normal(c.dynamic), ..c }),
        ),
        Some(PayloadView::Dynamic(d)) => Some(
            PayloadView::Dynamic(DynamicFrameView { state: opt_state_normal(d.state), ..d }),
        ),
        None => None,
    }
}

/// The envelope with every negative-zero `double` replaced by zero: equal to
/// `e` when its doubles are compared as `f64`s.
pub open spec fn envelope_normal(e: EnvelopeView) -> EnvelopeView {
    EnvelopeView { payload: payload_normal(e.payload), ..e }
}

proof fn lemma_vec2_normal(v: Vec2)
    ensures
        vec2_bytes(vec2_normal(v)) == vec2_bytes(v),
        vec2_no_negative_zero(vec2_normal(v)),
        vec2_no_negative_zero(v) ==> vec2_normal(v) == v,
{
}

proof fn lemma_opt_vec2_normal(tag: u32, o: Option<Vec2>)
    ensures
        opt_vec2_field(tag, opt_vec2_normal(o)) == opt_vec2_field(tag, o),
        opt_vec2_no_negative_zero(opt_vec2_normal(o)),
        opt_vec2_no_negative_zero(o) ==> opt_vec2_normal(o) == o,
{
    if let Some(v) = o {
        lemma_vec2_normal(v);
    }
}

proof fn lemma_player_normal(p: PlayerStateView)
    ensures
        player_state_bytes(player_normal(p)) == player_state_bytes(p),
        player_no_negative_zero(player_normal(p)),
        player_no_negative_zero(p) ==> player_normal(p) == p,
{
    lemma_opt_vec2_normal(7, p.position);
}

proof fn lemma_disc_normal(d: DiscState)
    ensures
        disc_state_bytes(disc_normal(d)) == disc_state_bytes(d),
        disc_no_negative_zero(disc_normal(d)),
        disc_no_negative_zero(d) ==> disc_normal(d) == d,
{
    lemma_opt_vec2_normal(2, d.position);
    lemma_opt_vec2_normal(3, d.speed);
    lemma_opt_vec2_normal(4, d.gravity);
}

proof fn lemma_players_normal(ps: Seq<PlayerStateView>)
    ensures
        players_bytes(ps.map_values(|p: PlayerStateView| player_normal(p))) == players_bytes(ps),
    decreases ps.len(),
{
    let n = ps.map_values(|p: PlayerStateView| player_normal(p));
    if ps.len() > 0 {
        assert(n.drop_last() =~= ps.drop_last().map_values(|p: PlayerStateView| player_normal(p)));
        lemma_players_normal(ps.drop_last());
        lemma_player_normal(ps.last());
    }
}

proof fn lemma_discs_normal(ds: Seq<DiscState>)
    ensures
        discs_bytes(ds.map_values(|d: DiscState| disc_normal(d))) == discs_bytes(ds),
    decreases ds.len(),
{
    let n = ds.map_values(|d: DiscState| disc_normal(d));
    if ds.len() > 0 {
        assert(n.drop_last() =~= ds.drop_last().map_values(|d: DiscState| disc_normal(d)));
        lemma_discs_normal(ds.drop_last());
        lemma_disc_normal(ds.last());
    }
}

proof fn lemma_state_normal(s: DynamicStateView)
    ensures
        dynamic_state_bytes(state_normal(s)) == dynamic_state_bytes(s),
        state_no_negative_zero(state_normal(s)),
        state_no_negative_zero(s) ==> state_normal(s) == s,
        state_normal(s).players.len() == s.players.len(),
        state_normal(s).discs.len() == s.discs.len(),
{
    let n = state_normal(s);
    lemma_players_normal(s.players);
    lemma_discs_normal(s.discs);
    assert forall|i: int| 0 <= i < n.players.len() implies player_no_negative_zero(#[trigger] n.players[i]) by {
        lemma_player_normal(s.players[i]);
    }
    assert forall|i: int| 0 <= i < n.discs.len() implies disc_no_negative_zero(#[trigger] n.discs[i]) by {
        lemma_disc_normal(s.discs[i]);
    }
    if state_no_negative_zero(s) {
        assert forall|i: int| 0 <= i < s.players.len() implies n.players[i] == s.players[i] by {
            lemma_player_normal(s.players[i]);
        }
        assert forall|i: int| 0 <= i < s.discs.len() implies n.discs[i] == s.discs[i] by {
            lemma_disc_normal(s.discs[i]);
        }
        assert(n.players =~= s.players);
        assert(n.discs =~= s.discs);
        assert(n =~= s);
    }
}

proof fn lemma_opt_state_normal(tag: u32, o: Option<DynamicStateView>)
    ensures
        opt_state_field(tag, opt_state_normal(o)) == opt_state_field(tag, o),
        opt_state_no_negative_zero(opt_state_normal(o)),
        opt_state_no_negative_zero(o) ==> opt_state_normal(o) == o,
{
    if let Some(s) = o {
        lemma_state_normal(s);
    }
}

proof fn lemma_payload_normal(p: Option<PayloadView>)
    ensures
        payload_field(payload_normal(p)) == payload_field(p),
        p is None <==> payload_normal(p) is None,
        p matches Some(PayloadView::Checkpoint(c)) ==> payload_normal(p) matches Some(
            PayloadView::Checkpoint(c2),
        ) && c2.stadium_json == c.stadium_json && c2.initial_replay == c.initial_replay && (
        c.dynamic is None <==> c2.dynamic is None) && (c.dynamic matches Some(s) ==> c2.dynamic
            == Some(state_normal(s))),
        p matches Some(PayloadView::Dynamic(d)) ==> payload_normal(p) matches Some(
            PayloadView::Dynamic(d2),
        ) && (d.state is None <==> d2.state is None) && (d.state matches Some(s) ==> d2.state
            == Some(state_normal(s))),
        match payload_normal(p) {
            Some(PayloadView::Checkpoint(c)) => opt_state_no_negative_zero(c.dynamic),
            Some(PayloadView::Dynamic(d)) => opt_state_no_negative_zero(d.state),
            None => true,
        },
        (match p {
            Some(PayloadView::Checkpoint(c)) => opt_state_no_negative_zero(c.dynamic),
            Some(PayloadView::Dynamic(d)) => opt_state_no_negative_zero(d.state),
            None => true,
        }) ==> payload_normal(p) == p,
{
    match p {
        Some(PayloadView::Checkpoint(c)) => {
            lemma_opt_state_normal(9, c.dynamic);
            let c2 = CheckpointView { dynamic: opt_state_normal(c.dynamic), ..c };
            assert(checkpoint_bytes(c2) == checkpoint_bytes(c));
        },
        Some(PayloadView::Dynamic(d)) => {
            lemma_opt_state_normal(2, d.state);
            let d2 = DynamicFrameView { state: opt_state_normal(d.state), ..d };
            assert(dynamic_frame_bytes(d2) == dynamic_frame_bytes(d));
        },
        None => {},
    }
}

/// Replacing negative zero by zero changes neither the encoding of an
/// envelope nor whether it obeys the rules, and leaves no negative zero.
pub proof fn lemma_envelope_normal(e: EnvelopeView)
    ensures
        envelope_bytes(envelope_normal(e)) == envelope_bytes(e),
        envelope_check(envelope_normal(e)) == envelope_check(e),
        envelope_no_negative_zero(envelope_normal(e)),
        envelope_no_negative_zero(e) ==> envelope_normal(e) == e,
{
    let n = envelope_normal(e);
    lemma_payload_normal(e.payload);
    assert(envelope_bytes(n) == envelope_bytes(e));
    match e.payload {
        Some(PayloadView::Checkpoint(c)) => {
            if let Some(s) = c.dynamic {
                lemma_state_normal(s);
            }
        },
        Some(PayloadView::Dynamic(d)) => {
            if let Some(s) = d.state {
                lemma_state_normal(s);
            }
        },
        None => {},
    }
    assert(envelope_check(n) == envelope_check(e));
}

// ----------------------------------------------------------------------------
// The laws of the library
// ----------------------------------------------------------------------------

/// Reading back the encoding of an envelope gives the envelope: decoding
/// `encode_to_vec` yields the same message with every negative-zero
/// `double` read back as zero (its equal as an `f64`); an envelope with no
/// negative zero comes back exactly.
pub proof fn law_message_round_trip(e: EnvelopeView)
    requires
        fits_u64(envelope_bytes(e).len()),
    ensures
        envelope_decoding(envelope_bytes(e)) == Some(envelope_normal(e)),
        envelope_no_negative_zero(e) ==> envelope_decoding(envelope_bytes(e)) == Some(e),
{
    lemma_envelope_normal(e);
    let n = envelope_normal(e);
    lemma_envelope_round_trip(n, Seq::empty());
    assert(envelope_bytes(n) + Seq::<u8>::empty() =~= envelope_bytes(n));
}

/// A frame that `encode_frame` writes obeys the rules of the protocol, fits
/// in `MAX_FRAME_BYTES`, and decodes to the envelope it was written from
/// (negative zero read back as zero), which obeys the rules too, so that
/// `decode_frame` gives that envelope back.
pub proof fn law_frame_round_trip(e: EnvelopeView, frame: Seq<u8>)
    requires
        encoded_frame(e) == Ok::<Seq<u8>, ProtocolError>(frame),
    ensures
        envelope_check(e) is Ok,
        frame.len() <= MAX_FRAME_BYTES,
        envelope_decoding(frame) == Some(envelope_normal(e)),
        envelope_check(envelope_normal(e)) is Ok,
        envelope_no_negative_zero(e) ==> envelope_decoding(frame) == Some(e),
{
    law_message_round_trip(e);
    lemma_envelope_normal(e);
}

} // verus!
