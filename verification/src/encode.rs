//! Writing messages: each message is its fields in the order of their tags,
//! and a field that holds its default value is left out (as Protocol Buffers
//! version 3 prescribes and `prost` does).

use vstd::prelude::*;

use crate::envelope::{Payload, PayloadView};
use crate::messages::{
    opt_state_view, opt_team_colors_view, Checkpoint, CheckpointView, DiscState, DynamicFrame,
    DynamicFrameView, DynamicState, DynamicStateView, Envelope, EnvelopeView, GameState, PlayerState,
    PlayerStateView, TeamColors, TeamColorsView, Vec2,
};
use crate::wire::{
    bool_wire, delimited_field, fixed64_field, int32_wire, int32_wires, packed_field,
    put_bool, put_bytes, put_delimited_key, put_fixed64, put_int32, put_packed_int32,
    put_packed_uint32, put_string, put_uint32, put_uint64, put_varint, uint32_wires, utf8,
    varint_field, MAX_TAG,
};

verus! {

/// Bit pattern of the `f64` negative zero, which compares equal to zero.
pub const NEGATIVE_ZERO_BITS: u64 = 0x8000_0000_0000_0000;

// ----------------------------------------------------------------------------
// Fields
// ----------------------------------------------------------------------------

pub open spec fn uint32_field(tag: u32, v: u32) -> Seq<u8> {
    if v == 0 {
        seq![]
    } else {
        varint_field(tag, v as u64)
    }
}

pub open spec fn uint64_field(tag: u32, v: u64) -> Seq<u8> {
    if v == 0 {
        seq![]
    } else {
        varint_field(tag, v)
    }
}

pub open spec fn int32_field(tag: u32, v: i32) -> Seq<u8> {
    if v == 0 {
        seq![]
    } else {
        varint_field(tag, int32_wire(v))
    }
}

pub open spec fn bool_field(tag: u32, v: bool) -> Seq<u8> {
    if !v {
        seq![]
    } else {
        varint_field(tag, bool_wire(v))
    }
}

/// Whether the bit pattern is that of an `f64` equal to zero.
pub open spec fn is_zero_double(bits: u64) -> bool {
    bits == 0 || bits == NEGATIVE_ZERO_BITS
}

pub open spec fn double_field(tag: u32, bits: u64) -> Seq<u8> {
    if is_zero_double(bits) {
        seq![]
    } else {
        fixed64_field(tag, bits)
    }
}

pub open spec fn string_field(tag: u32, s: Seq<char>) -> Seq<u8> {
    if s.len() == 0 {
        seq![]
    } else {
        delimited_field(tag, utf8(s))
    }
}

pub open spec fn bytes_field(tag: u32, b: Seq<u8>) -> Seq<u8> {
    if b.len() == 0 {
        seq![]
    } else {
        delimited_field(tag, b)
    }
}

// ----------------------------------------------------------------------------
// Messages
// ----------------------------------------------------------------------------

pub open spec fn vec2_bytes(m: Vec2) -> Seq<u8> {
    double_field(1, m.x) + double_field(2, m.y)
}

pub open spec fn opt_vec2_field(tag: u32, o: Option<Vec2>) -> Seq<u8> {
    match o {
        Some(v) => delimited_field(tag, vec2_bytes(v)),
        None => seq![],
    }
}

pub open spec fn team_colors_bytes(m: TeamColorsView) -> Seq<u8> {
    int32_field(1, m.angle) + uint32_field(2, m.text_color) + packed_field(3, uint32_wires(m.colors))
}

pub open spec fn opt_team_colors_field(tag: u32, o: Option<TeamColorsView>) -> Seq<u8> {
    match o {
        Some(c) => delimited_field(tag, team_colors_bytes(c)),
        None => seq![],
    }
}

pub open spec fn game_state_bytes(m: GameState) -> Seq<u8> {
    int32_field(1, m.status) + uint32_field(2, m.red_score) + uint32_field(3, m.blue_score)
        + double_field(4, m.elapsed_seconds) + uint32_field(5, m.paused_ticks) + int32_field(
        6,
        m.kickoff_team,
    ) + uint64_field(7, m.active_ticks) + int32_field(8, m.countdown_ticks) + int32_field(
        9,
        m.phase_code,
    )
}

/// An optional `uint32` field: written whenever present, even if zero.
pub open spec fn opt_uint32_field(tag: u32, o: Option<u32>) -> Seq<u8> {
    match o {
        Some(i) => varint_field(tag, i as u64),
        None => seq![],
    }
}

/// An optional string field: written whenever present, even if empty.
pub open spec fn opt_string_field(tag: u32, o: Option<Seq<char>>) -> Seq<u8> {
    match o {
        Some(a) => delimited_field(tag, utf8(a)),
        None => seq![],
    }
}

pub open spec fn player_state_bytes(m: PlayerStateView) -> Seq<u8> {
    uint32_field(1, m.id) + string_field(2, m.name) + int32_field(3, m.team) + bool_field(4, m.admin)
        + int32_field(5, m.player_number) + bool_field(6, m.activity) + opt_vec2_field(
        7,
        m.position,
    ) + opt_uint32_field(8, m.disc_index) + opt_string_field(9, m.avatar) + uint32_field(10, m.input)
}

pub open spec fn disc_state_bytes(m: DiscState) -> Seq<u8> {
    uint32_field(1, m.index) + opt_vec2_field(2, m.position) + opt_vec2_field(3, m.speed)
        + opt_vec2_field(4, m.gravity) + double_field(5, m.radius) + double_field(6, m.bounce)
        + double_field(7, m.inverse_mass) + double_field(8, m.damping) + int32_field(9, m.color)
        + int32_field(10, m.collision_mask) + int32_field(11, m.collision_group)
}

/// The players of a state, each as a field with tag 2.
pub open spec fn players_bytes(ps: Seq<PlayerStateView>) -> Seq<u8>
    decreases ps.len(),
{
    if ps.len() == 0 {
        seq![]
    } else {
        players_bytes(ps.drop_last()) + delimited_field(2, player_state_bytes(ps.last()))
    }
}

/// The discs of a state, each as a field with tag 3.
pub open spec fn discs_bytes(ds: Seq<DiscState>) -> Seq<u8>
    decreases ds.len(),
{
    if ds.len() == 0 {
        seq![]
    } else {
        discs_bytes(ds.drop_last()) + delimited_field(3, disc_state_bytes(ds.last()))
    }
}

pub open spec fn opt_game_field(tag: u32, o: Option<GameState>) -> Seq<u8> {
    match o {
        Some(g) => delimited_field(tag, game_state_bytes(g)),
        None => seq![],
    }
}

pub open spec fn dynamic_state_bytes(m: DynamicStateView) -> Seq<u8> {
    opt_game_field(1, m.game) + players_bytes(m.players) + discs_bytes(m.discs)
}

pub open spec fn opt_state_field(tag: u32, o: Option<DynamicStateView>) -> Seq<u8> {
    match o {
        Some(s) => delimited_field(tag, dynamic_state_bytes(s)),
        None => seq![],
    }
}

pub open spec fn checkpoint_bytes(m: CheckpointView) -> Seq<u8> {
    string_field(1, m.room_name) + uint32_field(2, m.max_players) + string_field(3, m.stadium_json)
        + uint32_field(4, m.score_limit) + uint32_field(5, m.time_limit_seconds) + bool_field(
        6,
        m.teams_locked,
    ) + opt_team_colors_field(7, m.red_team_colors) + opt_team_colors_field(8, m.blue_team_colors)
        + opt_state_field(9, m.dynamic) + bytes_field(10, m.initial_replay)
}

pub open spec fn dynamic_frame_bytes(m: DynamicFrameView) -> Seq<u8> {
    uint64_field(1, m.checkpoint_sequence) + opt_state_field(2, m.state)
}

pub open spec fn payload_field(p: Option<PayloadView>) -> Seq<u8> {
    match p {
        Some(PayloadView::Checkpoint(c)) => delimited_field(10, checkpoint_bytes(c)),
        Some(PayloadView::Dynamic(d)) => delimited_field(11, dynamic_frame_bytes(d)),
        None => seq![],
    }
}

/// The bytes of an envelope.
pub open spec fn envelope_bytes(m: EnvelopeView) -> Seq<u8> {
    uint32_field(1, m.protocol_version) + uint64_field(2, m.epoch) + uint64_field(3, m.sequence)
        + uint64_field(4, m.source_tick) + uint64_field(5, m.source_time_micros) + packed_field(
        6,
        int32_wires(m.audio_cues),
    ) + payload_field(m.payload)
}

// ----------------------------------------------------------------------------
// Writers of fields
// ----------------------------------------------------------------------------

fn write_uint32(tag: u32, v: u32, buf: &mut Vec<u8>)
    requires
        1 <= tag <= MAX_TAG,
    ensures
        final(buf)@ == old(buf)@ + uint32_field(tag, v),
{
    if v != 0 {
        put_uint32(tag, v, buf);
    } else {
        assert(old(buf)@ + uint32_field(tag, v) =~= old(buf)@);
    }
}

fn write_uint64(tag: u32, v: u64, buf: &mut Vec<u8>)
    requires
        1 <= tag <= MAX_TAG,
    ensures
        final(buf)@ == old(buf)@ + uint64_field(tag, v),
{
    if v != 0 {
        put_uint64(tag, v, buf);
    } else {
        assert(old(buf)@ + uint64_field(tag, v) =~= old(buf)@);
    }
}

fn write_int32(tag: u32, v: i32, buf: &mut Vec<u8>)
    requires
        1 <= tag <= MAX_TAG,
    ensures
        final(buf)@ == old(buf)@ + int32_field(tag, v),
{
    if v != 0 {
        put_int32(tag, v, buf);
    } else {
        assert(old(buf)@ + int32_field(tag, v) =~= old(buf)@);
    }
}

fn write_bool(tag: u32, v: bool, buf: &mut Vec<u8>)
    requires
        1 <= tag <= MAX_TAG,
    ensures
        final(buf)@ == old(buf)@ + bool_field(tag, v),
{
    if v {
        put_bool(tag, v, buf);
    } else {
        assert(old(buf)@ + bool_field(tag, v) =~= old(buf)@);
    }
}

fn write_double(tag: u32, bits: u64, buf: &mut Vec<u8>)
    requires
        1 <= tag <= MAX_TAG,
    ensures
        final(buf)@ == old(buf)@ + double_field(tag, bits),
{
    if bits != 0 && bits != NEGATIVE_ZERO_BITS {
        put_fixed64(tag, bits, buf);
    } else {
        assert(old(buf)@ + double_field(tag, bits) =~= old(buf)@);
    }
}

fn write_string(tag: u32, s: &String, buf: &mut Vec<u8>)
    requires
        1 <= tag <= MAX_TAG,
    ensures
        final(buf)@ == old(buf)@ + string_field(tag, s@),
{
    if !s.as_str().is_empty() {
        put_string(tag, s, buf);
    } else {
        assert(old(buf)@ + string_field(tag, s@) =~= old(buf)@);
    }
}

fn write_bytes(tag: u32, b: &Vec<u8>, buf: &mut Vec<u8>)
    requires
        1 <= tag <= MAX_TAG,
    ensures
        final(buf)@ == old(buf)@ + bytes_field(tag, b@),
{
    if b.len() != 0 {
        put_bytes(tag, b, buf);
    } else {
        assert(old(buf)@ + bytes_field(tag, b@) =~= old(buf)@);
    }
}

/// Appends a length-delimited field whose body is `body`.
fn write_delimited(tag: u32, body: Vec<u8>, buf: &mut Vec<u8>)
    requires
        1 <= tag <= MAX_TAG,
    ensures
        final(buf)@ == old(buf)@ + delimited_field(tag, body@),
{
    let ghost b = body@;
    let mut body = body;
    put_delimited_key(tag, buf);
    put_varint(body.len() as u64, buf);
    buf.append(&mut body);
    assert(final(buf)@ =~= old(buf)@ + delimited_field(tag, b));
}

// ----------------------------------------------------------------------------
// Writers of messages
// ----------------------------------------------------------------------------

/// Appends `f` after `b0 + a`, regrouping the sum.
proof fn lemma_extend(b0: Seq<u8>, a: Seq<u8>, f: Seq<u8>)
    ensures
        (b0 + a) + f == b0 + (a + f),
{
    vstd::seq_lib::lemma_concat_associative(b0, a, f);
}

pub fn write_vec2(m: &Vec2, buf: &mut Vec<u8>)
    ensures
        final(buf)@ == old(buf)@ + vec2_bytes(*m),
{
    let ghost b0 = buf@;
    write_double(1, m.x, buf);
    write_double(2, m.y, buf);
    proof {
        lemma_extend(b0, double_field(1, m.x), double_field(2, m.y));
    }
}

fn write_opt_vec2(tag: u32, o: &Option<Vec2>, buf: &mut Vec<u8>)
    requires
        1 <= tag <= MAX_TAG,
    ensures
        final(buf)@ == old(buf)@ + opt_vec2_field(tag, *o),
{
    match o {
        Some(v) => {
            let mut body = Vec::new();
            write_vec2(v, &mut body);
            assert(body@ =~= vec2_bytes(*v));
            write_delimited(tag, body, buf);
        },
        None => {
            assert(old(buf)@ + opt_vec2_field(tag, *o) =~= old(buf)@);
        },
    }
}

pub fn write_team_colors(m: &TeamColors, buf: &mut Vec<u8>)
    ensures
        final(buf)@ == old(buf)@ + team_colors_bytes(m@),
{
    let ghost b0 = buf@;
    write_int32(1, m.angle, buf);
    write_uint32(2, m.text_color, buf);
    proof {
        lemma_extend(b0, int32_field(1, m.angle), uint32_field(2, m.text_color));
    }
    let ghost a = int32_field(1, m.angle) + uint32_field(2, m.text_color);
    put_packed_uint32(3, &m.colors, buf);
    proof {
        lemma_extend(b0, a, packed_field(3, uint32_wires(m.colors@)));
    }
}

fn write_opt_team_colors(tag: u32, o: &Option<TeamColors>, buf: &mut Vec<u8>)
    requires
        1 <= tag <= MAX_TAG,
    ensures
        final(buf)@ == old(buf)@ + opt_team_colors_field(tag, opt_team_colors_view(*o)),
{
    match o {
        Some(c) => {
            let mut body = Vec::new();
            write_team_colors(c, &mut body);
            assert(body@ =~= team_colors_bytes(c@));
            write_delimited(tag, body, buf);
        },
        None => {
            assert(old(buf)@ + opt_team_colors_field(tag, opt_team_colors_view(*o)) =~= old(buf)@);
        },
    }
}

pub fn write_game_state(m: &GameState, buf: &mut Vec<u8>)
    ensures
        final(buf)@ == old(buf)@ + game_state_bytes(*m),
{
    let ghost b0 = buf@;
    write_int32(1, m.status, buf);
    let ghost mut a = int32_field(1, m.status);
    write_uint32(2, m.red_score, buf);
    proof {
        lemma_extend(b0, a, uint32_field(2, m.red_score));
        a = a + uint32_field(2, m.red_score);
    }
    write_uint32(3, m.blue_score, buf);
    proof {
        lemma_extend(b0, a, uint32_field(3, m.blue_score));
        a = a + uint32_field(3, m.blue_score);
    }
    write_double(4, m.elapsed_seconds, buf);
    proof {
        lemma_extend(b0, a, double_field(4, m.elapsed_seconds));
        a = a + double_field(4, m.elapsed_seconds);
    }
    write_uint32(5, m.paused_ticks, buf);
    proof {
        lemma_extend(b0, a, uint32_field(5, m.paused_ticks));
        a = a + uint32_field(5, m.paused_ticks);
    }
    write_int32(6, m.kickoff_team, buf);
    proof {
        lemma_extend(b0, a, int32_field(6, m.kickoff_team));
        a = a + int32_field(6, m.kickoff_team);
    }
    write_uint64(7, m.active_ticks, buf);
    proof {
        lemma_extend(b0, a, uint64_field(7, m.active_ticks));
        a = a + uint64_field(7, m.active_ticks);
    }
    write_int32(8, m.countdown_ticks, buf);
    proof {
        lemma_extend(b0, a, int32_field(8, m.countdown_ticks));
        a = a + int32_field(8, m.countdown_ticks);
    }
    write_int32(9, m.phase_code, buf);
    proof {
        lemma_extend(b0, a, int32_field(9, m.phase_code));
    }
}

pub fn write_player_state(m: &PlayerState, buf: &mut Vec<u8>)
    ensures
        final(buf)@ == old(buf)@ + player_state_bytes(m@),
{
    let ghost b0 = buf@;
    write_uint32(1, m.id, buf);
    let ghost mut a = uint32_field(1, m.id);
    write_string(2, &m.name, buf);
    proof {
        lemma_extend(b0, a, string_field(2, m.name@));
        a = a + string_field(2, m.name@);
    }
    write_int32(3, m.team, buf);
    proof {
        lemma_extend(b0, a, int32_field(3, m.team));
        a = a + int32_field(3, m.team);
    }
    write_bool(4, m.admin, buf);
    proof {
        lemma_extend(b0, a, bool_field(4, m.admin));
        a = a + bool_field(4, m.admin);
    }
    write_int32(5, m.player_number, buf);
    proof {
        lemma_extend(b0, a, int32_field(5, m.player_number));
        a = a + int32_field(5, m.player_number);
    }
    write_bool(6, m.activity, buf);
    proof {
        lemma_extend(b0, a, bool_field(6, m.activity));
        a = a + bool_field(6, m.activity);
    }
    write_opt_vec2(7, &m.position, buf);
    proof {
        lemma_extend(b0, a, opt_vec2_field(7, m.position));
        a = a + opt_vec2_field(7, m.position);
    }
    match m.disc_index {
        Some(i) => put_uint32(8, i, buf),
        None => {
            assert(buf@ =~= buf@ + opt_uint32_field(8, m.disc_index));
        },
    }
    proof {
        lemma_extend(b0, a, opt_uint32_field(8, m.disc_index));
        a = a + opt_uint32_field(8, m.disc_index);
    }
    match &m.avatar {
        Some(s) => put_string(9, s, buf),
        None => {
            assert(buf@ =~= buf@ + opt_string_field(9, m@.avatar));
        },
    }
    proof {
        lemma_extend(b0, a, opt_string_field(9, m@.avatar));
        a = a + opt_string_field(9, m@.avatar);
    }
    write_uint32(10, m.input, buf);
    proof {
        lemma_extend(b0, a, uint32_field(10, m.input));
    }
}

pub fn write_disc_state(m: &DiscState, buf: &mut Vec<u8>)
    ensures
        final(buf)@ == old(buf)@ + disc_state_bytes(*m),
{
    let ghost b0 = buf@;
    write_uint32(1, m.index, buf);
    let ghost mut a = uint32_field(1, m.index);
    write_opt_vec2(2, &m.position, buf);
    proof {
        lemma_extend(b0, a, opt_vec2_field(2, m.position));
        a = a + opt_vec2_field(2, m.position);
    }
    write_opt_vec2(3, &m.speed, buf);
    proof {
        lemma_extend(b0, a, opt_vec2_field(3, m.speed));
        a = a + opt_vec2_field(3, m.speed);
    }
    write_opt_vec2(4, &m.gravity, buf);
    proof {
        lemma_extend(b0, a, opt_vec2_field(4, m.gravity));
        a = a + opt_vec2_field(4, m.gravity);
    }
    write_double(5, m.radius, buf);
    proof {
        lemma_extend(b0, a, double_field(5, m.radius));
        a = a + double_field(5, m.radius);
    }
    write_double(6, m.bounce, buf);
    proof {
        lemma_extend(b0, a, double_field(6, m.bounce));
        a = a + double_field(6, m.bounce);
    }
    write_double(7, m.inverse_mass, buf);
    proof {
        lemma_extend(b0, a, double_field(7, m.inverse_mass));
        a = a + double_field(7, m.inverse_mass);
    }
    write_double(8, m.damping, buf);
    proof {
        lemma_extend(b0, a, double_field(8, m.damping));
        a = a + double_field(8, m.damping);
    }
    write_int32(9, m.color, buf);
    proof {
        lemma_extend(b0, a, int32_field(9, m.color));
        a = a + int32_field(9, m.color);
    }
    write_int32(10, m.collision_mask, buf);
    proof {
        lemma_extend(b0, a, int32_field(10, m.collision_mask));
        a = a + int32_field(10, m.collision_mask);
    }
    write_int32(11, m.collision_group, buf);
    proof {
        lemma_extend(b0, a, int32_field(11, m.collision_group));
    }
}

pub fn write_dynamic_state(m: &DynamicState, buf: &mut Vec<u8>)
    ensures
        final(buf)@ == old(buf)@ + dynamic_state_bytes(m@),
{
    let ghost b0 = buf@;
    match &m.game {
        Some(g) => {
            let mut body = Vec::new();
            write_game_state(g, &mut body);
            assert(body@ =~= game_state_bytes(*g));
            write_delimited(1, body, buf);
        },
        None => {
            assert(buf@ =~= buf@ + opt_game_field(1, m.game));
        },
    }
    let ghost after_game = buf@;
    let ghost players = m@.players;
    let n = m.players.len();
    let mut i: usize = 0;
    while i < n
        invariant
            n == m.players@.len(),
            players == m.players@.map_values(|p: PlayerState| p@),
            i <= n,
            buf@ == after_game + players_bytes(players.take(i as int)),
        decreases n - i,
    {
        let mut body = Vec::new();
        write_player_state(&m.players[i], &mut body);
        assert(body@ =~= player_state_bytes(players[i as int]));
        let ghost before = buf@;
        write_delimited(2, body, buf);
        assert(players.take(i + 1).drop_last() =~= players.take(i as int));
        proof {
            lemma_extend(after_game, players_bytes(players.take(i as int)), delimited_field(2, player_state_bytes(players[i as int])));
        }
        i = i + 1;
    }
    assert(players.take(n as int) =~= players);
    let ghost after_players = buf@;
    let k = m.discs.len();
    let mut j: usize = 0;
    while j < k
        invariant
            k == m.discs@.len(),
            j <= k,
            buf@ == after_players + discs_bytes(m.discs@.take(j as int)),
        decreases k - j,
    {
        let mut body = Vec::new();
        write_disc_state(&m.discs[j], &mut body);
        assert(body@ =~= disc_state_bytes(m.discs@[j as int]));
        write_delimited(3, body, buf);
        assert(m.discs@.take(j + 1).drop_last() =~= m.discs@.take(j as int));
        proof {
            lemma_extend(after_players, discs_bytes(m.discs@.take(j as int)), delimited_field(3, disc_state_bytes(m.discs@[j as int])));
        }
        j = j + 1;
    }
    assert(m.discs@.take(k as int) =~= m.discs@);
    proof {
        lemma_extend(b0, opt_game_field(1, m.game), players_bytes(m@.players));
        lemma_extend(b0, opt_game_field(1, m.game) + players_bytes(m@.players), discs_bytes(m@.discs));
    }
}

fn write_opt_state(tag: u32, o: &Option<DynamicState>, buf: &mut Vec<u8>)
    requires
        1 <= tag <= MAX_TAG,
    ensures
        final(buf)@ == old(buf)@ + opt_state_field(tag, opt_state_view(*o)),
{
    match o {
        Some(s) => {
            let mut body = Vec::new();
            write_dynamic_state(s, &mut body);
            assert(body@ =~= dynamic_state_bytes(s@));
            write_delimited(tag, body, buf);
        },
        None => {
            assert(old(buf)@ + opt_state_field(tag, opt_state_view(*o)) =~= old(buf)@);
        },
    }
}

pub fn write_checkpoint(m: &Checkpoint, buf: &mut Vec<u8>)
    ensures
        final(buf)@ == old(buf)@ + checkpoint_bytes(m@),
{
    let ghost b0 = buf@;
    let ghost v = m@;
    write_string(1, &m.room_name, buf);
    let ghost mut a = string_field(1, v.room_name);
    write_uint32(2, m.max_players, buf);
    proof {
        lemma_extend(b0, a, uint32_field(2, v.max_players));
        a = a + uint32_field(2, v.max_players);
    }
    write_string(3, &m.stadium_json, buf);
    proof {
        lemma_extend(b0, a, string_field(3, v.stadium_json));
        a = a + string_field(3, v.stadium_json);
    }
    write_uint32(4, m.score_limit, buf);
    proof {
        lemma_extend(b0, a, uint32_field(4, v.score_limit));
        a = a + uint32_field(4, v.score_limit);
    }
    write_uint32(5, m.time_limit_seconds, buf);
    proof {
        lemma_extend(b0, a, uint32_field(5, v.time_limit_seconds));
        a = a + uint32_field(5, v.time_limit_seconds);
    }
    write_bool(6, m.teams_locked, buf);
    proof {
        lemma_extend(b0, a, bool_field(6, v.teams_locked));
        a = a + bool_field(6, v.teams_locked);
    }
    write_opt_team_colors(7, &m.red_team_colors, buf);
    proof {
        lemma_extend(b0, a, opt_team_colors_field(7, v.red_team_colors));
        a = a + opt_team_colors_field(7, v.red_team_colors);
    }
    write_opt_team_colors(8, &m.blue_team_colors, buf);
    proof {
        lemma_extend(b0, a, opt_team_colors_field(8, v.blue_team_colors));
        a = a + opt_team_colors_field(8, v.blue_team_colors);
    }
    write_opt_state(9, &m.dynamic, buf);
    proof {
        lemma_extend(b0, a, opt_state_field(9, v.dynamic));
        a = a + opt_state_field(9, v.dynamic);
    }
    write_bytes(10, &m.initial_replay, buf);
    proof {
        lemma_extend(b0, a, bytes_field(10, v.initial_replay));
    }
}

pub fn write_dynamic_frame(m: &DynamicFrame, buf: &mut Vec<u8>)
    ensures
        final(buf)@ == old(buf)@ + dynamic_frame_bytes(m@),
{
    let ghost b0 = buf@;
    write_uint64(1, m.checkpoint_sequence, buf);
    write_opt_state(2, &m.state, buf);
    proof {
        lemma_extend(b0, uint64_field(1, m.checkpoint_sequence), opt_state_field(2, m@.state));
    }
}

pub fn write_envelope(m: &Envelope, buf: &mut Vec<u8>)
    ensures
        final(buf)@ == old(buf)@ + envelope_bytes(m@),
{
    let ghost b0 = buf@;
    let ghost v = m@;
    write_uint32(1, m.protocol_version, buf);
    let ghost mut a = uint32_field(1, v.protocol_version);
    write_uint64(2, m.epoch, buf);
    proof {
        lemma_extend(b0, a, uint64_field(2, v.epoch));
        a = a + uint64_field(2, v.epoch);
    }
    write_uint64(3, m.sequence, buf);
    proof {
        lemma_extend(b0, a, uint64_field(3, v.sequence));
        a = a + uint64_field(3, v.sequence);
    }
    write_uint64(4, m.source_tick, buf);
    proof {
        lemma_extend(b0, a, uint64_field(4, v.source_tick));
        a = a + uint64_field(4, v.source_tick);
    }
    write_uint64(5, m.source_time_micros, buf);
    proof {
        lemma_extend(b0, a, uint64_field(5, v.source_time_micros));
        a = a + uint64_field(5, v.source_time_micros);
    }
    put_packed_int32(6, &m.audio_cues, buf);
    proof {
        lemma_extend(b0, a, packed_field(6, int32_wires(v.audio_cues)));
        a = a + packed_field(6, int32_wires(v.audio_cues));
    }
    match &m.payload {
        Some(Payload::Checkpoint(c)) => {
            let mut body = Vec::new();
            write_checkpoint(c, &mut body);
            assert(body@ =~= checkpoint_bytes(c@));
            write_delimited(10, body, buf);
        },
        Some(Payload::Dynamic(d)) => {
            let mut body = Vec::new();
            write_dynamic_frame(d, &mut body);
            assert(body@ =~= dynamic_frame_bytes(d@));
            write_delimited(11, body, buf);
        },
        None => {
            assert(buf@ =~= buf@ + payload_field(v.payload));
        },
    }
    proof {
        lemma_extend(b0, a, payload_field(v.payload));
    }
}

impl Envelope {
    /// The Protocol Buffers encoding of this envelope.
    pub fn encode_to_vec(&self) -> (bytes: Vec<u8>)
        ensures
            bytes@ == envelope_bytes(self@),
    {
        let mut buf = Vec::new();
        write_envelope(self, &mut buf);
        assert(buf@ =~= envelope_bytes(self@));
        buf
    }

    /// The number of bytes of the Protocol Buffers encoding of this envelope.
    pub fn encoded_len(&self) -> (n: usize)
        ensures
            n == envelope_bytes(self@).len(),
    {
        self.encode_to_vec().len()
    }
}

} // verus!
