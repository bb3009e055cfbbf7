//! The messages of the live protocol and their mathematical values.
//!
//! Fields that the wire format declares as `double` are held as the IEEE 754
//! bit pattern of the value (`f64::to_bits`), which is exactly what travels on
//! the wire; `f64::from_bits` gives the number back.

use vstd::prelude::*;

use crate::envelope::{Payload, PayloadView};

verus! {

/// A live frame: protocol version, position in the stream, audio cues and
/// one payload.
#[derive(Clone, Debug, PartialEq)]
pub struct Envelope {
    pub protocol_version: u32,
    pub epoch: u64,
    pub sequence: u64,
    pub source_tick: u64,
    pub source_time_micros: u64,
    /// Values of [`AudioCueKind`], as their wire numbers.
    pub audio_cues: Vec<i32>,
    pub payload: Option<Payload>,
}

/// Static room configuration together with the dynamic state at that moment.
#[derive(Clone, Debug, PartialEq)]
pub struct Checkpoint {
    pub room_name: String,
    pub max_players: u32,
    pub stadium_json: String,
    pub score_limit: u32,
    pub time_limit_seconds: u32,
    pub teams_locked: bool,
    pub red_team_colors: Option<TeamColors>,
    pub blue_team_colors: Option<TeamColors>,
    pub dynamic: Option<DynamicState>,
    /// Canonical zero-frame HBR2 bootstrap for arbitrary custom stadiums.
    pub initial_replay: Vec<u8>,
}

/// Dynamic state sent between two checkpoints.
#[derive(Clone, Debug, PartialEq)]
pub struct DynamicFrame {
    pub checkpoint_sequence: u64,
    pub state: Option<DynamicState>,
}

/// Game, player and disc state.
#[derive(Clone, Debug, PartialEq)]
pub struct DynamicState {
    pub game: Option<GameState>,
    pub players: Vec<PlayerState>,
    pub discs: Vec<DiscState>,
}

/// State of the running game.
#[derive(Clone, Debug)]
pub struct GameState {
    /// A [`GameStatus`] as its wire number.
    pub status: i32,
    pub red_score: u32,
    pub blue_score: u32,
    /// Bit pattern of an `f64`.
    pub elapsed_seconds: u64,
    pub paused_ticks: u32,
    /// A [`Team`] as its wire number.
    pub kickoff_team: i32,
    pub active_ticks: u64,
    pub countdown_ticks: i32,
    pub phase_code: i32,
}

/// A player in the room.
#[derive(Clone, Debug, PartialEq)]
pub struct PlayerState {
    pub id: u32,
    pub name: String,
    /// A [`Team`] as its wire number.
    pub team: i32,
    pub admin: bool,
    pub player_number: i32,
    pub activity: bool,
    pub position: Option<Vec2>,
    pub disc_index: Option<u32>,
    pub avatar: Option<String>,
    pub input: u32,
}

/// A disc of the stadium.
#[derive(Clone, Debug)]
pub struct DiscState {
    pub index: u32,
    pub position: Option<Vec2>,
    pub speed: Option<Vec2>,
    pub gravity: Option<Vec2>,
    /// Bit pattern of an `f64`.
    pub radius: u64,
    /// Bit pattern of an `f64`.
    pub bounce: u64,
    /// Bit pattern of an `f64`.
    pub inverse_mass: u64,
    /// Bit pattern of an `f64`.
    pub damping: u64,
    pub color: i32,
    pub collision_mask: i32,
    pub collision_group: i32,
}

/// A two-dimensional vector; both coordinates are bit patterns of `f64`s.
#[derive(Clone, Copy, Debug)]
pub struct Vec2 {
    pub x: u64,
    pub y: u64,
}

/// Colors of a team's uniform.
#[derive(Clone, Debug, PartialEq)]
pub struct TeamColors {
    pub angle: i32,
    pub text_color: u32,
    pub colors: Vec<u32>,
}

/// Teams of the room. The wire number of each is its position here.
#[derive(Clone, Copy, Debug, PartialEq, Eq)]
pub enum Team {
    Spectators,
    Red,
    Blue,
}

/// Status of the game. The wire number of each is its position here.
#[derive(Clone, Copy, Debug, PartialEq, Eq)]
pub enum GameStatus {
    Stopped,
    Running,
    Paused,
    Resuming,
}

/// Sounds that a frame asks the consumer to play. The wire number of each is
/// its position here.
#[derive(Clone, Copy, Debug, PartialEq, Eq)]
pub enum AudioCueKind {
    PlayerJoin,
    PlayerLeave,
    BallKick,
    Goal,
    Chat,
    Notification,
}

// ----------------------------------------------------------------------------
// Mathematical values
// ----------------------------------------------------------------------------

#[verifier::ext_equal]
pub struct EnvelopeView {
    pub protocol_version: u32,
    pub epoch: u64,
    pub sequence: u64,
    pub source_tick: u64,
    pub source_time_micros: u64,
    pub audio_cues: Seq<i32>,
    pub payload: Option<PayloadView>,
}

#[verifier::ext_equal]
pub struct CheckpointView {
    pub room_name: Seq<char>,
    pub max_players: u32,
    pub stadium_json: Seq<char>,
    pub score_limit: u32,
    pub time_limit_seconds: u32,
    pub teams_locked: bool,
    pub red_team_colors: Option<TeamColorsView>,
    pub blue_team_colors: Option<TeamColorsView>,
    pub dynamic: Option<DynamicStateView>,
    pub initial_replay: Seq<u8>,
}

#[verifier::ext_equal]
pub struct DynamicFrameView {
    pub checkpoint_sequence: u64,
    pub state: Option<DynamicStateView>,
}

#[verifier::ext_equal]
pub struct DynamicStateView {
    pub game: Option<GameState>,
    pub players: Seq<PlayerStateView>,
    pub discs: Seq<DiscState>,
}

#[verifier::ext_equal]
pub struct PlayerStateView {
    pub id: u32,
    pub name: Seq<char>,
    pub team: i32,
    pub admin: bool,
    pub player_number: i32,
    pub activity: bool,
    pub position: Option<Vec2>,
    pub disc_index: Option<u32>,
    pub avatar: Option<Seq<char>>,
    pub input: u32,
}

#[verifier::ext_equal]
pub struct TeamColorsView {
    pub angle: i32,
    pub text_color: u32,
    pub colors: Seq<u32>,
}

impl View for Envelope {
    type V = EnvelopeView;

    open spec fn view(&self) -> EnvelopeView {
        EnvelopeView {
            protocol_version: self.protocol_version,
            epoch: self.epoch,
            sequence: self.sequence,
            source_tick: self.source_tick,
            source_time_micros: self.source_time_micros,
            audio_cues: self.audio_cues@,
            payload: match self.payload {
                Some(p) => Some(p@),
                None => None,
            },
        }
    }
}

pub open spec fn opt_team_colors_view(o: Option<TeamColors>) -> Option<TeamColorsView> {
    match o {
        Some(c) => Some(c@),
        None => None,
    }
}

pub open spec fn opt_state_view(o: Option<DynamicState>) -> Option<DynamicStateView> {
    match o {
        Some(s) => Some(s@),
        None => None,
    }
}

impl View for Checkpoint {
    type V = CheckpointView;

    open spec fn view(&self) -> CheckpointView {
        CheckpointView {
            room_name: self.room_name@,
            max_players: self.max_players,
            stadium_json: self.stadium_json@,
            score_limit: self.score_limit,
            time_limit_seconds: self.time_limit_seconds,
            teams_locked: self.teams_locked,
            red_team_colors: opt_team_colors_view(self.red_team_colors),
            blue_team_colors: opt_team_colors_view(self.blue_team_colors),
            dynamic: opt_state_view(self.dynamic),
            initial_replay: self.initial_replay@,
        }
    }
}

impl View for DynamicFrame {
    type V = DynamicFrameView;

    open spec fn view(&self) -> DynamicFrameView {
        DynamicFrameView {
            checkpoint_sequence: self.checkpoint_sequence,
            state: opt_state_view(self.state),
        }
    }
}

impl View for DynamicState {
    type V = DynamicStateView;

    open spec fn view(&self) -> DynamicStateView {
        DynamicStateView {
            game: self.game,
            players: self.players@.map_values(|p: PlayerState| p@),
            discs: self.discs@,
        }
    }
}

impl View for PlayerState {
    type V = PlayerStateView;

    open spec fn view(&self) -> PlayerStateView {
        PlayerStateView {
            id: self.id,
            name: self.name@,
            team: self.team,
            admin: self.admin,
            player_number: self.player_number,
            activity: self.activity,
            position: self.position,
            disc_index: self.disc_index,
            avatar: match self.avatar {
                Some(a) => Some(a@),
                None => None,
            },
            input: self.input,
        }
    }
}

impl View for TeamColors {
    type V = TeamColorsView;

    open spec fn view(&self) -> TeamColorsView {
        TeamColorsView { angle: self.angle, text_color: self.text_color, colors: self.colors@ }
    }
}

// ----------------------------------------------------------------------------
// Default values: what a decoder starts from
// ----------------------------------------------------------------------------

pub open spec fn vec2_default() -> Vec2 {
    Vec2 { x: 0, y: 0 }
}

pub open spec fn team_colors_default() -> TeamColorsView {
    TeamColorsView { angle: 0, text_color: 0, colors: seq![] }
}

pub open spec fn game_state_default() -> GameState {
    GameState {
        status: 0,
        red_score: 0,
        blue_score: 0,
        elapsed_seconds: 0,
        paused_ticks: 0,
        kickoff_team: 0,
        active_ticks: 0,
        countdown_ticks: 0,
        phase_code: 0,
    }
}

pub open spec fn player_state_default() -> PlayerStateView {
    PlayerStateView {
        id: 0,
        name: seq![],
        team: 0,
        admin: false,
        player_number: 0,
        activity: false,
        position: None,
        disc_index: None,
        avatar: None,
        input: 0,
    }
}

pub open spec fn disc_state_default() -> DiscState {
    DiscState {
        index: 0,
        position: None,
        speed: None,
        gravity: None,
        radius: 0,
        bounce: 0,
        inverse_mass: 0,
        damping: 0,
        color: 0,
        collision_mask: 0,
        collision_group: 0,
    }
}

pub open spec fn dynamic_state_default() -> DynamicStateView {
    DynamicStateView { game: None, players: seq![], discs: seq![] }
}

pub open spec fn checkpoint_default() -> CheckpointView {
    CheckpointView {
        room_name: seq![],
        max_players: 0,
        stadium_json: seq![],
        score_limit: 0,
        time_limit_seconds: 0,
        teams_locked: false,
        red_team_colors: None,
        blue_team_colors: None,
        dynamic: None,
        initial_replay: seq![],
    }
}

pub open spec fn dynamic_frame_default() -> DynamicFrameView {
    DynamicFrameView { checkpoint_sequence: 0, state: None }
}

pub open spec fn envelope_default() -> EnvelopeView {
    EnvelopeView {
        protocol_version: 0,
        epoch: 0,
        sequence: 0,
        source_tick: 0,
        source_time_micros: 0,
        audio_cues: seq![],
        payload: None,
    }
}

impl Default for Vec2 {
    fn default() -> (r: Vec2)
        ensures
            r == vec2_default(),
    {
        Vec2 { x: 0, y: 0 }
    }
}

impl Default for TeamColors {
    fn default() -> (r: TeamColors)
        ensures
            r@ == team_colors_default(),
    {
        TeamColors { angle: 0, text_color: 0, colors: Vec::new() }
    }
}

impl Default for GameState {
    fn default() -> (r: GameState)
        ensures
            r == game_state_default(),
    {
        GameState {
            status: 0,
            red_score: 0,
            blue_score: 0,
            elapsed_seconds: 0,
            paused_ticks: 0,
            kickoff_team: 0,
            active_ticks: 0,
            countdown_ticks: 0,
            phase_code: 0,
        }
    }
}

impl Default for PlayerState {
    fn default() -> (r: PlayerState)
        ensures
            r@ == player_state_default(),
    {
        PlayerState {
            id: 0,
            name: String::new(),
            team: 0,
            admin: false,
            player_number: 0,
            activity: false,
            position: None,
            disc_index: None,
            avatar: None,
            input: 0,
        }
    }
}

impl Default for DiscState {
    fn default() -> (r: DiscState)
        ensures
            r == disc_state_default(),
    {
        DiscState {
            index: 0,
            position: None,
            speed: None,
            gravity: None,
            radius: 0,
            bounce: 0,
            inverse_mass: 0,
            damping: 0,
            color: 0,
            collision_mask: 0,
            collision_group: 0,
        }
    }
}

impl Default for DynamicState {
    fn default() -> (r: DynamicState)
        ensures
            r@ == dynamic_state_default(),
    {
        let r = DynamicState { game: None, players: Vec::new(), discs: Vec::new() };
        assert(r@.players =~= Seq::<PlayerStateView>::empty());
        r
    }
}

impl Default for Checkpoint {
    fn default() -> (r: Checkpoint)
        ensures
            r@ == checkpoint_default(),
    {
        Checkpoint {
            room_name: String::new(),
            max_players: 0,
            stadium_json: String::new(),
            score_limit: 0,
            time_limit_seconds: 0,
            teams_locked: false,
            red_team_colors: None,
            blue_team_colors: None,
            dynamic: None,
            initial_replay: Vec::new(),
        }
    }
}

impl Default for DynamicFrame {
    fn default() -> (r: DynamicFrame)
        ensures
            r@ == dynamic_frame_default(),
    {
        DynamicFrame { checkpoint_sequence: 0, state: None }
    }
}

impl Default for Envelope {
    fn default() -> (r: Envelope)
        ensures
            r@ == envelope_default(),
    {
        Envelope {
            protocol_version: 0,
            epoch: 0,
            sequence: 0,
            source_tick: 0,
            source_time_micros: 0,
            audio_cues: Vec::new(),
            payload: None,
        }
    }
}

// ----------------------------------------------------------------------------
// Enumerations and their wire numbers
// ----------------------------------------------------------------------------

/// Whether `value` is the wire number of an [`AudioCueKind`].
pub open spec fn is_audio_cue(value: i32) -> bool {
    0 <= value <= 5
}

impl AudioCueKind {
    pub open spec fn wire_number(self) -> i32 {
        match self {
            AudioCueKind::PlayerJoin => 0,
            AudioCueKind::PlayerLeave => 1,
            AudioCueKind::BallKick => 2,
            AudioCueKind::Goal => 3,
            AudioCueKind::Chat => 4,
            AudioCueKind::Notification => 5,
        }
    }

    /// The wire number of this cue.
    pub fn as_i32(self) -> (n: i32)
        ensures
            n == self.wire_number(),
    {
        match self {
            AudioCueKind::PlayerJoin => 0,
            AudioCueKind::PlayerLeave => 1,
            AudioCueKind::BallKick => 2,
            AudioCueKind::Goal => 3,
            AudioCueKind::Chat => 4,
            AudioCueKind::Notification => 5,
        }
    }

    /// The cue whose wire number is `value`, if there is one.
    pub fn try_from_i32(value: i32) -> (res: Option<AudioCueKind>)
        ensures
            res is Some <==> is_audio_cue(value),
            res matches Some(k) ==> k.wire_number() == value,
    {
        match value {
            0 => Some(AudioCueKind::PlayerJoin),
            1 => Some(AudioCueKind::PlayerLeave),
            2 => Some(AudioCueKind::BallKick),
            3 => Some(AudioCueKind::Goal),
            4 => Some(AudioCueKind::Chat),
            5 => Some(AudioCueKind::Notification),
            _ => None,
        }
    }

    /// Whether `value` is the wire number of a value of this enumeration.
    pub fn is_valid(value: i32) -> (b: bool)
        ensures
            b <==> 0 <= value <= 5,
    {
        0 <= value && value <= 5
    }
}

impl Team {
    pub open spec fn wire_number(self) -> i32 {
        match self {
            Team::Spectators => 0,
            Team::Red => 1,
            Team::Blue => 2,
        }
    }

    /// The wire number of this team.
    pub fn as_i32(self) -> (n: i32)
        ensures
            n == self.wire_number(),
    {
        match self {
            Team::Spectators => 0,
            Team::Red => 1,
            Team::Blue => 2,
        }
    }

    /// The team whose wire number is `value`, if there is one.
    pub fn try_from_i32(value: i32) -> (res: Option<Team>)
        ensures
            res is Some <==> 0 <= value <= 2,
            res matches Some(t) ==> t.wire_number() == value,
    {
        match value {
            0 => Some(Team::Spectators),
            1 => Some(Team::Red),
            2 => Some(Team::Blue),
            _ => None,
        }
    }

    /// Whether `value` is the wire number of a value of this enumeration.
    pub fn is_valid(value: i32) -> (b: bool)
        ensures
            b <==> 0 <= value <= 2,
    {
        0 <= value && value <= 2
    }
}

impl GameStatus {
    pub open spec fn wire_number(self) -> i32 {
        match self {
            GameStatus::Stopped => 0,
            GameStatus::Running => 1,
            GameStatus::Paused => 2,
            GameStatus::Resuming => 3,
        }
    }

    /// The wire number of this status.
    pub fn as_i32(self) -> (n: i32)
        ensures
            n == self.wire_number(),
    {
        match self {
            GameStatus::Stopped => 0,
            GameStatus::Running => 1,
            GameStatus::Paused => 2,
            GameStatus::Resuming => 3,
        }
    }

    /// The status whose wire number is `value`, if there is one.
    pub fn try_from_i32(value: i32) -> (res: Option<GameStatus>)
        ensures
            res is Some <==> 0 <= value <= 3,
            res matches Some(s) ==> s.wire_number() == value,
    {
        match value {
            0 => Some(GameStatus::Stopped),
            1 => Some(GameStatus::Running),
            2 => Some(GameStatus::Paused),
            3 => Some(GameStatus::Resuming),
            _ => None,
        }
    }

    /// Whether `value` is the wire number of a value of this enumeration.
    pub fn is_valid(value: i32) -> (b: bool)
        ensures
            b <==> 0 <= value <= 3,
    {
        0 <= value && value <= 3
    }
}

impl Default for AudioCueKind {
    /// The cue with wire number zero.
    fn default() -> (k: AudioCueKind)
        ensures
            k == AudioCueKind::PlayerJoin,
    {
        AudioCueKind::PlayerJoin
    }
}

impl Default for Team {
    /// The team with wire number zero.
    fn default() -> (t: Team)
        ensures
            t == Team::Spectators,
    {
        Team::Spectators
    }
}

impl Default for GameStatus {
    /// The status with wire number zero.
    fn default() -> (g: GameStatus)
        ensures
            g == GameStatus::Stopped,
    {
        GameStatus::Stopped
    }
}

} // verus!
