//! Provider-neutral live HaxBall state protocol.
//!
//! The protocol contains only state needed to reproduce the visible room. It
//! deliberately has no fields for passwords, auth strings, connection data,
//! IP addresses, provider credentials, or program-private state.
//!
//! Frames are Protocol Buffers messages. The message layout is written out by
//! hand in `encode` and `decode`, which call the field-level primitives of
//! `prost::encoding`; `frame` checks the protocol's limits around them.

pub mod envelope;
pub mod messages;
pub mod frame;
pub mod varint;
pub mod wire;
pub mod encode;
pub mod decode;
pub mod failure;
pub mod equality;
pub mod laws;
pub mod schema;

pub use envelope::Payload;
pub use frame::{decode_frame, encode_frame, validate, ProtocolError};
pub use messages::{
    AudioCueKind, Checkpoint, DiscState, DynamicFrame, DynamicState, Envelope, GameState, GameStatus,
    PlayerState, Team, TeamColors, Vec2,
};

use vstd::prelude::*;

verus! {

pub const PROTOCOL_VERSION: u32 = 1;

pub const MAX_FRAME_BYTES: usize = 4 * 1024 * 1024;

pub const MAX_PLAYERS: usize = 128;

pub const MAX_DISCS: usize = 4_096;

pub const MAX_AUDIO_CUES: usize = 64;

pub const MAX_STADIUM_JSON_BYTES: usize = 2 * 1024 * 1024;

} // verus!
