//! Frames: the limits of the protocol around the message encoding.

use vstd::prelude::*;

use crate::envelope::{Payload, PayloadView};
use crate::messages::{AudioCueKind, DynamicState, DynamicStateView, Envelope, EnvelopeView, is_audio_cue};
use crate::decode::{envelope_decode_failure, envelope_decoding};
use crate::failure::{decimal, decimal_text, failure_text};
use crate::encode::envelope_bytes;
use crate::{
    MAX_AUDIO_CUES, MAX_DISCS, MAX_FRAME_BYTES, MAX_PLAYERS, MAX_STADIUM_JSON_BYTES,
    PROTOCOL_VERSION,
};

verus! {

/// Why a frame was refused.
#[derive(Clone, Debug, PartialEq, Eq)]
pub enum ProtocolError {
    FrameTooLarge,
    Decode(String),
    UnsupportedVersion(u32),
    MissingPayload,
    MissingCheckpointState,
    MissingDynamicState,
    TooManyPlayers,
    TooManyDiscs,
    TooManyAudioCues,
    UnknownAudioCue,
    StadiumTooLarge,
    BootstrapTooLarge,
    InvalidSequence,
}

/// The message of each error.
pub open spec fn error_message(e: ProtocolError) -> Seq<char> {
    match e {
        ProtocolError::FrameTooLarge => "live frame exceeds the "@ + decimal(MAX_FRAME_BYTES as nat)
            + "-byte limit"@,
        ProtocolError::Decode(text) => "live frame could not be decoded: "@ + text@,
        ProtocolError::UnsupportedVersion(v) => "unsupported live protocol version "@ + decimal(v as nat),
        ProtocolError::MissingPayload => "live frame has no payload"@,
        ProtocolError::MissingCheckpointState => "checkpoint has no dynamic state"@,
        ProtocolError::MissingDynamicState => "dynamic frame has no state"@,
        ProtocolError::TooManyPlayers => "live frame contains too many players"@,
        ProtocolError::TooManyDiscs => "live frame contains too many discs"@,
        ProtocolError::TooManyAudioCues => "live frame contains too many audio cues"@,
        ProtocolError::UnknownAudioCue => "live frame contains an unknown audio cue"@,
        ProtocolError::StadiumTooLarge => "checkpoint stadium exceeds the size limit"@,
        ProtocolError::BootstrapTooLarge => "checkpoint bootstrap exceeds the size limit"@,
        ProtocolError::InvalidSequence => "live frame sequence must be positive"@,
    }
}

impl ProtocolError {
    /// The message that describes this error.
    pub fn message(&self) -> (text: String)
        ensures
            text@ == error_message(*self),
    {
        match self {
            ProtocolError::FrameTooLarge => {
                let mut out = String::from_str("live frame exceeds the ");
                let digits = decimal_text(MAX_FRAME_BYTES as u64);
                out.append(digits.as_str());
                out.append("-byte limit");
                out
            },
            ProtocolError::Decode(text) => {
                let mut out = String::from_str("live frame could not be decoded: ");
                out.append(text.as_str());
                out
            },
            ProtocolError::UnsupportedVersion(v) => {
                let mut out = String::from_str("unsupported live protocol version ");
                let digits = decimal_text(*v as u64);
                out.append(digits.as_str());
                out
            },
            ProtocolError::MissingPayload => String::from_str("live frame has no payload"),
            ProtocolError::MissingCheckpointState => String::from_str("checkpoint has no dynamic state"),
            ProtocolError::MissingDynamicState => String::from_str("dynamic frame has no state"),
            ProtocolError::TooManyPlayers => String::from_str("live frame contains too many players"),
            ProtocolError::TooManyDiscs => String::from_str("live frame contains too many discs"),
            ProtocolError::TooManyAudioCues => String::from_str("live frame contains too many audio cues"),
            ProtocolError::UnknownAudioCue => String::from_str("live frame contains an unknown audio cue"),
            ProtocolError::StadiumTooLarge => String::from_str("checkpoint stadium exceeds the size limit"),
            ProtocolError::BootstrapTooLarge => String::from_str("checkpoint bootstrap exceeds the size limit"),
            ProtocolError::InvalidSequence => String::from_str("live frame sequence must be positive"),
        }
    }
}

/// Number of bytes of the UTF-8 encoding of `s`.
pub open spec fn utf8_len(s: Seq<char>) -> nat {
    vstd::utf8::encode_utf8(s).len()
}

/// The limits on the dynamic state of a frame.
pub open spec fn state_check(state: DynamicStateView) -> Result<(), ProtocolError> {
    if state.players.len() > MAX_PLAYERS {
        Err(ProtocolError::TooManyPlayers)
    } else if state.discs.len() > MAX_DISCS {
        Err(ProtocolError::TooManyDiscs)
    } else {
        Ok(())
    }
}

/// The rules that every frame obeys, checked in this order.
pub open spec fn envelope_check(e: EnvelopeView) -> Result<(), ProtocolError> {
    if e.protocol_version != PROTOCOL_VERSION {
        Err(ProtocolError::UnsupportedVersion(e.protocol_version))
    } else if e.sequence == 0 {
        Err(ProtocolError::InvalidSequence)
    } else if e.audio_cues.len() > MAX_AUDIO_CUES {
        Err(ProtocolError::TooManyAudioCues)
    } else if exists|i: int| 0 <= i < e.audio_cues.len() && !is_audio_cue(#[trigger] e.audio_cues[i]) {
        Err(ProtocolError::UnknownAudioCue)
    } else {
        match e.payload {
            None => Err(ProtocolError::MissingPayload),
            Some(PayloadView::Checkpoint(c)) => {
                if utf8_len(c.stadium_json) > MAX_STADIUM_JSON_BYTES {
                    Err(ProtocolError::StadiumTooLarge)
                } else if c.initial_replay.len() > MAX_STADIUM_JSON_BYTES {
                    Err(ProtocolError::BootstrapTooLarge)
                } else {
                    match c.dynamic {
                        None => Err(ProtocolError::MissingCheckpointState),
                        Some(s) => state_check(s),
                    }
                }
            },
            Some(PayloadView::Dynamic(f)) => match f.state {
                None => Err(ProtocolError::MissingDynamicState),
                Some(s) => state_check(s),
            },
        }
    }
}

fn validate_state(state: &DynamicState) -> (res: Result<(), ProtocolError>)
    ensures
        res == state_check(state@),
{
    if state.players.len() > MAX_PLAYERS {
        return Err(ProtocolError::TooManyPlayers);
    }
    if state.discs.len() > MAX_DISCS {
        return Err(ProtocolError::TooManyDiscs);
    }
    Ok(())
}

/// Checks the rules of the protocol on `envelope`: its version, a positive
/// sequence, at most `MAX_AUDIO_CUES` known audio cues, a payload with its
/// state, and the size limits of stadium, bootstrap, players and discs.
pub fn validate(envelope: &Envelope) -> (res: Result<(), ProtocolError>)
    ensures
        res == envelope_check(envelope@),
{
    if envelope.protocol_version != PROTOCOL_VERSION {
        return Err(ProtocolError::UnsupportedVersion(envelope.protocol_version));
    }
    if envelope.sequence == 0 {
        return Err(ProtocolError::InvalidSequence);
    }
    if envelope.audio_cues.len() > MAX_AUDIO_CUES {
        return Err(ProtocolError::TooManyAudioCues);
    }
    let n = envelope.audio_cues.len();
    let mut i: usize = 0;
    while i < n
        invariant
            n == envelope.audio_cues@.len(),
            n <= MAX_AUDIO_CUES,
            envelope.protocol_version == PROTOCOL_VERSION,
            envelope.sequence != 0,
            i <= n,
            forall|j: int| 0 <= j < i ==> is_audio_cue(#[trigger] envelope.audio_cues@[j]),
        decreases n - i,
    {
        if AudioCueKind::try_from_i32(envelope.audio_cues[i]).is_none() {
            assert(!is_audio_cue(envelope@.audio_cues[i as int]));
            return Err(ProtocolError::UnknownAudioCue);
        }
        i = i + 1;
    }
    match &envelope.payload {
        None => Err(ProtocolError::MissingPayload),
        Some(Payload::Checkpoint(checkpoint)) => {
            if checkpoint.stadium_json.as_str().as_bytes().len() > MAX_STADIUM_JSON_BYTES {
                return Err(ProtocolError::StadiumTooLarge);
            }
            if checkpoint.initial_replay.len() > MAX_STADIUM_JSON_BYTES {
                return Err(ProtocolError::BootstrapTooLarge);
            }
            match &checkpoint.dynamic {
                None => Err(ProtocolError::MissingCheckpointState),
                Some(state) => validate_state(state),
            }
        },
        Some(Payload::Dynamic(frame)) => match &frame.state {
            None => Err(ProtocolError::MissingDynamicState),
            Some(state) => validate_state(state),
        },
    }
}

/// The frame of an envelope: its encoding, if the envelope obeys the rules
/// and the encoding fits in `MAX_FRAME_BYTES`.
pub open spec fn encoded_frame(e: EnvelopeView) -> Result<Seq<u8>, ProtocolError> {
    match envelope_check(e) {
        Err(err) => Err(err),
        Ok(_) => if envelope_bytes(e).len() > MAX_FRAME_BYTES {
            Err(ProtocolError::FrameTooLarge)
        } else {
            Ok(envelope_bytes(e))
        },
    }
}

/// Checks `envelope` against the rules of the protocol and encodes it; the
/// frame may not exceed `MAX_FRAME_BYTES`.
pub fn encode_frame(envelope: &Envelope) -> (res: Result<Vec<u8>, ProtocolError>)
    ensures
        match res {
            Ok(bytes) => encoded_frame(envelope@) == Ok::<Seq<u8>, ProtocolError>(bytes@),
            Err(err) => encoded_frame(envelope@) == Err::<Seq<u8>, ProtocolError>(err),
        },
{
    validate(envelope)?;
    let bytes = envelope.encode_to_vec();
    if bytes.len() > MAX_FRAME_BYTES {
        return Err(ProtocolError::FrameTooLarge);
    }
    Ok(bytes)
}

/// Decodes a frame and checks it against the rules of the protocol. A frame
/// longer than `MAX_FRAME_BYTES` is refused before any decoding; bytes that
/// are no envelope give `ProtocolError::Decode` with the text that `prost`
/// displays for the decoding error.
pub fn decode_frame(bytes: &[u8]) -> (res: Result<Envelope, ProtocolError>)
    ensures
        bytes@.len() > MAX_FRAME_BYTES ==> res == Err::<Envelope, ProtocolError>(
            ProtocolError::FrameTooLarge,
        ),
        bytes@.len() <= MAX_FRAME_BYTES ==> match envelope_decoding(bytes@) {
            None => res matches Err(ProtocolError::Decode(text)) && text@ == failure_text(
                envelope_decode_failure(bytes@),
            ),
            Some(v) => match envelope_check(v) {
                Err(err) => res == Err::<Envelope, ProtocolError>(err),
                Ok(_) => res matches Ok(e) && e@ == v,
            },
        },
{
    if bytes.len() > MAX_FRAME_BYTES {
        return Err(ProtocolError::FrameTooLarge);
    }
    let envelope = match Envelope::decode(bytes) {
        Ok(e) => e,
        Err(failure) => return Err(ProtocolError::Decode(failure.text())),
    };
    validate(&envelope)?;
    Ok(envelope)
}

} // verus!
