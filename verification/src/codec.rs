//! The wire codec: a message as a frame of 16-bit code units, and a frame
//! as a message.
//!
//! A frame is the tag of the message and then its payload. The two halves
//! of a 32-bit pattern travel low half first, which is the order that the
//! little-endian machines on both ends of the transport give them.

use crate::catalog::{
    tag_payload, payload_of_tag, HackName, Message, MessageView, NoClip, PayloadKind, ReplayType,
    TAG_ACCURACY_FIX, TAG_APPEND, TAG_APPLY_HACK, TAG_CHANGE_FPS, TAG_ERROR, TAG_EXIT,
    TAG_FRAME_ADVANCE, TAG_LOAD_REPLAY, TAG_PING, TAG_PRACTICE_FIX, TAG_RECEIVED,
    TAG_RESPAWN_TIME, TAG_RESTORE_HACK, TAG_SAVE_REPLAY, TAG_SET_NO_CLIP, TAG_SET_REPLAY_TYPE,
    TAG_SPEEDHACK, TAG_START_PLAYBACK, TAG_START_RECORDING, TAG_STOP_PLAYBACK,
    TAG_STOP_RECORDING,
};
use crate::utf16::{
    decode_utf16, encode_utf16, lemma_units_without_zero, lemma_utf16_round_trip, utf16_text,
    utf16_units,
};
use vstd::prelude::*;
use vstd::slice::slice_subrange;

verus! {

/// Why a frame is no message.
#[derive(Clone, Copy, Debug, PartialEq, Eq, Structural)]
pub enum DecodeError {
    /// The first unit of the frame is no tag of the catalog.
    UnknownTag,
    /// The frame ends before the payload that its tag announces is whole.
    Truncated,
    /// The ordinal in the payload stands for no value of its enumeration.
    InvalidEnumValue,
}

/// The number of units of every payload of fixed shape: the value, and one
/// more unit, either the value's second half or padding.
pub const FIXED_PAYLOAD_UNITS: usize = 2;

/// The unit that fills a fixed payload up after a one-unit value.
pub const PADDING: u16 = 0;

/// The two units of a 32-bit pattern: its low half, then its high half.
pub open spec fn bits_payload(bits: u32) -> Seq<u16> {
    seq![(bits % 0x10000) as u16, (bits / 0x10000) as u16]
}

/// The payload of a one-unit value: the value, then padding.
pub open spec fn unit_payload(value: u16) -> Seq<u16> {
    seq![value, PADDING]
}

/// The unit of a flag.
pub open spec fn flag_unit(on: bool) -> u16 {
    if on {
        1
    } else {
        0
    }
}

/// The payload of text: its UTF-16 code units, then the zero unit.
pub open spec fn text_payload(text: Seq<char>) -> Seq<u16> {
    utf16_units(text).push(0)
}

/// What follows the tag in the frame of a message.
pub open spec fn payload(msg: MessageView) -> Seq<u16> {
    match msg {
        MessageView::Error(text) | MessageView::SaveReplay(text) | MessageView::LoadReplay(text) =>
            text_payload(text),
        MessageView::ChangeFPS(bits) | MessageView::Speedhack(bits) | MessageView::RespawnTime(
            bits,
        ) => bits_payload(bits),
        MessageView::FrameAdvance(on) | MessageView::AccuracyFix(on) | MessageView::PracticeFix(
            on,
        ) => unit_payload(flag_unit(on)),
        MessageView::SetNoClip(mode) => unit_payload(mode.ordinal_spec()),
        MessageView::ApplyHack(hack) | MessageView::RestoreHack(hack) => unit_payload(
            hack.ordinal_spec(),
        ),
        MessageView::SetReplayType(replay) => unit_payload(replay.ordinal_spec()),
        _ => Seq::empty(),
    }
}

/// The frame of a message: its tag, then its payload.
pub open spec fn encoding(msg: MessageView) -> Seq<u16> {
    seq![msg.tag()] + payload(msg)
}

/// Whether the first zero unit of `body` stands at `at`.
pub open spec fn ends_at(body: Seq<u16>, at: int) -> bool {
    &&& 0 <= at < body.len()
    &&& body[at] == 0
    &&& forall|i: int| 0 <= i < at ==> body[i] != 0
}

/// The text of a payload: what the units before the first zero unit stand
/// for. A payload without a zero unit is cut short.
pub open spec fn text_of(body: Seq<u16>) -> Result<Seq<char>, DecodeError> {
    if exists|at: int| ends_at(body, at) {
        Ok(utf16_text(body.take(choose|at: int| ends_at(body, at))))
    } else {
        Err(DecodeError::Truncated)
    }
}

/// The 32-bit pattern of a payload: the first unit is its low half, the
/// second its high half.
pub open spec fn bits_of(body: Seq<u16>) -> Result<u32, DecodeError> {
    if body.len() < FIXED_PAYLOAD_UNITS {
        Err(DecodeError::Truncated)
    } else {
        Ok((body[0] + body[1] * 0x10000) as u32)
    }
}

/// The flag of a payload: set where the first unit is one.
pub open spec fn flag_of(body: Seq<u16>) -> Result<bool, DecodeError> {
    if body.len() < FIXED_PAYLOAD_UNITS {
        Err(DecodeError::Truncated)
    } else {
        Ok(body[0] == 1)
    }
}

/// The no-clip mode of a payload: the one whose ordinal the first unit is.
pub open spec fn clip_of(body: Seq<u16>) -> Result<NoClip, DecodeError> {
    if body.len() < FIXED_PAYLOAD_UNITS {
        Err(DecodeError::Truncated)
    } else {
        match NoClip::of_ordinal(body[0]) {
            Some(mode) => Ok(mode),
            None => Err(DecodeError::InvalidEnumValue),
        }
    }
}

/// The patch of a payload: the one whose ordinal the first unit is.
pub open spec fn hack_of(body: Seq<u16>) -> Result<HackName, DecodeError> {
    if body.len() < FIXED_PAYLOAD_UNITS {
        Err(DecodeError::Truncated)
    } else {
        match HackName::of_ordinal(body[0]) {
            Some(hack) => Ok(hack),
            None => Err(DecodeError::InvalidEnumValue),
        }
    }
}

/// The replay type of a payload: by frame where the first unit is one, by
/// position for every other value.
pub open spec fn replay_of(body: Seq<u16>) -> Result<ReplayType, DecodeError> {
    if body.len() < FIXED_PAYLOAD_UNITS {
        Err(DecodeError::Truncated)
    } else {
        Ok(ReplayType::of_ordinal(body[0]))
    }
}

/// The message of a frame, or why it is none. The first unit is the tag;
/// the payload is read from the units after it, and units after the
/// payload are not looked at.
pub open spec fn decoding(units: Seq<u16>) -> Result<MessageView, DecodeError> {
    if units.len() == 0 {
        Err(DecodeError::Truncated)
    } else {
        let body = units.skip(1);
        match units[0] {
            TAG_PING => Ok(MessageView::Ping),
            TAG_ERROR => match text_of(body) {
                Ok(text) => Ok(MessageView::Error(text)),
                Err(e) => Err(e),
            },
            TAG_RECEIVED => Ok(MessageView::Received),
            TAG_EXIT => Ok(MessageView::Exit),
            TAG_CHANGE_FPS => match bits_of(body) {
                Ok(bits) => Ok(MessageView::ChangeFPS(bits)),
                Err(e) => Err(e),
            },
            TAG_SPEEDHACK => match bits_of(body) {
                Ok(bits) => Ok(MessageView::Speedhack(bits)),
                Err(e) => Err(e),
            },
            TAG_RESPAWN_TIME => match bits_of(body) {
                Ok(bits) => Ok(MessageView::RespawnTime(bits)),
                Err(e) => Err(e),
            },
            TAG_FRAME_ADVANCE => match flag_of(body) {
                Ok(on) => Ok(MessageView::FrameAdvance(on)),
                Err(e) => Err(e),
            },
            TAG_ACCURACY_FIX => match flag_of(body) {
                Ok(on) => Ok(MessageView::AccuracyFix(on)),
                Err(e) => Err(e),
            },
            TAG_PRACTICE_FIX => match flag_of(body) {
                Ok(on) => Ok(MessageView::PracticeFix(on)),
                Err(e) => Err(e),
            },
            TAG_SET_NO_CLIP => match clip_of(body) {
                Ok(mode) => Ok(MessageView::SetNoClip(mode)),
                Err(e) => Err(e),
            },
            TAG_START_PLAYBACK => Ok(MessageView::StartPlayback),
            TAG_STOP_PLAYBACK => Ok(MessageView::StopPlayback),
            TAG_START_RECORDING => Ok(MessageView::StartRecording),
            TAG_STOP_RECORDING => Ok(MessageView::StopRecording),
            TAG_APPEND => Ok(MessageView::Append),
            TAG_SAVE_REPLAY => match text_of(body) {
                Ok(text) => Ok(MessageView::SaveReplay(text)),
                Err(e) => Err(e),
            },
            TAG_LOAD_REPLAY => match text_of(body) {
                Ok(text) => Ok(MessageView::LoadReplay(text)),
                Err(e) => Err(e),
            },
            TAG_APPLY_HACK => match hack_of(body) {
                Ok(hack) => Ok(MessageView::ApplyHack(hack)),
                Err(e) => Err(e),
            },
            TAG_RESTORE_HACK => match hack_of(body) {
                Ok(hack) => Ok(MessageView::RestoreHack(hack)),
                Err(e) => Err(e),
            },
            TAG_SET_REPLAY_TYPE => match replay_of(body) {
                Ok(replay) => Ok(MessageView::SetReplayType(replay)),
                Err(e) => Err(e),
            },
            _ => Err(DecodeError::UnknownTag),
        }
    }
}

/// A decoded text, with the text as a sequence of characters.
pub open spec fn text_view(r: Result<String, DecodeError>) -> Result<Seq<char>, DecodeError> {
    match r {
        Ok(text) => Ok(text@),
        Err(e) => Err(e),
    }
}

/// A decoded message, with the message as its view.
pub open spec fn message_view(r: Result<Message, DecodeError>) -> Result<
    MessageView,
    DecodeError,
> {
    match r {
        Ok(msg) => Ok(msg@),
        Err(e) => Err(e),
    }
}

/// Appends the payload of a 32-bit pattern.
pub fn encode_bits(frame: &mut Vec<u16>, bits: u32)
    ensures
        final(frame)@ == old(frame)@ + bits_payload(bits),
{
    frame.push((bits % 0x10000) as u16);
    frame.push((bits / 0x10000) as u16);
    assert(final(frame)@ =~= old(frame)@ + bits_payload(bits));
}

/// Appends the payload of a one-unit value.
pub fn encode_unit(frame: &mut Vec<u16>, value: u16)
    ensures
        final(frame)@ == old(frame)@ + unit_payload(value),
{
    frame.push(value);
    frame.push(PADDING);
    assert(final(frame)@ =~= old(frame)@ + unit_payload(value));
}

/// Appends the payload of text.
pub fn encode_text(frame: &mut Vec<u16>, text: &str)
    ensures
        final(frame)@ == old(frame)@ + text_payload(text@),
{
    let units = encode_utf16(text);
    frame.extend_from_slice(units.as_slice());
    frame.push(0);
    assert(final(frame)@ =~= old(frame)@ + text_payload(text@));
}

/// The frame of a message.
pub fn encode(msg: &Message) -> (frame: Vec<u16>)
    ensures
        frame@ == encoding(msg@),
{
    let mut frame: Vec<u16> = Vec::new();
    frame.push(msg.tag());
    assert(frame@ =~= seq![msg@.tag()]);
    match msg {
        Message::Error(text) | Message::SaveReplay(text) | Message::LoadReplay(text) => {
            encode_text(&mut frame, text.as_str());
        },
        Message::ChangeFPS(bits) | Message::Speedhack(bits) | Message::RespawnTime(bits) => {
            encode_bits(&mut frame, *bits);
        },
        Message::FrameAdvance(on) | Message::AccuracyFix(on) | Message::PracticeFix(on) => {
            encode_unit(
                &mut frame,
                if *on {
                    1
                } else {
                    0
                },
            );
        },
        Message::SetNoClip(mode) => {
            encode_unit(&mut frame, mode.ordinal());
        },
        Message::ApplyHack(hack) | Message::RestoreHack(hack) => {
            encode_unit(&mut frame, hack.ordinal());
        },
        Message::SetReplayType(replay) => {
            encode_unit(&mut frame, replay.ordinal());
        },
        _ => {
            assert(frame@ =~= seq![msg@.tag()] + Seq::<u16>::empty());
        },
    }
    frame
}

/// A payload has one first zero unit at most.
pub proof fn lemma_one_end(body: Seq<u16>, at: int, other: int)
    requires
        ends_at(body, at),
        ends_at(body, other),
    ensures
        at == other,
{
}

/// Reads the text of a payload.
pub fn decode_text(body: &[u16]) -> (r: Result<String, DecodeError>)
    ensures
        text_view(r) == text_of(body@),
{
    let mut at: usize = 0;
    while at < body.len() && body[at] != 0
        invariant
            at <= body.len(),
            forall|i: int| 0 <= i < at ==> body@[i] != 0,
        decreases body.len() - at,
    {
        at = at + 1;
    }
    if at == body.len() {
        Err(DecodeError::Truncated)
    } else {
        proof {
            assert(ends_at(body@, at as int));
            lemma_one_end(body@, at as int, choose|n: int| ends_at(body@, n));
        }
        let units = slice_subrange(body, 0, at);
        assert(units@ =~= body@.take(at as int));
        Ok(decode_utf16(units))
    }
}

/// Reads the 32-bit pattern of a payload.
pub fn decode_bits(body: &[u16]) -> (r: Result<u32, DecodeError>)
    ensures
        r == bits_of(body@),
{
    if body.len() < FIXED_PAYLOAD_UNITS {
        Err(DecodeError::Truncated)
    } else {
        let low: u32 = body[0] as u32;
        let high: u32 = body[1] as u32;
        Ok(low + high * 0x10000)
    }
}

/// Reads the flag of a payload.
pub fn decode_flag(body: &[u16]) -> (r: Result<bool, DecodeError>)
    ensures
        r == flag_of(body@),
{
    if body.len() < FIXED_PAYLOAD_UNITS {
        Err(DecodeError::Truncated)
    } else {
        Ok(body[0] == 1)
    }
}

/// Reads the no-clip mode of a payload.
pub fn decode_clip(body: &[u16]) -> (r: Result<NoClip, DecodeError>)
    ensures
        r == clip_of(body@),
{
    if body.len() < FIXED_PAYLOAD_UNITS {
        Err(DecodeError::Truncated)
    } else {
        match NoClip::from_ordinal(body[0]) {
            Some(mode) => Ok(mode),
            None => Err(DecodeError::InvalidEnumValue),
        }
    }
}

/// Reads the patch of a payload.
pub fn decode_hack(body: &[u16]) -> (r: Result<HackName, DecodeError>)
    ensures
        r == hack_of(body@),
{
    if body.len() < FIXED_PAYLOAD_UNITS {
        Err(DecodeError::Truncated)
    } else {
        match HackName::from_ordinal(body[0]) {
            Some(hack) => Ok(hack),
            None => Err(DecodeError::InvalidEnumValue),
        }
    }
}

/// Reads the replay type of a payload.
pub fn decode_replay(body: &[u16]) -> (r: Result<ReplayType, DecodeError>)
    ensures
        r == replay_of(body@),
{
    if body.len() < FIXED_PAYLOAD_UNITS {
        Err(DecodeError::Truncated)
    } else {
        Ok(ReplayType::from_ordinal(body[0]))
    }
}

/// The message of a frame, or why the frame is none.
pub fn decode(units: &[u16]) -> (r: Result<Message, DecodeError>)
    ensures
        message_view(r) == decoding(units@),
{
    if units.len() == 0 {
        return Err(DecodeError::Truncated);
    }
    let tag: u16 = units[0];
    let body = slice_subrange(units, 1, units.len());
    assert(body@ =~= units@.skip(1));
    match payload_of_tag(tag) {
        None => Err(DecodeError::UnknownTag),
        Some(PayloadKind::Empty) => Ok(
            match tag {
                TAG_PING => Message::Ping,
                TAG_RECEIVED => Message::Received,
                TAG_EXIT => Message::Exit,
                TAG_START_PLAYBACK => Message::StartPlayback,
                TAG_STOP_PLAYBACK => Message::StopPlayback,
                TAG_START_RECORDING => Message::StartRecording,
                TAG_STOP_RECORDING => Message::StopRecording,
                _ => Message::Append,
            },
        ),
        Some(PayloadKind::Text) => match decode_text(body) {
            Err(e) => Err(e),
            Ok(text) => Ok(
                match tag {
                    TAG_ERROR => Message::Error(text),
                    TAG_SAVE_REPLAY => Message::SaveReplay(text),
                    _ => Message::LoadReplay(text),
                },
            ),
        },
        Some(PayloadKind::Bits) => match decode_bits(body) {
            Err(e) => Err(e),
            Ok(bits) => Ok(
                match tag {
                    TAG_CHANGE_FPS => Message::ChangeFPS(bits),
                    TAG_SPEEDHACK => Message::Speedhack(bits),
                    _ => Message::RespawnTime(bits),
                },
            ),
        },
        Some(PayloadKind::Flag) => match decode_flag(body) {
            Err(e) => Err(e),
            Ok(on) => Ok(
                match tag {
                    TAG_FRAME_ADVANCE => Message::FrameAdvance(on),
                    TAG_ACCURACY_FIX => Message::AccuracyFix(on),
                    _ => Message::PracticeFix(on),
                },
            ),
        },
        Some(PayloadKind::Clip) => match decode_clip(body) {
            Err(e) => Err(e),
            Ok(mode) => Ok(Message::SetNoClip(mode)),
        },
        Some(PayloadKind::Hack) => match decode_hack(body) {
            Err(e) => Err(e),
            Ok(hack) => Ok(
                match tag {
                    TAG_APPLY_HACK => Message::ApplyHack(hack),
                    _ => Message::RestoreHack(hack),
                },
            ),
        },
        Some(PayloadKind::Replay) => match decode_replay(body) {
            Err(e) => Err(e),
            Ok(replay) => Ok(Message::SetReplayType(replay)),
        },
    }
}

/// Whether a message comes back from its frame: its text, if it has any,
/// holds no NUL character, which on the wire would end the text early.
pub open spec fn survives_wire(msg: MessageView) -> bool {
    match msg {
        MessageView::Error(text) | MessageView::SaveReplay(text) | MessageView::LoadReplay(text) =>
            !text.contains('\0'),
        _ => true,
    }
}

/// Whether a text holds the NUL character.
pub fn holds_nul(text: &str) -> (found: bool)
    ensures
        found == text@.contains('\0'),
{
    let mut found = false;
    for c in it: text.chars()
        invariant
            it.seq() == text@,
            found == text@.take(it.index() as int).contains('\0'),
    {
        proof {
            let seen = text@.take(it.index() as int);
            let more = text@.take(it.index() + 1);
            assert(more =~= seen.push(c));
            if seen.contains('\0') {
                let at = choose|at: int| 0 <= at < seen.len() && seen[at] == '\0';
                assert(more[at] == '\0');
            }
            if more.contains('\0') && c != '\0' {
                let at = choose|at: int| 0 <= at < more.len() && more[at] == '\0';
                assert(seen[at] == '\0');
            }
            if c == '\0' {
                assert(more[more.len() - 1] == '\0');
            }
        }
        if c == '\0' {
            found = true;
        }
    }
    assert(text@.take(text@.len() as int) =~= text@);
    found
}

/// Tells whether a message comes back from its frame.
pub fn check_survives_wire(msg: &Message) -> (safe: bool)
    ensures
        safe == survives_wire(msg@),
{
    match msg {
        Message::Error(text) | Message::SaveReplay(text) | Message::LoadReplay(text) => !holds_nul(
            text.as_str(),
        ),
        _ => true,
    }
}

/// The payload of a text without NUL reads as that text, and ends where
/// its zero unit stands.
pub proof fn lemma_text_round_trip(text: Seq<char>, after: Seq<u16>)
    requires
        !text.contains('\0'),
    ensures
        ends_at(text_payload(text) + after, utf16_units(text).len() as int),
        text_of(text_payload(text) + after) == Ok::<Seq<char>, DecodeError>(text),
{
    let units = utf16_units(text);
    let body = text_payload(text) + after;
    let end = units.len() as int;
    lemma_units_without_zero(text);
    assert forall|i: int| 0 <= i < end implies body[i] != 0 by {
        assert(units.contains(body[i]));
    }
    assert(ends_at(body, end));
    lemma_one_end(body, end, choose|n: int| ends_at(body, n));
    assert(body.take(end) =~= units);
    lemma_utf16_round_trip(text);
}

/// The payload of a 32-bit pattern reads as that pattern.
pub proof fn lemma_bits_round_trip(bits: u32, after: Seq<u16>)
    ensures
        bits_of(bits_payload(bits) + after) == Ok::<u32, DecodeError>(bits),
{
    let body = bits_payload(bits) + after;
    assert(body[0] == bits % 0x10000);
    assert(body[1] == bits / 0x10000);
}

/// Decoding the frame of a message gives the message back, for every
/// message whose text holds no NUL character.
pub proof fn lemma_round_trip(msg: MessageView)
    requires
        survives_wire(msg),
    ensures
        decoding(encoding(msg)) == Ok::<MessageView, DecodeError>(msg),
{
    let frame = encoding(msg);
    let body = frame.skip(1);
    assert(frame[0] == msg.tag());
    assert(body =~= payload(msg));
    assert(payload(msg) + Seq::<u16>::empty() =~= payload(msg));
    match msg {
        MessageView::Error(text) | MessageView::SaveReplay(text) | MessageView::LoadReplay(text) => {
            lemma_text_round_trip(text, Seq::empty());
        },
        MessageView::ChangeFPS(bits) | MessageView::Speedhack(bits) | MessageView::RespawnTime(
            bits,
        ) => {
            lemma_bits_round_trip(bits, Seq::empty());
        },
        _ => {},
    }
}

/// A frame that goes on after a message's encoding still decodes to that
/// message: what follows the payload is not looked at.
pub proof fn lemma_trailing_units_ignored(msg: MessageView, after: Seq<u16>)
    requires
        survives_wire(msg),
    ensures
        decoding(encoding(msg) + after) == Ok::<MessageView, DecodeError>(msg),
{
    let frame = encoding(msg) + after;
    let body = frame.skip(1);
    assert(frame[0] == msg.tag());
    assert(body =~= payload(msg) + after);
    match msg {
        MessageView::Error(text) | MessageView::SaveReplay(text) | MessageView::LoadReplay(text) => {
            lemma_text_round_trip(text, after);
        },
        MessageView::ChangeFPS(bits) | MessageView::Speedhack(bits) | MessageView::RespawnTime(
            bits,
        ) => {
            lemma_bits_round_trip(bits, after);
        },
        _ => {},
    }
}

/// Every frame begins with the tag of its message, which is never zero, and
/// is as long as the tag and the payload together.
pub proof fn lemma_frame_leads_with_tag(msg: MessageView)
    ensures
        encoding(msg).len() == 1 + payload(msg).len(),
        encoding(msg)[0] == msg.tag(),
        encoding(msg)[0] != 0,
        tag_payload(encoding(msg)[0]) == Some(msg.payload_kind()),
{
}

/// Whether a payload of this shape is a value and one more unit.
pub open spec fn is_fixed(kind: PayloadKind) -> bool {
    kind != PayloadKind::Empty && kind != PayloadKind::Text
}

/// Whether the frame is too short for what its tag announces: it is empty,
/// or its text has no zero unit, or its fixed payload is not whole.
pub open spec fn is_cut_short(units: Seq<u16>) -> bool {
    units.len() == 0 || match tag_payload(units[0]) {
        Some(PayloadKind::Text) => !units.skip(1).contains(0u16),
        Some(kind) => is_fixed(kind) && units.len() < 1 + FIXED_PAYLOAD_UNITS,
        None => false,
    }
}

/// Whether the frame is whole and holds an ordinal that its enumeration
/// does not have.
pub open spec fn has_bad_ordinal(units: Seq<u16>) -> bool {
    units.len() >= 1 + FIXED_PAYLOAD_UNITS && match tag_payload(units[0]) {
        Some(PayloadKind::Clip) => NoClip::of_ordinal(units[1]) is None,
        Some(PayloadKind::Hack) => HackName::of_ordinal(units[1]) is None,
        _ => false,
    }
}

/// When decoding fails, and with which error. A frame whose first unit is
/// no tag of the catalog has an unknown tag, whatever follows. A frame
/// that is too short is cut short. A whole frame with an ordinal outside
/// its enumeration has an invalid value. Every other frame is a message.
pub proof fn lemma_decode_errors(units: Seq<u16>)
    ensures
        decoding(units) == Err::<MessageView, DecodeError>(DecodeError::UnknownTag) <==> units.len()
            > 0 && tag_payload(units[0]) is None,
        decoding(units) == Err::<MessageView, DecodeError>(DecodeError::Truncated) <==> is_cut_short(
            units,
        ),
        decoding(units) == Err::<MessageView, DecodeError>(DecodeError::InvalidEnumValue)
            <==> has_bad_ordinal(units),
        decoding(units) is Ok ==> decoding(units)->Ok_0.tag() == units[0],
{
    if units.len() > 0 {
        let body = units.skip(1);
        if body.len() > 0 {
            assert(body[0] == units[1]);
        }
        lemma_text_end(body);
    }
}

/// A payload has a first zero unit exactly when it has a zero unit.
pub proof fn lemma_text_end(body: Seq<u16>)
    ensures
        (exists|at: int| ends_at(body, at)) <==> body.contains(0u16),
        text_of(body) is Err <==> !body.contains(0u16),
        text_of(body) is Err ==> text_of(body) == Err::<Seq<char>, DecodeError>(
            DecodeError::Truncated,
        ),
{
    if body.contains(0u16) {
        body.index_of_first_ensures(0u16);
        let first = body.index_of_first(0u16)->Some_0;
        assert(ends_at(body, first));
    }
    if exists|at: int| ends_at(body, at) {
        let at = choose|at: int| ends_at(body, at);
        assert(body[at] == 0);
    }
}

/// A frame that was cut anywhere before its end is recognised as cut
/// short: no proper prefix of an encoding decodes to a message.
pub proof fn lemma_prefix_is_truncated(msg: MessageView, kept: int)
    requires
        survives_wire(msg),
        0 <= kept < encoding(msg).len(),
    ensures
        decoding(encoding(msg).take(kept)) == Err::<MessageView, DecodeError>(
            DecodeError::Truncated,
        ),
{
    let frame = encoding(msg);
    let cut = frame.take(kept);
    if kept > 0 {
        let body = cut.skip(1);
        assert(cut[0] == msg.tag());
        assert(body =~= payload(msg).take(kept - 1));
        match msg {
            MessageView::Error(text) | MessageView::SaveReplay(text) | MessageView::LoadReplay(
                text,
            ) => {
                lemma_units_without_zero(text);
                let units = utf16_units(text);
                assert forall|i: int| 0 <= i < body.len() implies body[i] != 0 by {
                    assert(body[i] == units[i]);
                    assert(units.contains(units[i]));
                }
                lemma_text_end(body);
            },
            _ => {},
        }
    }
}

} // verus!
