//! The closed set of message kinds: the tag of each, the shape of its
//! payload, and the small enumerations that payloads carry.

use vstd::prelude::*;

verus! {

/// Which players pass through obstacles unharmed.
#[derive(Clone, Copy, Debug, PartialEq, Eq, Structural)]
pub enum NoClip {
    Off,
    Player1,
    Player2,
    Both,
}

impl NoClip {
    /// The ordinal that stands for this mode on the wire.
    pub open spec fn ordinal_spec(self) -> u16 {
        match self {
            NoClip::Off => 0,
            NoClip::Player1 => 1,
            NoClip::Player2 => 2,
            NoClip::Both => 3,
        }
    }

    /// The mode that an ordinal stands for, if it stands for one.
    pub open spec fn of_ordinal(ordinal: u16) -> Option<NoClip> {
        match ordinal {
            0 => Some(NoClip::Off),
            1 => Some(NoClip::Player1),
            2 => Some(NoClip::Player2),
            3 => Some(NoClip::Both),
            _ => None,
        }
    }

    /// The ordinal of this value.
    #[verifier::when_used_as_spec(ordinal_spec)]
    pub fn ordinal(self) -> (r: u16)
        ensures
            r == self.ordinal_spec(),
    {
        match self {
            NoClip::Off => 0,
            NoClip::Player1 => 1,
            NoClip::Player2 => 2,
            NoClip::Both => 3,
        }
    }

    /// The value with this ordinal, if there is one.
    pub fn from_ordinal(ordinal: u16) -> (r: Option<NoClip>)
        ensures
            r == NoClip::of_ordinal(ordinal),
    {
        match ordinal {
            0 => Some(NoClip::Off),
            1 => Some(NoClip::Player1),
            2 => Some(NoClip::Player2),
            3 => Some(NoClip::Both),
            _ => None,
        }
    }

    /// Every mode is found again from its ordinal, and the ordinals are
    /// exactly those below four.
    pub proof fn lemma_ordinal_round_trip(mode: NoClip, ordinal: u16)
        ensures
            NoClip::of_ordinal(mode.ordinal_spec()) == Some(mode),
            NoClip::of_ordinal(ordinal) is Some <==> ordinal < 4,
            NoClip::of_ordinal(ordinal) is Some ==> NoClip::of_ordinal(
                ordinal,
            )->Some_0.ordinal_spec() == ordinal,
    {
    }
}

/// The patches to the host process that can be applied and taken back.
#[derive(Clone, Copy, Debug, PartialEq, Eq, Structural)]
pub enum HackName {
    AntiCheatBypass,
    PracticeMusic,
    NoRespawnFlash,
    IgnoreEscape,
    DisableDeathEffect,
}

impl HackName {
    /// The ordinal that stands for this patch on the wire.
    pub open spec fn ordinal_spec(self) -> u16 {
        match self {
            HackName::AntiCheatBypass => 0,
            HackName::PracticeMusic => 1,
            HackName::NoRespawnFlash => 2,
            HackName::IgnoreEscape => 3,
            HackName::DisableDeathEffect => 4,
        }
    }

    /// The patch that an ordinal stands for, if it stands for one.
    pub open spec fn of_ordinal(ordinal: u16) -> Option<HackName> {
        match ordinal {
            0 => Some(HackName::AntiCheatBypass),
            1 => Some(HackName::PracticeMusic),
            2 => Some(HackName::NoRespawnFlash),
            3 => Some(HackName::IgnoreEscape),
            4 => Some(HackName::DisableDeathEffect),
            _ => None,
        }
    }

    /// The ordinal of this value.
    #[verifier::when_used_as_spec(ordinal_spec)]
    pub fn ordinal(self) -> (r: u16)
        ensures
            r == self.ordinal_spec(),
    {
        match self {
            HackName::AntiCheatBypass => 0,
            HackName::PracticeMusic => 1,
            HackName::NoRespawnFlash => 2,
            HackName::IgnoreEscape => 3,
            HackName::DisableDeathEffect => 4,
        }
    }

    /// The value with this ordinal, if there is one.
    pub fn from_ordinal(ordinal: u16) -> (r: Option<HackName>)
        ensures
            r == HackName::of_ordinal(ordinal),
    {
        match ordinal {
            0 => Some(HackName::AntiCheatBypass),
            1 => Some(HackName::PracticeMusic),
            2 => Some(HackName::NoRespawnFlash),
            3 => Some(HackName::IgnoreEscape),
            4 => Some(HackName::DisableDeathEffect),
            _ => None,
        }
    }

    /// Every patch is found again from its ordinal, and the ordinals are
    /// exactly those below five.
    pub proof fn lemma_ordinal_round_trip(hack: HackName, ordinal: u16)
        ensures
            HackName::of_ordinal(hack.ordinal_spec()) == Some(hack),
            HackName::of_ordinal(ordinal) is Some <==> ordinal < 5,
            HackName::of_ordinal(ordinal) is Some ==> HackName::of_ordinal(
                ordinal,
            )->Some_0.ordinal_spec() == ordinal,
    {
    }
}

/// How a replay indexes its inputs: by frame number or by horizontal
/// position.
#[derive(Clone, Copy, Debug, PartialEq, Eq, Structural)]
pub enum ReplayType {
    Frame,
    XPos,
}

impl ReplayType {
    /// The ordinal that stands for this type on the wire.
    pub open spec fn ordinal_spec(self) -> u16 {
        match self {
            ReplayType::Frame => 1,
            ReplayType::XPos => 2,
        }
    }

    /// The type that an ordinal stands for: one is by frame, every other
    /// value is by position.
    pub open spec fn of_ordinal(ordinal: u16) -> ReplayType {
        if ordinal == 1 {
            ReplayType::Frame
        } else {
            ReplayType::XPos
        }
    }

    /// The ordinal of this value.
    #[verifier::when_used_as_spec(ordinal_spec)]
    pub fn ordinal(self) -> (r: u16)
        ensures
            r == self.ordinal_spec(),
    {
        match self {
            ReplayType::Frame => 1,
            ReplayType::XPos => 2,
        }
    }

    /// The type that this ordinal stands for.
    pub fn from_ordinal(ordinal: u16) -> (r: ReplayType)
        ensures
            r == ReplayType::of_ordinal(ordinal),
    {
        if ordinal == 1 {
            ReplayType::Frame
        } else {
            ReplayType::XPos
        }
    }

    /// Every type is found again from its ordinal.
    pub proof fn lemma_ordinal_round_trip(replay: ReplayType)
        ensures
            ReplayType::of_ordinal(replay.ordinal_spec()) == replay,
    {
    }
}

/// The shape of what follows the tag in a frame.
#[derive(Clone, Copy, Debug, PartialEq, Eq, Structural)]
pub enum PayloadKind {
    /// Nothing: the frame is the tag alone.
    Empty,
    /// UTF-16 code units and a zero unit that ends them.
    Text,
    /// The two halves of a 32-bit pattern.
    Bits,
    /// One unit that is 0 or 1, and one padding unit.
    Flag,
    /// The ordinal of a [`NoClip`], and one padding unit.
    Clip,
    /// The ordinal of a [`HackName`], and one padding unit.
    Hack,
    /// The ordinal of a [`ReplayType`], and one padding unit.
    Replay,
}

pub const TAG_PING: u16 = 1;

pub const TAG_ERROR: u16 = 2;

pub const TAG_RECEIVED: u16 = 3;

pub const TAG_EXIT: u16 = 4;

pub const TAG_CHANGE_FPS: u16 = 5;

pub const TAG_SPEEDHACK: u16 = 6;

pub const TAG_RESPAWN_TIME: u16 = 7;

pub const TAG_FRAME_ADVANCE: u16 = 8;

pub const TAG_ACCURACY_FIX: u16 = 9;

pub const TAG_PRACTICE_FIX: u16 = 10;

pub const TAG_SET_NO_CLIP: u16 = 11;

pub const TAG_START_PLAYBACK: u16 = 12;

pub const TAG_STOP_PLAYBACK: u16 = 13;

pub const TAG_START_RECORDING: u16 = 14;

pub const TAG_STOP_RECORDING: u16 = 15;

pub const TAG_APPEND: u16 = 16;

pub const TAG_SAVE_REPLAY: u16 = 17;

pub const TAG_LOAD_REPLAY: u16 = 18;

pub const TAG_APPLY_HACK: u16 = 19;

pub const TAG_RESTORE_HACK: u16 = 20;

pub const TAG_SET_REPLAY_TYPE: u16 = 21;

/// The largest tag of the catalog. The tags are the numbers from one up to
/// this one; zero is never a tag.
pub const TAG_LAST: u16 = 21;

/// The payload shape that the catalog gives to a tag, if the tag is in it.
pub open spec fn tag_payload(tag: u16) -> Option<PayloadKind> {
    match tag {
        TAG_PING | TAG_RECEIVED | TAG_EXIT => Some(PayloadKind::Empty),
        TAG_START_PLAYBACK | TAG_STOP_PLAYBACK | TAG_START_RECORDING | TAG_STOP_RECORDING
        | TAG_APPEND => Some(PayloadKind::Empty),
        TAG_ERROR | TAG_SAVE_REPLAY | TAG_LOAD_REPLAY => Some(PayloadKind::Text),
        TAG_CHANGE_FPS | TAG_SPEEDHACK | TAG_RESPAWN_TIME => Some(PayloadKind::Bits),
        TAG_FRAME_ADVANCE | TAG_ACCURACY_FIX | TAG_PRACTICE_FIX => Some(PayloadKind::Flag),
        TAG_SET_NO_CLIP => Some(PayloadKind::Clip),
        TAG_APPLY_HACK | TAG_RESTORE_HACK => Some(PayloadKind::Hack),
        TAG_SET_REPLAY_TYPE => Some(PayloadKind::Replay),
        _ => None,
    }
}

/// Looks a tag up in the catalog.
pub fn payload_of_tag(tag: u16) -> (r: Option<PayloadKind>)
    ensures
        r == tag_payload(tag),
{
    match tag {
        TAG_PING | TAG_RECEIVED | TAG_EXIT => Some(PayloadKind::Empty),
        TAG_START_PLAYBACK | TAG_STOP_PLAYBACK | TAG_START_RECORDING | TAG_STOP_RECORDING
        | TAG_APPEND => Some(PayloadKind::Empty),
        TAG_ERROR | TAG_SAVE_REPLAY | TAG_LOAD_REPLAY => Some(PayloadKind::Text),
        TAG_CHANGE_FPS | TAG_SPEEDHACK | TAG_RESPAWN_TIME => Some(PayloadKind::Bits),
        TAG_FRAME_ADVANCE | TAG_ACCURACY_FIX | TAG_PRACTICE_FIX => Some(PayloadKind::Flag),
        TAG_SET_NO_CLIP => Some(PayloadKind::Clip),
        TAG_APPLY_HACK | TAG_RESTORE_HACK => Some(PayloadKind::Hack),
        TAG_SET_REPLAY_TYPE => Some(PayloadKind::Replay),
        _ => None,
    }
}

/// A message of the protocol. The three rates are held as the bit pattern
/// of an IEEE-754 single-precision number, which is what travels.
#[derive(Debug, PartialEq, Eq)]
pub enum Message {
    Ping,
    Error(String),
    /// The acknowledgement of a message that asked for one.
    Received,
    Exit,
    ChangeFPS(u32),
    Speedhack(u32),
    RespawnTime(u32),
    FrameAdvance(bool),
    AccuracyFix(bool),
    PracticeFix(bool),
    SetNoClip(NoClip),
    StartPlayback,
    StopPlayback,
    StartRecording,
    StopRecording,
    Append,
    SaveReplay(String),
    LoadReplay(String),
    ApplyHack(HackName),
    RestoreHack(HackName),
    SetReplayType(ReplayType),
}

/// What a [`Message`] is to the contracts: the same variants, with text as
/// a sequence of characters.
pub enum MessageView {
    Ping,
    Error(Seq<char>),
    Received,
    Exit,
    ChangeFPS(u32),
    Speedhack(u32),
    RespawnTime(u32),
    FrameAdvance(bool),
    AccuracyFix(bool),
    PracticeFix(bool),
    SetNoClip(NoClip),
    StartPlayback,
    StopPlayback,
    StartRecording,
    StopRecording,
    Append,
    SaveReplay(Seq<char>),
    LoadReplay(Seq<char>),
    ApplyHack(HackName),
    RestoreHack(HackName),
    SetReplayType(ReplayType),
}

impl View for Message {
    type V = MessageView;

    open spec fn view(&self) -> MessageView {
        match self {
            Message::Ping => MessageView::Ping,
            Message::Error(text) => MessageView::Error(text@),
            Message::Received => MessageView::Received,
            Message::Exit => MessageView::Exit,
            Message::ChangeFPS(bits) => MessageView::ChangeFPS(*bits),
            Message::Speedhack(bits) => MessageView::Speedhack(*bits),
            Message::RespawnTime(bits) => MessageView::RespawnTime(*bits),
            Message::FrameAdvance(on) => MessageView::FrameAdvance(*on),
            Message::AccuracyFix(on) => MessageView::AccuracyFix(*on),
            Message::PracticeFix(on) => MessageView::PracticeFix(*on),
            Message::SetNoClip(mode) => MessageView::SetNoClip(*mode),
            Message::StartPlayback => MessageView::StartPlayback,
            Message::StopPlayback => MessageView::StopPlayback,
            Message::StartRecording => MessageView::StartRecording,
            Message::StopRecording => MessageView::StopRecording,
            Message::Append => MessageView::Append,
            Message::SaveReplay(text) => MessageView::SaveReplay(text@),
            Message::LoadReplay(text) => MessageView::LoadReplay(text@),
            Message::ApplyHack(hack) => MessageView::ApplyHack(*hack),
            Message::RestoreHack(hack) => MessageView::RestoreHack(*hack),
            Message::SetReplayType(replay) => MessageView::SetReplayType(*replay),
        }
    }
}

impl Clone for Message {
    fn clone(&self) -> (copy: Message)
        ensures
            copy@ == self@,
    {
        match self {
            Message::Ping => Message::Ping,
            Message::Error(text) => Message::Error(text.clone()),
            Message::Received => Message::Received,
            Message::Exit => Message::Exit,
            Message::ChangeFPS(bits) => Message::ChangeFPS(*bits),
            Message::Speedhack(bits) => Message::Speedhack(*bits),
            Message::RespawnTime(bits) => Message::RespawnTime(*bits),
            Message::FrameAdvance(on) => Message::FrameAdvance(*on),
            Message::AccuracyFix(on) => Message::AccuracyFix(*on),
            Message::PracticeFix(on) => Message::PracticeFix(*on),
            Message::SetNoClip(mode) => Message::SetNoClip(*mode),
            Message::StartPlayback => Message::StartPlayback,
            Message::StopPlayback => Message::StopPlayback,
            Message::StartRecording => Message::StartRecording,
            Message::StopRecording => Message::StopRecording,
            Message::Append => Message::Append,
            Message::SaveReplay(text) => Message::SaveReplay(text.clone()),
            Message::LoadReplay(text) => Message::LoadReplay(text.clone()),
            Message::ApplyHack(hack) => Message::ApplyHack(*hack),
            Message::RestoreHack(hack) => Message::RestoreHack(*hack),
            Message::SetReplayType(replay) => Message::SetReplayType(*replay),
        }
    }
}

impl MessageView {
    /// The tag of the message's variant.
    pub open spec fn tag(self) -> u16 {
        match self {
            MessageView::Ping => TAG_PING,
            MessageView::Error(_) => TAG_ERROR,
            MessageView::Received => TAG_RECEIVED,
            MessageView::Exit => TAG_EXIT,
            MessageView::ChangeFPS(_) => TAG_CHANGE_FPS,
            MessageView::Speedhack(_) => TAG_SPEEDHACK,
            MessageView::RespawnTime(_) => TAG_RESPAWN_TIME,
            MessageView::FrameAdvance(_) => TAG_FRAME_ADVANCE,
            MessageView::AccuracyFix(_) => TAG_ACCURACY_FIX,
            MessageView::PracticeFix(_) => TAG_PRACTICE_FIX,
            MessageView::SetNoClip(_) => TAG_SET_NO_CLIP,
            MessageView::StartPlayback => TAG_START_PLAYBACK,
            MessageView::StopPlayback => TAG_STOP_PLAYBACK,
            MessageView::StartRecording => TAG_START_RECORDING,
            MessageView::StopRecording => TAG_STOP_RECORDING,
            MessageView::Append => TAG_APPEND,
            MessageView::SaveReplay(_) => TAG_SAVE_REPLAY,
            MessageView::LoadReplay(_) => TAG_LOAD_REPLAY,
            MessageView::ApplyHack(_) => TAG_APPLY_HACK,
            MessageView::RestoreHack(_) => TAG_RESTORE_HACK,
            MessageView::SetReplayType(_) => TAG_SET_REPLAY_TYPE,
        }
    }

    /// The shape of the message's payload.
    pub open spec fn payload_kind(self) -> PayloadKind {
        match self {
            MessageView::Error(_) | MessageView::SaveReplay(_) | MessageView::LoadReplay(_) =>
                PayloadKind::Text,
            MessageView::ChangeFPS(_) | MessageView::Speedhack(_) | MessageView::RespawnTime(_) =>
                PayloadKind::Bits,
            MessageView::FrameAdvance(_) | MessageView::AccuracyFix(_) | MessageView::PracticeFix(
                _,
            ) => PayloadKind::Flag,
            MessageView::SetNoClip(_) => PayloadKind::Clip,
            MessageView::ApplyHack(_) | MessageView::RestoreHack(_) => PayloadKind::Hack,
            MessageView::SetReplayType(_) => PayloadKind::Replay,
            _ => PayloadKind::Empty,
        }
    }

    /// The catalog holds every message: its tag lies between one and the
    /// last tag, and the shape found under that tag is the message's own.
    pub proof fn lemma_in_catalog(self)
        ensures
            1 <= self.tag() <= TAG_LAST,
            tag_payload(self.tag()) == Some(self.payload_kind()),
    {
    }
}

/// The catalog holds the tags from one to the last, and no other.
pub proof fn lemma_tags_are_dense(tag: u16)
    ensures
        tag_payload(tag) is Some <==> 1 <= tag <= TAG_LAST,
{
}

impl Message {
    /// The tag that leads this message's frame.
    pub fn tag(&self) -> (r: u16)
        ensures
            r == self@.tag(),
    {
        match self {
            Message::Ping => TAG_PING,
            Message::Error(_) => TAG_ERROR,
            Message::Received => TAG_RECEIVED,
            Message::Exit => TAG_EXIT,
            Message::ChangeFPS(_) => TAG_CHANGE_FPS,
            Message::Speedhack(_) => TAG_SPEEDHACK,
            Message::RespawnTime(_) => TAG_RESPAWN_TIME,
            Message::FrameAdvance(_) => TAG_FRAME_ADVANCE,
            Message::AccuracyFix(_) => TAG_ACCURACY_FIX,
            Message::PracticeFix(_) => TAG_PRACTICE_FIX,
            Message::SetNoClip(_) => TAG_SET_NO_CLIP,
            Message::StartPlayback => TAG_START_PLAYBACK,
            Message::StopPlayback => TAG_STOP_PLAYBACK,
            Message::StartRecording => TAG_START_RECORDING,
            Message::StopRecording => TAG_STOP_RECORDING,
            Message::Append => TAG_APPEND,
            Message::SaveReplay(_) => TAG_SAVE_REPLAY,
            Message::LoadReplay(_) => TAG_LOAD_REPLAY,
            Message::ApplyHack(_) => TAG_APPLY_HACK,
            Message::RestoreHack(_) => TAG_RESTORE_HACK,
            Message::SetReplayType(_) => TAG_SET_REPLAY_TYPE,
        }
    }

    /// Whether this is the acknowledgement.
    pub fn is_received(&self) -> (r: bool)
        ensures
            r == (self@ == MessageView::Received),
    {
        match self {
            Message::Received => true,
            _ => false,
        }
    }
}

} // verus!
