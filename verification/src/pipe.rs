//! The channel: one end of a duplex named pipe, as a state machine.
//!
//! A [`Pipe`] makes every decision of the channel and touches no transport.
//! Each operation is a function from the pipe's state and an event to the
//! next state and an action. The caller performs the action on the
//! transport and comes back with the event that tells how it went, until
//! the action is to finish.

use crate::catalog::{Message, MessageView};
use crate::codec::{
    decode, decoding, encode, encoding, lemma_prefix_is_truncated, lemma_round_trip,
    survives_wire, DecodeError,
};
use vstd::prelude::*;
use vstd::slice::slice_subrange;
use vstd::string::StringExecFns;

verus! {

/// The most code units that one read takes in. A longer frame does not
/// arrive whole.
pub const MAX_FRAME_UNITS: usize = 1024;

/// The number of bytes of one code unit on the transport.
pub const UNIT_BYTES: usize = 2;

/// The namespace that holds the endpoints.
pub const PIPE_NAMESPACE: &'static str = "\\\\.\\pipe\\";

/// The full name of the endpoint with the given short name.
pub open spec fn endpoint_path(name: Seq<char>) -> Seq<char> {
    PIPE_NAMESPACE@ + name
}

/// Where a pipe stands in its life. It begins unconnected, is connected
/// once, and after a fault or a disconnect stays disconnected.
#[derive(Clone, Copy, Debug, PartialEq, Eq, Structural)]
pub enum Link {
    Unconnected,
    Connected,
    Disconnected,
}

impl Link {
    /// The state after the connection was given up or lost: a connected
    /// pipe is disconnected, any other stays as it is.
    pub open spec fn closed(self) -> Link {
        if self == Link::Connected {
            Link::Disconnected
        } else {
            self
        }
    }
}

/// Why an operation on a pipe failed.
#[derive(Clone, Copy, Debug, PartialEq, Eq, Structural)]
pub enum PipeError {
    /// The pipe is not connected.
    NotConnected,
    /// The transport failed, or moved another number of bytes than the
    /// frame has. The pipe is disconnected from then on.
    TransportFault,
    /// A frame arrived that is no message.
    Decode(DecodeError),
    /// An acknowledgement was awaited and another message arrived.
    AckMismatch,
}

/// How long to wait between the attempts to open the endpoint.
#[derive(Clone, Copy, Debug, PartialEq, Eq, Structural)]
pub struct RetryPolicy {
    /// The longest wait for a busy endpoint to become free, in
    /// milliseconds.
    pub busy_wait_millis: u32,
    /// The pause before the next attempt, in milliseconds.
    pub backoff_millis: u64,
}

impl RetryPolicy {
    /// Twenty seconds for a busy endpoint, fifty milliseconds between
    /// attempts.
    pub fn standard() -> (policy: RetryPolicy)
        ensures
            policy == (RetryPolicy { busy_wait_millis: 20000, backoff_millis: 50 }),
    {
        RetryPolicy { busy_wait_millis: 20000, backoff_millis: 50 }
    }
}

/// What happened while connecting.
#[derive(Clone, Copy, Debug, PartialEq, Eq, Structural)]
pub enum ConnectEvent {
    /// Nothing yet: the caller wants to connect.
    Start,
    /// The endpoint was opened.
    Opened,
    /// The endpoint exists and all its instances are taken.
    Busy,
    /// The endpoint could not be opened for another reason.
    Failed,
}

/// What to do next while connecting.
#[derive(Clone, Copy, Debug, PartialEq, Eq, Structural)]
pub enum ConnectAction {
    /// Try to open the endpoint.
    Open,
    /// Wait until the endpoint is free or the time is over, pause, and try
    /// to open it again.
    WaitThenOpen { wait_millis: u32, backoff_millis: u64 },
    /// Release what the failed attempt left, pause, and try to open the
    /// endpoint again.
    ReleaseThenOpen { backoff_millis: u64 },
    /// The pipe is connected.
    Finish,
    /// This pipe cannot connect: it is connected already, or was.
    Refuse,
}

/// What happened while writing.
#[derive(Debug, PartialEq, Eq)]
pub enum WriteEvent {
    /// Nothing yet: the caller wants to write.
    Start,
    /// The transport took this many bytes of the frame.
    Transferred { bytes: usize },
    /// The transport reported a failure.
    TransferFailed,
    /// The read for the acknowledgement ended like this.
    Replied(Result<Message, PipeError>),
}

/// A [`WriteEvent`] in the contracts.
pub enum WriteEventView {
    Start,
    Transferred { bytes: usize },
    TransferFailed,
    Replied(Result<MessageView, PipeError>),
}

impl View for WriteEvent {
    type V = WriteEventView;

    open spec fn view(&self) -> WriteEventView {
        match self {
            WriteEvent::Start => WriteEventView::Start,
            WriteEvent::Transferred { bytes } => WriteEventView::Transferred { bytes: *bytes },
            WriteEvent::TransferFailed => WriteEventView::TransferFailed,
            WriteEvent::Replied(Ok(msg)) => WriteEventView::Replied(Ok(msg@)),
            WriteEvent::Replied(Err(e)) => WriteEventView::Replied(Err(*e)),
        }
    }
}

/// What to do next while writing.
#[derive(Debug, PartialEq, Eq)]
pub enum WriteAction {
    /// Hand this frame to the transport, whole and in one call.
    Transfer(Vec<u16>),
    /// Read one message from this pipe and come back with how that ended.
    AwaitReply,
    /// The write is over, with this result.
    Finish(Result<(), PipeError>),
}

/// A [`WriteAction`] in the contracts.
pub enum WriteActionView {
    Transfer(Seq<u16>),
    AwaitReply,
    Finish(Result<(), PipeError>),
}

impl View for WriteAction {
    type V = WriteActionView;

    open spec fn view(&self) -> WriteActionView {
        match self {
            WriteAction::Transfer(frame) => WriteActionView::Transfer(frame@),
            WriteAction::AwaitReply => WriteActionView::AwaitReply,
            WriteAction::Finish(r) => WriteActionView::Finish(*r),
        }
    }
}

/// What happened while reading.
#[derive(Debug, PartialEq, Eq)]
pub enum ReadEvent {
    /// Nothing yet: the caller wants to read.
    Start,
    /// The transport filled the first `bytes` bytes of `buffer`.
    Received { buffer: Vec<u16>, bytes: usize },
    /// The transport reported a failure.
    Failed,
}

/// A [`ReadEvent`] in the contracts.
pub enum ReadEventView {
    Start,
    Received { buffer: Seq<u16>, bytes: usize },
    Failed,
}

impl View for ReadEvent {
    type V = ReadEventView;

    open spec fn view(&self) -> ReadEventView {
        match self {
            ReadEvent::Start => ReadEventView::Start,
            ReadEvent::Received { buffer, bytes } => ReadEventView::Received {
                buffer: buffer@,
                bytes: *bytes,
            },
            ReadEvent::Failed => ReadEventView::Failed,
        }
    }
}

/// What to do next while reading.
#[derive(Debug, PartialEq, Eq)]
pub enum ReadAction {
    /// Read once from the transport, into a buffer of this many units.
    Receive { capacity: usize },
    /// The read is over, with this result.
    Finish(Result<Message, PipeError>),
}

/// A [`ReadAction`] in the contracts.
pub enum ReadActionView {
    Receive { capacity: usize },
    Finish(Result<MessageView, PipeError>),
}

impl View for ReadAction {
    type V = ReadActionView;

    open spec fn view(&self) -> ReadActionView {
        match self {
            ReadAction::Receive { capacity } => ReadActionView::Receive { capacity: *capacity },
            ReadAction::Finish(Ok(msg)) => ReadActionView::Finish(Ok(msg@)),
            ReadAction::Finish(Err(e)) => ReadActionView::Finish(Err(*e)),
        }
    }
}

/// One step of connecting. Only an unconnected pipe connects: it opens the
/// endpoint, tries again after every attempt that failed, however many
/// there are, and is connected once the endpoint was opened.
pub open spec fn connect_step(link: Link, policy: RetryPolicy, event: ConnectEvent) -> (
    Link,
    ConnectAction,
) {
    if link != Link::Unconnected {
        (link, ConnectAction::Refuse)
    } else {
        match event {
            ConnectEvent::Start => (link, ConnectAction::Open),
            ConnectEvent::Opened => (Link::Connected, ConnectAction::Finish),
            ConnectEvent::Busy => (
                link,
                ConnectAction::WaitThenOpen {
                    wait_millis: policy.busy_wait_millis,
                    backoff_millis: policy.backoff_millis,
                },
            ),
            ConnectEvent::Failed => (
                link,
                ConnectAction::ReleaseThenOpen { backoff_millis: policy.backoff_millis },
            ),
        }
    }
}

/// One step of writing `msg`. A pipe that is not connected refuses. A
/// connected one hands out the frame, takes a transfer of any other size
/// than the frame's as a fault, and then is done or asks for the reply.
/// The reply must be the acknowledgement: any other message is a
/// mismatch, and a failed read fails the write with the read's error.
/// Only a fault of the transport changes the state.
pub open spec fn write_step(link: Link, msg: MessageView, wait: bool, event: WriteEventView) -> (
    Link,
    WriteActionView,
) {
    match event {
        WriteEventView::Replied(Ok(MessageView::Received)) => (
            link,
            WriteActionView::Finish(Ok(())),
        ),
        WriteEventView::Replied(Ok(_)) => (
            link,
            WriteActionView::Finish(Err(PipeError::AckMismatch)),
        ),
        WriteEventView::Replied(Err(e)) => (link, WriteActionView::Finish(Err(e))),
        _ => if link != Link::Connected {
            (link, WriteActionView::Finish(Err(PipeError::NotConnected)))
        } else {
            match event {
                WriteEventView::Start => (link, WriteActionView::Transfer(encoding(msg))),
                WriteEventView::Transferred { bytes } => if bytes == UNIT_BYTES * encoding(
                    msg,
                ).len() {
                    if wait {
                        (link, WriteActionView::AwaitReply)
                    } else {
                        (link, WriteActionView::Finish(Ok(())))
                    }
                } else {
                    (Link::Disconnected, WriteActionView::Finish(Err(PipeError::TransportFault)))
                },
                _ => (Link::Disconnected, WriteActionView::Finish(Err(PipeError::TransportFault))),
            }
        },
    }
}

/// The units that arrived: as many whole units of the buffer as the bytes
/// make up, and no more than the buffer holds.
pub open spec fn received_units(buffer: Seq<u16>, bytes: usize) -> Seq<u16> {
    let units = bytes as int / UNIT_BYTES as int;
    if units < buffer.len() {
        buffer.take(units)
    } else {
        buffer
    }
}

/// The result of a read whose frame decoded like this.
pub open spec fn read_result(decoded: Result<MessageView, DecodeError>) -> Result<
    MessageView,
    PipeError,
> {
    match decoded {
        Ok(msg) => Ok(msg),
        Err(e) => Err(PipeError::Decode(e)),
    }
}

/// One step of reading. A pipe that is not connected refuses. A connected
/// one asks for one read of the largest frame, decodes what arrived, and
/// is disconnected by a failure of the transport. A frame that is no
/// message fails the read and leaves the pipe connected.
pub open spec fn read_step(link: Link, event: ReadEventView) -> (Link, ReadActionView) {
    if link != Link::Connected {
        (link, ReadActionView::Finish(Err(PipeError::NotConnected)))
    } else {
        match event {
            ReadEventView::Start => (link, ReadActionView::Receive { capacity: MAX_FRAME_UNITS }),
            ReadEventView::Received { buffer, bytes } => (
                link,
                ReadActionView::Finish(read_result(decoding(received_units(buffer, bytes)))),
            ),
            ReadEventView::Failed => (
                Link::Disconnected,
                ReadActionView::Finish(Err(PipeError::TransportFault)),
            ),
        }
    }
}

/// Disconnecting: a connected pipe gives its handle up and is
/// disconnected; on any other pipe nothing happens.
pub open spec fn disconnect_step(link: Link) -> (Link, bool) {
    (link.closed(), link == Link::Connected)
}

/// One end of a duplex named pipe.
#[derive(Debug)]
pub struct Pipe {
    name: String,
    link: Link,
}

/// A [`Pipe`] in the contracts.
pub struct PipeView {
    /// The full name of the endpoint.
    pub name: Seq<char>,
    pub link: Link,
}

impl View for Pipe {
    type V = PipeView;

    closed spec fn view(&self) -> PipeView {
        PipeView { name: self.name@, link: self.link }
    }
}

impl Pipe {
    /// An unconnected pipe for the endpoint with the given short name.
    pub fn new(name: &str) -> (pipe: Pipe)
        ensures
            pipe@.name == endpoint_path(name@),
            pipe@.link == Link::Unconnected,
    {
        let mut path = String::from_str(PIPE_NAMESPACE);
        path.append(name);
        Pipe { name: path, link: Link::Unconnected }
    }

    /// The full name of the endpoint, under which the transport opens it.
    pub fn name(&self) -> (name: &str)
        ensures
            name@ == self@.name,
    {
        self.name.as_str()
    }

    /// Where the pipe stands in its life.
    pub fn link(&self) -> (link: Link)
        ensures
            link == self@.link,
    {
        self.link
    }

    /// Whether the pipe is connected.
    pub fn is_connected(&self) -> (connected: bool)
        ensures
            connected == (self@.link == Link::Connected),
    {
        self.link == Link::Connected
    }

    /// Takes one step of connecting: see [`connect_step`].
    pub fn connect(&mut self, policy: RetryPolicy, event: ConnectEvent) -> (action: ConnectAction)
        ensures
            (final(self)@.link, action) == connect_step(old(self)@.link, policy, event),
            final(self)@.name == old(self)@.name,
    {
        if self.link != Link::Unconnected {
            return ConnectAction::Refuse;
        }
        match event {
            ConnectEvent::Start => ConnectAction::Open,
            ConnectEvent::Opened => {
                self.link = Link::Connected;
                ConnectAction::Finish
            },
            ConnectEvent::Busy => ConnectAction::WaitThenOpen {
                wait_millis: policy.busy_wait_millis,
                backoff_millis: policy.backoff_millis,
            },
            ConnectEvent::Failed => ConnectAction::ReleaseThenOpen {
                backoff_millis: policy.backoff_millis,
            },
        }
    }

    /// Takes one step of writing `msg`: see [`write_step`].
    pub fn write(&mut self, msg: &Message, wait: bool, event: WriteEvent) -> (action: WriteAction)
        ensures
            (final(self)@.link, action@) == write_step(old(self)@.link, msg@, wait, event@),
            final(self)@.name == old(self)@.name,
    {
        match event {
            WriteEvent::Replied(Ok(reply)) => {
                if reply.is_received() {
                    WriteAction::Finish(Ok(()))
                } else {
                    WriteAction::Finish(Err(PipeError::AckMismatch))
                }
            },
            WriteEvent::Replied(Err(e)) => WriteAction::Finish(Err(e)),
            WriteEvent::Start => {
                if !self.is_connected() {
                    return WriteAction::Finish(Err(PipeError::NotConnected));
                }
                WriteAction::Transfer(encode(msg))
            },
            WriteEvent::Transferred { bytes } => {
                if !self.is_connected() {
                    return WriteAction::Finish(Err(PipeError::NotConnected));
                }
                let units: usize = encode(msg).len();
                if bytes % UNIT_BYTES == 0 && bytes / UNIT_BYTES == units {
                    if wait {
                        WriteAction::AwaitReply
                    } else {
                        WriteAction::Finish(Ok(()))
                    }
                } else {
                    self.fail();
                    WriteAction::Finish(Err(PipeError::TransportFault))
                }
            },
            WriteEvent::TransferFailed => {
                if !self.is_connected() {
                    return WriteAction::Finish(Err(PipeError::NotConnected));
                }
                self.fail();
                WriteAction::Finish(Err(PipeError::TransportFault))
            },
        }
    }

    /// Takes one step of reading: see [`read_step`].
    pub fn read(&mut self, event: ReadEvent) -> (action: ReadAction)
        ensures
            (final(self)@.link, action@) == read_step(old(self)@.link, event@),
            final(self)@.name == old(self)@.name,
    {
        if !self.is_connected() {
            return ReadAction::Finish(Err(PipeError::NotConnected));
        }
        match event {
            ReadEvent::Start => ReadAction::Receive { capacity: MAX_FRAME_UNITS },
            ReadEvent::Received { buffer, bytes } => {
                let units: usize = bytes / UNIT_BYTES;
                let arrived = if units < buffer.len() {
                    slice_subrange(buffer.as_slice(), 0, units)
                } else {
                    buffer.as_slice()
                };
                assert(arrived@ =~= received_units(buffer@, bytes));
                match decode(arrived) {
                    Ok(msg) => ReadAction::Finish(Ok(msg)),
                    Err(e) => ReadAction::Finish(Err(PipeError::Decode(e))),
                }
            },
            ReadEvent::Failed => {
                self.fail();
                ReadAction::Finish(Err(PipeError::TransportFault))
            },
        }
    }

    /// Disconnects the pipe, and tells whether the caller is to release
    /// the handle: see [`disconnect_step`].
    pub fn disconnect(&mut self) -> (release: bool)
        ensures
            (final(self)@.link, release) == disconnect_step(old(self)@.link),
            final(self)@.name == old(self)@.name,
    {
        let release = self.is_connected();
        self.fail();
        release
    }

    /// Leaves the connected state, if the pipe is in it.
    fn fail(&mut self)
        ensures
            final(self)@.link == old(self)@.link.closed(),
            final(self)@.name == old(self)@.name,
    {
        if self.link == Link::Connected {
            self.link = Link::Disconnected;
        }
    }
}

/// The state after a run of connect events, each taken as one step.
pub open spec fn connect_run(link: Link, policy: RetryPolicy, events: Seq<ConnectEvent>) -> Link
    decreases events.len(),
{
    if events.len() == 0 {
        link
    } else {
        connect_run(connect_step(link, policy, events[0]).0, policy, events.drop_first())
    }
}

/// Connecting never gives up: however many attempts to open the endpoint
/// fail, an unconnected pipe is still unconnected and still trying, and
/// the first attempt that opens the endpoint connects it.
pub proof fn lemma_connect_retries(policy: RetryPolicy, events: Seq<ConnectEvent>)
    requires
        forall|i: int| 0 <= i < events.len() ==> events[i] != ConnectEvent::Opened,
    ensures
        connect_run(Link::Unconnected, policy, events) == Link::Unconnected,
        connect_run(Link::Unconnected, policy, events.push(ConnectEvent::Opened))
            == Link::Connected,
        forall|i: int|
            0 <= i < events.len() ==> {
                let action = #[trigger] connect_step(Link::Unconnected, policy, events[i]).1;
                action != ConnectAction::Refuse && action != ConnectAction::Finish
            },
    decreases events.len(),
{
    let opened = events.push(ConnectEvent::Opened);
    if events.len() == 0 {
        assert(opened.drop_first() =~= Seq::<ConnectEvent>::empty());
        assert(connect_run(Link::Connected, policy, opened.drop_first()) == Link::Connected);
    } else {
        assert(events[0] != ConnectEvent::Opened);
        lemma_connect_retries(policy, events.drop_first());
        assert(opened.drop_first() =~= events.drop_first().push(ConnectEvent::Opened));
    }
}

/// A fault of the transport during a read leaves the pipe not connected,
/// and a write on it afterwards is refused.
pub proof fn lemma_read_fault_ends_session(
    link: Link,
    event: ReadEventView,
    msg: MessageView,
    wait: bool,
)
    requires
        read_step(link, event).1 == ReadActionView::Finish(Err(PipeError::TransportFault)),
    ensures
        link == Link::Connected,
        event == ReadEventView::Failed,
        read_step(link, event).0 == Link::Disconnected,
        write_step(read_step(link, event).0, msg, wait, WriteEventView::Start) == (
            Link::Disconnected,
            WriteActionView::Finish(Err(PipeError::NotConnected)),
        ),
{
}

/// A fault of the transport during a write, whether it failed or moved a
/// wrong number of bytes, leaves the pipe not connected, and a read on it
/// afterwards is refused.
pub proof fn lemma_write_fault_ends_session(
    link: Link,
    msg: MessageView,
    wait: bool,
    event: WriteEventView,
    next: ReadEventView,
)
    requires
        !(event is Replied),
        write_step(link, msg, wait, event).1 == WriteActionView::Finish(
            Err(PipeError::TransportFault),
        ),
    ensures
        link == Link::Connected,
        write_step(link, msg, wait, event).0 == Link::Disconnected,
        read_step(write_step(link, msg, wait, event).0, next) == (
            Link::Disconnected,
            ReadActionView::Finish(Err(PipeError::NotConnected)),
        ),
{
}

/// A disconnected pipe stays disconnected: it refuses to connect, to read
/// and to write, and has no handle left to release.
pub proof fn lemma_disconnected_is_terminal(
    policy: RetryPolicy,
    connecting: ConnectEvent,
    msg: MessageView,
    wait: bool,
    writing: WriteEventView,
    reading: ReadEventView,
)
    ensures
        connect_step(Link::Disconnected, policy, connecting) == (
            Link::Disconnected,
            ConnectAction::Refuse,
        ),
        write_step(Link::Disconnected, msg, wait, writing).0 == Link::Disconnected,
        !(writing is Replied) ==> write_step(Link::Disconnected, msg, wait, writing).1
            == WriteActionView::Finish(Err(PipeError::NotConnected)),
        read_step(Link::Disconnected, reading) == (
            Link::Disconnected,
            ReadActionView::Finish(Err(PipeError::NotConnected)),
        ),
        disconnect_step(Link::Disconnected) == (Link::Disconnected, false),
{
}

/// Disconnecting twice is disconnecting once: the second time nothing
/// changes and nothing is released.
pub proof fn lemma_disconnect_is_idempotent(link: Link)
    ensures
        disconnect_step(disconnect_step(link).0) == (disconnect_step(link).0, false),
        disconnect_step(link).0 != Link::Connected,
{
}

/// A write that waits succeeds on the acknowledgement and on nothing
/// else: every other message that arrives, however well-formed, is a
/// mismatch.
pub proof fn lemma_ack_discipline(link: Link, msg: MessageView, wait: bool, reply: MessageView)
    ensures
        reply == MessageView::Received ==> write_step(
            link,
            msg,
            wait,
            WriteEventView::Replied(Ok(reply)),
        ) == (link, WriteActionView::Finish(Ok(()))),
        reply != MessageView::Received ==> write_step(
            link,
            msg,
            wait,
            WriteEventView::Replied(Ok(reply)),
        ) == (link, WriteActionView::Finish(Err(PipeError::AckMismatch))),
{
}

/// What one connected pipe writes, the connected pipe at the other end
/// reads: if the frame of a message fits into one read and the transport
/// carries it whole, the read ends with that message.
pub proof fn lemma_frame_arrives(msg: MessageView, wait: bool, buffer: Seq<u16>, bytes: usize)
    requires
        survives_wire(msg),
        encoding(msg).len() <= buffer.len(),
        buffer.take(encoding(msg).len() as int) == encoding(msg),
        bytes == UNIT_BYTES * encoding(msg).len(),
    ensures
        write_step(Link::Connected, msg, wait, WriteEventView::Start).1
            == WriteActionView::Transfer(encoding(msg)),
        read_step(Link::Connected, ReadEventView::Received { buffer, bytes }) == (
            Link::Connected,
            ReadActionView::Finish(Ok(msg)),
        ),
{
    lemma_round_trip(msg);
    assert(received_units(buffer, bytes) =~= encoding(msg));
}

/// A frame that is longer than one read takes in never arrives as another
/// message: the read is cut short.
pub proof fn lemma_long_frame_is_cut_short(msg: MessageView, buffer: Seq<u16>, bytes: usize)
    requires
        survives_wire(msg),
        buffer.len() < encoding(msg).len(),
        buffer == encoding(msg).take(buffer.len() as int),
        bytes == UNIT_BYTES * buffer.len(),
    ensures
        read_step(Link::Connected, ReadEventView::Received { buffer, bytes }) == (
            Link::Connected,
            ReadActionView::Finish(Err(PipeError::Decode(DecodeError::Truncated))),
        ),
{
    lemma_prefix_is_truncated(msg, buffer.len() as int);
    assert(received_units(buffer, bytes) =~= buffer);
}

} // verus!
