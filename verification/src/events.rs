//! Changes of chats, and how they travel: one JSON text to a line over a socket, or as
//! server-sent events to a browser.

use vstd::prelude::*;

use crate::text::{trim_end, trimmed_end};

verus! {

/// What goes on in a chat.
#[derive(Clone, Copy, PartialEq, Eq, Structural, Debug)]
pub enum ChatActivityState {
    Idle,
    Thinking,
    AwaitingToolConfirmation,
}

/// Something that changed.
#[derive(Clone, Copy, PartialEq, Eq, Structural, Debug)]
pub enum ChatChange {
    Upsert { id: i64 },
    Deleted { id: i64 },
    Activity { id: i64, state: ChatActivityState },
}

/// The byte that ends a line.
pub const NEWLINE: u8 = 10;

// ---------------------------------------------------------------------------
// Writing
// ---------------------------------------------------------------------------

/// A change as a line of the socket, given its JSON text.
pub fn event_line(json: &str) -> (line: String)
    ensures
        line@ == json@ + "\n"@,
{
    let mut line: String = json.to_owned();
    line.push_str("\n");
    line
}

/// A change as a server-sent event, given its JSON text.
pub fn server_sent_event(json: &str) -> (event: String)
    ensures
        event@ == "data: "@ + json@ + "\n\n"@,
{
    let mut event: String = "data: ".to_owned();
    event.push_str(json);
    event.push_str("\n\n");
    event
}

/// What comes to those who relay changes.
#[derive(Debug)]
pub enum Delivery {
    /// A change, as JSON.
    Change(String),
    /// Some changes were missed.
    Lagged,
    /// No more changes will come.
    Closed,
}

/// What comes to those who relay changes to a browser.
#[derive(Debug)]
pub enum BrowserEvent {
    /// The browser has connected.
    Connected,
    /// Some time has passed.
    Heartbeat,
    /// Something about changes.
    Delivered(Delivery),
}

/// What those who relay changes do.
#[derive(Debug)]
pub enum RelayStep {
    /// Send a text.
    Send(String),
    /// Wait for what comes next.
    Skip,
    /// Stop.
    Stop,
}

/// What a client of the event server sent.
#[derive(Debug)]
pub enum LineRead {
    /// A line, with what ends it.
    Line(String),
    /// It has closed the connection.
    End,
    /// It cannot be read.
    Failed,
}

/// What the event server does about what a client sent.
#[derive(Debug)]
pub enum ReaderStep {
    /// Read a text as a change.
    Parse(String),
    /// Stop.
    Stop,
}

/// What the event server does about a text that it tried to read as a change. Either way
/// the connection is kept.
#[derive(Clone, Copy, PartialEq, Eq, Structural, Debug)]
pub enum ClientStep {
    /// Publish the change.
    Publish(ChatChange),
    /// Pass over the text.
    Skip,
}

/// Relays changes over the socket: each is sent as a line, and missed ones are passed
/// over.
pub fn relay_to_socket(delivery: Delivery) -> (step: RelayStep)
    ensures
        match delivery {
            Delivery::Change(json) => step matches RelayStep::Send(line) && line@ == json@ + "\n"@,
            Delivery::Lagged => step is Skip,
            Delivery::Closed => step is Stop,
        },
{
    match delivery {
        Delivery::Change(json) => RelayStep::Send(event_line(json.as_str())),
        Delivery::Lagged => RelayStep::Skip,
        Delivery::Closed => RelayStep::Stop,
    }
}

/// Relays changes to a browser as server-sent events, with a greeting and a sign of life
/// from time to time.
pub fn relay_to_browser(event: BrowserEvent) -> (step: RelayStep)
    ensures
        match event {
            BrowserEvent::Connected => step matches RelayStep::Send(text) && text@
                == "event: connected\ndata: {}\n\n"@,
            BrowserEvent::Heartbeat => step matches RelayStep::Send(text) && text@
                == "event: ping\ndata: {}\n\n"@,
            BrowserEvent::Delivered(Delivery::Change(json)) => step matches RelayStep::Send(text)
                && text@ == "data: "@ + json@ + "\n\n"@,
            BrowserEvent::Delivered(Delivery::Lagged) => step is Skip,
            BrowserEvent::Delivered(Delivery::Closed) => step is Stop,
        },
{
    match event {
        BrowserEvent::Connected => RelayStep::Send(
            "event: connected\ndata: {}\n\n".to_owned(),
        ),
        BrowserEvent::Heartbeat => RelayStep::Send("event: ping\ndata: {}\n\n".to_owned()),
        BrowserEvent::Delivered(Delivery::Change(json)) => RelayStep::Send(
            server_sent_event(json.as_str()),
        ),
        BrowserEvent::Delivered(Delivery::Lagged) => RelayStep::Skip,
        BrowserEvent::Delivered(Delivery::Closed) => RelayStep::Stop,
    }
}

/// Takes in what a client of the event server sent.
pub fn read_from_client(read: LineRead) -> (step: ReaderStep)
    ensures
        match read {
            LineRead::Line(line) => step matches ReaderStep::Parse(text) && text@ == trim_end(
                line@,
            ),
            LineRead::End | LineRead::Failed => step is Stop,
        },
{
    match read {
        LineRead::Line(line) => ReaderStep::Parse(trimmed_end(line.as_str())),
        LineRead::End => ReaderStep::Stop,
        LineRead::Failed => ReaderStep::Stop,
    }
}

/// Takes in what a text of a client was read as: a change is published, and any other
/// text passed over.
pub fn client_text_parsed(parsed: Option<ChatChange>) -> (step: ClientStep)
    ensures
        step == (match parsed {
            Some(change) => ClientStep::Publish(change),
            None => ClientStep::Skip,
        }),
{
    match parsed {
        Some(change) => ClientStep::Publish(change),
        None => ClientStep::Skip,
    }
}

/// A change that is relayed over the socket is read by the other side as the text it was
/// relayed as; what was missed is passed over, and relaying ends with the changes. So it is
/// with a browser, which is sent each change as an event of its own.
pub proof fn law_relayed_changes_arrive(
    json: String,
    line: String,
    event: String,
    text: String,
    step: RelayStep,
)
    requires
        json@.len() > 0,
        !crate::text::is_white(json@.last()),
    ensures
        call_ensures(relay_to_socket, (Delivery::Change(json),), RelayStep::Send(line)) && call_ensures(
            read_from_client,
            (LineRead::Line(line),),
            ReaderStep::Parse(text),
        ) ==> text@ == json@,
        call_ensures(relay_to_socket, (Delivery::Change(json),), step) ==> step is Send,
        call_ensures(relay_to_socket, (Delivery::Lagged,), step) ==> step is Skip,
        call_ensures(relay_to_socket, (Delivery::Closed,), step) ==> step is Stop,
        call_ensures(
            relay_to_browser,
            (BrowserEvent::Delivered(Delivery::Change(json)),),
            RelayStep::Send(event),
        ) ==> event@ == "data: "@ + json@ + seq!['\n', '\n'],
        call_ensures(relay_to_browser, (BrowserEvent::Delivered(Delivery::Lagged),), step)
            ==> step is Skip,
        call_ensures(relay_to_browser, (BrowserEvent::Delivered(Delivery::Closed),), step)
            ==> step is Stop,
{
    reveal_strlit("\n");
    reveal_strlit("\n\n");
    assert("\n"@ =~= seq!['\n']);
    assert("\n\n"@ =~= seq!['\n', '\n']);
    let sent = json@ + "\n"@;
    assert(sent.last() == '\n');
    assert(sent.drop_last() =~= json@);
    reveal_with_fuel(trim_end, 3);
}

/// A client of the event server is read until it ends the connection or cannot be read, and
/// of what it sends exactly the changes are published.
pub proof fn law_clients_are_read(change: ChatChange, step: ReaderStep, done: ClientStep)
    ensures
        call_ensures(read_from_client, (LineRead::End,), step) ==> step is Stop,
        call_ensures(read_from_client, (LineRead::Failed,), step) ==> step is Stop,
        call_ensures(client_text_parsed, (Some(change),), done) ==> done == ClientStep::Publish(
            change,
        ),
        call_ensures(client_text_parsed, (None,), done) ==> done == ClientStep::Skip,
{
}

/// Why a change could not be published.
#[derive(Debug)]
pub enum PublishFailure {
    /// There is no connection to the socket at this path.
    Connect { path: String, reason: String },
    /// The change could not be written as JSON.
    Serialize { reason: String },
    /// It could not be sent.
    Send { reason: String },
}

/// How a failure to publish is put.
pub open spec fn failure_text(failure: PublishFailure) -> Seq<char> {
    match failure {
        PublishFailure::Connect { path, reason } => "Failed to connect to event socket "@ + path@
            + ": "@ + reason@,
        PublishFailure::Serialize { reason } => "Serialize event: "@ + reason@,
        PublishFailure::Send { reason } => "Failed to publish event: "@ + reason@,
    }
}

/// A failure to publish is put with its reason, and one to connect with the socket too.
pub proof fn law_failures_are_put_with_their_reason(path: String, reason: String)
    ensures
        failure_text(PublishFailure::Connect { path, reason })
            == "Failed to connect to event socket "@ + path@ + ": "@ + reason@,
        failure_text(PublishFailure::Serialize { reason }) == "Serialize event: "@ + reason@,
        failure_text(PublishFailure::Send { reason }) == "Failed to publish event: "@ + reason@,
{
}

impl PublishFailure {
    /// How the failure is put.
    pub fn text(&self) -> (text: String)
        ensures
            text@ == failure_text(*self),
    {
        match self {
            PublishFailure::Connect { path, reason } => {
                let mut text: String = "Failed to connect to event socket ".to_owned();
                text.push_str(path.as_str());
                text.push_str(": ");
                text.push_str(reason.as_str());
                text
            },
            PublishFailure::Serialize { reason } => {
                let mut text: String = "Serialize event: ".to_owned();
                text.push_str(reason.as_str());
                text
            },
            PublishFailure::Send { reason } => {
                let mut text: String = "Failed to publish event: ".to_owned();
                text.push_str(reason.as_str());
                text
            },
        }
    }
}

// ---------------------------------------------------------------------------
// Reading
// ---------------------------------------------------------------------------

/// Where the first line of `bytes` ends.
pub open spec fn line_end(bytes: Seq<u8>) -> Option<int>
    decreases bytes.len(),
{
    if bytes.len() == 0 {
        None
    } else if bytes[0] == NEWLINE {
        Some(0)
    } else {
        match line_end(bytes.drop_first()) {
            Some(at) => Some(at + 1),
            None => None,
        }
    }
}

/// The first line ends at the first newline.
pub proof fn lemma_line_end(bytes: Seq<u8>)
    ensures
        match line_end(bytes) {
            Some(at) => 0 <= at < bytes.len() && bytes[at] == NEWLINE && !bytes.take(
                at,
            ).contains(NEWLINE),
            None => !bytes.contains(NEWLINE),
        },
    decreases bytes.len(),
{
    if bytes.len() > 0 {
        let rest = bytes.drop_first();
        lemma_line_end(rest);
        match line_end(bytes) {
            Some(at) => {
                if at > 0 {
                    assert forall|j: int| 0 <= j < at implies bytes.take(at)[j] != NEWLINE by {
                        if j > 0 {
                            assert(rest.take(at - 1)[j - 1] == bytes[j]);
                            assert(rest.take(at - 1).contains(rest.take(at - 1)[j - 1]));
                        }
                    }
                }
            },
            None => {
                assert forall|j: int| 0 <= j < bytes.len() implies bytes[j] != NEWLINE by {
                    if j > 0 {
                        assert(rest[j - 1] == bytes[j]);
                        assert(rest.contains(rest[j - 1]));
                    }
                }
            },
        }
    }
}

/// A newline behind no other ends the first line.
proof fn lemma_line_end_at(bytes: Seq<u8>, at: int)
    requires
        0 <= at < bytes.len(),
        bytes[at] == NEWLINE,
        forall|j: int| 0 <= j < at ==> bytes[j] != NEWLINE,
    ensures
        line_end(bytes) == Some(at),
    decreases bytes.len(),
{
    if at > 0 {
        lemma_line_end_at(bytes.drop_first(), at - 1);
    }
}

/// The first line is what stands in front of the first newline, whatever stands behind;
/// where there is no newline there is no whole line.
pub proof fn law_first_newline_ends_the_line(line: Seq<u8>, rest: Seq<u8>)
    requires
        !line.contains(10u8),
    ensures
        line_end(line + seq![10u8] + rest) == Some(line.len() as int),
        line_end(line) is None,
{
    let all = line + seq![10u8] + rest;
    assert forall|j: int| 0 <= j < line.len() implies all[j] != NEWLINE by {
        assert(line.contains(line[j]));
    }
    lemma_line_end_at(all, line.len() as int);
    lemma_line_end(line);
}

/// What came of reading from a socket.
#[derive(Debug)]
pub enum SocketRead {
    /// Some bytes, or none where the other side has closed the connection.
    Bytes(Vec<u8>),
    /// There is nothing to read now.
    Blocked,
    /// It failed.
    Failed,
}

/// What a client of the event socket has, after it read.
#[derive(Debug)]
pub enum Received {
    /// The connection is gone.
    Closed,
    /// There is nothing now.
    Nothing,
    /// A line, without its newline.
    Line(Vec<u8>),
    /// No whole line yet: read again.
    More,
}

/// What polling the event socket once gave.
#[derive(Clone, Copy, PartialEq, Eq, Structural, Debug)]
pub enum Polled {
    /// A change.
    Change(ChatChange),
    /// Nothing for now.
    Quiet,
    /// The connection is gone.
    Gone,
}

/// What a line of the socket gives, given what it was read as: a line that is no change
/// ends the poll.
pub fn line_parsed(parsed: Option<ChatChange>) -> (polled: Polled)
    ensures
        polled == (match parsed {
            Some(change) => Polled::Change(change),
            None => Polled::Quiet,
        }),
{
    match parsed {
        Some(change) => Polled::Change(change),
        None => Polled::Quiet,
    }
}

/// A client of the event socket: what it read beyond the last whole line, and which
/// socket it is connected to.
#[derive(Debug)]
pub struct EventClient {
    pub buf: Vec<u8>,
    pub ino: u64,
}

impl EventClient {
    /// A client that was connected to the socket with the number `ino`.
    pub fn connect(ino: u64) -> (client: EventClient)
        ensures
            client.buf@ == Seq::<u8>::empty(),
            client.ino == ino,
    {
        EventClient { buf: Vec::new(), ino }
    }

    /// Whether the client is connected to the socket that now has the number `ino`, where
    /// there is one.
    pub fn is_current(&self, ino: Option<u64>) -> (yes: bool)
        ensures
            yes == (ino == Some(self.ino)),
    {
        match ino {
            Some(ino) => ino == self.ino,
            None => false,
        }
    }

    /// Takes in what came of a read. Of the bytes that came, the first whole line is
    /// handed out and the rest is kept.
    pub fn try_recv(&mut self, read: SocketRead) -> (received: Received)
        ensures
            final(self).ino == old(self).ino,
            match read {
                SocketRead::Bytes(bytes) => {
                    let all = old(self).buf@ + bytes@;
                    if bytes@.len() == 0 {
                        received is Closed && final(self).buf@ == old(self).buf@
                    } else {
                        match line_end(all) {
                            Some(at) => {
                                &&& received matches Received::Line(line)
                                &&& line@ == all.take(at)
                                &&& final(self).buf@ == all.skip(at + 1)
                            },
                            None => received is More && final(self).buf@ == all,
                        }
                    }
                },
                SocketRead::Blocked => received is Nothing && final(self).buf@ == old(self).buf@,
                SocketRead::Failed => received is Closed && final(self).buf@ == old(self).buf@,
            },
    {
        match read {
            SocketRead::Blocked => Received::Nothing,
            SocketRead::Failed => Received::Closed,
            SocketRead::Bytes(bytes) => {
                if bytes.len() == 0 {
                    return Received::Closed;
                }
                let ghost all = self.buf@ + bytes@;
                let mut more: Vec<u8> = bytes;
                self.buf.append(&mut more);
                let n: usize = self.buf.len();
                let mut at: usize = 0;
                while at < n && self.buf[at] != NEWLINE
                    invariant
                        n == self.buf@.len(),
                        at <= n,
                        self.buf@ == all,
                        self.ino == old(self).ino,
                        forall|j: int| 0 <= j < at ==> all[j] != NEWLINE,
                    decreases n - at,
                {
                    at = at + 1;
                }
                if at == n {
                    proof {
                        lemma_line_end(all);
                    }
                    return Received::More;
                }
                proof {
                    lemma_line_end_at(all, at as int);
                }
                let rest: Vec<u8> = self.buf.split_off(at + 1);
                self.buf.truncate(at);
                let mut line: Vec<u8> = rest;
                std::mem::swap(&mut self.buf, &mut line);
                assert(line@ =~= all.take(at as int));
                assert(self.buf@ =~= all.skip(at + 1));
                Received::Line(line)
            },
        }
    }
}

/// Lines as they stand in a stream, each with its newline.
pub open spec fn framed(lines: Seq<Seq<u8>>) -> Seq<u8>
    decreases lines.len(),
{
    if lines.len() == 0 {
        seq![]
    } else {
        framed(lines.drop_last()) + lines.last().push(NEWLINE)
    }
}

/// No byte of a stream is lost, doubled or moved: where the lines handed out so far and
/// what is buffered make up what came so far, they still do when more has come, and each
/// line is whole.
pub proof fn law_stream_is_conserved(
    handed: Seq<Seq<u8>>,
    buffered: Seq<u8>,
    came: Seq<u8>,
    bytes: Seq<u8>,
)
    requires
        framed(handed) + buffered == came,
    ensures
        match line_end(buffered + bytes) {
            Some(at) => {
                let line = (buffered + bytes).take(at);
                &&& !line.contains(NEWLINE)
                &&& framed(handed.push(line)) + (buffered + bytes).skip(at + 1) == came + bytes
            },
            None => framed(handed) + (buffered + bytes) == came + bytes,
        },
{
    let all = buffered + bytes;
    lemma_line_end(all);
    assert(framed(handed) + all =~= came + bytes);
    if let Some(at) = line_end(all) {
        let line = all.take(at);
        assert(handed.push(line).drop_last() =~= handed);
        assert(line.push(NEWLINE) + all.skip(at + 1) =~= all);
        assert(framed(handed.push(line)) + all.skip(at + 1) =~= framed(handed) + (line.push(NEWLINE)
            + all.skip(at + 1)));
    }
}

/// A line that is sent alone is received as it was sent, where it holds no newline.
pub proof fn law_sent_line_arrives(line: Seq<u8>)
    requires
        !line.contains(NEWLINE),
    ensures
        line_end(line.push(NEWLINE)) == Some(line.len() as int),
        line.push(NEWLINE).take(line.len() as int) == line,
        line.push(NEWLINE).skip(line.len() as int + 1) == Seq::<u8>::empty(),
{
    let sent = line.push(NEWLINE);
    assert forall|j: int| 0 <= j < line.len() implies sent[j] != NEWLINE by {
        assert(line.contains(line[j]));
    }
    lemma_line_end_at(sent, line.len() as int);
    assert(sent.take(line.len() as int) =~= line);
    assert(sent.skip(line.len() as int + 1) =~= Seq::<u8>::empty());
}

} // verus!
