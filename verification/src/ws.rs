use vstd::prelude::*;

use crate::pty::PtyEngine;

verus! {

/// The path under which the WebSocket endpoint is served.
pub const WS_PATH: &'static str = "/ws";

/// The most bytes handed on from one read of the terminal.
pub const READ_CHUNK: usize = 8192;

/// How many chunks may wait in each direction between the terminal and the
/// client.
pub const QUEUE_DEPTH: usize = 32;

/// The address served when none is configured.
pub const DEFAULT_ADDR: &'static str = "127.0.0.1:7681";

/// The address to listen on: the configured one if there is one, else
/// [`DEFAULT_ADDR`].
pub fn listen_addr(configured: Option<String>) -> (addr: String)
    ensures
        addr@ == (match configured {
            Some(a) => a@,
            None => DEFAULT_ADDR@,
        }),
{
    match configured {
        Some(a) => a,
        None => String::from_str(DEFAULT_ADDR),
    }
}

/// What can happen while a client is attached to a terminal.
pub enum BridgeEvent {
    /// The terminal produced output.
    PtyOutput(Vec<u8>),
    /// The terminal's output ended.
    PtyClosed,
    /// The client sent a binary frame.
    ClientBinary(Vec<u8>),
    /// The client sent a text frame.
    ClientText(String),
    /// The client sent a ping frame.
    ClientPing,
    /// The client sent a pong frame.
    ClientPong,
    /// The client sent a close frame.
    ClientClose,
    /// The client's stream failed or ended.
    ClientGone,
    /// A frame could not be sent to the client.
    ClientSendFailed,
    /// Bytes could not be queued for the terminal.
    PtySendFailed,
}

/// What the bridge does in answer to an event.
pub enum BridgeAction {
    /// Send these bytes to the client as a binary frame.
    SendToClient(Vec<u8>),
    /// Queue these bytes for the terminal's input.
    WriteToPty(Vec<u8>),
    /// Nothing to do.
    Ignore,
    /// End the session: send the client a close frame, stop feeding the
    /// terminal and kill its child process.
    Shutdown,
}

/// An event as a mathematical value.
pub enum EventView {
    PtyOutput(Seq<u8>),
    PtyClosed,
    ClientBinary(Seq<u8>),
    ClientText(Seq<char>),
    ClientPing,
    ClientPong,
    ClientClose,
    ClientGone,
    ClientSendFailed,
    PtySendFailed,
}

/// An action as a mathematical value.
pub enum Effect {
    SendToClient(Seq<u8>),
    WriteToPty(Seq<u8>),
    Ignore,
    Shutdown,
}

impl View for BridgeEvent {
    type V = EventView;

    open spec fn view(&self) -> EventView {
        match self {
            BridgeEvent::PtyOutput(bytes) => EventView::PtyOutput(bytes@),
            BridgeEvent::PtyClosed => EventView::PtyClosed,
            BridgeEvent::ClientBinary(bytes) => EventView::ClientBinary(bytes@),
            BridgeEvent::ClientText(text) => EventView::ClientText(text@),
            BridgeEvent::ClientPing => EventView::ClientPing,
            BridgeEvent::ClientPong => EventView::ClientPong,
            BridgeEvent::ClientClose => EventView::ClientClose,
            BridgeEvent::ClientGone => EventView::ClientGone,
            BridgeEvent::ClientSendFailed => EventView::ClientSendFailed,
            BridgeEvent::PtySendFailed => EventView::PtySendFailed,
        }
    }
}

impl View for BridgeAction {
    type V = Effect;

    open spec fn view(&self) -> Effect {
        match self {
            BridgeAction::SendToClient(bytes) => Effect::SendToClient(bytes@),
            BridgeAction::WriteToPty(bytes) => Effect::WriteToPty(bytes@),
            BridgeAction::Ignore => Effect::Ignore,
            BridgeAction::Shutdown => Effect::Shutdown,
        }
    }
}

/// The events after which the session cannot go on: either side is gone or
/// cannot be reached.
pub open spec fn ends_session(event: EventView) -> bool {
    match event {
        EventView::PtyClosed => true,
        EventView::ClientGone => true,
        EventView::ClientSendFailed => true,
        EventView::PtySendFailed => true,
        _ => false,
    }
}

/// One step of the bridge: whether the session is still open afterwards, and
/// what to do. Terminal output goes to the client as it is; the client's
/// binary frames go to the terminal as they are and its text frames as their
/// UTF-8 bytes; control frames are ignored; an event that ends the session
/// shuts it down; a closed session ignores everything.
pub open spec fn step(open: bool, event: EventView) -> (bool, Effect) {
    if !open {
        (false, Effect::Ignore)
    } else {
        match event {
            EventView::PtyOutput(bytes) => (true, Effect::SendToClient(bytes)),
            EventView::ClientBinary(bytes) => (true, Effect::WriteToPty(bytes)),
            EventView::ClientText(text) => (true, Effect::WriteToPty(vstd::utf8::encode_utf8(text))),
            EventView::ClientPing => (true, Effect::Ignore),
            EventView::ClientPong => (true, Effect::Ignore),
            EventView::ClientClose => (true, Effect::Ignore),
            _ => (false, Effect::Shutdown),
        }
    }
}

/// The state of one client's session with its terminal.
pub struct Bridge {
    open: bool,
}

impl View for Bridge {
    type V = bool;

    /// Whether the session is still open.
    closed spec fn view(&self) -> bool {
        self.open
    }
}

impl Bridge {
    /// A session that has just been opened.
    pub fn new() -> (bridge: Self)
        ensures
            bridge@,
    {
        Bridge { open: true }
    }

    /// Whether the session is still open.
    pub fn is_open(&self) -> (open: bool)
        ensures
            open == self@,
    {
        self.open
    }

    /// Decides what to do about one event.
    pub fn handle(&mut self, event: BridgeEvent) -> (action: BridgeAction)
        ensures
            (final(self)@, action@) == step(old(self)@, event@),
    {
        if !self.open {
            return BridgeAction::Ignore;
        }
        match event {
            BridgeEvent::PtyOutput(bytes) => BridgeAction::SendToClient(bytes),
            BridgeEvent::ClientBinary(bytes) => BridgeAction::WriteToPty(bytes),
            BridgeEvent::ClientText(text) => {
                let bytes = vstd::slice::slice_to_vec(text.as_str().as_bytes());
                BridgeAction::WriteToPty(bytes)
            },
            BridgeEvent::ClientPing => BridgeAction::Ignore,
            BridgeEvent::ClientPong => BridgeAction::Ignore,
            BridgeEvent::ClientClose => BridgeAction::Ignore,
            _ => {
                self.open = false;
                BridgeAction::Shutdown
            },
        }
    }
}

/// The session driven through a sequence of events: the state it ends in and
/// what was done for each event, in order.
pub open spec fn run(open: bool, events: Seq<EventView>) -> (bool, Seq<Effect>)
    decreases events.len(),
{
    if events.len() == 0 {
        (open, Seq::empty())
    } else {
        let (next, effect) = step(open, events[0]);
        let (last, rest) = run(next, events.drop_first());
        (last, seq![effect] + rest)
    }
}

/// The events up to, and not including, the first one that ends the session.
pub open spec fn live_prefix(events: Seq<EventView>) -> Seq<EventView>
    decreases events.len(),
{
    if events.len() == 0 {
        events
    } else if ends_session(events[0]) {
        Seq::empty()
    } else {
        seq![events[0]] + live_prefix(events.drop_first())
    }
}

/// The bytes the terminal produced in these events, in order.
pub open spec fn pty_output(events: Seq<EventView>) -> Seq<u8>
    decreases events.len(),
{
    if events.len() == 0 {
        Seq::empty()
    } else {
        (match events[0] {
            EventView::PtyOutput(bytes) => bytes,
            _ => Seq::empty(),
        }) + pty_output(events.drop_first())
    }
}

/// The bytes the client sent in these events, in order: binary frames as they
/// are, text frames as their UTF-8 encoding.
pub open spec fn client_input(events: Seq<EventView>) -> Seq<u8>
    decreases events.len(),
{
    if events.len() == 0 {
        Seq::empty()
    } else {
        (match events[0] {
            EventView::ClientBinary(bytes) => bytes,
            EventView::ClientText(text) => vstd::utf8::encode_utf8(text),
            _ => Seq::empty(),
        }) + client_input(events.drop_first())
    }
}

/// The bytes these actions send to the client, in order.
pub open spec fn sent_to_client(effects: Seq<Effect>) -> Seq<u8>
    decreases effects.len(),
{
    if effects.len() == 0 {
        Seq::empty()
    } else {
        (match effects[0] {
            Effect::SendToClient(bytes) => bytes,
            _ => Seq::empty(),
        }) + sent_to_client(effects.drop_first())
    }
}

/// The bytes these actions queue for the terminal, in order.
pub open spec fn written_to_pty(effects: Seq<Effect>) -> Seq<u8>
    decreases effects.len(),
{
    if effects.len() == 0 {
        Seq::empty()
    } else {
        (match effects[0] {
            Effect::WriteToPty(bytes) => bytes,
            _ => Seq::empty(),
        }) + written_to_pty(effects.drop_first())
    }
}

/// A closed session stays closed and ignores every event.
pub proof fn lemma_closed_session_ignores_everything(events: Seq<EventView>)
    ensures
        run(false, events) == (false, Seq::new(events.len(), |i: int| Effect::Ignore)),
    decreases events.len(),
{
    if events.len() > 0 {
        lemma_closed_session_ignores_everything(events.drop_first());
        assert(seq![Effect::Ignore] + Seq::new(
            (events.len() - 1) as nat,
            |i: int| Effect::Ignore,
        ) =~= Seq::new(events.len(), |i: int| Effect::Ignore));
    }
}

/// In an open session every event is answered by exactly one action; each
/// event before the first that ends the session gets its own action; that
/// event, if there is one, and only it, shuts the session down; everything
/// after it is ignored; and the session is still open at the end exactly when
/// no event ended it.
pub proof fn lemma_shutdown_exactly_once(events: Seq<EventView>)
    ensures
        run(true, events).1.len() == events.len(),
        run(true, events).0 <==> live_prefix(events).len() == events.len(),
        live_prefix(events).len() <= events.len(),
        forall|i: int|
            0 <= i < live_prefix(events).len() ==> run(true, events).1[i] == step(
                true,
                events[i],
            ).1 && !ends_session(#[trigger] events[i]),
        forall|i: int|
            0 <= i < events.len() ==> (#[trigger] run(true, events).1[i] == Effect::Shutdown
                <==> i == live_prefix(events).len()),
        forall|i: int|
            live_prefix(events).len() < i < events.len() ==> #[trigger] run(true, events).1[i]
                == Effect::Ignore,
    decreases events.len(),
{
    if events.len() > 0 {
        let rest = events.drop_first();
        if ends_session(events[0]) {
            lemma_closed_session_ignores_everything(rest);
        } else {
            lemma_shutdown_exactly_once(rest);
            let fx = run(true, events).1;
            let rfx = run(true, rest).1;
            assert(fx == seq![step(true, events[0]).1] + rfx);
            assert(live_prefix(events) == seq![events[0]] + live_prefix(rest));
            assert forall|i: int| 1 <= i < events.len() implies fx[i] == rfx[i - 1]
                && events[i] == rest[i - 1] by {}
        }
    }
}

/// What an open session relays: the client receives exactly the terminal's
/// output, and the terminal exactly the client's binary and text payloads,
/// each in order and unchanged, up to the first event that ends the session.
pub proof fn lemma_bytes_relayed_in_order(events: Seq<EventView>)
    ensures
        sent_to_client(run(true, events).1) == pty_output(live_prefix(events)),
        written_to_pty(run(true, events).1) == client_input(live_prefix(events)),
    decreases events.len(),
{
    if events.len() > 0 {
        let rest = events.drop_first();
        if ends_session(events[0]) {
            lemma_closed_session_ignores_everything(rest);
            lemma_ignored_effects_relay_nothing(run(false, rest).1);
            let fx = run(true, events).1;
            assert(fx.drop_first() == run(false, rest).1);
            assert(sent_to_client(fx) =~= Seq::<u8>::empty());
            assert(written_to_pty(fx) =~= Seq::<u8>::empty());
        } else {
            lemma_bytes_relayed_in_order(rest);
            let fx = run(true, events).1;
            assert(fx.drop_first() == run(true, rest).1);
            let live = live_prefix(events);
            assert(live == seq![events[0]] + live_prefix(rest));
            assert(live.drop_first() =~= live_prefix(rest));
        }
    }
}

/// Actions that only ignore send and write nothing.
proof fn lemma_ignored_effects_relay_nothing(effects: Seq<Effect>)
    requires
        forall|i: int| 0 <= i < effects.len() ==> #[trigger] effects[i] == Effect::Ignore,
    ensures
        sent_to_client(effects) == Seq::<u8>::empty(),
        written_to_pty(effects) == Seq::<u8>::empty(),
    decreases effects.len(),
{
    if effects.len() > 0 {
        lemma_ignored_effects_relay_nothing(effects.drop_first());
        assert(effects[0] == Effect::Ignore);
        assert(sent_to_client(effects) =~= Seq::<u8>::empty());
        assert(written_to_pty(effects) =~= Seq::<u8>::empty());
    }
}

/// Takes both ends of the terminal for a session. Both are asked for, so the
/// engine holds neither afterwards; the session can start only when both were
/// still there.
pub fn take_pty_ends<M, C, R, W>(engine: &mut PtyEngine<M, C, R, W>) -> (ends: Option<(R, W)>)
    ensures
        match (old(engine).reader_slot(), old(engine).writer_slot()) {
            (Some(r), Some(w)) => ends == Some((r, w)),
            _ => ends is None,
        },
        final(engine).reader_slot() is None,
        final(engine).writer_slot() is None,
        final(engine).master_end() == old(engine).master_end(),
        final(engine).child_process() == old(engine).child_process(),
{
    let reader = engine.take_reader();
    let writer = engine.take_writer();
    match (reader, writer) {
        (Ok(r), Ok(w)) => Some((r, w)),
        _ => None,
    }
}

/// What the pump that reads the terminal hands on after one read into `buf`,
/// where `outcome` is the number of bytes read, or nothing when the read
/// failed: no chunk when the read failed or found the end of the output (no
/// bytes), else the bytes read. A reader never reports more bytes than the
/// buffer holds.
pub fn chunk_from_read(buf: &[u8], outcome: Option<usize>) -> (chunk: Option<Vec<u8>>)
    requires
        outcome matches Some(n) ==> n <= buf@.len(),
    ensures
        match outcome {
            Some(n) => if n == 0 {
                chunk is None
            } else {
                chunk matches Some(bytes) && bytes@ == buf@.take(n as int)
            },
            None => chunk is None,
        },
{
    match outcome {
        Some(n) => {
            if n == 0 {
                None
            } else {
                let read = vstd::slice::slice_subrange(buf, 0, n);
                let bytes = vstd::slice::slice_to_vec(read);
                assert(bytes@ =~= buf@.take(n as int));
                Some(bytes)
            }
        },
        None => None,
    }
}

} // verus!
