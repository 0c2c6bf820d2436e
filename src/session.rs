use vstd::prelude::*;

use crate::error::BleError;
use crate::protocol::{kind_of, MessageKind, UART_RX_CHAR_UUID, UART_TX_CHAR_UUID};
use crate::text::{decode_utf8, trim, trim_end, trim_end_of, trim_of, utf8_text_of};

verus! {

/// The positions, in the list of discovered characteristics, of the two that
/// the UART service uses.
#[derive(Clone, Copy, Debug, PartialEq, Eq, Structural)]
pub struct Characteristics {
    /// The characteristic the client writes to.
    pub tx: usize,
    /// The characteristic whose notifications carry replies.
    pub rx: usize,
}

/// The position of the first occurrence of `u` in `s`, or the length of `s`.
pub open spec fn first_pos(s: Seq<u128>, u: u128) -> nat
    decreases s.len(),
{
    if s.len() == 0 {
        0
    } else if s[0] == u {
        0
    } else {
        1 + first_pos(s.drop_first(), u)
    }
}

/// The two characteristics, or the error when either is missing.
pub open spec fn resolved(uuids: Seq<u128>) -> Result<Characteristics, BleError> {
    if uuids.contains(UART_TX_CHAR_UUID) && uuids.contains(UART_RX_CHAR_UUID) {
        Ok(
            Characteristics {
                tx: first_pos(uuids, UART_TX_CHAR_UUID) as usize,
                rx: first_pos(uuids, UART_RX_CHAR_UUID) as usize,
            },
        )
    } else {
        Err(BleError::CharacteristicNotFound)
    }
}

proof fn lemma_first_pos(s: Seq<u128>, u: u128, i: int)
    requires
        0 <= i <= s.len(),
        forall|k: int| 0 <= k < i ==> s[k] != u,
        i == s.len() || s[i] == u,
    ensures
        first_pos(s, u) == i,
    decreases i,
{
    if i > 0 {
        lemma_first_pos(s.drop_first(), u, i - 1);
    }
}

fn find_characteristic(uuids: &Vec<u128>, uuid: u128) -> (r: Option<usize>)
    ensures
        r is Some <==> uuids@.contains(uuid),
        r is Some ==> r->Some_0 == first_pos(uuids@, uuid),
{
    let mut i: usize = 0;
    while i < uuids.len()
        invariant
            0 <= i <= uuids.len(),
            forall|k: int| 0 <= k < i ==> uuids@[k] != uuid,
        decreases uuids.len() - i,
    {
        if uuids[i] == uuid {
            proof {
                lemma_first_pos(uuids@, uuid, i as int);
            }
            return Some(i);
        }
        i += 1;
    }
    None
}

/// Finds the write and the notify characteristic among those discovered.
pub fn resolve_characteristics(uuids: &Vec<u128>) -> (r: Result<Characteristics, BleError>)
    ensures
        r == resolved(uuids@),
{
    match (
        find_characteristic(uuids, UART_TX_CHAR_UUID),
        find_characteristic(uuids, UART_RX_CHAR_UUID),
    ) {
        (Some(tx), Some(rx)) => Ok(Characteristics { tx, rx }),
        _ => Err(BleError::CharacteristicNotFound),
    }
}

/// Decodes a notification payload and drops its trailing whitespace, line
/// terminators included.
pub fn notification_text(payload: &[u8]) -> (r: Result<String, BleError>)
    ensures
        r is Err <==> utf8_text_of(payload@) is None,
        r is Err ==> r->Err_0 == BleError::DecodeError,
        r is Ok ==> r->Ok_0@ == trim_end_of(utf8_text_of(payload@)->Some_0),
{
    match decode_utf8(payload) {
        Some(t) => Ok(trim_end(t.as_str())),
        None => Err(BleError::DecodeError),
    }
}

/// Where a send session stands.
#[derive(Clone, Copy, Debug, PartialEq, Eq, Structural)]
pub enum SendPhase {
    Locating,
    Connecting,
    CheckingLink,
    Discovering,
    Subscribing,
    Writing,
    AwaitingReply,
    Showing,
    Disconnecting,
    Finished,
}

/// What came of the last action of a send session.
pub enum SendEvent {
    /// The action succeeded.
    Completed,
    /// The connectivity check reported whether the link is up.
    Linked(bool),
    /// Service discovery found characteristics with these identifiers, in order.
    Discovered(Vec<u128>),
    /// The awaited notification arrived; its decoded, trimmed text.
    Replied(String),
    /// The notification stream ended without an item.
    StreamEnded,
    /// The action failed.
    Failed(BleError),
}

/// What a send session asks its runner to do next.
pub enum SendAction {
    /// Find the peripheral by its address.
    Locate,
    /// Open the radio connection.
    Connect,
    /// Ask whether the link is up.
    CheckLink,
    /// Enumerate the GATT characteristics.
    DiscoverServices,
    /// Subscribe to notifications of the characteristic at this position.
    Subscribe(usize),
    /// Write the text to the characteristic at this position.
    Write { characteristic: usize, acknowledged: bool },
    /// Wait for one notification.
    AwaitNotification,
    /// Display a reply.
    Show(String),
    /// Close the radio connection.
    Disconnect,
    /// The session is over, with this outcome.
    Finish(Result<(), BleError>),
}

/// The state of one send: a text written to one peripheral and, for a
/// command, the one reply read back.
#[derive(Clone, Copy, Debug)]
pub struct SendSession {
    pub kind: MessageKind,
    pub phase: SendPhase,
    pub tx: usize,
    pub rx: usize,
    /// Whether the connectivity check reported the link up.
    pub linked: bool,
    /// Whether the disconnect was requested.
    pub disconnected: bool,
    /// The outcome so far.
    pub outcome: Result<(), BleError>,
    /// How many of the expected exchanges have been requested.
    pub exchanges: usize,
}

/// One data exchange with the peripheral.
#[derive(Clone, Copy, Debug, PartialEq, Eq, Structural)]
pub enum Exchange {
    Subscribe,
    Write(bool),
    AwaitReply,
}

/// The exchanges a send performs, in order: a command subscribes, writes
/// with acknowledgement and awaits one reply; a plain message is written
/// without acknowledgement only.
pub open spec fn expected_exchanges(k: MessageKind) -> Seq<Exchange> {
    match k {
        MessageKind::Command => seq![Exchange::Subscribe, Exchange::Write(true), Exchange::AwaitReply],
        MessageKind::Plain => seq![Exchange::Write(false)],
    }
}

/// The exchange an action performs, if any.
pub open spec fn exchange_of(a: SendAction) -> Seq<Exchange> {
    match a {
        SendAction::Subscribe(_) => seq![Exchange::Subscribe],
        SendAction::Write { acknowledged, .. } => seq![Exchange::Write(acknowledged)],
        SendAction::AwaitNotification => seq![Exchange::AwaitReply],
        _ => seq![],
    }
}

/// The exchanges of a sequence of actions.
pub open spec fn exchanges(acts: Seq<SendAction>) -> Seq<Exchange>
    decreases acts.len(),
{
    if acts.len() == 0 {
        seq![]
    } else {
        exchange_of(acts[0]) + exchanges(acts.drop_first())
    }
}

/// How many disconnects a sequence of actions holds.
pub open spec fn disconnects(acts: Seq<SendAction>) -> nat
    decreases acts.len(),
{
    if acts.len() == 0 {
        0
    } else {
        (if acts[0] is Disconnect {
            1nat
        } else {
            0nat
        }) + disconnects(acts.drop_first())
    }
}

/// The session that a send of a text of kind `k` starts with.
pub open spec fn initial(k: MessageKind) -> SendSession {
    SendSession {
        kind: k,
        phase: SendPhase::Locating,
        tx: 0,
        rx: 0,
        linked: false,
        disconnected: false,
        outcome: Ok(()),
        exchanges: 0,
    }
}

/// After a failure: disconnect if the link came up, else finish at once.
pub open spec fn abort(s: SendSession, e: BleError) -> (SendSession, SendAction) {
    if s.linked {
        (
            SendSession { phase: SendPhase::Disconnecting, disconnected: true, outcome: Err(e), ..s },
            SendAction::Disconnect,
        )
    } else {
        (SendSession { phase: SendPhase::Finished, outcome: Err(e), ..s }, SendAction::Finish(Err(e)))
    }
}

/// After the last exchange: disconnect, keeping the outcome.
pub open spec fn wrap_up(s: SendSession) -> (SendSession, SendAction) {
    (SendSession { phase: SendPhase::Disconnecting, disconnected: true, ..s }, SendAction::Disconnect)
}

/// The error an event stands for where a phase expects another event.
pub open spec fn failure_of(e: SendEvent) -> BleError {
    match e {
        SendEvent::Failed(err) => err,
        _ => BleError::TransportError,
    }
}

/// The next session and action after an event.
pub open spec fn step_spec(s: SendSession, e: SendEvent) -> (SendSession, SendAction) {
    match s.phase {
        SendPhase::Locating => match e {
            SendEvent::Completed => (
                SendSession { phase: SendPhase::Connecting, ..s },
                SendAction::Connect,
            ),
            _ => abort(s, failure_of(e)),
        },
        SendPhase::Connecting => match e {
            SendEvent::Completed => (
                SendSession { phase: SendPhase::CheckingLink, ..s },
                SendAction::CheckLink,
            ),
            _ => abort(s, failure_of(e)),
        },
        SendPhase::CheckingLink => match e {
            SendEvent::Linked(true) => (
                SendSession { phase: SendPhase::Discovering, linked: true, ..s },
                SendAction::DiscoverServices,
            ),
            SendEvent::Linked(false) => (
                SendSession { phase: SendPhase::Finished, ..s },
                SendAction::Finish(s.outcome),
            ),
            _ => abort(s, failure_of(e)),
        },
        SendPhase::Discovering => match e {
            SendEvent::Discovered(u) => match resolved(u@) {
                Ok(c) => if s.kind == MessageKind::Command {
                    (
                        SendSession {
                            phase: SendPhase::Subscribing,
                            tx: c.tx,
                            rx: c.rx,
                            exchanges: 1,
                            ..s
                        },
                        SendAction::Subscribe(c.rx),
                    )
                } else {
                    (
                        SendSession {
                            phase: SendPhase::Writing,
                            tx: c.tx,
                            rx: c.rx,
                            exchanges: 1,
                            ..s
                        },
                        SendAction::Write { characteristic: c.tx, acknowledged: false },
                    )
                },
                Err(err) => abort(s, err),
            },
            _ => abort(s, failure_of(e)),
        },
        SendPhase::Subscribing => match e {
            SendEvent::Completed => (
                SendSession { phase: SendPhase::Writing, exchanges: 2, ..s },
                SendAction::Write { characteristic: s.tx, acknowledged: true },
            ),
            _ => abort(s, failure_of(e)),
        },
        SendPhase::Writing => match e {
            SendEvent::Completed => if s.kind == MessageKind::Command {
                (
                    SendSession { phase: SendPhase::AwaitingReply, exchanges: 3, ..s },
                    SendAction::AwaitNotification,
                )
            } else {
                wrap_up(s)
            },
            _ => abort(s, failure_of(e)),
        },
        SendPhase::AwaitingReply => match e {
            SendEvent::Replied(t) => (
                SendSession { phase: SendPhase::Showing, ..s },
                SendAction::Show(t),
            ),
            SendEvent::StreamEnded => wrap_up(s),
            _ => abort(s, failure_of(e)),
        },
        SendPhase::Showing => match e {
            SendEvent::Completed => wrap_up(s),
            _ => abort(s, failure_of(e)),
        },
        SendPhase::Disconnecting => match e {
            SendEvent::Completed => (
                SendSession { phase: SendPhase::Finished, ..s },
                SendAction::Finish(s.outcome),
            ),
            _ => {
                let o = if s.outcome is Err {
                    s.outcome
                } else {
                    Err(failure_of(e))
                };
                (SendSession { phase: SendPhase::Finished, outcome: o, ..s }, SendAction::Finish(o))
            },
        },
        SendPhase::Finished => (s, SendAction::Finish(s.outcome)),
    }
}

fn abort_exec(s: SendSession, e: BleError) -> (r: (SendSession, SendAction))
    ensures
        r == abort(s, e),
{
    if s.linked {
        (
            SendSession { phase: SendPhase::Disconnecting, disconnected: true, outcome: Err(e), ..s },
            SendAction::Disconnect,
        )
    } else {
        (SendSession { phase: SendPhase::Finished, outcome: Err(e), ..s }, SendAction::Finish(Err(e)))
    }
}

fn wrap_up_exec(s: SendSession) -> (r: (SendSession, SendAction))
    ensures
        r == wrap_up(s),
{
    (SendSession { phase: SendPhase::Disconnecting, disconnected: true, ..s }, SendAction::Disconnect)
}

fn failure_exec(e: &SendEvent) -> (r: BleError)
    ensures
        r == failure_of(*e),
{
    match e {
        SendEvent::Failed(err) => *err,
        _ => BleError::TransportError,
    }
}

impl SendSession {
    /// Starts the send of `text`: the text is classified once, and the
    /// first action is to locate the peripheral.
    pub fn start(text: &str) -> (r: (SendSession, SendAction))
        ensures
            r.0 == initial(kind_of(text@)),
            consistent(r.0),
            r.1 is Locate,
    {
        let kind = crate::protocol::classify(text);
        (
            SendSession {
                kind,
                phase: SendPhase::Locating,
                tx: 0,
                rx: 0,
                linked: false,
                disconnected: false,
                outcome: Ok(()),
                exchanges: 0,
            },
            SendAction::Locate,
        )
    }

    /// Advances the session by the outcome of its last action and returns
    /// the next action.
    pub fn step(&mut self, event: SendEvent) -> (a: SendAction)
        ensures
            (*final(self), a) == step_spec(*old(self), event),
            consistent(*old(self)) ==> consistent(*final(self)),
    {
        let s = *self;
        proof {
            if consistent(s) {
                lemma_step(s, event);
            }
        }
        let (n, a) = match s.phase {
            SendPhase::Locating => match event {
                SendEvent::Completed => (
                    SendSession { phase: SendPhase::Connecting, ..s },
                    SendAction::Connect,
                ),
                _ => abort_exec(s, failure_exec(&event)),
            },
            SendPhase::Connecting => match event {
                SendEvent::Completed => (
                    SendSession { phase: SendPhase::CheckingLink, ..s },
                    SendAction::CheckLink,
                ),
                _ => abort_exec(s, failure_exec(&event)),
            },
            SendPhase::CheckingLink => match event {
                SendEvent::Linked(true) => (
                    SendSession { phase: SendPhase::Discovering, linked: true, ..s },
                    SendAction::DiscoverServices,
                ),
                SendEvent::Linked(false) => (
                    SendSession { phase: SendPhase::Finished, ..s },
                    SendAction::Finish(s.outcome),
                ),
                _ => abort_exec(s, failure_exec(&event)),
            },
            SendPhase::Discovering => match event {
                SendEvent::Discovered(u) => match resolve_characteristics(&u) {
                    Ok(c) => if s.kind == MessageKind::Command {
                        (
                            SendSession {
                                phase: SendPhase::Subscribing,
                                tx: c.tx,
                                rx: c.rx,
                                exchanges: 1,
                                ..s
                            },
                            SendAction::Subscribe(c.rx),
                        )
                    } else {
                        (
                            SendSession {
                                phase: SendPhase::Writing,
                                tx: c.tx,
                                rx: c.rx,
                                exchanges: 1,
                                ..s
                            },
                            SendAction::Write { characteristic: c.tx, acknowledged: false },
                        )
                    },
                    Err(err) => abort_exec(s, err),
                },
                _ => abort_exec(s, failure_exec(&event)),
            },
            SendPhase::Subscribing => match event {
                SendEvent::Completed => (
                    SendSession { phase: SendPhase::Writing, exchanges: 2, ..s },
                    SendAction::Write { characteristic: s.tx, acknowledged: true },
                ),
                _ => abort_exec(s, failure_exec(&event)),
            },
            SendPhase::Writing => match event {
                SendEvent::Completed => if s.kind == MessageKind::Command {
                    (
                        SendSession { phase: SendPhase::AwaitingReply, exchanges: 3, ..s },
                        SendAction::AwaitNotification,
                    )
                } else {
                    wrap_up_exec(s)
                },
                _ => abort_exec(s, failure_exec(&event)),
            },
            SendPhase::AwaitingReply => match event {
                SendEvent::Replied(t) => (
                    SendSession { phase: SendPhase::Showing, ..s },
                    SendAction::Show(t),
                ),
                SendEvent::StreamEnded => wrap_up_exec(s),
                _ => abort_exec(s, failure_exec(&event)),
            },
            SendPhase::Showing => match event {
                SendEvent::Completed => wrap_up_exec(s),
                _ => abort_exec(s, failure_exec(&event)),
            },
            SendPhase::Disconnecting => match event {
                SendEvent::Completed => (
                    SendSession { phase: SendPhase::Finished, ..s },
                    SendAction::Finish(s.outcome),
                ),
                _ => {
                    let o = if s.outcome.is_err() {
                        s.outcome
                    } else {
                        Err(failure_exec(&event))
                    };
                    (SendSession { phase: SendPhase::Finished, outcome: o, ..s }, SendAction::Finish(o))
                },
            },
            SendPhase::Finished => (s, SendAction::Finish(s.outcome)),
        };
        *self = n;
        a
    }
}

/// The session reached, and the actions requested, when a session meets a
/// sequence of events.
pub open spec fn run(s: SendSession, events: Seq<SendEvent>) -> (SendSession, Seq<SendAction>)
    decreases events.len(),
{
    if events.len() == 0 {
        (s, seq![])
    } else {
        let (s1, a) = step_spec(s, events[0]);
        let (s2, rest) = run(s1, events.drop_first());
        (s2, seq![a] + rest)
    }
}

/// The states a send session can be in.
pub open spec fn consistent(s: SendSession) -> bool {
    let n = expected_exchanges(s.kind).len();
    &&& s.exchanges <= n
    &&& s.disconnected ==> s.linked
    &&& match s.phase {
        SendPhase::Locating | SendPhase::Connecting | SendPhase::CheckingLink => !s.linked
            && s.exchanges == 0 && s.outcome is Ok,
        SendPhase::Discovering => s.linked && !s.disconnected && s.exchanges == 0 && s.outcome is Ok,
        SendPhase::Subscribing => s.linked && !s.disconnected && s.kind == MessageKind::Command
            && s.exchanges == 1 && s.outcome is Ok,
        SendPhase::Writing => s.linked && !s.disconnected && s.exchanges == (if s.kind
            == MessageKind::Command {
            2int
        } else {
            1int
        }) && s.outcome is Ok,
        SendPhase::AwaitingReply | SendPhase::Showing => s.linked && !s.disconnected && s.kind
            == MessageKind::Command && s.exchanges == 3 && s.outcome is Ok,
        SendPhase::Disconnecting => s.linked && s.disconnected && (s.outcome is Ok ==> s.exchanges
            == n),
        SendPhase::Finished => (s.linked ==> s.disconnected) && (s.linked && s.outcome is Ok
            ==> s.exchanges == n),
    }
}

proof fn lemma_step(s: SendSession, e: SendEvent)
    requires
        consistent(s),
    ensures
        consistent(step_spec(s, e).0),
        step_spec(s, e).0.kind == s.kind,
        s.exchanges <= step_spec(s, e).0.exchanges,
        exchange_of(step_spec(s, e).1) == expected_exchanges(s.kind).subrange(
            s.exchanges as int,
            step_spec(s, e).0.exchanges as int,
        ),
        (if step_spec(s, e).1 is Disconnect {
            1int
        } else {
            0int
        }) == (if step_spec(s, e).0.disconnected {
            1int
        } else {
            0int
        }) - (if s.disconnected {
            1int
        } else {
            0int
        }),
{
    let x = expected_exchanges(s.kind);
    let (n, a) = step_spec(s, e);
    assert(exchange_of(a) =~= x.subrange(s.exchanges as int, n.exchanges as int));
}

proof fn lemma_run(s: SendSession, events: Seq<SendEvent>)
    requires
        consistent(s),
    ensures
        consistent(run(s, events).0),
        run(s, events).0.kind == s.kind,
        s.exchanges <= run(s, events).0.exchanges,
        exchanges(run(s, events).1) == expected_exchanges(s.kind).subrange(
            s.exchanges as int,
            run(s, events).0.exchanges as int,
        ),
        disconnects(run(s, events).1) == (if run(s, events).0.disconnected {
            1int
        } else {
            0int
        }) - (if s.disconnected {
            1int
        } else {
            0int
        }),
    decreases events.len(),
{
    if events.len() > 0 {
        let (s1, a) = step_spec(s, events[0]);
        lemma_step(s, events[0]);
        lemma_run(s1, events.drop_first());
        let (s2, rest) = run(s1, events.drop_first());
        let all = seq![a] + rest;
        assert(all.drop_first() =~= rest);
        assert(all[0] == a);
        let x = expected_exchanges(s.kind);
        assert(x.subrange(s.exchanges as int, s1.exchanges as int) + x.subrange(
            s1.exchanges as int,
            s2.exchanges as int,
        ) =~= x.subrange(s.exchanges as int, s2.exchanges as int));
    }
}

/// A send requests the exchanges of its kind in their order and never more:
/// for a command a subscribe, then a write with acknowledgement, then one
/// wait for a reply; for a plain message one write without acknowledgement
/// and no wait. When the session ends successfully after the link came up,
/// all of them were requested.
pub proof fn lemma_send_exchange_order(text: Seq<char>, events: Seq<SendEvent>)
    ensures
        ({
            let (last, acts) = run(initial(kind_of(text)), events);
            let all = seq![SendAction::Locate] + acts;
            let x = expected_exchanges(kind_of(text));
            &&& exchanges(all).len() <= x.len()
            &&& exchanges(all) == x.take(exchanges(all).len() as int)
            &&& (last.phase is Finished && last.linked && last.outcome is Ok) ==> exchanges(all)
                == x
        }),
{
    let s0 = initial(kind_of(text));
    lemma_run(s0, events);
    let (last, acts) = run(s0, events);
    let all = seq![SendAction::Locate] + acts;
    assert(all.drop_first() =~= acts);
    assert(all[0] is Locate);
    assert(exchanges(all) == exchange_of(all[0]) + exchanges(acts));
    assert(exchanges(all) =~= exchanges(acts));
    let x = expected_exchanges(kind_of(text));
    assert(x.subrange(0, last.exchanges as int) =~= x.take(last.exchanges as int));
    assert(x.take(x.len() as int) =~= x);
}

/// A send disconnects at most once; it disconnects exactly once when it ends
/// after the link came up, whichever later step failed, and never when the
/// link did not come up.
pub proof fn lemma_send_disconnects_once(text: Seq<char>, events: Seq<SendEvent>)
    ensures
        ({
            let (last, acts) = run(initial(kind_of(text)), events);
            let all = seq![SendAction::Locate] + acts;
            &&& disconnects(all) <= 1
            &&& (last.phase is Finished && last.linked) ==> disconnects(all) == 1
            &&& !last.linked ==> disconnects(all) == 0
        }),
{
    let s0 = initial(kind_of(text));
    lemma_run(s0, events);
    let (last, acts) = run(s0, events);
    let all = seq![SendAction::Locate] + acts;
    assert(all.drop_first() =~= acts);
    assert(all[0] is Locate);
    assert(disconnects(all) == disconnects(acts));
}

/// What the interactive session does with one line of operator input.
#[derive(Debug)]
pub enum LineAction {
    /// Nothing: the line is blank.
    Skip,
    /// Disconnect and end the session.
    Quit,
    /// Write this text without acknowledgement.
    Send(String),
}

/// The line that ends an interactive session.
pub open spec fn quit_token() -> Seq<char> {
    seq!['q', 'u', 'i', 't', '(', ')']
}

fn is_quit(t: &str) -> (r: bool)
    ensures
        r == (t@ == quit_token()),
{
    let ghost q = quit_token();
    if t.unicode_len() != 6 {
        return false;
    }
    let r = t.get_char(0) == 'q' && t.get_char(1) == 'u' && t.get_char(2) == 'i' && t.get_char(3)
        == 't' && t.get_char(4) == '(' && t.get_char(5) == ')';
    assert(r ==> t@ =~= q);
    assert(t@ == q ==> t@[0] == 'q' && t@[1] == 'u' && t@[2] == 'i' && t@[3] == 't' && t@[4] == '('
        && t@[5] == ')');
    r
}

/// Decides what to do with a line whose surrounding whitespace is already
/// removed: a blank line is never sent, the quit token ends the session,
/// any other line is sent as it stands.
pub fn line_action(trimmed: String) -> (r: LineAction)
    ensures
        trimmed@.len() == 0 ==> r is Skip,
        trimmed@ == quit_token() ==> r is Quit,
        trimmed@.len() > 0 && trimmed@ != quit_token() ==> r == LineAction::Send(trimmed),
{
    if trimmed.as_str().unicode_len() == 0 {
        LineAction::Skip
    } else if is_quit(trimmed.as_str()) {
        LineAction::Quit
    } else {
        LineAction::Send(trimmed)
    }
}

/// Decides what to do with a raw line of operator input, after removing its
/// surrounding whitespace.
pub fn outbound_line(line: &str) -> (r: LineAction)
    ensures
        trim_of(line@).len() == 0 ==> r is Skip,
        trim_of(line@) == quit_token() ==> r is Quit,
        trim_of(line@).len() > 0 && trim_of(line@) != quit_token() ==> (r matches LineAction::Send(
            t,
        ) && t@ == trim_of(line@)),
{
    line_action(trim(line))
}

} // verus!
