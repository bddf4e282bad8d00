//! The subscription session's state machine.
//!
//! One session owns one websocket bound to one book. The caller performs
//! the transport work (connect, send, receive) and feeds what happened
//! into [`session_step`]; the machine decides the next state and the one
//! action to take. The unsubscribe frame is proved to be requested at most
//! once over any input sequence.

use vstd::prelude::*;

verus! {

/// Where a session stands.
#[derive(Clone, Copy, Debug, PartialEq, Eq, Structural)]
pub enum SessionState {
    Init,
    Connected,
    Subscribed,
    Closing,
    Closed,
}

/// What kind of frame arrived, as the classifier saw it.
#[derive(Clone, Copy, Debug, PartialEq, Eq, Structural)]
pub enum FrameKind {
    /// A Level-3 snapshot: apply it to the book.
    BookSnapshot,
    /// A Level-3 update: apply it to the book.
    BookUpdate,
    /// A trade snapshot: append its trades.
    TradeTape,
    /// A trade update: append its trades.
    TradeTapeUpdate,
    /// An acknowledgement, heartbeat, status or other known frame: log it.
    Informational,
    /// Text that did not classify: log it.
    Unparsed,
}

/// What happened at the transport.
#[derive(Clone, Copy, Debug, PartialEq, Eq, Structural)]
pub enum SessionInput {
    /// The websocket opened.
    Opened,
    /// The websocket could not be opened.
    OpenFailed,
    /// The subscribe frame went out.
    SubscribeSent,
    /// A text frame arrived, already classified.
    Text(FrameKind),
    /// A ping, pong, binary or other non-text frame arrived.
    TransportNoise,
    /// Receiving failed; the stream may still deliver more.
    RecvError,
    /// The peer closed, or the stream ended.
    RemoteClose,
    /// The shutdown broadcast fired.
    Shutdown,
    /// The unsubscribe frame went out (or failed, best effort).
    UnsubscribeSent,
}

/// What the caller should do next.
#[derive(Clone, Copy, Debug, PartialEq, Eq, Structural)]
pub enum SessionAction {
    /// Nothing; keep going.
    Idle,
    /// Send the pre-built subscribe frame.
    SendSubscribe,
    /// Hand the frame to the matching applier.
    Dispatch(FrameKind),
    /// Send the pre-built unsubscribe frame, best effort.
    SendUnsubscribe,
    /// The session is over; release the transport.
    Stop,
}

/// The whole transition table. A session connects, subscribes, pumps
/// frames, and leaves on shutdown by unsubscribing once, or at once when
/// the peer closes.
pub open spec fn spec_session_step(s: SessionState, i: SessionInput) -> (
    SessionState,
    SessionAction,
) {
    match (s, i) {
        (SessionState::Init, SessionInput::Opened) => (
            SessionState::Connected,
            SessionAction::SendSubscribe,
        ),
        (SessionState::Init, SessionInput::OpenFailed) => (
            SessionState::Closed,
            SessionAction::Stop,
        ),
        (SessionState::Init, SessionInput::Shutdown) => (SessionState::Closed, SessionAction::Stop),
        (SessionState::Init, _) => (SessionState::Init, SessionAction::Idle),
        (SessionState::Connected, SessionInput::SubscribeSent) => (
            SessionState::Subscribed,
            SessionAction::Idle,
        ),
        (SessionState::Connected, SessionInput::Shutdown) => (
            SessionState::Closing,
            SessionAction::SendUnsubscribe,
        ),
        (SessionState::Connected, SessionInput::RemoteClose) => (
            SessionState::Closed,
            SessionAction::Stop,
        ),
        (SessionState::Connected, _) => (SessionState::Connected, SessionAction::Idle),
        (SessionState::Subscribed, SessionInput::Text(k)) => (
            SessionState::Subscribed,
            SessionAction::Dispatch(k),
        ),
        (SessionState::Subscribed, SessionInput::Shutdown) => (
            SessionState::Closing,
            SessionAction::SendUnsubscribe,
        ),
        (SessionState::Subscribed, SessionInput::RemoteClose) => (
            SessionState::Closed,
            SessionAction::Stop,
        ),
        (SessionState::Subscribed, _) => (SessionState::Subscribed, SessionAction::Idle),
        (SessionState::Closing, SessionInput::UnsubscribeSent) => (
            SessionState::Closed,
            SessionAction::Stop,
        ),
        (SessionState::Closing, SessionInput::RemoteClose) => (
            SessionState::Closed,
            SessionAction::Stop,
        ),
        (SessionState::Closing, _) => (SessionState::Closing, SessionAction::Idle),
        (SessionState::Closed, _) => (SessionState::Closed, SessionAction::Idle),
    }
}

/// Takes one step, exactly as [`spec_session_step`] says.
pub fn session_step(s: SessionState, i: SessionInput) -> (r: (SessionState, SessionAction))
    ensures
        r == spec_session_step(s, i),
{
    match (s, i) {
        (SessionState::Init, SessionInput::Opened) => (
            SessionState::Connected,
            SessionAction::SendSubscribe,
        ),
        (SessionState::Init, SessionInput::OpenFailed) => (
            SessionState::Closed,
            SessionAction::Stop,
        ),
        (SessionState::Init, SessionInput::Shutdown) => (SessionState::Closed, SessionAction::Stop),
        (SessionState::Init, _) => (SessionState::Init, SessionAction::Idle),
        (SessionState::Connected, SessionInput::SubscribeSent) => (
            SessionState::Subscribed,
            SessionAction::Idle,
        ),
        (SessionState::Connected, SessionInput::Shutdown) => (
            SessionState::Closing,
            SessionAction::SendUnsubscribe,
        ),
        (SessionState::Connected, SessionInput::RemoteClose) => (
            SessionState::Closed,
            SessionAction::Stop,
        ),
        (SessionState::Connected, _) => (SessionState::Connected, SessionAction::Idle),
        (SessionState::Subscribed, SessionInput::Text(k)) => (
            SessionState::Subscribed,
            SessionAction::Dispatch(k),
        ),
        (SessionState::Subscribed, SessionInput::Shutdown) => (
            SessionState::Closing,
            SessionAction::SendUnsubscribe,
        ),
        (SessionState::Subscribed, SessionInput::RemoteClose) => (
            SessionState::Closed,
            SessionAction::Stop,
        ),
        (SessionState::Subscribed, _) => (SessionState::Subscribed, SessionAction::Idle),
        (SessionState::Closing, SessionInput::UnsubscribeSent) => (
            SessionState::Closed,
            SessionAction::Stop,
        ),
        (SessionState::Closing, SessionInput::RemoteClose) => (
            SessionState::Closed,
            SessionAction::Stop,
        ),
        (SessionState::Closing, _) => (SessionState::Closing, SessionAction::Idle),
        (SessionState::Closed, _) => (SessionState::Closed, SessionAction::Idle),
    }
}

/// The frame kind a classified response dispatches as.
pub fn frame_kind(r: &crate::classifier::Response) -> (k: FrameKind)
    ensures
        k == spec_frame_kind(r@),
{
    match r {
        crate::classifier::Response::Level3Snapshot(_) => FrameKind::BookSnapshot,
        crate::classifier::Response::Level3Update(_) => FrameKind::BookUpdate,
        crate::classifier::Response::TradeSnapshot(_) => FrameKind::TradeTape,
        crate::classifier::Response::TradeUpdate(_) => FrameKind::TradeTapeUpdate,
        _ => FrameKind::Informational,
    }
}

pub open spec fn spec_frame_kind(r: crate::classifier::ResponseV) -> FrameKind {
    match r {
        crate::classifier::ResponseV::Level3Snapshot(_) => FrameKind::BookSnapshot,
        crate::classifier::ResponseV::Level3Update(_) => FrameKind::BookUpdate,
        crate::classifier::ResponseV::TradeSnapshot(_) => FrameKind::TradeTape,
        crate::classifier::ResponseV::TradeUpdate(_) => FrameKind::TradeTapeUpdate,
        _ => FrameKind::Informational,
    }
}

/// The whole run: the state and the actions after a sequence of inputs.
pub open spec fn spec_session_run(s: SessionState, inputs: Seq<SessionInput>) -> (
    SessionState,
    Seq<SessionAction>,
)
    decreases inputs.len(),
{
    if inputs.len() == 0 {
        (s, Seq::empty())
    } else {
        let (s1, a) = spec_session_step(s, inputs[0]);
        let (s2, rest) = spec_session_run(s1, inputs.drop_first());
        (s2, seq![a] + rest)
    }
}

/// How many times the run asks to send the unsubscribe frame.
pub open spec fn count_unsubscribes(actions: Seq<SessionAction>) -> int
    decreases actions.len(),
{
    if actions.len() == 0 {
        0
    } else {
        (if actions[0] == SessionAction::SendUnsubscribe {
            1int
        } else {
            0int
        }) + count_unsubscribes(actions.drop_first())
    }
}

/// Once a session is closing or closed it never asks to unsubscribe again.
proof fn lemma_no_unsubscribe_after_closing(s: SessionState, inputs: Seq<SessionInput>)
    requires
        s == SessionState::Closing || s == SessionState::Closed,
    ensures
        count_unsubscribes(spec_session_run(s, inputs).1) == 0,
    decreases inputs.len(),
{
    if inputs.len() > 0 {
        let (s1, a) = spec_session_step(s, inputs[0]);
        let (s2, rest) = spec_session_run(s1, inputs.drop_first());
        lemma_no_unsubscribe_after_closing(s1, inputs.drop_first());
        assert((seq![a] + rest).drop_first() =~= rest);
        assert((seq![a] + rest)[0] == a);
    }
}

/// Over any input sequence a session asks to send the unsubscribe frame at
/// most once.
pub proof fn lemma_unsubscribe_at_most_once(s: SessionState, inputs: Seq<SessionInput>)
    ensures
        count_unsubscribes(spec_session_run(s, inputs).1) <= 1,
    decreases inputs.len(),
{
    if inputs.len() > 0 {
        let (s1, a) = spec_session_step(s, inputs[0]);
        let (s2, rest) = spec_session_run(s1, inputs.drop_first());
        if a == SessionAction::SendUnsubscribe {
            lemma_no_unsubscribe_after_closing(s1, inputs.drop_first());
        } else {
            lemma_unsubscribe_at_most_once(s1, inputs.drop_first());
        }
        assert((seq![a] + rest).drop_first() =~= rest);
        assert((seq![a] + rest)[0] == a);
    }
}

/// A shutdown delivered while subscribed asks for exactly one unsubscribe.
pub proof fn lemma_shutdown_unsubscribes_once(inputs: Seq<SessionInput>)
    requires
        inputs.len() > 0,
        inputs[0] == SessionInput::Shutdown,
    ensures
        count_unsubscribes(spec_session_run(SessionState::Subscribed, inputs).1) == 1,
{
    let (s1, a) = spec_session_step(SessionState::Subscribed, inputs[0]);
    assert(a == SessionAction::SendUnsubscribe);
    let (s2, rest) = spec_session_run(s1, inputs.drop_first());
    lemma_no_unsubscribe_after_closing(s1, inputs.drop_first());
    assert((seq![a] + rest).drop_first() =~= rest);
    assert((seq![a] + rest)[0] == a);
}

} // verus!
