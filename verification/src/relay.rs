//! Decisions of the event relay: one browser socket paired with one daemon
//! connection for the life of the session. The phases run `Connecting →
//! Authenticating → Probing → Ready → Relaying → Closing → Closed`; every
//! handshake failure emits a typed error frame and moves to `Closing`, and a
//! close frame is always attempted before the session ends. In the relaying
//! phase only true daemon notifications are forwarded to the browser, and
//! the browser side is a control channel only: close ends the session, a
//! ping is answered, and nothing a browser sends is forwarded to the daemon.
//! The surrounding I/O loop performs these actions; every decision is here.
use vstd::prelude::*;

use crate::json::{deep_entries, obj_push, text_of, to_bytes, Json, JsonModel};
use crate::util::{ascii, lit, lower_seq, trimmed};
use crate::wire::is_notification;

verus! {

/// The phases of one relay session.
#[derive(PartialEq, Eq, Structural, Clone, Copy, Debug)]
pub enum RelayPhase {
    Connecting,
    Authenticating,
    Probing,
    Ready,
    Relaying,
    Closing,
    Closed,
}

/// What happened, seen from the session's phase machine.
#[derive(PartialEq, Eq, Structural, Clone, Copy, Debug)]
pub enum SessionEvent {
    DaemonConnected,
    DaemonConnectFailed,
    Authenticated,
    AuthFailed,
    ProbeAnswered,
    ProbeFailed,
    ReadyDelivered,
    DeliveryFailed,
    DaemonStreamEnded,
    BrowserEnded,
    CloseSent,
}

/// The phase table: handshake steps advance on success and head for
/// `Closing` on failure; a failed delivery of the ready frame ends the
/// session outright; either side ending a relaying session moves to
/// `Closing`; the close frame sent, the session is `Closed`. An event that
/// does not concern the phase leaves it unchanged.
pub open spec fn relay_next(phase: RelayPhase, event: SessionEvent) -> RelayPhase {
    match (phase, event) {
        (RelayPhase::Connecting, SessionEvent::DaemonConnected) => RelayPhase::Authenticating,
        (RelayPhase::Connecting, SessionEvent::DaemonConnectFailed) => RelayPhase::Closing,
        (RelayPhase::Authenticating, SessionEvent::Authenticated) => RelayPhase::Probing,
        (RelayPhase::Authenticating, SessionEvent::AuthFailed) => RelayPhase::Closing,
        (RelayPhase::Probing, SessionEvent::ProbeAnswered) => RelayPhase::Ready,
        (RelayPhase::Probing, SessionEvent::ProbeFailed) => RelayPhase::Closing,
        (RelayPhase::Ready, SessionEvent::ReadyDelivered) => RelayPhase::Relaying,
        (RelayPhase::Ready, SessionEvent::DeliveryFailed) => RelayPhase::Closed,
        (RelayPhase::Relaying, SessionEvent::DaemonStreamEnded) => RelayPhase::Closing,
        (RelayPhase::Relaying, SessionEvent::BrowserEnded) => RelayPhase::Closing,
        (RelayPhase::Closing, SessionEvent::CloseSent) => RelayPhase::Closed,
        _ => phase,
    }
}

/// Advance the session phase by one event.
pub fn relay_transition(phase: RelayPhase, event: SessionEvent) -> (r: RelayPhase)
    ensures
        r == relay_next(phase, event),
{
    match (phase, event) {
        (RelayPhase::Connecting, SessionEvent::DaemonConnected) => RelayPhase::Authenticating,
        (RelayPhase::Connecting, SessionEvent::DaemonConnectFailed) => RelayPhase::Closing,
        (RelayPhase::Authenticating, SessionEvent::Authenticated) => RelayPhase::Probing,
        (RelayPhase::Authenticating, SessionEvent::AuthFailed) => RelayPhase::Closing,
        (RelayPhase::Probing, SessionEvent::ProbeAnswered) => RelayPhase::Ready,
        (RelayPhase::Probing, SessionEvent::ProbeFailed) => RelayPhase::Closing,
        (RelayPhase::Ready, SessionEvent::ReadyDelivered) => RelayPhase::Relaying,
        (RelayPhase::Ready, SessionEvent::DeliveryFailed) => RelayPhase::Closed,
        (RelayPhase::Relaying, SessionEvent::DaemonStreamEnded) => RelayPhase::Closing,
        (RelayPhase::Relaying, SessionEvent::BrowserEnded) => RelayPhase::Closing,
        (RelayPhase::Closing, SessionEvent::CloseSent) => RelayPhase::Closed,
        (p, _) => p,
    }
}

/// A session, once closing, never leaves the closing pair of phases.
pub proof fn lemma_closing_is_terminal(phase: RelayPhase, event: SessionEvent)
    ensures
        (phase == RelayPhase::Closing || phase == RelayPhase::Closed) ==> {
            let next = relay_next(phase, event);
            next == RelayPhase::Closing || next == RelayPhase::Closed
        },
{
}

/// The model of a one-field gateway frame `{"type": <t>}`.
pub open spec fn typed_frame_model(t: Seq<u8>) -> JsonModel {
    JsonModel::Obj(seq![(ascii("type"@), JsonModel::Text(t))])
}

/// The model of a two-field gateway frame `{"type": <t>, <key>: <value>}`.
pub open spec fn typed_frame2_model(t: Seq<u8>, key: Seq<u8>, value: Seq<u8>) -> JsonModel {
    JsonModel::Obj(
        seq![(ascii("type"@), JsonModel::Text(t)), (key, JsonModel::Text(value))],
    )
}

fn typed_frame2(t: &[u8], key: &[u8], value: &[u8]) -> (r: Vec<u8>)
    ensures
        r@ == text_of(typed_frame2_model(t@, key@, value@)),
{
    proof {
        reveal_strlit("type");
        assert("type".is_ascii());
    }
    let mut entries: Vec<(Vec<u8>, Json)> = Vec::new();
    obj_push(&mut entries, lit("type"), Json::Text(crate::util::to_vec(t)));
    obj_push(&mut entries, key, Json::Text(crate::util::to_vec(value)));
    let frame = Json::Obj(entries);
    proof {
        assert(deep_entries(Seq::<(Vec<u8>, Json)>::empty())
            == Seq::<(Seq<u8>, JsonModel)>::empty());
        assert(deep_entries(entries@) =~= seq![
            (ascii("type"@), JsonModel::Text(t@)),
            (key@, JsonModel::Text(value@)),
        ]);
    }
    to_bytes(&frame)
}

/// The `gateway/error` frame: a handshake step failed with this message.
pub fn gateway_error_frame(message: &[u8]) -> (r: Vec<u8>)
    ensures
        r@ == text_of(
            typed_frame2_model(ascii("gateway/error"@), ascii("message"@), message@),
        ),
{
    proof {
        reveal_strlit("gateway/error");
        assert("gateway/error".is_ascii());
        reveal_strlit("message");
        assert("message".is_ascii());
    }
    typed_frame2(lit("gateway/error"), lit("message"), message)
}

/// The `gateway/disconnected` frame: the daemon side ended mid-session.
pub fn gateway_disconnected_frame(message: &[u8]) -> (r: Vec<u8>)
    ensures
        r@ == text_of(
            typed_frame2_model(ascii("gateway/disconnected"@), ascii("message"@), message@),
        ),
{
    proof {
        reveal_strlit("gateway/disconnected");
        assert("gateway/disconnected".is_ascii());
        reveal_strlit("message");
        assert("message".is_ascii());
    }
    typed_frame2(lit("gateway/disconnected"), lit("message"), message)
}

/// The `gateway/ready` frame, naming the daemon the session is bridged to.
pub fn gateway_ready_frame(daemon_addr: &[u8]) -> (r: Vec<u8>)
    ensures
        r@ == text_of(
            typed_frame2_model(ascii("gateway/ready"@), ascii("daemon"@), daemon_addr@),
        ),
{
    proof {
        reveal_strlit("gateway/ready");
        assert("gateway/ready".is_ascii());
        reveal_strlit("daemon");
        assert("daemon".is_ascii());
    }
    typed_frame2(lit("gateway/ready"), lit("daemon"), daemon_addr)
}

/// The `gateway/pong` frame answering a textual ping.
pub fn gateway_pong_frame() -> (r: Vec<u8>)
    ensures
        r@ == text_of(typed_frame_model(ascii("gateway/pong"@))),
{
    proof {
        reveal_strlit("type");
        assert("type".is_ascii());
        reveal_strlit("gateway/pong");
        assert("gateway/pong".is_ascii());
    }
    let mut entries: Vec<(Vec<u8>, Json)> = Vec::new();
    obj_push(&mut entries, lit("type"), Json::Text(crate::util::to_vec(lit("gateway/pong"))));
    let frame = Json::Obj(entries);
    proof {
        assert(deep_entries(Seq::<(Vec<u8>, Json)>::empty())
            == Seq::<(Seq<u8>, JsonModel)>::empty());
        assert(deep_entries(entries@) =~= seq![
            (ascii("type"@), JsonModel::Text(ascii("gateway/pong"@))),
        ]);
    }
    to_bytes(&frame)
}

/// Message for a daemon stream that ended cleanly mid-session.
pub fn daemon_closed_message() -> (r: &'static [u8])
    ensures
        r@ == ascii("daemon stream closed"@),
{
    proof {
        reveal_strlit("daemon stream closed");
        assert("daemon stream closed".is_ascii());
    }
    lit("daemon stream closed")
}

/// Message for a daemon read that failed mid-session.
pub fn daemon_read_failed_message() -> (r: &'static [u8])
    ensures
        r@ == ascii("daemon read failed"@),
{
    proof {
        reveal_strlit("daemon read failed");
        assert("daemon read failed".is_ascii());
    }
    lit("daemon read failed")
}

/// Whether a parsed daemon line is forwarded to the browser: only a true
/// push notification is; replies, strays and unparseable lines are dropped
/// without ending the session.
pub fn relay_forward_decision(parsed: Option<&Json>) -> (r: bool)
    ensures
        r == match parsed {
            Some(m) => is_notification(m.deep()),
            None => false,
        },
{
    match parsed {
        Some(m) => crate::wire::is_event_notification(m),
        None => false,
    }
}

/// A control frame arriving from the browser, as the relay sees it.
pub enum BrowserFrame {
    /// A text frame with this payload.
    TextFrame(Vec<u8>),
    /// A protocol ping with this payload.
    Ping(Vec<u8>),
    /// A close frame, or the socket is gone.
    CloseFrame,
    /// Any other frame kind.
    Other,
    /// Receiving failed.
    Failed,
}

/// What the relay does with one browser frame.
pub enum BrowserReply {
    /// Nothing; the frame is ignored.
    Ignore,
    /// Answer a protocol ping with a pong carrying the same payload.
    Pong(Vec<u8>),
    /// Answer a textual ping with the `gateway/pong` frame.
    GatewayPong,
    /// End the session.
    Stop,
}

/// Decide the reply to one browser frame: close or failure stops the
/// session, a ping is answered with its own payload, a text frame equal to
/// `ping` up to case and surrounding whitespace gets the gateway pong, and
/// everything else is ignored — nothing a browser sends goes to the daemon.
pub fn browser_frame_reply(frame: BrowserFrame) -> (r: BrowserReply)
    ensures
        match frame {
            BrowserFrame::CloseFrame => r is Stop,
            BrowserFrame::Failed => r is Stop,
            BrowserFrame::Ping(p) => r matches BrowserReply::Pong(q) && q@ == p@,
            BrowserFrame::TextFrame(t) => if lower_seq(trimmed(t@)) == ascii("ping"@) {
                r is GatewayPong
            } else {
                r is Ignore
            },
            BrowserFrame::Other => r is Ignore,
        },
{
    proof {
        reveal_strlit("ping");
        assert("ping".is_ascii());
    }
    match frame {
        BrowserFrame::CloseFrame => BrowserReply::Stop,
        BrowserFrame::Failed => BrowserReply::Stop,
        BrowserFrame::Ping(p) => BrowserReply::Pong(p),
        BrowserFrame::TextFrame(t) => {
            let trimmed_text = crate::util::trim(t.as_slice());
            if crate::util::eq_ignore_case(trimmed_text, lit("ping")) {
                proof {
                    assert(lower_seq(ascii("ping"@)) =~= ascii("ping"@));
                }
                BrowserReply::GatewayPong
            } else {
                proof {
                    assert(lower_seq(ascii("ping"@)) =~= ascii("ping"@));
                }
                BrowserReply::Ignore
            }
        },
        BrowserFrame::Other => BrowserReply::Ignore,
    }
}

} // verus!
