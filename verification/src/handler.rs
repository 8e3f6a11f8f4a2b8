//! The per-connection handler's two decision rules. The ingress rule takes
//! what was read from the client and publishes it (plus the closing notice
//! after the sentinel command); the egress rule takes a message received
//! from the bus and decides whether this client gets it written to its
//! socket, and whether the chat is now closing.

use vstd::prelude::*;

use crate::bus::Bus;
use crate::bus::BusView;
use crate::bus::RecvOutcome;
use crate::bus::RecvV;
use crate::bus::lemma_in_order_consumption;
use crate::bus::lemma_publish_reaches_live_subs;
use crate::bus::lemma_publish_wf;
use crate::bus::publish_v;
use crate::bus::recv_n;
use crate::bus::recv_step;
use crate::message::Addr;
use crate::message::Message;
use crate::message::MsgView;
use crate::message::close_word;
use crate::message::closing_notice;
use crate::message::closing_notice_line;
use crate::message::is_close_line;
use crate::message::is_closing_notice;
use crate::message::trimmed;
use crate::shutdown::ShutdownFlag;
use crate::shutdown::set_v;

verus! {

/// What one read attempt on a client connection produced.
pub enum ReadResult {
    /// A complete line, terminator included.
    Line(Vec<u8>),
    /// The peer closed the connection; a trailing partial line emits
    /// nothing.
    EndOfStream,
    /// The transport failed; recoverable per connection.
    IoError,
}

/// The message a handler publishes for a line it read.
pub open spec fn line_msg(text: Seq<u8>, origin: Addr) -> MsgView {
    MsgView { text, origin }
}

/// The closing notice as published by the handler that saw the sentinel.
pub open spec fn notice_msg(origin: Addr) -> MsgView {
    MsgView { text: closing_notice(), origin }
}

/// What the egress loop does with one received message.
#[derive(Clone, Copy, PartialEq, Eq, Structural, Debug)]
pub enum EgressAction {
    /// The handler's own message came back: never echo to the sender.
    Discard,
    /// Another client's line: write it to this client's socket.
    Deliver,
    /// The closing notice from another client: write it, raise the
    /// shutdown flag, and terminate this handler.
    DeliverAndShutdown,
}

/// The egress rule as a mathematical function of the message and the
/// handler's own address.
pub open spec fn egress_v(m: MsgView, own: Addr) -> EgressAction {
    if m.origin == own {
        EgressAction::Discard
    } else if m.text == closing_notice() {
        EgressAction::DeliverAndShutdown
    } else {
        EgressAction::Deliver
    }
}

/// Decide what to do with one message received from the bus.
pub fn egress_decision(m: &Message, own: Addr) -> (a: EgressAction)
    ensures
        a == egress_v(m@, own),
{
    if m.origin == own {
        EgressAction::Discard
    } else if is_closing_notice(&m.text) {
        EgressAction::DeliverAndShutdown
    } else {
        EgressAction::Deliver
    }
}

/// One ingress step: what a handler does with one read result. A line is
/// published under the handler's own address; a line that trims to the
/// sentinel additionally publishes the closing notice. Returns whether the
/// handler's loops must terminate.
pub fn ingress_step(bus: &mut Bus, own: Addr, r: ReadResult) -> (terminate: bool)
    requires
        old(bus).inv(),
        !old(bus)@.closed,
        old(bus)@.head() + 2 <= usize::MAX as int,
    ensures
        final(bus).inv(),
        match r {
            ReadResult::Line(text) => {
                if trimmed(text@) == close_word() {
                    terminate && final(bus)@ == publish_v(
                        publish_v(old(bus)@, line_msg(text@, own)),
                        notice_msg(own),
                    )
                } else {
                    !terminate && final(bus)@ == publish_v(old(bus)@, line_msg(text@, own))
                }
            },
            ReadResult::EndOfStream => terminate && final(bus)@ == old(bus)@,
            ReadResult::IoError => terminate && final(bus)@ == old(bus)@,
        },
{
    match r {
        ReadResult::Line(text) => {
            let is_close = is_close_line(&text);
            let m = Message { text, origin: own };
            let _ = bus.publish(m);
            if is_close {
                let notice = Message { text: closing_notice_line(), origin: own };
                let _ = bus.publish(notice);
                true
            } else {
                false
            }
        },
        ReadResult::EndOfStream => true,
        ReadResult::IoError => true,
    }
}

/// What one egress step asks the unverified connection code to do.
pub enum EgressOutcome {
    /// Nothing unread yet; wait for the bus to signal again.
    Idle,
    /// Write these bytes to this client's socket.
    Write(Vec<u8>),
    /// Write these bytes, then terminate: the chat is closing and the
    /// shutdown flag has been raised.
    WriteAndStop(Vec<u8>),
    /// This handler's own message came back; nothing to do.
    SkippedOwn,
    /// The subscription lagged: this many oldest messages were lost for
    /// it. Count and continue; do not terminate the connection.
    Lost(usize),
    /// The bus is gone; terminate.
    Stop,
}

/// One egress step for the handler that owns subscription `s` and serves
/// the client at `own`: pull at most one message from the bus and act by
/// the egress rule, raising the shutdown flag on the closing notice.
pub fn egress_step(bus: &mut Bus, flag: &mut ShutdownFlag, s: usize, own: Addr) -> (o:
    EgressOutcome)
    requires
        old(bus).inv(),
        old(bus)@.sub_live(s as int),
    ensures
        final(bus).inv(),
        final(bus)@ == recv_step(old(bus)@, s as int).0,
        match recv_step(old(bus)@, s as int).1 {
            RecvV::Msg { msg, .. } => match egress_v(msg, own) {
                EgressAction::Discard => o is SkippedOwn && *final(flag) == *old(flag),
                EgressAction::Deliver => o matches EgressOutcome::Write(t) && t@ == msg.text
                    && *final(flag) == *old(flag),
                EgressAction::DeliverAndShutdown => o matches EgressOutcome::WriteAndStop(t) && t@
                    == msg.text && *final(flag) == set_v(*old(flag)),
            },
            RecvV::Lagged { missed } => o matches EgressOutcome::Lost(k) && k as int == missed
                && *final(flag) == *old(flag),
            RecvV::Pending => o is Idle && *final(flag) == *old(flag),
            RecvV::Closed => o is Stop && *final(flag) == *old(flag),
        },
{
    match bus.try_recv(s) {
        RecvOutcome::Msg(m) => {
            match egress_decision(&m, own) {
                EgressAction::Discard => EgressOutcome::SkippedOwn,
                EgressAction::Deliver => EgressOutcome::Write(m.text),
                EgressAction::DeliverAndShutdown => {
                    flag.set();
                    EgressOutcome::WriteAndStop(m.text)
                },
            }
        },
        RecvOutcome::Lagged(k) => EgressOutcome::Lost(k),
        RecvOutcome::Pending => EgressOutcome::Idle,
        RecvOutcome::Closed => EgressOutcome::Stop,
    }
}

/// A published line is pending for every subscription live at publish time,
/// and the sender's own egress — and only the sender's — discards it: the
/// line reaches all other clients and never echoes back.
pub proof fn lemma_fanout_excludes_sender(b: BusView, text: Seq<u8>, from: Addr, s: int, addr: Addr)
    requires
        b.wf(),
        b.sub_live(s),
    ensures
        ({
            let post = publish_v(b, line_msg(text, from));
            &&& post.history[b.head()] == line_msg(text, from)
            &&& post.sub_live(s)
            &&& post.cursor_of(s) <= b.head() < post.head()
            &&& ((egress_v(line_msg(text, from), addr) is Discard) <==> addr == from)
            &&& post.wf()
        }),
{
    lemma_publish_reaches_live_subs(b, line_msg(text, from), s);
    lemma_publish_wf(b, line_msg(text, from));
}

/// Unless it has fallen behind the retained window, every other client
/// really receives a published line: after its subscription reads what was
/// pending ahead, the next receive yields exactly that line, and the
/// egress rule does not discard it (only the sender's own does).
pub proof fn lemma_published_line_is_received(
    b: BusView,
    text: Seq<u8>,
    from: Addr,
    s: int,
    addr: Addr,
)
    requires
        b.wf(),
        b.sub_live(s),
        addr != from,
        publish_v(b, line_msg(text, from)).drop_point() <= b.cursor_of(s),
    ensures
        ({
            let post = publish_v(b, line_msg(text, from));
            let pending = (b.head() - b.cursor_of(s)) as nat;
            &&& recv_step(recv_n(post, s, pending), s).1 == (RecvV::Msg {
                pos: b.head(),
                msg: line_msg(text, from),
            })
            &&& !(egress_v(line_msg(text, from), addr) is Discard)
        }),
{
    let m = line_msg(text, from);
    lemma_publish_reaches_live_subs(b, m, s);
    lemma_publish_wf(b, m);
    lemma_in_order_consumption(publish_v(b, m), s, (b.head() - b.cursor_of(s)) as nat);
}

/// The sentinel: after a handler ingests a line that trims to the close
/// word, the closing notice stands in the history; every other live
/// subscription has it ahead of its cursor, and for every client with a
/// different address the egress rule both delivers it and raises the
/// shutdown flag — so all remaining handlers terminate once they read up
/// to it.
pub proof fn lemma_close_notifies_others(b: BusView, text: Seq<u8>, from: Addr, s: int, addr: Addr)
    requires
        b.wf(),
        b.sub_live(s),
        trimmed(text) == close_word(),
        addr != from,
    ensures
        ({
            let post = publish_v(publish_v(b, line_msg(text, from)), notice_msg(from));
            &&& post.history[b.head() + 1] == notice_msg(from)
            &&& post.sub_live(s)
            &&& post.cursor_of(s) <= b.head() + 1 < post.head()
            &&& egress_v(notice_msg(from), addr) is DeliverAndShutdown
            &&& post.wf()
            &&& (post.drop_point() <= b.cursor_of(s) ==> recv_step(
                recv_n(post, s, (b.head() + 1 - b.cursor_of(s)) as nat),
                s,
            ).1 == (RecvV::Msg { pos: b.head() + 1, msg: notice_msg(from) }))
        }),
{
    let first = publish_v(b, line_msg(text, from));
    let post = publish_v(first, notice_msg(from));
    lemma_publish_reaches_live_subs(b, line_msg(text, from), s);
    lemma_publish_wf(b, line_msg(text, from));
    lemma_publish_reaches_live_subs(first, notice_msg(from), s);
    lemma_publish_wf(first, notice_msg(from));
    if post.drop_point() <= b.cursor_of(s) {
        lemma_in_order_consumption(post, s, (b.head() + 1 - b.cursor_of(s)) as nat);
    }
}

} // verus!
