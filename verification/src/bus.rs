//! The broadcast bus: a bounded fan-out channel with one logical producer
//! side and any number of subscriptions, each reading at its own pace.
//!
//! A published message is delivered to every subscription that existed at
//! publish time; a subscription created later never sees it. The bus keeps
//! only the most recent `capacity` messages: a subscription that falls
//! further behind loses the oldest unread messages (and is told how many)
//! instead of blocking the bus or growing memory without bound.

use vstd::prelude::*;

use crate::message::Message;
use crate::message::MsgView;

verus! {

/// Mathematical state of one subscription.
#[verifier::ext_equal]
pub ghost struct SubView {
    /// Still attached to the bus.
    pub live: bool,
    /// Position in the bus history of the next message to read.
    pub cursor: int,
    /// Length the history had when this subscription was created.
    pub joined: int,
}

/// Mathematical state of the bus: the full history of published messages
/// and the reading position of every subscription.
#[verifier::ext_equal]
pub ghost struct BusView {
    /// How many messages the bus retains for slow subscriptions.
    pub capacity: int,
    /// Every message ever published, in publish order.
    pub history: Seq<MsgView>,
    /// All subscriptions ever made, indexed by their id.
    pub subs: Seq<SubView>,
    /// Whether the bus has been torn down.
    pub closed: bool,
}

impl BusView {
    /// Number of messages published so far.
    pub open spec fn head(self) -> int {
        self.history.len() as int
    }

    /// Position of the oldest message the bus still retains.
    pub open spec fn drop_point(self) -> int {
        if self.head() <= self.capacity {
            0
        } else {
            self.head() - self.capacity
        }
    }

    /// Whether `s` is the id of a subscription that was ever made.
    pub open spec fn is_sub(self, s: int) -> bool {
        0 <= s < self.subs.len()
    }

    /// Whether `s` is the id of a subscription still attached to the bus.
    pub open spec fn sub_live(self, s: int) -> bool {
        self.is_sub(s) && self.subs[s].live
    }

    /// Position of the next message subscription `s` will read.
    pub open spec fn cursor_of(self, s: int) -> int {
        self.subs[s].cursor
    }

    /// History length at the moment subscription `s` was created.
    pub open spec fn joined_of(self, s: int) -> int {
        self.subs[s].joined
    }

    /// Number of subscriptions still attached.
    pub open spec fn live_count(self) -> int {
        count_live(self.subs)
    }

    /// Every subscription reads forward, never before its creation point
    /// and never past the end of the history.
    pub open spec fn wf(self) -> bool {
        &&& self.capacity >= 1
        &&& forall|s: int|
            #![trigger self.cursor_of(s)]
            #![trigger self.joined_of(s)]
            self.is_sub(s) ==> 0 <= self.joined_of(s) <= self.cursor_of(s) <= self.head()
    }
}

/// How many of these subscriptions are still attached.
pub open spec fn count_live(subs: Seq<SubView>) -> int
    decreases subs.len(),
{
    if subs.len() == 0 {
        0
    } else {
        count_live(subs.drop_last()) + (if subs.last().live {
            1int
        } else {
            0int
        })
    }
}

/// The live count never exceeds the number of subscriptions.
pub proof fn lemma_count_live_bounds(subs: Seq<SubView>)
    ensures
        0 <= count_live(subs) <= subs.len(),
    decreases subs.len(),
{
    if subs.len() > 0 {
        lemma_count_live_bounds(subs.drop_last());
    }
}

/// Replacing one subscription changes the live count by the difference of
/// the two entries.
pub proof fn lemma_count_live_update(subs: Seq<SubView>, i: int, x: SubView)
    requires
        0 <= i < subs.len(),
    ensures
        count_live(subs.update(i, x)) == count_live(subs) + (if x.live {
            1int
        } else {
            0int
        }) - (if subs[i].live {
            1int
        } else {
            0int
        }),
    decreases subs.len(),
{
    let u = subs.update(i, x);
    if i == subs.len() - 1 {
        assert(u.drop_last() =~= subs.drop_last());
    } else {
        assert(u.drop_last() =~= subs.drop_last().update(i, x));
        lemma_count_live_update(subs.drop_last(), i, x);
        assert(u.last() == subs.last());
    }
}

/// A live subscription makes the live count positive.
pub proof fn lemma_count_live_positive(subs: Seq<SubView>, i: int)
    requires
        0 <= i < subs.len(),
        subs[i].live,
    ensures
        count_live(subs) >= 1,
    decreases subs.len(),
{
    if i == subs.len() - 1 {
        lemma_count_live_bounds(subs.drop_last());
    } else {
        lemma_count_live_positive(subs.drop_last(), i);
    }
}

/// The bus just created: nothing published, nobody subscribed.
pub open spec fn empty_bus(capacity: int) -> BusView {
    BusView { capacity, history: Seq::empty(), subs: Seq::empty(), closed: false }
}

/// Publishing appends to the history and touches nothing else.
pub open spec fn publish_v(b: BusView, m: MsgView) -> BusView {
    BusView { history: b.history.push(m), ..b }
}

/// Subscribing adds one live subscription whose cursor and creation point
/// are both the current end of the history.
pub open spec fn subscribe_v(b: BusView) -> BusView {
    BusView {
        subs: b.subs.push(SubView { live: true, cursor: b.head(), joined: b.head() }),
        ..b
    }
}

/// Dropping a subscription marks it dead; the history is untouched.
pub open spec fn unsubscribe_v(b: BusView, s: int) -> BusView {
    BusView { subs: b.subs.update(s, SubView { live: false, ..b.subs[s] }), ..b }
}

/// Tearing the bus down only raises the closed mark.
pub open spec fn close_v(b: BusView) -> BusView {
    BusView { closed: true, ..b }
}

/// What one receive attempt by subscription `s` returns.
pub ghost enum RecvV {
    /// The message at history position `pos`.
    Msg { pos: int, msg: MsgView },
    /// The subscription fell behind; `missed` messages were dropped for it.
    Lagged { missed: int },
    /// Nothing unread yet; the caller should wait.
    Pending,
    /// The bus was torn down and everything unread was consumed.
    Closed,
}

/// One receive attempt by subscription `s`: the bus state after it and what
/// it returns.
pub open spec fn recv_step(b: BusView, s: int) -> (BusView, RecvV) {
    let c = b.cursor_of(s);
    if c < b.drop_point() {
        (
            BusView { subs: b.subs.update(s, SubView { cursor: b.drop_point(), ..b.subs[s] }), ..b },
            RecvV::Lagged { missed: b.drop_point() - c },
        )
    } else if c == b.head() {
        if b.closed {
            (b, RecvV::Closed)
        } else {
            (b, RecvV::Pending)
        }
    } else {
        (
            BusView { subs: b.subs.update(s, SubView { cursor: c + 1, ..b.subs[s] }), ..b },
            RecvV::Msg { pos: c, msg: b.history[c] },
        )
    }
}

/// Publishing preserves well-formedness: cursors stay within the grown
/// history.
pub proof fn lemma_publish_wf(b: BusView, m: MsgView)
    requires
        b.wf(),
    ensures
        publish_v(b, m).wf(),
{
    let p = publish_v(b, m);
    assert forall|s: int| p.is_sub(s) implies 0 <= p.joined_of(s) <= p.cursor_of(s)
        <= p.head() by {
        assert(0 <= b.joined_of(s) <= b.cursor_of(s) <= b.head());
    }
}

/// Subscribing preserves well-formedness: the new subscription starts at
/// the current end of the history.
pub proof fn lemma_subscribe_wf(b: BusView)
    requires
        b.wf(),
    ensures
        subscribe_v(b).wf(),
{
    let p = subscribe_v(b);
    assert forall|s: int| p.is_sub(s) implies 0 <= p.joined_of(s) <= p.cursor_of(s)
        <= p.head() by {
        if s < b.subs.len() {
            assert(0 <= b.joined_of(s) <= b.cursor_of(s) <= b.head());
        }
    }
}

/// Detaching a subscription preserves well-formedness.
pub proof fn lemma_unsubscribe_wf(b: BusView, s: int)
    requires
        b.wf(),
        b.is_sub(s),
    ensures
        unsubscribe_v(b, s).wf(),
{
    let p = unsubscribe_v(b, s);
    assert forall|t: int| p.is_sub(t) implies 0 <= p.joined_of(t) <= p.cursor_of(t)
        <= p.head() by {
        assert(0 <= b.joined_of(t) <= b.cursor_of(t) <= b.head());
    }
}

/// Tearing the bus down preserves well-formedness.
pub proof fn lemma_close_wf(b: BusView)
    requires
        b.wf(),
    ensures
        close_v(b).wf(),
{
    let p = close_v(b);
    assert forall|s: int| p.is_sub(s) implies 0 <= p.joined_of(s) <= p.cursor_of(s)
        <= p.head() by {
        assert(0 <= b.joined_of(s) <= b.cursor_of(s) <= b.head());
    }
}

/// A receive attempt preserves well-formedness: the cursor only moves
/// forward and never past the end of the history.
pub proof fn lemma_recv_wf(b: BusView, s: int)
    requires
        b.wf(),
        b.sub_live(s),
    ensures
        recv_step(b, s).0.wf(),
{
    let p = recv_step(b, s).0;
    assert(0 <= b.joined_of(s) <= b.cursor_of(s) <= b.head());
    assert forall|t: int| p.is_sub(t) implies 0 <= p.joined_of(t) <= p.cursor_of(t)
        <= p.head() by {
        assert(0 <= b.joined_of(t) <= b.cursor_of(t) <= b.head());
    }
}

/// Fan-out: a message published now stands at what was the end of the
/// history, and every subscription live at publish time still has its
/// cursor at or before that position — reading in order reaches it.
pub proof fn lemma_publish_reaches_live_subs(b: BusView, m: MsgView, s: int)
    requires
        b.wf(),
        b.sub_live(s),
    ensures
        publish_v(b, m).history[b.head()] == m,
        publish_v(b, m).sub_live(s),
        publish_v(b, m).cursor_of(s) == b.cursor_of(s),
        publish_v(b, m).cursor_of(s) <= b.head() < publish_v(b, m).head(),
{
    assert(0 <= b.joined_of(s) <= b.cursor_of(s) <= b.head());
}

/// No replay: a receive attempt never yields a message that was published
/// before the subscription was created.
pub proof fn lemma_no_replay(b: BusView, s: int, p: int)
    requires
        b.wf(),
        b.sub_live(s),
        0 <= p < b.joined_of(s),
    ensures
        recv_step(b, s).1 matches RecvV::Msg { pos, .. } ==> pos != p,
{
    assert(0 <= b.joined_of(s) <= b.cursor_of(s) <= b.head());
}

/// The bus after subscription `s` has made `k` receive attempts in a row.
pub open spec fn recv_n(b: BusView, s: int, k: nat) -> BusView
    decreases k,
{
    if k == 0 {
        b
    } else {
        recv_step(recv_n(b, s, (k - 1) as nat), s).0
    }
}

/// Receive attempts keep the bus well-formed, the subscription attached,
/// and its creation point unchanged, however many are made.
pub proof fn lemma_recv_n_preserves(b: BusView, s: int, k: nat)
    requires
        b.wf(),
        b.sub_live(s),
    ensures
        recv_n(b, s, k).wf(),
        recv_n(b, s, k).sub_live(s),
        recv_n(b, s, k).joined_of(s) == b.joined_of(s),
        recv_n(b, s, k).history == b.history,
    decreases k,
{
    if k > 0 {
        lemma_recv_n_preserves(b, s, (k - 1) as nat);
        lemma_recv_wf(recv_n(b, s, (k - 1) as nat), s);
    }
}

/// No replay, over any number of receive attempts: a subscription never
/// yields a message that was published before it was created.
pub proof fn lemma_no_replay_ever(b: BusView, s: int, k: nat, p: int)
    requires
        b.wf(),
        b.sub_live(s),
        0 <= p < b.joined_of(s),
    ensures
        recv_step(recv_n(b, s, k), s).1 matches RecvV::Msg { pos, .. } ==> pos != p,
{
    lemma_recv_n_preserves(b, s, k);
    lemma_no_replay(recv_n(b, s, k), s, p);
}

/// Whatever single step the bus takes, a subscription's creation point is
/// unchanged and its cursor never moves backward.
pub proof fn lemma_cursor_never_backward(b: BusView, s: int, m: MsgView, t: int, u: int)
    requires
        b.wf(),
        b.is_sub(s),
        b.sub_live(t),
        b.is_sub(u),
    ensures
        publish_v(b, m).joined_of(s) == b.joined_of(s),
        publish_v(b, m).cursor_of(s) == b.cursor_of(s),
        subscribe_v(b).joined_of(s) == b.joined_of(s),
        subscribe_v(b).cursor_of(s) == b.cursor_of(s),
        close_v(b).joined_of(s) == b.joined_of(s),
        close_v(b).cursor_of(s) == b.cursor_of(s),
        unsubscribe_v(b, u).joined_of(s) == b.joined_of(s),
        unsubscribe_v(b, u).cursor_of(s) == b.cursor_of(s),
        recv_step(b, t).0.joined_of(s) == b.joined_of(s),
        recv_step(b, t).0.cursor_of(s) >= b.cursor_of(s),
{
    assert(0 <= b.joined_of(t) <= b.cursor_of(t) <= b.head());
}

/// In-order consumption: while nothing else is published, a subscription
/// that has not fallen behind the retained window reads every pending
/// message exactly once, in publish order — the `k`th receive attempt
/// yields exactly the message `k` positions past its cursor.
pub proof fn lemma_in_order_consumption(b: BusView, s: int, k: nat)
    requires
        b.wf(),
        b.sub_live(s),
        b.drop_point() <= b.cursor_of(s),
        b.cursor_of(s) + k < b.head(),
    ensures
        recv_n(b, s, k).wf(),
        recv_n(b, s, k).sub_live(s),
        recv_n(b, s, k).history == b.history,
        recv_n(b, s, k).cursor_of(s) == b.cursor_of(s) + k,
        recv_step(recv_n(b, s, k), s).1 == (RecvV::Msg {
            pos: b.cursor_of(s) + k,
            msg: b.history[b.cursor_of(s) + k],
        }),
    decreases k,
{
    assert(0 <= b.joined_of(s) <= b.cursor_of(s) <= b.head());
    if k > 0 {
        lemma_in_order_consumption(b, s, (k - 1) as nat);
        let rn = recv_n(b, s, (k - 1) as nat);
        lemma_recv_wf(rn, s);
        assert(recv_step(rn, s).0.cursor_of(s) == b.cursor_of(s) + k);
    }
}

/// Bounded loss: a subscription that fell behind the retained window is
/// resynchronised to the oldest retained message, told exactly how many it
/// missed, and stays attached; the history is untouched.
pub proof fn lemma_lag_resynchronises(b: BusView, s: int)
    requires
        b.wf(),
        b.sub_live(s),
        b.cursor_of(s) < b.drop_point(),
    ensures
        ({
            let (post, out) = recv_step(b, s);
            &&& out == (RecvV::Lagged { missed: b.drop_point() - b.cursor_of(s) })
            &&& post.sub_live(s)
            &&& post.cursor_of(s) == b.drop_point()
            &&& post.history == b.history
            &&& post.wf()
        }),
{
    lemma_recv_wf(b, s);
}

/// What one receive attempt hands the caller at run time.
pub enum RecvOutcome {
    /// The next unread message.
    Msg(Message),
    /// This subscription fell behind and lost this many oldest messages.
    Lagged(usize),
    /// Nothing unread yet.
    Pending,
    /// The bus was torn down.
    Closed,
}

/// Whether the run-time outcome carries the value the receive step names.
pub open spec fn outcome_matches(r: RecvOutcome, v: RecvV) -> bool {
    match r {
        RecvOutcome::Msg(m) => v matches RecvV::Msg { msg, .. } && m@ == msg,
        RecvOutcome::Lagged(k) => v matches RecvV::Lagged { missed } && k as int == missed,
        RecvOutcome::Pending => v is Pending,
        RecvOutcome::Closed => v is Closed,
    }
}

/// One run-time subscription entry.
struct Sub {
    live: bool,
    cursor: usize,
    joined: Ghost<int>,
}

/// The bus itself: the retained window of the history plus every
/// subscription's reading position.
pub struct Bus {
    capacity: usize,
    /// History position of `buffer[0]`.
    start: usize,
    /// The retained messages: the last `min(head, capacity)` published.
    buffer: Vec<Message>,
    subs: Vec<Sub>,
    live_subs: usize,
    closed: bool,
    hist: Ghost<Seq<MsgView>>,
}

impl View for Bus {
    type V = BusView;

    closed spec fn view(&self) -> BusView {
        BusView {
            capacity: self.capacity as int,
            history: self.hist@,
            subs: self.subs@.map_values(
                |x: Sub| SubView { live: x.live, cursor: x.cursor as int, joined: x.joined@ },
            ),
            closed: self.closed,
        }
    }
}

impl Bus {
    /// The bus's internal bookkeeping is consistent with its view.
    pub closed spec fn inv(self) -> bool {
        &&& self@.wf()
        &&& self.capacity >= 1
        &&& self.hist@.len() <= usize::MAX as int
        &&& self.hist@.len() == self.start + self.buffer@.len()
        &&& self.buffer@.len() <= self.capacity
        &&& (self.buffer@.len() == self.capacity || self.start == 0)
        &&& forall|k: int|
            0 <= k < self.buffer@.len() ==> (#[trigger] self.buffer@[k])@ == self.hist@[self.start
                + k]
        &&& self.live_subs as int == count_live(self@.subs)
    }

    /// How many messages the bus is holding right now.
    pub closed spec fn buffered(self) -> int {
        self.buffer@.len() as int
    }

    /// The bus never holds more than `capacity` messages, and the retained
    /// window starts exactly at the drop point.
    pub proof fn lemma_bounded_memory(self)
        requires
            self.inv(),
        ensures
            self@.wf(),
            0 <= self.buffered() <= self@.capacity,
            self.buffered() == self@.head() - self@.drop_point(),
    {
    }

    /// A fresh bus that retains at most `capacity` messages.
    pub fn new(capacity: usize) -> (b: Bus)
        requires
            capacity >= 1,
        ensures
            b.inv(),
            b@ == empty_bus(capacity as int),
    {
        let b = Bus {
            capacity,
            start: 0,
            buffer: Vec::new(),
            subs: Vec::new(),
            live_subs: 0,
            closed: false,
            hist: Ghost(Seq::empty()),
        };
        proof {
            assert(b@.subs =~= empty_bus(capacity as int).subs);
            assert(b@ =~= empty_bus(capacity as int));
        }
        b
    }

    /// A new subscription; it will see exactly the messages published after
    /// this call. Returns the subscription's id.
    pub fn subscribe(&mut self) -> (s: usize)
        requires
            old(self).inv(),
            old(self)@.subs.len() < usize::MAX as int,
        ensures
            final(self).inv(),
            final(self)@ == subscribe_v(old(self)@),
            s as int == old(self)@.subs.len(),
            final(self)@.sub_live(s as int),
            final(self)@.joined_of(s as int) == old(self)@.head(),
    {
        let s = self.subs.len();
        let cursor = self.start + self.buffer.len();
        let ghost joined: int = self.hist@.len() as int;
        proof {
            lemma_count_live_bounds(self@.subs);
        }
        self.subs.push(Sub { live: true, cursor, joined: Ghost(joined) });
        self.live_subs = self.live_subs + 1;
        proof {
            let nv = SubView { live: true, cursor: cursor as int, joined };
            assert(self@.subs =~= old(self)@.subs.push(nv));
            assert(self@.subs.drop_last() =~= old(self)@.subs);
            assert(self@ =~= subscribe_v(old(self)@));
            lemma_subscribe_wf(old(self)@);
        }
        s
    }

    /// Publish a message: it joins the history, and the oldest retained
    /// message is discarded if the bus was already holding `capacity`.
    /// Returns how many live subscriptions there were to deliver to; with
    /// none, publishing is a harmless no-op.
    pub fn publish(&mut self, m: Message) -> (n: usize)
        requires
            old(self).inv(),
            !old(self)@.closed,
            old(self)@.head() < usize::MAX as int,
        ensures
            final(self).inv(),
            final(self)@ == publish_v(old(self)@, m@),
            n as int == old(self)@.live_count(),
    {
        let ghost mv = m@;
        if self.buffer.len() == self.capacity {
            let _oldest = self.buffer.remove(0);
            self.start = self.start + 1;
        }
        self.buffer.push(m);
        self.hist = Ghost(self.hist@.push(mv));
        proof {
            assert forall|k: int| 0 <= k < self.buffer@.len() implies (#[trigger] self.buffer@[k])@
                == self.hist@[self.start + k] by {
                if k < self.buffer@.len() - 1 {
                    assert(self.buffer@[k] == old(self).buffer@[
                        k + self.start - old(self).start as int
                    ]);
                }
            }
            assert(self@ =~= publish_v(old(self)@, mv));
            lemma_publish_wf(old(self)@, mv);
        }
        self.live_subs
    }

    /// Detach a subscription; the history and every other subscription are
    /// untouched.
    pub fn unsubscribe(&mut self, s: usize)
        requires
            old(self).inv(),
            old(self)@.sub_live(s as int),
        ensures
            final(self).inv(),
            final(self)@ == unsubscribe_v(old(self)@, s as int),
    {
        let entry = &mut self.subs[s];
        entry.live = false;
        proof {
            let nv = SubView {
                live: false,
                cursor: old(self)@.subs[s as int].cursor,
                joined: old(self)@.subs[s as int].joined,
            };
            assert(self@.subs =~= old(self)@.subs.update(s as int, nv));
            lemma_count_live_positive(old(self)@.subs, s as int);
            lemma_count_live_update(old(self)@.subs, s as int, nv);
        }
        self.live_subs = self.live_subs - 1;
        proof {
            assert(self@ =~= unsubscribe_v(old(self)@, s as int));
            lemma_unsubscribe_wf(old(self)@, s as int);
        }
    }

    /// Tear the bus down: subscriptions drain what is retained, then see
    /// `Closed`.
    pub fn close(&mut self)
        requires
            old(self).inv(),
        ensures
            final(self).inv(),
            final(self)@ == close_v(old(self)@),
    {
        self.closed = true;
        proof {
            assert(self@ =~= close_v(old(self)@));
            lemma_close_wf(old(self)@);
        }
    }

    /// One receive attempt by subscription `s`: the next unread message, or
    /// how many were lost to lag, or that nothing is ready, or that the bus
    /// is closed and drained.
    pub fn try_recv(&mut self, s: usize) -> (r: RecvOutcome)
        requires
            old(self).inv(),
            old(self)@.sub_live(s as int),
        ensures
            final(self).inv(),
            final(self)@ == recv_step(old(self)@, s as int).0,
            outcome_matches(r, recv_step(old(self)@, s as int).1),
    {
        let start = self.start;
        let head = self.start + self.buffer.len();
        let c = self.subs[s].cursor;
        if c < start {
            let missed = start - c;
            let entry = &mut self.subs[s];
            entry.cursor = start;
            proof {
                let nv = SubView {
                    live: old(self)@.subs[s as int].live,
                    cursor: start as int,
                    joined: old(self)@.subs[s as int].joined,
                };
                assert(self@.subs =~= old(self)@.subs.update(s as int, nv));
                lemma_count_live_update(old(self)@.subs, s as int, nv);
                assert(self@ =~= recv_step(old(self)@, s as int).0);
                lemma_recv_wf(old(self)@, s as int);
            }
            RecvOutcome::Lagged(missed)
        } else if c == head {
            proof {
                assert(self@ =~= recv_step(old(self)@, s as int).0);
                lemma_recv_wf(old(self)@, s as int);
            }
            if self.closed {
                RecvOutcome::Closed
            } else {
                RecvOutcome::Pending
            }
        } else {
            let m = self.buffer[c - start].duplicate();
            let entry = &mut self.subs[s];
            entry.cursor = c + 1;
            proof {
                let nv = SubView {
                    live: old(self)@.subs[s as int].live,
                    cursor: c as int + 1,
                    joined: old(self)@.subs[s as int].joined,
                };
                assert(self@.subs =~= old(self)@.subs.update(s as int, nv));
                lemma_count_live_update(old(self)@.subs, s as int, nv);
                assert(self@ =~= recv_step(old(self)@, s as int).0);
                lemma_recv_wf(old(self)@, s as int);
            }
            RecvOutcome::Msg(m)
        }
    }

    /// How many subscriptions are currently attached.
    pub fn live_subscriptions(&self) -> (n: usize)
        requires
            self.inv(),
        ensures
            n as int == self@.live_count(),
    {
        self.live_subs
    }
}

} // verus!
