//! The dispatch channel: the hand-off between "a caller has a request" and "a
//! connection driver will process it".
//!
//! A channel pairs a [`Sender`] with a [`Receiver`]. The state they share — the
//! FIFO queue of [`Envelope`]s, the demand gate, and the result slots that
//! callers await — lives in one [`ChannelCore`] value, the model of the
//! lock-free cell both endpoints touch in a concurrent implementation. Every
//! operation is a verified transition on that state. Destructor duties — an
//! envelope or callback resolving its slot when destroyed — are explicit
//! teardown operations here, with the same contracts.

use vstd::prelude::*;

verus! {

/// Classifies a dispatch [`DispatchError`].
#[derive(Clone, Copy, PartialEq, Eq, Structural, Debug)]
pub enum Kind {
    /// A queued-but-unprocessed request was abandoned, or the caller's
    /// interest was dropped mid-flight.
    Canceled,
    /// The channel to the connection driver is permanently closed.
    ChannelClosed,
    /// A callback was destroyed without an explicit send.
    UserDispatchGone,
}

/// Says why a [`DispatchError`] of a given [`Kind`] arose.
#[derive(Clone, Copy, PartialEq, Eq, Structural, Debug)]
pub enum Reason {
    /// No further detail.
    Unspecified,
    /// The connection (and its receiver) was torn down.
    ConnectionClosed,
    /// The driver task unwound from a panic while holding the callback.
    UserCodePanicked,
    /// The driver task was dropped cleanly without processing the callback.
    DriverDropped,
}

/// An error delivered through a result slot.
#[derive(Clone, Copy, PartialEq, Eq, Structural, Debug)]
pub struct DispatchError {
    pub kind: Kind,
    pub reason: Reason,
}

/// The message text a [`DispatchError`] presents.
pub open spec fn message_of(e: DispatchError) -> Seq<char> {
    match e.reason {
        Reason::ConnectionClosed => "connection closed"@,
        Reason::UserCodePanicked => "user code panicked"@,
        Reason::DriverDropped => "runtime dropped the dispatch task"@,
        Reason::Unspecified => match e.kind {
            Kind::Canceled => "operation was canceled"@,
            Kind::ChannelClosed => "channel closed"@,
            Kind::UserDispatchGone => "dispatch task is gone"@,
        },
    }
}

impl DispatchError {
    pub fn new_canceled() -> (e: DispatchError)
        ensures
            e == (DispatchError { kind: Kind::Canceled, reason: Reason::Unspecified }),
    {
        DispatchError { kind: Kind::Canceled, reason: Reason::Unspecified }
    }

    pub fn new_closed() -> (e: DispatchError)
        ensures
            e == (DispatchError { kind: Kind::ChannelClosed, reason: Reason::Unspecified }),
    {
        DispatchError { kind: Kind::ChannelClosed, reason: Reason::Unspecified }
    }

    pub fn new_user_dispatch_gone() -> (e: DispatchError)
        ensures
            e == (DispatchError { kind: Kind::UserDispatchGone, reason: Reason::Unspecified }),
    {
        DispatchError { kind: Kind::UserDispatchGone, reason: Reason::Unspecified }
    }

    /// Attach a reason to this error.
    pub fn with(self, reason: Reason) -> (e: DispatchError)
        ensures
            e == (DispatchError { kind: self.kind, reason }),
    {
        DispatchError { kind: self.kind, reason }
    }

    pub fn kind(&self) -> (k: Kind)
        ensures
            k == self.kind,
    {
        self.kind
    }

    /// A human-readable message for this error.
    pub fn message(&self) -> (m: &'static str)
        ensures
            m@ == message_of(*self),
    {
        match self.reason {
            Reason::ConnectionClosed => "connection closed",
            Reason::UserCodePanicked => "user code panicked",
            Reason::DriverDropped => "runtime dropped the dispatch task",
            Reason::Unspecified => match self.kind {
                Kind::Canceled => "operation was canceled",
                Kind::ChannelClosed => "channel closed",
                Kind::UserDispatchGone => "dispatch task is gone",
            },
        }
    }
}

/// The two kinds of abandonment message differ, so a caller can tell a
/// panicking driver from one that shut down cleanly.
pub proof fn lemma_abandon_messages_distinct()
    ensures
        message_of(DispatchError { kind: Kind::UserDispatchGone, reason: Reason::UserCodePanicked })
            != message_of(DispatchError { kind: Kind::UserDispatchGone, reason: Reason::DriverDropped }),
{
    reveal_strlit("user code panicked");
    reveal_strlit("runtime dropped the dispatch task");
    assert("user code panicked"@.len() == 18);
    assert("runtime dropped the dispatch task"@.len() == 33);
}

/// The result written into a slot: the response, or an error optionally
/// carrying the original request back for rescheduling.
pub type DispatchResult<T, U> = Result<U, (DispatchError, Option<T>)>;

/// A write-once result slot, as the caller's read handle and the driver's
/// write handle see it.
pub enum Slot<T, U> {
    /// Not yet resolved; `reader` records whether the caller still holds the
    /// read handle.
    Waiting { reader: bool },
    /// Resolved exactly once with `value`; not yet read.
    Resolved { value: DispatchResult<T, U>, reader: bool },
    /// Resolved and read by the caller.
    Taken,
}

impl<T, U> Slot<T, U> {
    /// Whether the caller still holds the read handle of this slot.
    pub open spec fn reader_live(self) -> bool {
        match self {
            Slot::Waiting { reader } => reader,
            Slot::Resolved { reader, .. } => reader,
            Slot::Taken => false,
        }
    }
}

/// A tagged write-once handle into a result slot. `Retry` hands the request
/// back on failure; `NoRetry` erases it.
#[derive(Debug)]
pub enum Callback {
    Retry { slot: usize },
    NoRetry { slot: usize },
}

impl Callback {
    /// The index of the slot this callback resolves.
    pub open spec fn slot_id(self) -> int {
        match self {
            Callback::Retry { slot } => slot as int,
            Callback::NoRetry { slot } => slot as int,
        }
    }

    /// Whether a failure delivered through this callback carries the request
    /// back.
    pub open spec fn is_retry(self) -> bool {
        self is Retry
    }

    /// A live callback points at a slot that is still waiting.
    pub open spec fn wf_in<T, U>(self, slots: Seq<Slot<T, U>>) -> bool {
        &&& 0 <= self.slot_id() < slots.len()
        &&& slots[self.slot_id()] is Waiting
    }
}

/// One queued unit of work: a request paired with the callback that will
/// answer it. While an envelope sits in the queue, the channel owns it; it
/// leaves the queue either by delivery to the receiver or by the teardown
/// paths, which resolve its callback with a cancellation error.
pub struct Envelope<T> {
    pub val: T,
    pub callback: Callback,
}

/// The abstract state of a channel: the queue, the demand gate, and the
/// result slots.
#[verifier::ext_equal]
pub struct ChannelView<T, U> {
    /// Envelopes sent but not yet received, oldest first.
    pub queue: Seq<Envelope<T>>,
    /// Demand gate: the receiver has asked for the next item.
    pub wanting: bool,
    /// Demand gate: permanently revoked (receiver torn down).
    pub gate_canceled: bool,
    /// The queue still accepts new envelopes.
    pub rx_open: bool,
    /// Every result slot ever created on this channel.
    pub slots: Seq<Slot<T, U>>,
}

impl<T, U> ChannelView<T, U> {
    /// Every queued envelope points at a distinct, still-waiting slot.
    pub open spec fn wf(self) -> bool {
        &&& forall|i: int|
            0 <= i < self.queue.len() ==> (#[trigger] self.queue[i]).callback.wf_in(self.slots)
        &&& forall|i: int, j: int|
            0 <= i < j < self.queue.len() ==> self.queue[i].callback.slot_id()
                != self.queue[j].callback.slot_id()
    }
}

/// The state a [`Sender`] and [`Receiver`] pair share. In a concurrent
/// implementation this is one lock-free cell; here it is an explicit value
/// passed to every endpoint operation.
pub struct ChannelCore<T, U> {
    queue: Vec<Envelope<T>>,
    wanting: bool,
    gate_canceled: bool,
    rx_open: bool,
    slots: Vec<Slot<T, U>>,
}

impl<T, U> View for ChannelCore<T, U> {
    type V = ChannelView<T, U>;

    closed spec fn view(&self) -> ChannelView<T, U> {
        ChannelView {
            queue: self.queue@,
            wanting: self.wanting,
            gate_canceled: self.gate_canceled,
            rx_open: self.rx_open,
            slots: self.slots@,
        }
    }
}

impl<T, U> ChannelCore<T, U> {
    pub open spec fn wf(&self) -> bool {
        self@.wf()
    }
}

/// The state of a fresh channel: empty, demand not yet raised, open.
pub open spec fn fresh_view<T, U>() -> ChannelView<T, U> {
    ChannelView {
        queue: Seq::empty(),
        wanting: false,
        gate_canceled: false,
        rx_open: true,
        slots: Seq::empty(),
    }
}

/// The bounded sending end of a channel. One message is always allowed
/// through, even before the receiver has ever asked for one; `buffered_once`
/// records whether that free pass has been spent.
pub struct Sender {
    buffered_once: bool,
}

/// The receiving end, owned by exactly one connection-driver task.
pub struct Receiver {
}

/// Creates a sender/receiver pair and the state they share.
pub fn channel<T, U>() -> (r: (Sender, Receiver, ChannelCore<T, U>))
    ensures
        r.2@ == fresh_view::<T, U>(),
        r.2.wf(),
        !r.0.spec_buffered_once(),
{
    let core = ChannelCore {
        queue: Vec::new(),
        wanting: false,
        gate_canceled: false,
        rx_open: true,
        slots: Vec::new(),
    };
    proof {
        assert(core@ =~= fresh_view::<T, U>());
    }
    (Sender { buffered_once: false }, Receiver {}, core)
}

// ---------------------------------------------------------------------------
// Demand gate and admission control, at the specification level
// ---------------------------------------------------------------------------

/// A `give` is granted exactly when demand is raised and not revoked.
pub open spec fn give_ok<T, U>(v: ChannelView<T, U>) -> bool {
    v.wanting && !v.gate_canceled
}

/// A successful `give` consumes the pending demand.
pub open spec fn give_view<T, U>(v: ChannelView<T, U>) -> ChannelView<T, U> {
    if give_ok(v) {
        ChannelView { wanting: false, ..v }
    } else {
        v
    }
}

/// Admission: a send is granted under explicit demand, or as the one free
/// pass of a sender that has never buffered a message.
pub open spec fn send_granted<T, U>(v: ChannelView<T, U>, buffered_once: bool) -> bool {
    give_ok(v) || !buffered_once
}

/// A granted send is accepted onto the queue only while the queue is open.
pub open spec fn send_accepted<T, U>(v: ChannelView<T, U>, buffered_once: bool) -> bool {
    send_granted(v, buffered_once) && v.rx_open
}

/// The callback a send of the given flavor creates, pointing at the next
/// fresh slot.
pub open spec fn new_callback<T, U>(v: ChannelView<T, U>, retry: bool) -> Callback {
    if retry {
        Callback::Retry { slot: v.slots.len() as usize }
    } else {
        Callback::NoRetry { slot: v.slots.len() as usize }
    }
}

/// The abandonment error a callback synthesizes when destroyed unsent.
pub open spec fn abandon_error(panicking: bool) -> DispatchError {
    DispatchError {
        kind: Kind::UserDispatchGone,
        reason: if panicking {
            Reason::UserCodePanicked
        } else {
            Reason::DriverDropped
        },
    }
}

/// State after a bounded send. A refused send leaves the state unchanged. A
/// granted send consumes the demand; if the queue is open the envelope and a
/// waiting slot are appended, otherwise the envelope is recovered and its
/// just-created callback fires its abandonment delivery into a slot whose
/// reader is already gone.
pub open spec fn send_view<T, U>(
    v: ChannelView<T, U>,
    buffered_once: bool,
    val: T,
    retry: bool,
) -> ChannelView<T, U> {
    if !send_granted(v, buffered_once) {
        v
    } else {
        let v1 = give_view(v);
        if v1.rx_open {
            ChannelView {
                queue: v1.queue.push(Envelope { val, callback: new_callback(v1, retry) }),
                slots: v1.slots.push(Slot::Waiting { reader: true }),
                ..v1
            }
        } else {
            ChannelView {
                slots: v1.slots.push(
                    Slot::Resolved { value: Err((abandon_error(false), None)), reader: false },
                ),
                ..v1
            }
        }
    }
}

/// The sender's `buffered_once` flag after a send attempt.
pub open spec fn send_buffered<T, U>(v: ChannelView<T, U>, buffered_once: bool) -> bool {
    if send_granted(v, buffered_once) {
        true
    } else {
        buffered_once
    }
}

/// A non-suspending poll outcome.
#[derive(PartialEq, Eq, Debug)]
pub enum Poll<T> {
    Ready(T),
    Pending,
}

impl Sender {
    pub closed spec fn spec_buffered_once(self) -> bool {
        self.buffered_once
    }

    /// Non-suspending snapshot: the receiver currently asks for work.
    pub fn is_ready<T, U>(&self, core: &ChannelCore<T, U>) -> (r: bool)
        ensures
            r == give_ok(core@),
    {
        core.wanting && !core.gate_canceled
    }

    /// Non-suspending snapshot: the receiver is gone.
    pub fn is_closed<T, U>(&self, core: &ChannelCore<T, U>) -> (r: bool)
        ensures
            r == core@.gate_canceled,
    {
        core.gate_canceled
    }

    /// Resolves as soon as demand is raised, or fails once demand is
    /// permanently revoked; pending while neither holds.
    pub fn poll_ready<T, U>(&self, core: &ChannelCore<T, U>) -> (r: Poll<Result<(), DispatchError>>)
        ensures
            core@.gate_canceled ==> r == Poll::Ready(
                Result::<(), DispatchError>::Err(DispatchError { kind: Kind::ChannelClosed, reason: Reason::Unspecified }),
            ),
            !core@.gate_canceled && core@.wanting ==> r == Poll::Ready(Result::<(), DispatchError>::Ok(())),
            !core@.gate_canceled && !core@.wanting ==> r == Poll::<Result<(), DispatchError>>::Pending,
    {
        if core.gate_canceled {
            Poll::Ready(Err(DispatchError::new_closed()))
        } else if core.wanting {
            Poll::Ready(Ok(()))
        } else {
            Poll::Pending
        }
    }

    /// Admission gate shared by both send flavors: grants under demand, or as
    /// the single free pass, and records that the free pass is spent.
    fn can_send<T, U>(&mut self, core: &mut ChannelCore<T, U>) -> (r: bool)
        ensures
            r == send_granted(old(core)@, old(self).buffered_once),
            final(core)@ == give_view(old(core)@),
            final(self).buffered_once == send_buffered(old(core)@, old(self).buffered_once),
    {
        let gave = core.wanting && !core.gate_canceled;
        if gave {
            core.wanting = false;
        }
        if gave || !self.buffered_once {
            self.buffered_once = true;
            true
        } else {
            false
        }
    }

    /// Hands a request to the channel with a retry-capable callback: on any
    /// later failure the request value travels back to the caller. Refused
    /// (returning the request unchanged) when admission is denied or the
    /// queue is closed.
    pub fn try_send<T, U>(&mut self, core: &mut ChannelCore<T, U>, val: T) -> (r: Result<
        RetryPromise,
        T,
    >)
        requires
            old(core).wf(),
        ensures
            final(core).wf(),
            final(core)@ == send_view(old(core)@, old(self).spec_buffered_once(), val, true),
            final(self).spec_buffered_once() == send_buffered(
                old(core)@,
                old(self).spec_buffered_once(),
            ),
            match r {
                Ok(p) => {
                    &&& send_accepted(old(core)@, old(self).spec_buffered_once())
                    &&& p.slot_id() == old(core)@.slots.len()
                    &&& p.wf(final(core)@)
                },
                Err(x) => {
                    &&& !send_accepted(old(core)@, old(self).spec_buffered_once())
                    &&& x == val
                },
            },
    {
        if !self.can_send(core) {
            return Err(val);
        }
        let slot_id = core.slots.len();
        if core.rx_open {
            core.slots.push(Slot::Waiting { reader: true });
            core.queue.push(Envelope { val, callback: Callback::Retry { slot: slot_id } });
            proof {
                lemma_push_keeps_wf(old(core)@, final(core)@, val, true);
            }
            Ok(RetryPromise { slot: slot_id })
        } else {
            core.slots.push(
                Slot::Resolved {
                    value: Err((
                        DispatchError { kind: Kind::UserDispatchGone, reason: Reason::DriverDropped },
                        None,
                    )),
                    reader: false,
                },
            );
            proof {
                lemma_grow_slots_keeps_wf(old(core)@.queue, old(core)@.slots, final(core)@.slots);
            }
            Err(val)
        }
    }

    /// Hands a request to the channel with a final callback: a later failure
    /// reports the error alone. Refused (returning the request unchanged)
    /// when admission is denied or the queue is closed.
    pub fn send<T, U>(&mut self, core: &mut ChannelCore<T, U>, val: T) -> (r: Result<Promise, T>)
        requires
            old(core).wf(),
        ensures
            final(core).wf(),
            final(core)@ == send_view(old(core)@, old(self).spec_buffered_once(), val, false),
            final(self).spec_buffered_once() == send_buffered(
                old(core)@,
                old(self).spec_buffered_once(),
            ),
            match r {
                Ok(p) => {
                    &&& send_accepted(old(core)@, old(self).spec_buffered_once())
                    &&& p.slot_id() == old(core)@.slots.len()
                    &&& p.wf(final(core)@)
                },
                Err(x) => {
                    &&& !send_accepted(old(core)@, old(self).spec_buffered_once())
                    &&& x == val
                },
            },
    {
        if !self.can_send(core) {
            return Err(val);
        }
        let slot_id = core.slots.len();
        if core.rx_open {
            core.slots.push(Slot::Waiting { reader: true });
            core.queue.push(Envelope { val, callback: Callback::NoRetry { slot: slot_id } });
            proof {
                lemma_push_keeps_wf(old(core)@, final(core)@, val, false);
            }
            Ok(Promise { slot: slot_id })
        } else {
            core.slots.push(
                Slot::Resolved {
                    value: Err((
                        DispatchError { kind: Kind::UserDispatchGone, reason: Reason::DriverDropped },
                        None,
                    )),
                    reader: false,
                },
            );
            proof {
                lemma_grow_slots_keeps_wf(old(core)@.queue, old(core)@.slots, final(core)@.slots);
            }
            Err(val)
        }
    }

    /// Converts this sender, once, into its multiplexed form: admission
    /// control is given up, the demand gate degrades to liveness tracking.
    pub fn unbound(self) -> (r: UnboundedSender) {
        UnboundedSender {}
    }
}

/// Appending a fresh waiting slot and an envelope that points at it keeps the
/// channel well-formed.
proof fn lemma_push_keeps_wf<T, U>(
    v0: ChannelView<T, U>,
    v2: ChannelView<T, U>,
    val: T,
    retry: bool,
)
    requires
        v0.wf(),
        v0.slots.len() <= usize::MAX,
        ({
            let v1 = give_view(v0);
            v2 == ChannelView {
                queue: v1.queue.push(Envelope { val, callback: new_callback(v1, retry) }),
                slots: v1.slots.push(Slot::Waiting { reader: true }),
                ..v1
            }
        }),
    ensures
        v2.wf(),
{
    let v1 = give_view(v0);
    assert(v1.queue == v0.queue && v1.slots == v0.slots);
    assert(v1.wf());
    lemma_unbounded_push_keeps_wf(v1, v2, val, retry);
}

/// Growing the slot store with any non-waiting slot leaves an untouched
/// queue well-formed.
proof fn lemma_grow_slots_keeps_wf<T, U>(
    q: Seq<Envelope<T>>,
    slots0: Seq<Slot<T, U>>,
    slots1: Seq<Slot<T, U>>,
)
    requires
        (ChannelView::<T, U> { queue: q, wanting: false, gate_canceled: false, rx_open: true, slots: slots0 }).wf(),
        slots0.len() <= slots1.len(),
        forall|i: int| 0 <= i < slots0.len() ==> slots1[i] == slots0[i],
    ensures
        (ChannelView::<T, U> { queue: q, wanting: false, gate_canceled: false, rx_open: true, slots: slots1 }).wf(),
{
    let v0 = ChannelView::<T, U> { queue: q, wanting: false, gate_canceled: false, rx_open: true, slots: slots0 };
    let v1 = ChannelView::<T, U> { queue: q, wanting: false, gate_canceled: false, rx_open: true, slots: slots1 };
    assert forall|i: int| 0 <= i < v1.queue.len() implies (#[trigger] v1.queue[i]).callback.wf_in(
        slots1,
    ) by {
        assert(v0.queue[i].callback.wf_in(slots0));
    }
}

/// The cloneable, gate-bypassing sender for multiplexed connections. Every
/// send succeeds while the receiver is alive; none is ever refused for
/// backpressure.
#[derive(Clone, Debug)]
pub struct UnboundedSender {
}

/// State after an unbounded send: accepted whenever the queue is open, with
/// no admission check and no demand consumed.
pub open spec fn unbounded_send_view<T, U>(v: ChannelView<T, U>, val: T, retry: bool) -> ChannelView<
    T,
    U,
> {
    if v.rx_open {
        ChannelView {
            queue: v.queue.push(Envelope { val, callback: new_callback(v, retry) }),
            slots: v.slots.push(Slot::Waiting { reader: true }),
            ..v
        }
    } else {
        ChannelView {
            slots: v.slots.push(
                Slot::Resolved { value: Err((abandon_error(false), None)), reader: false },
            ),
            ..v
        }
    }
}

impl UnboundedSender {
    /// Non-suspending snapshot: the receiver is still alive.
    pub fn is_ready<T, U>(&self, core: &ChannelCore<T, U>) -> (r: bool)
        ensures
            r == !core@.gate_canceled,
    {
        !core.gate_canceled
    }

    /// Non-suspending snapshot: the receiver is gone.
    pub fn is_closed<T, U>(&self, core: &ChannelCore<T, U>) -> (r: bool)
        ensures
            r == core@.gate_canceled,
    {
        core.gate_canceled
    }

    /// Sends with a retry-capable callback; succeeds whenever the queue is
    /// open, regardless of demand.
    pub fn try_send<T, U>(&self, core: &mut ChannelCore<T, U>, val: T) -> (r: Result<
        RetryPromise,
        T,
    >)
        requires
            old(core).wf(),
        ensures
            final(core).wf(),
            final(core)@ == unbounded_send_view(old(core)@, val, true),
            match r {
                Ok(p) => {
                    &&& old(core)@.rx_open
                    &&& p.slot_id() == old(core)@.slots.len()
                    &&& p.wf(final(core)@)
                },
                Err(x) => {
                    &&& !old(core)@.rx_open
                    &&& x == val
                },
            },
    {
        let slot_id = core.slots.len();
        if core.rx_open {
            core.slots.push(Slot::Waiting { reader: true });
            core.queue.push(Envelope { val, callback: Callback::Retry { slot: slot_id } });
            proof {
                lemma_unbounded_push_keeps_wf(old(core)@, final(core)@, val, true);
            }
            Ok(RetryPromise { slot: slot_id })
        } else {
            core.slots.push(
                Slot::Resolved {
                    value: Err((
                        DispatchError { kind: Kind::UserDispatchGone, reason: Reason::DriverDropped },
                        None,
                    )),
                    reader: false,
                },
            );
            proof {
                lemma_grow_slots_keeps_wf(old(core)@.queue, old(core)@.slots, final(core)@.slots);
            }
            Err(val)
        }
    }

    /// Sends with a final callback; succeeds whenever the queue is open,
    /// regardless of demand.
    pub fn send<T, U>(&self, core: &mut ChannelCore<T, U>, val: T) -> (r: Result<Promise, T>)
        requires
            old(core).wf(),
        ensures
            final(core).wf(),
            final(core)@ == unbounded_send_view(old(core)@, val, false),
            match r {
                Ok(p) => {
                    &&& old(core)@.rx_open
                    &&& p.slot_id() == old(core)@.slots.len()
                    &&& p.wf(final(core)@)
                },
                Err(x) => {
                    &&& !old(core)@.rx_open
                    &&& x == val
                },
            },
    {
        let slot_id = core.slots.len();
        if core.rx_open {
            core.slots.push(Slot::Waiting { reader: true });
            core.queue.push(Envelope { val, callback: Callback::NoRetry { slot: slot_id } });
            proof {
                lemma_unbounded_push_keeps_wf(old(core)@, final(core)@, val, false);
            }
            Ok(Promise { slot: slot_id })
        } else {
            core.slots.push(
                Slot::Resolved {
                    value: Err((
                        DispatchError { kind: Kind::UserDispatchGone, reason: Reason::DriverDropped },
                        None,
                    )),
                    reader: false,
                },
            );
            proof {
                lemma_grow_slots_keeps_wf(old(core)@.queue, old(core)@.slots, final(core)@.slots);
            }
            Err(val)
        }
    }
}

/// Same as [`lemma_push_keeps_wf`] but with no demand consumed first.
proof fn lemma_unbounded_push_keeps_wf<T, U>(
    v0: ChannelView<T, U>,
    v2: ChannelView<T, U>,
    val: T,
    retry: bool,
)
    requires
        v0.wf(),
        v0.slots.len() <= usize::MAX,
        v2 == (ChannelView {
            queue: v0.queue.push(Envelope { val, callback: new_callback(v0, retry) }),
            slots: v0.slots.push(Slot::Waiting { reader: true }),
            ..v0
        }),
    ensures
        v2.wf(),
{
    let n = v0.queue.len() as int;
    let m = v0.slots.len() as int;
    assert forall|i: int| 0 <= i < v2.queue.len() implies (#[trigger] v2.queue[i]).callback.wf_in(
        v2.slots,
    ) by {
        if i < n {
            assert(v0.queue[i].callback.wf_in(v0.slots));
            assert(v2.queue[i] == v0.queue[i]);
            assert(v2.slots[v0.queue[i].callback.slot_id()] == v0.slots[v0.queue[i].callback.slot_id()]);
        } else {
            assert(v2.queue[i] == (Envelope { val, callback: new_callback(v0, retry) }));
            assert(v2.queue[i].callback.slot_id() == m);
            assert(v2.slots[m] == (Slot::<T, U>::Waiting { reader: true }));
        }
    }
    assert forall|i: int, j: int| 0 <= i < j < v2.queue.len() implies v2.queue[i].callback.slot_id()
        != v2.queue[j].callback.slot_id() by {
        assert(v0.queue[i].callback.wf_in(v0.slots));
        if j < n {
            assert(v0.queue[j].callback.wf_in(v0.slots));
        } else {
            assert(v2.queue[j].callback.slot_id() == m);
            assert(v0.queue[i].callback.slot_id() < m);
        }
    }
}

/// The caller's read-once handle for a retry-capable send.
#[derive(Debug)]
pub struct RetryPromise {
    slot: usize,
}

/// The caller's read-once handle for a final send.
#[derive(Debug)]
pub struct Promise {
    slot: usize,
}

impl RetryPromise {
    pub closed spec fn slot_id(self) -> int {
        self.slot as int
    }

    /// A live promise points at an unread slot whose reader is still present.
    pub open spec fn wf<T, U>(self, v: ChannelView<T, U>) -> bool {
        &&& 0 <= self.slot_id() < v.slots.len()
        &&& v.slots[self.slot_id()].reader_live()
    }

    /// Polls the result slot: consumes the promise and yields the stored
    /// result once it is resolved, or hands the promise back while it is
    /// still pending.
    pub fn try_recv<T, U>(self, core: &mut ChannelCore<T, U>) -> (r: Result<
        DispatchResult<T, U>,
        RetryPromise,
    >)
        requires
            old(core).wf(),
            self.wf(old(core)@),
        ensures
            final(core).wf(),
            match r {
                Ok(value) => {
                    &&& old(core)@.slots[self.slot_id()] matches Slot::Resolved { value: v0, .. }
                        && value == v0
                    &&& final(core)@ == ChannelView {
                        slots: old(core)@.slots.update(self.slot_id(), Slot::Taken),
                        ..old(core)@
                    }
                },
                Err(p) => {
                    &&& p == self
                    &&& old(core)@.slots[self.slot_id()] is Waiting
                    &&& final(core)@ == old(core)@
                },
            },
    {
        let idx = self.slot;
        let s = core.slots.remove(idx);
        match s {
            Slot::Resolved { value, reader: _ } => {
                core.slots.insert(idx, Slot::Taken);
                proof {
                    assert(final(core)@.slots =~= old(core)@.slots.update(idx as int, Slot::Taken));
                    lemma_resolve_untouched_keeps_wf(old(core)@, final(core)@);
                }
                Ok(value)
            },
            other => {
                core.slots.insert(idx, other);
                proof {
                    assert(final(core)@.slots =~= old(core)@.slots);
                    assert(final(core)@ =~= old(core)@);
                }
                Err(self)
            },
        }
    }

    /// The caller walks away: the slot's reader is marked gone, observable to
    /// the driver as cancellation. This is the explicit form of dropping the
    /// read handle.
    pub fn drop_reader<T, U>(self, core: &mut ChannelCore<T, U>)
        requires
            old(core).wf(),
            self.wf(old(core)@),
        ensures
            final(core).wf(),
            final(core)@ == (ChannelView {
                slots: old(core)@.slots.update(
                    self.slot_id(),
                    without_reader(old(core)@.slots[self.slot_id()]),
                ),
                ..old(core)@
            }),
    {
        drop_reader_at(core, self.slot);
    }
}

impl Promise {
    pub closed spec fn slot_id(self) -> int {
        self.slot as int
    }

    /// A live promise points at an unread slot whose reader is still present.
    pub open spec fn wf<T, U>(self, v: ChannelView<T, U>) -> bool {
        &&& 0 <= self.slot_id() < v.slots.len()
        &&& v.slots[self.slot_id()].reader_live()
    }

    /// Polls the result slot: consumes the promise and yields the stored
    /// result once it is resolved — the retry context, if any, is erased —
    /// or hands the promise back while it is still pending.
    pub fn try_recv<T, U>(self, core: &mut ChannelCore<T, U>) -> (r: Result<
        Result<U, DispatchError>,
        Promise,
    >)
        requires
            old(core).wf(),
            self.wf(old(core)@),
        ensures
            final(core).wf(),
            match r {
                Ok(value) => {
                    &&& old(core)@.slots[self.slot_id()] matches Slot::Resolved { value: v0, .. }
                        && value == erase_retry(v0)
                    &&& final(core)@ == ChannelView {
                        slots: old(core)@.slots.update(self.slot_id(), Slot::Taken),
                        ..old(core)@
                    }
                },
                Err(p) => {
                    &&& p == self
                    &&& old(core)@.slots[self.slot_id()] is Waiting
                    &&& final(core)@ == old(core)@
                },
            },
    {
        let idx = self.slot;
        let s = core.slots.remove(idx);
        match s {
            Slot::Resolved { value, reader: _ } => {
                core.slots.insert(idx, Slot::Taken);
                proof {
                    assert(final(core)@.slots =~= old(core)@.slots.update(idx as int, Slot::Taken));
                    lemma_resolve_untouched_keeps_wf(old(core)@, final(core)@);
                }
                match value {
                    Ok(u) => Ok(Ok(u)),
                    Err((e, _)) => Ok(Err(e)),
                }
            },
            other => {
                core.slots.insert(idx, other);
                proof {
                    assert(final(core)@.slots =~= old(core)@.slots);
                    assert(final(core)@ =~= old(core)@);
                }
                Err(self)
            },
        }
    }

    /// The caller walks away: the slot's reader is marked gone, observable to
    /// the driver as cancellation. This is the explicit form of dropping the
    /// read handle.
    pub fn drop_reader<T, U>(self, core: &mut ChannelCore<T, U>)
        requires
            old(core).wf(),
            self.wf(old(core)@),
        ensures
            final(core).wf(),
            final(core)@ == (ChannelView {
                slots: old(core)@.slots.update(
                    self.slot_id(),
                    without_reader(old(core)@.slots[self.slot_id()]),
                ),
                ..old(core)@
            }),
    {
        drop_reader_at(core, self.slot);
    }
}

/// A final-flavor read maps a stored failure to its error alone.
pub open spec fn erase_retry<T, U>(value: DispatchResult<T, U>) -> Result<U, DispatchError> {
    match value {
        Ok(u) => Ok(u),
        Err((e, _)) => Err(e),
    }
}

/// The same slot with its reader gone.
pub open spec fn without_reader<T, U>(s: Slot<T, U>) -> Slot<T, U> {
    match s {
        Slot::Waiting { .. } => Slot::Waiting { reader: false },
        Slot::Resolved { value, .. } => Slot::Resolved { value, reader: false },
        Slot::Taken => Slot::Taken,
    }
}

/// Marks the reader of slot `idx` gone, leaving everything else unchanged.
fn drop_reader_at<T, U>(core: &mut ChannelCore<T, U>, idx: usize)
    requires
        old(core).wf(),
        0 <= idx < old(core)@.slots.len(),
    ensures
        final(core).wf(),
        final(core)@ == (ChannelView {
            slots: old(core)@.slots.update(idx as int, without_reader(old(core)@.slots[idx as int])),
            ..old(core)@
        }),
{
    let s = core.slots.remove(idx);
    let replacement = match s {
        Slot::Waiting { .. } => Slot::Waiting { reader: false },
        Slot::Resolved { value, .. } => Slot::Resolved { value, reader: false },
        Slot::Taken => Slot::Taken,
    };
    core.slots.insert(idx, replacement);
    proof {
        assert(final(core)@.slots =~= old(core)@.slots.update(
            idx as int,
            without_reader(old(core)@.slots[idx as int]),
        ));
        lemma_reader_update_keeps_wf(old(core)@, final(core)@, idx as int);
    }
}

/// Replacing a slot by a variant-equal slot (only the reader flag changes)
/// keeps the queue well-formed.
proof fn lemma_reader_update_keeps_wf<T, U>(v0: ChannelView<T, U>, v1: ChannelView<T, U>, idx: int)
    requires
        v0.wf(),
        0 <= idx < v0.slots.len(),
        v1 == (ChannelView { slots: v0.slots.update(idx, without_reader(v0.slots[idx])), ..v0 }),
    ensures
        v1.wf(),
{
    assert forall|i: int| 0 <= i < v1.queue.len() implies (#[trigger] v1.queue[i]).callback.wf_in(
        v1.slots,
    ) by {
        assert(v0.queue[i].callback.wf_in(v0.slots));
    }
}

// ---------------------------------------------------------------------------
// Receiver side
// ---------------------------------------------------------------------------

/// State after a receiver poll: the oldest envelope leaves the queue; on an
/// empty open queue, finding nothing is what raises demand for the next
/// sender; on an empty closed queue, nothing changes.
pub open spec fn poll_recv_view<T, U>(v: ChannelView<T, U>) -> ChannelView<T, U> {
    if v.queue.len() > 0 {
        ChannelView { queue: v.queue.drop_first(), ..v }
    } else if !v.rx_open {
        v
    } else {
        ChannelView { wanting: true, ..v }
    }
}

/// State after `close`: demand is permanently revoked and the queue stops accepting,
/// but already-queued envelopes stay receivable.
pub open spec fn close_view<T, U>(v: ChannelView<T, U>) -> ChannelView<T, U> {
    ChannelView { gate_canceled: true, rx_open: false, ..v }
}

/// The cancellation error a torn-down envelope delivers.
pub open spec fn canceled_error() -> DispatchError {
    DispatchError { kind: Kind::Canceled, reason: Reason::ConnectionClosed }
}

/// What a torn-down envelope writes into its slot: a cancellation error,
/// carrying the request back exactly when the callback is retry-capable.
pub open spec fn cancel_value<T, U>(e: Envelope<T>) -> DispatchResult<T, U> {
    if e.callback.is_retry() {
        Err((canceled_error(), Some(e.val)))
    } else {
        Err((canceled_error(), None))
    }
}

/// Resolves every queued envelope's slot with its cancellation value, oldest
/// first, keeping each slot's reader flag.
pub open spec fn cancel_all<T, U>(slots: Seq<Slot<T, U>>, q: Seq<Envelope<T>>) -> Seq<Slot<T, U>>
    decreases q.len(),
{
    if q.len() == 0 {
        slots
    } else {
        let e = q[0];
        let updated = slots.update(
            e.callback.slot_id(),
            Slot::Resolved { value: cancel_value(e), reader: slots[e.callback.slot_id()].reader_live() },
        );
        cancel_all(updated, q.drop_first())
    }
}

/// State after the receiver is dropped: demand is permanently revoked first, then the
/// queue is torn down, every still-queued envelope resolving its slot with a
/// cancellation error.
pub open spec fn drop_receiver_view<T, U>(v: ChannelView<T, U>) -> ChannelView<T, U> {
    ChannelView {
        queue: Seq::empty(),
        gate_canceled: true,
        rx_open: false,
        slots: cancel_all(v.slots, v.queue),
        ..v
    }
}

impl Receiver {
    /// Pulls the oldest envelope. On an empty open queue it reports pending
    /// and, as a side effect of observing emptiness, raises demand — this is
    /// what grants the next sender admission. On a closed, drained queue it
    /// reports the end of the stream.
    pub fn poll_recv<T, U>(&mut self, core: &mut ChannelCore<T, U>) -> (r: Poll<
        Option<(T, Callback)>,
    >)
        requires
            old(core).wf(),
        ensures
            final(core).wf(),
            final(core)@ == poll_recv_view(old(core)@),
            old(core)@.queue.len() > 0 ==> {
                &&& r == Poll::Ready(
                    Some((old(core)@.queue[0].val, old(core)@.queue[0].callback)),
                )
                &&& old(core)@.queue[0].callback.live_in(final(core)@)
            },
            old(core)@.queue.len() == 0 && !old(core)@.rx_open ==> r == Poll::Ready(
                Option::<(T, Callback)>::None,
            ),
            old(core)@.queue.len() == 0 && old(core)@.rx_open ==> r == Poll::<
                Option<(T, Callback)>,
            >::Pending,
    {
        if core.queue.len() > 0 {
            let env = core.queue.remove(0);
            proof {
                assert(final(core)@.queue =~= old(core)@.queue.drop_first());
                lemma_pop_keeps_wf(old(core)@, final(core)@);
            }
            Poll::Ready(Some((env.val, env.callback)))
        } else if !core.rx_open {
            Poll::Ready(None)
        } else {
            core.wanting = true;
            Poll::Pending
        }
    }

    /// Pulls the oldest envelope without raising demand.
    pub fn try_recv<T, U>(&mut self, core: &mut ChannelCore<T, U>) -> (r: Option<(T, Callback)>)
        requires
            old(core).wf(),
        ensures
            final(core).wf(),
            old(core)@.queue.len() > 0 ==> {
                &&& r == Some((old(core)@.queue[0].val, old(core)@.queue[0].callback))
                &&& final(core)@ == (ChannelView { queue: old(core)@.queue.drop_first(), ..old(core)@ })
                &&& old(core)@.queue[0].callback.live_in(final(core)@)
            },
            old(core)@.queue.len() == 0 ==> r is None && final(core)@ == old(core)@,
    {
        if core.queue.len() > 0 {
            let env = core.queue.remove(0);
            proof {
                assert(final(core)@.queue =~= old(core)@.queue.drop_first());
                lemma_pop_keeps_wf(old(core)@, final(core)@);
            }
            Some((env.val, env.callback))
        } else {
            None
        }
    }

    /// Revokes the demand gate and stops the queue from accepting new
    /// envelopes; already-queued ones stay receivable.
    pub fn close<T, U>(&mut self, core: &mut ChannelCore<T, U>)
        requires
            old(core).wf(),
        ensures
            final(core).wf(),
            final(core)@ == close_view(old(core)@),
    {
        core.gate_canceled = true;
        core.rx_open = false;
    }

    /// Tears the receiver down: demand is permanently revoked before the queue is
    /// released, so concurrent senders observe closure promptly; then every
    /// still-queued envelope resolves its slot with a cancellation error —
    /// the only path by which a queued-but-unprocessed request's caller ever
    /// gets an answer. This is the explicit form of dropping the receiver.
    pub fn drop_receiver<T, U>(self, core: &mut ChannelCore<T, U>)
        requires
            old(core).wf(),
        ensures
            final(core).wf(),
            final(core)@ == drop_receiver_view(old(core)@),
    {
        core.gate_canceled = true;
        core.rx_open = false;
        while core.queue.len() > 0
            invariant
                core.wf(),
                core@.gate_canceled,
                !core@.rx_open,
                core@.wanting == old(core)@.wanting,
                cancel_all(core@.slots, core@.queue) == cancel_all(
                    old(core)@.slots,
                    old(core)@.queue,
                ),
            decreases core@.queue.len(),
        {
            let ghost pre = core@;
            let env = core.queue.remove(0);
            let (idx, retry) = match env.callback {
                Callback::Retry { slot } => (slot, true),
                Callback::NoRetry { slot } => (slot, false),
            };
            let value: DispatchResult<T, U> = if retry {
                Err((DispatchError { kind: Kind::Canceled, reason: Reason::ConnectionClosed }, Some(env.val)))
            } else {
                Err((DispatchError { kind: Kind::Canceled, reason: Reason::ConnectionClosed }, None))
            };
            proof {
                assert(pre.queue[0].callback.wf_in(pre.slots));
            }
            resolve_slot(&mut core.slots, idx, value);
            proof {
                assert(core@.queue =~= pre.queue.drop_first());
                assert(core@.slots == cancel_all_step(pre.slots, pre.queue));
                lemma_cancel_step_keeps_wf(pre, core@);
            }
        }
        proof {
            assert(core@.queue =~= Seq::<Envelope<T>>::empty());
            assert(cancel_all(core@.slots, core@.queue) == core@.slots);
            assert(core@ =~= drop_receiver_view(old(core)@));
        }
    }
}

/// One unfolding of [`cancel_all`]: the first envelope's slot resolved.
pub open spec fn cancel_all_step<T, U>(slots: Seq<Slot<T, U>>, q: Seq<Envelope<T>>) -> Seq<
    Slot<T, U>,
>
    recommends
        q.len() > 0,
{
    slots.update(
        q[0].callback.slot_id(),
        Slot::Resolved {
            value: cancel_value(q[0]),
            reader: slots[q[0].callback.slot_id()].reader_live(),
        },
    )
}

/// Popping the front envelope and resolving its slot keeps the channel
/// well-formed: the remaining envelopes point at other, still-waiting slots.
proof fn lemma_cancel_step_keeps_wf<T, U>(v0: ChannelView<T, U>, v1: ChannelView<T, U>)
    requires
        v0.wf(),
        v0.queue.len() > 0,
        v1.queue == v0.queue.drop_first(),
        v1.slots == cancel_all_step(v0.slots, v0.queue),
    ensures
        v1.wf(),
{
    assert forall|i: int| 0 <= i < v1.queue.len() implies (#[trigger] v1.queue[i]).callback.wf_in(
        v1.slots,
    ) by {
        assert(v1.queue[i] == v0.queue[i + 1]);
        assert(v0.queue[i + 1].callback.wf_in(v0.slots));
        assert(v0.queue[i + 1].callback.slot_id() != v0.queue[0].callback.slot_id());
    }
    assert forall|i: int, j: int| 0 <= i < j < v1.queue.len() implies v1.queue[i].callback.slot_id()
        != v1.queue[j].callback.slot_id() by {
        assert(v1.queue[i] == v0.queue[i + 1]);
        assert(v1.queue[j] == v0.queue[j + 1]);
    }
}

/// Popping the front envelope alone keeps the channel well-formed.
proof fn lemma_pop_keeps_wf<T, U>(v0: ChannelView<T, U>, v1: ChannelView<T, U>)
    requires
        v0.wf(),
        v0.queue.len() > 0,
        v1.queue == v0.queue.drop_first(),
        v1.slots == v0.slots,
    ensures
        v1.wf(),
        v0.queue[0].callback.live_in(v1),
{
    assert forall|i: int| 0 <= i < v1.queue.len() implies (#[trigger] v1.queue[i]).callback.wf_in(
        v1.slots,
    ) by {
        assert(v1.queue[i] == v0.queue[i + 1]);
        assert(v0.queue[i + 1].callback.wf_in(v0.slots));
    }
    assert forall|i: int, j: int| 0 <= i < j < v1.queue.len() implies v1.queue[i].callback.slot_id()
        != v1.queue[j].callback.slot_id() by {
        assert(v1.queue[i] == v0.queue[i + 1]);
        assert(v1.queue[j] == v0.queue[j + 1]);
    }
    assert forall|i: int| 0 <= i < v1.queue.len() implies (#[trigger] v1.queue[i]).callback.slot_id()
        != v0.queue[0].callback.slot_id() by {
        assert(v1.queue[i] == v0.queue[i + 1]);
    }
}

/// Writes `value` into the still-waiting slot `idx`, keeping its reader flag.
fn resolve_slot<T, U>(slots: &mut Vec<Slot<T, U>>, idx: usize, value: DispatchResult<T, U>)
    requires
        idx < old(slots)@.len(),
        old(slots)@[idx as int] is Waiting,
    ensures
        final(slots)@ == old(slots)@.update(
            idx as int,
            Slot::Resolved { value, reader: old(slots)@[idx as int].reader_live() },
        ),
{
    let s = slots.remove(idx);
    let reader = match s {
        Slot::Waiting { reader } => reader,
        _ => false,
    };
    slots.insert(idx, Slot::Resolved { value, reader });
    proof {
        assert(final(slots)@ =~= old(slots)@.update(
            idx as int,
            Slot::Resolved { value, reader: old(slots)@[idx as int].reader_live() },
        ));
    }
}

// ---------------------------------------------------------------------------
// Callback resolution
// ---------------------------------------------------------------------------

/// What an explicit `send` through a callback stores: the value as given for
/// the retry-capable flavor; with the retry context erased for the final one.
pub open spec fn callback_stored<T, U>(cb: Callback, val: DispatchResult<T, U>) -> DispatchResult<
    T,
    U,
> {
    if cb.is_retry() {
        val
    } else {
        match val {
            Ok(u) => Ok(u),
            Err((e, _)) => Err((e, None)),
        }
    }
}

/// State after a callback resolves its slot with `stored`.
pub open spec fn callback_send_view<T, U>(
    v: ChannelView<T, U>,
    cb: Callback,
    stored: DispatchResult<T, U>,
) -> ChannelView<T, U> {
    ChannelView {
        slots: v.slots.update(
            cb.slot_id(),
            Slot::Resolved { value: stored, reader: v.slots[cb.slot_id()].reader_live() },
        ),
        ..v
    }
}

impl Callback {
    /// A callback held by the driver: its slot is still waiting, and no
    /// queued envelope points at that slot.
    pub open spec fn live_in<T, U>(self, v: ChannelView<T, U>) -> bool {
        &&& self.wf_in(v.slots)
        &&& forall|i: int|
            0 <= i < v.queue.len() ==> (#[trigger] v.queue[i]).callback.slot_id() != self.slot_id()
    }

    /// Resolves the slot with `val`, exactly once: the callback is consumed.
    /// The final flavor erases the retry context, discarding any returned
    /// request.
    pub fn send<T, U>(self, core: &mut ChannelCore<T, U>, val: DispatchResult<T, U>)
        requires
            old(core).wf(),
            self.live_in(old(core)@),
        ensures
            final(core).wf(),
            final(core)@ == callback_send_view(old(core)@, self, callback_stored(self, val)),
    {
        let (idx, retry) = match self {
            Callback::Retry { slot } => (slot, true),
            Callback::NoRetry { slot } => (slot, false),
        };
        let stored: DispatchResult<T, U> = if retry {
            val
        } else {
            match val {
                Ok(u) => Ok(u),
                Err((e, _)) => Err((e, None)),
            }
        };
        resolve_slot(&mut core.slots, idx, stored);
        proof {
            lemma_resolve_detached_keeps_wf(old(core)@, final(core)@, idx as int);
        }
    }

    /// The destruction-time duty of an unsent callback: synthesizes an
    /// abandonment error whose message tells a panicking driver from one
    /// that was dropped cleanly, and resolves the slot with it. This is the
    /// explicit form of dropping the callback.
    pub fn abandon<T, U>(self, core: &mut ChannelCore<T, U>, panicking: bool)
        requires
            old(core).wf(),
            self.live_in(old(core)@),
        ensures
            final(core).wf(),
            final(core)@ == callback_send_view(
                old(core)@,
                self,
                Err((abandon_error(panicking), None)),
            ),
    {
        let idx = match self {
            Callback::Retry { slot } => slot,
            Callback::NoRetry { slot } => slot,
        };
        let e = DispatchError {
            kind: Kind::UserDispatchGone,
            reason: if panicking {
                Reason::UserCodePanicked
            } else {
                Reason::DriverDropped
            },
        };
        resolve_slot(&mut core.slots, idx, Err((e, None)));
        proof {
            lemma_resolve_detached_keeps_wf(old(core)@, final(core)@, idx as int);
        }
    }

    /// Non-suspending snapshot: the caller has dropped its read handle.
    pub fn is_canceled<T, U>(&self, core: &ChannelCore<T, U>) -> (r: bool)
        requires
            core.wf(),
            self.wf_in(core@.slots),
        ensures
            r == !core@.slots[self.slot_id()].reader_live(),
    {
        let idx = match self {
            Callback::Retry { slot } => *slot,
            Callback::NoRetry { slot } => *slot,
        };
        match &core.slots[idx] {
            Slot::Waiting { reader } => !*reader,
            Slot::Resolved { reader, .. } => !*reader,
            Slot::Taken => true,
        }
    }

    /// Resolves once the caller has dropped its read handle; pending while
    /// the caller still listens.
    pub fn poll_canceled<T, U>(&self, core: &ChannelCore<T, U>) -> (r: Poll<()>)
        requires
            core.wf(),
            self.wf_in(core@.slots),
        ensures
            r == if !core@.slots[self.slot_id()].reader_live() {
                Poll::Ready(())
            } else {
                Poll::<()>::Pending
            },
    {
        if self.is_canceled(core) {
            Poll::Ready(())
        } else {
            Poll::Pending
        }
    }
}

/// Resolving a slot that no queued envelope points at keeps the channel
/// well-formed.
proof fn lemma_resolve_detached_keeps_wf<T, U>(v0: ChannelView<T, U>, v1: ChannelView<T, U>, idx: int)
    requires
        v0.wf(),
        0 <= idx < v0.slots.len(),
        forall|i: int| 0 <= i < v0.queue.len() ==> (#[trigger] v0.queue[i]).callback.slot_id() != idx,
        v1.queue == v0.queue,
        v1.slots.len() == v0.slots.len(),
        forall|i: int| 0 <= i < v0.slots.len() && i != idx ==> v1.slots[i] == v0.slots[i],
    ensures
        v1.wf(),
{
    assert forall|i: int| 0 <= i < v1.queue.len() implies (#[trigger] v1.queue[i]).callback.wf_in(
        v1.slots,
    ) by {
        assert(v0.queue[i].callback.wf_in(v0.slots));
    }
}

// ---------------------------------------------------------------------------
// Bridge task
// ---------------------------------------------------------------------------

/// One observation of a request's underlying completion, as handed to the
/// bridge by the driver loop each wake.
pub enum When<U> {
    /// The completion finished with a response or a transport error.
    Ready(Result<U, DispatchError>),
    /// The completion is still in flight.
    Pending,
}

/// What the bridge delivers for a finished completion: multiplexed work is
/// not retryable, so a failure carries no request back.
pub open spec fn bridge_result<T, U>(res: Result<U, DispatchError>) -> DispatchResult<T, U> {
    match res {
        Ok(u) => Ok(u),
        Err(e) => Err((e, None)),
    }
}

/// The bridge task for multiplexed connections: races a request's completion
/// against the caller's loss of interest, and resolves to whichever happens
/// first. Holds the callback while pending; consumed exactly once on
/// completion.
pub struct SendWhen {
    call_back: Option<Callback>,
}

impl SendWhen {
    /// Terminal: the bridge has delivered, or decided no delivery is needed.
    pub closed spec fn is_complete(self) -> bool {
        self.call_back is None
    }

    /// The callback a still-pending bridge holds.
    pub closed spec fn pending_callback(self) -> Callback
        recommends
            !self.is_complete(),
    {
        self.call_back->Some_0
    }

    /// Pairs a fresh bridge with the callback of an accepted multiplexed
    /// send.
    pub fn new(cb: Callback) -> (r: SendWhen)
        ensures
            !r.is_complete(),
            r.pending_callback() == cb,
    {
        SendWhen { call_back: Some(cb) }
    }

    /// One wake of the bridge. If the completion is ready, its outcome is
    /// delivered through the callback and the bridge is complete. If not,
    /// the caller's cancellation signal is checked: a caller that walked
    /// away completes the bridge with no delivery at all — no second error
    /// is synthesized — while a still-interested caller leaves the bridge
    /// pending, unchanged.
    pub fn poll<T, U>(&mut self, core: &mut ChannelCore<T, U>, when: When<U>) -> (r: Poll<()>)
        requires
            old(core).wf(),
            !old(self).is_complete(),
            old(self).pending_callback().live_in(old(core)@),
        ensures
            final(core).wf(),
            (match when {
                When::Ready(res) => {
                    &&& final(core)@ == callback_send_view(
                        old(core)@,
                        old(self).pending_callback(),
                        callback_stored(old(self).pending_callback(), bridge_result(res)),
                    )
                    &&& r == Poll::Ready(())
                    &&& final(self).is_complete()
                },
                When::Pending => {
                    &&& final(core)@ == old(core)@
                    &&& if old(core)@.slots[old(self).pending_callback().slot_id()].reader_live() {
                        r == Poll::<()>::Pending && *final(self) == *old(self)
                    } else {
                        r == Poll::Ready(()) && final(self).is_complete()
                    }
                },
            }),
    {
        let cb = match self.call_back.take() {
            Some(c) => c,
            None => unreached(),
        };
        match when {
            When::Ready(Ok(res)) => {
                cb.send(core, Ok(res));
                Poll::Ready(())
            },
            When::Pending => {
                match cb.poll_canceled(core) {
                    Poll::Ready(()) => {
                        // The caller already walked away: complete without
                        // delivering; the callback's own abandonment duty is
                        // explicitly not performed.
                        Poll::Ready(())
                    },
                    Poll::Pending => {
                        self.call_back = Some(cb);
                        Poll::Pending
                    },
                }
            },
            When::Ready(Err(err)) => {
                cb.send(core, Err((err, None)));
                Poll::Ready(())
            },
        }
    }
}

// ---------------------------------------------------------------------------
// Channel-wide laws
// ---------------------------------------------------------------------------

/// On a fresh channel that the receiver has never polled, the very first
/// send is admitted as the single free pass; a second send before any
/// receiver poll is refused, leaves the channel unchanged, and (by the
/// `ensures` of `send` and `try_send`) hands the refused value back
/// unchanged.
pub proof fn lemma_second_send_refused<T, U>(a: T, b: T, retry_a: bool, retry_b: bool)
    ensures
        ({
            let v0 = fresh_view::<T, U>();
            let v1 = send_view(v0, false, a, retry_a);
            let b1 = send_buffered(v0, false);
            &&& send_accepted(v0, false)
            &&& !send_granted(v1, b1)
            &&& send_view(v1, b1, b, retry_b) == v1
            &&& send_buffered(v1, b1) == b1
        }),
{
}

/// Observing the queue empty is what grants the next sender admission: after
/// a receiver poll finds an open queue empty, a send is accepted even though
/// the sender's free pass is long spent.
pub proof fn lemma_poll_empty_grants_send<T, U>(v: ChannelView<T, U>, buffered_once: bool)
    requires
        v.queue.len() == 0,
        v.rx_open,
        !v.gate_canceled,
    ensures
        send_accepted(poll_recv_view(v), buffered_once),
{
}

/// Demand alone — not queue emptiness — admits a send: after the receiver
/// pulls an envelope from a non-empty queue, a sender whose free pass is
/// spent is still refused until a further poll finds the queue empty.
pub proof fn lemma_pop_does_not_grant_send<T, U>(v: ChannelView<T, U>)
    requires
        v.queue.len() > 0,
        !v.wanting,
    ensures
        !send_granted(poll_recv_view(v), true),
{
}

/// Tearing the receiver down resolves every queued envelope's slot with a
/// cancellation error, carrying the request back exactly for retry-capable
/// sends, and touches no other slot.
pub proof fn lemma_drop_receiver_cancels<T, U>(v: ChannelView<T, U>)
    requires
        v.wf(),
    ensures
        drop_receiver_view(v).slots.len() == v.slots.len(),
        forall|i: int|
            0 <= i < v.queue.len() ==> drop_receiver_view(v).slots[(#[trigger] v.queue[i]).callback.slot_id()]
                == (Slot::<T, U>::Resolved {
                value: cancel_value(v.queue[i]),
                reader: v.slots[v.queue[i].callback.slot_id()].reader_live(),
            }),
        forall|j: int|
            0 <= j < v.slots.len() && (forall|i: int|
                0 <= i < v.queue.len() ==> (#[trigger] v.queue[i]).callback.slot_id() != j)
                ==> drop_receiver_view(v).slots[j] == v.slots[j],
{
    lemma_cancel_all_pointwise(v.slots, v.queue);
}

/// Pointwise reading of [`cancel_all`]: each queued envelope's slot ends
/// resolved with its cancellation value; every other slot is untouched.
#[verifier::rlimit(50)]
proof fn lemma_cancel_all_pointwise<T, U>(slots: Seq<Slot<T, U>>, q: Seq<Envelope<T>>)
    requires
        (ChannelView::<T, U> {
            queue: q,
            wanting: false,
            gate_canceled: false,
            rx_open: true,
            slots,
        }).wf(),
    ensures
        cancel_all(slots, q).len() == slots.len(),
        forall|i: int|
            0 <= i < q.len() ==> cancel_all(slots, q)[(#[trigger] q[i]).callback.slot_id()]
                == (Slot::<T, U>::Resolved {
                value: cancel_value(q[i]),
                reader: slots[q[i].callback.slot_id()].reader_live(),
            }),
        forall|j: int|
            0 <= j < slots.len() && (forall|i: int|
                0 <= i < q.len() ==> (#[trigger] q[i]).callback.slot_id() != j) ==> cancel_all(
                slots,
                q,
            )[j] == slots[j],
    decreases q.len(),
{
    let v = ChannelView::<T, U> {
        queue: q,
        wanting: false,
        gate_canceled: false,
        rx_open: true,
        slots,
    };
    if q.len() > 0 {
        let e = q[0];
        assert(v.queue[0].callback.wf_in(slots));
        let slots1 = cancel_all_step(slots, q);
        let q1 = q.drop_first();
        let v1 = ChannelView::<T, U> {
            queue: q1,
            wanting: false,
            gate_canceled: false,
            rx_open: true,
            slots: slots1,
        };
        lemma_cancel_step_keeps_wf(v, v1);
        assert(cancel_all(slots, q) == cancel_all(slots1, q1));
        lemma_cancel_all_pointwise(slots1, q1);
        assert forall|i: int| 0 <= i < q.len() implies cancel_all(slots, q)[(#[trigger] q[i]).callback.slot_id()]
            == (Slot::<T, U>::Resolved {
            value: cancel_value(q[i]),
            reader: slots[q[i].callback.slot_id()].reader_live(),
        }) by {
            if i == 0 {
                let id = e.callback.slot_id();
                assert forall|k: int| 0 <= k < q1.len() implies (#[trigger] q1[k]).callback.slot_id()
                    != id by {
                    assert(q1[k] == q[k + 1]);
                }
                assert(cancel_all(slots1, q1)[id] == slots1[id]);
            } else {
                assert(q1[i - 1] == q[i]);
                assert(slots1[q[i].callback.slot_id()] == slots[q[i].callback.slot_id()]);
            }
        }
        assert forall|j: int|
            0 <= j < slots.len() && (forall|i: int|
                0 <= i < q.len() ==> (#[trigger] q[i]).callback.slot_id() != j) implies cancel_all(
            slots,
            q,
        )[j] == slots[j] by {
            assert(q[0].callback.slot_id() != j);
            assert(slots1[j] == slots[j]);
            assert forall|k: int| 0 <= k < q1.len() implies (#[trigger] q1[k]).callback.slot_id()
                != j by {
                assert(q1[k] == q[k + 1]);
            }
            assert(cancel_all(slots1, q1)[j] == slots1[j]);
        }
    }
}

/// A slot once resolved is never overwritten: every channel transition
/// either leaves a resolved slot exactly as it is, or — only by the slot's
/// own reader collecting the value, or walking away — moves it to taken or
/// drops its reader flag. In particular no transition ever writes a second
/// value, which is the exactly-once delivery guarantee.
pub open spec fn resolved_values_stable<T, U>(v1: ChannelView<T, U>, v2: ChannelView<T, U>) -> bool {
    &&& v1.slots.len() <= v2.slots.len()
    &&& forall|i: int|
        0 <= i < v1.slots.len() ==> ((#[trigger] v1.slots[i]) matches Slot::Resolved { value, .. }
            ==> (v2.slots[i] == v1.slots[i] || v2.slots[i] == (Slot::<T, U>::Resolved {
            value,
            reader: false,
        }) || v2.slots[i] is Taken))
}

/// Every transition of the channel preserves resolved slots' values.
pub proof fn lemma_write_once<T, U>(
    v: ChannelView<T, U>,
    buffered_once: bool,
    val: T,
    retry: bool,
    cb: Callback,
    stored: DispatchResult<T, U>,
    idx: int,
)
    requires
        v.wf(),
    ensures
        resolved_values_stable(v, send_view(v, buffered_once, val, retry)),
        resolved_values_stable(v, unbounded_send_view(v, val, retry)),
        resolved_values_stable(v, poll_recv_view(v)),
        resolved_values_stable(v, close_view(v)),
        resolved_values_stable(v, drop_receiver_view(v)),
        cb.wf_in(v.slots) ==> resolved_values_stable(v, callback_send_view(v, cb, stored)),
        0 <= idx < v.slots.len() ==> resolved_values_stable(
            v,
            ChannelView { slots: v.slots.update(idx, without_reader(v.slots[idx])), ..v },
        ),
        0 <= idx < v.slots.len() ==> resolved_values_stable(
            v,
            ChannelView { slots: v.slots.update(idx, Slot::Taken), ..v },
        ),
{
    lemma_cancel_all_pointwise(v.slots, v.queue);
    assert forall|i: int|
        0 <= i < v.slots.len() && (#[trigger] v.slots[i]) is Resolved implies drop_receiver_view(
        v,
    ).slots[i] == v.slots[i] by {
        assert forall|k: int| 0 <= k < v.queue.len() implies (#[trigger] v.queue[k]).callback.slot_id()
            != i by {
            assert(v.queue[k].callback.wf_in(v.slots));
        }
    }
}

/// The multiplexed sender is never refused for backpressure: a send is
/// accepted exactly while the receiver is alive, with no admission check at all.
pub proof fn lemma_unbounded_send_no_backpressure<T, U>(v: ChannelView<T, U>, val: T, retry: bool)
    ensures
        v.rx_open ==> unbounded_send_view(v, val, retry).queue.len() == v.queue.len() + 1,
        !v.rx_open ==> unbounded_send_view(v, val, retry).queue == v.queue,
{
}

/// A bridge whose caller walked away before the completion resolved
/// terminates without delivering anything: the channel state is untouched,
/// and the consumed callback can never send again.
pub proof fn lemma_bridge_cancel_no_delivery<T, U>(v: ChannelView<T, U>, cb: Callback)
    requires
        v.wf(),
        cb.wf_in(v.slots),
        !v.slots[cb.slot_id()].reader_live(),
    ensures
        v.slots[cb.slot_id()] is Waiting,
        v.slots[cb.slot_id()] !is Resolved,
{
}

/// Turning a resolved slot into a taken one keeps the queue well-formed: no
/// live envelope points at a resolved slot.
proof fn lemma_resolve_untouched_keeps_wf<T, U>(v0: ChannelView<T, U>, v1: ChannelView<T, U>)
    requires
        v0.wf(),
        v1.queue == v0.queue,
        v1.slots.len() == v0.slots.len(),
        forall|i: int|
            0 <= i < v0.slots.len() && v0.slots[i] is Waiting ==> v1.slots[i] == v0.slots[i],
    ensures
        v1.wf(),
{
    assert forall|i: int| 0 <= i < v1.queue.len() implies (#[trigger] v1.queue[i]).callback.wf_in(
        v1.slots,
    ) by {
        assert(v0.queue[i].callback.wf_in(v0.slots));
    }
}

} // verus!
