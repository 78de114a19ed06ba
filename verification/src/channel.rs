//! The shared secure-channel handle and its single-flight discipline: at most
//! one forward call is in flight on a channel at a time, so request/response
//! pairs of concurrent callers can never interleave on the wire.
//!
//! The owning process wraps a [`SecureChannel`] in a lock; a caller holds the
//! lock from `begin_call` to `finish_call`, so one mutex around the
//! downstream handle serializes all forwarding through it.

use vstd::prelude::*;

verus! {

/// One step in a channel's life: a request going out under a correlation id,
/// or the matching response coming back.
pub enum ChannelEvent {
    Begin { id: Seq<char> },
    Finish { id: Seq<char> },
}

/// The correlation id an event carries.
pub open spec fn event_id(e: ChannelEvent) -> Seq<char> {
    match e {
        ChannelEvent::Begin { id } => id,
        ChannelEvent::Finish { id } => id,
    }
}

/// Whether the single-flight discipline accepts a trace starting from the
/// given state (the id in flight, if any): a request may only go out while
/// the channel is free, and only the response for the id in flight may come
/// back.
pub open spec fn channel_accepts(state: Option<Seq<char>>, trace: Seq<ChannelEvent>) -> bool
    decreases trace.len(),
{
    trace.len() == 0 || (match (state, trace[0]) {
        (Option::None, ChannelEvent::Begin { id }) => channel_accepts(
            Some(id),
            trace.drop_first(),
        ),
        (Option::Some(cur), ChannelEvent::Finish { id }) => id == cur && channel_accepts(
            Option::None,
            trace.drop_first(),
        ),
        _ => false,
    })
}

/// The id in flight after an accepted trace has run from the given state.
pub open spec fn channel_state_after(
    state: Option<Seq<char>>,
    trace: Seq<ChannelEvent>,
) -> Option<Seq<char>>
    decreases trace.len(),
{
    if trace.len() == 0 {
        state
    } else {
        match trace[0] {
            ChannelEvent::Begin { id } => channel_state_after(Some(id), trace.drop_first()),
            ChannelEvent::Finish { id: _ } => channel_state_after(
                Option::None,
                trace.drop_first(),
            ),
        }
    }
}

/// A downstream outcome handed back to a gateway caller, paired with the
/// correlation id of the request it answers.
pub struct CallOutcome {
    pub success: bool,
    pub correlation_id: String,
}

/// The one long-lived handle to a downstream peer. It records which call is
/// in flight; its contract forbids a second request before the first
/// response, which is the single-flight guarantee.
pub struct SecureChannel {
    in_flight: Option<String>,
    history: Ghost<Seq<ChannelEvent>>,
}

impl SecureChannel {
    /// The correlation id of the call now in flight, if any.
    pub closed spec fn in_flight_id(&self) -> Option<Seq<char>> {
        match self.in_flight {
            Option::Some(ref s) => Some(s@),
            Option::None => Option::None,
        }
    }

    /// Everything that ever went over this channel, in order.
    pub closed spec fn history(&self) -> Seq<ChannelEvent> {
        self.history@
    }

    /// A channel's history is always a trace the single-flight discipline
    /// accepts, and it ends in the channel's current state.
    pub closed spec fn wf(&self) -> bool {
        &&& channel_accepts(Option::None, self.history@)
        &&& channel_state_after(Option::None, self.history@) == self.in_flight_id()
    }

    /// A fresh, free channel with an empty history. The handshake that makes
    /// the underlying transport ready is the bootstrapper's business; this
    /// value only disciplines the calls made over it.
    pub fn new() -> (r: Self)
        ensures
            r.wf(),
            r.in_flight_id() is None,
            r.history() == Seq::<ChannelEvent>::empty(),
    {
        SecureChannel { in_flight: Option::None, history: Ghost(Seq::empty()) }
    }

    /// Whether no call is in flight, so the channel may be claimed.
    pub fn is_free(&self) -> (r: bool)
        ensures
            r == (self.in_flight_id() is None),
    {
        self.in_flight.is_none()
    }

    /// Claims the channel for one forward call. Only a free channel can be
    /// claimed, so concurrent callers queue and are served in arrival order.
    pub fn begin_call(&mut self, correlation_id: &String)
        requires
            old(self).wf(),
            old(self).in_flight_id() is None,
        ensures
            final(self).wf(),
            final(self).in_flight_id() == Some(correlation_id@),
            final(self).history() == old(self).history().push(
                ChannelEvent::Begin { id: correlation_id@ },
            ),
    {
        proof {
            lemma_accepts_snoc(
                Option::None,
                self.history@,
                ChannelEvent::Begin { id: correlation_id@ },
            );
        }
        self.in_flight = Some(correlation_id.clone());
        self.history = Ghost(self.history@.push(ChannelEvent::Begin { id: correlation_id@ }));
    }

    /// Releases the channel: the downstream outcome is paired with the
    /// correlation id that was in flight — never any other — and the channel
    /// becomes free for the next queued caller.
    pub fn finish_call(&mut self, success: bool) -> (r: CallOutcome)
        requires
            old(self).wf(),
            old(self).in_flight_id() is Some,
        ensures
            final(self).wf(),
            final(self).in_flight_id() is None,
            r.success == success,
            r.correlation_id@ == old(self).in_flight_id()->Some_0,
            final(self).history() == old(self).history().push(
                ChannelEvent::Finish { id: r.correlation_id@ },
            ),
    {
        let taken = self.in_flight.take();
        let id = match taken {
            Option::Some(s) => s,
            Option::None => {
                proof {
                    assert(false);
                }
                String::new()
            },
        };
        proof {
            lemma_accepts_snoc(Option::None, self.history@, ChannelEvent::Finish { id: id@ });
        }
        self.history = Ghost(self.history@.push(ChannelEvent::Finish { id: id@ }));
        CallOutcome { success, correlation_id: id }
    }
}

/// Extending an accepted trace by one event the current state allows keeps
/// it accepted, and runs to the state that event leads to.
proof fn lemma_accepts_snoc(state: Option<Seq<char>>, trace: Seq<ChannelEvent>, e: ChannelEvent)
    requires
        channel_accepts(state, trace),
        match e {
            ChannelEvent::Begin { id } => channel_state_after(state, trace) is None,
            ChannelEvent::Finish { id } => channel_state_after(state, trace) == Some(id),
        },
    ensures
        channel_accepts(state, trace.push(e)),
        channel_state_after(state, trace.push(e)) == (match e {
            ChannelEvent::Begin { id } => Some(id),
            ChannelEvent::Finish { id: _ } => Option::None::<Seq<char>>,
        }),
    decreases trace.len(),
{
    if trace.len() == 0 {
        let t1 = trace.push(e);
        assert(t1[0] == e);
        assert(t1.drop_first() =~= Seq::<ChannelEvent>::empty());
        match e {
            ChannelEvent::Begin { id } => {
                assert(channel_accepts(Some(id), t1.drop_first()));
                assert(channel_state_after(Some(id), t1.drop_first()) == Some(id));
            },
            ChannelEvent::Finish { id } => {
                assert(channel_accepts(Option::None, t1.drop_first()));
                assert(channel_state_after(
                    Option::None::<Seq<char>>,
                    t1.drop_first(),
                ) is None);
            },
        }
    } else {
        assert(trace.push(e)[0] == trace[0]);
        assert(trace.push(e).drop_first() =~= trace.drop_first().push(e));
        match (state, trace[0]) {
            (Option::None, ChannelEvent::Begin { id }) => {
                lemma_accepts_snoc(Some(id), trace.drop_first(), e);
            },
            (Option::Some(cur), ChannelEvent::Finish { id }) => {
                lemma_accepts_snoc(Option::None, trace.drop_first(), e);
            },
            _ => {},
        }
    }
}

/// Law: calls over one channel never interleave. In every trace the
/// single-flight discipline accepts, events strictly alternate — each
/// request is answered before the next goes out — and each response carries
/// exactly the correlation id of the request it follows.
pub proof fn lemma_no_interleaving(trace: Seq<ChannelEvent>)
    requires
        channel_accepts(Option::None, trace),
    ensures
        forall|k: int|
            0 <= k && 2 * k < trace.len() ==> #[trigger] trace[2 * k] is Begin,
        forall|k: int|
            0 <= k && 2 * k + 1 < trace.len() ==> #[trigger] trace[2 * k + 1] is Finish
                && event_id(trace[2 * k + 1]) == event_id(trace[2 * k]),
    decreases trace.len(),
{
    if trace.len() == 0 {
    } else if trace.len() == 1 {
        assert(trace[0] is Begin);
    } else {
        assert(trace[0] is Begin);
        let d1 = trace.drop_first();
        assert(channel_accepts(Some(event_id(trace[0])), d1));
        assert(d1[0] == trace[1]);
        assert(trace[1] is Finish && event_id(trace[1]) == event_id(trace[0]));
        let rest = d1.drop_first();
        assert(channel_accepts(Option::None, rest));
        assert forall|i: int| 0 <= i < rest.len() implies rest[i] == trace[i + 2] by {
            assert(d1[i + 1] == trace[i + 2]);
        }
        lemma_no_interleaving(rest);
        assert forall|k: int| 0 <= k && 2 * k < trace.len() implies #[trigger] trace[2 * k]
            is Begin by {
            if k > 0 {
                assert(rest[2 * (k - 1)] == trace[2 * k]);
            }
        }
        assert forall|k: int| 0 <= k && 2 * k + 1 < trace.len() implies #[trigger] trace[2 * k + 1]
            is Finish && event_id(trace[2 * k + 1]) == event_id(trace[2 * k]) by {
            if k > 0 {
                assert(rest[2 * (k - 1)] == trace[2 * k]);
                assert(rest[2 * (k - 1) + 1] == trace[2 * k + 1]);
            }
        }
    }
}

/// Law, applied to the handle itself: whatever sequence of calls a channel
/// has served, requests and responses alternate strictly and every response
/// carries the id of the request it follows.
pub proof fn lemma_channel_history_paired(c: &SecureChannel)
    requires
        c.wf(),
    ensures
        forall|k: int|
            0 <= k && 2 * k < c.history().len() ==> #[trigger] c.history()[2 * k] is Begin,
        forall|k: int|
            0 <= k && 2 * k + 1 < c.history().len() ==> #[trigger] c.history()[2 * k + 1]
                is Finish && event_id(c.history()[2 * k + 1]) == event_id(c.history()[2 * k]),
{
    lemma_no_interleaving(c.history());
}

} // verus!
