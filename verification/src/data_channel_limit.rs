//! How many data channels a service may have at a time.
use crate::registry::Registry;
use std::sync::Arc;
use vstd::prelude::*;

verus! {

/// A bound on data channels, and how many there are.
#[derive(Debug)]
pub struct DataChannelLimiter {
    limit: usize,
    in_use: usize,
}

/// The right to run one data channel.
#[derive(Debug)]
pub struct DataChannelPermit {
    granted: bool,
}

/// What a limiter amounts to.
pub struct LimiterState {
    pub limit: nat,
    pub in_use: nat,
}

impl LimiterState {
    /// Whether one more channel may run.
    pub open spec fn has_room(self) -> bool {
        self.in_use < self.limit
    }

    /// After a request for a permit: one more is out, if there was room.
    pub open spec fn acquired(self) -> LimiterState {
        if self.has_room() {
            LimiterState { in_use: self.in_use + 1, ..self }
        } else {
            self
        }
    }

    /// After a permit was given back.
    pub open spec fn released(self) -> LimiterState {
        LimiterState { in_use: (self.in_use - 1) as nat, ..self }
    }

    /// After the bound was changed.
    pub open spec fn limited_to(self, limit: nat) -> LimiterState {
        LimiterState { limit, ..self }
    }
}

impl View for DataChannelLimiter {
    type V = LimiterState;

    closed spec fn view(&self) -> LimiterState {
        LimiterState { limit: self.limit as nat, in_use: self.in_use as nat }
    }
}

impl DataChannelLimiter {
    /// A limiter with no channel running.
    pub fn new(limit: usize) -> (r: Self)
        ensures
            r@ == (LimiterState { limit: limit as nat, in_use: 0 }),
    {
        DataChannelLimiter { limit, in_use: 0 }
    }

    /// Changes the bound, and says whether it was another. Channels that run
    /// go on, also those above a lower bound.
    pub fn update_limit(&mut self, limit: usize) -> (changed: bool)
        ensures
            final(self)@ == old(self)@.limited_to(limit as nat),
            changed == (old(self)@.limit != limit),
    {
        let changed = self.limit != limit;
        self.limit = limit;
        changed
    }

    /// Grants a permit if there is room for one more channel.
    pub fn try_acquire(&mut self) -> (r: Option<DataChannelPermit>)
        ensures
            r is Some <==> old(self)@.has_room(),
            final(self)@ == old(self)@.acquired(),
    {
        if self.in_use >= self.limit {
            return None;
        }
        self.in_use = self.in_use + 1;
        Some(DataChannelPermit { granted: true })
    }

    /// Takes a permit back.
    pub fn release(&mut self, permit: DataChannelPermit)
        requires
            old(self)@.in_use > 0,
        ensures
            final(self)@ == old(self)@.released(),
    {
        let _ = permit;
        self.in_use = self.in_use - 1;
    }

    /// How many channels run.
    pub fn in_use(&self) -> (r: usize)
        ensures
            r == self@.in_use,
    {
        self.in_use
    }
}

/// What can happen to a limiter.
pub enum LimiterEvent {
    Acquire,
    Release,
    Update(nat),
}

/// A limiter after a run of events, and how many permits were granted in it.
pub open spec fn limiter_run(s: LimiterState, events: Seq<LimiterEvent>) -> (LimiterState, nat)
    decreases events.len(),
{
    if events.len() == 0 {
        (s, 0)
    } else {
        let (t, n) = limiter_run(s, events.drop_last());
        match events.last() {
            LimiterEvent::Acquire => (
                t.acquired(),
                if t.has_room() {
                    n + 1
                } else {
                    n
                },
            ),
            LimiterEvent::Release => (t.released(), n),
            LimiterEvent::Update(l) => (t.limited_to(l), n),
        }
    }
}

/// How many permits were given back in a run.
pub open spec fn releases(events: Seq<LimiterEvent>) -> nat
    decreases events.len(),
{
    if events.len() == 0 {
        0
    } else {
        releases(events.drop_last()) + if events.last() is Release {
            1nat
        } else {
            0nat
        }
    }
}

/// Permits are given back only while some are out.
pub open spec fn limiter_run_ok(s: LimiterState, events: Seq<LimiterEvent>) -> bool
    decreases events.len(),
{
    events.len() > 0 ==> {
        &&& limiter_run_ok(s, events.drop_last())
        &&& events.last() is Release ==> limiter_run(s, events.drop_last()).0.in_use > 0
    }
}

/// The count of a limiter is the permits granted less those given back.
pub proof fn in_use_counts_outstanding_permits(s: LimiterState, events: Seq<LimiterEvent>)
    requires
        s.in_use == 0,
        limiter_run_ok(s, events),
    ensures
        limiter_run(s, events).0.in_use + releases(events) == limiter_run(s, events).1,
    decreases events.len(),
{
    if events.len() > 0 {
        in_use_counts_outstanding_permits(s, events.drop_last());
    }
}

/// While the bound stays, no more channels run than it allows.
pub proof fn limit_is_never_exceeded(s: LimiterState, events: Seq<LimiterEvent>)
    requires
        s.in_use <= s.limit,
        limiter_run_ok(s, events),
        forall|i: int| 0 <= i < events.len() ==> !(#[trigger] events[i] is Update),
    ensures
        limiter_run(s, events).0.limit == s.limit,
        limiter_run(s, events).0.in_use <= s.limit,
    decreases events.len(),
{
    if events.len() > 0 {
        let before = events.drop_last();
        assert forall|i: int| 0 <= i < before.len() implies !(#[trigger] before[i] is Update) by {
            assert(before[i] == events[i]);
        }
        limit_is_never_exceeded(s, before);
        assert(!(events[events.len() - 1] is Update));
    }
}

/// Giving a permit back undoes the grant.
pub proof fn release_undoes_acquire(s: LimiterState)
    requires
        s.has_room(),
    ensures
        s.acquired().released() == s,
{
}

/// The limiters once one was offered for a service: the first one stays.
pub open spec fn with_limiter<L>(
    limiters: Map<Seq<char>, Arc<L>>,
    service_name: Seq<char>,
    limiter: Arc<L>,
) -> Map<Seq<char>, Arc<L>> {
    if limiters.dom().contains(service_name) {
        limiters
    } else {
        limiters.insert(service_name, limiter)
    }
}

/// Keeps a limiter for a service, unless the service has one; gives the one
/// that the service has from now on.
pub fn register_data_channel_limiter<L>(
    registry: &mut Registry<String, Arc<L>>,
    service_name: &str,
    limiter: Arc<L>,
) -> (r: Arc<L>)
    requires
        old(registry).wf(),
    ensures
        final(registry).wf(),
        final(registry)@ == with_limiter(old(registry)@, service_name@, limiter),
        r == final(registry)@[service_name@],
{
    if let Some(existing) = registry.get(&service_name.to_owned()) {
        return Arc::clone(existing);
    }
    registry.insert(service_name.to_owned(), Arc::clone(&limiter));
    limiter
}

/// Of two limiters that are offered for a service one after the other, the
/// first one stays, until it is taken back.
pub proof fn first_limiter_stays<L>(
    limiters: Map<Seq<char>, Arc<L>>,
    service_name: Seq<char>,
    first: Arc<L>,
    second: Arc<L>,
)
    requires
        !limiters.dom().contains(service_name),
    ensures
        ({
            let once = with_limiter(limiters, service_name, first);
            &&& once[service_name] == first
            &&& with_limiter(once, service_name, second) == once
            &&& once.remove(service_name) == limiters
        }),
{
    assert(with_limiter(limiters, service_name, first).remove(service_name) =~= limiters);
}

/// Forgets the limiter of a service, and gives it back.
pub fn unregister_data_channel_limiter<L>(
    registry: &mut Registry<String, Arc<L>>,
    service_name: &str,
) -> (r: Option<Arc<L>>)
    requires
        old(registry).wf(),
    ensures
        final(registry).wf(),
        final(registry)@ == old(registry)@.remove(service_name@),
        r is Some <==> old(registry)@.dom().contains(service_name@),
        r matches Some(l) ==> l == old(registry)@[service_name@],
{
    registry.remove(&service_name.to_owned())
}

/// The limiter of a service.
pub fn get_data_channel_limiter<L>(registry: &Registry<String, Arc<L>>, service_name: &str) -> (r: Option<
    Arc<L>,
>)
    requires
        registry.wf(),
    ensures
        r is Some <==> registry@.dom().contains(service_name@),
        r matches Some(l) ==> l == registry@[service_name@],
{
    match registry.get(&service_name.to_owned()) {
        Some(l) => Some(Arc::clone(l)),
        None => None,
    }
}

/// A permit is granted exactly while fewer channels run than the bound allows;
/// a grant counts for one more, a permit that comes back for one less, and a
/// refusal or a change of the bound for nothing.
pub proof fn permits_are_counted(s: LimiterState, limit: nat)
    ensures
        s.has_room() <==> s.in_use < s.limit,
        s.has_room() ==> s.acquired().in_use == s.in_use + 1,
        !s.has_room() ==> s.acquired() == s,
        s.acquired().limit == s.limit,
        s.in_use > 0 ==> s.released().in_use == s.in_use - 1,
        s.released().limit == s.limit,
        s.limited_to(limit).limit == limit,
        s.limited_to(limit).in_use == s.in_use,
{
}

/// Of the permits asked for while none comes back, as many are granted as there
/// is room for, and no fewer.
pub proof fn all_the_room_is_given_out(s: LimiterState, events: Seq<LimiterEvent>)
    requires
        s.in_use <= s.limit,
        forall|i: int| 0 <= i < events.len() ==> (#[trigger] events[i]) is Acquire,
    ensures
        limiter_run(s, events).1 == (if s.in_use + events.len() <= s.limit {
            events.len() as int
        } else {
            s.limit - s.in_use
        }),
        limiter_run(s, events).0.in_use == s.in_use + limiter_run(s, events).1,
        limiter_run(s, events).0.limit == s.limit,
    decreases events.len(),
{
    if events.len() > 0 {
        let before = events.drop_last();
        assert forall|i: int| 0 <= i < before.len() implies (#[trigger] before[i]) is Acquire by {
            assert(before[i] == events[i]);
        }
        all_the_room_is_given_out(s, before);
        assert(events[events.len() - 1] is Acquire);
    }
}

/// A limiter that is offered for a service leaves those of other services
/// alone, and the service has one afterwards: its first.
pub proof fn limiters_are_for_their_service<L>(
    limiters: Map<Seq<char>, Arc<L>>,
    service_name: Seq<char>,
    limiter: Arc<L>,
    other: Seq<char>,
)
    ensures
        ({
            let after = with_limiter(limiters, service_name, limiter);
            &&& after.dom().contains(service_name)
            &&& limiters.dom().contains(service_name) ==> after[service_name]
                == limiters[service_name]
            &&& !limiters.dom().contains(service_name) ==> after[service_name] == limiter
            &&& other != service_name ==> (after.dom().contains(other) <==> limiters.dom().contains(
                other,
            ))
            &&& other != service_name && limiters.dom().contains(other) ==> after[other]
                == limiters[other]
        }),
{
}

} // verus!
